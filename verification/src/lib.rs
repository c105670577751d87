//! The rules by which the enemies of a tower defence move, proved with Verus.
//!
//! An enemy is a kinematic agent: nothing moves it but this library. In each
//! step of the simulation
//!
//! 1. every agent takes its bearings on its patrol path and says along which
//!    axes it wants to move ([`path`], [`movement::follow_path`]),
//! 2. each of these intents accelerates the agent that stated it
//!    ([`movement::movement`]),
//! 3. every agent's velocity is damped ([`movement::apply_movement_damping`]),
//! 4. collision detection, which is somebody else's business, reports the
//!    contacts of the step, and
//! 5. every agent is pushed out of what it overlaps and slowed before what it
//!    is about to hit ([`collision::kinematic_controller_collisions`]).
//!
//! [`movement::update`] runs the first three in this order.
//!
//! All numbers are fixed-point numbers that count millionths ([`fixed`]), so
//! that a step gives the same result on every machine and every contract can
//! say exactly what it is. No function of the library can overflow, and none
//! panics.
//!
//! The bodies of a simulation stand in a table, a `Vec` of [`body::Body`]; the
//! place of a body in the table is its handle. Colliders have handles of their
//! own, and a second table says to which body each collider belongs.
//!
//! [`tower_sprites`] holds the frames on which the towers are drawn.

pub mod fixed;
pub mod vector;
pub mod intent;
pub mod path;
pub mod controller;
pub mod body;
pub mod collision;
pub mod movement;
pub mod tower_sprites;
