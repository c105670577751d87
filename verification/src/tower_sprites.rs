//! The animation frames of the towers.
//!
//! Each tower is drawn from a sheet of frames that are numbered row by row.
//! A tower stands idle on a run of frames. The towers that turn toward what
//! they guard have one pair of rows for each way they can face, the idle
//! frames in the first row of the pair and the attack frames in the second.

use vstd::prelude::*;

verus! {

/// A kind of tower.
#[derive(Clone, Copy, Debug, PartialEq, Eq, Structural)]
pub enum Tower {
    Piston,
    Fan,
    SpikePit,
    Oil,
    TrapDoor,
    Tesla,
    Water,
    Acid,
    Flame,
    Portal,
    Ice,
}

/// On which side of the path a tower stands.
#[derive(Clone, Copy, Debug, PartialEq, Eq, Structural)]
pub enum TowerPlacement {
    Above,
    Below,
    Left,
    Right,
}

/// How many frames the two rows of one facing take up on a sheet.
pub const FACING_STRIDE: usize = 12;

/// How far the attack frames of a facing lie behind its idle frames.
pub const ATTACK_OFFSET: usize = 6;

/// The frames `first`, `first + 1` and so on, `count` of them.
pub open spec fn run(first: int, count: nat) -> Seq<usize> {
    Seq::new(count, |i: int| (first + i) as usize)
}

impl Tower {
    /// Whether the tower has frames of its own for an attack: the tesla coil
    /// and the water bucket have, the others have not.
    pub open spec fn spec_has_attack_frames(&self) -> bool {
        *self == Tower::Tesla || *self == Tower::Water
    }

    /// Whether the tower has frames of its own for an attack.
    #[verifier::when_used_as_spec(spec_has_attack_frames)]
    pub fn has_attack_frames(&self) -> (r: bool)
        ensures
            r == self.spec_has_attack_frames(),
    {
        matches!(self, Tower::Tesla | Tower::Water)
    }
}

impl TowerPlacement {
    /// The first frame of the rows for this placement. Towers on the left
    /// and on the right share their rows.
    pub open spec fn first_frame(&self) -> int {
        match *self {
            TowerPlacement::Above => 0,
            TowerPlacement::Below => FACING_STRIDE as int,
            TowerPlacement::Left => 2 * FACING_STRIDE,
            TowerPlacement::Right => 2 * FACING_STRIDE,
        }
    }

    /// The frames on which `tower` stands idle. The piston runs through its
    /// six frames and holds the last one for two more; every other tower
    /// runs through its frames once.
    pub open spec fn spec_idle_frames(&self, tower: &Tower) -> Seq<usize> {
        match *tower {
            Tower::Piston => run(0, 6) + seq![5usize, 5usize],
            Tower::Fan => run(0, 2),
            Tower::SpikePit => run(0, 1),
            Tower::Oil => run(0, 2),
            Tower::TrapDoor => run(0, 1),
            Tower::Tesla => run(self.first_frame(), 5),
            Tower::Water => run(self.first_frame(), 1),
            Tower::Acid => run(0, 3),
            Tower::Flame => run(0, 3),
            Tower::Portal => run(0, 1),
            Tower::Ice => run(0, 1),
        }
    }

    /// How many frames the attack of `tower` takes. The tesla coil above
    /// the path strikes in three frames, elsewhere in four; the water bucket
    /// pours in five.
    pub open spec fn attack_length(&self, tower: &Tower) -> nat {
        match *tower {
            Tower::Tesla => if *self == TowerPlacement::Above {
                3
            } else {
                4
            },
            Tower::Water => 5,
            _ => 0,
        }
    }

    /// The frames on which `tower` attacks. Meaningful for a tower that has
    /// attack frames.
    pub open spec fn spec_attack_frames(&self, tower: &Tower) -> Seq<usize> {
        run(self.first_frame() + ATTACK_OFFSET, self.attack_length(tower))
    }

    /// The frames on which `tower` stands idle, in the order in which they
    /// are shown.
    pub fn idle_frames(&self, tower: &Tower) -> (frames: &'static [usize])
        ensures
            frames@ == self.spec_idle_frames(tower),
    {
        let frames: &'static [usize] = match tower {
            Tower::Piston => &[0, 1, 2, 3, 4, 5, 5, 5],
            Tower::Fan => &[0, 1],
            Tower::SpikePit => &[0],
            Tower::Oil => &[0, 1],
            Tower::TrapDoor => &[0],
            Tower::Tesla => match self {
                TowerPlacement::Above => &[0, 1, 2, 3, 4],
                TowerPlacement::Below => &[12, 13, 14, 15, 16],
                TowerPlacement::Left => &[24, 25, 26, 27, 28],
                TowerPlacement::Right => &[24, 25, 26, 27, 28],
            },
            Tower::Water => match self {
                TowerPlacement::Above => &[0],
                TowerPlacement::Below => &[12],
                TowerPlacement::Left => &[24],
                TowerPlacement::Right => &[24],
            },
            Tower::Acid => &[0, 1, 2],
            Tower::Flame => &[0, 1, 2],
            Tower::Portal => &[0],
            Tower::Ice => &[0],
        };
        proof {
            assert(frames@ =~= self.spec_idle_frames(tower));
        }
        frames
    }

    /// The frames on which `tower` attacks, in the order in which they are
    /// shown.
    pub fn attack_frames(&self, tower: &Tower) -> (frames: &'static [usize])
        requires
            tower.has_attack_frames(),
        ensures
            frames@ == self.spec_attack_frames(tower),
    {
        let frames: &'static [usize] = match tower {
            Tower::Tesla => match self {
                TowerPlacement::Above => &[6, 7, 8],
                TowerPlacement::Below => &[18, 19, 20, 21],
                TowerPlacement::Left => &[30, 31, 32, 33],
                TowerPlacement::Right => &[30, 31, 32, 33],
            },
            // Of the towers that have attack frames only the water bucket is left.
            _ => match self {
                TowerPlacement::Above => &[6, 7, 8, 9, 10],
                TowerPlacement::Below => &[18, 19, 20, 21, 22],
                TowerPlacement::Left => &[30, 31, 32, 33, 34],
                TowerPlacement::Right => &[30, 31, 32, 33, 34],
            },
        };
        proof {
            assert(frames@ =~= self.spec_attack_frames(tower));
        }
        frames
    }

    /// The frames that take the place of the idle frames while `tower`
    /// attacks: its attack frames if it has any.
    pub fn attack_override(&self, tower: &Tower) -> (frames: Option<&'static [usize]>)
        ensures
            tower.has_attack_frames() <==> frames is Some,
            frames matches Some(shown) ==> shown@ == self.spec_attack_frames(tower),
    {
        if tower.has_attack_frames() {
            Some(self.attack_frames(tower))
        } else {
            None
        }
    }
}

/// The frames of a tower are never empty where they mean something, and
/// those of a tower that turns lie in the rows of its placement: the idle
/// frames in the first of the two rows, the attack frames in the second.
pub proof fn lemma_frames_stay_in_their_rows(placement: TowerPlacement, tower: Tower)
    ensures
        placement.spec_idle_frames(&tower).len() > 0,
        tower.has_attack_frames() ==> placement.spec_attack_frames(&tower).len() > 0,
        tower.has_attack_frames() ==> forall|i: int|
            0 <= i < placement.spec_idle_frames(&tower).len() ==> placement.first_frame() <= (
            #[trigger] placement.spec_idle_frames(&tower)[i]) < placement.first_frame()
                + ATTACK_OFFSET,
        tower.has_attack_frames() ==> forall|i: int|
            0 <= i < placement.spec_attack_frames(&tower).len() ==> placement.first_frame()
                + ATTACK_OFFSET <= (#[trigger] placement.spec_attack_frames(&tower)[i])
                < placement.first_frame() + FACING_STRIDE,
{
}

} // verus!
