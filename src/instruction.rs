use vstd::prelude::*;

verus! {

/// One navigation instruction: an action with its magnitude (a distance, or
/// degrees for a turn).
#[derive(Debug, Clone, Copy, PartialEq, Eq, Structural)]
pub enum Instruction {
    North(i64),
    South(i64),
    East(i64),
    West(i64),
    Forward(i64),
    Right(i64),
    Left(i64),
}

impl Instruction {
    /// The number that the instruction carries.
    pub open spec fn magnitude(self) -> int {
        match self {
            Instruction::North(v) => v as int,
            Instruction::South(v) => v as int,
            Instruction::East(v) => v as int,
            Instruction::West(v) => v as int,
            Instruction::Forward(v) => v as int,
            Instruction::Right(d) => d as int,
            Instruction::Left(d) => d as int,
        }
    }

    pub open spec fn is_turn(self) -> bool {
        self is Right || self is Left
    }

    /// Magnitudes are never negative, and a turn is a whole number of quarter turns.
    pub open spec fn wf(self) -> bool {
        &&& self.magnitude() >= 0
        &&& self.is_turn() ==> self.magnitude() % 90 == 0
    }
}

/// Every instruction of the sequence is well formed.
pub open spec fn all_wf(instructions: Seq<Instruction>) -> bool {
    forall|k: int| 0 <= k < instructions.len() ==> (#[trigger] instructions[k]).wf()
}

} // verus!
