use vstd::prelude::*;

use crate::instruction::{all_wf, Instruction};
use crate::rotation::{negatable, rotate_waypoint, rotated};

verus! {

/// What a ship is, mathematically: its position, its waypoint relative to it,
/// and the direction it faces.
pub struct ShipModel {
    pub north: int,
    pub east: int,
    pub waypoint_north: int,
    pub waypoint_east: int,
    pub facing_east: int,
    pub facing_north: int,
}

/// A ship at the origin, facing east, with its waypoint 10 east and 1 north.
pub open spec fn fresh_ship() -> ShipModel {
    ShipModel {
        north: 0,
        east: 0,
        waypoint_north: 1,
        waypoint_east: 10,
        facing_east: 1,
        facing_north: 0,
    }
}

pub open spec fn in_i64(v: int) -> bool {
    i64::MIN <= v <= i64::MAX
}

/// One instruction under the heading rules: the four compass actions move the
/// ship, `F` moves it along its heading, and turns rotate the heading.
pub open spec fn heading_step(s: ShipModel, i: Instruction) -> ShipModel {
    match i {
        Instruction::North(v) => ShipModel { north: s.north + v, ..s },
        Instruction::South(v) => ShipModel { north: s.north - v, ..s },
        Instruction::East(v) => ShipModel { east: s.east + v, ..s },
        Instruction::West(v) => ShipModel { east: s.east - v, ..s },
        Instruction::Forward(v) => ShipModel {
            north: s.north + s.facing_north * v,
            east: s.east + s.facing_east * v,
            ..s
        },
        Instruction::Right(d) => {
            let f = rotated(s.facing_east, s.facing_north, d as int);
            ShipModel { facing_east: f.0, facing_north: f.1, ..s }
        },
        Instruction::Left(d) => {
            let f = rotated(s.facing_east, s.facing_north, -d);
            ShipModel { facing_east: f.0, facing_north: f.1, ..s }
        },
    }
}

/// One instruction under the waypoint rules: the four compass actions move the
/// waypoint, `F` moves the ship by the waypoint that many times, and turns
/// rotate the waypoint around the ship.
pub open spec fn waypoint_step(s: ShipModel, i: Instruction) -> ShipModel {
    match i {
        Instruction::North(v) => ShipModel { waypoint_north: s.waypoint_north + v, ..s },
        Instruction::South(v) => ShipModel { waypoint_north: s.waypoint_north - v, ..s },
        Instruction::East(v) => ShipModel { waypoint_east: s.waypoint_east + v, ..s },
        Instruction::West(v) => ShipModel { waypoint_east: s.waypoint_east - v, ..s },
        Instruction::Forward(v) => ShipModel {
            north: s.north + v * s.waypoint_north,
            east: s.east + v * s.waypoint_east,
            ..s
        },
        Instruction::Right(d) => {
            let w = rotated(s.waypoint_east, s.waypoint_north, d as int);
            ShipModel { waypoint_east: w.0, waypoint_north: w.1, ..s }
        },
        Instruction::Left(d) => {
            let w = rotated(s.waypoint_east, s.waypoint_north, -d);
            ShipModel { waypoint_east: w.0, waypoint_north: w.1, ..s }
        },
    }
}

/// Every number that one heading step computes fits in an `i64`.
pub open spec fn heading_step_fits(s: ShipModel, i: Instruction) -> bool {
    match i {
        Instruction::North(v) => in_i64(s.north + v),
        Instruction::South(v) => in_i64(s.north - v),
        Instruction::East(v) => in_i64(s.east + v),
        Instruction::West(v) => in_i64(s.east - v),
        Instruction::Forward(v) => {
            &&& in_i64(s.facing_north * v)
            &&& in_i64(s.north + s.facing_north * v)
            &&& in_i64(s.facing_east * v)
            &&& in_i64(s.east + s.facing_east * v)
        },
        Instruction::Right(_) => negatable(s.facing_east) && negatable(s.facing_north),
        Instruction::Left(d) => {
            &&& negatable(d as int)
            &&& negatable(s.facing_east)
            &&& negatable(s.facing_north)
        },
    }
}

/// Every number that one waypoint step computes fits in an `i64`.
pub open spec fn waypoint_step_fits(s: ShipModel, i: Instruction) -> bool {
    match i {
        Instruction::North(v) => in_i64(s.waypoint_north + v),
        Instruction::South(v) => in_i64(s.waypoint_north - v),
        Instruction::East(v) => in_i64(s.waypoint_east + v),
        Instruction::West(v) => in_i64(s.waypoint_east - v),
        Instruction::Forward(v) => {
            &&& in_i64(v * s.waypoint_north)
            &&& in_i64(s.north + v * s.waypoint_north)
            &&& in_i64(v * s.waypoint_east)
            &&& in_i64(s.east + v * s.waypoint_east)
        },
        Instruction::Right(_) => negatable(s.waypoint_east) && negatable(s.waypoint_north),
        Instruction::Left(d) => {
            &&& negatable(d as int)
            &&& negatable(s.waypoint_east)
            &&& negatable(s.waypoint_north)
        },
    }
}

/// The ship after following `instructions` in order under the heading rules.
pub open spec fn heading_run(s: ShipModel, instructions: Seq<Instruction>) -> ShipModel
    decreases instructions.len(),
{
    if instructions.len() == 0 {
        s
    } else {
        heading_step(heading_run(s, instructions.drop_last()), instructions.last())
    }
}

/// The ship after following `instructions` in order under the waypoint rules.
pub open spec fn waypoint_run(s: ShipModel, instructions: Seq<Instruction>) -> ShipModel
    decreases instructions.len(),
{
    if instructions.len() == 0 {
        s
    } else {
        waypoint_step(waypoint_run(s, instructions.drop_last()), instructions.last())
    }
}

/// No step of the heading run from `s` leaves the range of `i64`.
pub open spec fn heading_run_fits(s: ShipModel, instructions: Seq<Instruction>) -> bool
    decreases instructions.len(),
{
    if instructions.len() == 0 {
        true
    } else {
        &&& heading_run_fits(s, instructions.drop_last())
        &&& heading_step_fits(heading_run(s, instructions.drop_last()), instructions.last())
    }
}

/// No step of the waypoint run from `s` leaves the range of `i64`.
pub open spec fn waypoint_run_fits(s: ShipModel, instructions: Seq<Instruction>) -> bool
    decreases instructions.len(),
{
    if instructions.len() == 0 {
        true
    } else {
        &&& waypoint_run_fits(s, instructions.drop_last())
        &&& waypoint_step_fits(waypoint_run(s, instructions.drop_last()), instructions.last())
    }
}

proof fn lemma_heading_fits_prefix(s: ShipModel, instructions: Seq<Instruction>, i: int)
    requires
        heading_run_fits(s, instructions),
        0 <= i <= instructions.len(),
    ensures
        heading_run_fits(s, instructions.take(i)),
    decreases instructions.len() - i,
{
    if i == instructions.len() {
        assert(instructions.take(i) =~= instructions);
    } else {
        lemma_heading_fits_prefix(s, instructions, i + 1);
        assert(instructions.take(i + 1).drop_last() =~= instructions.take(i));
    }
}

proof fn lemma_waypoint_fits_prefix(s: ShipModel, instructions: Seq<Instruction>, i: int)
    requires
        waypoint_run_fits(s, instructions),
        0 <= i <= instructions.len(),
    ensures
        waypoint_run_fits(s, instructions.take(i)),
    decreases instructions.len() - i,
{
    if i == instructions.len() {
        assert(instructions.take(i) =~= instructions);
    } else {
        lemma_waypoint_fits_prefix(s, instructions, i + 1);
        assert(instructions.take(i + 1).drop_last() =~= instructions.take(i));
    }
}

proof fn lemma_negated_turn(d: int)
    requires
        d % 90 == 0,
    ensures
        (-d) % 90 == 0,
{
    assert(d == 90 * (d / 90));
    assert((-d) == 90 * (-(d / 90)));
    assert((-d) % 90 == 0) by (nonlinear_arith)
        requires (-d) == 90 * (-(d / 90));
}

/// A heading run never moves the waypoint, and what it does to the position
/// and the heading does not depend on where the waypoint stands.
pub proof fn lemma_heading_run_ignores_waypoint(
    s: ShipModel,
    t: ShipModel,
    instructions: Seq<Instruction>,
)
    requires
        s.north == t.north,
        s.east == t.east,
        s.facing_east == t.facing_east,
        s.facing_north == t.facing_north,
    ensures
        heading_run(s, instructions).waypoint_north == s.waypoint_north,
        heading_run(s, instructions).waypoint_east == s.waypoint_east,
        heading_run(s, instructions).north == heading_run(t, instructions).north,
        heading_run(s, instructions).east == heading_run(t, instructions).east,
        heading_run(s, instructions).facing_east == heading_run(t, instructions).facing_east,
        heading_run(s, instructions).facing_north == heading_run(t, instructions).facing_north,
        heading_run_fits(s, instructions) == heading_run_fits(t, instructions),
    decreases instructions.len(),
{
    if instructions.len() > 0 {
        lemma_heading_run_ignores_waypoint(s, t, instructions.drop_last());
    }
}

/// A waypoint run never turns the heading, and what it does to the position
/// and the waypoint does not depend on where the ship faces: whatever heading
/// an earlier heading run left behind has no effect on its outcome.
pub proof fn lemma_waypoint_run_ignores_heading(
    s: ShipModel,
    t: ShipModel,
    instructions: Seq<Instruction>,
)
    requires
        s.north == t.north,
        s.east == t.east,
        s.waypoint_north == t.waypoint_north,
        s.waypoint_east == t.waypoint_east,
    ensures
        waypoint_run(s, instructions).facing_east == s.facing_east,
        waypoint_run(s, instructions).facing_north == s.facing_north,
        waypoint_run(s, instructions).north == waypoint_run(t, instructions).north,
        waypoint_run(s, instructions).east == waypoint_run(t, instructions).east,
        waypoint_run(s, instructions).waypoint_north == waypoint_run(t, instructions).waypoint_north,
        waypoint_run(s, instructions).waypoint_east == waypoint_run(t, instructions).waypoint_east,
        waypoint_run_fits(s, instructions) == waypoint_run_fits(t, instructions),
    decreases instructions.len(),
{
    if instructions.len() > 0 {
        lemma_waypoint_run_ignores_heading(s, t, instructions.drop_last());
    }
}

proof fn lemma_turn_moves_nonzero_vector(x: int, y: int, d: int)
    requires
        d % 90 == 0,
        d % 360 != 0,
        x != 0 || y != 0,
    ensures
        rotated(x, y, d) != (x, y),
{
    let q = d / 90;
    assert(d == 90 * q);
    if q % 4 == 0 {
        assert(d % 360 == 0) by (nonlinear_arith)
            requires
                d == 90 * q,
                q % 4 == 0,
        {
            assert(q == 4 * (q / 4));
            assert(d == 360 * (q / 4));
        }
    }
}

/// Turning right and then moving forward ends elsewhere than moving forward and
/// then turning right, under the heading rules: whenever the ship faces
/// somewhere, the distance is not zero and the turn is not a whole number of
/// full turns.
pub proof fn lemma_heading_turn_then_forward_differs(s: ShipModel, v: i64, d: i64)
    requires
        v != 0,
        d % 90 == 0,
        d % 360 != 0,
        s.facing_east != 0 || s.facing_north != 0,
    ensures
        ({
            let a = heading_run(s, seq![Instruction::Right(d), Instruction::Forward(v)]);
            let b = heading_run(s, seq![Instruction::Forward(v), Instruction::Right(d)]);
            (a.north, a.east) != (b.north, b.east)
        }),
{
    let rf = seq![Instruction::Right(d), Instruction::Forward(v)];
    let fr = seq![Instruction::Forward(v), Instruction::Right(d)];
    assert(rf.drop_last() =~= seq![Instruction::Right(d)]);
    assert(fr.drop_last() =~= seq![Instruction::Forward(v)]);
    assert(seq![Instruction::Right(d)].drop_last() =~= Seq::<Instruction>::empty());
    assert(seq![Instruction::Forward(v)].drop_last() =~= Seq::<Instruction>::empty());
    let f = rotated(s.facing_east, s.facing_north, d as int);
    lemma_turn_moves_nonzero_vector(s.facing_east, s.facing_north, d as int);
    let r1 = seq![Instruction::Right(d)];
    let f1 = seq![Instruction::Forward(v)];
    assert(heading_run(s, r1) == heading_step(heading_run(s, r1.drop_last()), r1.last()));
    assert(heading_run(s, f1) == heading_step(heading_run(s, f1.drop_last()), f1.last()));
    let a = heading_run(s, rf);
    let b = heading_run(s, fr);
    assert(a == heading_step(heading_step(s, Instruction::Right(d)), Instruction::Forward(v)));
    assert(b == heading_step(heading_step(s, Instruction::Forward(v)), Instruction::Right(d)));
    assert(a.north == s.north + f.1 * v && a.east == s.east + f.0 * v);
    assert(b.north == s.north + s.facing_north * v && b.east == s.east + s.facing_east * v);
    if a.north == b.north && a.east == b.east {
        assert(f.1 == s.facing_north && f.0 == s.facing_east) by (nonlinear_arith)
            requires
                f.1 * v == s.facing_north * v,
                f.0 * v == s.facing_east * v,
                v != 0,
        ;
    }
}

/// The same under the waypoint rules: turning right and then moving forward
/// ends elsewhere than the other order, whenever the waypoint is not on the
/// ship, the distance is not zero and the turn is not a whole number of full
/// turns.
pub proof fn lemma_waypoint_turn_then_forward_differs(s: ShipModel, v: i64, d: i64)
    requires
        v != 0,
        d % 90 == 0,
        d % 360 != 0,
        s.waypoint_east != 0 || s.waypoint_north != 0,
    ensures
        ({
            let a = waypoint_run(s, seq![Instruction::Right(d), Instruction::Forward(v)]);
            let b = waypoint_run(s, seq![Instruction::Forward(v), Instruction::Right(d)]);
            (a.north, a.east) != (b.north, b.east)
        }),
{
    let rf = seq![Instruction::Right(d), Instruction::Forward(v)];
    let fr = seq![Instruction::Forward(v), Instruction::Right(d)];
    assert(rf.drop_last() =~= seq![Instruction::Right(d)]);
    assert(fr.drop_last() =~= seq![Instruction::Forward(v)]);
    assert(seq![Instruction::Right(d)].drop_last() =~= Seq::<Instruction>::empty());
    assert(seq![Instruction::Forward(v)].drop_last() =~= Seq::<Instruction>::empty());
    let w = rotated(s.waypoint_east, s.waypoint_north, d as int);
    lemma_turn_moves_nonzero_vector(s.waypoint_east, s.waypoint_north, d as int);
    let r1 = seq![Instruction::Right(d)];
    let f1 = seq![Instruction::Forward(v)];
    assert(waypoint_run(s, r1) == waypoint_step(waypoint_run(s, r1.drop_last()), r1.last()));
    assert(waypoint_run(s, f1) == waypoint_step(waypoint_run(s, f1.drop_last()), f1.last()));
    let a = waypoint_run(s, rf);
    let b = waypoint_run(s, fr);
    assert(a == waypoint_step(waypoint_step(s, Instruction::Right(d)), Instruction::Forward(v)));
    assert(b == waypoint_step(waypoint_step(s, Instruction::Forward(v)), Instruction::Right(d)));
    assert(a.north == s.north + v * w.1 && a.east == s.east + v * w.0);
    assert(b.north == s.north + v * s.waypoint_north && b.east == s.east + v * s.waypoint_east);
    if a.north == b.north && a.east == b.east {
        assert(w.1 == s.waypoint_north && w.0 == s.waypoint_east) by (nonlinear_arith)
            requires
                v * w.1 == v * s.waypoint_north,
                v * w.0 == v * s.waypoint_east,
                v != 0,
        ;
    }
}

/// The Manhattan distance of a position from the origin.
pub open spec fn manhattan(north: int, east: int) -> int {
    (if north < 0 { -north } else { north }) + (if east < 0 { -east } else { east })
}

fn unsigned_magnitude(n: i64) -> (r: u128)
    ensures
        r as int == (if n < 0 { -n } else { n as int }),
{
    if n < 0 {
        (-(n as i128)) as u128
    } else {
        n as u128
    }
}

/// The Manhattan distance of the position `(north, east)` from the origin.
pub fn manhattan_distance(position: (i64, i64)) -> (r: u128)
    ensures
        r as int == manhattan(position.0 as int, position.1 as int),
{
    unsigned_magnitude(position.0) + unsigned_magnitude(position.1)
}

/// A ship with its position, its waypoint and its heading.
pub struct Ship {
    north: i64,
    east: i64,
    waypoint_north: i64,
    waypoint_east: i64,
    facing: (i64, i64),
}

impl View for Ship {
    type V = ShipModel;

    closed spec fn view(&self) -> ShipModel {
        ShipModel {
            north: self.north as int,
            east: self.east as int,
            waypoint_north: self.waypoint_north as int,
            waypoint_east: self.waypoint_east as int,
            facing_east: self.facing.0 as int,
            facing_north: self.facing.1 as int,
        }
    }
}

impl Ship {
    /// A ship at the origin, facing east, with its waypoint 10 east and 1 north.
    pub fn new() -> (r: Ship)
        ensures
            r@ == fresh_ship(),
    {
        Ship { north: 0, east: 0, waypoint_north: 1, waypoint_east: 10, facing: (1, 0) }
    }

    /// Takes one step under the heading rules if every number it computes fits
    /// in an `i64`; otherwise leaves the ship as it was.
    fn try_heading_step(&mut self, instruction: Instruction) -> (ok: bool)
        requires
            instruction.wf(),
        ensures
            ok == heading_step_fits(old(self)@, instruction),
            ok ==> final(self)@ == heading_step(old(self)@, instruction),
            !ok ==> final(self)@ == old(self)@,
    {
        match instruction {
            Instruction::North(value) => match self.north.checked_add(value) {
                Some(n) => {
                    self.north = n;
                    true
                },
                None => false,
            },
            Instruction::South(value) => match self.north.checked_sub(value) {
                Some(n) => {
                    self.north = n;
                    true
                },
                None => false,
            },
            Instruction::East(value) => match self.east.checked_add(value) {
                Some(e) => {
                    self.east = e;
                    true
                },
                None => false,
            },
            Instruction::West(value) => match self.east.checked_sub(value) {
                Some(e) => {
                    self.east = e;
                    true
                },
                None => false,
            },
            Instruction::Forward(value) => {
                let (east, north) = self.facing;
                match (north.checked_mul(value), east.checked_mul(value)) {
                    (Some(dn), Some(de)) => match (
                        self.north.checked_add(dn),
                        self.east.checked_add(de),
                    ) {
                        (Some(n), Some(e)) => {
                            self.north = n;
                            self.east = e;
                            true
                        },
                        _ => false,
                    },
                    _ => false,
                }
            },
            Instruction::Right(degrees) => {
                let (x, y) = self.facing;
                if x == i64::MIN || y == i64::MIN {
                    false
                } else {
                    self.facing = rotate_waypoint(x, y, degrees);
                    true
                }
            },
            Instruction::Left(degrees) => {
                let (x, y) = self.facing;
                if degrees == i64::MIN || x == i64::MIN || y == i64::MIN {
                    false
                } else {
                    proof {
                        lemma_negated_turn(degrees as int);
                    }
                    self.facing = rotate_waypoint(x, y, -degrees);
                    true
                }
            },
        }
    }

    /// Takes one step under the waypoint rules if every number it computes
    /// fits in an `i64`; otherwise leaves the ship as it was.
    fn try_waypoint_step(&mut self, instruction: Instruction) -> (ok: bool)
        requires
            instruction.wf(),
        ensures
            ok == waypoint_step_fits(old(self)@, instruction),
            ok ==> final(self)@ == waypoint_step(old(self)@, instruction),
            !ok ==> final(self)@ == old(self)@,
    {
        match instruction {
            Instruction::North(value) => match self.waypoint_north.checked_add(value) {
                Some(n) => {
                    self.waypoint_north = n;
                    true
                },
                None => false,
            },
            Instruction::South(value) => match self.waypoint_north.checked_sub(value) {
                Some(n) => {
                    self.waypoint_north = n;
                    true
                },
                None => false,
            },
            Instruction::East(value) => match self.waypoint_east.checked_add(value) {
                Some(e) => {
                    self.waypoint_east = e;
                    true
                },
                None => false,
            },
            Instruction::West(value) => match self.waypoint_east.checked_sub(value) {
                Some(e) => {
                    self.waypoint_east = e;
                    true
                },
                None => false,
            },
            Instruction::Forward(value) => {
                match (value.checked_mul(self.waypoint_north), value.checked_mul(self.waypoint_east)) {
                    (Some(dn), Some(de)) => match (
                        self.north.checked_add(dn),
                        self.east.checked_add(de),
                    ) {
                        (Some(n), Some(e)) => {
                            self.north = n;
                            self.east = e;
                            true
                        },
                        _ => false,
                    },
                    _ => false,
                }
            },
            Instruction::Right(degrees) => {
                if self.waypoint_east == i64::MIN || self.waypoint_north == i64::MIN {
                    false
                } else {
                    let (new_east, new_north) = rotate_waypoint(
                        self.waypoint_east,
                        self.waypoint_north,
                        degrees,
                    );
                    self.waypoint_east = new_east;
                    self.waypoint_north = new_north;
                    true
                }
            },
            Instruction::Left(degrees) => {
                if degrees == i64::MIN || self.waypoint_east == i64::MIN || self.waypoint_north
                    == i64::MIN {
                    false
                } else {
                    proof {
                        lemma_negated_turn(degrees as int);
                    }
                    let (new_east, new_north) = rotate_waypoint(
                        self.waypoint_east,
                        self.waypoint_north,
                        -degrees,
                    );
                    self.waypoint_east = new_east;
                    self.waypoint_north = new_north;
                    true
                }
            },
        }
    }

    fn copy(&self) -> (r: Ship)
        ensures
            r@ == self@,
    {
        Ship {
            north: self.north,
            east: self.east,
            waypoint_north: self.waypoint_north,
            waypoint_east: self.waypoint_east,
            facing: self.facing,
        }
    }

    /// Whether `plot` can follow `instructions` from this ship with every
    /// number it computes in the range of `i64`.
    pub fn can_plot(&self, instructions: &[Instruction]) -> (r: bool)
        requires
            all_wf(instructions@),
        ensures
            r == heading_run_fits(self@, instructions@),
    {
        let mut probe = self.copy();
        let mut i: usize = 0;
        while i < instructions.len()
            invariant
                i <= instructions@.len(),
                all_wf(instructions@),
                heading_run_fits(self@, instructions@.take(i as int)),
                probe@ == heading_run(self@, instructions@.take(i as int)),
            decreases instructions@.len() - i,
        {
            proof {
                assert(instructions@.take(i + 1).drop_last() =~= instructions@.take(i as int));
                assert(instructions@[i as int].wf());
            }
            if !probe.try_heading_step(instructions[i]) {
                proof {
                    if heading_run_fits(self@, instructions@) {
                        lemma_heading_fits_prefix(self@, instructions@, i + 1);
                    }
                }
                return false;
            }
            i = i + 1;
        }
        assert(instructions@.take(i as int) =~= instructions@);
        true
    }

    /// Whether `plot_with_waypoint` can follow `instructions` from this ship
    /// with every number it computes in the range of `i64`.
    pub fn can_plot_with_waypoint(&self, instructions: &[Instruction]) -> (r: bool)
        requires
            all_wf(instructions@),
        ensures
            r == waypoint_run_fits(self@, instructions@),
    {
        let mut probe = self.copy();
        let mut i: usize = 0;
        while i < instructions.len()
            invariant
                i <= instructions@.len(),
                all_wf(instructions@),
                waypoint_run_fits(self@, instructions@.take(i as int)),
                probe@ == waypoint_run(self@, instructions@.take(i as int)),
            decreases instructions@.len() - i,
        {
            proof {
                assert(instructions@.take(i + 1).drop_last() =~= instructions@.take(i as int));
                assert(instructions@[i as int].wf());
            }
            if !probe.try_waypoint_step(instructions[i]) {
                proof {
                    if waypoint_run_fits(self@, instructions@) {
                        lemma_waypoint_fits_prefix(self@, instructions@, i + 1);
                    }
                }
                return false;
            }
            i = i + 1;
        }
        assert(instructions@.take(i as int) =~= instructions@);
        true
    }

    /// Follows `instructions` under the heading rules and returns the final
    /// position as `(north, east)`.
    pub fn plot(&mut self, instructions: &[Instruction]) -> (r: (i64, i64))
        requires
            all_wf(instructions@),
            heading_run_fits(old(self)@, instructions@),
        ensures
            final(self)@ == heading_run(old(self)@, instructions@),
            r.0 as int == final(self)@.north,
            r.1 as int == final(self)@.east,
    {
        let ghost start = self@;
        let mut i: usize = 0;
        while i < instructions.len()
            invariant
                i <= instructions@.len(),
                all_wf(instructions@),
                heading_run_fits(start, instructions@),
                self@ == heading_run(start, instructions@.take(i as int)),
            decreases instructions@.len() - i,
        {
            proof {
                lemma_heading_fits_prefix(start, instructions@, i + 1);
                assert(instructions@.take(i + 1).drop_last() =~= instructions@.take(i as int));
                assert(instructions@[i as int].wf());
            }
            self.try_heading_step(instructions[i]);
            i = i + 1;
        }
        assert(instructions@.take(i as int) =~= instructions@);
        (self.north, self.east)
    }

    /// Follows `instructions` under the waypoint rules and returns the final
    /// position as `(north, east)`.
    pub fn plot_with_waypoint(&mut self, instructions: &[Instruction]) -> (r: (i64, i64))
        requires
            all_wf(instructions@),
            waypoint_run_fits(old(self)@, instructions@),
        ensures
            final(self)@ == waypoint_run(old(self)@, instructions@),
            r.0 as int == final(self)@.north,
            r.1 as int == final(self)@.east,
    {
        let ghost start = self@;
        let mut i: usize = 0;
        while i < instructions.len()
            invariant
                i <= instructions@.len(),
                all_wf(instructions@),
                waypoint_run_fits(start, instructions@),
                self@ == waypoint_run(start, instructions@.take(i as int)),
            decreases instructions@.len() - i,
        {
            proof {
                lemma_waypoint_fits_prefix(start, instructions@, i + 1);
                assert(instructions@.take(i + 1).drop_last() =~= instructions@.take(i as int));
                assert(instructions@[i as int].wf());
            }
            self.try_waypoint_step(instructions[i]);
            i = i + 1;
        }
        assert(instructions@.take(i as int) =~= instructions@);
        (self.north, self.east)
    }
}

} // verus!
