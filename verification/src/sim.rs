//! The two-block, one-wall collision model: event prediction, event
//! resolution, and the frame stepper that drains a frame's time budget
//! event by event.

use crate::rat::{
    lemma_add_pos, rat_wf, rv_int, rv_le, rv_lt, rv_neg, rv_wf, rv_zero, spec_add, spec_div,
    spec_mul, spec_sub, Rat, Ratio,
};
use vstd::prelude::*;

verus! {

/// A rigid block on the line.  `pos` is the centre; `size` and `mass` are
/// fixed for the life of a run, only `pos` and `vel` ever change.
#[derive(Clone, Copy, Debug, PartialEq, Eq, Structural)]
pub struct Block {
    pub pos: Rat,
    pub vel: Rat,
    pub size: Rat,
    pub mass: Rat,
}

/// Mathematical model of a block.
pub struct BlockV {
    pub pos: Ratio,
    pub vel: Ratio,
    pub size: Ratio,
    pub mass: Ratio,
}

impl View for Block {
    type V = BlockV;

    open spec fn view(&self) -> BlockV {
        BlockV { pos: self.pos@, vel: self.vel@, size: self.size@, mass: self.mass@ }
    }
}

/// A model block is well-formed when its components are and its size and
/// mass are positive.
pub open spec fn bv_wf(b: BlockV) -> bool {
    &&& rv_wf(b.pos)
    &&& rv_wf(b.vel)
    &&& rv_wf(b.size)
    &&& rv_wf(b.mass)
    &&& b.size.n > 0
    &&& b.mass.n > 0
}

/// A machine block is well-formed when its rationals are and its model is.
pub open spec fn block_wf(b: Block) -> bool {
    &&& rat_wf(b.pos)
    &&& rat_wf(b.vel)
    &&& rat_wf(b.size)
    &&& rat_wf(b.mass)
    &&& bv_wf(b@)
}

/// When, if ever, the next collision of one kind happens, measured from now
/// along the current free-motion trajectory.  A non-negative `At` time within
/// the frame budget is a genuine event; `Never` means the relevant relative
/// velocity is zero.
#[derive(Clone, Copy, Debug, PartialEq, Eq, Structural)]
pub enum ImpactTime {
    Never,
    At(Rat),
}

/// Model of `ImpactTime`.
pub enum ImpactV {
    Never,
    At(Ratio),
}

/// The stepper cannot continue: a reduced rational left the machine range
/// (or the collision counter is saturated).
#[derive(Clone, Copy, Debug, PartialEq, Eq, Structural)]
pub enum SimError {
    Overflow,
}

/// The model of a predictor's result: `None` means the computation left the
/// machine range.
pub open spec fn res_impact_view(r: Result<ImpactTime, SimError>) -> Option<ImpactV> {
    match r {
        Ok(ImpactTime::Never) => Some(ImpactV::Never),
        Ok(ImpactTime::At(t)) => Some(ImpactV::At(t@)),
        Err(_) => None,
    }
}

/// Mirror of `get_wall_block_collision_t`: time for the left block's leading
/// edge `pos - size / 2` to reach the wall at coordinate zero, travelling at
/// `-vel`; `Never` when the block is not moving.
pub open spec fn spec_wall_t(b: BlockV) -> Option<ImpactV> {
    if b.vel.n == 0 {
        Some(ImpactV::Never)
    } else {
        match spec_div(b.size, rv_int(2)) {
            None => None,
            Some(h) => match spec_sub(b.pos, h) {
                None => None,
                Some(dist) => match spec_div(dist, rv_neg(b.vel)) {
                    None => None,
                    Some(t) => Some(ImpactV::At(t)),
                },
            },
        }
    }
}

/// Mirror of `get_block_block_collision_t`: the gap between the facing edges
/// divided by the closing speed `v1 - v2`; `Never` when the closing speed is
/// zero.
pub open spec fn spec_block_t(b1: BlockV, b2: BlockV) -> Option<ImpactV> {
    match spec_sub(b1.vel, b2.vel) {
        None => None,
        Some(closing) => if closing.n == 0 {
            Some(ImpactV::Never)
        } else {
            match spec_div(b1.size, rv_int(2)) {
                None => None,
                Some(h1) => match spec_div(b2.size, rv_int(2)) {
                    None => None,
                    Some(h2) => match spec_sub(b2.pos, h2) {
                        None => None,
                        Some(lead2) => match spec_add(b1.pos, h1) {
                            None => None,
                            Some(lead1) => match spec_sub(lead2, lead1) {
                                None => None,
                                Some(gap) => match spec_div(gap, closing) {
                                    None => None,
                                    Some(t) => Some(ImpactV::At(t)),
                                },
                            },
                        },
                    },
                },
            }
        },
    }
}

/// Time until the left block's leading edge reaches the wall, along the
/// current trajectory.  The result can be negative or lie beyond the frame
/// budget; only `0 <= t <= remaining` counts as an upcoming event.
pub fn get_wall_block_collision_t(block: &Block) -> (r: Result<ImpactTime, SimError>)
    requires
        block_wf(*block),
    ensures
        res_impact_view(r) == spec_wall_t(block@),
        r matches Ok(ImpactTime::At(t)) ==> rat_wf(t),
        r matches Err(e) ==> e == SimError::Overflow,
{
    if block.vel.num == 0 {
        return Ok(ImpactTime::Never);
    }
    let two = Rat::from_int(2);
    let h = match block.size.div(&two) {
        Some(h) => h,
        None => {
            return Err(SimError::Overflow);
        },
    };
    let dist = match block.pos.sub(&h) {
        Some(d) => d,
        None => {
            return Err(SimError::Overflow);
        },
    };
    let nv = block.vel.neg();
    match dist.div(&nv) {
        Some(t) => Ok(ImpactTime::At(t)),
        None => Err(SimError::Overflow),
    }
}

/// Time until the facing edges of the two blocks touch, along the current
/// trajectory.  The result can be negative or lie beyond the frame budget;
/// only `0 <= t <= remaining` counts as an upcoming event.
pub fn get_block_block_collision_t(block1: &Block, block2: &Block) -> (r: Result<
    ImpactTime,
    SimError,
>)
    requires
        block_wf(*block1),
        block_wf(*block2),
    ensures
        res_impact_view(r) == spec_block_t(block1@, block2@),
        r matches Ok(ImpactTime::At(t)) ==> rat_wf(t),
        r matches Err(e) ==> e == SimError::Overflow,
{
    let closing = match block1.vel.sub(&block2.vel) {
        Some(c) => c,
        None => {
            return Err(SimError::Overflow);
        },
    };
    if closing.num == 0 {
        return Ok(ImpactTime::Never);
    }
    let two = Rat::from_int(2);
    let h1 = match block1.size.div(&two) {
        Some(h) => h,
        None => {
            return Err(SimError::Overflow);
        },
    };
    let h2 = match block2.size.div(&two) {
        Some(h) => h,
        None => {
            return Err(SimError::Overflow);
        },
    };
    let lead2 = match block2.pos.sub(&h2) {
        Some(x) => x,
        None => {
            return Err(SimError::Overflow);
        },
    };
    let lead1 = match block1.pos.add(&h1) {
        Some(x) => x,
        None => {
            return Err(SimError::Overflow);
        },
    };
    let gap = match lead2.sub(&lead1) {
        Some(x) => x,
        None => {
            return Err(SimError::Overflow);
        },
    };
    match gap.div(&closing) {
        Some(t) => Ok(ImpactTime::At(t)),
        None => Err(SimError::Overflow),
    }
}

/// Fully elastic reflection off the infinite-mass wall: the velocity is
/// reversed exactly, nothing else changes.
pub fn collide_wall_block(block: &mut Block)
    requires
        block_wf(*old(block)),
    ensures
        block_wf(*final (block)),
        final (block)@.vel == rv_neg(old(block)@.vel),
        final (block)@.pos == old(block)@.pos,
        final (block)@.size == old(block)@.size,
        final (block)@.mass == old(block)@.mass,
{
    block.vel = block.vel.neg();
}

/// Mirror of `collide_blocks`: the new velocity pair of a one-dimensional
/// elastic collision,
/// `v1' = ((m1 - m2) v1 + 2 m2 v2) / (m1 + m2)` and
/// `v2' = ((m2 - m1) v2 + 2 m1 v1) / (m1 + m2)`,
/// both computed from the pre-collision velocities; `None` when a reduced
/// intermediate leaves the machine range.
pub open spec fn spec_collide(b1: BlockV, b2: BlockV) -> Option<(Ratio, Ratio)> {
    match spec_add(b1.mass, b2.mass) {
        None => None,
        Some(cm) => match spec_sub(b1.mass, b2.mass) {
            None => None,
            Some(dm1) => match spec_mul(dm1, b1.vel) {
                None => None,
                Some(t1) => match spec_mul(rv_int(2), b2.mass) {
                    None => None,
                    Some(tm2) => match spec_mul(tm2, b2.vel) {
                        None => None,
                        Some(t2) => match spec_add(t1, t2) {
                            None => None,
                            Some(s1) => match spec_div(s1, cm) {
                                None => None,
                                Some(w1) => match spec_sub(b2.mass, b1.mass) {
                                    None => None,
                                    Some(dm2) => match spec_mul(dm2, b2.vel) {
                                        None => None,
                                        Some(t3) => match spec_mul(rv_int(2), b1.mass) {
                                            None => None,
                                            Some(tm1) => match spec_mul(tm1, b1.vel) {
                                                None => None,
                                                Some(t4) => match spec_add(t3, t4) {
                                                    None => None,
                                                    Some(s2) => match spec_div(s2, cm) {
                                                        None => None,
                                                        Some(w2) => Some((w1, w2)),
                                                    },
                                                },
                                            },
                                        },
                                    },
                                },
                            },
                        },
                    },
                },
            },
        },
    }
}

/// One-dimensional elastic collision of the two blocks: both new velocities
/// are computed from the same pre-collision pair, conserving momentum and
/// kinetic energy.  On `Err` both blocks are unchanged.
pub fn collide_blocks(block1: &mut Block, block2: &mut Block) -> (r: Result<(), SimError>)
    requires
        block_wf(*old(block1)),
        block_wf(*old(block2)),
    ensures
        block_wf(*final (block1)),
        block_wf(*final (block2)),
        match r {
            Ok(()) => {
                &&& spec_collide(old(block1)@, old(block2)@) == Some(
                    (final (block1)@.vel, final (block2)@.vel),
                )
                &&& final (block1)@.pos == old(block1)@.pos
                &&& final (block1)@.size == old(block1)@.size
                &&& final (block1)@.mass == old(block1)@.mass
                &&& final (block2)@.pos == old(block2)@.pos
                &&& final (block2)@.size == old(block2)@.size
                &&& final (block2)@.mass == old(block2)@.mass
            },
            Err(e) => {
                &&& e == SimError::Overflow
                &&& spec_collide(old(block1)@, old(block2)@) == None::<(Ratio, Ratio)>
                &&& *final (block1) == *old(block1)
                &&& *final (block2) == *old(block2)
            },
        },
{
    let m1 = block1.mass;
    let m2 = block2.mass;
    let v1 = block1.vel;
    let v2 = block2.vel;
    let two = Rat::from_int(2);
    let cm = match m1.add(&m2) {
        Some(x) => x,
        None => {
            return Err(SimError::Overflow);
        },
    };
    proof {
        lemma_add_pos(m1@, m2@);
    }
    let dm1 = match m1.sub(&m2) {
        Some(x) => x,
        None => {
            return Err(SimError::Overflow);
        },
    };
    let t1 = match dm1.mul(&v1) {
        Some(x) => x,
        None => {
            return Err(SimError::Overflow);
        },
    };
    let tm2 = match two.mul(&m2) {
        Some(x) => x,
        None => {
            return Err(SimError::Overflow);
        },
    };
    let t2 = match tm2.mul(&v2) {
        Some(x) => x,
        None => {
            return Err(SimError::Overflow);
        },
    };
    let s1 = match t1.add(&t2) {
        Some(x) => x,
        None => {
            return Err(SimError::Overflow);
        },
    };
    let w1 = match s1.div(&cm) {
        Some(x) => x,
        None => {
            return Err(SimError::Overflow);
        },
    };
    let dm2 = match m2.sub(&m1) {
        Some(x) => x,
        None => {
            return Err(SimError::Overflow);
        },
    };
    let t3 = match dm2.mul(&v2) {
        Some(x) => x,
        None => {
            return Err(SimError::Overflow);
        },
    };
    let tm1 = match two.mul(&m1) {
        Some(x) => x,
        None => {
            return Err(SimError::Overflow);
        },
    };
    let t4 = match tm1.mul(&v1) {
        Some(x) => x,
        None => {
            return Err(SimError::Overflow);
        },
    };
    let s2 = match t3.add(&t4) {
        Some(x) => x,
        None => {
            return Err(SimError::Overflow);
        },
    };
    let w2 = match s2.div(&cm) {
        Some(x) => x,
        None => {
            return Err(SimError::Overflow);
        },
    };
    block1.vel = w1;
    block2.vel = w2;
    Ok(())
}

/// Mirror of free motion: `pos + vel * t`, everything else unchanged.
pub open spec fn spec_advance(b: BlockV, t: Ratio) -> Option<BlockV> {
    match spec_mul(b.vel, t) {
        None => None,
        Some(dx) => match spec_add(b.pos, dx) {
            None => None,
            Some(p) => Some(BlockV { pos: p, vel: b.vel, size: b.size, mass: b.mass }),
        },
    }
}

/// Constant-velocity advance of one block for a duration `t`.  On `Err` the
/// block is unchanged.
pub fn advance(block: &mut Block, t: &Rat) -> (r: Result<(), SimError>)
    requires
        block_wf(*old(block)),
        rat_wf(*t),
    ensures
        block_wf(*final (block)),
        match r {
            Ok(()) => spec_advance(old(block)@, t@) == Some(final (block)@),
            Err(e) => {
                &&& e == SimError::Overflow
                &&& spec_advance(old(block)@, t@) == None::<BlockV>
                &&& *final (block) == *old(block)
            },
        },
{
    let dx = match block.vel.mul(t) {
        Some(x) => x,
        None => {
            return Err(SimError::Overflow);
        },
    };
    let p = match block.pos.add(&dx) {
        Some(x) => x,
        None => {
            return Err(SimError::Overflow);
        },
    };
    block.pos = p;
    Ok(())
}

/// The whole simulation: the two blocks, the process-wide collision tally,
/// and the flag saying which event kind is checked next.
#[derive(Clone, Copy, Debug, PartialEq, Eq, Structural)]
pub struct Sim {
    pub block1: Block,
    pub block2: Block,
    pub collisions: u64,
    pub next_block_block: bool,
}

/// Mathematical model of the simulation state.
pub struct SimV {
    pub block1: BlockV,
    pub block2: BlockV,
    pub collisions: int,
    pub next_block_block: bool,
}

impl View for Sim {
    type V = SimV;

    open spec fn view(&self) -> SimV {
        SimV {
            block1: self.block1@,
            block2: self.block2@,
            collisions: self.collisions as int,
            next_block_block: self.next_block_block,
        }
    }
}

pub open spec fn sim_wf(s: Sim) -> bool {
    &&& block_wf(s.block1)
    &&& block_wf(s.block2)
}

pub open spec fn mk_sv(block1: BlockV, block2: BlockV, collisions: int, next_block_block: bool) -> SimV {
    SimV { block1, block2, collisions, next_block_block }
}

/// The outcome of one turn of the stepper's loop, in the model.
pub enum NextV {
    Fail,
    Stop(SimV),
    Go(SimV, Ratio),
}

/// The outcome of a whole frame, in the model.
pub enum RunV {
    OutOfFuel,
    Fail,
    Done(SimV),
}

/// No event within the remaining budget: free motion to the end of the frame.
pub open spec fn spec_finish(s: SimV, rem: Ratio) -> NextV {
    match spec_advance(s.block1, rem) {
        None => NextV::Fail,
        Some(b1) => match spec_advance(s.block2, rem) {
            None => NextV::Fail,
            Some(b2) => NextV::Stop(mk_sv(b1, b2, s.collisions, s.next_block_block)),
        },
    }
}

/// A genuine event at time `t` within the budget: advance both blocks to the
/// exact instant, resolve the event whose turn it is, count it, toggle the
/// turn, and spend `t` of the budget.
pub open spec fn spec_event(s: SimV, rem: Ratio, t: Ratio) -> NextV {
    if s.collisions == u64::MAX as int {
        NextV::Fail
    } else {
        match spec_sub(rem, t) {
            None => NextV::Fail,
            Some(rem2) => match spec_advance(s.block1, t) {
                None => NextV::Fail,
                Some(b1) => match spec_advance(s.block2, t) {
                    None => NextV::Fail,
                    Some(b2) => if s.next_block_block {
                        match spec_collide(b1, b2) {
                            None => NextV::Fail,
                            Some((w1, w2)) => NextV::Go(
                                mk_sv(
                                    BlockV { pos: b1.pos, vel: w1, size: b1.size, mass: b1.mass },
                                    BlockV { pos: b2.pos, vel: w2, size: b2.size, mass: b2.mass },
                                    s.collisions + 1,
                                    false,
                                ),
                                rem2,
                            ),
                        }
                    } else {
                        NextV::Go(
                            mk_sv(
                                BlockV {
                                    pos: b1.pos,
                                    vel: rv_neg(b1.vel),
                                    size: b1.size,
                                    mass: b1.mass,
                                },
                                b2,
                                s.collisions + 1,
                                true,
                            ),
                            rem2,
                        )
                    },
                },
            },
        }
    }
}

/// One turn of the stepper's loop: predict the next event of the kind whose
/// turn it is; if it falls at `0 <= t <= rem` resolve it, otherwise finish
/// the frame freely.
pub open spec fn spec_iter(s: SimV, rem: Ratio) -> NextV {
    let imp = if s.next_block_block {
        spec_block_t(s.block1, s.block2)
    } else {
        spec_wall_t(s.block1)
    };
    match imp {
        None => NextV::Fail,
        Some(ImpactV::Never) => spec_finish(s, rem),
        Some(ImpactV::At(t)) => if rv_le(rv_zero(), t) && rv_le(t, rem) {
            spec_event(s, rem, t)
        } else {
            spec_finish(s, rem)
        },
    }
}

/// The stepper's loop, allowed `fuel` turns.  Each resolved event spends one
/// unit of fuel; a frame that resolves more events than the fuel allows is
/// reported `OutOfFuel` (more fuel never changes a decided outcome, see
/// `laws`).
pub open spec fn spec_run(s: SimV, rem: Ratio, fuel: nat) -> RunV
    decreases fuel,
{
    if !rv_lt(rv_zero(), rem) {
        RunV::Done(s)
    } else if fuel == 0 {
        RunV::OutOfFuel
    } else {
        match spec_iter(s, rem) {
            NextV::Fail => RunV::Fail,
            NextV::Stop(x) => RunV::Done(x),
            NextV::Go(s2, rem2) => spec_run(s2, rem2, (fuel - 1) as nat),
        }
    }
}


/// How many loop turns one `step` call is willing to take.  Each resolved
/// event spends real frame time, so reaching this bound means the simulation
/// has effectively stalled; `step` then gives up instead of looping forever.
pub const STEP_FUEL: u64 = 0xffff_ffff_ffff_ffff;

/// Once the loop has decided (`Fail` or `Done`), more fuel changes nothing.
pub proof fn lemma_run_stable(s: SimV, rem: Ratio, n: nat, m: nat)
    requires
        n <= m,
        spec_run(s, rem, n) != RunV::OutOfFuel,
    ensures
        spec_run(s, rem, m) == spec_run(s, rem, n),
    decreases n,
{
    if !rv_lt(rv_zero(), rem) {
    } else {
        match spec_iter(s, rem) {
            NextV::Fail => {},
            NextV::Stop(_) => {},
            NextV::Go(s2, rem2) => {
                lemma_run_stable(s2, rem2, (n - 1) as nat, (m - 1) as nat);
            },
        }
    }
}

impl Sim {
    /// A fresh simulation: no collisions counted yet, the block-block event
    /// checked first.
    pub fn new(block1: Block, block2: Block) -> (s: Sim)
        requires
            block_wf(block1),
            block_wf(block2),
        ensures
            sim_wf(s),
            s@ == mk_sv(block1@, block2@, 0, true),
    {
        Sim { block1, block2, collisions: 0, next_block_block: true }
    }

    /// Read-only telemetry: how many events have been resolved so far.
    pub fn collision_count(&self) -> (c: u64)
        ensures
            c as int == self@.collisions,
    {
        self.collisions
    }

    /// Advance the simulation by one frame of duration `dt`, resolving every
    /// collision at its exact instant until the time budget is drained (a
    /// non-positive `dt` leaves the state unchanged).  Returns the number of
    /// events resolved during this frame.  On `Err` (a reduced rational left
    /// the machine range, or the loop hit its fuel bound) the state is
    /// unchanged.
    #[verifier::loop_isolation(false)]
    #[verifier::rlimit(100)]
    pub fn step(&mut self, dt: Rat) -> (r: Result<u64, SimError>)
        requires
            sim_wf(*old(self)),
            rat_wf(dt),
        ensures
            sim_wf(*final (self)),
            match r {
                Ok(events) => {
                    &&& spec_run(old(self)@, dt@, STEP_FUEL as nat) == RunV::Done(final (self)@)
                    &&& final (self)@.collisions == old(self)@.collisions + events as int
                },
                Err(e) => {
                    &&& e == SimError::Overflow
                    &&& *final (self) == *old(self)
                    &&& (spec_run(old(self)@, dt@, STEP_FUEL as nat) == RunV::Fail || spec_run(
                        old(self)@,
                        dt@,
                        STEP_FUEL as nat,
                    ) == RunV::OutOfFuel)
                },
            },
    {
        let ghost s0 = self@;
        let ghost dtv = dt@;
        let zero = Rat::from_int(0);
        let c0 = self.collisions;
        let mut b1 = self.block1;
        let mut b2 = self.block2;
        let mut collisions = self.collisions;
        let mut next_bb = self.next_block_block;
        let mut rem = dt;
        let mut fuel: u64 = STEP_FUEL;
        let ghost mut k: nat = 0;
        while fuel > 0 && zero.lt(&rem)
            invariant
                rat_wf(zero),
                zero@ == rv_zero(),
                rat_wf(rem),
                block_wf(b1),
                block_wf(b2),
                c0 <= collisions,
                k + fuel as nat == STEP_FUEL as nat,
                forall|f: nat|
                    spec_run(s0, dtv, (k + f) as nat) == #[trigger] spec_run(
                        mk_sv(b1@, b2@, collisions as int, next_bb),
                        rem@,
                        f,
                    ),
            decreases fuel,
        {
            let ghost svp = mk_sv(b1@, b2@, collisions as int, next_bb);
            let ghost remp = rem@;
            let imp = if next_bb {
                get_block_block_collision_t(&b1, &b2)
            } else {
                get_wall_block_collision_t(&b1)
            };
            let t_opt = match imp {
                Ok(ImpactTime::At(t)) => Some(t),
                Ok(ImpactTime::Never) => None,
                Err(_) => {
                    proof {
                        assert(spec_iter(svp, remp) == NextV::Fail);
                        assert(spec_run(svp, remp, 1) == RunV::Fail);
                        assert(spec_run(s0, dtv, (k + 1) as nat) == RunV::Fail);
                        lemma_run_stable(s0, dtv, (k + 1) as nat, STEP_FUEL as nat);
                    }
                    return Err(SimError::Overflow);
                },
            };
            let event = match t_opt {
                Some(t) => zero.le(&t) && t.le(&rem),
                None => false,
            };
            if event {
                let t = t_opt.unwrap();
                if collisions == u64::MAX {
                    proof {
                        assert(spec_iter(svp, remp) == NextV::Fail);
                        assert(spec_run(svp, remp, 1) == RunV::Fail);
                        assert(spec_run(s0, dtv, (k + 1) as nat) == RunV::Fail);
                        lemma_run_stable(s0, dtv, (k + 1) as nat, STEP_FUEL as nat);
                    }
                    return Err(SimError::Overflow);
                }
                let rem2 = match rem.sub(&t) {
                    Some(x) => x,
                    None => {
                        proof {
                            assert(spec_iter(svp, remp) == NextV::Fail);
                            assert(spec_run(svp, remp, 1) == RunV::Fail);
                            assert(spec_run(s0, dtv, (k + 1) as nat) == RunV::Fail);
                            lemma_run_stable(s0, dtv, (k + 1) as nat, STEP_FUEL as nat);
                        }
                        return Err(SimError::Overflow);
                    },
                };
                if let Err(_) = advance(&mut b1, &t) {
                    proof {
                        assert(spec_iter(svp, remp) == NextV::Fail);
                        assert(spec_run(svp, remp, 1) == RunV::Fail);
                        assert(spec_run(s0, dtv, (k + 1) as nat) == RunV::Fail);
                        lemma_run_stable(s0, dtv, (k + 1) as nat, STEP_FUEL as nat);
                    }
                    return Err(SimError::Overflow);
                }
                if let Err(_) = advance(&mut b2, &t) {
                    proof {
                        assert(spec_iter(svp, remp) == NextV::Fail);
                        assert(spec_run(svp, remp, 1) == RunV::Fail);
                        assert(spec_run(s0, dtv, (k + 1) as nat) == RunV::Fail);
                        lemma_run_stable(s0, dtv, (k + 1) as nat, STEP_FUEL as nat);
                    }
                    return Err(SimError::Overflow);
                }
                if next_bb {
                    if let Err(_) = collide_blocks(&mut b1, &mut b2) {
                        proof {
                            assert(spec_iter(svp, remp) == NextV::Fail);
                            assert(spec_run(svp, remp, 1) == RunV::Fail);
                            assert(spec_run(s0, dtv, (k + 1) as nat) == RunV::Fail);
                            lemma_run_stable(s0, dtv, (k + 1) as nat, STEP_FUEL as nat);
                        }
                        return Err(SimError::Overflow);
                    }
                } else {
                    collide_wall_block(&mut b1);
                }
                collisions = collisions + 1;
                next_bb = !next_bb;
                rem = rem2;
                fuel = fuel - 1;
                proof {
                    let svn = mk_sv(b1@, b2@, collisions as int, next_bb);
                    assert(spec_iter(svp, remp) == NextV::Go(svn, rem@));
                    assert forall|f: nat|
                        spec_run(s0, dtv, ((k + 1) + f) as nat) == #[trigger] spec_run(
                            svn,
                            rem@,
                            f,
                        ) by {
                        assert(spec_run(svp, remp, (1 + f) as nat) == spec_run(svn, rem@, f));
                        assert(spec_run(s0, dtv, (k + (1 + f)) as nat) == spec_run(
                            svp,
                            remp,
                            (1 + f) as nat,
                        ));
                    }
                    k = k + 1;
                }
            } else {
                // No event inside the budget: free motion to the end of the
                // frame, and the frame is done.
                if let Err(_) = advance(&mut b1, &rem) {
                    proof {
                        assert(spec_iter(svp, remp) == NextV::Fail);
                        assert(spec_run(svp, remp, 1) == RunV::Fail);
                        assert(spec_run(s0, dtv, (k + 1) as nat) == RunV::Fail);
                        lemma_run_stable(s0, dtv, (k + 1) as nat, STEP_FUEL as nat);
                    }
                    return Err(SimError::Overflow);
                }
                if let Err(_) = advance(&mut b2, &rem) {
                    proof {
                        assert(spec_iter(svp, remp) == NextV::Fail);
                        assert(spec_run(svp, remp, 1) == RunV::Fail);
                        assert(spec_run(s0, dtv, (k + 1) as nat) == RunV::Fail);
                        lemma_run_stable(s0, dtv, (k + 1) as nat, STEP_FUEL as nat);
                    }
                    return Err(SimError::Overflow);
                }
                proof {
                    let svn = mk_sv(b1@, b2@, collisions as int, next_bb);
                    assert(spec_iter(svp, remp) == NextV::Stop(svn));
                    assert(spec_run(svp, remp, 1) == RunV::Done(svn));
                    assert(spec_run(s0, dtv, (k + 1) as nat) == RunV::Done(svn));
                }
                rem = zero;
                fuel = fuel - 1;
                proof {
                    let svn = mk_sv(b1@, b2@, collisions as int, next_bb);
                    assert forall|f: nat|
                        spec_run(s0, dtv, ((k + 1) + f) as nat) == #[trigger] spec_run(
                            svn,
                            rem@,
                            f,
                        ) by {
                        lemma_run_stable(s0, dtv, (k + 1) as nat, ((k + 1) + f) as nat);
                        assert(spec_run(svn, rem@, f) == RunV::Done(svn));
                    }
                    k = k + 1;
                }
            }
        }
        if zero.lt(&rem) {
            // The fuel bound was reached with budget still unspent: the
            // simulation has stalled; report it rather than loop on.
            proof {
                assert(spec_run(mk_sv(b1@, b2@, collisions as int, next_bb), rem@, 0)
                    == RunV::OutOfFuel);
                assert(spec_run(s0, dtv, (k + 0) as nat) == RunV::OutOfFuel);
            }
            return Err(SimError::Overflow);
        }
        proof {
            let svn = mk_sv(b1@, b2@, collisions as int, next_bb);
            assert(spec_run(svn, rem@, fuel as nat) == RunV::Done(svn));
            assert(spec_run(s0, dtv, (k + fuel as nat) as nat) == RunV::Done(svn));
        }
        self.block1 = b1;
        self.block2 = b2;
        self.collisions = collisions;
        self.next_block_block = next_bb;
        Ok(collisions - c0)
    }
}

} // verus!
