use collide1d::rat::Rat;
use collide1d::sim::{
    collide_blocks, collide_wall_block, get_block_block_collision_t, get_wall_block_collision_t,
    Block, ImpactTime, Sim, SimError,
};

fn rat(n: i64, d: i64) -> Rat {
    Rat::new(n, d).unwrap()
}

fn block(pos: i64, vel: i64, size: i64, mass: i64) -> Block {
    Block {
        pos: Rat::from_int(pos),
        vel: Rat::from_int(vel),
        size: Rat::from_int(size),
        mass: Rat::from_int(mass),
    }
}

/// The reference configuration: a light block at rest and a heavy block
/// approaching it from the right.
fn reference_blocks() -> (Block, Block) {
    (block(150, 0, 100, 1), block(750, -100, 400, 100))
}

#[test]
fn wall_predictor_exact_time() {
    // Leading edge at 100, moving left at speed 100: impact in one time unit.
    let b = block(150, -100, 100, 1);
    assert_eq!(get_wall_block_collision_t(&b), Ok(ImpactTime::At(Rat::from_int(1))));
}

#[test]
fn wall_predictor_never_when_still() {
    let b = block(150, 0, 100, 1);
    assert_eq!(get_wall_block_collision_t(&b), Ok(ImpactTime::Never));
}

#[test]
fn wall_predictor_past_time_when_receding() {
    // Moving away from the wall: the quotient is negative, not an event.
    let b = block(150, 50, 100, 1);
    assert_eq!(get_wall_block_collision_t(&b), Ok(ImpactTime::At(Rat::from_int(-2))));
}

#[test]
fn block_predictor_exact_time() {
    let (b1, b2) = reference_blocks();
    // Gap 350, closing speed 100: impact after 7/2 time units.
    assert_eq!(get_block_block_collision_t(&b1, &b2), Ok(ImpactTime::At(rat(7, 2))));
}

#[test]
fn block_predictor_never_at_equal_velocities() {
    let b1 = block(150, 30, 100, 1);
    let b2 = block(750, 30, 400, 100);
    assert_eq!(get_block_block_collision_t(&b1, &b2), Ok(ImpactTime::Never));
}

#[test]
fn wall_collision_reverses_velocity_exactly() {
    let mut b = block(150, -198, 100, 1);
    collide_wall_block(&mut b);
    assert_eq!(b.vel, Rat::from_int(198));
    assert_eq!(b.pos, Rat::from_int(150));
    assert_eq!(b.size, Rat::from_int(100));
    assert_eq!(b.mass, Rat::from_int(1));
    collide_wall_block(&mut b);
    assert_eq!(b.vel, Rat::from_int(-198));
}

#[test]
fn block_collision_matches_elastic_formulas() {
    let (mut b1, mut b2) = reference_blocks();
    collide_blocks(&mut b1, &mut b2).unwrap();
    assert_eq!(b1.vel, rat(-20000, 101));
    assert_eq!(b2.vel, rat(-9900, 101));
}

#[test]
fn block_collision_conserves_momentum_and_energy() {
    let (mut b1, mut b2) = reference_blocks();
    let before_momentum = Rat::from_int(1 * 0 + 100 * -100);
    let before_twice_energy = Rat::from_int(1 * 0 * 0 + 100 * -100 * -100);
    collide_blocks(&mut b1, &mut b2).unwrap();
    let after_momentum = b1
        .mass
        .mul(&b1.vel)
        .unwrap()
        .add(&b2.mass.mul(&b2.vel).unwrap())
        .unwrap();
    let after_twice_energy = b1
        .mass
        .mul(&b1.vel.mul(&b1.vel).unwrap())
        .unwrap()
        .add(&b2.mass.mul(&b2.vel.mul(&b2.vel).unwrap()).unwrap())
        .unwrap();
    assert_eq!(after_momentum, before_momentum);
    assert_eq!(after_twice_energy, before_twice_energy);
}

#[test]
fn frame_resolves_multiple_events_at_exact_instants() {
    let (b1, b2) = reference_blocks();
    let mut sim = Sim::new(b1, b2);
    // 41/10 time units: the block-block impact at 7/2 and the wall bounce at
    // 801/200 both land inside this single frame.
    let events = sim.step(rat(41, 10)).unwrap();
    assert_eq!(events, 2);
    assert_eq!(sim.collision_count(), 2);
    assert_eq!(sim.block1.pos, rat(6950, 101));
    assert_eq!(sim.block1.vel, rat(20000, 101));
    assert_eq!(sim.block2.pos, rat(34460, 101));
    assert_eq!(sim.block2.vel, rat(-9900, 101));
    // A single elastic collision would leave the light block moving left at
    // 20000/101; capturing the wall bounce in the same frame sends it right.
    assert!(Rat::from_int(0).lt(&sim.block1.vel));
    // The next frame catches the second block-block collision.
    let events = sim.step(rat(1, 10)).unwrap();
    assert_eq!(events, 1);
    assert_eq!(sim.collision_count(), 3);
    assert_eq!(sim.block1.pos, rat(757950, 10201));
    assert_eq!(sim.block1.vel, rat(-3960000, 10201));
    assert_eq!(sim.block2.pos, rat(3381930, 10201));
    assert_eq!(sim.block2.vel, rat(-940100, 10201));
}

#[test]
fn zero_dt_changes_nothing() {
    let (b1, b2) = reference_blocks();
    let mut sim = Sim::new(b1, b2);
    let events = sim.step(Rat::from_int(0)).unwrap();
    assert_eq!(events, 0);
    assert_eq!(sim.collision_count(), 0);
    assert_eq!(sim.block1, b1);
    assert_eq!(sim.block2, b2);
}

#[test]
fn separating_blocks_never_collide() {
    // The right block runs away; the left one is at rest, so neither event
    // kind ever fires, however large the frame.
    let b1 = block(150, 0, 100, 1);
    let b2 = block(750, 50, 400, 100);
    let mut sim = Sim::new(b1, b2);
    let events = sim.step(Rat::from_int(100)).unwrap();
    assert_eq!(events, 0);
    assert_eq!(sim.collision_count(), 0);
    assert_eq!(sim.block1.pos, Rat::from_int(150));
    assert_eq!(sim.block2.pos, Rat::from_int(5750));
}

#[test]
fn identical_runs_give_identical_trajectories() {
    let (b1, b2) = reference_blocks();
    let mut first = Sim::new(b1, b2);
    let mut second = Sim::new(b1, b2);
    for _ in 0..3 {
        let a = first.step(rat(7, 5));
        let b = second.step(rat(7, 5));
        assert_eq!(a, b);
        assert_eq!(first, second);
    }
}

#[test]
fn overflow_leaves_state_unchanged() {
    // A size whose halving cannot be represented makes the predictor fail;
    // the step reports it and the state is untouched.
    let b1 = Block {
        pos: Rat::from_int(10),
        vel: Rat::from_int(-1),
        size: Rat::new(1, i64::MAX).unwrap(),
        mass: Rat::from_int(1),
    };
    let b2 = block(750, 0, 400, 100);
    let mut sim = Sim::new(b1, b2);
    let before = sim;
    assert_eq!(sim.step(Rat::from_int(1)), Err(SimError::Overflow));
    assert_eq!(sim, before);
}
