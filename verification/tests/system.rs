use gravity::body::Body;
use gravity::body::Rgba;
use gravity::error::SimError;
use gravity::gravity::Gravity;
use gravity::physical::PhysicalBody;
use gravity::physical::Sprite;
use gravity::ratio::Ratio;
use gravity::system::Interaction;
use gravity::system::System;
use gravity::units::Scale;
use gravity::vector::Vec2;
use gravity::vector::LIMIT;

const BLUE: Rgba = Rgba { r: 0, g: 121, b: 241, a: 255 };
const WHITE: Rgba = Rgba { r: 255, g: 255, b: 255, a: 255 };

fn v(x: i64, y: i64) -> Vec2 {
    Vec2::new(x, y).unwrap()
}

fn ratio(num: u64, den: u64) -> Ratio {
    Ratio::new(num, den).unwrap()
}

fn pair(interaction: Interaction) -> System {
    let gravity = Gravity::new(ratio(1_000_000_000, 1), 1).unwrap();
    let scale = Scale::new(500).unwrap();
    let primary = PhysicalBody::at_rest(5_000, 6_378, 0, 0, BLUE, scale).unwrap();
    let satellite = PhysicalBody::at_rest(70, 1_737, 30_000, -40_000, WHITE, scale).unwrap();
    System::new(gravity, scale, interaction, primary, satellite)
}

fn twins() -> System {
    let gravity = Gravity::new(ratio(1_000_000_000, 1), 1).unwrap();
    let scale = Scale::new(500).unwrap();
    let primary = PhysicalBody::at_rest(900, 1_000, -20_000, 5_000, BLUE, scale).unwrap();
    let satellite = PhysicalBody::at_rest(900, 1_000, 20_000, -5_000, WHITE, scale).unwrap();
    System::new(gravity, scale, Interaction::Mutual, primary, satellite)
}

fn momentum(system: &System) -> (i128, i128) {
    let p = system.primary();
    let s = system.satellite();
    let x = p.mass() as i128 * p.body().velocity().x() as i128
        + s.mass() as i128 * s.body().velocity().x() as i128;
    let y = p.mass() as i128 * p.body().velocity().y() as i128
        + s.mass() as i128 * s.body().velocity().y() as i128;
    (x, y)
}

#[test]
fn system_keeps_what_it_was_given() {
    let gravity = Gravity::new(ratio(667, 10), 3).unwrap();
    let scale = Scale::new(500).unwrap();
    let primary = PhysicalBody::at_rest(5_000, 6_378, 1, 2, BLUE, scale).unwrap();
    let satellite = PhysicalBody::at_rest(70, 1_737, 3, 4, WHITE, scale).unwrap();
    let system = System::new(gravity, scale, Interaction::Mutual, primary, satellite);
    assert_eq!(system.gravity(), gravity);
    assert_eq!(system.scale(), scale);
    assert_eq!(system.interaction(), Interaction::Mutual);
    assert_eq!(system.primary(), primary);
    assert_eq!(system.satellite(), satellite);
}

#[test]
fn satellite_starts_below_the_primary() {
    let gravity = Gravity::new(ratio(667, 10), 3).unwrap();
    let scale = Scale::new(500).unwrap();
    let primary = PhysicalBody::at_rest(5_972, 6_378, 40, 15, BLUE, scale).unwrap();
    let system = System::with_separation(
        gravity,
        scale,
        Interaction::SatelliteOnly,
        primary,
        73,
        1_737,
        WHITE,
        100_000,
    )
    .unwrap();
    assert_eq!(system.primary(), primary);
    let satellite = system.satellite();
    assert_eq!(satellite.mass(), 73);
    assert_eq!(satellite.radius(), 1_737);
    assert_eq!(satellite.body(), Body::new(40, 15 - (6_378 + 1_737 + 100_000), 3, WHITE).unwrap());
    assert_eq!(satellite.body().position(), v(40, -108_100));
    assert_eq!(satellite.body().velocity(), Vec2::zero());
    assert_eq!(satellite.body().acceleration(), Vec2::zero());
    assert_eq!(system.distance(), 6_378 + 1_737 + 100_000);
}

#[test]
fn satellite_that_cannot_be_made_is_refused_in_order() {
    let gravity = Gravity::new(ratio(667, 10), 3).unwrap();
    let scale = Scale::new(500).unwrap();
    let low = PhysicalBody::at_rest(5_972, 6_378, 0, -LIMIT + 10_000, BLUE, scale).unwrap();
    let make = |mass: i64, radius: i64, separation: u64| {
        System::with_separation(
            gravity,
            scale,
            Interaction::SatelliteOnly,
            low,
            mass,
            radius,
            WHITE,
            separation,
        )
    };
    assert_eq!(make(0, 0, u64::MAX).err(), Some(SimError::InvalidMass));
    assert_eq!(make(-1, 1_737, 0).err(), Some(SimError::InvalidMass));
    assert_eq!(make(73, 0, u64::MAX).err(), Some(SimError::InvalidRadius));
    assert_eq!(make(73, -1_737, 0).err(), Some(SimError::InvalidRadius));
    assert_eq!(make(73, 1_737, u64::MAX).err(), Some(SimError::NonFinite));
    assert_eq!(make(73, 1_737, 1_886).err(), Some(SimError::NonFinite));
    assert_eq!(make(73, i64::MAX, 0).err(), Some(SimError::NonFinite));
    let lowest = make(73, 1_737, 1_885).unwrap();
    assert_eq!(lowest.satellite().body().position(), v(0, -LIMIT));
}

#[test]
fn one_step_after_the_concrete_scenario() {
    // Lengths in kilometres, masses in units of 10^13 kg, times in units of
    // 10^12 s. In these units G = 6.6743e-11 m^3 kg^-1 s^-2 is 6.6743e17 and
    // a step of 1/60 s is 1/(6 * 10^13).
    let gravity = Gravity::new(ratio(667_430_000_000_000_000, 1), 1).unwrap();
    let scale = Scale::new(500).unwrap();
    let dt = ratio(1, 60_000_000_000_000);
    let primary = PhysicalBody::at_rest(59_720_000_000, 6_378, 0, 0, BLUE, scale).unwrap();
    let satellite = PhysicalBody::at_rest(734_770_000, 1_737, 0, -100_000, WHITE, scale).unwrap();
    let mut system = System::new(gravity, scale, Interaction::SatelliteOnly, primary, satellite);
    assert_eq!(system.distance(), 100_000);
    assert_eq!(system.step(dt), Ok(()));

    let pulled = system.satellite().body();
    assert_eq!(pulled.acceleration(), v(0, 66_431));
    assert_eq!(pulled.velocity(), v(0, 66_431));
    assert_eq!(pulled.position(), v(0, -100_000 + 66_431));
    assert_eq!(system.primary(), primary);

    // G * M / d^2 in m/s^2, over 1/60 s, in kilometres per 10^12 s.
    let si: f64 = 6.6743e-11 * 5.972e23 / (1.0e8 * 1.0e8);
    assert!((si - 3.98589e-3).abs() < 1.0e-7);
    let expected: f64 = si / 60.0 * 1.0e-3 * 1.0e12;
    assert!((pulled.acceleration().y() as f64 - expected).abs() <= 1.0);
    assert!(pulled.acceleration().y() > 0);
    assert_eq!(pulled.acceleration().x(), 0);
}

#[test]
fn force_between_the_two_bodies() {
    let system = pair(Interaction::Mutual);
    assert_eq!(system.distance(), 50_000);
    // 10^9 * 5000 * 70 / 50000^2
    assert_eq!(system.force(), Ok(140_000));
    let gravity = Gravity::new(ratio(u64::MAX, 1), 1).unwrap();
    let scale = Scale::new(1).unwrap();
    let heavy = PhysicalBody::at_rest(i64::MAX, 1, 0, 0, BLUE, scale).unwrap();
    let wide = System::new(gravity, scale, Interaction::Mutual, heavy, heavy);
    assert_eq!(wide.distance(), 0);
    assert_eq!(wide.force(), Err(SimError::NonFinite));
}

#[test]
fn steps_that_pull_the_satellite_only() {
    let mut system = pair(Interaction::SatelliteOnly);
    let dt = ratio(1, 1);
    let primary = system.primary();

    assert_eq!(system.step(dt), Ok(()));
    let s = system.satellite().body();
    assert_eq!(s.acceleration(), v(-1_200, 1_600));
    assert_eq!(s.velocity(), v(-1_200, 1_600));
    assert_eq!(s.position(), v(28_800, -38_400));
    assert_eq!(system.primary(), primary);

    assert_eq!(system.step(dt), Ok(()));
    let s = system.satellite().body();
    assert_eq!(s.acceleration(), v(-1_302, 1_736));
    assert_eq!(s.velocity(), v(-2_502, 3_336));
    assert_eq!(s.position(), v(26_298, -35_064));

    assert_eq!(system.step(dt), Ok(()));
    let s = system.satellite().body();
    assert_eq!(s.acceleration(), v(-1_561, 2_082));
    assert_eq!(s.velocity(), v(-4_063, 5_418));
    assert_eq!(s.position(), v(22_235, -29_646));
    assert_eq!(system.primary(), primary);
    assert_eq!(system.satellite().mass(), 70);
    assert_eq!(system.satellite().radius(), 1_737);
}

#[test]
fn a_primary_that_is_not_pulled_still_advances() {
    let gravity = Gravity::new(ratio(1_000_000_000, 1), 1).unwrap();
    let scale = Scale::new(500).unwrap();
    let mut drifting = Body::new(0, 0, 12, BLUE).unwrap();
    drifting.accumulate_velocity(10, 0).unwrap();
    drifting.set_acceleration(0, 1).unwrap();
    let primary = PhysicalBody::new(5_000, 6_378, drifting).unwrap();
    let satellite = PhysicalBody::at_rest(70, 1_737, 30_000, -40_000, WHITE, scale).unwrap();
    let mut system = System::new(gravity, scale, Interaction::SatelliteOnly, primary, satellite);
    assert_eq!(system.step(ratio(1, 1)), Ok(()));
    let p = system.primary().body();
    assert_eq!(p.acceleration(), v(0, 1));
    assert_eq!(p.velocity(), v(10, 1));
    assert_eq!(p.position(), v(10, 1));
    // The pull on the satellite was taken from where the primary stood before the step.
    assert_eq!(system.satellite().body().acceleration(), v(-1_200, 1_600));
}

#[test]
fn steps_under_mutual_gravity() {
    let mut system = pair(Interaction::Mutual);
    let dt = ratio(1, 1);

    assert_eq!(system.step(dt), Ok(()));
    let p = system.primary().body();
    let s = system.satellite().body();
    assert_eq!(p.acceleration(), v(16, -22));
    assert_eq!(p.velocity(), v(16, -22));
    assert_eq!(p.position(), v(16, -22));
    assert_eq!(s.acceleration(), v(-1_200, 1_600));
    assert_eq!(s.position(), v(28_800, -38_400));

    assert_eq!(system.step(dt), Ok(()));
    let p = system.primary().body();
    let s = system.satellite().body();
    assert_eq!(p.acceleration(), v(18, -24));
    assert_eq!(p.velocity(), v(34, -46));
    assert_eq!(p.position(), v(50, -68));
    assert_eq!(s.acceleration(), v(-1_303, 1_738));
    assert_eq!(s.velocity(), v(-2_503, 3_338));
    assert_eq!(s.position(), v(26_297, -35_062));

    assert_eq!(system.step(dt), Ok(()));
    let p = system.primary().body();
    let s = system.satellite().body();
    assert_eq!(p.acceleration(), v(21, -29));
    assert_eq!(p.velocity(), v(55, -75));
    assert_eq!(p.position(), v(105, -143));
    assert_eq!(s.acceleration(), v(-1_567, 2_090));
    assert_eq!(s.velocity(), v(-4_070, 5_428));
    assert_eq!(s.position(), v(22_227, -29_634));
}

#[test]
fn a_pull_replaces_the_acceleration_of_the_step_before() {
    let gravity = Gravity::new(ratio(1_000_000_000, 1), 1).unwrap();
    let scale = Scale::new(500).unwrap();
    let primary = PhysicalBody::at_rest(5_000, 6_378, 0, 0, BLUE, scale).unwrap();
    let mut stale = Body::new(30_000, -40_000, 3, WHITE).unwrap();
    stale.set_acceleration(123_456, -654_321).unwrap();
    let satellite = PhysicalBody::new(70, 1_737, stale).unwrap();
    let mut system = System::new(gravity, scale, Interaction::SatelliteOnly, primary, satellite);
    assert_eq!(system.step(ratio(1, 1)), Ok(()));
    assert_eq!(system.satellite().body().acceleration(), v(-1_200, 1_600));
    assert_eq!(system.satellite().body().velocity(), v(-1_200, 1_600));
}

#[test]
fn equal_masses_mirror_each_other() {
    let mut system = twins();
    let dt = ratio(1, 2);
    let mut step = 0;
    while step < 25 {
        assert_eq!(system.step(dt), Ok(()));
        let p = system.primary().body();
        let s = system.satellite().body();
        assert_eq!(p.position().x(), -s.position().x());
        assert_eq!(p.position().y(), -s.position().y());
        assert_eq!(p.velocity().x(), -s.velocity().x());
        assert_eq!(p.acceleration().y(), -s.acceleration().y());
        assert_eq!(momentum(&system), (0, 0));
        step += 1;
    }
    let p = system.primary().body();
    assert_eq!(p.position(), v(122_069, -30_794));
    assert_eq!(p.velocity(), v(7_494, -1_894));
    assert_eq!(p.acceleration(), v(-7, 1));
    assert_eq!(system.satellite().body().position(), v(-122_069, 30_794));
}

#[test]
fn momentum_from_rest_stays_within_rounding() {
    let mut system = pair(Interaction::Mutual);
    let dt = ratio(3, 7);
    assert_eq!(momentum(&system), (0, 0));
    let heavier: i128 = 5_000;
    let mut before = momentum(&system);
    let mut step: i128 = 0;
    while step < 40 {
        assert_eq!(system.step(dt), Ok(()));
        step += 1;
        let now = momentum(&system);
        assert!((now.0 - before.0).abs() <= heavier - 1);
        assert!((now.1 - before.1).abs() <= heavier - 1);
        assert!(now.0.abs() <= step * (heavier - 1));
        assert!(now.1.abs() <= step * (heavier - 1));
        before = now;
    }
    assert_eq!(system.primary().body().position(), v(37_073, -49_413));
    assert_eq!(system.satellite().body().position(), v(-2_623_018, 3_501_392));
    assert_eq!(system.satellite().body().velocity(), v(-82_054, 109_531));
}

#[test]
fn momentum_is_not_kept_when_only_the_satellite_is_pulled() {
    let mut system = pair(Interaction::SatelliteOnly);
    assert_eq!(system.step(ratio(1, 1)), Ok(()));
    assert_eq!(momentum(&system), (70 * -1_200, 70 * 1_600));
}

#[test]
fn two_runs_pass_through_the_same_states() {
    let dts = vec![ratio(1, 1), ratio(3, 7), ratio(1, 60), ratio(5, 2), ratio(1, 1), ratio(2, 3)];
    let mut first = pair(Interaction::Mutual);
    let mut second = pair(Interaction::Mutual);
    let mut i = 0;
    while i < dts.len() {
        assert_eq!(first.step(dts[i]), Ok(()));
        assert_eq!(second.step(dts[i]), Ok(()));
        assert_eq!(first, second);
        i += 1;
    }
    let mut whole = pair(Interaction::Mutual);
    assert_eq!(whole.run(&dts), dts.len());
    assert_eq!(whole, first);
    let mut again = pair(Interaction::Mutual);
    assert_eq!(again.run(&dts), dts.len());
    assert_eq!(again, whole);
    assert_ne!(whole, pair(Interaction::Mutual));
}

#[test]
fn a_run_in_two_parts_is_the_whole_run() {
    let dts = vec![ratio(1, 1), ratio(3, 7), ratio(1, 60), ratio(5, 2), ratio(1, 1)];
    let head = vec![ratio(1, 1), ratio(3, 7)];
    let tail = vec![ratio(1, 60), ratio(5, 2), ratio(1, 1)];
    let mut whole = pair(Interaction::SatelliteOnly);
    assert_eq!(whole.run(&dts), 5);
    let mut parts = pair(Interaction::SatelliteOnly);
    assert_eq!(parts.run(&head), 2);
    assert_eq!(parts.run(&tail), 3);
    assert_eq!(parts, whole);
}

#[test]
fn the_time_step_changes_the_outcome() {
    let mut slow = pair(Interaction::SatelliteOnly);
    let mut fast = pair(Interaction::SatelliteOnly);
    assert_eq!(slow.step(ratio(1, 60)), Ok(()));
    assert_eq!(fast.step(ratio(1, 30)), Ok(()));
    assert_eq!(slow.satellite().body().acceleration(), v(-20, 26));
    assert_eq!(fast.satellite().body().acceleration(), v(-40, 53));
}

#[test]
fn an_empty_run_changes_nothing() {
    let mut system = pair(Interaction::Mutual);
    let before = system;
    assert_eq!(system.run(&Vec::new()), 0);
    assert_eq!(system, before);
}

#[test]
fn a_run_stops_before_the_step_that_is_not_finite() {
    let gravity = Gravity::new(ratio(1, 1), 1).unwrap();
    let scale = Scale::new(500).unwrap();
    let primary = PhysicalBody::at_rest(1, 1, 0, 0, BLUE, scale).unwrap();
    let mut leaving = Body::new(LIMIT - 25, 0, 1, WHITE).unwrap();
    leaving.accumulate_velocity(10, 0).unwrap();
    let satellite = PhysicalBody::new(1, 1, leaving).unwrap();
    let mut system = System::new(gravity, scale, Interaction::SatelliteOnly, primary, satellite);
    let dts = vec![ratio(1, 1), ratio(1, 1), ratio(1, 1), ratio(1, 1), ratio(1, 1)];
    assert_eq!(system.run(&dts), 2);
    assert_eq!(system.satellite().body().position(), v(LIMIT - 5, 0));
    assert_eq!(system.satellite().body().velocity(), v(10, 0));

    let stuck = system;
    assert_eq!(system.step(ratio(1, 1)), Err(SimError::NonFinite));
    assert_eq!(system, stuck);
    assert_eq!(system.run(&dts), 0);
    assert_eq!(system, stuck);
}

#[test]
fn a_step_whose_pull_is_not_finite_changes_nothing() {
    let gravity = Gravity::new(ratio(u64::MAX, 1), 1).unwrap();
    let scale = Scale::new(500).unwrap();
    let primary = PhysicalBody::at_rest(i64::MAX, 1, 0, 0, BLUE, scale).unwrap();
    let satellite = PhysicalBody::at_rest(1, 1, 2, 0, WHITE, scale).unwrap();
    let mut system = System::new(gravity, scale, Interaction::SatelliteOnly, primary, satellite);
    let before = system;
    assert_eq!(system.step(ratio(1, 1)), Err(SimError::NonFinite));
    assert_eq!(system, before);
}

#[test]
fn bodies_in_one_place_do_not_blow_up() {
    let gravity = Gravity::new(ratio(1_000_000, 1), 10).unwrap();
    let scale = Scale::new(500).unwrap();
    let primary = PhysicalBody::at_rest(5_000, 1, 7, 7, BLUE, scale).unwrap();
    let satellite = PhysicalBody::at_rest(70, 1, 7, 7, WHITE, scale).unwrap();
    let mut system = System::new(gravity, scale, Interaction::Mutual, primary, satellite);
    assert_eq!(system.distance(), 0);
    // 10^6 * 5000 * 70 / 10^2, the distance 0 being taken for 10.
    assert_eq!(system.force(), Ok(3_500_000_000));
    assert_eq!(system.step(ratio(1, 1)), Ok(()));
    assert_eq!(system.primary(), primary);
    assert_eq!(system.satellite(), satellite);
}

#[test]
fn sprites_are_the_bodies_in_pixels() {
    let mut system = pair(Interaction::SatelliteOnly);
    assert_eq!(
        system.sprites(),
        (
            Sprite { x: 0, y: 0, radius: 12, color: BLUE },
            Sprite { x: 60, y: -80, radius: 3, color: WHITE },
        )
    );
    assert_eq!(system.step(ratio(1, 1)), Ok(()));
    // (28800, -38400) at 500 units to the pixel
    assert_eq!(
        system.sprites(),
        (
            Sprite { x: 0, y: 0, radius: 12, color: BLUE },
            Sprite { x: 57, y: -77, radius: 3, color: WHITE },
        )
    );
    assert_eq!(system.step(ratio(1, 1)), Ok(()));
    // (26298, -35064): the second coordinate rounds toward minus infinity
    assert_eq!(system.sprites().1, Sprite { x: 52, y: -71, radius: 3, color: WHITE });
}
