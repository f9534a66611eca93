use gravity::body::Body;
use gravity::body::Rgba;
use gravity::error::SimError;
use gravity::physical::PhysicalBody;
use gravity::physical::Sprite;
use gravity::units::Scale;
use gravity::vector::Vec2;
use gravity::vector::LIMIT;

const BLUE: Rgba = Rgba { r: 0, g: 121, b: 241, a: 255 };

#[test]
fn physical_body_keeps_mass_radius_and_body() {
    let body = Body::new(7, 8, 12, BLUE).unwrap();
    let planet = PhysicalBody::new(5_972, 6_378, body).unwrap();
    assert_eq!(planet.mass(), 5_972);
    assert_eq!(planet.radius(), 6_378);
    assert_eq!(planet.body(), body);
}

#[test]
fn mass_that_is_not_positive_is_refused() {
    let body = Body::new(7, 8, 12, BLUE).unwrap();
    assert_eq!(PhysicalBody::new(0, 6_378, body), Err(SimError::InvalidMass));
    assert_eq!(PhysicalBody::new(-1, 6_378, body), Err(SimError::InvalidMass));
    assert_eq!(PhysicalBody::new(i64::MIN, 6_378, body), Err(SimError::InvalidMass));
    assert!(PhysicalBody::new(1, 1, body).is_ok());
    assert!(PhysicalBody::new(i64::MAX, i64::MAX, body).is_ok());
}

#[test]
fn radius_that_is_not_positive_is_refused() {
    let body = Body::new(7, 8, 12, BLUE).unwrap();
    assert_eq!(PhysicalBody::new(5_972, 0, body), Err(SimError::InvalidRadius));
    assert_eq!(PhysicalBody::new(5_972, -6_378, body), Err(SimError::InvalidRadius));
}

#[test]
fn mass_is_tested_before_radius() {
    let body = Body::new(7, 8, 12, BLUE).unwrap();
    assert_eq!(PhysicalBody::new(0, 0, body), Err(SimError::InvalidMass));
    assert_eq!(PhysicalBody::new(-5, -5, body), Err(SimError::InvalidMass));
}

#[test]
fn body_at_rest_gets_its_screen_radius_from_the_scale() {
    let scale = Scale::new(500).unwrap();
    let planet = PhysicalBody::at_rest(5_972, 6_378, 100, -200, BLUE, scale).unwrap();
    assert_eq!(planet.mass(), 5_972);
    assert_eq!(planet.radius(), 6_378);
    assert_eq!(planet.body(), Body::new(100, -200, 12, BLUE).unwrap());
    let moon = PhysicalBody::at_rest(73, 1_737, 0, 0, BLUE, scale).unwrap();
    assert_eq!(moon.body().radius(), 3);
    let speck = PhysicalBody::at_rest(1, 499, 0, 0, BLUE, scale).unwrap();
    assert_eq!(speck.body().radius(), 0);
    assert_eq!(speck.radius(), 499);
}

#[test]
fn body_at_rest_is_refused_in_order() {
    let scale = Scale::new(500).unwrap();
    assert_eq!(
        PhysicalBody::at_rest(0, 0, LIMIT + 1, 0, BLUE, scale),
        Err(SimError::InvalidMass)
    );
    assert_eq!(
        PhysicalBody::at_rest(1, 0, LIMIT + 1, 0, BLUE, scale),
        Err(SimError::InvalidRadius)
    );
    assert_eq!(
        PhysicalBody::at_rest(1, 1, LIMIT + 1, 0, BLUE, scale),
        Err(SimError::NonFinite)
    );
    assert_eq!(PhysicalBody::at_rest(1, 1, 0, -LIMIT - 1, BLUE, scale), Err(SimError::NonFinite));
    assert!(PhysicalBody::at_rest(1, 1, LIMIT, -LIMIT, BLUE, scale).is_ok());
}

#[test]
fn set_body_keeps_mass_and_radius() {
    let scale = Scale::new(500).unwrap();
    let mut planet = PhysicalBody::at_rest(5_972, 6_378, 100, -200, BLUE, scale).unwrap();
    let mut body = planet.body();
    body.accumulate_velocity(3, 4).unwrap();
    planet.set_body(body);
    assert_eq!(planet.body().velocity(), Vec2::new(3, 4).unwrap());
    assert_eq!(planet.body(), body);
    assert_eq!(planet.mass(), 5_972);
    assert_eq!(planet.radius(), 6_378);
}

#[test]
fn sprite_is_in_pixels() {
    let scale = Scale::new(500).unwrap();
    let planet = PhysicalBody::at_rest(5_972, 6_378, 100_250, -100_250, BLUE, scale).unwrap();
    assert_eq!(planet.sprite(scale), Sprite { x: 200, y: -201, radius: 12, color: BLUE });
    let finer = Scale::new(250).unwrap();
    assert_eq!(planet.sprite(finer), Sprite { x: 401, y: -401, radius: 12, color: BLUE });
}
