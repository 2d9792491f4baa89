use math_it::num::Rational;
use math_it::Level;

#[test]
fn advancing_increments_level_and_keeps_seed() {
    let mut level = Level::new(99, 4);
    level.advance_level();
    assert_eq!(level.seed, 99);
    assert_eq!(level.level_index, 5);
}

#[test]
fn fresh_level_starts_at_index_zero() {
    let level = Level::first_with_random_seed();
    assert_eq!(level.level_index, 0);
}

#[test]
fn integers_embed_into_rationals() {
    let v = Rational::from_integer(-3);
    assert_eq!(v, Rational { n: -3, d: 1 });
}
