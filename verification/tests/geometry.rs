use survivors::config::HIT_RADIUS;
use survivors::geometry::isqrt;
use survivors::geometry::point_on_ring;
use survivors::geometry::step_len;
use survivors::geometry::Turn;
use survivors::geometry::Vec2;

fn at(x: i32, y: i32) -> Vec2 {
    Vec2 { x, y }
}

#[test]
fn isqrt_rounds_down() {
    assert_eq!(isqrt(0), 0);
    assert_eq!(isqrt(1), 1);
    assert_eq!(isqrt(2), 1);
    assert_eq!(isqrt(3), 1);
    assert_eq!(isqrt(4), 2);
    assert_eq!(isqrt(99), 9);
    assert_eq!(isqrt(100), 10);
    assert_eq!(isqrt(499_999), 707);
    assert_eq!(isqrt(1_000_000_000_000), 1_000_000);
}

#[test]
fn isqrt_of_the_largest_number() {
    assert_eq!(isqrt(u128::MAX), u64::MAX);
    assert_eq!(isqrt((u64::MAX as u128) * (u64::MAX as u128)), u64::MAX);
    assert_eq!(isqrt((u64::MAX as u128) * (u64::MAX as u128) - 1), u64::MAX - 1);
}

#[test]
fn distance_squared_is_exact() {
    assert_eq!(at(0, 0).distance_squared(&at(3000, 4000)), 25_000_000);
    assert_eq!(at(3000, 4000).distance_squared(&at(0, 0)), 25_000_000);
    assert_eq!(at(-5, 7).distance_squared(&at(-5, 7)), 0);
}

#[test]
fn distance_squared_across_the_whole_plane() {
    let low = at(i32::MIN, i32::MIN);
    let high = at(i32::MAX, i32::MAX);
    assert_eq!(low.distance_squared(&high), 36_893_488_130_239_234_050);
}

#[test]
fn within_is_strict() {
    let origin = at(0, 0);
    assert!(origin.is_within(&at(19_999, 0), HIT_RADIUS));
    assert!(!origin.is_within(&at(20_000, 0), HIT_RADIUS));
    assert!(origin.is_within(&at(12_000, 15_999), HIT_RADIUS));
    assert!(!origin.is_within(&at(12_000, 16_000), HIT_RADIUS));
    assert!(!origin.is_within(&origin, 0));
    assert!(origin.is_within(&origin, 1));
}

#[test]
fn within_at_the_ends_of_the_plane() {
    let low = at(i32::MIN, i32::MIN);
    let high = at(i32::MAX, i32::MAX);
    assert!(!low.is_within(&high, u32::MAX));
    assert!(at(i32::MIN, 0).is_within(&at(i32::MAX - 1, 0), u32::MAX));
}

#[test]
fn step_toward_keeps_the_direction() {
    assert_eq!(at(0, 0).step_toward(&at(3000, 4000), 1000), at(600, 800));
    assert_eq!(at(3000, 4000).step_toward(&at(0, 0), 1000), at(2400, 3200));
    assert_eq!(at(10, 10).step_toward(&at(10, -90), 25), at(10, -15));
}

#[test]
fn step_toward_goes_past_a_near_target() {
    assert_eq!(at(0, 0).step_toward(&at(300, 400), 1000), at(600, 800));
}

#[test]
fn step_toward_a_point_on_the_spot_stays() {
    assert_eq!(at(7, -3).step_toward(&at(7, -3), 1000), at(7, -3));
}

#[test]
fn step_along_is_as_long_on_a_diagonal() {
    assert_eq!(at(0, 0).step_along(&at(1, 1), 1000), at(707, 707));
    assert_eq!(at(0, 0).step_along(&at(-1, 1), 1000), at(-707, 707));
    assert_eq!(at(0, 0).step_along(&at(1, 0), 1000), at(1000, 0));
    assert_eq!(at(0, 0).step_along(&at(0, -1), 1000), at(0, -1000));
}

#[test]
fn step_along_ignores_the_length_of_the_heading() {
    let short = at(5, 5).step_along(&at(3, 4), 500);
    let long = at(5, 5).step_along(&at(3_000_000, 4_000_000), 500);
    assert_eq!(short, at(305, 405));
    assert_eq!(long, short);
}

#[test]
fn step_along_nothing_stays() {
    assert_eq!(at(12, 34).step_along(&at(0, 0), 1000), at(12, 34));
}

#[test]
fn steps_stop_at_the_ends_of_the_plane() {
    assert_eq!(at(i32::MAX - 10, 0).step_along(&at(1, 0), 100), at(i32::MAX, 0));
    assert_eq!(at(0, i32::MIN + 10).step_along(&at(0, -1), 100), at(0, i32::MIN));
    assert_eq!(
        at(i32::MIN, i32::MIN).step_toward(&at(i32::MAX, i32::MAX), u32::MAX),
        at(889_516_851, 889_516_851)
    );
}

#[test]
fn step_len_is_speed_times_time() {
    assert_eq!(step_len(50, 16_667), 833);
    assert_eq!(step_len(200, 1_000_000), 200_000);
    assert_eq!(step_len(300, 500_000), 150_000);
    assert_eq!(step_len(0, 1_000_000), 0);
    assert_eq!(step_len(150, 0), 0);
    assert_eq!(step_len(1, 999), 0);
}

#[test]
fn step_len_stops_at_the_largest_length() {
    assert_eq!(step_len(u32::MAX, u64::MAX), u32::MAX);
    assert_eq!(step_len(1000, 4_294_967_295), u32::MAX);
    assert_eq!(step_len(1000, 4_294_967_294), 4_294_967_294);
}

#[test]
fn turn_takes_the_cosine_and_sine_of_an_angle() {
    assert_eq!(Turn::new(1_000_000, 0), Some(Turn { cos: 1_000_000, sin: 0 }));
    assert_eq!(Turn::new(0, -1_000_000), Some(Turn { cos: 0, sin: -1_000_000 }));
    assert_eq!(Turn::new(996_195, 87_156), Some(Turn { cos: 996_195, sin: 87_156 }));
    assert_eq!(Turn::new(-707_107, 707_107), Some(Turn { cos: -707_107, sin: 707_107 }));
    assert_eq!(Turn::new(1_000_001, 0), Some(Turn { cos: 1_000_001, sin: 0 }));
    assert_eq!(Turn::new(999_999, 0), Some(Turn { cos: 999_999, sin: 0 }));
}

#[test]
fn turn_takes_nothing_else() {
    assert_eq!(Turn::new(0, 0), None);
    assert_eq!(Turn::new(1_000_000, 1_000_000), None);
    assert_eq!(Turn::new(1_000_002, 0), None);
    assert_eq!(Turn::new(999_998, 0), None);
    assert_eq!(Turn::new(-707_106, 707_106), None);
    assert_eq!(Turn::new(1, 0), None);
    assert_eq!(Turn::new(i32::MIN, i32::MIN), None);
    assert_eq!(Turn::new(i32::MAX, 0), None);
}

#[test]
fn direction_is_a_million_long() {
    assert_eq!(at(0, 0).direction_to(&at(3, 4)), at(600_000, 800_000));
    assert_eq!(at(10, 10).direction_to(&at(-90, 10)), at(-1_000_000, 0));
    assert_eq!(at(0, 0).direction_to(&at(1, 1)), at(707_106, 707_106));
    assert_eq!(at(5, 5).direction_to(&at(5, 5)), at(0, 0));
    assert_eq!(
        at(i32::MIN, i32::MIN).direction_to(&at(i32::MAX, i32::MAX)),
        at(707_106, 707_106)
    );
}

#[test]
fn turn_by_a_quarter() {
    let quarter = Turn::new(0, 1_000_000).unwrap();
    assert_eq!(quarter.turn(&at(1_000_000, 0)), at(0, 1_000_000));
    assert_eq!(quarter.turn(&at(0, 1_000_000)), at(-1_000_000, 0));
    assert_eq!(quarter.turn(&at(600_000, 800_000)), at(-800_000, 600_000));
    assert_eq!(quarter.turn(&at(0, 0)), at(0, 0));
}

#[test]
fn turn_by_five_degrees() {
    let there = Turn::new(996_195, 87_156).unwrap();
    let back = Turn::new(996_195, -87_156).unwrap();
    assert_eq!(there.turn(&at(1_000_000, 0)), at(996_194, 87_155));
    assert_eq!(back.turn(&at(1_000_000, 0)), at(996_194, -87_155));
    assert_eq!(there.turn(&at(0, -1_000_000)), at(87_155, -996_194));
}

#[test]
fn point_on_ring_lies_at_the_radius() {
    let center = at(10_000, -20_000);
    let east = Turn::new(1_000_000, 0).unwrap();
    let south = Turn::new(0, -1_000_000).unwrap();
    let slant = Turn::new(-600_000, 800_000).unwrap();
    assert_eq!(point_on_ring(&center, 300_000, &east), at(310_000, -20_000));
    assert_eq!(point_on_ring(&center, 399_999, &south), at(10_000, -419_999));
    assert_eq!(point_on_ring(&center, 350_000, &slant), at(-200_000, 260_000));
    assert_eq!(point_on_ring(&center, 0, &slant), center);
}

#[test]
fn point_on_ring_rounds_toward_the_center() {
    let center = at(0, 0);
    let turn = Turn::new(996_195, -87_156).unwrap();
    assert_eq!(point_on_ring(&center, 333_333, &turn), at(332_064, -29_051));
    let mirrored = Turn::new(-996_195, 87_156).unwrap();
    assert_eq!(point_on_ring(&center, 333_333, &mirrored), at(-332_064, 29_051));
}

#[test]
fn point_on_ring_stops_at_the_ends_of_the_plane() {
    let east = Turn::new(1_000_000, 0).unwrap();
    assert_eq!(point_on_ring(&at(i32::MAX - 5, 0), 300_000, &east), at(i32::MAX, 0));
    let wild = Turn { cos: i32::MIN, sin: i32::MAX };
    assert_eq!(point_on_ring(&at(0, 0), u32::MAX, &wild), at(i32::MIN, i32::MAX));
}
