use mapant_worker::strings::{i32_to_dec, i64_to_dec, u64_to_dec};
use mapant_worker::tiles::{children_of, get_extent_from_tile_id, parse_tile_id};

#[test]
fn quadtree_children_in_fixed_order() {
    let c = children_of(3, 5);
    assert_eq!(c.len(), 4);
    assert_eq!(c[0], (6, 10));
    assert_eq!(c[1], (7, 10));
    assert_eq!(c[2], (6, 11));
    assert_eq!(c[3], (7, 11));
}

#[test]
fn quadtree_children_negative_coordinates() {
    let c = children_of(-1, -2);
    assert_eq!(c[0], (-2, -4));
    assert_eq!(c[1], (-1, -4));
    assert_eq!(c[2], (-2, -3));
    assert_eq!(c[3], (-1, -3));
}

#[test]
fn quadtree_children_map_back_to_parent() {
    for (cx, cy) in children_of(3, 5) {
        assert_eq!(cx.div_euclid(2), 3);
        assert_eq!(cy.div_euclid(2), 5);
    }
}

#[test]
fn parse_tile_id_plain() {
    assert_eq!(parse_tile_id("601000_6520000"), Some((601000, 6520000)));
}

#[test]
fn parse_tile_id_trims_whitespace() {
    assert_eq!(parse_tile_id("  601000_6520000\t\n"), Some((601000, 6520000)));
}

#[test]
fn parse_tile_id_signs() {
    assert_eq!(parse_tile_id("+1_-2"), Some((1, -2)));
    assert_eq!(parse_tile_id("-601000_6520000"), Some((-601000, 6520000)));
}

#[test]
fn parse_tile_id_leading_zeros() {
    assert_eq!(parse_tile_id("000000000000000000001_2"), Some((1, 2)));
}

#[test]
fn parse_tile_id_rejects_bad_shapes() {
    assert_eq!(parse_tile_id(""), None);
    assert_eq!(parse_tile_id("_"), None);
    assert_eq!(parse_tile_id("601000"), None);
    assert_eq!(parse_tile_id("a_b"), None);
    assert_eq!(parse_tile_id("1__2"), None);
    assert_eq!(parse_tile_id("1_2_3"), None);
    assert_eq!(parse_tile_id("1_2.5"), None);
    assert_eq!(parse_tile_id("1_ 2"), None);
}

#[test]
fn parse_tile_id_respects_i64_range() {
    assert_eq!(
        parse_tile_id("9223372036854775807_0"),
        Some((9223372036854775807, 0))
    );
    assert_eq!(parse_tile_id("9223372036854775808_0"), None);
    assert_eq!(
        parse_tile_id("-9223372036854775808_0"),
        Some((-9223372036854775808, 0))
    );
    assert_eq!(parse_tile_id("-9223372036854775809_0"), None);
    assert_eq!(parse_tile_id("99999999999999999999999999_1"), None);
}

#[test]
fn extent_spans_one_ground_cell() {
    let e = get_extent_from_tile_id("601000_6520000");
    assert_eq!(e, (601000, 6520000, 602000, 6521000));
}

#[test]
fn extent_of_negative_corner() {
    let e = get_extent_from_tile_id("-2000_-3000");
    assert_eq!(e, (-2000, -3000, -1000, -2000));
}

#[test]
fn decimal_strings() {
    assert_eq!(u64_to_dec(0), "0");
    assert_eq!(u64_to_dec(7), "7");
    assert_eq!(u64_to_dec(1234567890), "1234567890");
    assert_eq!(u64_to_dec(u64::MAX), "18446744073709551615");
    assert_eq!(i64_to_dec(-42), "-42");
    assert_eq!(i64_to_dec(0), "0");
    assert_eq!(i64_to_dec(i64::MIN), "-9223372036854775808");
    assert_eq!(i64_to_dec(i64::MAX), "9223372036854775807");
    assert_eq!(i32_to_dec(-13), "-13");
}
