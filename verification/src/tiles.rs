//! Quad-tree addressing of map tiles.
//!
//! A tile at zoom `z` is addressed by integer coordinates `(x, y)`; its four
//! children at zoom `z + 1` are `(2x, 2y)`, `(2x+1, 2y)`, `(2x, 2y+1)` and
//! `(2x+1, 2y+1)`, in the fixed order top-left, top-right, bottom-left,
//! bottom-right.

use vstd::prelude::*;
use vstd::string::*;

verus! {

/// Pixel width and height of a finished tile.
pub const TILE_PIXEL_SIZE: u32 = 256;

/// Horizontal offset (0 or 1) of child quadrant `i` within its parent.
pub open spec fn quad_dx(i: int) -> int {
    i % 2
}

/// Vertical offset (0 or 1) of child quadrant `i` within its parent.
pub open spec fn quad_dy(i: int) -> int {
    i / 2
}

/// x coordinate of the `i`-th child (at zoom `z + 1`) of a tile with x coordinate `x`.
pub open spec fn child_x(x: int, i: int) -> int {
    2 * x + quad_dx(i)
}

/// y coordinate of the `i`-th child (at zoom `z + 1`) of a tile with y coordinate `y`.
pub open spec fn child_y(y: int, i: int) -> int {
    2 * y + quad_dy(i)
}

/// Quadrant index a child occupies in its parent, recovered from the
/// parities of its coordinates.
pub open spec fn quad_of(cx: int, cy: int) -> int {
    2 * (cy % 2) + cx % 2
}

/// The four children of tile `(x, y)`, in quadrant order: top-left,
/// top-right, bottom-left, bottom-right.
pub fn children_of(x: i32, y: i32) -> (r: Vec<(i32, i32)>)
    requires
        i32::MIN / 2 <= x,
        x <= (i32::MAX - 1) / 2,
        i32::MIN / 2 <= y,
        y <= (i32::MAX - 1) / 2,
    ensures
        r@.len() == 4,
        forall|i: int|
            0 <= i < 4 ==> r@[i].0 == child_x(x as int, i) && r@[i].1 == child_y(y as int, i),
{
    let mut r: Vec<(i32, i32)> = Vec::new();
    r.push((2 * x, 2 * y));
    r.push((2 * x + 1, 2 * y));
    r.push((2 * x, 2 * y + 1));
    r.push((2 * x + 1, 2 * y + 1));
    r
}

/// Quad-tree addressing, both directions: the four children of `(x, y)` at
/// zoom `z` live at zoom `z + 1`, are pairwise distinct, each maps back to
/// its parent by halving (rounding down), and the quadrant a child occupies
/// in the parent's bounding canvas is recovered exactly from its coordinate
/// parities, so reassembling the four quadrants reproduces the parent's
/// canvas layout.
pub proof fn lemma_quadtree_addressing(x: int, y: int)
    ensures
        forall|i: int|
            0 <= i < 4 ==> #[trigger] child_x(x, i) / 2 == x && child_y(y, i) / 2 == y,
        forall|i: int| 0 <= i < 4 ==> #[trigger] quad_of(child_x(x, i), child_y(y, i)) == i,
        forall|i: int, j: int|
            0 <= i < 4 && 0 <= j < 4 && i != j ==> child_x(x, i) != child_x(x, j) || child_y(
                y,
                i,
            ) != child_y(y, j),
{
}

/// Whether pixel `(px, py)` of the doubled canvas lies in child quadrant `i`,
/// for quadrants of side `t`.
pub open spec fn in_quad(i: int, px: int, py: int, t: int) -> bool {
    &&& quad_dx(i) * t <= px < quad_dx(i) * t + t
    &&& quad_dy(i) * t <= py < quad_dy(i) * t + t
}

/// The four quadrant pixel offsets partition the parent's bounding canvas:
/// each pixel of the doubled canvas falls in exactly one child quadrant.
pub proof fn lemma_quadrants_partition_canvas(px: int, py: int, t: int)
    requires
        t > 0,
        0 <= px < 2 * t,
        0 <= py < 2 * t,
    ensures
        exists|i: int| 0 <= i < 4 && #[trigger] in_quad(i, px, py, t),
        forall|i: int, j: int|
            0 <= i < 4 && 0 <= j < 4 && #[trigger] in_quad(i, px, py, t) && #[trigger] in_quad(
                j,
                px,
                py,
                t,
            ) ==> i == j,
{
    let qx: int = if px < t {
        0
    } else {
        1
    };
    let qy: int = if py < t {
        0
    } else {
        1
    };
    let w = 2 * qy + qx;
    assert(0 <= w < 4);
    assert(quad_dx(w) == qx && quad_dy(w) == qy);
    assert(in_quad(w, px, py, t));
    assert forall|i: int| 0 <= i < 4 && #[trigger] in_quad(i, px, py, t) implies i == w by {
        assert(quad_dx(i) == 0 || quad_dx(i) == 1);
        assert(quad_dy(i) == 0 || quad_dy(i) == 1);
        assert(quad_dx(i) == qx);
        assert(quad_dy(i) == qy);
        assert(i == 2 * quad_dy(i) + quad_dx(i));
    }
}

/// Side length of a base tile's ground cell, in ground units.
pub const GROUND_CELL_SIZE: i64 = 1000;

/// Unicode whitespace, as stripped from the ends of a tile id.
pub open spec fn is_space_char(c: char) -> bool {
    let u = c as u32;
    (9 <= u <= 13) || u == 32 || u == 0x85 || u == 0xA0 || u == 0x1680 || (0x2000 <= u <= 0x200A)
        || u == 0x2028 || u == 0x2029 || u == 0x202F || u == 0x205F || u == 0x3000
}

fn is_space(c: char) -> (r: bool)
    ensures
        r == is_space_char(c),
{
    let u = c as u32;
    (9 <= u && u <= 13) || u == 32 || u == 0x85 || u == 0xA0 || u == 0x1680 || (0x2000 <= u && u
        <= 0x200A) || u == 0x2028 || u == 0x2029 || u == 0x202F || u == 0x205F || u == 0x3000
}

/// `s` with leading whitespace removed.
pub open spec fn trim_front(s: Seq<char>) -> Seq<char>
    decreases s.len(),
{
    if s.len() > 0 && is_space_char(s[0]) {
        trim_front(s.drop_first())
    } else {
        s
    }
}

/// `s` with trailing whitespace removed.
pub open spec fn trim_back(s: Seq<char>) -> Seq<char>
    decreases s.len(),
{
    if s.len() > 0 && is_space_char(s.last()) {
        trim_back(s.drop_last())
    } else {
        s
    }
}

/// `s` with whitespace removed from both ends.
pub open spec fn trim_seq(s: Seq<char>) -> Seq<char> {
    trim_back(trim_front(s))
}

proof fn lemma_trim_front_at(s: Seq<char>, lo: int)
    requires
        0 <= lo <= s.len(),
        forall|j: int| 0 <= j < lo ==> is_space_char(#[trigger] s[j]),
        lo < s.len() ==> !is_space_char(s[lo as int]),
    ensures
        trim_front(s) == s.subrange(lo, s.len() as int),
    decreases lo,
{
    if lo == 0 {
        assert(s.subrange(0, s.len() as int) =~= s);
    } else {
        let s1 = s.drop_first();
        assert(s1 =~= s.subrange(1, s.len() as int));
        lemma_trim_front_at(s1, lo - 1);
        assert(s1.subrange(lo - 1, s1.len() as int) =~= s.subrange(lo, s.len() as int));
    }
}

proof fn lemma_trim_back_at(s: Seq<char>, hi: int)
    requires
        0 <= hi <= s.len(),
        forall|j: int| hi <= j < s.len() ==> is_space_char(#[trigger] s[j]),
        hi > 0 ==> !is_space_char(s[hi - 1]),
    ensures
        trim_back(s) == s.subrange(0, hi),
    decreases s.len() - hi,
{
    if hi == s.len() {
        assert(s.subrange(0, s.len() as int) =~= s);
    } else {
        let s1 = s.drop_last();
        lemma_trim_back_at(s1, hi);
        assert(s1.subrange(0, hi) =~= s.subrange(0, hi));
    }
}

/// Whether `c` is a decimal digit.
pub open spec fn is_digit(c: char) -> bool {
    48 <= c as u32 <= 57
}

/// Numeric value of a digit character.
pub open spec fn digit_val(c: char) -> int {
    c as u32 - 48
}

/// Whether every character of `s` is a decimal digit.
pub open spec fn all_digits(s: Seq<char>) -> bool {
    forall|i: int| 0 <= i < s.len() ==> is_digit(#[trigger] s[i])
}

/// Value of a non-empty digit string, most significant digit first.
pub open spec fn digits_val(s: Seq<char>) -> int
    decreases s.len(),
{
    if s.len() == 0 {
        0
    } else {
        10 * digits_val(s.drop_last()) + digit_val(s.last())
    }
}

proof fn lemma_digits_val_push(s: Seq<char>, c: char)
    ensures
        digits_val(s.push(c)) == 10 * digits_val(s) + digit_val(c),
{
    assert(s.push(c).drop_last() =~= s);
}

proof fn lemma_digits_val_nonneg(s: Seq<char>)
    requires
        all_digits(s),
    ensures
        digits_val(s) >= 0,
    decreases s.len(),
{
    if s.len() > 0 {
        assert(all_digits(s.drop_last()));
        lemma_digits_val_nonneg(s.drop_last());
    }
}

/// The integer a string denotes under the usual signed decimal syntax:
/// an optional `+` or `-` sign followed by one or more digits, with no
/// bound on magnitude. `None` when the string is not of that shape.
pub open spec fn int_str_val(s: Seq<char>) -> Option<int> {
    if s.len() == 0 {
        None
    } else if s[0] == '-' {
        if s.len() > 1 && all_digits(s.skip(1)) {
            Some(-digits_val(s.skip(1)))
        } else {
            None
        }
    } else if s[0] == '+' {
        if s.len() > 1 && all_digits(s.skip(1)) {
            Some(digits_val(s.skip(1)))
        } else {
            None
        }
    } else {
        if all_digits(s) {
            Some(digits_val(s))
        } else {
            None
        }
    }
}

/// Signed decimal parsing restricted to the 64-bit range, as `i64` parsing
/// behaves: out-of-range magnitudes are rejected.
pub open spec fn parse_i64_spec(s: Seq<char>) -> Option<int> {
    match int_str_val(s) {
        Some(v) => if i64::MIN <= v <= i64::MAX {
            Some(v)
        } else {
            None
        },
        None => None,
    }
}

/// How many times `c` occurs in `s`.
pub open spec fn count_char(s: Seq<char>, c: char) -> nat
    decreases s.len(),
{
    if s.len() == 0 {
        0
    } else {
        count_char(s.drop_last(), c) + if s.last() == c {
            1nat
        } else {
            0nat
        }
    }
}

proof fn lemma_count_char_push(s: Seq<char>, c: char, d: char)
    ensures
        count_char(s.push(d), c) == count_char(s, c) + if d == c {
            1nat
        } else {
            0nat
        },
{
    assert(s.push(d).drop_last() =~= s);
}

proof fn lemma_count_zero_no_occurrence(s: Seq<char>, c: char)
    requires
        count_char(s, c) == 0,
    ensures
        forall|i: int| 0 <= i < s.len() ==> #[trigger] s[i] != c,
    decreases s.len(),
{
    if s.len() > 0 {
        lemma_count_zero_no_occurrence(s.drop_last(), c);
        assert forall|i: int| 0 <= i < s.len() implies #[trigger] s[i] != c by {
            if i < s.len() - 1 {
                assert(s.drop_last()[i] == s[i]);
            }
        }
    }
}

proof fn lemma_count_one_unique(s: Seq<char>, c: char, i: int, j: int)
    requires
        count_char(s, c) == 1,
        0 <= i < s.len(),
        0 <= j < s.len(),
        s[i] == c,
        s[j] == c,
    ensures
        i == j,
    decreases s.len(),
{
    let s1 = s.drop_last();
    if s.last() == c {
        lemma_count_zero_no_occurrence(s1, c);
        if i < s.len() - 1 {
            assert(s1[i] == s[i]);
        }
        if j < s.len() - 1 {
            assert(s1[j] == s[j]);
        }
    } else {
        assert(i < s.len() - 1 && j < s.len() - 1);
        assert(s1[i] == c && s1[j] == c);
        lemma_count_one_unique(s1, c, i, j);
    }
}

/// The tile id grammar: after trimming whitespace, exactly one `_`
/// separating two signed decimal numbers in 64-bit range. The value is the
/// pair (easting, northing) of the cell's south-west corner.
pub open spec fn spec_parse_tile_id(s: Seq<char>) -> Option<(int, int)> {
    let t = trim_seq(s);
    if count_char(t, '_') == 1 {
        let k = choose|k: int| 0 <= k < t.len() && t[k] == '_';
        match (parse_i64_spec(t.subrange(0, k)), parse_i64_spec(
            t.subrange(k + 1, t.len() as int),
        )) {
            (Some(e), Some(n)) => Some((e, n)),
            _ => None,
        }
    } else {
        None
    }
}

/// Parses the characters of `s` in `[lo, hi)` as a signed 64-bit decimal.
fn parse_i64_range(s: &str, lo: usize, hi: usize) -> (r: Option<i64>)
    requires
        lo <= hi <= s@.len(),
    ensures
        match parse_i64_spec(s@.subrange(lo as int, hi as int)) {
            Some(v) => r is Some && r.unwrap() as int == v,
            None => r is None,
        },
{
    let ghost t = s@.subrange(lo as int, hi as int);
    if lo >= hi {
        return None;
    }
    let c0 = s.get_char(lo);
    let mut neg: bool = false;
    let mut start: usize = lo;
    if c0 == '-' {
        neg = true;
        start = lo + 1;
    } else if c0 == '+' {
        start = lo + 1;
    }
    let ghost digits = t.skip(start - lo);
    if start >= hi {
        // a bare sign with nothing after it
        proof {
            assert(lo < hi);
            assert(start == lo + 1 && (c0 == '-' || c0 == '+'));
            assert(t.len() == 1 && t[0] == c0);
            if c0 == '-' {
                assert(t[0] == '-');
                assert(!(t.len() > 1 && all_digits(t.skip(1))));
                assert(int_str_val(t) is None);
            } else {
                assert(t[0] == '+');
                assert(t[0] != '-');
                assert(!(t.len() > 1 && all_digits(t.skip(1))));
                assert(int_str_val(t) is None);
            }
        }
        return None;
    }
    if start == lo {
        // no sign: the first character must itself be a digit for the
        // whole range to be digits
        assert(t.skip(0) =~= t);
    }
    let mut acc: u64 = 0;
    let mut big: bool = false;
    let mut i: usize = start;
    while i < hi
        invariant
            lo <= start <= i <= hi <= s@.len(),
            start - lo <= 1,
            lo < hi,
            start < hi,
            t == s@.subrange(lo as int, hi as int),
            digits == t.skip(start - lo),
            start == lo ==> t[0] != '-' && t[0] != '+',
            start == lo + 1 ==> t[0] == '-' || t[0] == '+',
            neg <==> start == lo + 1 && t[0] == '-',
            all_digits(t.subrange(start - lo, i - lo)),
            !big ==> acc as int == digits_val(t.subrange(start - lo, i - lo)),
            big ==> digits_val(t.subrange(start - lo, i - lo)) > u64::MAX,
        decreases hi - i,
    {
        let c = s.get_char(i);
        let u = c as u32;
        if !(48 <= u && u <= 57) {
            assert(t[i - lo] == c && !is_digit(c));
            assert(!all_digits(digits)) by {
                assert(digits[i - lo - (start - lo)] == c);
            }
            assert(int_str_val(t) is None) by {
                if start == lo {
                    assert(t.skip(0) =~= t);
                    assert(!all_digits(t));
                    assert(t[0] != '-' && t[0] != '+');
                } else {
                    assert(digits == t.skip(1));
                    assert(!(t.len() > 1 && all_digits(t.skip(1))));
                }
            }
            return None;
        }
        let d = (u - 48) as u64;
        let ghost pre = t.subrange(start - lo, i - lo);
        proof {
            assert(t.subrange(start - lo, i + 1 - lo) =~= pre.push(t[i - lo]));
            lemma_digits_val_push(pre, t[i - lo]);
            lemma_digits_val_nonneg(pre);
        }
        if !big {
            if acc > (u64::MAX - d) / 10 {
                proof {
                    assert(acc * 10 + d > u64::MAX) by (nonlinear_arith)
                        requires
                            acc > (u64::MAX - d) / 10,
                            d <= u64::MAX,
                    ;
                }
                big = true;
            } else {
                proof {
                    assert(acc * 10 + d <= u64::MAX) by (nonlinear_arith)
                        requires
                            acc <= (u64::MAX - d) / 10,
                            d <= 9,
                    ;
                }
                acc = acc * 10 + d;
            }
        } else {
            proof {
                let dv = digits_val(pre);
                assert(10 * dv + digit_val(t[i - lo]) > u64::MAX) by (nonlinear_arith)
                    requires
                        dv > u64::MAX,
                        digit_val(t[i - lo]) >= 0,
                ;
            }
        }
        i = i + 1;
    }
    proof {
        assert(t.subrange(start - lo, hi - lo) =~= digits);
        if start == lo {
            assert(t.skip(0) =~= t);
            assert(all_digits(t));
        } else {
            assert(hi - lo >= 2);
            assert(all_digits(t.skip(1)));
        }
        lemma_digits_val_nonneg(digits);
        assert(int_str_val(t) == Some(
            if neg {
                -digits_val(digits)
            } else {
                digits_val(digits)
            },
        ));
    }
    if big {
        return None;
    }
    if neg {
        if acc > 0x8000000000000000u64 {
            return None;
        } else if acc == 0x8000000000000000u64 {
            return Some(i64::MIN);
        } else {
            return Some(-(acc as i64));
        }
    } else {
        if acc > 0x7FFFFFFFFFFFFFFFu64 {
            return None;
        } else {
            return Some(acc as i64);
        }
    }
}

/// Parses a tile id of the form `"<easting>_<northing>"`, tolerating
/// surrounding whitespace. Returns the south-west corner of the tile's
/// ground cell, or `None` when the id is not of that shape.
pub fn parse_tile_id(s: &str) -> (r: Option<(i64, i64)>)
    ensures
        match spec_parse_tile_id(s@) {
            Some(p) => r is Some && r.unwrap().0 as int == p.0 && r.unwrap().1 as int == p.1,
            None => r is None,
        },
{
    let n = s.unicode_len();
    let mut lo: usize = 0;
    while lo < n && is_space(s.get_char(lo))
        invariant
            lo <= n == s@.len(),
            forall|j: int| 0 <= j < lo ==> is_space_char(#[trigger] s@[j]),
        decreases n - lo,
    {
        lo = lo + 1;
    }
    let mut hi: usize = n;
    while hi > lo && is_space(s.get_char(hi - 1))
        invariant
            lo <= hi <= n == s@.len(),
            forall|j: int| 0 <= j < lo ==> is_space_char(#[trigger] s@[j]),
            forall|j: int| hi <= j < n ==> is_space_char(#[trigger] s@[j]),
        decreases hi,
    {
        hi = hi - 1;
    }
    let ghost t = trim_seq(s@);
    proof {
        lemma_trim_front_at(s@, lo as int);
        let u = s@.subrange(lo as int, n as int);
        lemma_trim_back_at(u, hi - lo);
        assert(u.subrange(0, hi - lo) =~= s@.subrange(lo as int, hi as int));
        assert(t == s@.subrange(lo as int, hi as int));
    }
    // exactly one underscore separates the two coordinates
    let mut k: usize = hi;  // position of the underscore, `hi` while unseen
    let mut cnt: usize = 0;
    let mut i: usize = lo;
    while i < hi
        invariant
            lo <= i <= hi <= n == s@.len(),
            t == s@.subrange(lo as int, hi as int),
            cnt == count_char(s@.subrange(lo as int, i as int), '_'),
            cnt <= i - lo,
            cnt > 0 ==> lo <= k < i && s@[k as int] == '_',
            cnt == 0 ==> k == hi,
        decreases hi - i,
    {
        let c = s.get_char(i);
        proof {
            lemma_count_char_push(s@.subrange(lo as int, i as int), '_', s@[i as int]);
            assert(s@.subrange(lo as int, i + 1) =~= s@.subrange(lo as int, i as int).push(
                s@[i as int],
            ));
        }
        if c == '_' {
            if cnt == 0 {
                k = i;
            }
            cnt = cnt + 1;
        }
        i = i + 1;
    }
    if cnt != 1 {
        return None;
    }
    proof {
        let kk = choose|kk: int| 0 <= kk < t.len() && t[kk] == '_';
        assert(t[k - lo] == '_');
        lemma_count_one_unique(t, '_', kk, k - lo);
    }
    let left = parse_i64_range(s, lo, k);
    let right = parse_i64_range(s, k + 1, hi);
    proof {
        assert(s@.subrange(lo as int, k as int) =~= t.subrange(0, k - lo));
        assert(s@.subrange(k + 1, hi as int) =~= t.subrange(k - lo + 1, t.len() as int));
    }
    match (left, right) {
        (Some(e), Some(nn)) => Some((e, nn)),
        _ => None,
    }
}

/// Whether a tile id parses and its ground extent stays in 64-bit range.
pub open spec fn valid_tile_id(s: Seq<char>) -> bool {
    match spec_parse_tile_id(s) {
        Some(p) => p.0 + GROUND_CELL_SIZE <= i64::MAX && p.1 + GROUND_CELL_SIZE <= i64::MAX,
        None => false,
    }
}

/// Ground extent `(min_x, min_y, max_x, max_y)` of a base tile's 1000 by
/// 1000 ground cell, read off the tile id's numeric encoding.
pub fn get_extent_from_tile_id(tile_id: &str) -> (r: (i64, i64, i64, i64))
    requires
        valid_tile_id(tile_id@),
    ensures
        ({
            let p = spec_parse_tile_id(tile_id@).unwrap();
            r.0 == p.0 && r.1 == p.1 && r.2 == p.0 + GROUND_CELL_SIZE && r.3 == p.1
                + GROUND_CELL_SIZE
        }),
{
    match parse_tile_id(tile_id) {
        Some((e, n)) => (e, n, e + GROUND_CELL_SIZE, n + GROUND_CELL_SIZE),
        None => {
            proof {
                assert(false);
            }
            (0, 0, 0, 0)
        },
    }
}

} // verus!
