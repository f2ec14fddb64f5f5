//! The arithmetic core of the mesh grid.
//!
//! A mesh code is a string of decimal digits.  Its first four characters
//! hold two two-digit fields naming a first-level cell; each later level
//! appends digits that subdivide the cell of the level above: two digits in
//! 0..=7 for the second level, two digits in 0..=9 for the third, and one
//! quadrant digit in 1..=4 for each of the fourth, fifth and sixth levels
//! (1 = south-west, 2 = south-east, 3 = north-west, 4 = north-east).
//!
//! Everything here is expressed over a [`Domain`], the bounding box of the
//! covered territory, given as the legal range of the two level-one fields.

use vstd::prelude::*;
use vstd::string::*;
use crate::GSJPError;

verus! {

/// The bounding box of a mesh family: the inclusive ranges of the two-digit
/// latitude and longitude fields of a level-one code.
#[derive(Debug, Clone, Copy, PartialEq, Eq, Structural)]
pub struct Domain {
    /// Smallest legal latitude field (the southern edge divided by 40 minutes).
    pub lat_field_min: u8,
    /// Largest legal latitude field.
    pub lat_field_max: u8,
    /// Smallest legal longitude field (the western edge minus 100 degrees).
    pub lon_field_min: u8,
    /// Largest legal longitude field.
    pub lon_field_max: u8,
}

impl Domain {
    /// A domain is well formed when its field ranges are non-empty and small
    /// enough that every boundary stays far from any integer limit.
    pub open spec fn wf(self) -> bool {
        &&& 0 < self.lat_field_min <= self.lat_field_max < 99
        &&& self.lon_field_min <= self.lon_field_max < 55
    }

    /// The southern edge of the domain, in angle units.
    pub open spec fn south_units(self) -> int {
        self.lat_field_min * 4_800_000
    }

    /// The northern edge of the domain, in angle units.
    pub open spec fn north_units(self) -> int {
        (self.lat_field_max + 1) * 4_800_000
    }

    /// The western edge of the domain, in angle units.
    pub open spec fn west_units(self) -> int {
        (self.lon_field_min + 100) * 7_200_000
    }

    /// The eastern edge of the domain, in angle units.
    pub open spec fn east_units(self) -> int {
        (self.lon_field_max + 101) * 7_200_000
    }
}

/// The length of a code at each level: 4, 6, 8, 9, 10, 11.
pub open spec fn code_len(level: int) -> int {
    if level <= 1 {
        4
    } else if level == 2 {
        6
    } else if level == 3 {
        8
    } else {
        level + 5
    }
}

/// Whether a character is a decimal digit.
pub open spec fn is_digit_char(c: char) -> bool {
    '0' <= c && c <= '9'
}

/// The numeric value of a digit character.
pub open spec fn digit(c: char) -> int {
    c as int - 48
}

/// The two-digit latitude field of a code.
pub open spec fn lat_field(s: Seq<char>) -> int {
    10 * digit(s[0]) + digit(s[1])
}

/// The two-digit longitude field of a code.
pub open spec fn lon_field(s: Seq<char>) -> int {
    10 * digit(s[2]) + digit(s[3])
}

/// The northern half-bit of a quadrant digit: 0 for the southern pair
/// {1, 2}, 1 for the northern pair {3, 4}.
pub open spec fn quad_lat(c: char) -> int {
    (digit(c) - 1) / 2
}

/// The eastern half-bit of a quadrant digit: 0 for the western pair
/// {1, 3}, 1 for the eastern pair {2, 4}.
pub open spec fn quad_lon(c: char) -> int {
    (digit(c) - 1) % 2
}

/// The height of one cell at each level, in angle units: 40 minutes,
/// divided by 8, then 10, then 2, 2, 2.
pub open spec fn cell_height(level: int) -> int {
    if level <= 1 {
        4_800_000
    } else if level == 2 {
        600_000
    } else if level == 3 {
        60_000
    } else if level == 4 {
        30_000
    } else if level == 5 {
        15_000
    } else {
        7_500
    }
}

/// The width of one cell at each level, in angle units: 1 degree, divided
/// by 8, then 10, then 2, 2, 2.
pub open spec fn cell_width(level: int) -> int {
    if level <= 1 {
        7_200_000
    } else if level == 2 {
        900_000
    } else if level == 3 {
        90_000
    } else if level == 4 {
        45_000
    } else if level == 5 {
        22_500
    } else {
        11_250
    }
}

/// Whether `s` is a valid code of the given level over the given domain:
/// right length, all digits, level-one fields inside the domain, and each
/// appended digit inside its level's range.
pub open spec fn valid_code(dm: Domain, level: int, s: Seq<char>) -> bool {
    &&& s.len() == code_len(level)
    &&& (forall|i: int| 0 <= i < s.len() ==> is_digit_char(#[trigger] s[i]))
    &&& dm.lat_field_min <= lat_field(s) <= dm.lat_field_max
    &&& dm.lon_field_min <= lon_field(s) <= dm.lon_field_max
    &&& (level >= 2 ==> digit(s[4]) <= 7 && digit(s[5]) <= 7)
    &&& (level >= 4 ==> 1 <= digit(s[8]) <= 4)
    &&& (level >= 5 ==> 1 <= digit(s[9]) <= 4)
    &&& (level >= 6 ==> 1 <= digit(s[10]) <= 4)
}

/// The southern edge of the cell that a code names, in angle units: the
/// latitude field places the level-one cell, and each appended latitude
/// digit adds its share of the level above.
pub open spec fn south_units(level: int, s: Seq<char>) -> int {
    lat_field(s) * 4_800_000
        + (if level >= 2 { digit(s[4]) * 600_000 } else { 0 })
        + (if level >= 3 { digit(s[6]) * 60_000 } else { 0 })
        + (if level >= 4 { quad_lat(s[8]) * 30_000 } else { 0 })
        + (if level >= 5 { quad_lat(s[9]) * 15_000 } else { 0 })
        + (if level >= 6 { quad_lat(s[10]) * 7_500 } else { 0 })
}

/// The western edge of the cell that a code names, in angle units.
pub open spec fn west_units(level: int, s: Seq<char>) -> int {
    (100 + lon_field(s)) * 7_200_000
        + (if level >= 2 { digit(s[5]) * 900_000 } else { 0 })
        + (if level >= 3 { digit(s[7]) * 90_000 } else { 0 })
        + (if level >= 4 { quad_lon(s[8]) * 45_000 } else { 0 })
        + (if level >= 5 { quad_lon(s[9]) * 22_500 } else { 0 })
        + (if level >= 6 { quad_lon(s[10]) * 11_250 } else { 0 })
}

/// Whether the cell touches the northern edge of the domain, so that no
/// northern neighbour exists.
pub open spec fn at_north_edge(dm: Domain, level: int, s: Seq<char>) -> bool {
    &&& lat_field(s) == dm.lat_field_max
    &&& (level >= 2 ==> digit(s[4]) == 7)
    &&& (level >= 3 ==> digit(s[6]) == 9)
    &&& (level >= 4 ==> quad_lat(s[8]) == 1)
    &&& (level >= 5 ==> quad_lat(s[9]) == 1)
    &&& (level >= 6 ==> quad_lat(s[10]) == 1)
}

/// Whether the cell touches the southern edge of the domain.
pub open spec fn at_south_edge(dm: Domain, level: int, s: Seq<char>) -> bool {
    &&& lat_field(s) == dm.lat_field_min
    &&& (level >= 2 ==> digit(s[4]) == 0)
    &&& (level >= 3 ==> digit(s[6]) == 0)
    &&& (level >= 4 ==> quad_lat(s[8]) == 0)
    &&& (level >= 5 ==> quad_lat(s[9]) == 0)
    &&& (level >= 6 ==> quad_lat(s[10]) == 0)
}

/// Whether the cell touches the eastern edge of the domain.
pub open spec fn at_east_edge(dm: Domain, level: int, s: Seq<char>) -> bool {
    &&& lon_field(s) == dm.lon_field_max
    &&& (level >= 2 ==> digit(s[5]) == 7)
    &&& (level >= 3 ==> digit(s[7]) == 9)
    &&& (level >= 4 ==> quad_lon(s[8]) == 1)
    &&& (level >= 5 ==> quad_lon(s[9]) == 1)
    &&& (level >= 6 ==> quad_lon(s[10]) == 1)
}

/// Whether the cell touches the western edge of the domain.
pub open spec fn at_west_edge(dm: Domain, level: int, s: Seq<char>) -> bool {
    &&& lon_field(s) == dm.lon_field_min
    &&& (level >= 2 ==> digit(s[5]) == 0)
    &&& (level >= 3 ==> digit(s[7]) == 0)
    &&& (level >= 4 ==> quad_lon(s[8]) == 0)
    &&& (level >= 5 ==> quad_lon(s[9]) == 0)
    &&& (level >= 6 ==> quad_lon(s[10]) == 0)
}

/// A sequence of digit characters is ASCII.
pub proof fn lemma_digits_ascii(s: Seq<char>)
    requires
        forall|i: int| 0 <= i < s.len() ==> is_digit_char(#[trigger] s[i]),
    ensures
        vstd::utf8::is_ascii_chars(s),
{
    assert forall|i: int| 0 <= i < s.len() implies '\0' <= #[trigger] s[i] <= '\u{7f}' by {
        assert(is_digit_char(s[i]));
    }
}

/// Reads the digit at a character position.
fn digit_at(s: &str, i: usize) -> (d: u8)
    requires
        i < s@.len(),
        forall|j: int| 0 <= j < s@.len() ==> is_digit_char(#[trigger] s@[j]),
    ensures
        d == digit(s@[i as int]),
        d <= 9,
{
    proof {
        lemma_digits_ascii(s@);
    }
    let b = s.get_ascii(i);
    b - 48
}

/// Reads the two-digit field starting at a character position.
fn field_at(s: &str, i: usize) -> (f: u8)
    requires
        i + 1 < s@.len(),
        s@.len() <= usize::MAX as int,
        forall|j: int| 0 <= j < s@.len() ==> is_digit_char(#[trigger] s@[j]),
    ensures
        f == 10 * digit(s@[i as int]) + digit(s@[i as int + 1]),
        f <= 99,
{
    let hi = digit_at(s, i);
    let lo = digit_at(s, i + 1);
    10 * hi + lo
}

/// The character for a digit value.
pub open spec fn digit_char(d: int) -> char {
    if d == 0 {
        '0'
    } else if d == 1 {
        '1'
    } else if d == 2 {
        '2'
    } else if d == 3 {
        '3'
    } else if d == 4 {
        '4'
    } else if d == 5 {
        '5'
    } else if d == 6 {
        '6'
    } else if d == 7 {
        '7'
    } else if d == 8 {
        '8'
    } else {
        '9'
    }
}

/// A one-character string holding the given digit.
fn digit_str(d: u8) -> (r: &'static str)
    requires
        d <= 9,
    ensures
        r@.len() == 1,
        r@[0] == digit_char(d as int),
        digit(r@[0]) == d as int,
        is_digit_char(r@[0]),
{
    proof {
        reveal_strlit("0");
        reveal_strlit("1");
        reveal_strlit("2");
        reveal_strlit("3");
        reveal_strlit("4");
        reveal_strlit("5");
        reveal_strlit("6");
        reveal_strlit("7");
        reveal_strlit("8");
        reveal_strlit("9");
    }
    match d {
        0 => "0",
        1 => "1",
        2 => "2",
        3 => "3",
        4 => "4",
        5 => "5",
        6 => "6",
        7 => "7",
        8 => "8",
        _ => "9",
    }
}

/// A two-character string holding the given field value, zero padded.
fn field_str(f: u8) -> (r: String)
    requires
        f <= 99,
    ensures
        r@.len() == 2,
        is_digit_char(r@[0]),
        is_digit_char(r@[1]),
        10 * digit(r@[0]) + digit(r@[1]) == f as int,
{
    let hi = digit_str(f / 10);
    let lo = digit_str(f % 10);
    let r = String::from_str(hi).concat(lo);
    assert(r@[0] == hi@[0] && r@[1] == lo@[0]);
    r
}

/// The leading characters of a code, as their own string.
pub fn prefix_str(s: &str, n: usize) -> (r: String)
    requires
        n <= s@.len(),
        forall|j: int| 0 <= j < s@.len() ==> is_digit_char(#[trigger] s@[j]),
    ensures
        r@ == s@.subrange(0, n as int),
{
    proof {
        lemma_digits_ascii(s@);
    }
    let sub = s.substring_ascii(0, n);
    String::from_str(sub)
}

/// Checks a string against the code rules of a level over a domain.
pub fn validate(dm: &Domain, level: u8, s: &str) -> (r: bool)
    requires
        dm.wf(),
        1 <= level <= 6,
    ensures
        r == valid_code(*dm, level as int, s@),
{
    let n = s.unicode_len();
    let expected: usize = if level == 1 {
        4
    } else if level == 2 {
        6
    } else if level == 3 {
        8
    } else {
        level as usize + 5
    };
    if n != expected {
        return false;
    }
    let mut i: usize = 0;
    while i < n
        invariant
            n == s@.len(),
            i <= n,
            forall|j: int| 0 <= j < i ==> is_digit_char(#[trigger] s@[j]),
        decreases n - i,
    {
        let c = s.get_char(i);
        if c < '0' || c > '9' {
            return false;
        }
        i += 1;
    }
    let lat = field_at(s, 0);
    if lat < dm.lat_field_min || lat > dm.lat_field_max {
        return false;
    }
    let lon = field_at(s, 2);
    if lon < dm.lon_field_min || lon > dm.lon_field_max {
        return false;
    }
    if level >= 2 {
        if digit_at(s, 4) > 7 || digit_at(s, 5) > 7 {
            return false;
        }
    }
    if level >= 4 {
        let q = digit_at(s, 8);
        if q < 1 || q > 4 {
            return false;
        }
    }
    if level >= 5 {
        let q = digit_at(s, 9);
        if q < 1 || q > 4 {
            return false;
        }
    }
    if level >= 6 {
        let q = digit_at(s, 10);
        if q < 1 || q > 4 {
            return false;
        }
    }
    true
}

/// The southern edge of a valid code lies inside the domain, a full cell
/// below the domain's northern edge; likewise the western edge.
pub proof fn lemma_extent_bounds(dm: Domain, level: int, s: Seq<char>)
    requires
        dm.wf(),
        1 <= level <= 6,
        valid_code(dm, level, s),
    ensures
        dm.south_units() <= south_units(level, s),
        south_units(level, s) + cell_height(level) <= dm.north_units(),
        dm.west_units() <= west_units(level, s),
        west_units(level, s) + cell_width(level) <= dm.east_units(),
{
}

/// The height of one cell exactly stacks into the level above: each level's
/// full run of latitude digits spans one parent cell.
pub proof fn lemma_cell_sizes(level: int)
    requires
        2 <= level <= 6,
    ensures
        cell_height(level) * (if level == 2 { 8int } else if level == 3 { 10int } else { 2int })
            == cell_height(level - 1),
        cell_width(level) * (if level == 2 { 8int } else if level == 3 { 10int } else { 2int })
            == cell_width(level - 1),
{
}

/// The leading characters of a valid code form a valid code of the level
/// above, whose cell contains this one.
pub proof fn lemma_prefix_valid(dm: Domain, level: int, s: Seq<char>)
    requires
        2 <= level <= 6,
        valid_code(dm, level, s),
    ensures
        valid_code(dm, level - 1, s.subrange(0, code_len(level - 1))),
        south_units(level - 1, s.subrange(0, code_len(level - 1))) <= south_units(level, s),
        south_units(level, s) + cell_height(level)
            <= south_units(level - 1, s.subrange(0, code_len(level - 1))) + cell_height(level - 1),
        west_units(level - 1, s.subrange(0, code_len(level - 1))) <= west_units(level, s),
        west_units(level, s) + cell_width(level)
            <= west_units(level - 1, s.subrange(0, code_len(level - 1))) + cell_width(level - 1),
{
    let p = s.subrange(0, code_len(level - 1));
    assert(forall|i: int| 0 <= i < p.len() ==> p[i] == s[i]);
}

/// Computes the southern edge of a valid code, in angle units.
pub fn south_of(dm: &Domain, level: u8, s: &str) -> (r: i64)
    requires
        dm.wf(),
        1 <= level <= 6,
        valid_code(*dm, level as int, s@),
    ensures
        r == south_units(level as int, s@),
{
    let mut r: i64 = field_at(s, 0) as i64 * 4_800_000;
    if level >= 2 {
        r += digit_at(s, 4) as i64 * 600_000;
    }
    if level >= 3 {
        r += digit_at(s, 6) as i64 * 60_000;
    }
    if level >= 4 {
        r += ((digit_at(s, 8) - 1) / 2) as i64 * 30_000;
    }
    if level >= 5 {
        r += ((digit_at(s, 9) - 1) / 2) as i64 * 15_000;
    }
    if level >= 6 {
        r += ((digit_at(s, 10) - 1) / 2) as i64 * 7_500;
    }
    r
}

/// Computes the western edge of a valid code, in angle units.
pub fn west_of(dm: &Domain, level: u8, s: &str) -> (r: i64)
    requires
        dm.wf(),
        1 <= level <= 6,
        valid_code(*dm, level as int, s@),
    ensures
        r == west_units(level as int, s@),
{
    let mut r: i64 = (100 + field_at(s, 2) as i64) * 7_200_000;
    if level >= 2 {
        r += digit_at(s, 5) as i64 * 900_000;
    }
    if level >= 3 {
        r += digit_at(s, 7) as i64 * 90_000;
    }
    if level >= 4 {
        r += ((digit_at(s, 8) - 1) % 2) as i64 * 45_000;
    }
    if level >= 5 {
        r += ((digit_at(s, 9) - 1) % 2) as i64 * 22_500;
    }
    if level >= 6 {
        r += ((digit_at(s, 10) - 1) % 2) as i64 * 11_250;
    }
    r
}

/// A copy of a code with one digit replaced.
fn replace_at(s: &str, p: usize, d: u8) -> (r: String)
    requires
        p < s@.len(),
        s@.len() <= usize::MAX as int,
        d <= 9,
        forall|j: int| 0 <= j < s@.len() ==> is_digit_char(#[trigger] s@[j]),
    ensures
        r@.len() == s@.len(),
        r@[p as int] == digit_char(d as int),
        digit(r@[p as int]) == d as int,
        forall|j: int| 0 <= j < s@.len() && j != p ==> r@[j] == s@[j],
        forall|j: int| 0 <= j < r@.len() ==> is_digit_char(#[trigger] r@[j]),
{
    proof {
        lemma_digits_ascii(s@);
    }
    let pre = s.substring_ascii(0, p);
    let post = s.substring_ascii(p + 1, s.unicode_len());
    let r = String::from_str(pre).concat(digit_str(d)).concat(post);
    proof {
        assert forall|j: int| 0 <= j < s@.len() && j != p implies r@[j] == s@[j] by {
            if j < p {
                assert(r@[j] == pre@[j]);
            } else {
                assert(r@[j] == post@[j - p - 1]);
            }
        }
        assert(r@[p as int] == digit_char(d as int));
        assert forall|j: int| 0 <= j < r@.len() implies is_digit_char(#[trigger] r@[j]) by {
            if j != p {
                assert(r@[j] == s@[j]);
            }
        }
    }
    r
}

/// The mesh one cell to the north: increments the latitude digit of the
/// lowest level, carrying into the parent cell when that digit is already at
/// its maximum.  Fails exactly at the northern edge of the domain.
#[verifier::rlimit(50)]
pub fn shift_north(dm: &Domain, level: u8, s: &str) -> (r: Result<String, GSJPError>)
    requires
        dm.wf(),
        1 <= level <= 6,
        valid_code(*dm, level as int, s@),
    ensures
        match r {
            Ok(t) => !at_north_edge(*dm, level as int, s@)
                && valid_code(*dm, level as int, t@)
                && south_units(level as int, t@)
                    == south_units(level as int, s@) + cell_height(level as int)
                && west_units(level as int, t@) == west_units(level as int, s@),
            Err(e) => at_north_edge(*dm, level as int, s@) && e == GSJPError::InvalidMeshCode,
        },
    decreases level,
{
    proof {
        lemma_digits_ascii(s@);
    }
    if level >= 4 {
        let pos: usize = level as usize + 4;
        let d = digit_at(s, pos);
        if d <= 2 {
            Ok(replace_at(s, pos, d + 2))
        } else {
            let p = prefix_str(s, pos);
            proof {
                lemma_prefix_valid(*dm, level as int, s@);
            }
            match shift_north(dm, level - 1, p.as_str()) {
                Ok(parent) => {
                    let t = parent.concat(digit_str(d - 2));
                    proof {
                        assert(t@[pos as int] == digit_char((d - 2) as int));
                        assert(forall|j: int| 0 <= j < pos ==> t@[j] == parent@[j]);
                    }
                    Ok(t)
                },
                Err(e) => Err(e),
            }
        }
    } else if level == 3 {
        let d = digit_at(s, 6);
        if d < 9 {
            Ok(replace_at(s, 6, d + 1))
        } else {
            let p = prefix_str(s, 6);
            proof {
                lemma_prefix_valid(*dm, level as int, s@);
            }
            match shift_north(dm, 2, p.as_str()) {
                Ok(parent) => {
                    let tail = s.substring_ascii(7, 8);
                    let t = parent.concat(digit_str(0)).concat(tail);
                    proof {
                        assert(forall|j: int| 0 <= j < 6 ==> t@[j] == parent@[j]);
                        assert(t@[6] == digit_char(0));
                        assert(t@[7] == s@[7]);
                    }
                    Ok(t)
                },
                Err(e) => Err(e),
            }
        }
    } else if level == 2 {
        let d = digit_at(s, 4);
        if d < 7 {
            Ok(replace_at(s, 4, d + 1))
        } else {
            let p = prefix_str(s, 4);
            proof {
                lemma_prefix_valid(*dm, level as int, s@);
            }
            match shift_north(dm, 1, p.as_str()) {
                Ok(parent) => {
                    let tail = s.substring_ascii(5, 6);
                    let t = parent.concat(digit_str(0)).concat(tail);
                    proof {
                        assert(forall|j: int| 0 <= j < 4 ==> t@[j] == parent@[j]);
                        assert(t@[4] == digit_char(0));
                        assert(t@[5] == s@[5]);
                    }
                    Ok(t)
                },
                Err(e) => Err(e),
            }
        }
    } else {
        let f = field_at(s, 0);
        if f < dm.lat_field_max {
            let tail = s.substring_ascii(2, 4);
            let t = field_str(f + 1).concat(tail);
            proof {
                assert(t@[2] == s@[2] && t@[3] == s@[3]);
            }
            Ok(t)
        } else {
            Err(GSJPError::InvalidMeshCode)
        }
    }
}

/// The mesh one cell to the south: decrements the latitude digit of the
/// lowest level, carrying into the parent cell when that digit is already at
/// its minimum.  Fails exactly at the southern edge of the domain.
#[verifier::rlimit(50)]
pub fn shift_south(dm: &Domain, level: u8, s: &str) -> (r: Result<String, GSJPError>)
    requires
        dm.wf(),
        1 <= level <= 6,
        valid_code(*dm, level as int, s@),
    ensures
        match r {
            Ok(t) => !at_south_edge(*dm, level as int, s@)
                && valid_code(*dm, level as int, t@)
                && south_units(level as int, t@)
                    == south_units(level as int, s@) - cell_height(level as int)
                && west_units(level as int, t@) == west_units(level as int, s@),
            Err(e) => at_south_edge(*dm, level as int, s@) && e == GSJPError::InvalidMeshCode,
        },
    decreases level,
{
    proof {
        lemma_digits_ascii(s@);
    }
    if level >= 4 {
        let pos: usize = level as usize + 4;
        let d = digit_at(s, pos);
        if d >= 3 {
            Ok(replace_at(s, pos, d - 2))
        } else {
            let p = prefix_str(s, pos);
            proof {
                lemma_prefix_valid(*dm, level as int, s@);
            }
            match shift_south(dm, level - 1, p.as_str()) {
                Ok(parent) => {
                    let t = parent.concat(digit_str(d + 2));
                    proof {
                        assert(t@[pos as int] == digit_char((d + 2) as int));
                        assert(forall|j: int| 0 <= j < pos ==> t@[j] == parent@[j]);
                    }
                    Ok(t)
                },
                Err(e) => Err(e),
            }
        }
    } else if level == 3 {
        let d = digit_at(s, 6);
        if d > 0 {
            Ok(replace_at(s, 6, d - 1))
        } else {
            let p = prefix_str(s, 6);
            proof {
                lemma_prefix_valid(*dm, level as int, s@);
            }
            match shift_south(dm, 2, p.as_str()) {
                Ok(parent) => {
                    let tail = s.substring_ascii(7, 8);
                    let t = parent.concat(digit_str(9)).concat(tail);
                    proof {
                        assert(forall|j: int| 0 <= j < 6 ==> t@[j] == parent@[j]);
                        assert(t@[6] == digit_char(9));
                        assert(t@[7] == s@[7]);
                    }
                    Ok(t)
                },
                Err(e) => Err(e),
            }
        }
    } else if level == 2 {
        let d = digit_at(s, 4);
        if d > 0 {
            Ok(replace_at(s, 4, d - 1))
        } else {
            let p = prefix_str(s, 4);
            proof {
                lemma_prefix_valid(*dm, level as int, s@);
            }
            match shift_south(dm, 1, p.as_str()) {
                Ok(parent) => {
                    let tail = s.substring_ascii(5, 6);
                    let t = parent.concat(digit_str(7)).concat(tail);
                    proof {
                        assert(forall|j: int| 0 <= j < 4 ==> t@[j] == parent@[j]);
                        assert(t@[4] == digit_char(7));
                        assert(t@[5] == s@[5]);
                    }
                    Ok(t)
                },
                Err(e) => Err(e),
            }
        }
    } else {
        let f = field_at(s, 0);
        if f > dm.lat_field_min {
            let tail = s.substring_ascii(2, 4);
            let t = field_str(f - 1).concat(tail);
            proof {
                assert(t@[2] == s@[2] && t@[3] == s@[3]);
            }
            Ok(t)
        } else {
            Err(GSJPError::InvalidMeshCode)
        }
    }
}

/// The mesh one cell to the east: increments the longitude digit of the
/// lowest level, carrying into the parent cell when that digit is already at
/// its maximum.  Fails exactly at the eastern edge of the domain.
#[verifier::rlimit(50)]
pub fn shift_east(dm: &Domain, level: u8, s: &str) -> (r: Result<String, GSJPError>)
    requires
        dm.wf(),
        1 <= level <= 6,
        valid_code(*dm, level as int, s@),
    ensures
        match r {
            Ok(t) => !at_east_edge(*dm, level as int, s@)
                && valid_code(*dm, level as int, t@)
                && west_units(level as int, t@)
                    == west_units(level as int, s@) + cell_width(level as int)
                && south_units(level as int, t@) == south_units(level as int, s@),
            Err(e) => at_east_edge(*dm, level as int, s@) && e == GSJPError::InvalidMeshCode,
        },
    decreases level,
{
    proof {
        lemma_digits_ascii(s@);
    }
    if level >= 4 {
        let pos: usize = level as usize + 4;
        let d = digit_at(s, pos);
        if d == 1 || d == 3 {
            Ok(replace_at(s, pos, d + 1))
        } else {
            let p = prefix_str(s, pos);
            proof {
                lemma_prefix_valid(*dm, level as int, s@);
            }
            match shift_east(dm, level - 1, p.as_str()) {
                Ok(parent) => {
                    let t = parent.concat(digit_str(d - 1));
                    proof {
                        assert(t@[pos as int] == digit_char((d - 1) as int));
                        assert(forall|j: int| 0 <= j < pos ==> t@[j] == parent@[j]);
                    }
                    Ok(t)
                },
                Err(e) => Err(e),
            }
        }
    } else if level == 3 {
        let d = digit_at(s, 7);
        if d < 9 {
            Ok(replace_at(s, 7, d + 1))
        } else {
            let p = prefix_str(s, 6);
            proof {
                lemma_prefix_valid(*dm, level as int, s@);
            }
            match shift_east(dm, 2, p.as_str()) {
                Ok(parent) => {
                    let mid = s.substring_ascii(6, 7);
                    let t = parent.concat(mid).concat(digit_str(0));
                    proof {
                        assert(forall|j: int| 0 <= j < 6 ==> t@[j] == parent@[j]);
                        assert(t@[6] == s@[6]);
                        assert(t@[7] == digit_char(0));
                    }
                    Ok(t)
                },
                Err(e) => Err(e),
            }
        }
    } else if level == 2 {
        let d = digit_at(s, 5);
        if d < 7 {
            Ok(replace_at(s, 5, d + 1))
        } else {
            let p = prefix_str(s, 4);
            proof {
                lemma_prefix_valid(*dm, level as int, s@);
            }
            match shift_east(dm, 1, p.as_str()) {
                Ok(parent) => {
                    let mid = s.substring_ascii(4, 5);
                    let t = parent.concat(mid).concat(digit_str(0));
                    proof {
                        assert(forall|j: int| 0 <= j < 4 ==> t@[j] == parent@[j]);
                        assert(t@[4] == s@[4]);
                        assert(t@[5] == digit_char(0));
                    }
                    Ok(t)
                },
                Err(e) => Err(e),
            }
        }
    } else {
        let f = field_at(s, 2);
        if f < dm.lon_field_max {
            let head = s.substring_ascii(0, 2);
            let t = String::from_str(head).concat(field_str(f + 1).as_str());
            proof {
                assert(t@[0] == s@[0] && t@[1] == s@[1]);
            }
            Ok(t)
        } else {
            Err(GSJPError::InvalidMeshCode)
        }
    }
}

/// The mesh one cell to the west: decrements the longitude digit of the
/// lowest level, carrying into the parent cell when that digit is already at
/// its minimum.  Fails exactly at the western edge of the domain.
#[verifier::rlimit(50)]
pub fn shift_west(dm: &Domain, level: u8, s: &str) -> (r: Result<String, GSJPError>)
    requires
        dm.wf(),
        1 <= level <= 6,
        valid_code(*dm, level as int, s@),
    ensures
        match r {
            Ok(t) => !at_west_edge(*dm, level as int, s@)
                && valid_code(*dm, level as int, t@)
                && west_units(level as int, t@)
                    == west_units(level as int, s@) - cell_width(level as int)
                && south_units(level as int, t@) == south_units(level as int, s@),
            Err(e) => at_west_edge(*dm, level as int, s@) && e == GSJPError::InvalidMeshCode,
        },
    decreases level,
{
    proof {
        lemma_digits_ascii(s@);
    }
    if level >= 4 {
        let pos: usize = level as usize + 4;
        let d = digit_at(s, pos);
        if d == 2 || d == 4 {
            Ok(replace_at(s, pos, d - 1))
        } else {
            let p = prefix_str(s, pos);
            proof {
                lemma_prefix_valid(*dm, level as int, s@);
            }
            match shift_west(dm, level - 1, p.as_str()) {
                Ok(parent) => {
                    let t = parent.concat(digit_str(d + 1));
                    proof {
                        assert(t@[pos as int] == digit_char((d + 1) as int));
                        assert(forall|j: int| 0 <= j < pos ==> t@[j] == parent@[j]);
                    }
                    Ok(t)
                },
                Err(e) => Err(e),
            }
        }
    } else if level == 3 {
        let d = digit_at(s, 7);
        if d > 0 {
            Ok(replace_at(s, 7, d - 1))
        } else {
            let p = prefix_str(s, 6);
            proof {
                lemma_prefix_valid(*dm, level as int, s@);
            }
            match shift_west(dm, 2, p.as_str()) {
                Ok(parent) => {
                    let mid = s.substring_ascii(6, 7);
                    let t = parent.concat(mid).concat(digit_str(9));
                    proof {
                        assert(forall|j: int| 0 <= j < 6 ==> t@[j] == parent@[j]);
                        assert(t@[6] == s@[6]);
                        assert(t@[7] == digit_char(9));
                    }
                    Ok(t)
                },
                Err(e) => Err(e),
            }
        }
    } else if level == 2 {
        let d = digit_at(s, 5);
        if d > 0 {
            Ok(replace_at(s, 5, d - 1))
        } else {
            let p = prefix_str(s, 4);
            proof {
                lemma_prefix_valid(*dm, level as int, s@);
            }
            match shift_west(dm, 1, p.as_str()) {
                Ok(parent) => {
                    let mid = s.substring_ascii(4, 5);
                    let t = parent.concat(mid).concat(digit_str(7));
                    proof {
                        assert(forall|j: int| 0 <= j < 4 ==> t@[j] == parent@[j]);
                        assert(t@[4] == s@[4]);
                        assert(t@[5] == digit_char(7));
                    }
                    Ok(t)
                },
                Err(e) => Err(e),
            }
        }
    } else {
        let f = field_at(s, 2);
        if f > dm.lon_field_min {
            let head = s.substring_ascii(0, 2);
            let t = String::from_str(head).concat(field_str(f - 1).as_str());
            proof {
                assert(t@[0] == s@[0] && t@[1] == s@[1]);
            }
            Ok(t)
        } else {
            Err(GSJPError::InvalidMeshCode)
        }
    }
}

/// Whether two codes hold the same characters.
pub fn codes_equal(a: &str, b: &str) -> (r: bool)
    requires
        forall|j: int| 0 <= j < a@.len() ==> is_digit_char(#[trigger] a@[j]),
        forall|j: int| 0 <= j < b@.len() ==> is_digit_char(#[trigger] b@[j]),
    ensures
        r == (a@ == b@),
{
    proof {
        lemma_digits_ascii(a@);
        lemma_digits_ascii(b@);
    }
    let n = a.unicode_len();
    if n != b.unicode_len() {
        return false;
    }
    let mut i: usize = 0;
    while i < n
        invariant
            n == a@.len() == b@.len(),
            i <= n,
            vstd::utf8::is_ascii_chars(a@),
            vstd::utf8::is_ascii_chars(b@),
            forall|j: int| 0 <= j < i ==> a@[j] == b@[j],
        decreases n - i,
    {
        if a.get_ascii(i) != b.get_ascii(i) {
            return false;
        }
        proof {
            assert(a@[i as int] as u8 == b@[i as int] as u8);
            assert('\0' <= a@[i as int] <= '\u{7f}' && '\0' <= b@[i as int] <= '\u{7f}');
            assert(a@[i as int] == b@[i as int]);
        }
        i += 1;
    }
    proof {
        assert(a@ =~= b@);
    }
    true
}

/// A cell touches the northern edge of the domain exactly when its own
/// northern side is the domain's northern edge.
pub proof fn lemma_north_edge_iff(dm: Domain, level: int, s: Seq<char>)
    requires
        dm.wf(),
        1 <= level <= 6,
        valid_code(dm, level, s),
    ensures
        at_north_edge(dm, level, s) <==> south_units(level, s) + cell_height(level)
            == dm.north_units(),
{
}

/// A cell touches the southern edge of the domain exactly when its southern
/// side is the domain's southern edge.
pub proof fn lemma_south_edge_iff(dm: Domain, level: int, s: Seq<char>)
    requires
        dm.wf(),
        1 <= level <= 6,
        valid_code(dm, level, s),
    ensures
        at_south_edge(dm, level, s) <==> south_units(level, s) == dm.south_units(),
{
}

/// A cell touches the eastern edge of the domain exactly when its own
/// eastern side is the domain's eastern edge.
pub proof fn lemma_east_edge_iff(dm: Domain, level: int, s: Seq<char>)
    requires
        dm.wf(),
        1 <= level <= 6,
        valid_code(dm, level, s),
    ensures
        at_east_edge(dm, level, s) <==> west_units(level, s) + cell_width(level)
            == dm.east_units(),
{
}

/// A cell touches the western edge of the domain exactly when its western
/// side is the domain's western edge.
pub proof fn lemma_west_edge_iff(dm: Domain, level: int, s: Seq<char>)
    requires
        dm.wf(),
        1 <= level <= 6,
        valid_code(dm, level, s),
    ensures
        at_west_edge(dm, level, s) <==> west_units(level, s) == dm.west_units(),
{
}

/// The leading characters of a valid code form a valid code of every level
/// above its own.
pub proof fn lemma_ancestor_valid(dm: Domain, level: int, k: int, s: Seq<char>)
    requires
        dm.wf(),
        1 <= k <= level <= 6,
        valid_code(dm, level, s),
    ensures
        valid_code(dm, k, s.subrange(0, code_len(k))),
    decreases level - k,
{
    if k == level {
        assert(s.subrange(0, code_len(level)) =~= s);
    } else {
        lemma_prefix_valid(dm, level, s);
        let p = s.subrange(0, code_len(level - 1));
        lemma_ancestor_valid(dm, level - 1, k, p);
        assert(p.subrange(0, code_len(k)) =~= s.subrange(0, code_len(k)));
    }
}

/// Two valid codes of one level and domain with the same southern and
/// western edges are the same code: a cell's extent determines its digits.
#[verifier::rlimit(50)]
pub proof fn lemma_code_determined(dm: Domain, level: int, a: Seq<char>, b: Seq<char>)
    requires
        dm.wf(),
        1 <= level <= 6,
        valid_code(dm, level, a),
        valid_code(dm, level, b),
        south_units(level, a) == south_units(level, b),
        west_units(level, a) == west_units(level, b),
    ensures
        a == b,
{
    assert(lat_field(a) == lat_field(b) && lon_field(a) == lon_field(b));
    assert(digit(a[0]) == digit(b[0]) && digit(a[1]) == digit(b[1]));
    assert(digit(a[2]) == digit(b[2]) && digit(a[3]) == digit(b[3]));
    if level >= 4 {
        assert(digit(a[8]) == digit(b[8])) by {
            assert(quad_lat(a[8]) == quad_lat(b[8]) && quad_lon(a[8]) == quad_lon(b[8]));
            lemma_quad_digit(a[8]);
            lemma_quad_digit(b[8]);
        }
    }
    if level >= 5 {
        assert(digit(a[9]) == digit(b[9])) by {
            assert(quad_lat(a[9]) == quad_lat(b[9]) && quad_lon(a[9]) == quad_lon(b[9]));
            lemma_quad_digit(a[9]);
            lemma_quad_digit(b[9]);
        }
    }
    if level >= 6 {
        assert(digit(a[10]) == digit(b[10])) by {
            assert(quad_lat(a[10]) == quad_lat(b[10]) && quad_lon(a[10]) == quad_lon(b[10]));
            lemma_quad_digit(a[10]);
            lemma_quad_digit(b[10]);
        }
    }
    assert forall|i: int| 0 <= i < a.len() implies a[i] == b[i] by {
        assert(digit(a[i]) == digit(b[i]));
        assert(is_digit_char(a[i]) && is_digit_char(b[i]));
    }
    assert(a =~= b);
}

/// A quadrant digit is recovered from its two half-bits.
proof fn lemma_quad_digit(c: char)
    requires
        1 <= digit(c) <= 4,
    ensures
        digit(c) == 2 * quad_lat(c) + quad_lon(c) + 1,
{
    vstd::arithmetic::div_mod::lemma_fundamental_div_mod(digit(c) - 1, 2);
}

/// Division of a nonnegative value brackets it between consecutive
/// multiples of the divisor.
proof fn lemma_div_brackets(x: int, d: int)
    requires
        0 <= x,
        0 < d,
    ensures
        0 <= x / d,
        d * (x / d) <= x < d * (x / d) + d,
{
    vstd::arithmetic::div_mod::lemma_div_pos_is_pos(x, d);
    vstd::arithmetic::div_mod::lemma_remainder(x, d);
}

/// Whether a latitude lies inside a domain's band.
pub open spec fn lat_in_domain(dm: Domain, lat: int) -> bool {
    dm.south_units() <= lat < dm.north_units()
}

/// Whether a longitude lies inside a domain's band.
pub open spec fn lon_in_domain(dm: Domain, lon: int) -> bool {
    dm.west_units() <= lon < dm.east_units()
}

/// Bins a coordinate into the cell of the given level that contains it.
/// The cell is found by binning into the level above and then dividing the
/// remaining offset by this level's cell size.  Fails exactly when the
/// coordinate lies outside the domain, rejecting latitude before longitude.
#[verifier::rlimit(50)]
pub fn bin_code(dm: &Domain, level: u8, lat: i64, lon: i64) -> (r: Result<String, GSJPError>)
    requires
        dm.wf(),
        1 <= level <= 6,
    ensures
        match r {
            Ok(t) => lat_in_domain(*dm, lat as int) && lon_in_domain(*dm, lon as int)
                && valid_code(*dm, level as int, t@)
                && south_units(level as int, t@) <= lat
                && lat < south_units(level as int, t@) + cell_height(level as int)
                && west_units(level as int, t@) <= lon
                && lon < west_units(level as int, t@) + cell_width(level as int),
            Err(e) => {
                ||| !lat_in_domain(*dm, lat as int)
                    && e == GSJPError::OutOfRange(crate::Axis::Latitude)
                ||| lat_in_domain(*dm, lat as int) && !lon_in_domain(*dm, lon as int)
                    && e == GSJPError::OutOfRange(crate::Axis::Longitude)
            },
        },
    decreases level,
{
    if level == 1 {
        let d_south: i64 = dm.lat_field_min as i64 * 4_800_000;
        let d_north: i64 = (dm.lat_field_max as i64 + 1) * 4_800_000;
        if lat < d_south || lat >= d_north {
            return Err(GSJPError::OutOfRange(crate::Axis::Latitude));
        }
        let d_west: i64 = (dm.lon_field_min as i64 + 100) * 7_200_000;
        let d_east: i64 = (dm.lon_field_max as i64 + 101) * 7_200_000;
        if lon < d_west || lon >= d_east {
            return Err(GSJPError::OutOfRange(crate::Axis::Longitude));
        }
        let flat = ((lat as u64) / 4_800_000) as u8;
        let flon = ((lon as u64) / 7_200_000 - 100) as u8;
        proof {
            lemma_div_brackets(lat as int, 4_800_000);
            lemma_div_brackets(lon as int, 7_200_000);
        }
        let t = field_str(flat).concat(field_str(flon).as_str());
        proof {
            assert(lat_field(t@) == flat as int && lon_field(t@) == flon as int);
        }
        Ok(t)
    } else {
        let parent = match bin_code(dm, level - 1, lat, lon) {
            Ok(p) => p,
            Err(e) => {
                return Err(e);
            },
        };
        let ps = south_of(dm, level - 1, parent.as_str());
        let pw = west_of(dm, level - 1, parent.as_str());
        let h = cell_height_of(level);
        let w = cell_width_of(level);
        let dlat = (((lat - ps) as u64) / (h as u64)) as u8;
        let dlon = (((lon - pw) as u64) / (w as u64)) as u8;
        proof {
            lemma_div_brackets(lat - ps, h as int);
            lemma_div_brackets(lon - pw, w as int);
            lemma_cell_sizes(level as int);
        }
        if level <= 3 {
            let t = parent.concat(digit_str(dlat)).concat(digit_str(dlon));
            proof {
                let n = code_len(level as int - 1);
                assert(forall|j: int| 0 <= j < n ==> t@[j] == parent@[j]);
                assert(digit(t@[n]) == dlat as int && digit(t@[n + 1]) == dlon as int);
            }
            Ok(t)
        } else {
            let q = 2 * dlat + dlon + 1;
            let t = parent.concat(digit_str(q));
            proof {
                let n = code_len(level as int - 1);
                assert(forall|j: int| 0 <= j < n ==> t@[j] == parent@[j]);
                assert(digit(t@[n]) == q as int);
                assert(quad_lat(t@[n]) == dlat as int && quad_lon(t@[n]) == dlon as int);
            }
            Ok(t)
        }
    }
}

/// The height of one cell of a level, in angle units.
pub fn cell_height_of(level: u8) -> (h: i64)
    requires
        1 <= level <= 6,
    ensures
        h == cell_height(level as int),
{
    if level == 1 {
        4_800_000
    } else if level == 2 {
        600_000
    } else if level == 3 {
        60_000
    } else if level == 4 {
        30_000
    } else if level == 5 {
        15_000
    } else {
        7_500
    }
}

/// The width of one cell of a level, in angle units.
pub fn cell_width_of(level: u8) -> (w: i64)
    requires
        1 <= level <= 6,
    ensures
        w == cell_width(level as int),
{
    if level == 1 {
        7_200_000
    } else if level == 2 {
        900_000
    } else if level == 3 {
        90_000
    } else if level == 4 {
        45_000
    } else if level == 5 {
        22_500
    } else {
        11_250
    }
}

} // verus!

