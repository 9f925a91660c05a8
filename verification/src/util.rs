//! Small input utilities: image dimensions and m/z windows parsed from
//! command-line style text.

use vstd::prelude::*;
use vstd::string::StringExecFns;
use vstd::string::StrSliceExecFns;
use crate::coord::{Coord, COORD_LIMIT};
use crate::numfmt::{spec_digits, push_digits, pow10, pow10_u64, lemma_pow10_pos,
    lemma_pow10_mono};

verus! {

/// Why a number failed to parse.
#[derive(Debug, Clone, Copy, PartialEq, Eq, Structural)]
pub enum NumberParseError {
    Empty,
    InvalidDigit,
    TooLarge,
}

/// Whether `c` is a decimal digit.
pub open spec fn spec_is_digit(c: char) -> bool {
    c == '0' || c == '1' || c == '2' || c == '3' || c == '4' || c == '5' || c == '6' || c == '7'
        || c == '8' || c == '9'
}

/// The value of a decimal digit.
pub open spec fn spec_digit_val(c: char) -> int {
    if c == '0' {
        0
    } else if c == '1' {
        1
    } else if c == '2' {
        2
    } else if c == '3' {
        3
    } else if c == '4' {
        4
    } else if c == '5' {
        5
    } else if c == '6' {
        6
    } else if c == '7' {
        7
    } else if c == '8' {
        8
    } else {
        9
    }
}

/// All characters are decimal digits.
pub open spec fn spec_all_digits(s: Seq<char>) -> bool {
    forall|i: int| 0 <= i < s.len() ==> spec_is_digit(#[trigger] s[i])
}

/// The value of a digit string, most significant first.
pub open spec fn spec_uint_val(s: Seq<char>) -> int
    decreases s.len(),
{
    if s.len() == 0 {
        0
    } else {
        10 * spec_uint_val(s.drop_last()) + spec_digit_val(s.last())
    }
}

proof fn lemma_uint_val_nonneg(s: Seq<char>)
    ensures
        spec_uint_val(s) >= 0,
    decreases s.len(),
{
    if s.len() > 0 {
        lemma_uint_val_nonneg(s.drop_last());
        let v = spec_uint_val(s.drop_last());
        assert(10 * v >= 0) by (nonlinear_arith)
            requires v >= 0;
    }
}

/// A longer digit string is worth at least any of its prefixes.
proof fn lemma_uint_val_grows(s: Seq<char>, i: int)
    requires
        0 <= i <= s.len(),
    ensures
        spec_uint_val(s.take(i)) <= spec_uint_val(s),
    decreases s.len() - i,
{
    if i < s.len() {
        lemma_uint_val_grows(s, i + 1);
        let pre = s.take(i);
        let cur = s.take(i + 1);
        assert(cur.drop_last() =~= pre);
        assert(cur.last() == s[i]);
        lemma_uint_val_nonneg(pre);
        assert(spec_uint_val(pre) <= 10 * spec_uint_val(pre)) by (nonlinear_arith)
            requires spec_uint_val(pre) >= 0;
        assert(spec_digit_val(s[i]) >= 0);
    } else {
        assert(s.take(i) =~= s);
    }
}

/// Whether every character of `s` is a decimal digit.
pub fn str_all_digits(s: &str) -> (b: bool)
    ensures
        b == spec_all_digits(s@),
{
    let n = s.unicode_len();
    let mut i: usize = 0;
    while i < n
        invariant
            n == s@.len(),
            0 <= i <= n,
            forall|j: int| 0 <= j < i ==> spec_is_digit(#[trigger] s@[j]),
        decreases n - i,
    {
        let c = s.get_char(i);
        let ok = c == '0' || c == '1' || c == '2' || c == '3' || c == '4' || c == '5' || c == '6'
            || c == '7' || c == '8' || c == '9';
        if !ok {
            return false;
        }
        i = i + 1;
    }
    true
}

/// The value of an all-digit string, capped: values beyond the cap
/// report `TooLarge`.
fn parse_digits_capped(s: &str, cap: u64) -> (r: Result<u64, NumberParseError>)
    requires
        spec_all_digits(s@),
    ensures
        r matches Ok(v) ==> spec_uint_val(s@) == v as int && v <= cap,
        r matches Err(e) ==> e == NumberParseError::TooLarge && spec_uint_val(s@) > cap,
{
    let n = s.unicode_len();
    let mut acc: u64 = 0;
    let mut i: usize = 0;
    while i < n
        invariant
            n == s@.len(),
            0 <= i <= n,
            spec_all_digits(s@),
            acc == spec_uint_val(s@.take(i as int)),
            acc <= cap,
            cap <= u64::MAX,
        decreases n - i,
    {
        let c = s.get_char(i);
        let d: u64 = if c == '0' {
            0
        } else if c == '1' {
            1
        } else if c == '2' {
            2
        } else if c == '3' {
            3
        } else if c == '4' {
            4
        } else if c == '5' {
            5
        } else if c == '6' {
            6
        } else if c == '7' {
            7
        } else if c == '8' {
            8
        } else {
            proof {
                assert(spec_is_digit(s@[i as int]));
            }
            9
        };
        proof {
            let pre = s@.take(i as int);
            let cur = s@.take(i + 1 as int);
            assert(cur.drop_last() =~= pre);
            assert(cur.last() == s@[i as int]);
        }
        let acc128: u128 = 10 * (acc as u128) + (d as u128);
        i = i + 1;
        if acc128 > cap as u128 {
            proof {
                lemma_uint_val_grows(s@, i as int);
            }
            return Err(NumberParseError::TooLarge);
        }
        acc = acc128 as u64;
    }
    proof {
        assert(s@.take(n as int) =~= s@);
    }
    Ok(acc)
}

/// Width and height of an image, in pixels.
#[derive(Debug, Clone, Copy, PartialEq, Eq, Structural)]
pub struct Dimensions(pub usize, pub usize);

impl Default for Dimensions {
    /// The conventional spectrum panel size.
    fn default() -> (r: Self)
        ensures
            r.0 == 600,
            r.1 == 200,
    {
        Dimensions(600, 200)
    }
}

impl Dimensions {
    /// The `WxH` text of the dimensions.
    pub fn display_string(&self) -> (s: String)
        ensures
            s@ == spec_digits(self.0 as int) + "x"@ + spec_digits(self.1 as int),
    {
        let mut s = String::new();
        push_digits(&mut s, self.0 as u128);
        s.append("x");
        push_digits(&mut s, self.1 as u128);
        proof {
            assert(s@ =~= spec_digits(self.0 as int) + "x"@ + spec_digits(self.1 as int));
        }
        s
    }
}

/// The parts of `s` split on `sep` (an empty string has one empty
/// part, as with the standard split).
pub open spec fn spec_split(s: Seq<char>, sep: char) -> Seq<Seq<char>>
    decreases s.len(),
{
    if s.len() == 0 {
        seq![Seq::empty()]
    } else {
        let r = spec_split(s.drop_last(), sep);
        if s.last() == sep {
            r.push(Seq::empty())
        } else {
            r.update(r.len() - 1, r.last().push(s.last()))
        }
    }
}

/// Splitting yields at least one part.
pub proof fn lemma_split_nonempty(s: Seq<char>, sep: char)
    ensures
        spec_split(s, sep).len() >= 1,
    decreases s.len(),
{
    if s.len() > 0 {
        lemma_split_nonempty(s.drop_last(), sep);
    }
}

/// Split a string on a separator character.
pub fn split_str(s: &str, sep: char) -> (r: Vec<String>)
    ensures
        r.deep_view() == spec_split(s@, sep),
        r@.len() >= 1,
{
    let mut r: Vec<String> = Vec::new();
    r.push(String::new());
    let n = s.unicode_len();
    let mut i: usize = 0;
    proof {
        assert(s@.take(0) =~= Seq::<char>::empty());
        assert(r.deep_view() =~= spec_split(s@.take(0), sep));
    }
    while i < n
        invariant
            n == s@.len(),
            0 <= i <= n,
            r@.len() >= 1,
            r.deep_view() == spec_split(s@.take(i as int), sep),
        decreases n - i,
    {
        let c = s.get_char(i);
        proof {
            let pre = s@.take(i as int);
            let cur = s@.take(i + 1 as int);
            assert(cur.drop_last() =~= pre);
            assert(cur.last() == s@[i as int]);
        }
        if c == sep {
            r.push(String::new());
            proof {
                assert(r.deep_view() =~= spec_split(s@.take(i + 1 as int), sep));
            }
        } else {
            let last = r.len() - 1;
            let mut part = String::new();
            core::mem::swap(&mut part, &mut r[last]);
            part.push(c);
            core::mem::swap(&mut part, &mut r[last]);
            proof {
                assert(r.deep_view() =~= spec_split(s@.take(i + 1 as int), sep));
            }
        }
        i = i + 1;
    }
    proof {
        assert(s@.take(n as int) =~= s@);
        lemma_split_nonempty(s@, sep);
        assert(r@.len() == r.deep_view().len());
    }
    r
}

/// Whether `s` contains the character `c`.
pub fn str_contains_char(s: &str, c: char) -> (b: bool)
    ensures
        b == s@.contains(c),
{
    let n = s.unicode_len();
    let mut i: usize = 0;
    while i < n
        invariant
            n == s@.len(),
            0 <= i <= n,
            forall|j: int| 0 <= j < i ==> s@[j] != c,
        decreases n - i,
    {
        if s.get_char(i) == c {
            assert(s@[i as int] == c);
            return true;
        }
        i = i + 1;
    }
    assert(!s@.contains(c));
    false
}

/// What parsing a dimensions string returns: every `x`-separated part
/// must be an unsigned number fitting `usize`; one part gives a
/// square, two or more give width and height.
pub open spec fn spec_parse_usize(s: Seq<char>) -> Result<int, NumberParseError> {
    if s.len() == 0 {
        Err(NumberParseError::Empty)
    } else if !spec_all_digits(s) {
        Err(NumberParseError::InvalidDigit)
    } else if spec_uint_val(s) > usize::MAX {
        Err(NumberParseError::TooLarge)
    } else {
        Ok(spec_uint_val(s))
    }
}

/// The first part that fails to parse (meaningful when one exists).
pub open spec fn first_bad_part(parts: Seq<Seq<char>>) -> int
    decreases parts.len(),
{
    if parts.len() == 0 {
        0
    } else if spec_parse_usize(parts[0]) is Err {
        0
    } else {
        1 + first_bad_part(parts.skip(1))
    }
}

proof fn lemma_first_bad_part(parts: Seq<Seq<char>>, i: int)
    requires
        0 <= i < parts.len(),
        spec_parse_usize(parts[i]) is Err,
        forall|j: int| 0 <= j < i ==> spec_parse_usize(#[trigger] parts[j]) is Ok,
    ensures
        first_bad_part(parts) == i,
    decreases parts.len(),
{
    if i > 0 {
        assert(parts.skip(1)[i - 1] == parts[i]);
        assert(forall|j: int|
            0 <= j < i - 1 ==> #[trigger] parts.skip(1)[j] == parts[j + 1]);
        lemma_first_bad_part(parts.skip(1), i - 1);
    }
}

/// What parsing a dimensions string returns.
pub open spec fn spec_parse_dimensions(s: Seq<char>) -> Result<Dimensions, NumberParseError> {
    let parts = spec_split(s, 'x');
    if exists|i: int| 0 <= i < parts.len() && spec_parse_usize(#[trigger] parts[i]) is Err {
        match spec_parse_usize(parts[first_bad_part(parts)]) {
            Err(e) => Err(e),
            Ok(_) => Err(NumberParseError::Empty),
        }
    } else {
        let w = spec_parse_usize(parts[0])->Ok_0;
        if parts.len() == 1 {
            Ok(Dimensions(w as usize, w as usize))
        } else {
            Ok(Dimensions(w as usize, spec_parse_usize(parts[1])->Ok_0 as usize))
        }
    }
}

/// Parse one `x`-separated part as a `usize`.
fn parse_usize_part(s: &str) -> (r: Result<usize, NumberParseError>)
    ensures
        r matches Ok(v) ==> spec_parse_usize(s@) == Ok::<int, NumberParseError>(v as int),
        r matches Err(e) ==> spec_parse_usize(s@) == Err::<int, NumberParseError>(e),
{
    if s.unicode_len() == 0 {
        return Err(NumberParseError::Empty);
    }
    if !str_all_digits(s) {
        return Err(NumberParseError::InvalidDigit);
    }
    let cap: u64 = usize::MAX as u64;
    match parse_digits_capped(s, cap) {
        Ok(v) => Ok(v as usize),
        Err(e) => Err(e),
    }
}

/// Parse image dimensions from text like `600x200` (or `400` for a
/// square).
pub fn parse_dimensions(dims: &str) -> (r: Result<Dimensions, NumberParseError>)
    ensures
        r == spec_parse_dimensions(dims@),
{
    let parts = split_str(dims, 'x');
    let ghost sparts = spec_split(dims@, 'x');
    let mut vals: Vec<usize> = Vec::new();
    let n = parts.len();
    let mut i: usize = 0;
    while i < n
        invariant
            sparts == spec_split(dims@, 'x'),
            parts.deep_view() == sparts,
            n == sparts.len(),
            0 <= i <= n,
            vals@.len() == i,
            forall|j: int|
                0 <= j < i ==> spec_parse_usize(#[trigger] sparts[j]) == Ok::<
                    int,
                    NumberParseError,
                >(vals@[j] as int),
        decreases n - i,
    {
        proof {
            assert(parts@[i as int]@ == sparts[i as int]);
        }
        match parse_usize_part(parts[i].as_str()) {
            Ok(v) => {
                vals.push(v);
            },
            Err(e) => {
                proof {
                    assert(spec_parse_usize(sparts[i as int]) is Err);
                    assert(spec_parse_usize(spec_split(dims@, 'x')[i as int]) is Err);
                    assert(exists|k: int|
                        0 <= k < spec_split(dims@, 'x').len() && spec_parse_usize(
                            #[trigger] spec_split(dims@, 'x')[k],
                        ) is Err);
                    lemma_first_bad_part(sparts, i as int);
                    assert(first_bad_part(sparts) == i as int);
                    assert(spec_parse_usize(sparts[i as int]) == Err::<int, NumberParseError>(e));
                    assert(spec_parse_dimensions(dims@) == Err::<Dimensions, NumberParseError>(
                        e,
                    ));
                }
                return Err(e);
            },
        }
        i = i + 1;
    }
    let w = vals[0];
    if vals.len() == 1 {
        Ok(Dimensions(w, w))
    } else {
        Ok(Dimensions(w, vals[1]))
    }
}

/// A digit string's value is below ten to its length.
proof fn lemma_uint_val_upper(s: Seq<char>)
    requires
        spec_all_digits(s),
    ensures
        spec_uint_val(s) < pow10(s.len() as nat),
    decreases s.len(),
{
    if s.len() == 0 {
        assert(pow10(0) == 1);
    } else {
        assert(spec_all_digits(s.drop_last())) by {
            assert(forall|i: int|
                0 <= i < s.len() - 1 ==> #[trigger] s.drop_last()[i] == s[i]);
        }
        lemma_uint_val_upper(s.drop_last());
        let v = spec_uint_val(s.drop_last());
        let p = pow10((s.len() - 1) as nat);
        assert(spec_is_digit(s.last()));
        assert(spec_digit_val(s.last()) <= 9);
        assert(10 * v <= 10 * (p - 1)) by (nonlinear_arith)
            requires v <= p - 1;
        assert(pow10(s.len() as nat) == 10 * p);
    }
}

/// The exact micro-unit value of a signed decimal string: an optional
/// sign, a non-empty whole part, and an optional fraction of at most
/// six digits (the micro-unit resolution).
pub open spec fn spec_parse_coord(s: Seq<char>) -> Result<int, NumberParseError> {
    let neg = s.len() > 0 && s[0] == '-';
    let body = if s.len() > 0 && (s[0] == '-' || s[0] == '+') {
        s.skip(1)
    } else {
        s
    };
    let parts = spec_split(body, '.');
    let whole = parts[0];
    let frac = if parts.len() == 2 {
        parts[1]
    } else {
        Seq::empty()
    };
    if parts.len() > 2 {
        Err(NumberParseError::InvalidDigit)
    } else if whole.len() == 0 {
        Err(NumberParseError::Empty)
    } else if !spec_all_digits(whole) {
        Err(NumberParseError::InvalidDigit)
    } else if !spec_all_digits(frac) {
        Err(NumberParseError::InvalidDigit)
    } else if frac.len() > 6 {
        Err(NumberParseError::TooLarge)
    } else {
        let v = spec_uint_val(whole) * 1_000_000 + spec_uint_val(frac) * pow10(
            (6 - frac.len()) as nat,
        );
        if v > COORD_LIMIT {
            Err(NumberParseError::TooLarge)
        } else if neg {
            Ok(-v)
        } else {
            Ok(v)
        }
    }
}

/// Parse a signed decimal string into an exact coordinate.
pub fn parse_coord_str(s: &str) -> (r: Result<Coord, NumberParseError>)
    ensures
        r matches Ok(c) ==> spec_parse_coord(s@) == Ok::<int, NumberParseError>(c.micros as int)
            && c.in_bounds(),
        r matches Err(e) ==> spec_parse_coord(s@) == Err::<int, NumberParseError>(e),
{
    let n = s.unicode_len();
    let mut neg = false;
    let mut signed = false;
    if n > 0 {
        let c0 = s.get_char(0);
        if c0 == '-' || c0 == '+' {
            neg = c0 == '-';
            signed = true;
        }
    }
    let body: &str = if signed {
        s.substring_char(1, n)
    } else {
        s
    };
    proof {
        if signed {
            assert(body@ =~= s@.skip(1));
        }
    }
    let parts = split_str(body, '.');
    let ghost sparts = spec_split(body@, '.');
    if parts.len() > 2 {
        return Err(NumberParseError::InvalidDigit);
    }
    let ghost sfrac: Seq<char> = if sparts.len() == 2 {
        sparts[1]
    } else {
        Seq::empty()
    };
    if parts[0].as_str().unicode_len() == 0 {
        return Err(NumberParseError::Empty);
    }
    if !str_all_digits(parts[0].as_str()) {
        return Err(NumberParseError::InvalidDigit);
    }
    let has_frac = parts.len() == 2;
    if has_frac {
        if !str_all_digits(parts[1].as_str()) {
            return Err(NumberParseError::InvalidDigit);
        }
        if parts[1].as_str().unicode_len() > 6 {
            return Err(NumberParseError::TooLarge);
        }
    }
    let whole: u64 = match parse_digits_capped(parts[0].as_str(), COORD_LIMIT as u64) {
        Ok(v) => v,
        Err(_) => {
            proof {
                let wv = spec_uint_val(sparts[0]);
                let fv = spec_uint_val(sfrac);
                lemma_uint_val_nonneg(sfrac);
                lemma_pow10_pos((6 - sfrac.len()) as nat);
                assert(wv <= wv * 1_000_000) by (nonlinear_arith)
                    requires wv >= 0;
                assert(fv * pow10((6 - sfrac.len()) as nat) >= 0) by (nonlinear_arith)
                    requires fv >= 0, pow10((6 - sfrac.len()) as nat) >= 1;
            }
            return Err(NumberParseError::TooLarge);
        },
    };
    let mut frac: u64 = 0;
    let mut k: usize = 6;
    if has_frac {
        let fl = parts[1].as_str().unicode_len();
        match parse_digits_capped(parts[1].as_str(), 999_999) {
            Ok(v) => {
                frac = v;
                k = 6 - fl;
            },
            Err(_) => {
                proof {
                    lemma_uint_val_upper(sfrac);
                    lemma_pow10_mono(sfrac.len() as nat, 6);
                    reveal_with_fuel(pow10, 8);
                    assert(false);
                }
            },
        }
    }
    let scale = pow10_u64(k);
    proof {
        lemma_pow10_mono(k as nat, 6);
        reveal_with_fuel(pow10, 8);
        assert((frac as int) * (scale as int) <= 999_999 * 1_000_000) by (nonlinear_arith)
            requires 0 <= frac as int <= 999_999, 1 <= scale as int <= 1_000_000;
        assert((frac as int) * (scale as int) >= 0) by (nonlinear_arith)
            requires frac as int >= 0, scale as int >= 1;
    }
    let v: u128 = (whole as u128) * 1_000_000 + (frac as u128) * (scale as u128);
    if v > COORD_LIMIT as u128 {
        return Err(NumberParseError::TooLarge);
    }
    let m: i64 = if neg {
        -(v as i64)
    } else {
        v as i64
    };
    Ok(Coord { micros: m })
}

/// Why an m/z window failed to parse: its start or its end was not a
/// number (a missing end token reports a malformed empty end).
#[derive(Debug, Clone, Copy, PartialEq, Eq, Structural)]
pub enum MZRangeParseError {
    MalformedStart(NumberParseError),
    MalformedEnd(NumberParseError),
}

/// An optionally half-open m/z window, as given on a command line.
#[derive(Debug, Clone, Copy, PartialEq, Eq, Structural)]
pub struct MZRange {
    pub start: Option<Coord>,
    pub end: Option<Coord>,
}

impl MZRange {
    pub fn new(start: Option<Coord>, end: Option<Coord>) -> (r: Self)
        ensures
            r.start == start,
            r.end == end,
    {
        Self { start, end }
    }
}

impl Default for MZRange {
    fn default() -> (r: Self)
        ensures
            r.start is None,
            r.end is None,
    {
        Self { start: None, end: None }
    }
}

/// The separator an m/z window string uses: a space, a colon, or a
/// dash, in that order of preference.
pub open spec fn spec_mz_sep(s: Seq<char>) -> char {
    if s.contains(' ') {
        ' '
    } else if s.contains(':') {
        ':'
    } else if s.contains('-') {
        '-'
    } else {
        ' '
    }
}

/// The end-token half of window parsing, given the parsed start.
pub open spec fn spec_mz_end(parts: Seq<Seq<char>>, start: Option<Coord>) -> Result<
    MZRange,
    MZRangeParseError,
> {
    if parts.len() < 2 {
        Err(MZRangeParseError::MalformedEnd(NumberParseError::Empty))
    } else if parts[1].len() == 0 {
        Ok(MZRange { start, end: None })
    } else {
        match spec_parse_coord(parts[1]) {
            Err(e) => Err(MZRangeParseError::MalformedEnd(e)),
            Ok(v) => Ok(MZRange { start, end: Some(Coord { micros: v as i64 }) }),
        }
    }
}

/// What parsing an m/z window returns: two tokens split on the
/// window's separator, each empty (open-ended) or a decimal number.
pub open spec fn spec_parse_mz_range(s: Seq<char>) -> Result<MZRange, MZRangeParseError> {
    let parts = spec_split(s, spec_mz_sep(s));
    if parts[0].len() == 0 {
        spec_mz_end(parts, None)
    } else {
        match spec_parse_coord(parts[0]) {
            Err(e) => Err(MZRangeParseError::MalformedStart(e)),
            Ok(v) => spec_mz_end(parts, Some(Coord { micros: v as i64 })),
        }
    }
}

/// Parse an m/z window from text like `400-800`, `400:800` or
/// `400 800`; an empty token leaves that side open.
pub fn parse_mz_range(s: &str) -> (r: Result<MZRange, MZRangeParseError>)
    ensures
        r == spec_parse_mz_range(s@),
{
    let sep: char = if str_contains_char(s, ' ') {
        ' '
    } else if str_contains_char(s, ':') {
        ':'
    } else if str_contains_char(s, '-') {
        '-'
    } else {
        ' '
    };
    let parts = split_str(s, sep);
    let start_t: Option<Coord> = if parts[0].as_str().unicode_len() == 0 {
        None
    } else {
        match parse_coord_str(parts[0].as_str()) {
            Ok(c) => Some(c),
            Err(e) => {
                return Err(MZRangeParseError::MalformedStart(e));
            },
        }
    };
    if parts.len() < 2 {
        return Err(MZRangeParseError::MalformedEnd(NumberParseError::Empty));
    }
    if parts[1].as_str().unicode_len() == 0 {
        return Ok(MZRange { start: start_t, end: None });
    }
    match parse_coord_str(parts[1].as_str()) {
        Ok(c) => Ok(MZRange { start: start_t, end: Some(c) }),
        Err(e) => Err(MZRangeParseError::MalformedEnd(e)),
    }
}

impl core::str::FromStr for MZRange {
    type Err = MZRangeParseError;

    fn from_str(s: &str) -> Result<MZRange, MZRangeParseError> {
        parse_mz_range(s)
    }
}

impl core::str::FromStr for Dimensions {
    type Err = NumberParseError;

    fn from_str(s: &str) -> Result<Dimensions, NumberParseError> {
        parse_dimensions(s)
    }
}


} // verus!
