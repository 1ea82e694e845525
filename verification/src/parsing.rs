use vstd::prelude::*;
use vstd::slice::slice_subrange;
use crate::errors::IngestionError;

verus! {

/// ASCII decimal digit.
pub open spec fn is_ascii_digit(b: u8) -> bool {
    48 <= b && b <= 57
}

/// Every byte of `s` is an ASCII decimal digit.
pub open spec fn all_digits(s: Seq<u8>) -> bool {
    forall|i: int| 0 <= i < s.len() ==> is_ascii_digit(#[trigger] s[i])
}

/// Numeric value of a run of ASCII digits, most significant first.
pub open spec fn digits_value(s: Seq<u8>) -> int
    decreases s.len(),
{
    if s.len() == 0 {
        0
    } else {
        digits_value(s.drop_last()) * 10 + (s.last() - 48)
    }
}

/// Reads a non-empty all-digit byte string as a number, reporting a
/// value beyond `bound` without overflowing; leading zeros are allowed.
fn parse_digits_bounded(s: &[u8], bound: u64) -> (r: Option<u64>)
    requires
        bound <= 1_000_000_000_000_000,
    ensures
        (r is Some) <==> (s@.len() > 0 && all_digits(s@) && digits_value(s@) <= bound),
        r matches Some(v) ==> v == digits_value(s@),
{
    let n: usize = s.len();
    if n == 0 {
        return None;
    }
    let mut acc: u64 = 0;
    let mut i: usize = 0;
    while i < n
        invariant
            n == s@.len(),
            i <= n,
            bound <= 1_000_000_000_000_000,
            all_digits(s@.take(i as int)),
            digits_value(s@.take(i as int)) >= 0,
            digits_value(s@.take(i as int)) <= bound ==> acc == digits_value(s@.take(i as int)),
            digits_value(s@.take(i as int)) > bound ==> acc == bound + 1,
            acc <= bound + 1,
        decreases n - i,
    {
        let b = s[i];
        if b < 48 || b > 57 {
            proof {
                assert(!is_ascii_digit(s@[i as int]));
            }
            return None;
        }
        let d: u64 = (b - 48) as u64;
        proof {
            assert(s@.take(i + 1).drop_last() =~= s@.take(i as int));
            assert(s@.take(i + 1).last() == s@[i as int]);
            assert(digits_value(s@.take(i + 1)) == digits_value(s@.take(i as int)) * 10 + (
            s@[i as int] - 48));
        }
        let raw: u64 = acc * 10 + d;
        if raw > bound {
            acc = bound + 1;
        } else {
            acc = raw;
        }
        i = i + 1;
    }
    proof {
        assert(s@.take(n as int) =~= s@);
    }
    if acc > bound {
        None
    } else {
        Some(acc)
    }
}

/// `s` with leading bytes drawn from `{a, b}` removed.
pub open spec fn trim_left_set(s: Seq<u8>, a: u8, b: u8) -> Seq<u8>
    decreases s.len(),
{
    if s.len() > 0 && (s[0] == a || s[0] == b) {
        trim_left_set(s.drop_first(), a, b)
    } else {
        s
    }
}

/// `s` with trailing bytes drawn from `{a, b}` removed.
pub open spec fn trim_right_set(s: Seq<u8>, a: u8, b: u8) -> Seq<u8>
    decreases s.len(),
{
    if s.len() > 0 && (s.last() == a || s.last() == b) {
        trim_right_set(s.drop_last(), a, b)
    } else {
        s
    }
}

/// `s` with bytes drawn from `{a, b}` removed at both ends.
pub open spec fn trim_set(s: Seq<u8>, a: u8, b: u8) -> Seq<u8> {
    trim_right_set(trim_left_set(s, a, b), a, b)
}

/// Removes the bytes `a` and `b` from both ends of `s`.
fn trim_set_exec<'a>(s: &'a [u8], a: u8, b: u8) -> (r: &'a [u8])
    ensures
        r@ == trim_set(s@, a, b),
{
    let n: usize = s.len();
    let mut lo: usize = 0;
    proof {
        assert(s@.skip(0) =~= s@);
    }
    while lo < n && (s[lo] == a || s[lo] == b)
        invariant
            n == s@.len(),
            lo <= n,
            trim_left_set(s@, a, b) == trim_left_set(s@.skip(lo as int), a, b),
        decreases n - lo,
    {
        proof {
            assert(s@.skip(lo as int).drop_first() =~= s@.skip(lo + 1));
        }
        lo = lo + 1;
    }
    proof {
        assert(trim_left_set(s@.skip(lo as int), a, b) == s@.skip(lo as int));
    }
    let mut hi: usize = n;
    proof {
        assert(s@.subrange(lo as int, n as int) =~= s@.skip(lo as int));
    }
    while hi > lo && (s[hi - 1] == a || s[hi - 1] == b)
        invariant
            n == s@.len(),
            lo <= hi <= n,
            trim_left_set(s@, a, b) == s@.skip(lo as int),
            trim_right_set(s@.skip(lo as int), a, b) == trim_right_set(
                s@.subrange(lo as int, hi as int),
                a,
                b,
            ),
        decreases hi,
    {
        proof {
            assert(s@.subrange(lo as int, hi as int).last() == s@[hi - 1]);
            assert(s@.subrange(lo as int, hi as int).drop_last() =~= s@.subrange(
                lo as int,
                hi - 1,
            ));
        }
        hi = hi - 1;
    }
    proof {
        assert(trim_right_set(s@.subrange(lo as int, hi as int), a, b) == s@.subrange(
            lo as int,
            hi as int,
        ));
    }
    slice_subrange(s, lo, hi)
}

/// Number of occurrences of `b` in `s`.
pub open spec fn count_byte(s: Seq<u8>, b: u8) -> nat
    decreases s.len(),
{
    if s.len() == 0 {
        0
    } else {
        count_byte(s.drop_last(), b) + if s.last() == b {
            1nat
        } else {
            0nat
        }
    }
}

/// Index of the first occurrence of `b` in `s` (meaningful only when
/// one exists).
pub open spec fn first_byte(s: Seq<u8>, b: u8) -> int
    decreases s.len(),
{
    if s.len() == 0 {
        0
    } else if s[0] == b {
        0
    } else {
        1 + first_byte(s.drop_first(), b)
    }
}

/// The two sides of `s` around its single occurrence of `b`; `None`
/// when `b` occurs fewer or more times than once.
pub open spec fn spec_split_once(s: Seq<u8>, b: u8) -> Option<(Seq<u8>, Seq<u8>)> {
    if count_byte(s, b) == 1 {
        Some((s.take(first_byte(s, b)), s.skip(first_byte(s, b) + 1)))
    } else {
        None
    }
}

proof fn lemma_first_byte_at(s: Seq<u8>, b: u8, q: int)
    requires
        0 <= q < s.len(),
        s[q] == b,
        forall|k: int| 0 <= k < q ==> s[k] != b,
    ensures
        first_byte(s, b) == q,
    decreases q,
{
    if q > 0 {
        assert(forall|k: int| 0 <= k < q - 1 ==> s.drop_first()[k] != b);
        lemma_first_byte_at(s.drop_first(), b, q - 1);
    }
}

/// Splits `s` at its single occurrence of `b`; fails when `b` occurs
/// fewer or more times than once.
fn split_once_byte<'a>(s: &'a [u8], b: u8) -> (r: Option<(&'a [u8], &'a [u8])>)
    ensures
        (r is Some) <==> count_byte(s@, b) == 1,
        r matches Some(parts) ==> spec_split_once(s@, b) matches Some(sides) && parts.0@ == sides.0
            && parts.1@ == sides.1,
{
    let n: usize = s.len();
    let mut count: usize = 0;
    let mut pos: usize = 0;
    let mut i: usize = 0;
    while i < n
        invariant
            n == s@.len(),
            i <= n,
            count <= i,
            count == count_byte(s@.take(i as int), b),
            count > 0 ==> (pos < i && s@[pos as int] == b && forall|k: int|
                0 <= k < pos ==> s@[k] != b),
            count == 0 ==> forall|k: int| 0 <= k < i ==> s@[k] != b,
        decreases n - i,
    {
        proof {
            assert(s@.take(i + 1).drop_last() =~= s@.take(i as int));
            assert(s@.take(i + 1).last() == s@[i as int]);
        }
        if s[i] == b {
            if count == 0 {
                pos = i;
            }
            count = count + 1;
        }
        i = i + 1;
    }
    proof {
        assert(s@.take(n as int) =~= s@);
    }
    if count != 1 {
        return None;
    }
    proof {
        lemma_first_byte_at(s@, b, pos as int);
    }
    let left = slice_subrange(s, 0, pos);
    let right = slice_subrange(s, pos + 1, n);
    proof {
        assert(left@ =~= s@.take(pos as int));
        assert(right@ =~= s@.skip(pos + 1));
    }
    Some((left, right))
}

/// Counts the occurrences of `b` in `s`.
fn count_byte_exec(s: &[u8], b: u8) -> (r: usize)
    ensures
        r == count_byte(s@, b),
{
    let n: usize = s.len();
    let mut count: usize = 0;
    let mut i: usize = 0;
    while i < n
        invariant
            n == s@.len(),
            i <= n,
            count <= i,
            count == count_byte(s@.take(i as int), b),
        decreases n - i,
    {
        proof {
            assert(s@.take(i + 1).drop_last() =~= s@.take(i as int));
            assert(s@.take(i + 1).last() == s@[i as int]);
        }
        if s[i] == b {
            count = count + 1;
        }
        i = i + 1;
    }
    proof {
        assert(s@.take(n as int) =~= s@);
    }
    count
}

/// What parsing a time-window field yields: parentheses trimmed from
/// both ends, exactly one comma, and each side a run of decimal digits
/// after trimming blanks, its value fitting a `u32`.
pub open spec fn spec_parse_time_window_field(s: Seq<u8>) -> Option<(u32, u32)> {
    let t = trim_set(s, 40, 41);
    match spec_split_once(t, 44) {
        Some(sides) => {
            let left = trim_set(sides.0, 32, 9);
            let right = trim_set(sides.1, 32, 9);
            if left.len() > 0 && all_digits(left) && digits_value(left) <= u32::MAX
                && right.len() > 0 && all_digits(right) && digits_value(right) <= u32::MAX {
                Some((digits_value(left) as u32, digits_value(right) as u32))
            } else {
                None
            }
        },
        None => None,
    }
}

/// Parses a time-window field of the shape `(start, end)`: two decimal
/// hour numbers separated by one comma, with optional surrounding
/// parentheses and blanks.
pub fn parse_time_window_field(s: &[u8]) -> (r: Result<(u32, u32), IngestionError>)
    ensures
        r matches Ok(v) ==> spec_parse_time_window_field(s@) == Some(v),
        r is Err ==> spec_parse_time_window_field(s@) is None,
        r is Err ==> r == Err::<(u32, u32), IngestionError>(IngestionError::MalformedField),
{
    let t = trim_set_exec(s, 40, 41);
    match split_once_byte(t, 44) {
        Some(parts) => {
            let left = trim_set_exec(parts.0, 32, 9);
            let right = trim_set_exec(parts.1, 32, 9);
            let a = parse_digits_bounded(left, 4_294_967_295);
            let b = parse_digits_bounded(right, 4_294_967_295);
            match (a, b) {
                (Some(av), Some(bv)) => Ok((av as u32, bv as u32)),
                _ => Err(IngestionError::MalformedField),
            }
        },
        None => Err(IngestionError::MalformedField),
    }
}

/// Power of ten.
pub open spec fn pow10(n: nat) -> int
    decreases n,
{
    if n == 0 {
        1
    } else {
        10 * pow10((n - 1) as nat)
    }
}

/// A run of digits is worth less than ten to the power of its length.
proof fn lemma_digits_value_bound(s: Seq<u8>)
    requires
        all_digits(s),
    ensures
        0 <= digits_value(s) < pow10(s.len()),
    decreases s.len(),
{
    if s.len() > 0 {
        assert(all_digits(s.drop_last()));
        lemma_digits_value_bound(s.drop_last());
    }
}

/// Microdegree value of a fraction digit run: its first six digits,
/// scaled so that for example a lone "5" denotes half a degree.
pub open spec fn fraction_micro(f: Seq<u8>) -> int {
    let f6 = if f.len() <= 6 {
        f
    } else {
        f.take(6)
    };
    digits_value(f6) * pow10((6 - f6.len()) as nat)
}

/// Ten to the power of a small exponent.
fn pow10_exec(e: usize) -> (r: u64)
    requires
        e <= 6,
    ensures
        r == pow10(e as nat),
{
    proof {
        assert(pow10(0) == 1);
        assert(pow10(1) == 10);
        assert(pow10(2) == 100);
        assert(pow10(3) == 1000);
        assert(pow10(4) == 10000);
        assert(pow10(5) == 100000);
        assert(pow10(6) == 1000000);
    }
    if e == 0 {
        1
    } else if e == 1 {
        10
    } else if e == 2 {
        100
    } else if e == 3 {
        1000
    } else if e == 4 {
        10000
    } else if e == 5 {
        100000
    } else {
        1000000
    }
}

/// Microdegree value of a fraction digit run; fails unless the run is
/// all digits.
fn fraction_micro_exec(f: &[u8]) -> (r: Option<u64>)
    ensures
        (r is Some) <==> all_digits(f@),
        r matches Some(v) ==> v == fraction_micro(f@) && v <= 999_999_000_000,
{
    let n: usize = f.len();
    let mut i: usize = 0;
    while i < n
        invariant
            n == f@.len(),
            i <= n,
            all_digits(f@.take(i as int)),
        decreases n - i,
    {
        let b = f[i];
        if b < 48 || b > 57 {
            proof {
                assert(!is_ascii_digit(f@[i as int]));
            }
            return None;
        }
        proof {
            assert(f@.take(i + 1) =~= f@.take(i as int).push(f@[i as int]));
            assert(forall|k: int|
                0 <= k < i + 1 ==> is_ascii_digit(#[trigger] f@.take(i + 1)[k]));
        }
        i = i + 1;
    }
    proof {
        assert(f@.take(n as int) =~= f@);
    }
    if n == 0 {
        proof {
            assert(fraction_micro(f@) == 0) by {
                assert(digits_value(f@) == 0);
            }
        }
        return Some(0);
    }
    let f6: &[u8] = if n <= 6 {
        f
    } else {
        slice_subrange(f, 0, 6)
    };
    proof {
        if n > 6 {
            assert(f6@ =~= f@.take(6));
            assert(forall|k: int| 0 <= k < 6 ==> is_ascii_digit(#[trigger] f6@[k]));
        }
        lemma_digits_value_bound(f6@);
        assert(pow10(0) == 1);
        assert(pow10(1) == 10);
        assert(pow10(2) == 100);
        assert(pow10(3) == 1000);
        assert(pow10(4) == 10000);
        assert(pow10(5) == 100000);
        assert(pow10(6) == 1000000);
    }
    let v = match parse_digits_bounded(f6, 999_999) {
        Some(v) => v,
        None => {
            proof {
                assert(false);
            }
            return None;
        },
    };
    let e: usize = 6 - f6.len();
    let p = pow10_exec(e);
    proof {
        assert(v * p <= 999_999 * 1_000_000) by (nonlinear_arith)
            requires
                0 <= v <= 999_999,
                0 <= p <= 1_000_000,
        ;
    }
    Some(v * p)
}

/// What parsing one signed decimal coordinate yields, in millionths of
/// a degree: an optional sign, then digits with at most one decimal
/// point and at least one digit in all. Fraction digits beyond the
/// sixth are ignored; a whole part beyond a trillion degrees is
/// rejected so every accepted value fits its type exactly.
pub open spec fn spec_parse_coordinate(s: Seq<u8>) -> Option<i64> {
    let signed = s.len() > 0 && (s[0] == 43 || s[0] == 45);
    let neg = s.len() > 0 && s[0] == 45;
    let body = if signed {
        s.drop_first()
    } else {
        s
    };
    let dots = count_byte(body, 46);
    if dots == 0 {
        if body.len() > 0 && all_digits(body) && digits_value(body) <= 1_000_000_000_000 {
            let mag = digits_value(body) * 1_000_000;
            Some(
                (if neg {
                    -mag
                } else {
                    mag
                }) as i64,
            )
        } else {
            None
        }
    } else if dots == 1 {
        let ip = body.take(first_byte(body, 46));
        let fp = body.skip(first_byte(body, 46) + 1);
        if (ip.len() > 0 || fp.len() > 0) && all_digits(ip) && all_digits(fp) && digits_value(ip)
            <= 1_000_000_000_000 {
            let mag = digits_value(ip) * 1_000_000 + fraction_micro(fp);
            Some(
                (if neg {
                    -mag
                } else {
                    mag
                }) as i64,
            )
        } else {
            None
        }
    } else {
        None
    }
}

/// Parses one signed decimal coordinate into millionths of a degree.
pub fn parse_coordinate(s: &[u8]) -> (r: Result<i64, IngestionError>)
    ensures
        r matches Ok(v) ==> spec_parse_coordinate(s@) == Some(v),
        r is Err ==> spec_parse_coordinate(s@) is None,
        r is Err ==> r == Err::<i64, IngestionError>(IngestionError::MalformedField),
{
    let n: usize = s.len();
    let signed: bool = n > 0 && (s[0] == 43 || s[0] == 45);
    let neg: bool = n > 0 && s[0] == 45;
    let body: &[u8] = if signed {
        slice_subrange(s, 1, n)
    } else {
        s
    };
    proof {
        if signed {
            assert(body@ =~= s@.drop_first());
        }
    }
    let dots = count_byte_exec(body, 46);
    if dots == 0 {
        match parse_digits_bounded(body, 1_000_000_000_000) {
            Some(v) => {
                let mag: u64 = v * 1_000_000;
                let val: i64 = if neg {
                    -(mag as i64)
                } else {
                    mag as i64
                };
                Ok(val)
            },
            None => Err(IngestionError::MalformedField),
        }
    } else if dots == 1 {
        match split_once_byte(body, 46) {
            Some(parts) => {
                let ip = parts.0;
                let fp = parts.1;
                if ip.len() == 0 && fp.len() == 0 {
                    return Err(IngestionError::MalformedField);
                }
                let ipv: u64 = if ip.len() == 0 {
                    0
                } else {
                    match parse_digits_bounded(ip, 1_000_000_000_000) {
                        Some(v) => v,
                        None => {
                            return Err(IngestionError::MalformedField);
                        },
                    }
                };
                let fpv: u64 = match fraction_micro_exec(fp) {
                    Some(v) => v,
                    None => {
                        return Err(IngestionError::MalformedField);
                    },
                };
                let mag: u64 = ipv * 1_000_000 + fpv;
                let val: i64 = if neg {
                    -(mag as i64)
                } else {
                    mag as i64
                };
                Ok(val)
            },
            None => {
                proof {
                    assert(false);
                }
                Err(IngestionError::MalformedField)
            },
        }
    } else {
        Err(IngestionError::MalformedField)
    }
}

/// What parsing a location field yields: brackets trimmed from both
/// ends, exactly one comma, and each side a signed decimal coordinate
/// after trimming blanks — latitude first, longitude second, both in
/// millionths of a degree.
pub open spec fn spec_parse_location_field(s: Seq<u8>) -> Option<(i64, i64)> {
    let t = trim_set(s, 91, 93);
    match spec_split_once(t, 44) {
        Some(sides) => {
            let lat = spec_parse_coordinate(trim_set(sides.0, 32, 9));
            let lon = spec_parse_coordinate(trim_set(sides.1, 32, 9));
            match (lat, lon) {
                (Some(a), Some(b)) => Some((a, b)),
                _ => None,
            }
        },
        None => None,
    }
}

/// Parses a location field of the shape `[latitude, longitude]` into a
/// pair of coordinates in millionths of a degree.
pub fn parse_location_field(s: &[u8]) -> (r: Result<(i64, i64), IngestionError>)
    ensures
        r matches Ok(v) ==> spec_parse_location_field(s@) == Some(v),
        r is Err ==> spec_parse_location_field(s@) is None,
        r is Err ==> r == Err::<(i64, i64), IngestionError>(IngestionError::MalformedField),
{
    let t = trim_set_exec(s, 91, 93);
    match split_once_byte(t, 44) {
        Some(parts) => {
            let lat = parse_coordinate(trim_set_exec(parts.0, 32, 9));
            let lon = parse_coordinate(trim_set_exec(parts.1, 32, 9));
            match (lat, lon) {
                (Ok(a), Ok(b)) => Ok((a, b)),
                _ => Err(IngestionError::MalformedField),
            }
        },
        None => Err(IngestionError::MalformedField),
    }
}

} // verus!
