//! Temperatures as exact fixed-point values, and the parser for the
//! firmware tool's reading.
//!
//! The daemon learns the core temperature from an external tool whose output
//! looks like `temp=42.8'C`, possibly followed by a line break.  The fan
//! policy only ever compares a sample against whole-degree thresholds, so a
//! sample is carried as a signed count of millidegrees: exact, and free of
//! floating point.  A reading keeps its first three fraction digits; further
//! fraction digits are ignored, and a whole part of more than seven digits is
//! rejected as no temperature.

use vstd::prelude::*;

verus! {

/// A temperature sample in millidegrees (thousandths of a degree).
/// `Temperature { millidegrees: 42_800 }` is 42.8 degrees.
#[derive(Clone, Copy, Debug, PartialEq, Eq, Structural)]
pub struct Temperature {
    /// Signed millidegrees.
    pub millidegrees: i64,
}

impl Temperature {
    /// The sample for a whole number of degrees.
    pub fn from_degrees(degrees: i16) -> (t: Temperature)
        ensures
            t.millidegrees == degrees * 1000,
    {
        Temperature { millidegrees: (degrees as i64) * 1000 }
    }
}

/// An ASCII decimal digit, `'0'` to `'9'`.
pub open spec fn is_digit(b: u8) -> bool {
    48 <= b <= 57
}

/// ASCII whitespace as it trails a tool's output: space, tab, line feed,
/// carriage return.
pub open spec fn is_whitespace(b: u8) -> bool {
    b == 32 || b == 9 || b == 10 || b == 13
}

/// The number a big-endian run of ASCII digits denotes.
pub open spec fn digits_value(s: Seq<u8>) -> int
    decreases s.len(),
{
    if s.len() == 0 {
        0
    } else {
        digits_value(s.drop_last()) * 10 + (s.last() - 48)
    }
}

/// How many digits stand in a row from position `i` on.
pub open spec fn digit_run_len(s: Seq<u8>, i: int) -> int
    recommends
        0 <= i <= s.len(),
    decreases s.len() - i,
        when 0 <= i <= s.len()
{
    if i < s.len() && is_digit(s[i]) {
        1 + digit_run_len(s, i + 1)
    } else {
        0
    }
}

/// Ten to the `k`.
pub open spec fn pow10(k: nat) -> int
    decreases k,
{
    if k == 0 {
        1
    } else {
        10 * pow10((k - 1) as nat)
    }
}

proof fn lemma_digit_run_len_nonneg(s: Seq<u8>, i: int)
    requires
        0 <= i <= s.len(),
    ensures
        digit_run_len(s, i) >= 0,
    decreases s.len() - i,
{
    if i < s.len() && is_digit(s[i]) {
        lemma_digit_run_len_nonneg(s, i + 1);
    }
}

proof fn lemma_pow10_pos(k: nat)
    ensures
        pow10(k) >= 1,
    decreases k,
{
    if k > 0 {
        lemma_pow10_pos((k - 1) as nat);
    }
}

proof fn lemma_pow10_mono(a: nat, b: nat)
    requires
        a <= b,
    ensures
        pow10(a) <= pow10(b),
    decreases b,
{
    if a < b {
        lemma_pow10_mono(a, (b - 1) as nat);
        lemma_pow10_pos((b - 1) as nat);
    }
}

/// The reading starts with the literal bytes `temp=`.
pub open spec fn has_prefix(s: Seq<u8>) -> bool {
    s.len() >= 5 && s[0] == 116 && s[1] == 101 && s[2] == 109 && s[3] == 112 && s[4] == 61
}

/// A minus sign follows the prefix.
pub open spec fn spec_is_negative(s: Seq<u8>) -> bool {
    s.len() > 5 && s[5] == 45
}

/// Where the digits of the whole part start.
pub open spec fn spec_num_start(s: Seq<u8>) -> int {
    if spec_is_negative(s) {
        6
    } else {
        5
    }
}

/// From position `j` on, the reading closes with `'C` and then nothing but
/// whitespace.
pub open spec fn suffix_ok(s: Seq<u8>, j: int) -> bool {
    &&& j + 2 <= s.len()
    &&& s[j] == 39
    &&& s[j + 1] == 67
    &&& forall|k: int| j + 2 <= k < s.len() ==> is_whitespace(s[k])
}

/// The millidegrees the first (up to three) fraction digits contribute:
/// `8` means .8 degrees, 800 millidegrees; digits past the third are
/// ignored.
pub open spec fn frac_millis(fp: Seq<u8>) -> int {
    if fp.len() >= 3 {
        digits_value(fp.take(3))
    } else if fp.len() == 2 {
        digits_value(fp) * 10
    } else if fp.len() == 1 {
        digits_value(fp) * 100
    } else {
        0
    }
}

/// The signed millidegrees a reading denotes, from its parts.
pub open spec fn signed_millis(neg: bool, whole: int, fp: Seq<u8>) -> int {
    if neg {
        -(whole * 1000 + frac_millis(fp))
    } else {
        whole * 1000 + frac_millis(fp)
    }
}

/// What a temperature reading means: `Some` millidegree count when the bytes
/// are `temp=`, an optional minus sign, one to seven whole digits, an
/// optional point with at least one fraction digit, `'C`, and trailing
/// whitespace; `None` for anything else.
pub open spec fn spec_parse_reading(s: Seq<u8>) -> Option<int> {
    if !has_prefix(s) {
        Option::None
    } else {
        let neg = spec_is_negative(s);
        let ds = spec_num_start(s);
        let ilen = digit_run_len(s, ds);
        if ilen < 1 || ilen > 7 {
            Option::None
        } else {
            let ie = ds + ilen;
            let whole = digits_value(s.subrange(ds, ie));
            if ie < s.len() && s[ie] == 46 {
                let flen = digit_run_len(s, ie + 1);
                if flen < 1 {
                    Option::None
                } else if suffix_ok(s, ie + 1 + flen) {
                    Option::Some(signed_millis(neg, whole, s.subrange(ie + 1, ie + 1 + flen)))
                } else {
                    Option::None
                }
            } else if suffix_ok(s, ie) {
                Option::Some(signed_millis(neg, whole, Seq::empty()))
            } else {
                Option::None
            }
        }
    }
}

/// Parse a temperature reading such as `temp=42.8'C` into millidegrees.
/// Returns a sample exactly when the bytes form a reading, and the exact
/// millidegree value when they do.
#[verifier::loop_isolation(false)]
pub fn parse_reading(s: &[u8]) -> (result: Option<Temperature>)
    ensures
        result matches Some(t) ==> spec_parse_reading(s@) == Option::Some(
            t.millidegrees as int,
        ),
        result is None ==> spec_parse_reading(s@) is None,
{
    let n = s.len();
    if n < 5 {
        return None;
    }
    if s[0] != 116 || s[1] != 101 || s[2] != 109 || s[3] != 112 || s[4] != 61 {
        return None;
    }
    let neg = n > 5 && s[5] == 45;
    let ds: usize = if neg {
        6
    } else {
        5
    };
    proof {
        assert(neg == spec_is_negative(s@));
        assert(ds == spec_num_start(s@));
        assert(s@.subrange(ds as int, ds as int) =~= Seq::<u8>::empty());
    }

    // The whole part: scan its digit run, accumulating its value.
    let mut j: usize = ds;
    let mut whole: i64 = 0;
    while j < n && 48 <= s[j] && s[j] <= 57
        invariant
            ds <= j <= n,
            n == s@.len(),
            ds == spec_num_start(s@),
            5 <= ds <= 6,
            digit_run_len(s@, ds as int) == j - ds + digit_run_len(s@, j as int),
            j - ds <= 7,
            whole == digits_value(s@.subrange(ds as int, j as int)),
            0 <= whole < pow10((j - ds) as nat),
        decreases n - j,
    {
        proof {
            assert(is_digit(s@[j as int]));
            assert(digit_run_len(s@, j as int) == 1 + digit_run_len(s@, j as int + 1));
        }
        if j - ds == 7 {
            proof {
                lemma_digit_run_len_nonneg(s@, j as int + 1);
                assert(digit_run_len(s@, ds as int) > 7);
            }
            return None;
        }
        proof {
            lemma_pow10_mono((j - ds) as nat, 6);
            assert(pow10(6) == 1_000_000) by {
                reveal_with_fuel(pow10, 7);
            }
            let pre = s@.subrange(ds as int, j as int);
            let post = s@.subrange(ds as int, j as int + 1);
            assert(post.drop_last() =~= pre);
            assert(post.last() == s@[j as int]);
        }
        whole = whole * 10 + ((s[j] - 48) as i64);
        j = j + 1;
    }
    proof {
        assert(digit_run_len(s@, j as int) == 0);
        assert(digit_run_len(s@, ds as int) == j - ds);
    }
    if j == ds {
        return None;
    }
    let ghost ie = j as int;
    let ghost whole_value = digits_value(s@.subrange(ds as int, ie));

    // The optional fraction: scan its digit run, keeping the value of the
    // first three digits.
    let mut end: usize = j;
    let mut fdv: i64 = 0;
    let ghost mut frac_part = Seq::<u8>::empty();
    if j < n && s[j] == 46 {
        let fs = j + 1;
        proof {
            assert(s@.subrange(fs as int, fs as int) =~= Seq::<u8>::empty());
        }
        let mut k: usize = fs;
        while k < n && 48 <= s[k] && s[k] <= 57
            invariant
                fs <= k <= n,
                n == s@.len(),
                5 <= fs,
                digit_run_len(s@, fs as int) == k - fs + digit_run_len(s@, k as int),
                fdv == digits_value(
                    s@.subrange(fs as int, if k - fs >= 3 { fs + 3 } else { k as int }),
                ),
                0 <= fdv < pow10(if k - fs >= 3 { 3nat } else { (k - fs) as nat }),
            decreases n - k,
        {
            proof {
                assert(is_digit(s@[k as int]));
                assert(digit_run_len(s@, k as int) == 1 + digit_run_len(s@, k as int + 1));
            }
            if k - fs < 3 {
                proof {
                    lemma_pow10_mono((k - fs) as nat, 2);
                    assert(pow10(2) == 100 && pow10(3) == 1000) by {
                        reveal_with_fuel(pow10, 4);
                    }
                    let pre = s@.subrange(fs as int, k as int);
                    let post = s@.subrange(fs as int, k as int + 1);
                    assert(post.drop_last() =~= pre);
                    assert(post.last() == s@[k as int]);
                }
                fdv = fdv * 10 + ((s[k] - 48) as i64);
            }
            k = k + 1;
        }
        proof {
            assert(digit_run_len(s@, k as int) == 0);
            assert(digit_run_len(s@, fs as int) == k - fs);
        }
        if k == fs {
            return None;
        }
        end = k;
        proof {
            assert(pow10(1) == 10 && pow10(2) == 100 && pow10(3) == 1000) by {
                reveal_with_fuel(pow10, 4);
            }
            frac_part = s@.subrange(fs as int, k as int);
            if k - fs >= 3 {
                assert(frac_part.take(3) =~= s@.subrange(fs as int, fs as int + 3));
            }
        }
        if end - fs == 2 {
            fdv = fdv * 10;
        } else if end - fs == 1 {
            fdv = fdv * 100;
        }
        proof {
            assert(fdv == frac_millis(frac_part));
        }
    }
    proof {
        assert(fdv == frac_millis(frac_part));
        assert(0 <= fdv <= 999);
    }

    // The closing `'C` and any trailing whitespace.
    if n - end < 2 {
        return None;
    }
    if s[end] != 39 || s[end + 1] != 67 {
        return None;
    }
    let mut w: usize = end + 2;
    while w < n
        invariant
            end + 2 <= w <= n,
            n == s@.len(),
            forall|k2: int| end + 2 <= k2 < w ==> is_whitespace(s@[k2]),
        decreases n - w,
    {
        let b = s[w];
        if !(b == 32 || b == 9 || b == 10 || b == 13) {
            return None;
        }
        w = w + 1;
    }
    proof {
        assert(suffix_ok(s@, end as int));
        lemma_pow10_mono((j - ds) as nat, 7);
        assert(pow10(7) == 10_000_000) by {
            reveal_with_fuel(pow10, 8);
        }
        assert(whole == whole_value);
        assert(0 <= whole < 10_000_000);
    }
    let magnitude = whole * 1000 + fdv;
    let millidegrees = if neg {
        -magnitude
    } else {
        magnitude
    };
    proof {
        assert(spec_parse_reading(s@) == Option::Some(signed_millis(neg, whole_value, frac_part)));
        assert(millidegrees == signed_millis(neg, whole_value, frac_part));
    }
    Some(Temperature { millidegrees })
}

} // verus!
