//! Decoding of query text from a route segment.
//!
//! A fuzzy-search query arrives percent-encoded inside a URL path segment.
//! It is decoded to bytes, the bytes must form valid UTF-8, and the result
//! is case-folded before scoring.

use vstd::prelude::*;
use vstd::string::StringSliceAdditionalSpecFns;
use vstd::utf8::decode_utf8;
use vstd::utf8::valid_utf8;

verus! {

/// The value of an ASCII hex digit, or `-1` when `b` is none.
pub open spec fn hex_val(b: u8) -> int {
    if 48 <= b <= 57 {
        b - 48
    } else if 65 <= b <= 70 {
        b - 55
    } else if 97 <= b <= 102 {
        b - 87
    } else {
        -1
    }
}

/// Whether `s` begins with a percent escape: `%` and two hex digits.
pub open spec fn starts_with_escape(s: Seq<u8>) -> bool {
    s.len() >= 3 && s[0] == 37 && hex_val(s[1]) >= 0 && hex_val(s[2]) >= 0
}

/// `s` percent-decoded: every `%` followed by two hex digits becomes the
/// byte they name; everything else, a lone or ill-formed `%` included,
/// passes through unchanged.
pub open spec fn pct_decoded(s: Seq<u8>) -> Seq<u8>
    decreases s.len(),
{
    if s.len() == 0 {
        Seq::empty()
    } else if starts_with_escape(s) {
        seq![(hex_val(s[1]) * 16 + hex_val(s[2])) as u8] + pct_decoded(s.skip(3))
    } else {
        seq![s[0]] + pct_decoded(s.skip(1))
    }
}

/// The value of an ASCII hex digit.
fn hex_digit(b: u8) -> (r: Option<u8>)
    ensures
        match r {
            Some(v) => hex_val(b) == v,
            None => hex_val(b) < 0,
        },
{
    if 48 <= b && b <= 57 {
        Some(b - 48)
    } else if 65 <= b && b <= 70 {
        Some(b - 55)
    } else if 97 <= b && b <= 102 {
        Some(b - 87)
    } else {
        None
    }
}

/// Percent-decodes the bytes of a route segment.
pub fn percent_decode_str(s: &str) -> (r: Vec<u8>)
    ensures
        r@ == pct_decoded(s.spec_bytes()),
{
    let bytes = s.as_bytes();
    let n: usize = bytes.len();
    let mut out: Vec<u8> = Vec::new();
    let mut i: usize = 0;
    proof {
        assert(bytes@.skip(0) =~= bytes@);
        assert(out@ + pct_decoded(bytes@) =~= pct_decoded(bytes@));
    }
    while i < n
        invariant
            i <= n,
            n == bytes@.len(),
            bytes@ == s.spec_bytes(),
            pct_decoded(bytes@) == out@ + pct_decoded(bytes@.skip(i as int)),
        decreases n - i,
    {
        proof {
            assert(bytes@.skip(i as int)[0] == bytes@[i as int]);
        }
        let ghost rest = bytes@.skip(i as int);
        if bytes[i] == 37 && n - i >= 3 {
            let h1 = hex_digit(bytes[i + 1]);
            let h2 = hex_digit(bytes[i + 2]);
            match (h1, h2) {
                (Some(v1), Some(v2)) => {
                    proof {
                        assert(rest[1] == bytes@[i + 1]);
                        assert(rest[2] == bytes@[i + 2]);
                        assert(starts_with_escape(rest));
                        assert(rest.skip(3) =~= bytes@.skip(i + 3));
                        assert(pct_decoded(rest) == seq![(hex_val(rest[1]) * 16 + hex_val(
                            rest[2],
                        )) as u8] + pct_decoded(bytes@.skip(i + 3)));
                    }
                    out.push(v1 * 16 + v2);
                    i = i + 3;
                    proof {
                        assert(pct_decoded(bytes@) =~= out@ + pct_decoded(
                            bytes@.skip(i as int),
                        ));
                    }
                },
                _ => {
                    proof {
                        assert(rest[1] == bytes@[i + 1]);
                        assert(rest[2] == bytes@[i + 2]);
                        assert(!starts_with_escape(rest));
                        assert(rest.skip(1) =~= bytes@.skip(i + 1));
                    }
                    let b: u8 = bytes[i];
                    out.push(b);
                    i = i + 1;
                    proof {
                        assert(pct_decoded(bytes@) =~= out@ + pct_decoded(
                            bytes@.skip(i as int),
                        ));
                    }
                },
            }
        } else {
            proof {
                if rest.len() >= 3 {
                    assert(rest[1] == bytes@[i + 1]);
                    assert(rest[2] == bytes@[i + 2]);
                }
                assert(!starts_with_escape(rest));
                assert(rest.skip(1) =~= bytes@.skip(i + 1));
            }
            let b: u8 = bytes[i];
            out.push(b);
            i = i + 1;
            proof {
                assert(pct_decoded(bytes@) =~= out@ + pct_decoded(bytes@.skip(i as int)));
            }
        }
    }
    proof {
        assert(bytes@.skip(n as int) =~= Seq::<u8>::empty());
        assert(out@ =~= out@ + pct_decoded(bytes@.skip(n as int)));
    }
    out
}

/// Relies on `String::from_utf8`: it succeeds exactly on valid UTF-8, and
/// the resulting string's characters are the decoded scalars.
#[verifier::external_body]
pub fn utf8_string(bytes: Vec<u8>) -> (r: Option<String>)
    ensures
        r is Some <==> valid_utf8(bytes@),
        r matches Some(s) ==> s@ == decode_utf8(bytes@),
{
    String::from_utf8(bytes).ok()
}

/// What `str::to_lowercase` returns: a function of the characters alone.
pub uninterp spec fn lower_of(s: Seq<char>) -> Seq<char>;

/// Relies on `str::to_lowercase`: the case-folded text depends on the
/// characters alone.
#[verifier::external_body]
pub fn lowercase(s: &str) -> (r: String)
    ensures
        r@ == lower_of(s@),
{
    s.to_lowercase()
}

} // verus!
