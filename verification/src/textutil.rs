//! Small text helpers shared by the codecs and the page helpers: turning a
//! buffer of ASCII bytes into a `String`, and digit-string parsing with the
//! zero default the page helpers use.
use vstd::prelude::*;
use vstd::string::StringSliceAdditionalSpecFns;

verus! {

/// The characters of an ASCII byte sequence, read byte for byte.
pub open spec fn ascii_chars(bytes: Seq<u8>) -> Seq<char> {
    bytes.map_values(|b: u8| b as char)
}

/// Relies on `String::from_utf8`: for bytes below 128 it succeeds and yields
/// the string whose characters are exactly those bytes.
#[verifier::external_body]
pub(crate) fn ascii_to_string(bytes: Vec<u8>) -> (r: String)
    requires
        forall|i: int| 0 <= i < bytes@.len() ==> bytes@[i] < 128,
    ensures
        r@ == ascii_chars(bytes@),
{
    match String::from_utf8(bytes) {
        Ok(s) => s,
        Err(_) => String::new(),
    }
}

/// The numeric value of a run of decimal digit bytes, most significant
/// first.
pub open spec fn digits_value(digits: Seq<u8>) -> int
    decreases digits.len(),
{
    if digits.len() == 0 {
        0
    } else {
        digits_value(digits.drop_last()) * 10 + (digits.last() - 48)
    }
}

/// Every byte is a decimal digit.
pub open spec fn all_digits(s: Seq<u8>) -> bool {
    forall|i: int| 0 <= i < s.len() ==> 48 <= #[trigger] s[i] <= 57
}

/// The digit run of an unsigned number: one optional leading plus sign.
pub open spec fn unsigned_digits(s: Seq<u8>) -> Seq<u8> {
    if s.len() > 0 && s[0] == 43 {
        s.skip(1)
    } else {
        s
    }
}

/// The value of a decimal field with the extraction layer's zero default:
/// an optional plus sign and digits fitting the type give the number,
/// anything else gives zero.
pub open spec fn parse_u32_spec(s: Seq<u8>) -> u32 {
    let d = unsigned_digits(s);
    if d.len() > 0 && all_digits(d) && digits_value(d) <= u32::MAX {
        digits_value(d) as u32
    } else {
        0u32
    }
}

/// The value of a signed decimal field with the zero default: an optional
/// sign and digits fitting the type give the number, anything else zero.
pub open spec fn parse_i32_spec(s: Seq<u8>) -> i32 {
    if s.len() > 0 && s[0] == 45 {
        let d = s.skip(1);
        if d.len() > 0 && all_digits(d) && digits_value(d) <= 2147483648 {
            (-digits_value(d)) as i32
        } else {
            0i32
        }
    } else {
        let d = unsigned_digits(s);
        if d.len() > 0 && all_digits(d) && digits_value(d) <= i32::MAX {
            digits_value(d) as i32
        } else {
            0i32
        }
    }
}

proof fn lemma_digits_value_nonneg(d: Seq<u8>)
    requires
        all_digits(d),
    ensures
        digits_value(d) >= 0,
    decreases d.len(),
{
    if d.len() > 0 {
        assert(all_digits(d.drop_last()));
        lemma_digits_value_nonneg(d.drop_last());
    }
}

proof fn lemma_digits_value_prefix(d: Seq<u8>, k: int)
    requires
        all_digits(d),
        0 <= k <= d.len(),
    ensures
        digits_value(d) >= digits_value(d.take(k)),
    decreases d.len() - k,
{
    if k == d.len() {
        assert(d.take(k) =~= d);
    } else {
        assert(d.take(k + 1).drop_last() =~= d.take(k));
        assert(d.take(k + 1).last() == d[k]);
        assert(all_digits(d.take(k)));
        lemma_digits_value_nonneg(d.take(k));
        lemma_digits_value_prefix(d, k + 1);
    }
}

fn digits_to_u32(bytes: &[u8], start: usize, limit: u32) -> (r: Option<u32>)
    requires
        start <= bytes@.len(),
    ensures
        ({
            let d = bytes@.skip(start as int);
            match r {
                Some(v) => d.len() > 0 && all_digits(d) && digits_value(d) <= limit && v
                    == digits_value(d),
                None => !(d.len() > 0 && all_digits(d) && digits_value(d) <= limit),
            }
        }),
{
    let ghost d = bytes@.skip(start as int);
    let n = bytes.len();
    if start == n {
        return None;
    }
    let mut acc: u32 = 0;
    let mut i: usize = start;
    while i < n
        invariant
            start <= i <= n,
            n == bytes@.len(),
            start < n,
            d == bytes@.skip(start as int),
            all_digits(d.take(i - start)),
            acc == digits_value(d.take(i - start)),
            acc <= limit,
        decreases n - i,
    {
        let b = bytes[i];
        if b < 48 || b > 57 {
            proof {
                assert(d[i - start] == bytes@[i as int]);
            }
            return None;
        }
        let digit: u32 = (b - 48) as u32;
        proof {
            assert(d.take(i - start + 1).drop_last() =~= d.take(i - start));
            assert(d.take(i - start + 1).last() == d[i - start]);
            assert(all_digits(d.take(i - start + 1)));
        }
        if acc > limit / 10 || (acc == limit / 10 && digit > limit % 10) {
            proof {
                assert(digits_value(d.take(i - start + 1)) == acc * 10 + digit);
                assert(acc * 10 + digit > limit) by (nonlinear_arith)
                    requires
                        acc > limit / 10 || (acc == limit / 10 && digit > limit % 10),
                        limit == (limit / 10) * 10 + (limit % 10),
                        digit < 10,
                        acc >= 0,
                        limit % 10 >= 0,
                        limit / 10 >= 0,
                ;
                if all_digits(d) {
                    lemma_digits_value_prefix(d, i - start + 1);
                }
            }
            return None;
        }
        acc = acc * 10 + digit;
        i = i + 1;
    }
    proof {
        assert(d.take(n - start) =~= d);
    }
    Some(acc)
}

/// Parses an unsigned decimal field as the extraction layer does: the
/// number when well-formed and in range, zero otherwise.
pub fn parse_u32_or_zero(s: &str) -> (r: u32)
    ensures
        r == parse_u32_spec(s.spec_bytes()),
{
    let bytes = s.as_bytes();
    let n = bytes.len();
    let start: usize = if n > 0 && bytes[0] == 43 {
        1
    } else {
        0
    };
    proof {
        assert(unsigned_digits(bytes@) =~= bytes@.skip(start as int));
    }
    match digits_to_u32(bytes, start, u32::MAX) {
        Some(v) => v,
        None => 0,
    }
}

/// Parses a signed decimal field as the extraction layer does: the number
/// when well-formed and in range, zero otherwise.
pub fn parse_i32_or_zero(s: &str) -> (r: i32)
    ensures
        r == parse_i32_spec(s.spec_bytes()),
{
    let bytes = s.as_bytes();
    let n = bytes.len();
    if n > 0 && bytes[0] == 45 {
        match digits_to_u32(bytes, 1, 2147483648u32) {
            Some(v) => {
                if v == 2147483648u32 {
                    i32::MIN
                } else {
                    0i32 - (v as i32)
                }
            },
            None => 0,
        }
    } else {
        let start: usize = if n > 0 && bytes[0] == 43 {
            1
        } else {
            0
        };
        proof {
            assert(unsigned_digits(bytes@) =~= bytes@.skip(start as int));
        }
        match digits_to_u32(bytes, start, 2147483647u32) {
            Some(v) => v as i32,
            None => 0,
        }
    }
}

} // verus!
