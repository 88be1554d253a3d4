//! Legacy character codec: a 4-characters-per-3-bytes text encoding over a
//! 64-symbol alphabet with a 65th padding marker. The portal login form
//! expects a username and password encoded this way and joined by `%%%`.
use vstd::prelude::*;
use vstd::string::StringSliceAdditionalSpecFns;

use crate::textutil::{ascii_chars, ascii_to_string};

verus! {

/// Symbol table of the codec: values 0..=63 map to the data alphabet
/// `A..Z a..z 0..9 + /`; value 64 is the padding marker `=`.
pub open spec fn legacy_symbol(v: u8) -> u8
    recommends
        v <= 64,
{
    if v < 26 {
        (v + 65) as u8
    } else if v < 52 {
        (v + 71) as u8
    } else if v < 62 {
        (v - 4) as u8
    } else if v == 62 {
        43u8
    } else if v == 63 {
        47u8
    } else {
        61u8
    }
}

/// The four output symbols for the input group starting at byte `i`.
/// Absent bytes of a final short group count as zero in the arithmetic, but
/// the third output symbol becomes the padding marker when the second byte is
/// absent, and the fourth when the third byte is absent.
pub open spec fn legacy_group(bytes: Seq<u8>, i: int) -> Seq<u8>
    recommends
        0 <= i < bytes.len(),
{
    let chr1 = bytes[i];
    let chr2 = if i + 1 < bytes.len() {
        bytes[i + 1]
    } else {
        0u8
    };
    let chr3 = if i + 2 < bytes.len() {
        bytes[i + 2]
    } else {
        0u8
    };
    let enc1 = chr1 >> 2u8;
    let enc2 = ((chr1 & 3u8) << 4u8) | (chr2 >> 4u8);
    let enc3 = if i + 1 >= bytes.len() {
        64u8
    } else {
        ((chr2 & 15u8) << 2u8) | (chr3 >> 6u8)
    };
    let enc4 = if i + 2 >= bytes.len() {
        64u8
    } else {
        chr3 & 63u8
    };
    seq![
        legacy_symbol(enc1),
        legacy_symbol(enc2),
        legacy_symbol(enc3),
        legacy_symbol(enc4),
    ]
}

/// Output symbols for the groups from byte `i` on.
pub open spec fn legacy_encode_from(bytes: Seq<u8>, i: int) -> Seq<u8>
    decreases bytes.len() - i + 3,
{
    if i < 0 || i >= bytes.len() {
        Seq::empty()
    } else {
        legacy_group(bytes, i) + legacy_encode_from(bytes, i + 3)
    }
}

/// The full encoding of a byte sequence.
pub open spec fn legacy_encode(bytes: Seq<u8>) -> Seq<u8> {
    legacy_encode_from(bytes, 0)
}

/// The encoding as text: every symbol is ASCII, read as a character.
pub open spec fn legacy_chars(bytes: Seq<u8>) -> Seq<char> {
    ascii_chars(legacy_encode(bytes))
}

fn legacy_symbol_at(v: u8) -> (r: u8)
    requires
        v <= 64,
    ensures
        r == legacy_symbol(v),
{
    if v < 26 {
        v + 65
    } else if v < 52 {
        v + 71
    } else if v < 62 {
        v - 4
    } else if v == 62 {
        43
    } else if v == 63 {
        47
    } else {
        61
    }
}

/// Encodes a string with the legacy codec. Defined for every input; the empty
/// string encodes to the empty string.
pub fn encode_inp(input: &str) -> (r: String)
    ensures
        r@ == legacy_chars(input.spec_bytes()),
{
    let bytes = input.as_bytes();
    let n = bytes.len();
    let mut out: Vec<u8> = Vec::new();
    let mut i: usize = 0;
    while i < n
        invariant
            i <= n,
            n == bytes@.len(),
            legacy_encode(bytes@) == out@ + legacy_encode_from(bytes@, i as int),
            forall|k: int| 0 <= k < out@.len() ==> out@[k] < 128,
        decreases n - i,
    {
        let rem = n - i;
        let chr1 = bytes[i];
        let chr2 = if rem > 1 {
            bytes[i + 1]
        } else {
            0u8
        };
        let chr3 = if rem > 2 {
            bytes[i + 2]
        } else {
            0u8
        };

        let enc1 = chr1 >> 2u8;
        let enc2 = ((chr1 & 3u8) << 4u8) | (chr2 >> 4u8);
        let enc3 = if rem <= 1 {
            64u8
        } else {
            ((chr2 & 15u8) << 2u8) | (chr3 >> 6u8)
        };
        let enc4 = if rem <= 2 {
            64u8
        } else {
            chr3 & 63u8
        };

        proof {
            assert(chr1 >> 2u8 <= 64u8) by (bit_vector);
            assert(((chr1 & 3u8) << 4u8) | (chr2 >> 4u8) <= 64u8) by (bit_vector);
            assert(((chr2 & 15u8) << 2u8) | (chr3 >> 6u8) <= 64u8) by (bit_vector);
            assert(chr3 & 63u8 <= 64u8) by (bit_vector);
        }
        out.push(legacy_symbol_at(enc1));
        out.push(legacy_symbol_at(enc2));
        out.push(legacy_symbol_at(enc3));
        out.push(legacy_symbol_at(enc4));

        proof {
            assert(legacy_group(bytes@, i as int) =~= seq![
                legacy_symbol(enc1),
                legacy_symbol(enc2),
                legacy_symbol(enc3),
                legacy_symbol(enc4),
            ]);
            assert(legacy_encode(bytes@) == out@ + legacy_encode_from(bytes@, i + 3));
        }
        if rem > 3 {
            i = i + 3;
        } else {
            proof {
                assert(legacy_encode_from(bytes@, i + 3) =~= legacy_encode_from(
                    bytes@,
                    n as int,
                ));
            }
            i = n;
        }
    }
    proof {
        assert(legacy_encode_from(bytes@, i as int) =~= Seq::empty());
        assert(out@ =~= legacy_encode(bytes@));
    }
    ascii_to_string(out)
}

/// Encodes a username and password independently and joins them with the
/// fixed `%%%` separator, as the portal login form expects.
pub fn encode_credentials(username: &str, password: &str) -> (r: String)
    ensures
        r@ == legacy_chars(username.spec_bytes()) + "%%%"@ + legacy_chars(
            password.spec_bytes(),
        ),
{
    let mut s = encode_inp(username);
    s.append("%%%");
    let p = encode_inp(password);
    s.append(p.as_str());
    s
}

/// The output is always four symbols per started group of three input bytes.
pub proof fn lemma_legacy_encode_len(bytes: Seq<u8>)
    ensures
        legacy_encode(bytes).len() == 4 * ((bytes.len() + 2) / 3),
{
    lemma_legacy_encode_from_len(bytes, 0);
}

/// The empty input encodes to the empty output.
pub proof fn lemma_legacy_empty()
    ensures
        legacy_chars(Seq::empty()) =~= Seq::<char>::empty(),
{
    assert(legacy_encode(Seq::empty()) =~= Seq::<u8>::empty());
}

/// An input one byte past a group boundary ends in two padding markers.
pub proof fn lemma_legacy_padding_double(bytes: Seq<u8>)
    requires
        bytes.len() % 3 == 1,
    ensures
        legacy_encode(bytes).len() >= 4,
        legacy_encode(bytes)[legacy_encode(bytes).len() - 1] == 61,
        legacy_encode(bytes)[legacy_encode(bytes).len() - 2] == 61,
{
    lemma_legacy_padding_double_from(bytes, 0);
}

proof fn lemma_legacy_padding_double_from(bytes: Seq<u8>, i: int)
    requires
        0 <= i < bytes.len(),
        (bytes.len() - i) % 3 == 1,
    ensures
        legacy_encode_from(bytes, i).len() >= 4,
        legacy_encode_from(bytes, i)[legacy_encode_from(bytes, i).len() - 1] == 61,
        legacy_encode_from(bytes, i)[legacy_encode_from(bytes, i).len() - 2] == 61,
    decreases bytes.len() - i,
{
    if bytes.len() - i == 1 {
        assert(legacy_encode_from(bytes, i + 3) =~= Seq::empty());
        assert(legacy_encode_from(bytes, i) =~= legacy_group(bytes, i));
    } else {
        lemma_legacy_padding_double_from(bytes, i + 3);
    }
}

/// An input two bytes past a group boundary ends in exactly one padding
/// marker: the last symbol is the marker, the one before it is not.
pub proof fn lemma_legacy_padding_single(bytes: Seq<u8>)
    requires
        bytes.len() % 3 == 2,
    ensures
        legacy_encode(bytes).len() >= 4,
        legacy_encode(bytes)[legacy_encode(bytes).len() - 1] == 61,
        legacy_encode(bytes)[legacy_encode(bytes).len() - 2] != 61,
{
    lemma_legacy_padding_single_from(bytes, 0);
}

proof fn lemma_legacy_padding_single_from(bytes: Seq<u8>, i: int)
    requires
        0 <= i < bytes.len(),
        (bytes.len() - i) % 3 == 2,
    ensures
        legacy_encode_from(bytes, i).len() >= 4,
        legacy_encode_from(bytes, i)[legacy_encode_from(bytes, i).len() - 1] == 61,
        legacy_encode_from(bytes, i)[legacy_encode_from(bytes, i).len() - 2] != 61,
    decreases bytes.len() - i,
{
    if bytes.len() - i == 2 {
        assert(legacy_encode_from(bytes, i + 3) =~= Seq::empty());
        assert(legacy_encode_from(bytes, i) =~= legacy_group(bytes, i));
        let chr2 = bytes[i + 1];
        assert(((chr2 & 15u8) << 2u8) | (0u8 >> 6u8) < 64u8) by (bit_vector);
    } else {
        lemma_legacy_padding_single_from(bytes, i + 3);
    }
}

/// A group-aligned, non-empty input ends without any padding marker.
pub proof fn lemma_legacy_padding_none(bytes: Seq<u8>)
    requires
        bytes.len() % 3 == 0,
        bytes.len() > 0,
    ensures
        legacy_encode(bytes).len() >= 4,
        legacy_encode(bytes)[legacy_encode(bytes).len() - 1] != 61,
        legacy_encode(bytes)[legacy_encode(bytes).len() - 2] != 61,
{
    lemma_legacy_padding_none_from(bytes, 0);
}

proof fn lemma_legacy_padding_none_from(bytes: Seq<u8>, i: int)
    requires
        0 <= i < bytes.len(),
        (bytes.len() - i) % 3 == 0,
    ensures
        legacy_encode_from(bytes, i).len() >= 4,
        legacy_encode_from(bytes, i)[legacy_encode_from(bytes, i).len() - 1] != 61,
        legacy_encode_from(bytes, i)[legacy_encode_from(bytes, i).len() - 2] != 61,
    decreases bytes.len() - i,
{
    if bytes.len() - i == 3 {
        assert(legacy_encode_from(bytes, i + 3) =~= Seq::empty());
        assert(legacy_encode_from(bytes, i) =~= legacy_group(bytes, i));
        let chr2 = bytes[i + 1];
        let chr3 = bytes[i + 2];
        assert(((chr2 & 15u8) << 2u8) | (chr3 >> 6u8) < 64u8) by (bit_vector);
        assert(chr3 & 63u8 < 64u8) by (bit_vector);
    } else {
        lemma_legacy_padding_none_from(bytes, i + 3);
    }
}

proof fn lemma_legacy_encode_from_len(bytes: Seq<u8>, i: int)
    requires
        0 <= i <= bytes.len(),
    ensures
        legacy_encode_from(bytes, i).len() == 4 * ((bytes.len() - i + 2) / 3),
    decreases bytes.len() - i,
{
    if i >= bytes.len() {
    } else if i + 3 >= bytes.len() {
        assert(legacy_encode_from(bytes, i + 3) =~= Seq::empty());
    } else {
        lemma_legacy_encode_from_len(bytes, i + 3);
    }
}

} // verus!
