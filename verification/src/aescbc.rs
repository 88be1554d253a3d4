//! Symmetric cipher codec: deterministic block encryption of a credential
//! string under a fixed key and initialization vector, produced for wire
//! compatibility with the VPN gateway's login form. This is a portal
//! compatibility obfuscation scheme, not a confidentiality guarantee: the
//! key and vector are fixed protocol constants.
use vstd::prelude::*;
use vstd::string::StringSliceAdditionalSpecFns;

use aes::cipher::{BlockEncrypt, KeyInit};
use base64::Engine;

verus! {

/// Encoding failure while producing the transport form of the payload.
/// The encoder never produces it for well-formed inputs; it is kept so the
/// signature states where such a failure would surface.
#[derive(Clone, Copy, Debug, PartialEq, Eq, Structural)]
pub enum CryptoError {
    Encoding,
}

/// The cipher's fixed 16-byte key, a protocol constant of the gateway.
pub open spec fn cipher_key() -> Seq<u8> {
    seq![
        0x55u8, 0x48u8, 0x31u8, 0x65u8, 0x4eu8, 0x37u8, 0x61u8, 0x70u8,
        0x6fu8, 0x4bu8, 0x39u8, 0x6cu8, 0x59u8, 0x35u8, 0x56u8, 0x42u8,
    ]
}

/// The cipher's fixed 16-byte initialization vector, a protocol constant.
pub open spec fn cipher_iv() -> Seq<u8> {
    seq![
        0x56u8, 0x6bu8, 0x52u8, 0x75u8, 0x30u8, 0x73u8, 0x36u8, 0x68u8,
        0x4cu8, 0x66u8, 0x46u8, 0x72u8, 0x69u8, 0x5au8, 0x44u8, 0x57u8,
    ]
}

fn cipher_key_bytes() -> (v: Vec<u8>)
    ensures
        v@ == cipher_key(),
{
    let mut v: Vec<u8> = Vec::new();
    v.push(0x55);
    v.push(0x48);
    v.push(0x31);
    v.push(0x65);
    v.push(0x4e);
    v.push(0x37);
    v.push(0x61);
    v.push(0x70);
    v.push(0x6f);
    v.push(0x4b);
    v.push(0x39);
    v.push(0x6c);
    v.push(0x59);
    v.push(0x35);
    v.push(0x56);
    v.push(0x42);
    proof {
        assert(v@ =~= cipher_key());
    }
    v
}

fn cipher_iv_bytes() -> (v: Vec<u8>)
    ensures
        v@ == cipher_iv(),
{
    let mut v: Vec<u8> = Vec::new();
    v.push(0x56);
    v.push(0x6b);
    v.push(0x52);
    v.push(0x75);
    v.push(0x30);
    v.push(0x73);
    v.push(0x36);
    v.push(0x68);
    v.push(0x4c);
    v.push(0x66);
    v.push(0x46);
    v.push(0x72);
    v.push(0x69);
    v.push(0x5a);
    v.push(0x44);
    v.push(0x57);
    proof {
        assert(v@ =~= cipher_iv());
    }
    v
}

/// One 16-byte block enciphered under a 16-byte key by the block cipher.
pub uninterp spec fn aes128_block_of(key: Seq<u8>, block: Seq<u8>) -> Seq<u8>;

/// Relies on `aes::Aes128` (`KeyInit::new_from_slice`, then
/// `BlockEncrypt::encrypt_block`): enciphering one 16-byte block under a
/// 16-byte key, a function of key and block alone, always 16 bytes long.
#[verifier::external_body]
fn aes128_encrypt_block(key: &Vec<u8>, block: &Vec<u8>) -> (r: Vec<u8>)
    requires
        key@.len() == 16,
        block@.len() == 16,
    ensures
        r@ == aes128_block_of(key@, block@),
        r@.len() == 16,
{
    match aes::Aes128::new_from_slice(key) {
        Ok(cipher) => {
            let mut b = aes::Block::clone_from_slice(block);
            cipher.encrypt_block(&mut b);
            b.to_vec()
        },
        Err(_) => Vec::new(),
    }
}

/// The padded standard text encoding of a byte sequence for form transport.
pub uninterp spec fn base64_of(bytes: Seq<u8>) -> Seq<char>;

/// Relies on `base64::engine::general_purpose::STANDARD.encode`: the padded
/// standard encoding, a function of the bytes alone; four output characters
/// per started group of three input bytes.
#[verifier::external_body]
fn base64_encode(data: &Vec<u8>) -> (r: String)
    ensures
        r@ == base64_of(data@),
        r@.len() == 4 * ((data@.len() + 2) / 3),
{
    base64::engine::general_purpose::STANDARD.encode(data)
}

/// The input right-padded to the next multiple of the block size: every
/// added byte equals the number of bytes added, and an aligned input still
/// receives a full extra block. This over-padding is a wire-compatibility
/// requirement of the gateway and must not be optimized away.
pub open spec fn padded(data: Seq<u8>) -> Seq<u8> {
    let p = 16 - (data.len() % 16);
    data + Seq::new(p as nat, |j: int| p as u8)
}

/// A block combined bytewise by exclusive or with the previous ciphertext.
pub open spec fn xor_block(a: Seq<u8>, b: Seq<u8>) -> Seq<u8> {
    Seq::new(a.len(), |i: int| a[i] ^ b[i])
}

/// A sequence read as one 16-byte block: the identity on cipher output,
/// which is always exactly 16 bytes.
pub open spec fn block16(s: Seq<u8>) -> Seq<u8> {
    Seq::new(16, |i: int| if i < s.len() {
        s[i]
    } else {
        0u8
    })
}

/// Ciphertext of block-aligned data chained block by block: each plaintext
/// block is combined with the previous ciphertext block (the vector `prev`
/// for the first) before the block cipher is applied. The cipher's output
/// block is 16 bytes, which the chaining pins down with `block16`.
pub open spec fn cbc_encrypt_blocks(key: Seq<u8>, prev: Seq<u8>, data: Seq<u8>) -> Seq<u8>
    decreases data.len(),
{
    if data.len() < 16 {
        Seq::empty()
    } else {
        let enc = block16(aes128_block_of(key, xor_block(data.take(16), prev)));
        enc + cbc_encrypt_blocks(key, enc, data.skip(16))
    }
}

/// The full ciphertext the codec produces for a plaintext byte sequence,
/// before the transport text encoding.
pub open spec fn cipher_blocks(data: Seq<u8>) -> Seq<u8> {
    cbc_encrypt_blocks(cipher_key(), cipher_iv(), padded(data))
}

/// The transport-safe encoded payload for a plaintext byte sequence.
pub open spec fn aes_cbc_spec(data: Seq<u8>) -> Seq<char> {
    base64_of(cipher_blocks(data))
}

/// Encrypts a credential string under the fixed key and vector and encodes
/// the ciphertext for form transport. Succeeds on every input, and the
/// output is a function of the plaintext alone.
pub fn aes_cbc_encrypt(plain_text: &str) -> (r: Result<String, CryptoError>)
    ensures
        r is Ok,
        r matches Ok(payload) ==> payload@ == aes_cbc_spec(plain_text.spec_bytes()),
{
    let mut data: Vec<u8> = vstd::slice::slice_to_vec(plain_text.as_bytes());
    let ghost plain: Seq<u8> = data@;

    let p: u8 = 16 - ((data.len() % 16) as u8);
    let mut j: usize = 0;
    while j < p as usize
        invariant
            p == 16 - (plain.len() % 16),
            data@ == plain + Seq::new(j as nat, |k: int| p),
            j <= p,
        decreases p - j,
    {
        data.push(p);
        proof {
            assert(data@ =~= plain + Seq::new((j + 1) as nat, |k: int| p));
        }
        j = j + 1;
    }
    proof {
        assert(data@ =~= padded(plain));
        lemma_padded_len(plain);
    }

    let key = cipher_key_bytes();
    let mut prev = cipher_iv_bytes();
    let mut ct: Vec<u8> = Vec::new();
    let n = data.len();
    let mut i: usize = 0;
    proof {
        assert(data@.skip(0) =~= data@);
        assert(Seq::<u8>::empty() + cbc_encrypt_blocks(cipher_key(), cipher_iv(), data@)
            =~= cbc_encrypt_blocks(cipher_key(), cipher_iv(), data@));
    }
    while i < n
        invariant
            n == data@.len(),
            n % 16 == 0,
            i % 16 == 0,
            i <= n,
            key@ == cipher_key(),
            prev@.len() == 16,
            cbc_encrypt_blocks(cipher_key(), cipher_iv(), data@) == ct@ + cbc_encrypt_blocks(
                cipher_key(),
                prev@,
                data@.skip(i as int),
            ),
        decreases n - i,
    {
        let mut chunk: Vec<u8> = Vec::new();
        let mut k: usize = 0;
        while k < 16
            invariant
                k <= 16,
                i + 16 <= n,
                n == data@.len(),
                prev@.len() == 16,
                chunk@ == Seq::new(k as nat, |t: int| data@[i + t] ^ prev@[t]),
            decreases 16 - k,
        {
            let b = data[i + k] ^ prev[k];
            chunk.push(b);
            proof {
                assert(chunk@ =~= Seq::new((k + 1) as nat, |t: int| data@[i + t] ^ prev@[t]));
            }
            k = k + 1;
        }
        proof {
            assert(chunk@ =~= xor_block(data@.skip(i as int).take(16), prev@));
        }
        let enc = aes128_encrypt_block(&key, &chunk);
        proof {
            assert(enc@ =~= block16(aes128_block_of(cipher_key(), xor_block(
                data@.skip(i as int).take(16),
                prev@,
            ))));
        }
        let mut t: usize = 0;
        let ghost ct_before: Seq<u8> = ct@;
        while t < 16
            invariant
                t <= 16,
                enc@.len() == 16,
                ct@ == ct_before + enc@.take(t as int),
            decreases 16 - t,
        {
            ct.push(enc[t]);
            proof {
                assert(ct@ =~= ct_before + enc@.take(t + 1));
            }
            t = t + 1;
        }
        proof {
            assert(ct@ =~= ct_before + enc@);
            assert(data@.skip(i as int).skip(16) =~= data@.skip(i + 16));
            assert(cbc_encrypt_blocks(cipher_key(), prev@, data@.skip(i as int)) =~= enc@
                + cbc_encrypt_blocks(cipher_key(), enc@, data@.skip(i + 16)));
        }
        prev = enc;
        i = i + 16;
    }
    proof {
        assert(data@.skip(n as int) =~= Seq::empty());
        assert(cbc_encrypt_blocks(cipher_key(), prev@, Seq::empty()) =~= Seq::empty());
        assert(ct@ =~= cipher_blocks(plain));
    }

    Ok(base64_encode(&ct))
}

/// Padding law: the padded length is the input length plus the pad width
/// `16 - len % 16`; it is the smallest multiple of the block size strictly
/// greater than the input length, so an aligned input gains a whole block.
pub proof fn lemma_padded_len(data: Seq<u8>)
    ensures
        padded(data).len() == data.len() + 16 - (data.len() % 16),
        padded(data).len() % 16 == 0,
        data.len() < padded(data).len() <= data.len() + 16,
        data.len() % 16 == 0 ==> padded(data).len() == data.len() + 16,
{
}

/// Ciphertext length law: block-aligned data encrypts to the same number of
/// bytes, block by block.
pub proof fn lemma_cbc_len(key: Seq<u8>, prev: Seq<u8>, data: Seq<u8>)
    requires
        data.len() % 16 == 0,
    ensures
        cbc_encrypt_blocks(key, prev, data).len() == data.len(),
    decreases data.len(),
{
    if data.len() >= 16 {
        let enc = block16(aes128_block_of(key, xor_block(data.take(16), prev)));
        lemma_cbc_len(key, enc, data.skip(16));
    }
}

/// Output length law: the ciphertext is exactly the padded plaintext's
/// length, a non-zero multiple of the block size.
pub proof fn lemma_cipher_blocks_len(data: Seq<u8>)
    ensures
        cipher_blocks(data).len() == padded(data).len(),
        cipher_blocks(data).len() % 16 == 0,
        cipher_blocks(data).len() > 0,
{
    lemma_padded_len(data);
    lemma_cbc_len(cipher_key(), cipher_iv(), padded(data));
}

} // verus!
