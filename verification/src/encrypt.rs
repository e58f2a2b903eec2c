//! Stream-cipher codec for resumable uploads.
//!
//! The cipher is AES-256 in counter mode with a 128-bit big-endian
//! counter.  Keystream positions are derived from the absolute byte
//! offset in the file, so any chunk can be encrypted independently of
//! the others and an interrupted upload can resume mid-file.

use vstd::prelude::*;
use vstd::arithmetic::div_mod::{
    lemma_fundamental_div_mod, lemma_fundamental_div_mod_converse, lemma_small_mod,
};
use aes::cipher::{KeyIvInit, StreamCipher};
use crate::errors::{UploadError, UploadResult};
use crate::b64::{base64_decode, base64_decoding};

verus! {

/// Encryption parameters as the remote session hands them out: key and
/// initial counter block, both base64-encoded.
pub struct EncryptMetadata {
    pub key_plain_text: String,
    pub iv: String,
}

/// Value of a byte string read as one big-endian unsigned integer.
pub open spec fn be_nat(s: Seq<u8>) -> nat
    decreases s.len(),
{
    if s.len() == 0 {
        0
    } else {
        (be_nat(s.drop_last()) * 256 + s.last()) as nat
    }
}

/// 256 to the n-th power: the weight of a byte n positions from the end.
pub open spec fn pow256(n: nat) -> nat
    decreases n,
{
    if n == 0 {
        1
    } else {
        256 * pow256((n - 1) as nat)
    }
}

pub proof fn lemma_pow256_pos(n: nat)
    ensures
        pow256(n) >= 1,
    decreases n,
{
    if n > 0 {
        lemma_pow256_pos((n - 1) as nat);
    }
}

/// A byte string's value is below 256^length.
pub proof fn lemma_be_nat_bound(s: Seq<u8>)
    ensures
        be_nat(s) < pow256(s.len()),
    decreases s.len(),
{
    if s.len() > 0 {
        lemma_be_nat_bound(s.drop_last());
    }
}

pub proof fn lemma_be_nat_singleton(b: u8)
    ensures
        be_nat(seq![b]) == b,
{
    assert(seq![b].drop_last() =~= Seq::<u8>::empty());
    assert(be_nat(Seq::<u8>::empty()) == 0);
}

/// Splitting a byte string splits its value by place value.
pub proof fn lemma_be_nat_split(s: Seq<u8>, k: int)
    requires
        0 <= k <= s.len(),
    ensures
        be_nat(s) == be_nat(s.take(k)) * pow256((s.len() - k) as nat) + be_nat(s.skip(k)),
    decreases s.len(),
{
    if k == s.len() {
        assert(s.take(k) =~= s);
        assert(s.skip(k) =~= Seq::<u8>::empty());
        assert(be_nat(Seq::<u8>::empty()) == 0);
        assert(pow256((s.len() - k) as nat) == 1);
        assert(be_nat(s.take(k)) * pow256((s.len() - k) as nat) == be_nat(s.take(k)))
            by (nonlinear_arith)
            requires pow256((s.len() - k) as nat) == 1,
        ;
    } else {
        let d = s.drop_last();
        lemma_be_nat_split(d, k);
        assert(d.take(k) =~= s.take(k));
        assert(d.skip(k) =~= s.skip(k).drop_last());
        assert(s.skip(k).len() > 0);
        assert(s.skip(k).last() == s.last());
        // be_nat(s) == (be_nat(d.take(k)) * pow256(d.len() - k) + be_nat(d.skip(k))) * 256 + s.last()
        assert(be_nat(s) == be_nat(d) * 256 + s.last());
        assert(be_nat(s.skip(k)) == be_nat(d.skip(k)) * 256 + s.last());
        assert(pow256((s.len() - k) as nat) == 256 * pow256((d.len() - k) as nat));
        assert(be_nat(d.take(k)) * pow256((d.len() - k) as nat) * 256
            == be_nat(s.take(k)) * pow256((s.len() - k) as nat)) by (nonlinear_arith)
            requires
                be_nat(d.take(k)) == be_nat(s.take(k)),
                pow256((s.len() - k) as nat) == 256 * pow256((d.len() - k) as nat),
                s.len() >= 1,
                d.len() == s.len() - 1,
        ;
        assert((be_nat(d.take(k)) * pow256((d.len() - k) as nat) + be_nat(d.skip(k))) * 256
            == be_nat(d.take(k)) * pow256((d.len() - k) as nat) * 256 + be_nat(d.skip(k)) * 256)
            by (nonlinear_arith);
    }
}

/// The keystream block that AES-256-CTR produces for a given key when the
/// 128-bit big-endian counter has the given value: the AES encryption of
/// the counter block.  Its value is fixed by key and counter alone.
pub uninterp spec fn aes256_keystream_block(key: Seq<u8>, counter: nat) -> Seq<u8>;

/// The keystream byte a cipher with this key and initial counter block
/// produces for absolute byte position `pos`.
pub open spec fn keystream_byte(key: Seq<u8>, iv: Seq<u8>, pos: int) -> u8 {
    aes256_keystream_block(
        key,
        ((be_nat(iv) + pos / 16) % pow256(16) as int) as nat,
    )[pos % 16]
}

/// The bytes of `data` encrypted at absolute byte offset `off`: each byte
/// XORed with the keystream byte for its absolute position.
pub open spec fn encrypted(data: Seq<u8>, key: Seq<u8>, iv: Seq<u8>, off: int) -> Seq<u8> {
    Seq::new(data.len(), |i: int| data[i] ^ keystream_byte(key, iv, off + i))
}

/// Relies on `ctr::Ctr128BE<aes::Aes256>`, built through
/// `cipher::KeyIvInit::new_from_slices` and driven by
/// `cipher::StreamCipher::apply_keystream`: the data is XORed in place
/// with the AES-256 encryptions of successive counter blocks, where the
/// whole 16-byte block is a big-endian counter that starts at the value
/// of `counter` and increases by one per block, wrapping at 2^128.
#[verifier::external_body]
fn xor_ctr_keystream(key: &Vec<u8>, counter: &Vec<u8>, data: &mut Vec<u8>)
    requires
        key@.len() == 32,
        counter@.len() == 16,
    ensures
        final(data)@.len() == old(data)@.len(),
        forall|i: int| 0 <= i < old(data)@.len() ==>
            final(data)@[i] == (old(data)@[i] ^ aes256_keystream_block(
                key@,
                ((be_nat(counter@) + i / 16) % pow256(16) as int) as nat,
            )[i % 16]),
{
    let mut cipher: ctr::Ctr128BE<aes::Aes256> =
        KeyIvInit::new_from_slices(key.as_slice(), counter.as_slice()).unwrap();
    cipher.apply_keystream(data.as_mut_slice());
}

/// Shifting a sum into the modulus: adding to a reduced value is the same
/// as adding to the original value, modulo m.
proof fn lemma_mod_add_left(x: int, t: int, m: int)
    requires
        m > 0,
    ensures
        ((x % m) + t) % m == (x + t) % m,
{
    vstd::arithmetic::div_mod::lemma_add_mod_noop(x, t, m);
    vstd::arithmetic::div_mod::lemma_add_mod_noop(x % m, t, m);
    vstd::arithmetic::div_mod::lemma_mod_twice(x, m);
}

/// Encryption configuration: an AES-256 key and the initial counter
/// block ("IV") from which absolute block counters are derived.
#[derive(Clone)]
pub struct EncryptionConfig {
    key: Vec<u8>,
    iv: Vec<u8>,
}

impl EncryptionConfig {
    /// The key bytes, as an abstract sequence.
    pub closed spec fn key_bytes(&self) -> Seq<u8> {
        self.key@
    }

    /// The initial counter block bytes, as an abstract sequence.
    pub closed spec fn iv_bytes(&self) -> Seq<u8> {
        self.iv@
    }

    /// Well-formedness: a 32-byte key and a 16-byte counter block.
    pub open spec fn wf(&self) -> bool {
        self.key_bytes().len() == 32 && self.iv_bytes().len() == 16
    }

    /// Build a configuration from raw key and IV bytes.
    pub fn from_parts(key: Vec<u8>, iv: Vec<u8>) -> (r: UploadResult<Self>)
        ensures
            r is Ok <==> (key@.len() == 32 && iv@.len() == 16),
            r matches Ok(c) ==> c.wf() && c.key_bytes() == key@ && c.iv_bytes() == iv@,
            r matches Err(e) ==> e is EncryptionError,
    {
        if key.len() != 32 {
            return Err(UploadError::EncryptionError(invalid_key_message()));
        }
        if iv.len() != 16 {
            return Err(UploadError::EncryptionError(invalid_iv_message()));
        }
        Ok(EncryptionConfig { key, iv })
    }

    /// Build a configuration from base64-encoded session metadata.
    pub fn from_metadata(metadata: &EncryptMetadata) -> (r: UploadResult<Self>)
        ensures
            r is Ok <==> ((base64_decoding(metadata.key_plain_text@) matches Some(k)
                    && k.len() == 32)
                && (base64_decoding(metadata.iv@) matches Some(v) && v.len() == 16)),
            r matches Ok(c) ==> c.wf()
                && base64_decoding(metadata.key_plain_text@) == Some(c.key_bytes())
                && base64_decoding(metadata.iv@) == Some(c.iv_bytes()),
            r matches Err(e) ==> e is EncryptionError,
    {
        let key_bytes = match base64_decode(metadata.key_plain_text.as_str()) {
            Some(k) => k,
            None => {
                return Err(UploadError::EncryptionError(
                    "invalid key: not base64".to_owned(),
                ));
            },
        };
        let iv_bytes = match base64_decode(metadata.iv.as_str()) {
            Some(v) => v,
            None => {
                return Err(UploadError::EncryptionError(
                    "invalid iv: not base64".to_owned(),
                ));
            },
        };
        Self::from_parts(key_bytes, iv_bytes)
    }

    /// Add `blocks` to a 16-byte big-endian counter, wrapping at 2^128.
    pub fn increment_counter(counter: &mut Vec<u8>, blocks: u64)
        requires
            old(counter)@.len() == 16,
        ensures
            final(counter)@.len() == 16,
            be_nat(final(counter)@) as int
                == (be_nat(old(counter)@) + blocks) as int % pow256(16) as int,
    {
        let ghost orig = counter@;
        proof {
            assert(counter@.skip(16) =~= Seq::<u8>::empty());
            assert(orig.skip(16) =~= Seq::<u8>::empty());
            assert(be_nat(Seq::<u8>::empty()) == 0);
            assert(pow256(0) == 1);
            assert(blocks * pow256((16 - 16) as nat) == blocks) by (nonlinear_arith)
                requires pow256((16 - 16) as nat) == 1,
            ;
        }
        let mut i: usize = 16;
        let mut carry: u64 = blocks;
        while i > 0 && carry != 0
            invariant
                counter@.len() == 16,
                orig.len() == 16,
                i <= 16,
                forall|j: int| 0 <= j < i ==> counter@[j] == orig[j],
                be_nat(counter@.skip(i as int)) + carry * pow256((16 - i) as nat)
                    == be_nat(orig.skip(i as int)) + blocks,
            decreases i,
        {
            i = i - 1;
            let ghost pre = counter@;
            let ghost c0 = carry as int;
            assert(counter@[i as int] == orig[i as int]);
            assert((carry & 0xFF) < 256 && (carry & 0xFF) == carry % 256) by (bit_vector);
            let sum: u64 = counter[i] as u64 + (carry & 0xFF);
            counter[i] = (sum & 0xFF) as u8;
            assert((sum & 0xFF) == sum % 256 && (sum >> 8) == sum / 256) by (bit_vector);
            assert((carry >> 8) == carry / 256 && (carry >> 8) <= carry) by (bit_vector);
            carry = (carry >> 8) + (sum >> 8);
            proof {
                let ii = i as int;
                let p = pow256((15 - ii) as nat) as int;
                let s = sum as int;
                lemma_pow256_pos((15 - ii) as nat);
                // Split the three suffixes at their first byte.
                lemma_be_nat_split(counter@.skip(ii), 1);
                assert(counter@.skip(ii).skip(1) =~= pre.skip(ii + 1));
                assert(counter@.skip(ii).take(1) =~= seq![counter@[ii]]);
                lemma_be_nat_singleton(counter@[ii]);
                lemma_be_nat_split(pre.skip(ii), 1);
                assert(pre.skip(ii).skip(1) =~= pre.skip(ii + 1));
                assert(pre.skip(ii).take(1) =~= seq![pre[ii]]);
                lemma_be_nat_singleton(pre[ii]);
                lemma_be_nat_split(orig.skip(ii), 1);
                assert(orig.skip(ii).skip(1) =~= orig.skip(ii + 1));
                assert(orig.skip(ii).take(1) =~= seq![orig[ii]]);
                lemma_be_nat_singleton(orig[ii]);
                lemma_fundamental_div_mod(s, 256);
                lemma_fundamental_div_mod(c0, 256);
                let a = be_nat(pre.skip(ii + 1)) as int;
                let b = be_nat(orig.skip(ii + 1)) as int;
                // The invariant held at entry for index ii + 1.
                assert(a + c0 * p == b + blocks);
                assert(be_nat(counter@.skip(ii)) == (s % 256) * p + a);
                assert(be_nat(orig.skip(ii)) == orig[ii] * p + b);
                assert(pow256((16 - ii) as nat) == 256 * p);
                assert((s % 256) * p + a + (c0 / 256 + s / 256) * (256 * p)
                    == orig[ii] * p + b + blocks) by (nonlinear_arith)
                    requires
                        a + c0 * p == b + blocks,
                        s == orig[ii] + c0 % 256,
                        s % 256 + 256 * (s / 256) == s,
                        c0 % 256 + 256 * (c0 / 256) == c0,
                        p >= 1,
                ;
                assert(carry as int == c0 / 256 + s / 256);
                assert(be_nat(counter@.skip(ii)) + carry * pow256((16 - ii) as nat)
                    == be_nat(orig.skip(ii)) + blocks);
            }
        }
        proof {
            if carry == 0 {
                let ii = i as int;
                lemma_be_nat_split(counter@, ii);
                lemma_be_nat_split(orig, ii);
                assert(counter@.take(ii) =~= orig.take(ii));
                assert(be_nat(counter@) == be_nat(orig) + blocks);
                lemma_be_nat_bound(counter@);
                lemma_small_mod((be_nat(orig) + blocks) as nat, pow256(16));
            } else {
                assert(i == 0);
                assert(counter@.skip(0) =~= counter@);
                assert(orig.skip(0) =~= orig);
                lemma_be_nat_bound(counter@);
                lemma_pow256_pos(16);
                lemma_fundamental_div_mod_converse(
                    (be_nat(orig) + blocks) as int,
                    pow256(16) as int,
                    carry as int,
                    be_nat(counter@) as int,
                );
            }
        }
    }

    /// Encrypt `data` in place as the bytes standing at absolute file
    /// offset `byte_offset`: each byte is XORed with the keystream byte
    /// for its absolute position, whatever the block alignment.
    pub fn encrypt_at_offset(&self, data: &mut Vec<u8>, byte_offset: u64)
        requires
            self.wf(),
        ensures
            final(data)@ == encrypted(
                old(data)@, self.key_bytes(), self.iv_bytes(), byte_offset as int),
    {
        let ghost orig = data@;
        let ghost keyv = self.key_bytes();
        let ghost ivv = self.iv_bytes();
        let ghost off = byte_offset as int;
        let ghost m128 = pow256(16) as int;
        let block_offset: u64 = byte_offset / 16;
        let offset_in_block: usize = (byte_offset % 16) as usize;
        let ghost bo = block_offset as int;
        let ghost ob = offset_in_block as int;
        proof {
            lemma_pow256_pos(16);
            lemma_fundamental_div_mod(off, 16);
            assert(off == 16 * bo + ob);
        }
        let mut counter: Vec<u8> = copy_bytes(&self.iv);
        Self::increment_counter(&mut counter, block_offset);
        proof {
            lemma_be_nat_bound(counter@);
            lemma_small_mod(be_nat(counter@), pow256(16));
            assert(be_nat(counter@) as int == (be_nat(ivv) + bo) % m128);
        }
        if offset_in_block == 0 {
            xor_ctr_keystream(&self.key, &counter, data);
            proof {
                assert forall|i: int| 0 <= i < orig.len() implies
                    data@[i] == (orig[i] ^ keystream_byte(keyv, ivv, off + i)) by {
                    lemma_mod_bounds(i, 16);
                    lemma_fundamental_div_mod_converse(off + i, 16, bo + i / 16, i % 16);
                    lemma_mod_add_left(be_nat(ivv) + bo, i / 16, m128);
                }
                assert(data@ =~= encrypted(orig, keyv, ivv, off));
            }
        } else {
            let first: usize = 16 - offset_in_block;
            let m: usize = if data.len() < first { data.len() } else { first };
            // Round the start down to the block boundary: encrypt a padded
            // block and keep the bytes that belong to the data.
            let mut temp: Vec<u8> = zero_block();
            let mut j: usize = 0;
            while j < m
                invariant
                    temp@.len() == 16,
                    j <= m,
                    m <= data@.len(),
                    m + offset_in_block <= 16,
                    data@ == orig,
                    forall|t: int| 0 <= t < j ==>
                        temp@[offset_in_block + t] == orig[t],
                decreases m - j,
            {
                temp[offset_in_block + j] = data[j];
                j = j + 1;
            }
            let ghost temp0 = temp@;
            xor_ctr_keystream(&self.key, &counter, &mut temp);
            j = 0;
            while j < m
                invariant
                    data@.len() == orig.len(),
                    temp@.len() == 16,
                    j <= m,
                    m <= data@.len(),
                    m + offset_in_block <= 16,
                    m + offset_in_block == 16 || m == data@.len(),
                    forall|t: int| 0 <= t < j ==> data@[t] == temp@[offset_in_block + t],
                    forall|t: int| j <= t < data@.len() ==> data@[t] == orig[t],
                decreases m - j,
            {
                data[j] = temp[offset_in_block + j];
                j = j + 1;
            }
            proof {
                assert forall|t: int| 0 <= t < m implies
                    data@[t] == (orig[t] ^ keystream_byte(keyv, ivv, off + t)) by {
                    assert(temp0[ob + t] == orig[t]);
                    assert((ob + t) / 16 == 0 && (ob + t) % 16 == ob + t) by {
                        lemma_fundamental_div_mod_converse(ob + t, 16, 0, ob + t);
                    }
                    lemma_fundamental_div_mod_converse(off + t, 16, bo, ob + t);
                    lemma_mod_add_left(be_nat(ivv) + bo, 0, m128);
                    lemma_mod_twice_self(be_nat(counter@) as int, m128);
                }
            }
            if data.len() > m {
                // The rest starts exactly at the next block boundary.
                let mut tail: Vec<u8> = Vec::new();
                let mut t: usize = m;
                while t < data.len()
                    invariant
                        m <= t <= data@.len(),
                        data@.len() == orig.len(),
                        tail@.len() == t - m,
                        forall|u: int| m <= u < t ==> tail@[u - m] == data@[u],
                        forall|u: int| m <= u < data@.len() ==> data@[u] == orig[u],
                    decreases data@.len() - t,
                {
                    tail.push(data[t]);
                    t = t + 1;
                }
                let ghost datamid = data@;
                let ghost tail0 = tail@;
                Self::increment_counter(&mut counter, 1);
                proof {
                    lemma_mod_add_left((be_nat(ivv) + bo) % m128, 1, m128);
                    lemma_mod_add_left(be_nat(ivv) + bo, 1, m128);
                    assert(be_nat(counter@) as int == (be_nat(ivv) + bo + 1) % m128);
                }
                xor_ctr_keystream(&self.key, &counter, &mut tail);
                t = 0;
                while t < tail.len()
                    invariant
                        data@.len() == orig.len(),
                        data@.len() <= usize::MAX,
                        m <= data@.len(),
                        m + tail@.len() == data@.len(),
                        t <= tail@.len(),
                        forall|u: int| 0 <= u < m ==> data@[u] == datamid[u],
                        forall|u: int| 0 <= u < t ==> #[trigger] data@[m + u] == tail@[u],
                        forall|u: int| t <= u < tail@.len() ==> #[trigger] data@[m + u] == datamid[m + u],
                    decreases tail@.len() - t,
                {
                    data[m + t] = tail[t];
                    t = t + 1;
                }
                proof {
                    assert(m == first);
                    assert(ob + m == 16);
                    assert forall|u: int| 0 <= u < tail0.len() implies
                        #[trigger] data@[m + u]
                            == (orig[m + u] ^ keystream_byte(keyv, ivv, off + m + u)) by {
                        assert(tail0[u] == orig[m + u]);
                        lemma_mod_bounds(u, 16);
                        lemma_fundamental_div_mod_converse(
                            off + m + u, 16, bo + 1 + u / 16, u % 16);
                        lemma_mod_add_left(be_nat(ivv) + bo + 1, u / 16, m128);
                    }
                    assert forall|i: int| 0 <= i < data@.len() implies
                        #[trigger] data@[i]
                            == (orig[i] ^ keystream_byte(keyv, ivv, off + i)) by {
                        if i < m {
                            assert(data@[i] == datamid[i]);
                            assert(datamid[i]
                                == (orig[i] ^ keystream_byte(keyv, ivv, off + i)));
                        } else {
                            let u = i - m;
                            assert(data@[m + u]
                                == (orig[m + u] ^ keystream_byte(keyv, ivv, off + m + u)));
                        }
                    }
                }
            }
            proof {
                assert(data@ =~= encrypted(orig, keyv, ivv, off));
            }
        }
    }

    /// Encrypt a copy of `data` as the bytes at absolute offset
    /// `byte_offset` and return it.
    pub fn encrypt(&self, data: &Vec<u8>, byte_offset: u64) -> (r: Vec<u8>)
        requires
            self.wf(),
        ensures
            r@ == encrypted(data@, self.key_bytes(), self.iv_bytes(), byte_offset as int),
    {
        let mut out = copy_bytes(data);
        self.encrypt_at_offset(&mut out, byte_offset);
        out
    }
}

/// A non-negative number divided by a positive one leaves a remainder
/// inside the divisor's range.
proof fn lemma_mod_bounds(x: int, m: int)
    requires
        0 <= x,
        0 < m,
    ensures
        0 <= x % m < m,
        x == m * (x / m) + x % m,
        0 <= x / m,
{
    lemma_fundamental_div_mod(x, m);
    vstd::arithmetic::div_mod::lemma_mod_bound(x, m);
    vstd::arithmetic::div_mod::lemma_div_pos_is_pos(x, m);
}

/// Reducing twice changes nothing.
proof fn lemma_mod_twice_self(x: int, m: int)
    requires
        m > 0,
    ensures
        (x % m) % m == x % m,
{
    vstd::arithmetic::div_mod::lemma_mod_twice(x, m);
}

/// Byte-for-byte copy of a byte vector.
fn copy_bytes(src: &Vec<u8>) -> (r: Vec<u8>)
    ensures
        r@ == src@,
{
    let mut r: Vec<u8> = Vec::new();
    let mut i: usize = 0;
    while i < src.len()
        invariant
            i <= src@.len(),
            r@ == src@.take(i as int),
        decreases src@.len() - i,
    {
        r.push(src[i]);
        proof {
            assert(r@ =~= src@.take(i + 1));
        }
        i = i + 1;
    }
    proof {
        assert(src@.take(src@.len() as int) =~= src@);
    }
    r
}

/// A block of sixteen zero bytes.
fn zero_block() -> (r: Vec<u8>)
    ensures
        r@.len() == 16,
        forall|i: int| 0 <= i < 16 ==> r@[i] == 0u8,
{
    let mut r: Vec<u8> = Vec::new();
    let mut i: usize = 0;
    while i < 16
        invariant
            i <= 16,
            r@.len() == i,
            forall|j: int| 0 <= j < i ==> r@[j] == 0u8,
        decreases 16 - i,
    {
        r.push(0u8);
        i = i + 1;
    }
    r
}

/// Encrypting twice with the same key, IV and offset restores the
/// original bytes: the keystream depends only on key, IV and absolute
/// position, and XOR is an involution.
pub proof fn lemma_encrypt_round_trip(data: Seq<u8>, key: Seq<u8>, iv: Seq<u8>, off: int)
    ensures
        encrypted(encrypted(data, key, iv, off), key, iv, off) == data,
{
    let once = encrypted(data, key, iv, off);
    let twice = encrypted(once, key, iv, off);
    assert forall|i: int| 0 <= i < data.len() implies twice[i] == data[i] by {
        let k = keystream_byte(key, iv, off + i);
        let b = data[i];
        assert((b ^ k) ^ k == b) by (bit_vector);
    }
    assert(twice =~= data);
}

/// Splitting the data at any chunk boundary and encrypting each part at
/// its own absolute offset gives the same bytes as encrypting the whole:
/// chunks can be encrypted independently.
pub proof fn lemma_encrypt_chunk_split(
    data: Seq<u8>, key: Seq<u8>, iv: Seq<u8>, off: int, k: int,
)
    requires
        0 <= k <= data.len(),
    ensures
        encrypted(data, key, iv, off)
            == encrypted(data.take(k), key, iv, off)
               + encrypted(data.skip(k), key, iv, off + k),
{
    assert(encrypted(data, key, iv, off)
        =~= encrypted(data.take(k), key, iv, off)
            + encrypted(data.skip(k), key, iv, off + k));
}

/// A reader adapter that encrypts bytes on the fly, tracking the absolute
/// position the next bytes will stand at.  The inner value is whatever
/// source the caller reads from; the caller hands each freshly read
/// buffer to [`EncryptedReader::encrypt_next`].
pub struct EncryptedReader<R> {
    inner: R,
    config: EncryptionConfig,
    position: u64,
}

impl<R> EncryptedReader<R> {
    /// The absolute byte position of the next bytes to encrypt.
    pub closed spec fn spec_position(&self) -> u64 {
        self.position
    }

    /// The configuration the reader encrypts with.
    pub closed spec fn spec_config(&self) -> EncryptionConfig {
        self.config
    }

    pub open spec fn wf(&self) -> bool {
        self.spec_config().wf()
    }

    /// Wrap a source, starting at the beginning of the file.
    pub fn new(reader: R, config: EncryptionConfig) -> (r: Self)
        ensures
            r.spec_position() == 0,
            r.spec_config() == config,
    {
        EncryptedReader { inner: reader, config, position: 0 }
    }

    /// Wrap a source whose next byte stands at `offset` in the file.
    pub fn with_offset(reader: R, config: EncryptionConfig, offset: u64) -> (r: Self)
        ensures
            r.spec_position() == offset,
            r.spec_config() == config,
    {
        EncryptedReader { inner: reader, config, position: offset }
    }

    /// Give the wrapped source back to the caller.
    pub fn into_inner(self) -> R {
        self.inner
    }

    /// Encrypt bytes just read from the source, and advance the position
    /// past them.
    pub fn encrypt_next(&mut self, buf: &mut Vec<u8>)
        requires
            old(self).wf(),
            old(self).spec_position() + old(buf)@.len() <= u64::MAX,
        ensures
            final(self).wf(),
            final(self).spec_config() == old(self).spec_config(),
            final(self).spec_position() == old(self).spec_position() + old(buf)@.len(),
            final(buf)@ == encrypted(
                old(buf)@,
                old(self).spec_config().key_bytes(),
                old(self).spec_config().iv_bytes(),
                old(self).spec_position() as int,
            ),
    {
        self.config.encrypt_at_offset(buf, self.position);
        self.position = self.position + buf.len() as u64;
    }
}

fn invalid_key_message() -> String {
    "invalid key length: expected 32 bytes".to_owned()
}

fn invalid_iv_message() -> String {
    "invalid iv length: expected 16 bytes".to_owned()
}

} // verus!
