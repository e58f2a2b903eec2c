//! A compact boolean set stored as a bit array, with base64 transport.

use vstd::prelude::*;
use crate::b64::{base64_decode, base64_decoding, base64_encode, base64_encoding};

verus! {

/// The bit at `index`: bits beyond the stored bytes read as clear.
pub open spec fn spec_bit(bytes: Seq<u8>, index: int) -> bool {
    &&& 0 <= index
    &&& index / 8 < bytes.len()
    &&& bytes[index / 8] & (1u8 << (index % 8) as u8) != 0
}

/// The byte at `i`, with bytes beyond the end reading as zero.
pub open spec fn spec_byte_or_zero(bytes: Seq<u8>, i: int) -> u8 {
    if 0 <= i < bytes.len() {
        bytes[i]
    } else {
        0
    }
}

/// Bitwise AND of two byte strings, padded to the longer length.
pub open spec fn spec_and_bytes(a: Seq<u8>, b: Seq<u8>) -> Seq<u8> {
    Seq::new(
        if a.len() < b.len() { b.len() } else { a.len() },
        |i: int| spec_byte_or_zero(a, i) & spec_byte_or_zero(b, i),
    )
}

/// Bitwise OR of two byte strings, padded to the longer length.
pub open spec fn spec_or_bytes(a: Seq<u8>, b: Seq<u8>) -> Seq<u8> {
    Seq::new(
        if a.len() < b.len() { b.len() } else { a.len() },
        |i: int| spec_byte_or_zero(a, i) | spec_byte_or_zero(b, i),
    )
}

/// A bit is set in an AND exactly when it is set in both operands.
pub proof fn lemma_and_bit(a: Seq<u8>, b: Seq<u8>, index: int)
    requires
        0 <= index,
        index / 8 < spec_and_bytes(a, b).len(),
    ensures
        spec_bit(spec_and_bytes(a, b), index) == (spec_bit(a, index) && spec_bit(b, index)),
{
    let i = index / 8;
    let k = (index % 8) as u8;
    let x = spec_byte_or_zero(a, i);
    let y = spec_byte_or_zero(b, i);
    vstd::arithmetic::div_mod::lemma_mod_bound(index, 8);
    vstd::arithmetic::div_mod::lemma_div_pos_is_pos(index, 8);
    assert(((x & y) & (1u8 << k) != 0) == (x & (1u8 << k) != 0 && y & (1u8 << k) != 0))
        by (bit_vector)
        requires k < 8,
    ;
    if !(i < a.len()) {
        assert(x == 0);
        assert(0u8 & (1u8 << k) == 0) by (bit_vector);
    }
    if !(i < b.len()) {
        assert(y == 0);
        assert(0u8 & (1u8 << k) == 0) by (bit_vector);
    }
}

/// A bit is set in an OR exactly when it is set in either operand.
pub proof fn lemma_or_bit(a: Seq<u8>, b: Seq<u8>, index: int)
    requires
        0 <= index,
        index / 8 < spec_or_bytes(a, b).len(),
    ensures
        spec_bit(spec_or_bytes(a, b), index) == (spec_bit(a, index) || spec_bit(b, index)),
{
    let i = index / 8;
    let k = (index % 8) as u8;
    let x = spec_byte_or_zero(a, i);
    let y = spec_byte_or_zero(b, i);
    vstd::arithmetic::div_mod::lemma_mod_bound(index, 8);
    vstd::arithmetic::div_mod::lemma_div_pos_is_pos(index, 8);
    assert(((x | y) & (1u8 << k) != 0) == (x & (1u8 << k) != 0 || y & (1u8 << k) != 0))
        by (bit_vector)
        requires k < 8,
    ;
    if !(i < a.len()) {
        assert(x == 0);
        assert(0u8 & (1u8 << k) == 0) by (bit_vector);
    }
    if !(i < b.len()) {
        assert(y == 0);
        assert(0u8 & (1u8 << k) == 0) by (bit_vector);
    }
}

/// A compact boolean set stored as a bit array.
#[derive(Debug)]
pub struct Boolset {
    data: Vec<u8>,
}

impl Boolset {
    /// The stored bytes.
    pub closed spec fn bytes(&self) -> Seq<u8> {
        self.data@
    }

    /// Create a new empty set.
    pub fn new() -> (r: Self)
        ensures
            r.bytes() == Seq::<u8>::empty(),
    {
        let data: Vec<u8> = Vec::new();
        proof {
            assert(data@ =~= Seq::<u8>::empty());
        }
        Boolset { data }
    }

    /// Create a set from raw bytes.
    pub fn from_raw(data: Vec<u8>) -> (r: Self)
        ensures
            r.bytes() == data@,
    {
        Boolset { data }
    }

    /// Create a set from a base64-encoded string.
    pub fn from_base64(encoded: &str) -> (r: Option<Self>)
        ensures
            match r {
                Option::Some(s) => base64_decoding(encoded@) == Some(s.bytes()),
                Option::None => base64_decoding(encoded@) is None,
            },
    {
        match base64_decode(encoded) {
            Some(data) => Some(Boolset { data }),
            None => None,
        }
    }

    /// Create a set from an optional base64 string, falling back to raw
    /// bytes, or empty: a string that fails to decode gives the empty
    /// set.
    pub fn from_data(base64_str: Option<&str>, raw: Option<Vec<u8>>) -> (r: Self)
        ensures
            match base64_str {
                Option::Some(s) => match base64_decoding(s@) {
                    Option::Some(bytes) => r.bytes() == bytes,
                    Option::None => r.bytes() == Seq::<u8>::empty(),
                },
                Option::None => match raw {
                    Option::Some(data) => r.bytes() == data@,
                    Option::None => r.bytes() == Seq::<u8>::empty(),
                },
            },
    {
        match base64_str {
            Some(encoded) => match Boolset::from_base64(encoded) {
                Some(s) => s,
                None => Boolset::new(),
            },
            None => match raw {
                Some(data) => Boolset::from_raw(data),
                None => Boolset::new(),
            },
        }
    }

    /// Check whether the bit at `index` is enabled.
    pub fn enabled(&self, index: usize) -> (r: bool)
        ensures
            r == spec_bit(self.bytes(), index as int),
    {
        let byte_index = index / 8;
        if byte_index >= self.data.len() {
            return false;
        }
        let bit: u32 = (index % 8) as u32;
        proof {
            vstd::arithmetic::div_mod::lemma_mod_bound(index as int, 8);
        }
        (self.data[byte_index] & (1u8 << bit)) != 0
    }

    /// Bitwise AND with another set, padded to the longer length.
    pub fn and(&self, other: &Boolset) -> (r: Boolset)
        ensures
            r.bytes() == spec_and_bytes(self.bytes(), other.bytes()),
    {
        let length = if self.data.len() < other.data.len() {
            other.data.len()
        } else {
            self.data.len()
        };
        let mut result: Vec<u8> = Vec::new();
        let mut i: usize = 0;
        while i < length
            invariant
                i <= length,
                length == spec_and_bytes(self.bytes(), other.bytes()).len(),
                result@.len() == i,
                forall|j: int| 0 <= j < i
                    ==> result@[j] == spec_and_bytes(self.bytes(), other.bytes())[j],
            decreases length - i,
        {
            let a = if i < self.data.len() { self.data[i] } else { 0 };
            let b = if i < other.data.len() { other.data[i] } else { 0 };
            result.push(a & b);
            i = i + 1;
        }
        proof {
            assert(result@ =~= spec_and_bytes(self.bytes(), other.bytes()));
        }
        Boolset { data: result }
    }

    /// Bitwise OR with another set, padded to the longer length.
    pub fn or(&self, other: &Boolset) -> (r: Boolset)
        ensures
            r.bytes() == spec_or_bytes(self.bytes(), other.bytes()),
    {
        let length = if self.data.len() < other.data.len() {
            other.data.len()
        } else {
            self.data.len()
        };
        let mut result: Vec<u8> = Vec::new();
        let mut i: usize = 0;
        while i < length
            invariant
                i <= length,
                length == spec_or_bytes(self.bytes(), other.bytes()).len(),
                result@.len() == i,
                forall|j: int| 0 <= j < i
                    ==> result@[j] == spec_or_bytes(self.bytes(), other.bytes())[j],
            decreases length - i,
        {
            let a = if i < self.data.len() { self.data[i] } else { 0 };
            let b = if i < other.data.len() { other.data[i] } else { 0 };
            result.push(a | b);
            i = i + 1;
        }
        proof {
            assert(result@ =~= spec_or_bytes(self.bytes(), other.bytes()));
        }
        Boolset { data: result }
    }

    /// The bytes after setting or clearing one bit, the array grown
    /// with zero bytes as far as needed.
    pub open spec fn spec_set_bytes(bytes: Seq<u8>, index: int, enabled: bool) -> Seq<u8> {
        let grown = if index / 8 < bytes.len() {
            bytes
        } else {
            bytes + Seq::new((index / 8 + 1 - bytes.len()) as nat, |j: int| 0u8)
        };
        let mask = 1u8 << (index % 8) as u8;
        grown.update(
            index / 8,
            if enabled { grown[index / 8] | mask } else { grown[index / 8] & !mask },
        )
    }

    /// Set or clear the bit at `index`, expanding the array if needed.
    pub fn set(&mut self, index: usize, enabled: bool)
        requires
            index / 8 < usize::MAX,
        ensures
            final(self).bytes() == Self::spec_set_bytes(old(self).bytes(), index as int, enabled),
    {
        let ghost bytes0 = self.data@;
        let byte_index = index / 8;
        if byte_index >= self.data.len() {
            let mut grow = self.data.len();
            while grow < byte_index + 1
                invariant
                    byte_index < usize::MAX,
                    bytes0.len() <= grow,
                    grow == self.data@.len(),
                    grow <= byte_index + 1,
                    self.data@.take(bytes0.len() as int) == bytes0,
                    forall|j: int| bytes0.len() <= j < grow ==> self.data@[j] == 0u8,
                decreases byte_index + 1 - grow,
            {
                self.data.push(0);
                proof {
                    assert(self.data@.take(bytes0.len() as int) =~= bytes0);
                }
                grow = grow + 1;
            }
        }
        let bit: u32 = (index % 8) as u32;
        proof {
            vstd::arithmetic::div_mod::lemma_mod_bound(index as int, 8);
        }
        let mask: u8 = 1u8 << bit;
        let b = self.data[byte_index];
        let nb = if enabled { b | mask } else { b & !mask };
        let ghost predata = self.data@;
        self.data[byte_index] = nb;
        proof {
            let ii = index as int;
            let grown = if ii / 8 < bytes0.len() {
                bytes0
            } else {
                bytes0 + Seq::new((ii / 8 + 1 - bytes0.len()) as nat, |j: int| 0u8)
            };
            assert(predata =~= grown) by {
                if !(byte_index < bytes0.len()) {
                    assert forall|j: int| 0 <= j < predata.len()
                        implies predata[j] == grown[j] by {
                        if j < bytes0.len() {
                            assert(predata.take(bytes0.len() as int)[j] == predata[j]);
                        }
                    }
                }
            }
            assert(self.data@ =~= Self::spec_set_bytes(bytes0, ii, enabled));
        }
    }

    /// Set several bits at once.
    pub fn sets(&mut self, values: &Vec<(usize, bool)>)
        requires
            forall|i: int| 0 <= i < values@.len()
                ==> (#[trigger] values@[i]).0 / 8 < usize::MAX,
        ensures
            final(self).bytes() == spec_sets_bytes(old(self).bytes(), values@),
    {
        let ghost all = values@;
        let mut i: usize = 0;
        while i < values.len()
            invariant
                i <= all.len(),
                all == values@,
                forall|k: int| 0 <= k < all.len()
                    ==> (#[trigger] all[k]).0 / 8 < usize::MAX,
                self.bytes() == spec_sets_bytes(old(self).bytes(), all.take(i as int)),
            decreases all.len() - i,
        {
            let (index, enabled) = values[i];
            self.set(index, enabled);
            proof {
                let cur = all.take(i + 1);
                assert(cur.drop_last() =~= all.take(i as int));
                assert(cur.last() == all[i as int]);
            }
            i = i + 1;
        }
        proof {
            assert(all.take(all.len() as int) =~= all);
        }
    }

    /// Convert to a base64-encoded string.
    pub fn to_base64(&self) -> (r: String)
        ensures
            r@ == base64_encoding(self.bytes()),
    {
        base64_encode(&self.data)
    }

    /// The underlying byte data.
    pub fn as_bytes(&self) -> (r: &[u8])
        ensures
            r@ == self.bytes(),
    {
        self.data.as_slice()
    }
}

/// The bytes after applying a list of (index, enabled) updates in
/// order.
pub open spec fn spec_sets_bytes(bytes: Seq<u8>, values: Seq<(usize, bool)>) -> Seq<u8>
    decreases values.len(),
{
    if values.len() == 0 {
        bytes
    } else {
        Boolset::spec_set_bytes(
            spec_sets_bytes(bytes, values.drop_last()),
            values.last().0 as int,
            values.last().1,
        )
    }
}

} // verus!
