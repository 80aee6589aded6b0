//! Byte strings, and the one-byte encoding of a flag.

use vstd::prelude::*;

verus! {

/// The encoding of a flag: one byte, 1 for `true` and 0 for `false`.
pub open spec fn flag_bytes(flag: bool) -> Seq<u8> {
    seq![if flag { 1u8 } else { 0u8 }]
}

/// The flag that a byte string stands for: `true` exactly when it is the
/// single byte 1.
pub open spec fn flag_of(bytes: Seq<u8>) -> bool {
    bytes == seq![1u8]
}

/// Decoding undoes encoding.
pub proof fn lemma_flag_round_trip(flag: bool)
    ensures
        flag_of(flag_bytes(flag)) == flag,
{
    if flag {
        assert(flag_bytes(flag) =~= seq![1u8]);
    } else {
        assert(flag_bytes(flag)[0] != seq![1u8][0]);
    }
}

/// Whether two byte strings are the same.
pub fn same_bytes(left: &[u8], right: &[u8]) -> (same: bool)
    ensures
        same == (left@ == right@),
{
    if left.len() != right.len() {
        return false;
    }
    let mut i: usize = 0;
    while i < left.len()
        invariant
            i <= left.len(),
            left.len() == right.len(),
            forall|j: int| 0 <= j < i ==> left@[j] == right@[j],
        decreases left.len() - i,
    {
        if left[i] != right[i] {
            return false;
        }
        i += 1;
    }
    assert(left@ =~= right@);
    true
}

/// A fresh vector with the same bytes.
pub fn copy_bytes(bytes: &[u8]) -> (copy: Vec<u8>)
    ensures
        copy@ == bytes@,
{
    let mut copy: Vec<u8> = Vec::new();
    let mut i: usize = 0;
    while i < bytes.len()
        invariant
            i <= bytes.len(),
            copy@ == bytes@.subrange(0, i as int),
        decreases bytes.len() - i,
    {
        copy.push(bytes[i]);
        assert(copy@ =~= bytes@.subrange(0, i + 1));
        i += 1;
    }
    assert(copy@ =~= bytes@);
    copy
}

/// Encodes a flag.
pub fn encode_flag(flag: bool) -> (bytes: Vec<u8>)
    ensures
        bytes@ == flag_bytes(flag),
{
    let mut bytes: Vec<u8> = Vec::new();
    bytes.push(if flag { 1u8 } else { 0u8 });
    assert(bytes@ =~= flag_bytes(flag));
    bytes
}

/// Decodes a flag: anything but the single byte 1 reads as `false`.
pub fn decode_flag(bytes: &[u8]) -> (flag: bool)
    ensures
        flag == flag_of(bytes@),
{
    if bytes.len() == 1 && bytes[0] == 1 {
        assert(bytes@ =~= seq![1u8]);
        true
    } else {
        if bytes.len() == 1 {
            assert(bytes@[0] != seq![1u8][0]);
        } else {
            assert(bytes@.len() != seq![1u8].len());
        }
        false
    }
}

} // verus!
