//! The Fowler-Noll-Vo hash, by which a Prometheus registry tells families and
//! series apart.
use vstd::prelude::*;
use vstd::utf8::{encode_utf8, is_ascii_chars, is_ascii_chars_encode_utf8};

verus! {

/// The hash of no bytes.
pub const FNV_OFFSET: u64 = 0xcbf2_9ce4_8422_2325;

/// What the hash is multiplied by after each byte.
pub const FNV_PRIME: u64 = 0x100_0000_01b3;

/// A hash with one byte more: the byte goes into the lowest bits, and of the
/// product with the prime the lowest 64 bits are kept.
pub open spec fn stirred(hash: u64, byte: u8) -> u64 {
    ((hash ^ (byte as u64)) * FNV_PRIME) as u64
}

/// The FNV-1a hash of some bytes.
pub open spec fn fnv(bytes: Seq<u8>) -> u64
    decreases bytes.len(),
{
    if bytes.len() == 0 {
        FNV_OFFSET
    } else {
        stirred(fnv(bytes.drop_last()), bytes.last())
    }
}

/// The bytes of a text of ASCII characters.
pub proof fn lemma_ascii(s: Seq<char>, bytes: Seq<u8>)
    requires
        is_ascii_chars(s),
        s.len() == bytes.len(),
        forall|i: int| 0 <= i < s.len() ==> (#[trigger] s[i]) as u8 == bytes[i],
    ensures
        encode_utf8(s) == bytes,
{
    is_ascii_chars_encode_utf8(s);
    assert forall|i: int| 0 <= i < s.len() implies encode_utf8(s)[i] == bytes[i] by {
        assert(s[i] as u8 == bytes[i]);
    }
    assert(encode_utf8(s) =~= bytes);
}

// ---------------------------------------------------------------------------
// The lowest three bits of a hash: no higher bit counts for them.
// ---------------------------------------------------------------------------

/// The lowest three bits of a hash with one byte more.
spec fn stirred_low(low: u64, byte: u8) -> u64 {
    (((low ^ (byte as u64)) * 3) as u64) & 7
}

/// The lowest three bits of a hash with some bytes more.
spec fn low_after(low: u64, bytes: Seq<u8>) -> u64
    decreases bytes.len(),
{
    if bytes.len() == 0 {
        low
    } else {
        stirred_low(low_after(low, bytes.drop_last()), bytes.last())
    }
}

proof fn lemma_low(front: Seq<u8>, bytes: Seq<u8>)
    ensures
        fnv(front + bytes) & 7 == low_after(fnv(front) & 7, bytes),
    decreases bytes.len(),
{
    let whole = front + bytes;
    if bytes.len() == 0 {
        assert(whole =~= front);
    } else {
        lemma_low(front, bytes.drop_last());
        assert(whole.drop_last() =~= front + bytes.drop_last());
        let hash = fnv(whole.drop_last());
        let byte = bytes.last();
        assert(stirred(hash, byte) & 7 == stirred_low(hash & 7, byte)) by (bit_vector);
    }
}

/// Whatever comes before them, the two phases of a probe have hashes of their
/// own.
pub proof fn lemma_phases_apart(front: Seq<u8>)
    ensures
        fnv(front + encode_utf8("ttfb"@)) != fnv(front + encode_utf8("total"@)),
{
    reveal_strlit("ttfb");
    reveal_strlit("total");
    let a: Seq<u8> = seq![0x74, 0x74, 0x66, 0x62];
    let b: Seq<u8> = seq![0x74, 0x6f, 0x74, 0x61, 0x6c];
    lemma_ascii("ttfb"@, a);
    lemma_ascii("total"@, b);
    lemma_low(front, a);
    lemma_low(front, b);
    let hash = fnv(front);
    reveal_with_fuel(low_after, 6);
    assert({
        let a1 = stirred_low(hash & 7, 0x74);
        let a2 = stirred_low(a1, 0x74);
        let a3 = stirred_low(a2, 0x66);
        let a4 = stirred_low(a3, 0x62);
        let b1 = stirred_low(hash & 7, 0x74);
        let b2 = stirred_low(b1, 0x6f);
        let b3 = stirred_low(b2, 0x74);
        let b4 = stirred_low(b3, 0x61);
        let b5 = stirred_low(b4, 0x6c);
        a4 != b5
    }) by (bit_vector);
}

/// Whatever comes before them, the two results of a probe have hashes of their
/// own.
pub proof fn lemma_results_apart(front: Seq<u8>)
    ensures
        fnv(front + encode_utf8("success"@)) != fnv(front + encode_utf8("fail"@)),
{
    reveal_strlit("success");
    reveal_strlit("fail");
    let a: Seq<u8> = seq![0x73, 0x75, 0x63, 0x63, 0x65, 0x73, 0x73];
    let b: Seq<u8> = seq![0x66, 0x61, 0x69, 0x6c];
    lemma_ascii("success"@, a);
    lemma_ascii("fail"@, b);
    lemma_low(front, a);
    lemma_low(front, b);
    let hash = fnv(front);
    reveal_with_fuel(low_after, 8);
    assert({
        let a1 = stirred_low(hash & 7, 0x73);
        let a2 = stirred_low(a1, 0x75);
        let a3 = stirred_low(a2, 0x63);
        let a4 = stirred_low(a3, 0x63);
        let a5 = stirred_low(a4, 0x65);
        let a6 = stirred_low(a5, 0x73);
        let a7 = stirred_low(a6, 0x73);
        let b1 = stirred_low(hash & 7, 0x66);
        let b2 = stirred_low(b1, 0x61);
        let b3 = stirred_low(b2, 0x69);
        let b4 = stirred_low(b3, 0x6c);
        a7 != b4
    }) by (bit_vector);
}

} // verus!
