//! The hashes of the names of the families.
use vstd::prelude::*;

use crate::exposition::name_hash;
use crate::fnv::{fnv, lemma_ascii, stirred, FNV_OFFSET};

verus! {

/// The hash of the first `n` bytes.
spec fn fnv_first(bytes: Seq<u8>, n: nat) -> u64
    decreases n,
{
    if n == 0 {
        FNV_OFFSET
    } else {
        stirred(fnv_first(bytes, (n - 1) as nat), bytes[n - 1])
    }
}

proof fn lemma_fnv_first(bytes: Seq<u8>, n: nat)
    requires
        n <= bytes.len(),
    ensures
        fnv_first(bytes, n) == fnv(bytes.take(n as int)),
    decreases n,
{
    if n > 0 {
        lemma_fnv_first(bytes, (n - 1) as nat);
        assert(bytes.take(n as int).drop_last() =~= bytes.take(n - 1));
    }
}

/// A hash with four bytes more.
spec fn stirred4(hash: u64, a: u8, b: u8, c: u8, d: u8) -> u64 {
    stirred(stirred(stirred(stirred(hash, a), b), c), d)
}

pub proof fn lemma_probe_success_hash()
    ensures
        name_hash("uptime_probe_success"@) == 0x9dec_9064_550b_6aa9,
{
    reveal_strlit("uptime_probe_success");
    let bytes: Seq<u8> = seq![
        0x75, 0x70, 0x74, 0x69, 0x6d, 0x65, 0x5f, 0x70,
        0x72, 0x6f, 0x62, 0x65, 0x5f, 0x73, 0x75, 0x63,
        0x63, 0x65, 0x73, 0x73,
    ];
    lemma_ascii("uptime_probe_success"@, bytes);
    let whole = bytes.push(0xff);
    lemma_fnv_first(whole, 21);
    assert(whole.take(21) =~= whole);
    reveal_with_fuel(fnv_first, 22);
    assert({
        let h1 = stirred4(FNV_OFFSET, 0x75, 0x70, 0x74, 0x69);
        let h2 = stirred4(h1, 0x6d, 0x65, 0x5f, 0x70);
        let h3 = stirred4(h2, 0x72, 0x6f, 0x62, 0x65);
        let h4 = stirred4(h3, 0x5f, 0x73, 0x75, 0x63);
        let h5 = stirred4(h4, 0x63, 0x65, 0x73, 0x73);
        let h6 = stirred(h5, 0xff);
        h6 == 0x9dec_9064_550b_6aa9
    }) by (bit_vector);
}

pub proof fn lemma_probe_duration_hash()
    ensures
        name_hash("uptime_probe_duration_seconds"@) == 0x8e1e_17ba_71cd_4c38,
{
    reveal_strlit("uptime_probe_duration_seconds");
    let bytes: Seq<u8> = seq![
        0x75, 0x70, 0x74, 0x69, 0x6d, 0x65, 0x5f, 0x70,
        0x72, 0x6f, 0x62, 0x65, 0x5f, 0x64, 0x75, 0x72,
        0x61, 0x74, 0x69, 0x6f, 0x6e, 0x5f, 0x73, 0x65,
        0x63, 0x6f, 0x6e, 0x64, 0x73,
    ];
    lemma_ascii("uptime_probe_duration_seconds"@, bytes);
    let whole = bytes.push(0xff);
    lemma_fnv_first(whole, 30);
    assert(whole.take(30) =~= whole);
    reveal_with_fuel(fnv_first, 31);
    assert({
        let h1 = stirred4(FNV_OFFSET, 0x75, 0x70, 0x74, 0x69);
        let h2 = stirred4(h1, 0x6d, 0x65, 0x5f, 0x70);
        let h3 = stirred4(h2, 0x72, 0x6f, 0x62, 0x65);
        let h4 = stirred4(h3, 0x5f, 0x64, 0x75, 0x72);
        let h5 = stirred4(h4, 0x61, 0x74, 0x69, 0x6f);
        let h6 = stirred4(h5, 0x6e, 0x5f, 0x73, 0x65);
        let h7 = stirred4(h6, 0x63, 0x6f, 0x6e, 0x64);
        let h8 = stirred(h7, 0x73);
        let h9 = stirred(h8, 0xff);
        h9 == 0x8e1e_17ba_71cd_4c38
    }) by (bit_vector);
}

pub proof fn lemma_probe_status_hash()
    ensures
        name_hash("uptime_probe_http_status_code"@) == 0xc819_2625_5aa0_289d,
{
    reveal_strlit("uptime_probe_http_status_code");
    let bytes: Seq<u8> = seq![
        0x75, 0x70, 0x74, 0x69, 0x6d, 0x65, 0x5f, 0x70,
        0x72, 0x6f, 0x62, 0x65, 0x5f, 0x68, 0x74, 0x74,
        0x70, 0x5f, 0x73, 0x74, 0x61, 0x74, 0x75, 0x73,
        0x5f, 0x63, 0x6f, 0x64, 0x65,
    ];
    lemma_ascii("uptime_probe_http_status_code"@, bytes);
    let whole = bytes.push(0xff);
    lemma_fnv_first(whole, 30);
    assert(whole.take(30) =~= whole);
    reveal_with_fuel(fnv_first, 31);
    assert({
        let h1 = stirred4(FNV_OFFSET, 0x75, 0x70, 0x74, 0x69);
        let h2 = stirred4(h1, 0x6d, 0x65, 0x5f, 0x70);
        let h3 = stirred4(h2, 0x72, 0x6f, 0x62, 0x65);
        let h4 = stirred4(h3, 0x5f, 0x68, 0x74, 0x74);
        let h5 = stirred4(h4, 0x70, 0x5f, 0x73, 0x74);
        let h6 = stirred4(h5, 0x61, 0x74, 0x75, 0x73);
        let h7 = stirred4(h6, 0x5f, 0x63, 0x6f, 0x64);
        let h8 = stirred(h7, 0x65);
        let h9 = stirred(h8, 0xff);
        h9 == 0xc819_2625_5aa0_289d
    }) by (bit_vector);
}

pub proof fn lemma_probe_last_run_hash()
    ensures
        name_hash("uptime_probe_last_run_timestamp_seconds"@) == 0xd0bf_30d8_ef39_7217,
{
    reveal_strlit("uptime_probe_last_run_timestamp_seconds");
    let bytes: Seq<u8> = seq![
        0x75, 0x70, 0x74, 0x69, 0x6d, 0x65, 0x5f, 0x70,
        0x72, 0x6f, 0x62, 0x65, 0x5f, 0x6c, 0x61, 0x73,
        0x74, 0x5f, 0x72, 0x75, 0x6e, 0x5f, 0x74, 0x69,
        0x6d, 0x65, 0x73, 0x74, 0x61, 0x6d, 0x70, 0x5f,
        0x73, 0x65, 0x63, 0x6f, 0x6e, 0x64, 0x73,
    ];
    lemma_ascii("uptime_probe_last_run_timestamp_seconds"@, bytes);
    let whole = bytes.push(0xff);
    lemma_fnv_first(whole, 40);
    assert(whole.take(40) =~= whole);
    reveal_with_fuel(fnv_first, 41);
    assert({
        let h1 = stirred4(FNV_OFFSET, 0x75, 0x70, 0x74, 0x69);
        let h2 = stirred4(h1, 0x6d, 0x65, 0x5f, 0x70);
        let h3 = stirred4(h2, 0x72, 0x6f, 0x62, 0x65);
        let h4 = stirred4(h3, 0x5f, 0x6c, 0x61, 0x73);
        let h5 = stirred4(h4, 0x74, 0x5f, 0x72, 0x75);
        let h6 = stirred4(h5, 0x6e, 0x5f, 0x74, 0x69);
        let h7 = stirred4(h6, 0x6d, 0x65, 0x73, 0x74);
        let h8 = stirred4(h7, 0x61, 0x6d, 0x70, 0x5f);
        let h9 = stirred4(h8, 0x73, 0x65, 0x63, 0x6f);
        let h10 = stirred4(h9, 0x6e, 0x64, 0x73, 0xff);
        h10 == 0xd0bf_30d8_ef39_7217
    }) by (bit_vector);
}

pub proof fn lemma_probe_total_hash()
    ensures
        name_hash("uptime_probe_total"@) == 0x7f0f_11c5_da01_ac72,
{
    reveal_strlit("uptime_probe_total");
    let bytes: Seq<u8> = seq![
        0x75, 0x70, 0x74, 0x69, 0x6d, 0x65, 0x5f, 0x70,
        0x72, 0x6f, 0x62, 0x65, 0x5f, 0x74, 0x6f, 0x74,
        0x61, 0x6c,
    ];
    lemma_ascii("uptime_probe_total"@, bytes);
    let whole = bytes.push(0xff);
    lemma_fnv_first(whole, 19);
    assert(whole.take(19) =~= whole);
    reveal_with_fuel(fnv_first, 20);
    assert({
        let h1 = stirred4(FNV_OFFSET, 0x75, 0x70, 0x74, 0x69);
        let h2 = stirred4(h1, 0x6d, 0x65, 0x5f, 0x70);
        let h3 = stirred4(h2, 0x72, 0x6f, 0x62, 0x65);
        let h4 = stirred4(h3, 0x5f, 0x74, 0x6f, 0x74);
        let h5 = stirred(h4, 0x61);
        let h6 = stirred(h5, 0x6c);
        let h7 = stirred(h6, 0xff);
        h7 == 0x7f0f_11c5_da01_ac72
    }) by (bit_vector);
}

pub proof fn lemma_build_info_hash()
    ensures
        name_hash("uptime_build_info"@) == 0x058f_6dcd_1390_2c4c,
{
    reveal_strlit("uptime_build_info");
    let bytes: Seq<u8> = seq![
        0x75, 0x70, 0x74, 0x69, 0x6d, 0x65, 0x5f, 0x62,
        0x75, 0x69, 0x6c, 0x64, 0x5f, 0x69, 0x6e, 0x66,
        0x6f,
    ];
    lemma_ascii("uptime_build_info"@, bytes);
    let whole = bytes.push(0xff);
    lemma_fnv_first(whole, 18);
    assert(whole.take(18) =~= whole);
    reveal_with_fuel(fnv_first, 19);
    assert({
        let h1 = stirred4(FNV_OFFSET, 0x75, 0x70, 0x74, 0x69);
        let h2 = stirred4(h1, 0x6d, 0x65, 0x5f, 0x62);
        let h3 = stirred4(h2, 0x75, 0x69, 0x6c, 0x64);
        let h4 = stirred4(h3, 0x5f, 0x69, 0x6e, 0x66);
        let h5 = stirred(h4, 0x6f);
        let h6 = stirred(h5, 0xff);
        h6 == 0x058f_6dcd_1390_2c4c
    }) by (bit_vector);
}

} // verus!
