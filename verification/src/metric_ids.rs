//! The descriptor numbers of the metrics.
use vstd::prelude::*;
use vstd::utf8::{encode_utf8, is_ascii_chars_encode_utf8};
use crate::collectors::descriptor_id;
use crate::hash::{fnv, fnv_start, fnv_step};
use crate::metrics::metric_ids;

verus! {

/// The hash after four more bytes.
spec fn fnv_four(hash: u64, a: u8, b: u8, c: u8, d: u8) -> u64 {
    fnv_step(fnv_step(fnv_step(fnv_step(hash, a), b), c), d)
}

/// The descriptor number of `version`.
proof fn lemma_id_of_version()
    ensures
        descriptor_id("version"@) == 0x71c1_85c6_5726_f1d8,
{
    let name = "version"@;
    reveal_strlit("version");
    is_ascii_chars_encode_utf8(name);
    reveal_with_fuel(fnv, 8);
    assert(encode_utf8(name) =~= seq![
        118u8, 101, 114, 115, 105, 111, 110,
    ]);
    assert(fnv_four(fnv_four(
        fnv_start(),
        118, 101, 114, 115),
        105, 111, 110, 255)
        == 0x71c1_85c6_5726_f1d8) by (bit_vector);
}

/// The descriptor number of `slot_status`.
proof fn lemma_id_of_slot_status()
    ensures
        descriptor_id("slot_status"@) == 0xe191_c8ab_d243_30b1,
{
    let name = "slot_status"@;
    reveal_strlit("slot_status");
    is_ascii_chars_encode_utf8(name);
    reveal_with_fuel(fnv, 12);
    assert(encode_utf8(name) =~= seq![
        115u8, 108, 111, 116, 95, 115, 116, 97, 116, 117, 115,
    ]);
    assert(fnv_four(fnv_four(fnv_four(
        fnv_start(),
        115, 108, 111, 116),
        95, 115, 116, 97),
        116, 117, 115, 255)
        == 0xe191_c8ab_d243_30b1) by (bit_vector);
}

/// The descriptor number of `slot_status_plugin`.
proof fn lemma_id_of_slot_status_plugin()
    ensures
        descriptor_id("slot_status_plugin"@) == 0xaa92_ec6b_5454_af6b,
{
    let name = "slot_status_plugin"@;
    reveal_strlit("slot_status_plugin");
    is_ascii_chars_encode_utf8(name);
    reveal_with_fuel(fnv, 19);
    assert(encode_utf8(name) =~= seq![
        115u8, 108, 111, 116, 95, 115, 116, 97, 116, 117, 115, 95, 112, 108, 117, 103,
        105, 110,
    ]);
    assert(fnv_four(fnv_four(fnv_four(fnv_four(
        fnv_step(fnv_step(fnv_step(fnv_start(), 115), 108), 111),
        116, 95, 115, 116),
        97, 116, 117, 115),
        95, 112, 108, 117),
        103, 105, 110, 255)
        == 0xaa92_ec6b_5454_af6b) by (bit_vector);
}

/// The descriptor number of `invalid_full_blocks_total`.
proof fn lemma_id_of_invalid_full_blocks_total()
    ensures
        descriptor_id("invalid_full_blocks_total"@) == 0xfd0a_3097_2d28_61cf,
{
    let name = "invalid_full_blocks_total"@;
    reveal_strlit("invalid_full_blocks_total");
    is_ascii_chars_encode_utf8(name);
    reveal_with_fuel(fnv, 26);
    assert(encode_utf8(name) =~= seq![
        105u8, 110, 118, 97, 108, 105, 100, 95, 102, 117, 108, 108, 95, 98, 108, 111, 99,
        107, 115, 95, 116, 111, 116, 97, 108,
    ]);
    assert(fnv_four(fnv_four(fnv_four(fnv_four(fnv_four(fnv_four(
        fnv_step(fnv_step(fnv_start(), 105), 110),
        118, 97, 108, 105),
        100, 95, 102, 117),
        108, 108, 95, 98),
        108, 111, 99, 107),
        115, 95, 116, 111),
        116, 97, 108, 255)
        == 0xfd0a_3097_2d28_61cf) by (bit_vector);
}

/// The descriptor number of `message_queue_size`.
proof fn lemma_id_of_message_queue_size()
    ensures
        descriptor_id("message_queue_size"@) == 0xc428_a1f0_b8bd_66c5,
{
    let name = "message_queue_size"@;
    reveal_strlit("message_queue_size");
    is_ascii_chars_encode_utf8(name);
    reveal_with_fuel(fnv, 19);
    assert(encode_utf8(name) =~= seq![
        109u8, 101, 115, 115, 97, 103, 101, 95, 113, 117, 101, 117, 101, 95, 115, 105,
        122, 101,
    ]);
    assert(fnv_four(fnv_four(fnv_four(fnv_four(
        fnv_step(fnv_step(fnv_step(fnv_start(), 109), 101), 115),
        115, 97, 103, 101),
        95, 113, 117, 101),
        117, 101, 95, 115),
        105, 122, 101, 255)
        == 0xc428_a1f0_b8bd_66c5) by (bit_vector);
}

/// The descriptor number of `connections_total`.
proof fn lemma_id_of_connections_total()
    ensures
        descriptor_id("connections_total"@) == 0x4418_419d_51ad_0e24,
{
    let name = "connections_total"@;
    reveal_strlit("connections_total");
    is_ascii_chars_encode_utf8(name);
    reveal_with_fuel(fnv, 18);
    assert(encode_utf8(name) =~= seq![
        99u8, 111, 110, 110, 101, 99, 116, 105, 111, 110, 115, 95, 116, 111, 116, 97, 108,
    ]);
    assert(fnv_four(fnv_four(fnv_four(fnv_four(
        fnv_step(fnv_step(fnv_start(), 99), 111),
        110, 110, 101, 99),
        116, 105, 111, 110),
        115, 95, 116, 111),
        116, 97, 108, 255)
        == 0x4418_419d_51ad_0e24) by (bit_vector);
}

/// The descriptor number of `subscriptions_total`.
proof fn lemma_id_of_subscriptions_total()
    ensures
        descriptor_id("subscriptions_total"@) == 0x5e2f_3a43_f195_166d,
{
    let name = "subscriptions_total"@;
    reveal_strlit("subscriptions_total");
    is_ascii_chars_encode_utf8(name);
    reveal_with_fuel(fnv, 20);
    assert(encode_utf8(name) =~= seq![
        115u8, 117, 98, 115, 99, 114, 105, 112, 116, 105, 111, 110, 115, 95, 116, 111,
        116, 97, 108,
    ]);
    assert(fnv_four(fnv_four(fnv_four(fnv_four(fnv_four(
        fnv_start(),
        115, 117, 98, 115),
        99, 114, 105, 112),
        116, 105, 111, 110),
        115, 95, 116, 111),
        116, 97, 108, 255)
        == 0x5e2f_3a43_f195_166d) by (bit_vector);
}

/// The descriptor number of `missed_status_message_total`.
proof fn lemma_id_of_missed_status_message_total()
    ensures
        descriptor_id("missed_status_message_total"@) == 0x1035_8edd_93f1_e21f,
{
    let name = "missed_status_message_total"@;
    reveal_strlit("missed_status_message_total");
    is_ascii_chars_encode_utf8(name);
    reveal_with_fuel(fnv, 28);
    assert(encode_utf8(name) =~= seq![
        109u8, 105, 115, 115, 101, 100, 95, 115, 116, 97, 116, 117, 115, 95, 109, 101,
        115, 115, 97, 103, 101, 95, 116, 111, 116, 97, 108,
    ]);
    assert(fnv_four(fnv_four(fnv_four(fnv_four(fnv_four(fnv_four(fnv_four(
        fnv_start(),
        109, 105, 115, 115),
        101, 100, 95, 115),
        116, 97, 116, 117),
        115, 95, 109, 101),
        115, 115, 97, 103),
        101, 95, 116, 111),
        116, 97, 108, 255)
        == 0x1035_8edd_93f1_e21f) by (bit_vector);
}

/// No two metrics have the same descriptor number.
pub(crate) proof fn lemma_ids_differ()
    ensures
        metric_ids().no_duplicates(),
{
    lemma_id_of_version();
    lemma_id_of_slot_status();
    lemma_id_of_slot_status_plugin();
    lemma_id_of_invalid_full_blocks_total();
    lemma_id_of_message_queue_size();
    lemma_id_of_connections_total();
    lemma_id_of_subscriptions_total();
    lemma_id_of_missed_status_message_total();
    let ids = metric_ids();
    assert(ids[0] == descriptor_id("version"@));
    assert(ids[1] == descriptor_id("slot_status"@));
    assert(ids[2] == descriptor_id("slot_status_plugin"@));
    assert(ids[3] == descriptor_id("invalid_full_blocks_total"@));
    assert(ids[4] == descriptor_id("message_queue_size"@));
    assert(ids[5] == descriptor_id("connections_total"@));
    assert(ids[6] == descriptor_id("subscriptions_total"@));
    assert(ids[7] == descriptor_id("missed_status_message_total"@));
}

} // verus!
