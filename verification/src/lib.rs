//! The logic of a Geyser plugin that streams validator events over gRPC.
use vstd::prelude::*;

pub mod collectors;
pub mod config;
pub mod debug_clients;
pub mod hash;
mod metric_ids;
pub mod metrics;
pub mod order;
pub mod plugin;
pub mod service;
pub mod taskset;
pub mod text;
pub mod version;

verus! {

/// The name of the thread with the number `id`.
pub open spec fn thread_name(id: u64) -> Seq<char> {
    "solGeyserGrpc"@ + crate::text::zero_padded(id as nat, 2)
}

/// Creates a thread name for the plugin. Each thread gets a unique name with an incremental ID,
/// which is counted on in `next_id`. The count wraps around behind the last 64-bit number.
pub fn get_thread_name(next_id: &mut u64) -> (r: String)
    ensures
        r@ == thread_name(*old(next_id)),
        *final(next_id) == (*old(next_id)).wrapping_add(1),
{
    let id = *next_id;
    *next_id = id.wrapping_add(1);
    let mut name = String::new();
    name.append("solGeyserGrpc");
    crate::text::push_zero_padded(&mut name, id, 2);
    proof {
        assert(name@ =~= thread_name(id));
    }
    name
}

/// Threads with different numbers have different names.
pub proof fn law_thread_names_differ(first: u64, second: u64)
    requires
        first != second,
    ensures
        thread_name(first) != thread_name(second),
{
    let prefix = "solGeyserGrpc"@;
    if thread_name(first) == thread_name(second) {
        let one = crate::text::zero_padded(first as nat, 2);
        let other = crate::text::zero_padded(second as nat, 2);
        assert(one =~= thread_name(first).skip(prefix.len() as int));
        assert(other =~= thread_name(second).skip(prefix.len() as int));
        crate::text::law_padding_injective(first as nat, second as nat, 2);
    }
}

/// The number of the thread that is named after `n` others, if the first has the number
/// `first`.
pub open spec fn nth_id(first: u64, n: nat) -> u64 {
    ((first + n) % 0x1_0000_0000_0000_0000) as u64
}

/// Names that are asked for one after the other are all different, until the count has come
/// round.
pub proof fn law_successive_names_differ(first: u64, earlier: nat, later: nat)
    requires
        earlier < later < earlier + 0x1_0000_0000_0000_0000,
    ensures
        nth_id(first, 0) == first,
        nth_id(first, earlier + 1) == nth_id(first, earlier).wrapping_add(1),
        thread_name(nth_id(first, earlier)) != thread_name(nth_id(first, later)),
{
    law_thread_names_differ(nth_id(first, earlier), nth_id(first, later));
}

/// A thread name is a fixed word and the number behind it, in at least two digits.
pub proof fn law_thread_name_shape(id: u64)
    ensures
        ({
            let name = thread_name(id);
            let digits = crate::text::decimal(id as nat);
            &&& id < 10 ==> name == "solGeyserGrpc0"@ + digits
            &&& id >= 10 ==> name == "solGeyserGrpc"@ + digits
        }),
{
    reveal_strlit("solGeyserGrpc0");
    reveal_strlit("solGeyserGrpc");
    let digits = crate::text::decimal(id as nat);
    reveal_with_fuel(crate::text::decimal, 2);
    if id < 10 {
        assert(digits.len() == 1);
        assert("solGeyserGrpc0"@ =~= "solGeyserGrpc"@.push('0'));
        assert(thread_name(id) =~= "solGeyserGrpc0"@ + digits);
    } else {
        crate::text::lemma_decimal_shape(id as nat / 10);
        assert(digits.len() >= 2);
    }
}

} // verus!
