//! The status of the connected clients, for debugging.
use vstd::prelude::*;
use vstd::std_specs::cmp::OrdSpec;
use vstd::std_specs::iter::IteratorSpec;
use std::collections::BTreeMap;
use crate::order::{is_listing, listing};
use crate::text::{decimal, push_decimal, push_zero_padded, zero_padded};

verus! {

broadcast use vstd::std_specs::btree::group_btree_axioms;

/// A message that updates the state of a client.
#[derive(Debug)]
pub enum DebugClientMessage {
    /// The client has a new filter, given as the text that is shown for it.
    UpdateFilter { id: usize, filter: String },
    /// The client has been sent everything up to this slot.
    UpdateSlot { id: usize, slot: u64 },
    /// The client has gone.
    Removed { id: usize },
}

impl DebugClientMessage {
    /// The message to send, where somebody listens. Otherwise it is not even made.
    pub fn maybe_send(listening: bool, get_msg: impl FnOnce() -> Self) -> (r: Option<Self>)
        requires
            listening ==> call_requires(get_msg, ()),
        ensures
            listening ==> r is Some && call_ensures(get_msg, (), r->0),
            !listening ==> r is None,
    {
        if listening {
            Some(get_msg())
        } else {
            None
        }
    }
}

/// Holds the live status (filter and last processed slot) for a single client.
#[derive(Debug)]
pub struct DebugClientStatus {
    /// The text that is shown for the filter.
    pub filter: String,
    /// The last slot that was sent to the client.
    pub processed_slot: u64,
}

/// The status of all connected clients.
#[derive(Debug)]
pub struct DebugClientStatuses {
    clients: BTreeMap<usize, DebugClientStatus>,
}

impl View for DebugClientStatuses {
    type V = Map<usize, DebugClientStatus>;

    closed spec fn view(&self) -> Map<usize, DebugClientStatus> {
        self.clients@
    }
}

/// The clients after a message. A filter makes a client known, a slot does not.
pub open spec fn updated(
    clients: Map<usize, DebugClientStatus>,
    message: DebugClientMessage,
) -> Map<usize, DebugClientStatus> {
    match message {
        DebugClientMessage::UpdateFilter { id, filter } => {
            let processed_slot = if clients.contains_key(id) {
                clients[id].processed_slot
            } else {
                0
            };
            clients.insert(id, DebugClientStatus { filter, processed_slot })
        },
        DebugClientMessage::UpdateSlot { id, slot } => if clients.contains_key(id) {
            clients.insert(
                id,
                DebugClientStatus { filter: clients[id].filter, processed_slot: slot },
            )
        } else {
            clients
        },
        DebugClientMessage::Removed { id } => clients.remove(id),
    }
}

/// The line for one client.
pub open spec fn client_line(id: usize, status: DebugClientStatus) -> Seq<char> {
    "client#"@ + zero_padded(id as nat, 6) + ", "@ + decimal(status.processed_slot as nat)
        + ", "@ + status.filter@
}

/// The lines for the given clients, each with a line break at its end.
pub open spec fn client_lines(
    clients: Map<usize, DebugClientStatus>,
    ids: Seq<usize>,
) -> Seq<char>
    decreases ids.len(),
{
    if ids.len() == 0 {
        Seq::<char>::empty()
    } else {
        let last = ids.last();
        client_lines(clients, ids.drop_last()) + client_line(last, clients[last]) + "\n"@
    }
}

impl DebugClientStatuses {
    /// No client is known yet.
    pub fn new() -> (r: Self)
        ensures
            r@ == Map::<usize, DebugClientStatus>::empty(),
    {
        DebugClientStatuses { clients: BTreeMap::new() }
    }

    /// Updates the state of a client.
    pub fn update(&mut self, message: DebugClientMessage)
        ensures
            final(self)@ == updated(old(self)@, message),
    {
        let ghost before = self@;
        match message {
            DebugClientMessage::UpdateFilter { id, filter } => {
                let processed_slot = match self.clients.get(&id) {
                    Some(status) => status.processed_slot,
                    None => 0,
                };
                self.clients.insert(id, DebugClientStatus { filter, processed_slot });
            },
            DebugClientMessage::UpdateSlot { id, slot } => {
                if let Some(status) = self.clients.remove(&id) {
                    self.clients.insert(
                        id,
                        DebugClientStatus { filter: status.filter, processed_slot: slot },
                    );
                }
            },
            DebugClientMessage::Removed { id } => {
                self.clients.remove(&id);
            },
        }
        proof {
            assert(self@ =~= updated(before, message));
        }
    }

    /// The known clients in ascending order.
    fn ids(&self) -> (r: Vec<usize>)
        ensures
            r@ == listing(self@.dom()),
            is_listing(r@, self@.dom()),
    {
        let mut ids: Vec<usize> = Vec::new();
        for id in it: self.clients.keys()
            invariant
                ids@ == it.seq().unref().take(it.index()),
        {
            ids.push(*id);
        }
        proof {
            let all = IteratorSpec::remaining(
                &vstd::std_specs::btree::spec_keys_iter(&self.clients),
            );
            assert(ids@ =~= all.unref());
            assert(vstd::laws_cmp::obeys_cmp::<&usize>());
            assert forall|i: int, j: int| 0 <= i < j < ids@.len() implies ids@[i] < ids@[j] by {
                assert(OrdSpec::cmp_spec(&all[i], &all[j]) is Less);
                assert(ids@[i] == *all[i] && ids@[j] == *all[j]);
            }
            crate::order::law_listing(ids@, self@.dom());
        }
        ids
    }

    /// Shows the known clients, one in a line, in the order of their numbers.
    pub fn get_statuses(&self) -> (r: String)
        ensures
            is_listing(listing(self@.dom()), self@.dom()),
            r@ == client_lines(self@, listing(self@.dom())),
    {
        let ids = self.ids();
        let mut out = String::new();
        for i in 0..ids.len()
            invariant
                is_listing(ids@, self@.dom()),
                out@ == client_lines(self@, ids@.take(i as int)),
        {
            let id = ids[i];
            proof {
                assert(ids@.to_set().contains(id));
                assert(ids@.take(i + 1).drop_last() =~= ids@.take(i as int));
            }
            let ghost before = out@;
            if let Some(status) = self.clients.get(&id) {
                out.append("client#");
                push_zero_padded(&mut out, id as u64, 6);
                out.append(", ");
                push_decimal(&mut out, status.processed_slot);
                out.append(", ");
                out.append(status.filter.as_str());
                out.append("\n");
                proof {
                    assert(out@ =~= before + client_line(id, *status) + "\n"@);
                }
            }
        }
        proof {
            assert(ids@.take(ids@.len() as int) =~= ids@);
        }
        out
    }
}

/// Whether a message is about the client `id`.
pub open spec fn concerns(message: DebugClientMessage, id: usize) -> bool {
    match message {
        DebugClientMessage::UpdateFilter { id: client, .. } => client == id,
        DebugClientMessage::UpdateSlot { id: client, .. } => client == id,
        DebugClientMessage::Removed { id: client } => client == id,
    }
}

/// A message leaves every client alone that it is not about.
pub proof fn law_update_is_local(
    clients: Map<usize, DebugClientStatus>,
    message: DebugClientMessage,
    other: usize,
)
    requires
        !concerns(message, other),
    ensures
        updated(clients, message).contains_key(other) == clients.contains_key(other),
        clients.contains_key(other) ==> updated(clients, message)[other] == clients[other],
{
}

/// A client that has gone is not known, whatever slot comes for it afterwards, until it has a
/// filter again. Then it starts at slot zero.
pub proof fn law_removed_client_starts_anew(
    clients: Map<usize, DebugClientStatus>,
    id: usize,
    slot: u64,
    filter: String,
)
    ensures
        ({
            let gone = updated(clients, DebugClientMessage::Removed { id });
            let late = updated(gone, DebugClientMessage::UpdateSlot { id, slot });
            let back = updated(late, DebugClientMessage::UpdateFilter { id, filter });
            &&& !gone.contains_key(id)
            &&& late == gone
            &&& back == clients.insert(id, DebugClientStatus { filter, processed_slot: 0 })
        }),
{
    let gone = updated(clients, DebugClientMessage::Removed { id });
    let back = updated(gone, DebugClientMessage::UpdateFilter { id, filter });
    assert(back =~= clients.insert(id, DebugClientStatus { filter, processed_slot: 0 }));
}

/// A new filter keeps the slot that a known client has reached, and a slot keeps its filter.
pub proof fn law_update_keeps_the_rest(
    clients: Map<usize, DebugClientStatus>,
    id: usize,
    slot: u64,
    filter: String,
)
    requires
        clients.contains_key(id),
    ensures
        updated(clients, DebugClientMessage::UpdateFilter { id, filter })[id].processed_slot
            == clients[id].processed_slot,
        updated(clients, DebugClientMessage::UpdateSlot { id, slot })[id].filter
            == clients[id].filter,
{
}

/// Where no client is known, nothing is shown; otherwise the text ends with a line break.
pub proof fn law_lines_end(clients: Map<usize, DebugClientStatus>, ids: Seq<usize>)
    ensures
        ids.len() == 0 ==> client_lines(clients, ids).len() == 0,
        ids.len() > 0 ==> client_lines(clients, ids).len() > 0 && client_lines(
            clients,
            ids,
        ).last() == '\n',
{
    reveal_strlit("\n");
}

/// After a slot comes for a known client, that is its slot, whatever it was before. After a filter
/// comes for a client, that is its filter, and the client is known. A client that is removed is
/// not, and a slot does not make one known.
pub proof fn law_latest_counts(
    clients: Map<usize, DebugClientStatus>,
    id: usize,
    slot: u64,
    filter: String,
)
    ensures
        ({
            let moved = updated(clients, DebugClientMessage::UpdateSlot { id, slot });
            &&& moved.contains_key(id) <==> clients.contains_key(id)
            &&& clients.contains_key(id) ==> moved[id].processed_slot == slot
            &&& clients.contains_key(id) ==> moved[id].filter == clients[id].filter
        }),
        ({
            let filtered = updated(clients, DebugClientMessage::UpdateFilter { id, filter });
            &&& filtered.contains_key(id)
            &&& filtered[id].filter == filter
            &&& clients.contains_key(id) ==> filtered[id].processed_slot
                == clients[id].processed_slot
            &&& !clients.contains_key(id) ==> filtered[id].processed_slot == 0
        }),
        !updated(clients, DebugClientMessage::Removed { id }).contains_key(id),
{
}

/// Of two messages about the same client, the later one counts: two slots come to the second, and
/// two filters to the second.
pub proof fn law_later_message_counts(
    clients: Map<usize, DebugClientStatus>,
    id: usize,
    slots: (u64, u64),
    filters: (String, String),
)
    ensures
        updated(
            updated(clients, DebugClientMessage::UpdateSlot { id, slot: slots.0 }),
            DebugClientMessage::UpdateSlot { id, slot: slots.1 },
        ) == updated(clients, DebugClientMessage::UpdateSlot { id, slot: slots.1 }),
        updated(
            updated(clients, DebugClientMessage::UpdateFilter { id, filter: filters.0 }),
            DebugClientMessage::UpdateFilter { id, filter: filters.1 },
        ) == updated(clients, DebugClientMessage::UpdateFilter { id, filter: filters.1 }),
{
    assert(updated(
        updated(clients, DebugClientMessage::UpdateSlot { id, slot: slots.0 }),
        DebugClientMessage::UpdateSlot { id, slot: slots.1 },
    ) =~= updated(clients, DebugClientMessage::UpdateSlot { id, slot: slots.1 }));
    assert(updated(
        updated(clients, DebugClientMessage::UpdateFilter { id, filter: filters.0 }),
        DebugClientMessage::UpdateFilter { id, filter: filters.1 },
    ) =~= updated(clients, DebugClientMessage::UpdateFilter { id, filter: filters.1 }));
}

/// The line of a client shows its number in at least six digits, its slot and its filter.
pub proof fn law_line_shows(id: usize, status: DebugClientStatus)
    ensures
        client_line(id, status) == "client#"@ + zero_padded(id as nat, 6) + ", "@ + decimal(
            status.processed_slot as nat,
        ) + ", "@ + status.filter@,
{
}

/// What is shown are the lines of the clients, one behind the other, each with a line break.
pub proof fn law_lines_follow(
    clients: Map<usize, DebugClientStatus>,
    first: Seq<usize>,
    second: Seq<usize>,
    id: usize,
)
    ensures
        client_lines(clients, Seq::<usize>::empty()) == Seq::<char>::empty(),
        client_lines(clients, seq![id]) == client_line(id, clients[id]).push('\n'),
        client_lines(clients, first + second) == client_lines(clients, first) + client_lines(
            clients,
            second,
        ),
    decreases second.len(),
{
    reveal_strlit("\n");
    reveal_with_fuel(client_lines, 2);
    assert(seq![id].drop_last() =~= Seq::<usize>::empty());
    assert(client_lines(clients, seq![id]) =~= client_line(id, clients[id]).push('\n'));
    if second.len() == 0 {
        assert(first + second =~= first);
        assert(client_lines(clients, first) + Seq::<char>::empty() =~= client_lines(
            clients,
            first,
        ));
    } else {
        law_lines_follow(clients, first, second.drop_last(), id);
        assert((first + second).drop_last() =~= first + second.drop_last());
        assert((first + second).last() == second.last());
        assert(client_lines(clients, first + second) =~= client_lines(clients, first)
            + client_lines(clients, second));
    }
}

/// No message about one client makes another one known, unknown or different.
pub proof fn law_other_clients_stay(
    clients: Map<usize, DebugClientStatus>,
    id: usize,
    other: usize,
    slot: u64,
    filter: String,
)
    requires
        id != other,
    ensures
        ({
            let moved = updated(clients, DebugClientMessage::UpdateSlot { id, slot });
            let filtered = updated(clients, DebugClientMessage::UpdateFilter { id, filter });
            let removed = updated(clients, DebugClientMessage::Removed { id });
            &&& moved.contains_key(other) == clients.contains_key(other)
            &&& filtered.contains_key(other) == clients.contains_key(other)
            &&& removed.contains_key(other) == clients.contains_key(other)
            &&& clients.contains_key(other) ==> {
                &&& moved[other] == clients[other]
                &&& filtered[other] == clients[other]
                &&& removed[other] == clients[other]
            }
        }),
{
}

} // verus!
