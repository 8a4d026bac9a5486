//! The broadcast hub of a room: the sinks of the connected clients.
//!
//! A message is offered to every sink in turn.  A sink that does not
//! take it is dead and leaves the hub; the others stay, in their order.

use std::sync::mpsc::Sender;
use vstd::prelude::*;

verus! {

/// The sending half of a client's channel.  Opaque: the hub only holds
/// it and offers messages to it.
#[verifier::external_type_specification]
#[verifier::external_body]
#[verifier::reject_recursive_types(T)]
pub struct ExSender<T>(Sender<T>);

/// The sinks of a room, in the order in which the clients connected.
pub type Senders = Vec<Sender<String>>;

/// Offers a message to one sink and says whether the sink took it.
///
/// Wraps `std::sync::mpsc::Sender::send`, which never blocks and fails
/// exactly when the receiving half is gone.  Whether it is gone depends
/// on the client, so nothing is promised of the answer.
#[verifier::external_body]
fn offer(sender: &Sender<String>, message: &str) -> (accepted: bool) {
    sender.send(message.to_string()).is_ok()
}

/// The items of `sinks` whose flag in `keep` is set, in their order.
pub open spec fn retained<T>(sinks: Seq<T>, keep: Seq<bool>) -> Seq<T>
    decreases sinks.len(),
{
    if sinks.len() == 0 || keep.len() == 0 {
        Seq::empty()
    } else if keep.last() {
        retained(sinks.drop_last(), keep.drop_last()).push(sinks.last())
    } else {
        retained(sinks.drop_last(), keep.drop_last())
    }
}

/// Whether `after` is what is left of `before` once some sinks have
/// left: the rest is kept whole and in order.
pub open spec fn pruned<T>(before: Seq<T>, after: Seq<T>) -> bool {
    exists|keep: Seq<bool>| keep.len() == before.len() && after == #[trigger] retained(before, keep)
}

/// The number of flags that are set.
pub open spec fn count_set(keep: Seq<bool>) -> nat
    decreases keep.len(),
{
    if keep.len() == 0 {
        0
    } else {
        count_set(keep.drop_last()) + if keep.last() {
            1nat
        } else {
            0nat
        }
    }
}

/// The positions whose flag is set, in rising order.
pub open spec fn kept_positions(keep: Seq<bool>) -> Seq<int>
    decreases keep.len(),
{
    if keep.len() == 0 {
        Seq::empty()
    } else if keep.last() {
        kept_positions(keep.drop_last()).push(keep.len() - 1)
    } else {
        kept_positions(keep.drop_last())
    }
}

/// What is left after a broadcast are exactly the sinks that took the
/// message: as many as there are set flags, each from a position whose
/// flag is set, in the order they had.  A sink that refused is not
/// among them.
pub proof fn retained_are_the_accepted<T>(sinks: Seq<T>, keep: Seq<bool>)
    requires
        keep.len() == sinks.len(),
    ensures
        retained(sinks, keep).len() == count_set(keep),
        kept_positions(keep).len() == count_set(keep),
        count_set(keep) <= keep.len(),
        forall|j: int|
            0 <= j < count_set(keep) ==> {
                let p = #[trigger] kept_positions(keep)[j];
                0 <= p < keep.len() && keep[p] && retained(sinks, keep)[j] == sinks[p]
            },
        forall|i: int, j: int|
            0 <= i < j < count_set(keep) ==> kept_positions(keep)[i] < kept_positions(keep)[j],
    decreases sinks.len(),
{
    if sinks.len() > 0 {
        retained_are_the_accepted(sinks.drop_last(), keep.drop_last());
        assert forall|j: int| 0 <= j < count_set(keep) implies {
            let p = #[trigger] kept_positions(keep)[j];
            0 <= p < keep.len() && keep[p] && retained(sinks, keep)[j] == sinks[p]
        } by {
            if j < count_set(keep.drop_last()) {
                let p = kept_positions(keep.drop_last())[j];
                assert(keep.drop_last()[p] == keep[p]);
                assert(sinks.drop_last()[p] == sinks[p]);
            }
        }
        assert forall|i: int, j: int| 0 <= i < j < count_set(keep) implies kept_positions(keep)[i]
            < kept_positions(keep)[j] by {
            assert(kept_positions(keep.drop_last())[i] < keep.len() - 1);
        }
    }
}

/// When every sink takes the message the hub stays as it is.
pub proof fn retained_all<T>(sinks: Seq<T>)
    ensures
        retained(sinks, Seq::new(sinks.len(), |i: int| true)) == sinks,
        pruned(sinks, sinks),
    decreases sinks.len(),
{
    let all = Seq::new(sinks.len(), |i: int| true);
    if sinks.len() > 0 {
        retained_all(sinks.drop_last());
        assert(all.drop_last() == Seq::new(sinks.drop_last().len(), |i: int| true));
        assert(sinks.drop_last().push(sinks.last()) == sinks);
    } else {
        assert(retained(sinks, all) == sinks);
    }
}

/// The flags of two rounds of pruning, folded into flags for the sinks
/// of the first round: a sink stays when it stayed in both.
pub open spec fn both_rounds(first: Seq<bool>, second: Seq<bool>) -> Seq<bool>
    decreases first.len(),
{
    if first.len() == 0 {
        Seq::empty()
    } else if first.last() {
        if second.len() == 0 {
            both_rounds(first.drop_last(), second).push(false)
        } else {
            both_rounds(first.drop_last(), second.drop_last()).push(second.last())
        }
    } else {
        both_rounds(first.drop_last(), second).push(false)
    }
}

/// Pruning twice is pruning once: a sink that left in the first round
/// does not come back in the second.
pub proof fn pruned_twice<T>(sinks: Seq<T>, first: Seq<bool>, second: Seq<bool>)
    requires
        first.len() == sinks.len(),
        second.len() == retained(sinks, first).len(),
    ensures
        both_rounds(first, second).len() == sinks.len(),
        retained(retained(sinks, first), second) == retained(sinks, both_rounds(first, second)),
        forall|i: int| 0 <= i < first.len() && !first[i] ==> !both_rounds(first, second)[i],
    decreases sinks.len(),
{
    if sinks.len() > 0 {
        let s = sinks.drop_last();
        let f = first.drop_last();
        if first.last() {
            assert(retained(sinks, first).drop_last() == retained(s, f));
            pruned_twice(s, f, second.drop_last());
            assert(both_rounds(first, second).drop_last() == both_rounds(f, second.drop_last()));
            assert forall|i: int| 0 <= i < first.len() && !first[i] implies !both_rounds(
                first,
                second,
            )[i] by {
                assert(f[i] == first[i]);
            }
        } else {
            pruned_twice(s, f, second);
            assert(both_rounds(first, second).drop_last() == both_rounds(f, second));
            assert forall|i: int| 0 <= i < first.len() && !first[i] implies !both_rounds(
                first,
                second,
            )[i] by {
                if i < f.len() {
                    assert(f[i] == first[i]);
                }
            }
        }
    } else {
        assert(retained(retained(sinks, first), second) == Seq::<T>::empty());
    }
}

/// Sinks that have left stay away: what is left after two rounds of
/// pruning is what is left of the first hub after one.
pub proof fn pruned_transitive<T>(a: Seq<T>, b: Seq<T>, c: Seq<T>)
    requires
        pruned(a, b),
        pruned(b, c),
    ensures
        pruned(a, c),
{
    let first = choose|keep: Seq<bool>| keep.len() == a.len() && b == #[trigger] retained(a, keep);
    let second = choose|keep: Seq<bool>| keep.len() == b.len() && c == #[trigger] retained(b, keep);
    pruned_twice(a, first, second);
    assert(c == retained(a, both_rounds(first, second)));
}

/// Offers `message` to every sink, in order, and reports for each
/// whether it took it.
pub fn offer_all(senders: &Senders, message: &str) -> (accepted: Vec<bool>)
    ensures
        accepted@.len() == senders@.len(),
{
    let mut accepted: Vec<bool> = Vec::new();
    let mut i: usize = 0;
    while i < senders.len()
        invariant
            i <= senders.len(),
            accepted@.len() == i,
        decreases senders.len() - i,
    {
        accepted.push(offer(&senders[i], message));
        i = i + 1;
    }
    accepted
}

/// Removes the sinks whose flag in `accepted` is not set.
pub fn prune<T>(senders: &mut Vec<T>, accepted: &Vec<bool>)
    requires
        accepted@.len() == old(senders)@.len(),
    ensures
        final(senders)@ == retained(old(senders)@, accepted@),
{
    let ghost before = senders@;
    let total = senders.len();
    let mut done: usize = total;
    proof {
        assert(before.take(total as int) == before);
        assert(accepted@.take(total as int) == accepted@);
        assert(senders@.skip(total as int) == Seq::<T>::empty());
        assert(retained(before, accepted@) + Seq::<T>::empty() == retained(
            before,
            accepted@,
        ));
    }
    // Walk from the back, so that removing a sink does not move the
    // ones still to be looked at.
    while done > 0
        invariant
            total == before.len(),
            accepted@.len() == total,
            done <= total,
            senders@.len() >= done,
            senders@.take(done as int) == before.take(done as int),
            retained(before, accepted@) == retained(before.take(done as int), accepted@.take(done as int))
                + senders@.skip(done as int),
        decreases done,
    {
        let i = done - 1;
        let ghost cur = senders@;
        proof {
            let b1 = before.take(done as int);
            let a1 = accepted@.take(done as int);
            assert(b1.drop_last() == before.take(i as int));
            assert(a1.drop_last() == accepted@.take(i as int));
            assert(b1.last() == before[i as int]);
            assert(a1.last() == accepted@[i as int]);
            assert(cur[i as int] == cur.take(done as int)[i as int]);
        }
        if !accepted[i] {
            senders.remove(i);
            proof {
                assert(senders@.take(i as int) == before.take(i as int)) by {
                    assert forall|j: int| 0 <= j < i implies #[trigger] senders@.take(i as int)[j]
                        == before.take(i as int)[j] by {
                        assert(cur.take(done as int)[j] == before.take(done as int)[j]);
                    }
                }
                assert(senders@.skip(i as int) == cur.skip(done as int));
            }
        } else {
            proof {
                assert(senders@.take(i as int) == before.take(i as int)) by {
                    assert forall|j: int| 0 <= j < i implies #[trigger] senders@.take(i as int)[j]
                        == before.take(i as int)[j] by {
                        assert(cur.take(done as int)[j] == before.take(done as int)[j]);
                    }
                }
                assert(senders@.skip(i as int) == seq![before[i as int]] + cur.skip(done as int));
                assert(retained(before.take(i as int), accepted@.take(i as int)).push(
                    before[i as int],
                ) + cur.skip(done as int) == retained(
                    before.take(i as int),
                    accepted@.take(i as int),
                ) + (seq![before[i as int]] + cur.skip(done as int)));
            }
        }
        done = i;
    }
    proof {
        assert(senders@.skip(0) == senders@);
        assert(retained(before.take(0), accepted@.take(0)) == Seq::<T>::empty());
    }
}

/// Delivers `message` to every sink and drops the sinks that did not
/// take it.
pub fn broadcast(senders: &mut Senders, message: &str)
    ensures
        pruned(old(senders)@, final(senders)@),
{
    let accepted = offer_all(senders, message);
    prune(senders, &accepted);
}

/// A connected client that is known by an id, so that a message can be
/// sent to it alone.
pub struct Client {
    pub id: String,
    pub sender: Sender<String>,
}

/// The clients of a chat room, in the order in which they connected.
pub type Clients = Vec<Client>;

/// Offers `message` to every client, in order, and reports for each
/// whether it took it.
pub fn offer_to_clients(clients: &Clients, message: &str) -> (accepted: Vec<bool>)
    ensures
        accepted@.len() == clients@.len(),
{
    let mut accepted: Vec<bool> = Vec::new();
    let mut i: usize = 0;
    while i < clients.len()
        invariant
            i <= clients.len(),
            accepted@.len() == i,
        decreases clients.len() - i,
    {
        accepted.push(offer(&clients[i].sender, message));
        i = i + 1;
    }
    accepted
}

/// Delivers `message` to every client and drops the clients that did
/// not take it.
pub fn broadcast_to_clients(clients: &mut Clients, message: &str)
    ensures
        pruned(old(clients)@, final(clients)@),
{
    let accepted = offer_to_clients(clients, message);
    prune(clients, &accepted);
}

/// The position of the last of `clients` with the id `id`.
pub open spec fn client_at(clients: Seq<Client>, id: Seq<char>) -> Option<int>
    decreases clients.len(),
{
    if clients.len() == 0 {
        None
    } else if clients.last().id@ == id {
        Some(clients.len() - 1)
    } else {
        client_at(clients.drop_last(), id)
    }
}

/// Connects a client under the id `id`.  A client that was connected
/// under that id before is let go.
pub fn connect(clients: &mut Clients, id: String, sender: Sender<String>)
    ensures
        final(clients)@.len() >= 1,
        final(clients)@.last().id == id,
        final(clients)@.last().sender == sender,
        forall|k: int|
            0 <= k < final(clients)@.len() - 1 ==> (#[trigger] final(clients)@[k]).id@ != id@,
        forall|other: Seq<char>|
            other != id@ ==> (client_at(final(clients)@, other) is Some) == (client_at(
                old(clients)@,
                other,
            ) is Some),
{
    let ghost before = clients@;
    let mut keep: Vec<bool> = Vec::new();
    let mut i: usize = 0;
    while i < clients.len()
        invariant
            i <= clients.len(),
            clients@ == before,
            keep@.len() == i,
            forall|k: int| 0 <= k < i ==> keep@[k] == (before[k].id@ != id@),
        decreases clients.len() - i,
    {
        keep.push(!(clients[i].id == id));
        i = i + 1;
    }
    prune(clients, &keep);
    let ghost kept = clients@;
    let ghost new_id = id@;
    clients.push(Client { id, sender });
    proof {
        retained_are_the_accepted(before, keep@);
        assert forall|k: int| 0 <= k < clients@.len() - 1 implies (#[trigger] clients@[k]).id@
            != new_id by {
            assert(keep@[kept_positions(keep@)[k]]);
            assert(clients@[k] == kept[k]);
        }
        assert forall|other: Seq<char>| other != new_id implies (client_at(clients@, other) is Some)
            == (client_at(before, other) is Some) by {
            assert(clients@.drop_last() == kept);
            kept_clients_stay(before, keep@, other, new_id);
        }
    }
}

/// Letting go of the clients with one id does not touch the others.
proof fn kept_clients_stay(clients: Seq<Client>, keep: Seq<bool>, other: Seq<char>, gone: Seq<char>)
    requires
        keep.len() == clients.len(),
        forall|k: int| 0 <= k < clients.len() ==> keep[k] == ((#[trigger] clients[k]).id@ != gone),
        other != gone,
    ensures
        client_at(retained(clients, keep), other) is Some == client_at(clients, other) is Some,
    decreases clients.len(),
{
    if clients.len() > 0 {
        let last = clients[clients.len() - 1];
        assert(clients.last() == last);
        assert(keep.last() == keep[keep.len() - 1]);
        assert forall|k: int| 0 <= k < clients.drop_last().len() implies keep.drop_last()[k] == ((
        #[trigger] clients.drop_last()[k]).id@ != gone) by {
            assert(clients.drop_last()[k] == clients[k]);
        }
        kept_clients_stay(clients.drop_last(), keep.drop_last(), other, gone);
        if keep.last() {
            let r = retained(clients.drop_last(), keep.drop_last()).push(last);
            assert(r.drop_last() == retained(clients.drop_last(), keep.drop_last()));
        }
    }
}

/// Disconnects the client with the id `id`.
pub fn disconnect(clients: &mut Clients, id: &str)
    ensures
        client_at(final(clients)@, id@) is None,
        forall|other: Seq<char>|
            other != id@ ==> (client_at(final(clients)@, other) is Some) == (client_at(
                old(clients)@,
                other,
            ) is Some),
        pruned(old(clients)@, final(clients)@),
{
    let ghost before = clients@;
    let mut keep: Vec<bool> = Vec::new();
    let mut i: usize = 0;
    while i < clients.len()
        invariant
            i <= clients.len(),
            clients@ == before,
            keep@.len() == i,
            forall|k: int| 0 <= k < i ==> keep@[k] == (before[k].id@ != id@),
        decreases clients.len() - i,
    {
        keep.push(!crate::text::text_eq(clients[i].id.as_str(), id));
        i = i + 1;
    }
    prune(clients, &keep);
    proof {
        assert forall|other: Seq<char>| other != id@ implies (client_at(clients@, other) is Some)
            == (client_at(before, other) is Some) by {
            kept_clients_stay(before, keep@, other, id@);
        }
        retained_are_the_accepted(before, keep@);
        none_with_id(clients@, id@);
        assert forall|k: int| 0 <= k < clients@.len() implies (#[trigger] clients@[k]).id@ != id@ by {
            assert(keep@[kept_positions(keep@)[k]]);
        }
    }
}

/// Among clients none of whom has the id `id`, none is found under it.
proof fn none_with_id(clients: Seq<Client>, id: Seq<char>)
    ensures
        (forall|k: int| 0 <= k < clients.len() ==> (#[trigger] clients[k]).id@ != id) ==> client_at(
            clients,
            id,
        ) is None,
    decreases clients.len(),
{
    if clients.len() > 0 {
        none_with_id(clients.drop_last(), id);
        if forall|k: int| 0 <= k < clients.len() ==> (#[trigger] clients[k]).id@ != id {
            assert(clients.last() == clients[clients.len() - 1]);
            assert forall|k: int| 0 <= k < clients.drop_last().len() implies (
            #[trigger] clients.drop_last()[k]).id@ != id by {
                assert(clients.drop_last()[k] == clients[k]);
            }
        }
    }
}

/// Sends `message` to the client with the id `id` alone; says whether
/// there is such a client.  Whether the client took the message is not
/// told: a client that has gone is noticed at the next broadcast.
pub fn send_to(clients: &Clients, id: &str, message: &str) -> (found: bool)
    ensures
        found == client_at(clients@, id@) is Some,
{
    let mut i: usize = clients.len();
    assert(clients@.take(i as int) == clients@);
    while i > 0
        invariant
            i <= clients.len(),
            client_at(clients@, id@) is Some == client_at(clients@.take(i as int), id@) is Some,
        decreases i,
    {
        i = i - 1;
        proof {
            assert(clients@.take(i + 1).last() == clients@[i as int]);
            assert(clients@.take(i + 1).drop_last() == clients@.take(i as int));
        }
        if crate::text::text_eq(clients[i].id.as_str(), id) {
            let _ = offer(&clients[i].sender, message);
            return true;
        }
    }
    false
}

} // verus!
