//! What holds of the keys that members give each other, and of the payloads that wait for them.
use vstd::prelude::*;
use crate::error::{Error, Reason};
use crate::ids::{Did, Uuid};
use crate::ordered;
use super::comings::conversation_is_found_at_its_place;
use super::exchange;
use super::keys::{self, KeyEntry};
use super::lifecycle;
use super::requests::{self, ConversationRequestResponse, Exchanged};
use super::store::{self, ConversationInner};
use super::task::{
    self, Answer, ConversationKey, ConversationRequestKind, ConversationResponseKind,
    ConversationTask, FollowUp, Reception,
};

verus! {

/// A member is asked for its key once, while it is present. Nobody else is asked.
pub proof fn member_is_asked_once(task: ConversationTask, did: Did)
    ensures
        task::key_request(task, did) == Ok::<bool, Error>(true) <==> !ordered::did_values(
            task.pending_key_request_sent,
        ).contains(did) && task.document.spec_recipients().contains(did),
        ordered::did_values(task.pending_key_request_sent).contains(did) ==> task::key_request(
            task,
            did,
        ) == Ok::<bool, Error>(false),
        task::key_request(task, did) is Err ==> !task.document.spec_recipients().contains(did),
{
}

proof fn lemma_given(entries: Seq<KeyEntry>, did: Did, key: Vec<u8>, other: Did)
    ensures
        keys::latest_key(entries.push(KeyEntry { did, key }), did) == Some(key@),
        other != did ==> keys::latest_key(entries.push(KeyEntry { did, key }), other)
            == keys::latest_key(entries, other),
{
    assert(entries.push(KeyEntry { did, key }).drop_last() == entries);
}

/// A member of a group who asks for the own key gets it. It is the one given last, or a fresh one,
/// which is kept from then on. Nobody else gets a key, and no other key changes.
pub proof fn own_key_is_given_to_members(
    before: ConversationTask,
    after: ConversationTask,
    r: Result<Answer, Error>,
    sender: Did,
    fresh_key: Vec<u8>,
    other: Did,
)
    requires
        task::answer_request_post(
            before,
            after,
            r,
            sender,
            ConversationRequestKind::Key,
            fresh_key,
        ),
    ensures
        r is Ok <==> before.document.conversation_type is Group
            && before.document.spec_recipients().contains(sender),
        r is Err ==> after == before,
        r is Ok ==> {
            &&& r->Ok_0 is Key
            &&& keys::latest_key(after.keystore.keys@, before.own) == Some(r->Ok_0->key@)
            &&& keys::latest_key(before.keystore.keys@, before.own) matches Some(k) ==> r->Ok_0->key@
                == k && after == before
            &&& keys::latest_key(before.keystore.keys@, before.own) is None ==> r->Ok_0->key@
                == fresh_key@
            &&& r->Ok_0->save <==> keys::latest_key(before.keystore.keys@, before.own) is None
        },
        other != before.own ==> keys::latest_key(after.keystore.keys@, other) == keys::latest_key(
            before.keystore.keys@,
            other,
        ),
        after == (ConversationTask { keystore: after.keystore, ..before }),
{
    lemma_given(before.keystore.keys@, before.own, fresh_key, other);
}

/// A sign of life that is asked for is given, and changes nothing.
pub proof fn ping_is_answered(
    before: ConversationTask,
    after: ConversationTask,
    r: Result<Answer, Error>,
    sender: Did,
    fresh_key: Vec<u8>,
)
    requires
        task::answer_request_post(
            before,
            after,
            r,
            sender,
            ConversationRequestKind::Ping,
            fresh_key,
        ),
    ensures
        r matches Ok(Answer::Pong),
        after == before,
{
}

/// A key that a member of a group gives is its key from then on, and the payload of that member that
/// waited for it can be read. The keys and the payloads of others stay as they were.
pub proof fn given_key_is_kept(
    before: ConversationTask,
    after: ConversationTask,
    r: Result<FollowUp, Error>,
    sender: Did,
    key: Vec<u8>,
    other: Did,
)
    requires
        task::take_response_post(
            before,
            after,
            r,
            sender,
            ConversationResponseKind::Key { key: Ok(key) },
        ),
        ordered::distinct_keys(ordered::pending_entries(before.pending_key_exchange)),
        other != sender,
    ensures
        r is Ok <==> before.document.conversation_type is Group
            && before.document.spec_recipients().contains(sender),
        r is Err ==> after == before,
        r is Ok ==> {
            let waited = ordered::lookup(
                ordered::pending_entries(before.pending_key_exchange),
                sender,
            );
            let waits = ordered::lookup(
                ordered::pending_entries(after.pending_key_exchange),
                sender,
            );
            &&& r->Ok_0 is SaveKeystore
            &&& keys::latest_key(after.keystore.keys@, sender) == Some(key@)
            &&& waited is None ==> waits is None
            &&& waited is Some ==> waits == Some((waited->Some_0.0, true))
        },
        keys::latest_key(after.keystore.keys@, other) == keys::latest_key(
            before.keystore.keys@,
            other,
        ),
        ordered::lookup(ordered::pending_entries(after.pending_key_exchange), other)
            == ordered::lookup(ordered::pending_entries(before.pending_key_exchange), other),
        after.document == before.document,
        after.queue == before.queue,
{
    lemma_given(before.keystore.keys@, sender, key, other);
    let waiting = ordered::pending_entries(before.pending_key_exchange);
    if ordered::lookup(waiting, sender) is Some {
        let data = ordered::lookup(waiting, sender)->Some_0.0;
        ordered::insertion_is_found(waiting, sender, (data, true));
        ordered::insertion_leaves_others(waiting, sender, (data, true), other);
    }
}

/// A key that cannot be read is refused, and changes nothing.
pub proof fn unreadable_key_is_refused(
    before: ConversationTask,
    after: ConversationTask,
    r: Result<FollowUp, Error>,
    sender: Did,
    e: Error,
)
    requires
        task::take_response_post(
            before,
            after,
            r,
            sender,
            ConversationResponseKind::Key { key: Err(e) },
        ),
    ensures
        r is Err,
        after == before,
{
}

/// A sign of life that was waited for is noted. From a member of a group whose key is not there and
/// was not asked for, it leads to a request for the key, and to nothing else.
pub proof fn sign_of_life_leads_to_a_key(
    before: ConversationTask,
    after: ConversationTask,
    r: Result<FollowUp, Error>,
    sender: Did,
    other: Did,
)
    requires
        task::take_response_post(before, after, r, sender, ConversationResponseKind::Pong),
        ordered::did_values(before.pending_ping_response).no_duplicates(),
    ensures
        r == Ok::<FollowUp, Error>(FollowUp::RequestKey(sender)) <==> {
            &&& ordered::did_values(before.pending_ping_response).contains(sender)
            &&& before.document.conversation_type is Group
            &&& before.document.spec_recipients().contains(sender)
            &&& keys::latest_key(before.keystore.keys@, sender) is None
            &&& !ordered::did_values(before.pending_key_request_sent).contains(sender)
        },
        r is Ok && !(r->Ok_0 is RequestKey) ==> r->Ok_0 is Nothing,
        r is Ok && r->Ok_0 is RequestKey ==> r->Ok_0 == FollowUp::RequestKey(sender),
        !ordered::did_values(after.pending_ping_response).contains(sender),
        other != sender ==> (ordered::did_values(after.pending_ping_response).contains(other)
            <==> ordered::did_values(before.pending_ping_response).contains(other)),
        after == (ConversationTask {
            pending_ping_response: after.pending_ping_response,
            ..before
        }),
{
    let values = ordered::did_values(before.pending_ping_response);
    let rest = ordered::did_values(after.pending_ping_response);
    if values.contains(sender) {
        let at = values.index_of(sender);
        assert(values[at] == sender);
        if rest.contains(sender) {
            let i = choose|i: int| 0 <= i < rest.len() && rest[i] == sender;
            let k = if i == at {
                values.len() - 1
            } else {
                i
            };
            assert(values[k] == sender);
        }
        if values.contains(other) && other != sender {
            let i = choose|i: int| 0 <= i < values.len() && values[i] == other;
            let k = if i == values.len() - 1 {
                at
            } else {
                i
            };
            assert(rest[k] == other);
        }
        if rest.contains(other) {
            let i = choose|i: int| 0 <= i < rest.len() && rest[i] == other;
            let k = if i == at {
                values.len() - 1
            } else {
                i
            };
            assert(values[k] == other);
        }
    }
}

/// A payload in a direct conversation is read with the key shared with the other, and one in a group
/// with the key that its sender gave last. Where that is not there, the payload waits in place of an
/// earlier one of the same sender, and nothing else changes.
pub proof fn payload_is_read_or_waits(
    before: ConversationTask,
    after: ConversationTask,
    r: Result<Reception, Error>,
    sender: Did,
    data: Seq<u8>,
    other: Did,
)
    requires
        task::process_msg_event_post(before, after, r, sender, data),
        ordered::distinct_keys(ordered::pending_entries(before.pending_key_exchange)),
        other != sender,
    ensures
        before.document.conversation_type is Direct ==> {
            &&& after == before
            &&& before.document.counterpart(before.own) matches Some(d) ==> r == Ok::<
                Reception,
                Error,
            >(Reception::Shared(d))
            &&& before.document.counterpart(before.own) is None ==> r is Err
        },
        before.document.conversation_type is Group && keys::latest_key(
            before.keystore.keys@,
            sender,
        ) is Some ==> r == Ok::<Reception, Error>(Reception::Stored(sender)) && after == before,
        before.document.conversation_type is Group && keys::latest_key(
            before.keystore.keys@,
            sender,
        ) is None ==> {
            &&& r matches Ok(Reception::Waiting { ask }) && (ask <==> !ordered::did_values(
                before.pending_key_request_sent,
            ).contains(sender) && before.document.spec_recipients().contains(sender))
            &&& ordered::lookup(ordered::pending_entries(after.pending_key_exchange), sender)
                == Some((data, false))
            &&& ordered::lookup(ordered::pending_entries(after.pending_key_exchange), other)
                == ordered::lookup(ordered::pending_entries(before.pending_key_exchange), other)
            &&& after == (ConversationTask {
                pending_key_exchange: after.pending_key_exchange,
                ..before
            })
        },
{
    let waiting = ordered::pending_entries(before.pending_key_exchange);
    ordered::insertion_is_found(waiting, sender, (data, false));
    ordered::insertion_leaves_others(waiting, sender, (data, false), other);
}

/// Payloads are read as their keys have come, in order; the others wait further, in order.
pub proof fn arrivals_go_by_parts(
    a: Seq<(Did, (Seq<u8>, bool))>,
    b: Seq<(Did, (Seq<u8>, bool))>,
    did: Did,
    data: Seq<u8>,
    come: bool,
)
    ensures
        task::arrived(a + b) == task::arrived(a) + task::arrived(b),
        task::still_waiting(a + b) == task::still_waiting(a) + task::still_waiting(b),
        task::arrived(seq![(did, (data, come))]) == (if come {
            seq![(did, data)]
        } else {
            Seq::empty()
        }),
        task::still_waiting(seq![(did, (data, come))]) == (if come {
            Seq::empty()
        } else {
            seq![(did, (data, come))]
        }),
    decreases b.len(),
{
    reveal(Seq::filter);
    let one = seq![(did, (data, come))];
    let none = Seq::<(Did, (Seq<u8>, bool))>::empty();
    assert(one.drop_last() == none);
    assert(task::arrived(none) == Seq::<(Did, Seq<u8>)>::empty());
    assert(task::still_waiting(none) == none);
    assert(one.last() == (did, (data, come)));
    assert(task::arrived(one) == (if come {
        Seq::<(Did, Seq<u8>)>::empty().push((did, data))
    } else {
        Seq::<(Did, Seq<u8>)>::empty()
    }));
    assert(task::still_waiting(one) == (if come {
        none
    } else {
        none.push((did, (data, come)))
    }));
    if b.len() == 0 {
        assert(a + b == a);
        assert(b == none);
        assert(task::arrived(a) + task::arrived(b) == task::arrived(a));
        assert(task::still_waiting(a) + task::still_waiting(b) == task::still_waiting(a));
    } else {
        arrivals_go_by_parts(a, b.drop_last(), did, data, come);
        assert((a + b).drop_last() == a + b.drop_last());
        assert((a + b).last() == b.last());
        assert(task::arrived(a + b) == task::arrived(a) + task::arrived(b));
        assert(task::still_waiting(a + b) == task::still_waiting(a) + task::still_waiting(b));
    }
}

/// A task can write where it has the key: in a direct conversation where someone else is present, in
/// a group where the holder has given one.
pub proof fn task_writes_with_a_key(task: ConversationTask, member: Option<Did>)
    ensures
        ({
            let holder = match member {
                Some(m) => m,
                None => task.own,
            };
            requests::task_key_refusal(task, member) is None <==> match task.document.conversation_type {
                super::ConversationType::Direct => task.document.counterpart(task.own) is Some,
                super::ConversationType::Group => keys::latest_key(
                    task.keystore.keys@,
                    holder,
                ) is Some,
            }
        }),
{
}

/// The key of a payload in the store: the one shared with the other member of a direct conversation,
/// or the one that the holder gave last in a group that has a keystore.
pub proof fn store_key_is_the_holders(
    inner: ConversationInner,
    id: Uuid,
    member: Option<Did>,
    r: Result<ConversationKey<'_>, Error>,
    i: int,
)
    requires
        exchange::key_post(inner, id, member, r),
        store::distinct_conversations(inner.conversations@),
        0 <= i < inner.conversations@.len(),
        inner.conversations@[i].id == id,
    ensures
        inner.conversations@[i].conversation_type is Direct ==> {
            &&& inner.conversations@[i].counterpart(inner.own) matches Some(other) ==> r == Ok::<
                ConversationKey<'_>,
                Error,
            >(ConversationKey::Shared(other))
            &&& inner.conversations@[i].counterpart(inner.own) is None ==> r is Err
        },
        inner.conversations@[i].conversation_type is Group ==> {
            let holder = match member {
                Some(m) => m,
                None => inner.own,
            };
            let keystore = lifecycle::keystore_of(inner.keystores@, id);
            &&& r is Ok <==> keystore is Some && keys::latest_key(
                keystore->Some_0.keys@,
                holder,
            ) is Some
            &&& r is Ok ==> (r->Ok_0 matches ConversationKey::Stored(k) && keys::latest_key(
                keystore->Some_0.keys@,
                holder,
            ) == Some(k@))
            &&& keystore is None ==> r == Err::<ConversationKey<'_>, Error>(
                Error::OtherWithContext(Reason::KeystoreMissing),
            )
        },
{
    conversation_is_found_at_its_place(inner.conversations@, id, i);
}

/// A member of a group who asks the store for the own key gets it: the one given last, or a fresh one,
/// which is kept from then on. No other keystore changes.
pub proof fn store_gives_the_own_key(
    before: ConversationInner,
    after: ConversationInner,
    r: Result<Answer, Error>,
    id: Uuid,
    sender: Did,
    fresh_key: Vec<u8>,
    i: int,
    other: Uuid,
)
    requires
        exchange::answer_request_post(
            before,
            after,
            r,
            id,
            id,
            sender,
            ConversationRequestKind::Key,
            fresh_key,
        ),
        store::distinct_conversations(before.conversations@),
        0 <= i < before.conversations@.len(),
        before.conversations@[i].id == id,
        other != id,
    ensures
        ({
            let keystore = lifecycle::keystore_of(before.keystores@, id);
            let stored = lifecycle::keystore_of(after.keystores@, id);
            &&& r is Ok <==> before.conversations@[i].conversation_type is Group
                && before.conversations@[i].spec_recipients().contains(sender) && keystore is Some
            &&& r is Err ==> after == before
            &&& r is Ok ==> {
                let known = keys::latest_key(keystore->Some_0.keys@, before.own);
                &&& r->Ok_0 is Key
                &&& known matches Some(k) ==> r->Ok_0->key@ == k && after == before
                &&& known is None ==> r->Ok_0->key@ == fresh_key@
                &&& r->Ok_0->save <==> known is None
                &&& stored is Some
                &&& keys::latest_key(stored->Some_0.keys@, before.own) == Some(r->Ok_0->key@)
            }
        }),
        lifecycle::keystore_of(after.keystores@, other) == lifecycle::keystore_of(
            before.keystores@,
            other,
        ),
        after.conversations == before.conversations,
{
    conversation_is_found_at_its_place(before.conversations@, id, i);
    let keystore = lifecycle::keystore_of(before.keystores@, id);
    if keystore is Some {
        lemma_given(keystore->Some_0.keys@, before.own, fresh_key, sender);
    }
}

/// A key that a member of a group gives to the store is its key from then on, and all payloads of that
/// member in that conversation that wait for it are marked. Nothing else that waits is.
pub proof fn store_keeps_the_given_key(
    before: ConversationInner,
    after: ConversationInner,
    r: Result<FollowUp, Error>,
    id: Uuid,
    sender: Did,
    key: Vec<u8>,
    i: int,
    other: Uuid,
    j: int,
    k: int,
)
    requires
        exchange::take_response_post(
            before,
            after,
            r,
            id,
            id,
            sender,
            ConversationResponseKind::Key { key: Ok(key) },
        ),
        store::distinct_conversations(before.conversations@),
        0 <= i < before.conversations@.len(),
        before.conversations@[i].id == id,
        other != id,
    ensures
        r is Ok <==> before.conversations@[i].conversation_type is Group
            && before.conversations@[i].spec_recipients().contains(sender)
            && lifecycle::keystore_of(before.keystores@, id) is Some,
        r is Err ==> after == before,
        lifecycle::keystore_of(after.keystores@, other) == lifecycle::keystore_of(
            before.keystores@,
            other,
        ),
        after.conversations == before.conversations,
        r is Ok ==> {
            let stored = lifecycle::keystore_of(after.keystores@, id);
            let waited = exchange::pending_view(before.pending_key_exchange@);
            let waits = exchange::pending_view(after.pending_key_exchange@);
            &&& stored is Some
            &&& keys::latest_key(stored->Some_0.keys@, sender) == Some(key@)
            &&& waits.len() == waited.len()
            &&& 0 <= j < waited.len() ==> waits[j].0 == waited[j].0 && waits[j].1.len()
                == waited[j].1.len()
            &&& 0 <= j < waited.len() && 0 <= k < waited[j].1.len() ==> {
                let p = waited[j].1[k];
                let q = waits[j].1[k];
                &&& q.0 == p.0
                &&& q.1.0 == p.1.0
                &&& q.1.1 == (p.1.1 || waited[j].0 == id && p.0 == sender)
            }
        },
{
    conversation_is_found_at_its_place(before.conversations@, id, i);
    let keystore = lifecycle::keystore_of(before.keystores@, id);
    if keystore is Some {
        lemma_given(keystore->Some_0.keys@, sender, key, sender);
    }
}

/// The payloads of a conversation that wait for keys, as a list by conversations.
pub type Waiting = Seq<(Uuid, Seq<(Did, (Seq<u8>, bool))>)>;

/// A payload that is set aside comes last in the list of its conversation, which is made where there is
/// none. The lists of the other conversations stay as they were.
pub proof fn payload_set_aside_comes_last(
    lists: Waiting,
    id: Uuid,
    payload: (Did, (Seq<u8>, bool)),
    i: int,
)
    ensures
        0 <= i < lists.len() && lists[i].0 == id && (forall|j: int|
            0 <= j < i ==> (#[trigger] lists[j]).0 != id) ==> exchange::set_aside(
            lists,
            id,
            payload,
        ) == lists.update(i, (id, lists[i].1.push(payload))),
        (forall|j: int| 0 <= j < lists.len() ==> (#[trigger] lists[j]).0 != id)
            ==> exchange::set_aside(lists, id, payload) == lists.push((id, seq![payload])),
    decreases lists.len(),
{
    if lists.len() > 0 {
        let rest = lists.drop_first();
        if lists[0].0 != id {
            payload_set_aside_comes_last(rest, id, payload, i - 1);
            let after = exchange::set_aside(rest, id, payload);
            if 0 <= i < lists.len() && lists[i].0 == id && forall|j: int|
                0 <= j < i ==> (#[trigger] lists[j]).0 != id {
                assert(i > 0);
                assert forall|j: int| 0 <= j < i - 1 implies (#[trigger] rest[j]).0 != id by {
                    assert(lists[j + 1].0 != id);
                }
                assert(after == rest.update(i - 1, (id, lists[i].1.push(payload))));
                assert(seq![lists[0]] + after == lists.update(i, (id, lists[i].1.push(payload))));
            }
            if forall|j: int| 0 <= j < lists.len() ==> (#[trigger] lists[j]).0 != id {
                assert forall|j: int| 0 <= j < rest.len() implies (#[trigger] rest[j]).0 != id by {
                    assert(lists[j + 1].0 != id);
                }
                assert(seq![lists[0]] + after == lists.push((id, seq![payload])));
            }
        } else {
            if 0 <= i < lists.len() && lists[i].0 == id && forall|j: int|
                0 <= j < i ==> (#[trigger] lists[j]).0 != id {
                if i > 0 {
                    assert(lists[0].0 != id);
                }
            }
        }
    } else {
        assert(lists.push((id, seq![payload])) == seq![(id, seq![payload])]);
    }
}

/// What is still pending is what still waits in each list, and a list in which nothing does is gone.
pub proof fn pending_goes_by_parts(a: Waiting, b: Waiting, id: Uuid, list: Seq<(Did, (Seq<u8>, bool))>)
    ensures
        exchange::still_pending(a + b) == exchange::still_pending(a) + exchange::still_pending(b),
        exchange::still_pending(seq![(id, list)]) == (if task::still_waiting(list).len() == 0 {
            Seq::empty()
        } else {
            seq![(id, task::still_waiting(list))]
        }),
    decreases b.len(),
{
    let one = seq![(id, list)];
    let none = Waiting::empty();
    assert(one.drop_last() == none);
    assert(one.last() == (id, list));
    assert(exchange::still_pending(none) == none);
    assert(exchange::still_pending(one) == (if task::still_waiting(list).len() == 0 {
        none
    } else {
        none.push((id, task::still_waiting(list)))
    }));
    if b.len() == 0 {
        assert(a + b == a);
        assert(exchange::still_pending(a) + exchange::still_pending(b)
            == exchange::still_pending(a));
    } else {
        pending_goes_by_parts(a, b.drop_last(), id, list);
        assert((a + b).drop_last() == a + b.drop_last());
        assert((a + b).last() == b.last());
        assert(exchange::still_pending(a + b) == exchange::still_pending(a)
            + exchange::still_pending(b));
    }
}

/// What can be read is what arrived in each conversation that has a keystore, with the conversation.
pub proof fn readable_goes_by_parts(
    inner: ConversationInner,
    a: Waiting,
    b: Waiting,
    id: Uuid,
    list: Seq<(Did, (Seq<u8>, bool))>,
    k: int,
)
    ensures
        exchange::readable(inner, a + b) == exchange::readable(inner, a) + exchange::readable(
            inner,
            b,
        ),
        ({
            let there = store::has_conversation(inner.conversations@, id)
                && lifecycle::keystore_of(inner.keystores@, id) is Some;
            let read = exchange::readable(inner, seq![(id, list)]);
            &&& !there ==> read.len() == 0
            &&& there ==> read.len() == task::arrived(list).len()
            &&& there && 0 <= k < read.len() ==> read[k] == (id, task::arrived(list)[k])
        }),
    decreases b.len(),
{
    let one = seq![(id, list)];
    let none = Waiting::empty();
    assert(one.drop_last() == none);
    assert(one.last() == (id, list));
    assert(exchange::readable(inner, none) == Seq::<(Uuid, (Did, Seq<u8>))>::empty());
    if b.len() == 0 {
        assert(a + b == a);
        assert(exchange::readable(inner, a) + exchange::readable(inner, b) == exchange::readable(
            inner,
            a,
        ));
    } else {
        readable_goes_by_parts(inner, a, b.drop_last(), id, list, k);
        assert((a + b).drop_last() == a + b.drop_last());
        assert((a + b).last() == b.last());
        assert(exchange::readable(inner, a + b) == exchange::readable(inner, a)
            + exchange::readable(inner, b));
    }
}

/// A payload that comes to the store in a group is read with the key that its sender gave last. Where
/// that is not there, it waits, and nobody is asked.
pub proof fn stored_payload_is_read_or_waits(
    before: ConversationInner,
    after: ConversationInner,
    r: Result<Reception, Error>,
    id: Uuid,
    sender: Did,
    data: Seq<u8>,
    i: int,
)
    requires
        exchange::process_msg_event_post(before, after, r, id, sender, data),
        store::distinct_conversations(before.conversations@),
        0 <= i < before.conversations@.len(),
        before.conversations@[i].id == id,
        before.conversations@[i].conversation_type is Group,
    ensures
        ({
            let keystore = lifecycle::keystore_of(before.keystores@, id);
            let known = keystore is Some && keys::latest_key(
                keystore->Some_0.keys@,
                sender,
            ) is Some;
            &&& r is Ok <==> keystore is Some
            &&& r is Err ==> after == before
            &&& known ==> r == Ok::<Reception, Error>(Reception::Stored(sender)) && after == before
            &&& keystore is Some && !known ==> {
                &&& r == Ok::<Reception, Error>(Reception::Waiting { ask: false })
                &&& after == (ConversationInner {
                    pending_key_exchange: after.pending_key_exchange,
                    ..before
                })
                &&& exchange::pending_view(after.pending_key_exchange@) == exchange::set_aside(
                    exchange::pending_view(before.pending_key_exchange@),
                    id,
                    (sender, (data, false)),
                )
            }
        }),
{
    conversation_is_found_at_its_place(before.conversations@, id, i);
}

/// Where everyone is asked for a sign of life, it is expected of each of them, and of nobody else of
/// whom it was not.
pub proof fn everyone_is_asked(dids: Seq<Did>, others: Seq<Did>, did: Did)
    ensures
        task::all_inserted(dids, others).contains(did) <==> dids.contains(did) || others.contains(
            did,
        ),
        dids.no_duplicates() ==> task::all_inserted(dids, others).no_duplicates(),
    decreases others.len(),
{
    if others.len() > 0 {
        let rest = others.drop_last();
        let last = others.last();
        everyone_is_asked(dids, rest, did);
        ordered::set_takes_in(task::all_inserted(dids, rest), last, did);
        assert(others[others.len() - 1] == last);
        if rest.contains(did) {
            let i = choose|i: int| 0 <= i < rest.len() && rest[i] == did;
            assert(others[i] == did);
        }
        if others.contains(did) {
            let i = choose|i: int| 0 <= i < others.len() && others[i] == did;
            if i < rest.len() {
                assert(rest[i] == did);
            }
        }
    }
}

/// What a member asks a task is answered: a ping by a sign of life, and for the own key by the key. What
/// it gives is taken: a key is kept.
pub proof fn task_answers_and_takes(
    before: ConversationTask,
    after: ConversationTask,
    r: Result<Exchanged, Error>,
    sender: Did,
    event: ConversationRequestResponse,
    fresh_key: Vec<u8>,
)
    requires
        requests::task_exchange_post(before, after, r, sender, event, fresh_key),
    ensures
        event matches ConversationRequestResponse::Request { kind, .. } ==> {
            &&& kind is Ping ==> after == before && r == Ok::<Exchanged, Error>(
                Exchanged::Answer(Answer::Pong),
            )
            &&& kind is Key ==> {
                &&& r is Ok <==> before.document.conversation_type is Group
                    && before.document.spec_recipients().contains(sender)
                &&& r is Err ==> after == before
                &&& r is Ok ==> r->Ok_0 is Answer && r->Ok_0->Answer_0 is Key
                    && keys::latest_key(after.keystore.keys@, before.own) == Some(
                    r->Ok_0->Answer_0->key@,
                )
            }
            &&& kind is Other ==> after == before && r == Ok::<Exchanged, Error>(
                Exchanged::Answer(Answer::Nothing),
            )
        },
        event matches ConversationRequestResponse::Response {
            kind: ConversationResponseKind::Other,
            ..
        } ==> after == before && r == Ok::<Exchanged, Error>(
            Exchanged::FollowUp(FollowUp::Nothing),
        ),
        event matches ConversationRequestResponse::Response {
            kind: ConversationResponseKind::Key { key: Ok(key) },
            ..
        } ==> {
            &&& r is Ok <==> before.document.conversation_type is Group
                && before.document.spec_recipients().contains(sender)
            &&& r is Err ==> after == before
            &&& r is Ok ==> r->Ok_0 is FollowUp && keys::latest_key(
                after.keystore.keys@,
                sender,
            ) == Some(key@)
        },
{
    match event {
        ConversationRequestResponse::Request { kind, .. } => {
            match kind {
                ConversationRequestKind::Key => {
                    own_key_is_given_to_members(
                        before,
                        after,
                        requests::as_answer(r),
                        sender,
                        fresh_key,
                        sender,
                    );
                },
                ConversationRequestKind::Ping => {
                    ping_is_answered(before, after, requests::as_answer(r), sender, fresh_key);
                },
                ConversationRequestKind::Other => {},
            }
        },
        ConversationRequestResponse::Response { kind, .. } => {
            if let ConversationResponseKind::Key { key: Ok(key) } = kind {
                lemma_given(before.keystore.keys@, sender, key, sender);
            }
        },
    }
}

/// What a member asks the store in a conversation is answered by the key of that conversation, and a key
/// that it gives is kept there.
pub proof fn store_answers_and_takes(
    before: ConversationInner,
    after: ConversationInner,
    r: Result<Exchanged, Error>,
    id: Uuid,
    sender: Did,
    event: ConversationRequestResponse,
    fresh_key: Vec<u8>,
    i: int,
    other: Uuid,
)
    requires
        requests::store_exchange_post(before, after, r, id, sender, event, fresh_key),
        event is Request ==> event->Request_conversation_id == id,
        event is Response ==> event->Response_conversation_id == id,
        store::distinct_conversations(before.conversations@),
        0 <= i < before.conversations@.len(),
        before.conversations@[i].id == id,
        other != id,
    ensures
        event matches ConversationRequestResponse::Request {
            kind: ConversationRequestKind::Key,
            ..
        } ==> {
            let stored = lifecycle::keystore_of(after.keystores@, id);
            &&& r is Ok <==> before.conversations@[i].conversation_type is Group
                && before.conversations@[i].spec_recipients().contains(sender)
                && lifecycle::keystore_of(before.keystores@, id) is Some
            &&& r is Err ==> after == before
            &&& r is Ok ==> r->Ok_0 is Answer && r->Ok_0->Answer_0 is Key && stored is Some
                && keys::latest_key(stored->Some_0.keys@, before.own) == Some(
                r->Ok_0->Answer_0->key@,
            )
            &&& lifecycle::keystore_of(after.keystores@, other) == lifecycle::keystore_of(
                before.keystores@,
                other,
            )
        },
        event matches ConversationRequestResponse::Response {
            kind: ConversationResponseKind::Key { key: Ok(key) },
            ..
        } ==> {
            let stored = lifecycle::keystore_of(after.keystores@, id);
            &&& r is Ok <==> before.conversations@[i].conversation_type is Group
                && before.conversations@[i].spec_recipients().contains(sender)
                && lifecycle::keystore_of(before.keystores@, id) is Some
            &&& r is Err ==> after == before
            &&& r is Ok ==> r->Ok_0 is FollowUp && stored is Some && keys::latest_key(
                stored->Some_0.keys@,
                sender,
            ) == Some(key@)
            &&& lifecycle::keystore_of(after.keystores@, other) == lifecycle::keystore_of(
                before.keystores@,
                other,
            )
        },
{
    match event {
        ConversationRequestResponse::Request { kind, .. } => {
            if kind is Key {
                store_gives_the_own_key(
                    before,
                    after,
                    requests::as_answer(r),
                    id,
                    sender,
                    fresh_key,
                    i,
                    other,
                );
            }
        },
        ConversationRequestResponse::Response { kind, .. } => {
            if let ConversationResponseKind::Key { key: Ok(key) } = kind {
                store_keeps_the_given_key(
                    before,
                    after,
                    requests::as_follow_up(r),
                    id,
                    sender,
                    key,
                    i,
                    other,
                    0,
                    0,
                );
            }
        },
    }
}

/// What a member asks or gives in a conversation that is not there is refused, and so is a key that
/// cannot be read. What is no key and asks for none is not answered. None of it changes the store.
pub proof fn store_answers_without_a_change(
    before: ConversationInner,
    after: ConversationInner,
    id: Uuid,
    about: Uuid,
    sender: Did,
    fresh_key: Vec<u8>,
    answer: Result<Answer, Error>,
    request: ConversationRequestKind,
    follow_up: Result<FollowUp, Error>,
    response: ConversationResponseKind,
)
    ensures
        exchange::answer_request_post(
            before,
            after,
            answer,
            id,
            about,
            sender,
            request,
            fresh_key,
        ) ==> {
            &&& (forall|i: int|
                0 <= i < before.conversations@.len() ==> (
                #[trigger] before.conversations@[i]).id != id) ==> answer == Err::<Answer, Error>(
                Error::InvalidConversation,
            ) && after == before
            &&& store::has_conversation(before.conversations@, id) && !(request is Key) ==> answer
                == Ok::<Answer, Error>(Answer::Nothing) && after == before
        },
        exchange::take_response_post(before, after, follow_up, id, about, sender, response) ==> {
            &&& (forall|i: int|
                0 <= i < before.conversations@.len() ==> (
                #[trigger] before.conversations@[i]).id != id) ==> follow_up == Err::<
                FollowUp,
                Error,
            >(Error::InvalidConversation) && after == before
            &&& store::has_conversation(before.conversations@, id) && !(response is Key)
                ==> follow_up == Ok::<FollowUp, Error>(FollowUp::Nothing) && after == before
            &&& response is Key && response->key is Err ==> follow_up is Err && after == before
            &&& response is Key && response->key is Err && follow_up is Err && exchange::document_of(
                before,
                id,
            ).conversation_type is Group && exchange::document_of(
                before,
                id,
            ).spec_recipients().contains(sender) && store::has_conversation(
                before.conversations@,
                id,
            ) && store::has_conversation(before.conversations@, about) && lifecycle::keystore_of(
                before.keystores@,
                about,
            ) is Some ==> follow_up->Err_0 == response->key->Err_0
        },
{
}

/// A conversation can be read where there is a source of its key: another member who is present in a
/// direct conversation, a keystore in a group.
pub proof fn conversation_is_read_by_its_source(inner: ConversationInner, id: Uuid, i: int)
    requires
        store::distinct_conversations(inner.conversations@),
        0 <= i < inner.conversations@.len(),
        inner.conversations@[i].id == id,
    ensures
        inner.conversations@[i].conversation_type is Direct ==> (exchange::source_refusal(
            inner,
            id,
        ) is None <==> inner.conversations@[i].counterpart(inner.own) is Some),
        inner.conversations@[i].conversation_type is Group ==> (exchange::source_refusal(
            inner,
            id,
        ) is None <==> lifecycle::keystore_of(inner.keystores@, id) is Some),
{
    conversation_is_found_at_its_place(inner.conversations@, id, i);
}

/// The store can write in a conversation where it has the key: in a direct conversation where someone
/// else is present, in a group with a keystore where the holder has given one.
pub proof fn store_writes_with_a_key(inner: ConversationInner, id: Uuid, member: Option<Did>, i: int)
    requires
        store::distinct_conversations(inner.conversations@),
    ensures
        (forall|j: int|
            0 <= j < inner.conversations@.len() ==> (#[trigger] inner.conversations@[j]).id != id)
            ==> exchange::key_refusal(inner, id, member) == Some(Error::InvalidConversation),
        0 <= i < inner.conversations@.len() && inner.conversations@[i].id == id ==> {
            let holder = match member {
                Some(m) => m,
                None => inner.own,
            };
            let keystore = lifecycle::keystore_of(inner.keystores@, id);
            exchange::key_refusal(inner, id, member) is None
                <==> match inner.conversations@[i].conversation_type {
                super::ConversationType::Direct => inner.conversations@[i].counterpart(
                    inner.own,
                ) is Some,
                super::ConversationType::Group => keystore is Some && keys::latest_key(
                    keystore->Some_0.keys@,
                    holder,
                ) is Some,
            }
        },
{
    if 0 <= i < inner.conversations@.len() && inner.conversations@[i].id == id {
        conversation_is_found_at_its_place(inner.conversations@, id, i);
    }
}

} // verus!
