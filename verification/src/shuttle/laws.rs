//! What holds of the mailboxes and of the requests of the node, said of what waits for whom.
use vstd::prelude::*;
use std::collections::BTreeMap;
use crate::error::{Error, Reason};
use crate::ids::{Cid, Did, Uuid};
use super::config;
use super::mailbox::{self, MemberBox, MessageStorage};
use super::protocol::Response;
use super::server::{self, Behaviour, Forward, Readiness, RequestId, Settlement};

verus! {

/// What waits for a member of a conversation is what its box holds, and nothing does where it has no
/// box.
pub proof fn box_holds_what_waits(
    storage: MessageStorage,
    i: int,
    conversation_id: Uuid,
    did: Did,
)
    requires
        storage.list is Some,
        forall|a: int, b: int|
            0 <= a < b < storage.list->Some_0@.len() ==> (#[trigger] storage.list->Some_0@[a]).did
                != (#[trigger] storage.list->Some_0@[b]).did
                || storage.list->Some_0@[a].conversation_id
                != storage.list->Some_0@[b].conversation_id,
    ensures
        0 <= i < storage.list->Some_0@.len() && storage.list->Some_0@[i].did == did
            && storage.list->Some_0@[i].conversation_id == conversation_id ==> storage.waiting(
            conversation_id,
            did,
        ) == Some(storage.list->Some_0@[i].messages@),
        (forall|k: int|
            0 <= k < storage.list->Some_0@.len() ==> (#[trigger] storage.list->Some_0@[k]).did
                != did || storage.list->Some_0@[k].conversation_id != conversation_id)
            ==> storage.waiting(conversation_id, did) is None,
{
    lemma_box(storage.list->Some_0@, i, conversation_id, did);
}

proof fn lemma_box(boxes: Seq<MemberBox>, i: int, conversation_id: Uuid, did: Did)
    requires
        forall|a: int, b: int|
            0 <= a < b < boxes.len() ==> (#[trigger] boxes[a]).did != (#[trigger] boxes[b]).did
                || boxes[a].conversation_id != boxes[b].conversation_id,
    ensures
        0 <= i < boxes.len() && boxes[i].did == did && boxes[i].conversation_id == conversation_id
            ==> mailbox::box_of(boxes, conversation_id, did) == Some(boxes[i].messages@),
        (forall|k: int|
            0 <= k < boxes.len() ==> (#[trigger] boxes[k]).did != did || boxes[k].conversation_id
                != conversation_id) ==> mailbox::box_of(boxes, conversation_id, did) is None,
    decreases boxes.len(),
{
    if boxes.len() > 0 {
        let head = boxes.drop_last();
        assert forall|a: int, b: int| 0 <= a < b < head.len() implies (#[trigger] head[a]).did != (
        #[trigger] head[b]).did || head[a].conversation_id != head[b].conversation_id by {
            assert(boxes[a].did != boxes[b].did || boxes[a].conversation_id
                != boxes[b].conversation_id);
        }
        lemma_box(head, i, conversation_id, did);
        let last = boxes.len() - 1;
        if forall|k: int|
            0 <= k < boxes.len() ==> (#[trigger] boxes[k]).did != did || boxes[k].conversation_id
                != conversation_id {
            assert(boxes[last].did != did || boxes[last].conversation_id != conversation_id);
            assert forall|k: int| 0 <= k < head.len() implies (#[trigger] head[k]).did != did
                || head[k].conversation_id != conversation_id by {
                assert(boxes[k].did != did || boxes[k].conversation_id != conversation_id);
            }
        }
        if 0 <= i < head.len() && boxes[i].did == did && boxes[i].conversation_id
            == conversation_id {
            assert(boxes[i].did != boxes[last].did || boxes[i].conversation_id
                != boxes[last].conversation_id);
            assert(head[i] == boxes[i]);
        }
    }
}

/// A message is put into mailboxes for a registered member, where it can be had, and for nobody else
/// and no other.
pub proof fn message_is_put_for_the_registered(
    before: MessageStorage,
    after: MessageStorage,
    r: Result<(), Error>,
    registered: Seq<Did>,
    member: Did,
    recipients: Seq<Did>,
    conversation_id: Uuid,
    message_id: Uuid,
    cid: Cid,
    available: bool,
)
    requires
        mailbox::insert_post(
            before,
            after,
            r,
            registered,
            member,
            recipients,
            conversation_id,
            message_id,
            cid,
            available,
        ),
    ensures
        r is Ok <==> registered.contains(member) && available,
        !registered.contains(member) ==> r == Err::<(), Error>(Error::IdentityDoesntExist),
        registered.contains(member) && !available ==> r == Err::<(), Error>(
            Error::OtherWithContext(Reason::MessageUnavailable),
        ),
        r is Err ==> after == before,
{
}

/// Putting a message into mailboxes changes nothing for an identity that is not among the recipients,
/// nor for one that is not registered, nor in another conversation.
pub proof fn others_get_nothing(
    before: MessageStorage,
    after: MessageStorage,
    r: Result<(), Error>,
    registered: Seq<Did>,
    member: Did,
    recipients: Seq<Did>,
    conversation_id: Uuid,
    message_id: Uuid,
    cid: Cid,
    available: bool,
    d: Did,
    c: Uuid,
)
    requires
        mailbox::insert_post(
            before,
            after,
            r,
            registered,
            member,
            recipients,
            conversation_id,
            message_id,
            cid,
            available,
        ),
        !recipients.contains(d) || !registered.contains(d) || c != conversation_id,
    ensures
        after.waiting(c, d) == before.waiting(c, d),
{
}

/// A message that is put into mailboxes waits for every registered recipient, as it was put. What else
/// waited there still does.
pub proof fn recipients_get_the_message(
    before: MessageStorage,
    after: MessageStorage,
    registered: Seq<Did>,
    member: Did,
    recipients: Seq<Did>,
    conversation_id: Uuid,
    message_id: Uuid,
    cid: Cid,
    available: bool,
    d: Did,
    other: Uuid,
)
    requires
        mailbox::insert_post(
            before,
            after,
            Ok(()),
            registered,
            member,
            recipients,
            conversation_id,
            message_id,
            cid,
            available,
        ),
        recipients.contains(d),
        registered.contains(d),
        other != message_id,
    ensures
        after.waiting(conversation_id, d) is Some,
        after.waiting(conversation_id, d)->Some_0.contains_key(message_id),
        after.waiting(conversation_id, d)->Some_0[message_id] == cid,
        after.waiting(conversation_id, d)->Some_0.contains_key(other) <==> before.waiting(
            conversation_id,
            d,
        ) is Some && before.waiting(conversation_id, d)->Some_0.contains_key(other),
        before.waiting(conversation_id, d) is Some && before.waiting(
            conversation_id,
            d,
        )->Some_0.contains_key(other) ==> after.waiting(conversation_id, d)->Some_0[other]
            == before.waiting(conversation_id, d)->Some_0[other],
{
    let there = after.waiting(conversation_id, d);
}

/// A delivery is noted where the message waits for the registered member, and takes it, and nothing
/// else, out of the member's mailbox.
pub proof fn delivery_takes_one_message_out(
    before: MessageStorage,
    after: MessageStorage,
    r: Result<(), Error>,
    registered: Seq<Did>,
    member: Did,
    conversation_id: Uuid,
    message_id: Uuid,
    c: Uuid,
    d: Did,
    other: Uuid,
)
    requires
        mailbox::delivered_post(
            before,
            after,
            r,
            registered,
            member,
            conversation_id,
            message_id,
        ),
    ensures
        r is Ok <==> registered.contains(member) && before.waiting(conversation_id, member) is Some
            && before.waiting(conversation_id, member)->Some_0.contains_key(message_id),
        r is Err ==> after == before,
        r is Ok ==> {
            &&& after.waiting(conversation_id, member) is Some
            &&& !after.waiting(conversation_id, member)->Some_0.contains_key(message_id)
            &&& other != message_id ==> (after.waiting(
                conversation_id,
                member,
            )->Some_0.contains_key(other) <==> before.waiting(
                conversation_id,
                member,
            )->Some_0.contains_key(other))
            &&& other != message_id && before.waiting(conversation_id, member)->Some_0.contains_key(
                other,
            ) ==> after.waiting(conversation_id, member)->Some_0[other] == before.waiting(
                conversation_id,
                member,
            )->Some_0[other]
            &&& c != conversation_id || d != member ==> after.waiting(c, d) == before.waiting(c, d)
        },
{
    let there = after.waiting(conversation_id, member);
}

/// Taking the mailboxes of a conversation away leaves those of all others.
pub proof fn removed_mailboxes_are_those_of_one_conversation(
    before: MessageStorage,
    after: MessageStorage,
    r: Result<(), Error>,
    registered: Seq<Did>,
    creator: Did,
    conversation_id: Uuid,
    c: Uuid,
    d: Did,
)
    requires
        mailbox::remove_mailbox_post(before, after, r, registered, creator, conversation_id),
    ensures
        r is Ok <==> registered.contains(creator) && before.list is Some,
        !registered.contains(creator) ==> r == Err::<(), Error>(Error::IdentityDoesntExist),
        r is Err ==> after == before,
        r is Ok ==> after.waiting(conversation_id, d) is None,
        c != conversation_id ==> after.waiting(c, d) == before.waiting(c, d),
{
}

/// A registered member is shown exactly the messages that wait for it in a conversation.
pub proof fn unsent_are_those_that_wait(
    storage: MessageStorage,
    r: Result<BTreeMap<u128, Cid>, Error>,
    registered: Seq<Did>,
    member: Did,
    conversation_id: Uuid,
)
    requires
        mailbox::unsent_messages_post(storage, r, registered, member, conversation_id),
    ensures
        r is Ok <==> registered.contains(member) && (storage.list is None || storage.waiting(
            conversation_id,
            member,
        ) is Some),
        storage.waiting(conversation_id, member) is Some && registered.contains(member)
            ==> r->Ok_0@ == storage.waiting(conversation_id, member)->Some_0,
        storage.list is None && registered.contains(member) ==> r->Ok_0@.dom() == Set::<
            Uuid,
        >::empty(),
        !registered.contains(member) ==> r == Err::<BTreeMap<u128, Cid>, Error>(
            Error::IdentityDoesntExist,
        ),
{
    if storage.list is None && registered.contains(member) {
        assert(r->Ok_0@.dom() == Set::<Uuid>::empty());
    }
}

proof fn lemma_without(list: Seq<RequestId>, id: RequestId, other: RequestId)
    ensures
        server::without(list, id).contains(other) <==> list.contains(other) && other != id,
    decreases list.len(),
{
    reveal(Seq::filter);
    if list.len() > 0 {
        let head = list.drop_last();
        lemma_without(head, id, other);
        let rest = server::without(head, id);
        let all = server::without(list, id);
        assert(list[list.len() - 1] == list.last());
        if head.contains(other) {
            let i = choose|i: int| 0 <= i < head.len() && head[i] == other;
            assert(list[i] == other);
        }
        if list.contains(other) && list.last() != other {
            let i = choose|i: int| 0 <= i < list.len() && list[i] == other;
            assert(head[i] == other);
        }
        if rest.contains(other) {
            let i = choose|i: int| 0 <= i < rest.len() && rest[i] == other;
            assert(all[i] == other);
        }
        if list.last() != id {
            assert(all[rest.len() as int] == list.last());
        }
        if all.contains(other) && !rest.contains(other) {
            let i = choose|i: int| 0 <= i < all.len() && all[i] == other;
            if i < rest.len() {
                assert(rest[i] == other);
            }
        }
    }
}

proof fn lemma_inserted(list: Seq<RequestId>, id: RequestId, other: RequestId)
    ensures
        crate::ordered::set_inserted(list, id).contains(other) <==> list.contains(other) || other
            == id,
{
    let all = crate::ordered::set_inserted(list, id);
    if !list.contains(id) {
        assert(all[list.len() as int] == id);
    }
    if list.contains(other) {
        let i = choose|i: int| 0 <= i < list.len() && list[i] == other;
        assert(all[i] == other);
    }
    if all.contains(other) {
        let i = choose|i: int| 0 <= i < all.len() && all[i] == other;
        if i < list.len() {
            assert(list[i] == other);
        }
    }
}

/// A request whose signature holds is queued, and the others stay as they are. One whose signature
/// does not hold is answered with an error at once, and not queued.
pub proof fn genuine_request_is_queued(
    before: Behaviour,
    after: Behaviour,
    r: Option<Response>,
    id: RequestId,
    genuine: bool,
    other: RequestId,
)
    requires
        server::process_request_post(before, after, r, id, genuine),
    ensures
        genuine ==> r is None && after.queue_event@.contains(id),
        !genuine ==> (r matches Some(Response::Error(_))) && after == before,
        other != id ==> (after.queue_event@.contains(other) <==> before.queue_event@.contains(
            other,
        )),
        after.waiting_on_request == before.waiting_on_request,
{
    lemma_inserted(before.queue_event@, id, id);
    lemma_inserted(before.queue_event@, id, other);
}

/// A request whose answer could not be sent is forgotten, and no other is.
pub proof fn failed_request_is_forgotten(
    before: Behaviour,
    after: Behaviour,
    id: RequestId,
    other: RequestId,
)
    requires
        server::inbound_failure_post(before, after, id),
    ensures
        !after.queue_event@.contains(id),
        !after.waiting_on_request@.contains(id),
        other != id ==> (after.queue_event@.contains(other) <==> before.queue_event@.contains(
            other,
        )),
        other != id ==> (after.waiting_on_request@.contains(other)
            <==> before.waiting_on_request@.contains(other)),
{
    lemma_without(before.queue_event@, id, id);
    lemma_without(before.queue_event@, id, other);
    lemma_without(before.waiting_on_request@, id, id);
    lemma_without(before.waiting_on_request@, id, other);
}

/// A queued request goes to the worker exactly where that is ready, and waits for its answer from then
/// on. It is given up where the worker is gone, and stays queued where the worker is busy.
pub proof fn queued_request_is_handed_on(
    before: Behaviour,
    after: Behaviour,
    r: Forward,
    id: RequestId,
    readiness: Readiness,
    other: RequestId,
)
    requires
        server::forward_post(before, after, r, id, readiness),
    ensures
        r == Forward::Send <==> before.queue_event@.contains(id) && readiness == Readiness::Ready,
        r == Forward::Drop <==> before.queue_event@.contains(id) && readiness == Readiness::Closed,
        r == Forward::Keep ==> after == before,
        r == Forward::Send ==> after.waiting_on_request@.contains(id),
        r == Forward::Drop ==> after.waiting_on_request == before.waiting_on_request,
        r != Forward::Keep ==> !after.queue_event@.contains(id),
        other != id ==> (after.queue_event@.contains(other) <==> before.queue_event@.contains(
            other,
        )),
        other != id ==> (after.waiting_on_request@.contains(other)
            <==> before.waiting_on_request@.contains(other)),
{
    lemma_without(before.queue_event@, id, id);
    lemma_without(before.queue_event@, id, other);
    lemma_inserted(before.waiting_on_request@, id, id);
    lemma_inserted(before.waiting_on_request@, id, other);
}

/// An answer is sent once, when it has come for a request that waits for it. A request that is
/// answered or given up waits no more.
pub proof fn answer_is_sent_once(
    before: Behaviour,
    after: Behaviour,
    r: bool,
    id: RequestId,
    settlement: Settlement,
    other: RequestId,
)
    requires
        server::settle_post(before, after, r, id, settlement),
    ensures
        r <==> before.waiting_on_request@.contains(id) && settlement == Settlement::Answered,
        settlement != Settlement::Pending ==> !after.waiting_on_request@.contains(id),
        settlement == Settlement::Pending ==> after == before,
        other != id ==> (after.waiting_on_request@.contains(other)
            <==> before.waiting_on_request@.contains(other)),
        after.queue_event == before.queue_event,
{
    lemma_without(before.waiting_on_request@, id, id);
    lemma_without(before.waiting_on_request@, id, other);
}

/// A text is cut at its commas, and at nothing else.
pub proof fn text_is_cut_at_its_commas(a: Seq<char>, b: Seq<char>)
    ensures
        config::comma_parts(a + seq![','] + b) == config::comma_parts(a) + config::comma_parts(b),
        (forall|i: int| 0 <= i < a.len() ==> #[trigger] a[i] != ',') ==> config::comma_parts(a)
            == seq![a],
    decreases a.len() + b.len(),
{
    lemma_cut(a, b);
    lemma_whole(a);
}

proof fn lemma_parts(s: Seq<char>)
    ensures
        config::comma_parts(s).len() >= 1,
    decreases s.len(),
{
    if s.len() > 0 {
        lemma_parts(s.drop_last());
    }
}

proof fn lemma_cut(a: Seq<char>, b: Seq<char>)
    ensures
        config::comma_parts(a + seq![','] + b) == config::comma_parts(a) + config::comma_parts(b),
    decreases b.len(),
{
    let all = a + seq![','] + b;
    let front = config::comma_parts(a);
    lemma_parts(a);
    lemma_parts(b);
    if b.len() == 0 {
        assert(all.drop_last() == a);
        assert(all.last() == ',');
        assert(front.push(Seq::empty()) == front + seq![Seq::<char>::empty()]);
    } else {
        let head = b.drop_last();
        lemma_cut(a, head);
        lemma_parts(head);
        let rest = config::comma_parts(head);
        assert(all.drop_last() == a + seq![','] + head);
        assert(all.last() == b.last());
        if b.last() == ',' {
            assert((front + rest).push(Seq::empty()) == front + rest.push(Seq::empty()));
        } else {
            let joined = front + rest;
            assert(joined.last() == rest.last());
            let changed = rest.last().push(b.last());
            assert(joined.update(joined.len() - 1, changed) == front + rest.update(
                rest.len() - 1,
                changed,
            ));
        }
    }
}

proof fn lemma_whole(s: Seq<char>)
    ensures
        (forall|i: int| 0 <= i < s.len() ==> #[trigger] s[i] != ',') ==> config::comma_parts(s)
            == seq![s],
    decreases s.len(),
{
    if s.len() > 0 && forall|i: int| 0 <= i < s.len() ==> #[trigger] s[i] != ',' {
        let head = s.drop_last();
        assert forall|i: int| 0 <= i < head.len() implies #[trigger] head[i] != ',' by {
            assert(s[i] != ',');
        }
        lemma_whole(head);
        assert(s[s.len() - 1] != ',');
        assert(head.push(s.last()) == s);
        assert(seq![head].update(0, s) == seq![s]);
    } else if s.len() == 0 {
        assert(s == Seq::<char>::empty());
    }
}

/// Each address is kept once, where it comes first; a list without repetition is kept as it is.
pub proof fn addresses_are_kept_once(list: Seq<Seq<char>>, address: Seq<char>)
    ensures
        config::each_once(list).no_duplicates(),
        config::each_once(list).contains(address) <==> list.contains(address),
        list.no_duplicates() ==> config::each_once(list) == list,
    decreases list.len(),
{
    if list.len() > 0 {
        let head = list.drop_last();
        let last = list.last();
        addresses_are_kept_once(head, address);
        addresses_are_kept_once(head, last);
        let rest = config::each_once(head);
        let all = config::each_once(list);
        assert(list[list.len() - 1] == last);
        assert(list.contains(address) <==> head.contains(address) || address == last) by {
            if head.contains(address) {
                let i = choose|i: int| 0 <= i < head.len() && head[i] == address;
                assert(list[i] == address);
            }
            if list.contains(address) && address != last {
                let i = choose|i: int| 0 <= i < list.len() && list[i] == address;
                assert(head[i] == address);
            }
        }
        if !rest.contains(last) {
            assert(all[rest.len() as int] == last);
            if rest.contains(address) {
                let i = choose|i: int| 0 <= i < rest.len() && rest[i] == address;
                assert(all[i] == address);
            }
            if all.contains(address) && address != last {
                let i = choose|i: int| 0 <= i < all.len() && all[i] == address;
                assert(rest[i] == address);
            }
        }
        if list.no_duplicates() {
            assert(head.no_duplicates());
            if head.contains(last) {
                let i = choose|i: int| 0 <= i < head.len() && head[i] == last;
                assert(list[i] == list[list.len() - 1]);
            }
            assert(head.push(last) == list);
        }
    } else {
        assert(config::each_once(list) == list);
    }
}

/// A node listens where it is told to, by the command line, the environment or both, and else on the two
/// default addresses.
pub proof fn node_listens_where_told(
    env: Option<Seq<Seq<char>>>,
    cli: Seq<Seq<char>>,
    address: Seq<char>,
)
    ensures
        env is None && cli.len() > 0 ==> config::listen_addresses(env, cli) == cli,
        env is Some && env->Some_0.len() > 0 && cli.len() == 0 ==> config::listen_addresses(
            env,
            cli,
        ) == env->Some_0,
        env is Some && env->Some_0.len() > 0 && cli.len() > 0 ==> (config::listen_addresses(
            env,
            cli,
        ).contains(address) <==> cli.contains(address) || env->Some_0.contains(address)),
        cli.len() == 0 && (env is None || env->Some_0.len() == 0) ==> config::listen_addresses(
            env,
            cli,
        ) == seq!["/ip4/0.0.0.0/tcp/0"@, "/ip4/0.0.0.0/udp/0/quic-v1"@],
{
    if env is Some && cli.len() > 0 {
        let given = env->Some_0;
        let both = cli + given;
        addresses_are_kept_once(both, address);
        if cli.contains(address) {
            let i = choose|i: int| 0 <= i < cli.len() && cli[i] == address;
            assert(both[i] == address);
        }
        if given.contains(address) {
            let i = choose|i: int| 0 <= i < given.len() && given[i] == address;
            assert(both[cli.len() + i] == address);
        }
        if both.contains(address) {
            let i = choose|i: int| 0 <= i < both.len() && both[i] == address;
            if i < cli.len() {
                assert(cli[i] == address);
            } else {
                assert(given[i - cli.len()] == address);
            }
        }
    }
}

/// A kind of store is the one that its name says, and no other name stands for one.
pub proof fn store_is_the_named_one(name: Seq<char>)
    ensures
        config::store_named(name) == Some(config::StoreType::FlatFS) <==> name == seq![
            'f',
            'l',
            'a',
            't',
            'f',
            's',
        ],
        config::store_named(name) == Some(config::StoreType::Sled) <==> name == seq![
            's',
            'l',
            'e',
            'd',
        ],
{
    reveal_strlit("flatfs");
    reveal_strlit("sled");
    assert("flatfs"@ == seq!['f', 'l', 'a', 't', 'f', 's']);
    assert("sled"@ == seq!['s', 'l', 'e', 'd']);
    assert("flatfs"@.len() != "sled"@.len());
}

} // verus!
