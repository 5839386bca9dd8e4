//! What holds of the reactions to a message, said of those who hold them.
use vstd::prelude::*;
use crate::error::{Error, LengthOf};
use crate::ids::{self, Did};
use crate::ordered;
use super::message::{self, Reactions};
use super::ReactionState;

verus! {

/// Whoever holds a reaction, at whatever place, can take it back, and nobody else can. Whoever does
/// not hold it can add it, as long as there are fewer kinds of reactions than allowed.
pub proof fn reaction_is_the_holders(
    entries: Reactions,
    i: int,
    who: Did,
    emoji: Seq<char>,
    max: usize,
)
    requires
        ordered::distinct_keys(entries),
        entries.len() <= usize::MAX,
    ensures
        0 <= i < entries.len() && entries[i].0 == emoji ==> {
            &&& message::reaction_refusal(entries, who, ReactionState::Remove, emoji, max) is None
                <==> exists|k: int|
                0 <= k < entries[i].1.len() && #[trigger] entries[i].1[k] == who
            &&& message::reaction_refusal(entries, who, ReactionState::Add, emoji, max) is None
                <==> entries.len() < max && forall|k: int|
                0 <= k < entries[i].1.len() ==> #[trigger] entries[i].1[k] != who
        },
        (forall|j: int| 0 <= j < entries.len() ==> (#[trigger] entries[j]).0 != emoji) ==> {
            &&& message::reaction_refusal(entries, who, ReactionState::Remove, emoji, max)
                == Some(Error::ReactionDoesntExist)
            &&& message::reaction_refusal(entries, who, ReactionState::Add, emoji, max) is None
                <==> entries.len() < max
        },
        entries.len() >= max ==> message::reaction_refusal(
            entries,
            who,
            ReactionState::Add,
            emoji,
            max,
        ) == Some(
            Error::InvalidLength {
                context: LengthOf::Reactions,
                current: entries.len() as usize,
                minimum: None,
                maximum: Some(max),
            },
        ),
        message::reaction_refusal(entries, who, ReactionState::Remove, emoji, max) matches Some(e)
            ==> e == Error::ReactionDoesntExist,
        entries.len() < max ==> (message::reaction_refusal(
            entries,
            who,
            ReactionState::Add,
            emoji,
            max,
        ) matches Some(e) ==> e == Error::ReactionExist),
{
    if 0 <= i < entries.len() && entries[i].0 == emoji {
        ordered::lemma_key_index(entries, emoji, i);
        assert(message::reactors(entries, emoji) == entries[i].1);
    }
    if forall|j: int| 0 <= j < entries.len() ==> (#[trigger] entries[j]).0 != emoji {
        assert(!ordered::has_key(entries, emoji));
        assert(message::reactors(entries, emoji).len() == 0);
    }
}

/// Adding a reaction puts the one who reacts behind those who hold it. Taking it back leaves the
/// others, in their order. A reaction that nobody holds any more is gone.
pub proof fn holders_change_by_one(
    entries: Reactions,
    who: Did,
    state: ReactionState,
    emoji: Seq<char>,
)
    requires
        ordered::distinct_keys(entries),
    ensures
        state is Add ==> message::reactors(message::reacted(entries, who, state, emoji), emoji)
            == message::reactors(entries, emoji).push(who),
        state is Remove ==> message::reactors(message::reacted(entries, who, state, emoji), emoji)
            == ids::without(message::reactors(entries, emoji), who),
        state is Remove ==> forall|k: int|
            0 <= k < message::reactors(entries, emoji).len() && message::reactors(
                entries,
                emoji,
            ).no_duplicates() && #[trigger] message::reactors(entries, emoji)[k] == who
                ==> message::reactors(message::reacted(entries, who, state, emoji), emoji)
                == message::reactors(entries, emoji).take(k) + message::reactors(
                entries,
                emoji,
            ).skip(k + 1),
        state is Remove && (forall|k: int|
            0 <= k < message::reactors(entries, emoji).len() ==> #[trigger] message::reactors(
                entries,
                emoji,
            )[k] == who) ==> forall|j: int|
            0 <= j < message::reacted(entries, who, state, emoji).len() ==> (
            #[trigger] message::reacted(entries, who, state, emoji)[j]).0 != emoji,
{
    let held = message::reactors(entries, emoji);
    let after = message::reacted(entries, who, state, emoji);
    match state {
        ReactionState::Add => {
            ordered::insertion_is_found(entries, emoji, held.push(who));
        },
        ReactionState::Remove => {
            let rest = ids::without(held, who);
            if forall|k: int| 0 <= k < held.len() ==> #[trigger] held[k] == who {
                if rest.len() > 0 {
                    ids::without_members(held, who, rest[0]);
                    assert(rest.contains(rest[0]));
                }
            }
            assert forall|k: int|
                0 <= k < held.len() && held.no_duplicates() && #[trigger] held[k] == who implies rest
                == held.take(k) + held.skip(k + 1) by {
                ids::without_takes_out(held, who, k);
            }
            if rest.len() == 0 {
                ordered::removed_key_is_gone(entries, emoji);
                assert(rest == Seq::<Did>::empty());
                assert forall|j: int| 0 <= j < after.len() implies (#[trigger] after[j]).0
                    != emoji by {
                    if after[j].0 == emoji {
                        assert(ordered::has_key(after, emoji));
                    }
                }
            } else {
                ordered::insertion_is_found(entries, emoji, rest);
            }
        },
    }
}

/// A reaction leaves the holders of every other one as they were.
pub proof fn other_reactions_stay(
    entries: Reactions,
    who: Did,
    state: ReactionState,
    emoji: Seq<char>,
    other: Seq<char>,
)
    requires
        ordered::distinct_keys(entries),
        other != emoji,
    ensures
        message::reactors(message::reacted(entries, who, state, emoji), other)
            == message::reactors(entries, other),
{
    let held = message::reactors(entries, emoji);
    match state {
        ReactionState::Add => {
            ordered::insertion_leaves_others(entries, emoji, held.push(who), other);
        },
        ReactionState::Remove => {
            let rest = ids::without(held, who);
            if rest.len() == 0 {
                ordered::removal_leaves_others(entries, emoji, other);
            } else {
                ordered::insertion_leaves_others(entries, emoji, rest, other);
            }
        },
    }
}

} // verus!
