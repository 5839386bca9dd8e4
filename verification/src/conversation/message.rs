//! A message and what may be done to it.
use vstd::prelude::*;
use indexmap::IndexMap;
use crate::error::{Error, LengthOf};
use crate::ids::{self, contains_did, copy_dids, without_did, Cid, Did, Timestamp, Uuid};
use crate::ordered::{
    self, reactions_clone, reactions_get, reactions_insert, reactions_len, reactions_new,
    reactions_swap_remove,
};
use crate::text;
use super::{MessageType, PinState, ReactionState};

verus! {

/// A file that a message carries.
pub struct Attachment {
    pub name: String,
    pub size: usize,
    pub reference: Option<Cid>,
}

pub struct Message {
    pub id: Uuid,
    pub message_type: MessageType,
    pub conversation_id: Uuid,
    pub sender: Did,
    pub date: Timestamp,
    pub modified: Option<Timestamp>,
    pub replied: Option<Uuid>,
    pub pinned: bool,
    pub lines: Vec<String>,
    pub reactions: IndexMap<String, Vec<Did>>,
    pub attachments: Vec<Attachment>,
}

/// The reactions to a message: each with those who reacted, in order.
pub type Reactions = Seq<(Seq<char>, Seq<Did>)>;

/// Those who reacted in one way.
pub open spec fn reactors(entries: Reactions, emoji: Seq<char>) -> Seq<Did> {
    match ordered::lookup(entries, emoji) {
        Some(list) => list,
        None => Seq::empty(),
    }
}

/// Why a reaction is refused. The limit is on the number of different reactions, and is looked at
/// before the reaction itself.
pub open spec fn reaction_refusal(
    entries: Reactions,
    who: Did,
    state: ReactionState,
    emoji: Seq<char>,
    max: usize,
) -> Option<Error> {
    match state {
        ReactionState::Add => if entries.len() >= max {
            Some(
                Error::InvalidLength {
                    context: LengthOf::Reactions,
                    current: entries.len() as usize,
                    minimum: None,
                    maximum: Some(max),
                },
            )
        } else if reactors(entries, emoji).contains(who) {
            Some(Error::ReactionExist)
        } else {
            None
        },
        ReactionState::Remove => if reactors(entries, emoji).contains(who) {
            None
        } else {
            Some(Error::ReactionDoesntExist)
        },
    }
}

/// The reactions after one was added or taken back. One that nobody holds any more goes.
pub open spec fn reacted(
    entries: Reactions,
    who: Did,
    state: ReactionState,
    emoji: Seq<char>,
) -> Reactions {
    match state {
        ReactionState::Add => ordered::inserted(
            entries,
            emoji,
            reactors(entries, emoji).push(who),
        ),
        ReactionState::Remove => {
            let rest = ids::without(reactors(entries, emoji), who);
            if rest.len() == 0 {
                ordered::swap_removed(entries, emoji)
            } else {
                ordered::inserted(entries, emoji, rest)
            }
        },
    }
}

/// Whether the lines of a message that is sent, edited or answered are refused.
pub open spec fn lines_refusal(lines: Seq<String>, min: usize, max: usize) -> Option<Error> {
    let length = text::measured_length(lines);
    if lines.len() == 0 {
        Some(Error::EmptyMessage)
    } else if length == 0 || length > max {
        Some(
            Error::InvalidLength {
                context: LengthOf::Message,
                current: length,
                minimum: Some(min),
                maximum: Some(max),
            },
        )
    } else {
        None
    }
}

/// Checks the lines of a message that is sent, edited or answered.
pub fn check_lines(lines: &Vec<String>, min: usize, max: usize) -> (r: Result<(), Error>)
    ensures
        match lines_refusal(lines@, min, max) {
            Some(e) => r == Err::<(), Error>(e),
            None => r is Ok,
        },
{
    if lines.len() == 0 {
        return Err(Error::EmptyMessage);
    }
    let length: usize = text::lines_length(lines);
    if length == 0 || length > max {
        return Err(
            Error::InvalidLength {
                context: LengthOf::Message,
                current: length,
                minimum: Some(min),
                maximum: Some(max),
            },
        );
    }
    Ok(())
}

/// Messages that say the same.
pub open spec fn same_message(a: Message, b: Message) -> bool {
    &&& a == (Message {
        lines: a.lines,
        reactions: a.reactions,
        attachments: a.attachments,
        ..b
    })
    &&& a.lines@ == b.lines@
    &&& a.attachments@ == b.attachments@
    &&& ordered::reaction_entries(a.reactions) == ordered::reaction_entries(b.reactions)
}

impl Attachment {
    /// A copy of the file.
    pub fn copy(&self) -> (r: Attachment)
        ensures
            r == *self,
    {
        Attachment { name: self.name.clone(), size: self.size, reference: self.reference }
    }
}

impl Message {
    /// A copy of the message.
    pub fn copy(&self) -> (r: Message)
        ensures
            same_message(r, *self),
    {
        let mut lines: Vec<String> = Vec::new();
        let mut i: usize = 0;
        while i < self.lines.len()
            invariant
                i <= self.lines@.len(),
                lines@ == self.lines@.take(i as int),
            decreases self.lines@.len() - i,
        {
            lines.push(self.lines[i].clone());
            i = i + 1;
        }
        assert(lines@ == self.lines@);
        let mut attachments: Vec<Attachment> = Vec::new();
        let mut k: usize = 0;
        while k < self.attachments.len()
            invariant
                k <= self.attachments@.len(),
                attachments@ == self.attachments@.take(k as int),
            decreases self.attachments@.len() - k,
        {
            attachments.push(self.attachments[k].copy());
            k = k + 1;
        }
        assert(attachments@ == self.attachments@);
        Message {
            id: self.id,
            message_type: self.message_type,
            conversation_id: self.conversation_id,
            sender: self.sender,
            date: self.date,
            modified: self.modified,
            replied: self.replied,
            pinned: self.pinned,
            lines,
            reactions: reactions_clone(&self.reactions),
            attachments,
        }
    }

    /// A message of text.
    pub fn new(
        id: Uuid,
        conversation_id: Uuid,
        sender: Did,
        date: Timestamp,
        lines: Vec<String>,
        replied: Option<Uuid>,
    ) -> (r: Message)
        ensures
            r == (Message {
                id,
                message_type: MessageType::Message,
                conversation_id,
                sender,
                date,
                modified: None,
                replied,
                pinned: false,
                lines,
                reactions: r.reactions,
                attachments: r.attachments,
            }),
            ordered::reaction_entries(r.reactions).len() == 0,
            r.attachments@.len() == 0,
    {
        Message {
            id,
            message_type: MessageType::Message,
            conversation_id,
            sender,
            date,
            modified: None,
            replied,
            pinned: false,
            lines,
            reactions: reactions_new(),
            attachments: Vec::new(),
        }
    }

    /// Pins or unpins. Returns whether that changed anything.
    pub fn pin(&mut self, state: PinState) -> (r: bool)
        ensures
            *final(self) == (Message { pinned: state is Pin, ..*old(self) }),
            r == (old(self).pinned != (state is Pin)),
    {
        let pinned: bool = match state {
            PinState::Pin => true,
            PinState::Unpin => false,
        };
        let changed: bool = self.pinned != pinned;
        self.pinned = pinned;
        changed
    }

    /// Puts other lines into the message.
    pub fn edit(&mut self, lines: Vec<String>, modified: Timestamp)
        ensures
            *final(self) == (Message { lines, modified: Some(modified), ..*old(self) }),
    {
        self.lines = lines;
        self.modified = Some(modified);
    }

    /// Whether a reaction can be added or taken back.
    pub fn check_react(&self, who: Did, state: ReactionState, emoji: &String, max: usize) -> (r:
        Result<(), Error>)
        ensures
            match reaction_refusal(
                ordered::reaction_entries(self.reactions),
                who,
                state,
                emoji@,
                max,
            ) {
                Some(e) => r == Err::<(), Error>(e),
                None => r is Ok,
            },
    {
        let holds: bool = match reactions_get(&self.reactions, emoji.as_str()) {
            Some(list) => contains_did(list, who),
            None => false,
        };
        match state {
            ReactionState::Add => {
                let count: usize = reactions_len(&self.reactions);
                if count >= max {
                    Err(
                        Error::InvalidLength {
                            context: LengthOf::Reactions,
                            current: count,
                            minimum: None,
                            maximum: Some(max),
                        },
                    )
                } else if holds {
                    Err(Error::ReactionExist)
                } else {
                    Ok(())
                }
            },
            ReactionState::Remove => if holds {
                Ok(())
            } else {
                Err(Error::ReactionDoesntExist)
            },
        }
    }

    /// Adds a reaction or takes one back.
    pub fn react(
        &mut self,
        who: Did,
        state: ReactionState,
        emoji: &String,
        max: usize,
    ) -> (r: Result<(), Error>)
        ensures
            match reaction_refusal(
                ordered::reaction_entries(old(self).reactions),
                who,
                state,
                emoji@,
                max,
            ) {
                Some(e) => r == Err::<(), Error>(e) && *final(self) == *old(self),
                None => {
                    &&& r is Ok
                    &&& *final(self) == (Message { reactions: final(self).reactions, ..*old(self) })
                    &&& ordered::reaction_entries(final(self).reactions) == reacted(
                        ordered::reaction_entries(old(self).reactions),
                        who,
                        state,
                        emoji@,
                    )
                },
            },
    {
        match self.check_react(who, state, emoji, max) {
            Err(e) => return Err(e),
            Ok(()) => {},
        }
        let current: Vec<Did> = match reactions_get(&self.reactions, emoji.as_str()) {
            Some(list) => copy_dids(list),
            None => Vec::new(),
        };
        assert(current@ == reactors(ordered::reaction_entries(self.reactions), emoji@));
        match state {
            ReactionState::Add => {
                let mut list = current;
                list.push(who);
                reactions_insert(&mut self.reactions, emoji.clone(), list);
            },
            ReactionState::Remove => {
                let rest = without_did(&current, who);
                if rest.len() == 0 {
                    reactions_swap_remove(&mut self.reactions, emoji.as_str());
                } else {
                    reactions_insert(&mut self.reactions, emoji.clone(), rest);
                }
            },
        }
        Ok(())
    }
}

} // verus!
