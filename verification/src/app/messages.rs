//! Changes to single messages of a loaded conversation.

use vstd::prelude::*;

use crate::app::{find_id, index_of_id, lemma_index_of_id, Conversation};
use crate::model::{with_media_file, with_media_state, Content, MediaState, Message};

verus! {

/// The message with an id changed by a rule, the others kept; a list
/// without the id is kept whole.
pub open spec fn revised(
    before: Seq<Message>,
    id: Seq<char>,
    after: Seq<Message>,
    rule: spec_fn(Message, Message) -> bool,
) -> bool {
    match index_of_id(before, id) {
        Some(i) => after == before.update(i, after[i]) && rule(before[i], after[i]),
        None => after == before,
    }
}

/// The messages without those with an id, in order.
pub open spec fn without_id(s: Seq<Message>, id: Seq<char>) -> Seq<Message>
    decreases s.len(),
{
    if s.len() == 0 {
        s
    } else if s.last().id@ == id {
        without_id(s.drop_last(), id)
    } else {
        without_id(s.drop_last(), id).push(s.last())
    }
}

/// A message rewritten with a new text, marked as edited.
pub open spec fn retexted(m: Message, text: Seq<char>, m2: Message) -> bool {
    &&& m2 == Message { content: m2.content, edited: true, ..m }
    &&& m2.content matches Content::Text { text: t, preview: None } && t@ == text
}

impl Conversation {
    /// Gives the message with an id a new text, marked as edited.
    pub fn retext(&mut self, id: &str, text: &str)
        ensures
            revised(
                old(self).messages@,
                id@,
                final(self).messages@,
                |m: Message, m2: Message| retexted(m, text@, m2),
            ),
            *final(self) == (Conversation { messages: final(self).messages, ..*old(self) }),
    {
        proof {
            lemma_index_of_id(self.messages@, id@);
        }
        match find_id(&self.messages, id) {
            Some(i) => {
                let mut m = self.messages.remove(i);
                m.content = Content::text(String::from_str(text));
                m.edited = true;
                self.messages.insert(i, m);
                assert(self.messages@ =~= old(self).messages@.update(i as int, self.messages@[i as int]));
            },
            None => {},
        }
    }

    /// Marks the message with an id as taken back.
    pub fn revoke(&mut self, id: &str)
        ensures
            revised(
                old(self).messages@,
                id@,
                final(self).messages@,
                |m: Message, m2: Message| m2 == (Message { content: Content::Revoked, ..m }),
            ),
            *final(self) == (Conversation { messages: final(self).messages, ..*old(self) }),
    {
        proof {
            lemma_index_of_id(self.messages@, id@);
        }
        match find_id(&self.messages, id) {
            Some(i) => {
                let mut m = self.messages.remove(i);
                m.content = Content::Revoked;
                self.messages.insert(i, m);
                assert(self.messages@ =~= old(self).messages@.update(i as int, self.messages@[i as int]));
            },
            None => {},
        }
    }

    /// Forgets the messages with an id.
    pub fn forget(&mut self, id: &str)
        ensures
            final(self).messages@ == without_id(old(self).messages@, id@),
            *final(self) == (Conversation { messages: final(self).messages, ..*old(self) }),
    {
        let target = String::from_str(id);
        let mut kept: Vec<Message> = Vec::new();
        let mut rest: Vec<Message> = Vec::new();
        std::mem::swap(&mut rest, &mut self.messages);
        let ghost all = rest@;
        let mut k: usize = 0;
        assert(all.take(0) =~= Seq::<Message>::empty());
        assert(all.skip(0) =~= all);
        assert(all.len() == rest.len());
        while rest.len() > 0
            invariant
                target@ == id@,
                k <= all.len() <= usize::MAX,
                rest@ == all.skip(k as int),
                kept@ == without_id(all.take(k as int), id@),
            decreases rest@.len(),
        {
            let m = rest.remove(0);
            assert(m == all[k as int]);
            assert(rest@ =~= all.skip(k + 1));
            assert(all.take(k + 1).drop_last() =~= all.take(k as int));
            assert(all.take(k + 1).last() == m);
            if m.id != target {
                kept.push(m);
            }
            k = k + 1;
        }
        assert(all.take(k as int) =~= all);
        self.messages = kept;
    }
}

impl Conversation {
    /// Puts the attachment of the message with an id in a state.
    pub fn set_media_state_of(&mut self, id: &str, state: MediaState)
        ensures
            revised(
                old(self).messages@,
                id@,
                final(self).messages@,
                |m: Message, m2: Message|
                    m2 == (Message { content: with_media_state(m.content, state), ..m }),
            ),
            *final(self) == (Conversation { messages: final(self).messages, ..*old(self) }),
    {
        proof {
            lemma_index_of_id(self.messages@, id@);
        }
        match find_id(&self.messages, id) {
            Some(i) => {
                let mut m = self.messages.remove(i);
                m.content.set_media_state(state);
                self.messages.insert(i, m);
                assert(self.messages@ =~= old(self).messages@.update(i as int, self.messages@[i as int]));
            },
            None => {},
        }
    }

    /// Records the file the attachment of the message with an id was
    /// saved to.
    pub fn set_media_file_of(&mut self, id: &str, path: String)
        ensures
            revised(
                old(self).messages@,
                id@,
                final(self).messages@,
                |m: Message, m2: Message|
                    m2 == (Message { content: with_media_file(m.content, path), ..m }),
            ),
            *final(self) == (Conversation { messages: final(self).messages, ..*old(self) }),
    {
        proof {
            lemma_index_of_id(self.messages@, id@);
        }
        match find_id(&self.messages, id) {
            Some(i) => {
                let mut m = self.messages.remove(i);
                m.content.set_media_file(path);
                self.messages.insert(i, m);
                assert(self.messages@ =~= old(self).messages@.update(i as int, self.messages@[i as int]));
            },
            None => {},
        }
    }
}

} // verus!
