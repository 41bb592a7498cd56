//! The chat of an agent, read in pages by those who come back to it.

use crate::model::{AgentChatMessage, MessageView};
use vstd::prelude::*;

verus! {

/// A message with its number among the messages of all agents.
#[derive(Debug)]
pub struct StoredMessage {
    pub sequence: u64,
    pub message: AgentChatMessage,
}

/// The mathematical value of a stored message.
pub struct StoredView {
    pub sequence: u64,
    pub message: MessageView,
}

impl View for StoredMessage {
    type V = StoredView;

    open spec fn view(&self) -> StoredView {
        StoredView { sequence: self.sequence, message: self.message@ }
    }
}

/// The views of stored messages.
pub open spec fn stored_views(list: Seq<StoredMessage>) -> Seq<StoredView> {
    list.map_values(|message: StoredMessage| message@)
}

/// The most messages of a page.
pub const MAX_REJOIN_MESSAGES: usize = 200;

/// A page of a chat: its messages, the number to go on after, and whether there
/// are more.
#[derive(Debug)]
pub struct RejoinPage {
    pub messages: Vec<StoredMessage>,
    pub next_sequence: u64,
    pub has_more: bool,
}

/// The messages of a chat after a number.
pub open spec fn later(chat: Seq<StoredView>, after: u64) -> Seq<StoredView> {
    chat.filter(|message: StoredView| message.sequence > after)
}

/// The first page of some messages.
pub open spec fn first_page(found: Seq<StoredView>) -> Seq<StoredView> {
    if found.len() <= MAX_REJOIN_MESSAGES {
        found
    } else {
        found.take(MAX_REJOIN_MESSAGES as int)
    }
}

/// The number to go on after, once a page is read.
pub open spec fn next_after(page: Seq<StoredView>, after: u64) -> u64 {
    if page.len() == 0 {
        after
    } else {
        page.last().sequence
    }
}

/// The page of the messages that were found after a number.
pub fn rejoin_page(found: Vec<StoredMessage>, after: u64) -> (r: RejoinPage)
    ensures
        stored_views(r.messages@) == first_page(stored_views(found@)),
        r.next_sequence == next_after(first_page(stored_views(found@)), after),
        r.has_more == (found@.len() > MAX_REJOIN_MESSAGES),
{
    let ghost all = stored_views(found@);
    let mut messages = found;
    let has_more = messages.len() > MAX_REJOIN_MESSAGES;
    if has_more {
        messages.truncate(MAX_REJOIN_MESSAGES);
    }
    assert(stored_views(messages@) =~= first_page(all));
    let count: usize = messages.len();
    let next_sequence: u64 = if count == 0 {
        after
    } else {
        messages[count - 1].sequence
    };
    RejoinPage { messages, next_sequence, has_more }
}

/// Whether messages are in the order of their numbers, of which none occurs
/// twice.
pub open spec fn in_sequence(chat: Seq<StoredView>) -> bool {
    forall|i: int, j: int|
        0 <= i < j < chat.len() ==> (#[trigger] chat[i]).sequence < (#[trigger] chat[j]).sequence
}

/// The messages after a number are the last ones of a chat.
proof fn lemma_later_is_the_rest(chat: Seq<StoredView>, after: u64) -> (k: int)
    requires
        in_sequence(chat),
    ensures
        0 <= k <= chat.len(),
        later(chat, after) == chat.skip(k),
        forall|i: int| 0 <= i < k ==> (#[trigger] chat[i]).sequence <= after,
        forall|i: int| k <= i < chat.len() ==> (#[trigger] chat[i]).sequence > after,
    decreases chat.len(),
{
    reveal(Seq::filter);
    if chat.len() == 0 {
        assert(chat.skip(0) =~= chat);
        0
    } else {
        let rest = chat.drop_last();
        assert(in_sequence(rest)) by {
            assert forall|i: int, j: int| 0 <= i < j < rest.len() implies (#[trigger] rest[i]).sequence
                < (#[trigger] rest[j]).sequence by {
                assert(chat[i].sequence < chat[j].sequence);
            }
        }
        let k = lemma_later_is_the_rest(rest, after);
        assert forall|i: int| 0 <= i < k implies (#[trigger] chat[i]).sequence <= after by {
            assert(rest[i].sequence <= after);
        }
        if chat.last().sequence > after {
            assert(later(chat, after) == later(rest, after).push(chat.last()));
            assert(chat.skip(k) =~= rest.skip(k).push(chat.last()));
            assert forall|i: int| k <= i < chat.len() implies (#[trigger] chat[i]).sequence > after by {
                if i < rest.len() {
                    assert(rest[i].sequence > after);
                }
            }
            k
        } else {
            assert(k == rest.len()) by {
                if k < rest.len() {
                    assert(rest[k].sequence > after);
                    assert(chat[k].sequence < chat[chat.len() - 1].sequence);
                }
            }
            assert(later(chat, after) == later(rest, after));
            assert(rest.skip(k) =~= Seq::empty());
            assert(chat.skip(chat.len() as int) =~= Seq::empty());
            chat.len() as int
        }
    }
}

/// Who reads a chat page by page, each from where the last one ended, reads every
/// message once and in order: what is left after a page is just what was found
/// beyond it, nothing where there is said to be no more, and each page moves on.
pub proof fn lemma_pages_cover_the_chat(chat: Seq<StoredView>, after: u64)
    requires
        in_sequence(chat),
    ensures
        ({
            let found = later(chat, after);
            let page = first_page(found);
            let next = next_after(page, after);
            &&& found == page + later(chat, next)
            &&& found.len() <= MAX_REJOIN_MESSAGES ==> later(chat, next).len() == 0
            &&& found.len() > 0 ==> next > after
        }),
{
    let found = later(chat, after);
    let page = first_page(found);
    let next = next_after(page, after);
    let k = lemma_later_is_the_rest(chat, after);
    let n = lemma_later_is_the_rest(chat, next);
    if page.len() > 0 {
        let end = k + page.len();
        assert(page.last() == chat[end - 1]);
        assert(n == end) by {
            if n < end {
                assert(chat[end - 1].sequence > next);
            } else if n > end {
                assert(chat[end].sequence <= next);
                assert(chat[end - 1].sequence < chat[end].sequence);
            }
        }
        assert(found =~= page + chat.skip(n));
    } else {
        assert(n == k) by {
            if n < k {
                assert(chat[n].sequence > next);
                assert(chat[n].sequence <= after);
            } else if n > k {
                assert(chat[k].sequence <= next);
                assert(chat[k].sequence > after);
            }
        }
        assert(found =~= page + chat.skip(n));
    }
}

/// A page holds at most two hundred messages, the first ones that were found, and says
/// where to go on.
pub proof fn lemma_pages_are_short(found: Seq<StoredView>, after: u64)
    ensures
        first_page(found).len() <= 200,
        found.len() <= 200 ==> first_page(found) == found,
        found.len() > 200 ==> first_page(found) == found.take(200),
        first_page(found).len() == 0 ==> next_after(first_page(found), after) == after,
        first_page(found).len() > 0 ==> next_after(first_page(found), after) == first_page(found).last().sequence,
{
}

} // verus!
