//! The newest events, kept for those who listen again after an interruption.

use crate::text::{byte_count, byte_len};
use std::collections::VecDeque;
use vstd::prelude::*;
use vstd::string::*;

verus! {

/// The most events that are kept, and the most bytes of their lines.
pub const MAX_REPLAY_EVENTS: usize = 2048;

pub const MAX_REPLAY_BYTES: usize = 8388608;

/// An event as it was told, with its number.
#[derive(Debug)]
pub struct ReplayEvent {
    pub sequence: u64,
    pub line: String,
}

/// The mathematical value of an event that was told.
pub struct ReplayView {
    pub sequence: u64,
    pub line: Seq<char>,
}

impl View for ReplayEvent {
    type V = ReplayView;

    open spec fn view(&self) -> ReplayView {
        ReplayView { sequence: self.sequence, line: self.line@ }
    }
}

/// How many bytes the lines of events take.
pub open spec fn weight(list: Seq<ReplayView>) -> nat
    decreases list.len(),
{
    if list.len() == 0 {
        0
    } else {
        byte_count(list.first().line) + weight(list.drop_first())
    }
}

/// Whether events may be kept together.
pub open spec fn fits(list: Seq<ReplayView>) -> bool {
    list.len() <= MAX_REPLAY_EVENTS && weight(list) <= MAX_REPLAY_BYTES
}

/// The newest of some events: as many as may be kept.
pub open spec fn newest(list: Seq<ReplayView>) -> Seq<ReplayView>
    decreases list.len(),
{
    if fits(list) || list.len() == 0 {
        list
    } else {
        newest(list.drop_first())
    }
}

/// Whether events are numbered without a gap.
pub open spec fn consecutive(list: Seq<ReplayView>) -> bool {
    forall|i: int|
        0 <= i < list.len() ==> (#[trigger] list[i]).sequence == list[0].sequence + i
}

/// Whether all events after a number are among some.
pub open spec fn covers(list: Seq<ReplayView>, after: u64) -> bool {
    list.len() > 0 && list[0].sequence <= after + 1 && after <= list.last().sequence
}

/// The events after a number.
pub open spec fn events_after(list: Seq<ReplayView>, after: u64) -> Seq<ReplayView> {
    list.skip(after + 1 - list[0].sequence)
}

/// The lines of events.
pub open spec fn lines_of(list: Seq<ReplayView>) -> Seq<Seq<char>> {
    list.map_values(|event: ReplayView| event.line)
}

/// How many bytes one more event takes.
proof fn lemma_weight_push(list: Seq<ReplayView>, event: ReplayView)
    ensures
        weight(list.push(event)) == weight(list) + byte_count(event.line),
    decreases list.len(),
{
    let longer = list.push(event);
    if list.len() > 0 {
        assert(longer.drop_first() =~= list.drop_first().push(event));
        assert(longer.first() == list.first());
        lemma_weight_push(list.drop_first(), event);
    } else {
        assert(longer.drop_first() =~= Seq::empty());
        assert(weight(longer.drop_first()) == 0);
    }
}

/// The events that are kept.
#[derive(Debug)]
pub struct EventReplay {
    events: VecDeque<ReplayEvent>,
    bytes: usize,
}

impl View for EventReplay {
    type V = Seq<ReplayView>;

    closed spec fn view(&self) -> Seq<ReplayView> {
        self.events@.map_values(|event: ReplayEvent| event@)
    }
}

/// What somebody who begins to listen is told first.
#[derive(Debug)]
pub enum StreamStart {
    /// The state as a whole.
    Snapshot,
    /// The events that were missed.
    Events(Vec<String>),
}

impl EventReplay {
    /// Whether the events may be kept together and are numbered without a gap.
    pub closed spec fn well_formed(&self) -> bool {
        fits(self@) && consecutive(self@) && self.bytes == weight(self@)
    }

    /// Nothing has been told.
    pub fn new() -> (r: EventReplay)
        ensures
            r.well_formed(),
            r@ == Seq::<ReplayView>::empty(),
    {
        let r = EventReplay { events: VecDeque::new(), bytes: 0 };
        assert(r@ =~= Seq::empty());
        r
    }

    /// Keeps an event that has been told, and lets the oldest go for it.
    pub fn keep(&mut self, sequence: u64, line: String)
        requires
            old(self).well_formed(),
            old(self)@.len() > 0 ==> sequence == old(self)@.last().sequence + 1,
        ensures
            final(self).well_formed(),
            final(self)@ == newest(old(self)@.push(ReplayView { sequence, line: line@ })),
    {
        let ghost event = ReplayView { sequence, line: line@ };
        let ghost before = self@;
        let size: usize = byte_len(line.as_str());
        while self.events.len() > 0 && (self.events.len() >= MAX_REPLAY_EVENTS || size > MAX_REPLAY_BYTES
            || self.bytes > MAX_REPLAY_BYTES - size)
            invariant
                size == byte_count(line@),
                event == (ReplayView { sequence, line: line@ }),
                self.well_formed(),
                self@.len() > 0 ==> sequence == self@.last().sequence + 1,
                newest(before.push(event)) == newest(self@.push(event)),
            decreases self.events@.len(),
        {
            let ghost now = self@;
            proof {
                lemma_weight_push(now, event);
                assert(now.push(event).drop_first() =~= now.drop_first().push(event));
                assert(!fits(now.push(event)));
            }
            match self.events.pop_front() {
                Some(oldest) => {
                    proof {
                        assert(now.first() == oldest@);
                        assert(self@ =~= now.drop_first());
                    }
                    self.bytes -= byte_len(oldest.line.as_str());
                    proof {
                        assert forall|i: int| 0 <= i < self@.len() implies (#[trigger] self@[i]).sequence
                            == self@[0].sequence + i by {
                            assert(self@[i] == now[i + 1]);
                            assert(self@[0] == now[1]);
                        }
                    }
                },
                None => {},
            }
        }
        proof {
            lemma_weight_push(self@, event);
        }
        if size > MAX_REPLAY_BYTES {
            proof {
                assert(self@ =~= Seq::empty());
                assert(self@.push(event).drop_first() =~= Seq::empty());
                assert(newest(self@.push(event)) == newest(self@.push(event).drop_first()));
            }
            return;
        }
        let ghost now = self@;
        self.events.push_back(ReplayEvent { sequence, line });
        self.bytes += size;
        proof {
            assert(self@ =~= now.push(event));
            assert forall|i: int| 0 <= i < self@.len() implies (#[trigger] self@[i]).sequence
                == self@[0].sequence + i by {
                if i < now.len() {
                    assert(self@[i] == now[i]);
                    assert(self@[0] == now[0]);
                } else if now.len() > 0 {
                    assert(now.last() == now[now.len() - 1]);
                    assert(self@[0] == now[0]);
                }
            }
        }
    }

    /// What somebody who begins to listen to the runtime is told first. Who names
    /// the last event that was heard of the same runtime hears all that came after
    /// it, where that is still kept.
    pub fn start(&self, instance: u128, since: Option<(u128, u64)>) -> (r: StreamStart)
        requires
            self.well_formed(),
        ensures
            match since {
                Some((epoch, after)) => if epoch == instance && covers(self@, after) {
                    r matches StreamStart::Events(lines) && crate::text::texts_of(lines@) == lines_of(
                        events_after(self@, after),
                    )
                } else {
                    r is Snapshot
                },
                None => r is Snapshot,
            },
    {
        let (epoch, after) = match since {
            Some(since) => since,
            None => {
                return StreamStart::Snapshot;
            },
        };
        if epoch != instance || self.events.len() == 0 {
            return StreamStart::Snapshot;
        }
        let count: usize = self.events.len();
        let first: u64 = self.events[0].sequence;
        let last: u64 = self.events[count - 1].sequence;
        proof {
            assert(self@[0] == self.events@[0]@);
            assert(self@.last() == self.events@[count - 1]@);
        }
        if after > last || (first > 0 && first - 1 > after) {
            return StreamStart::Snapshot;
        }
        let mut lines: Vec<String> = Vec::new();
        let ghost missed = events_after(self@, after);
        proof {
            assert(self@[count - 1].sequence == self@[0].sequence + (count - 1));
        }
        let begin: usize = if after >= first {
            (after - first) as usize + 1
        } else {
            0
        };
        let mut i: usize = begin;
        assert(crate::text::texts_of(lines@) =~= lines_of(missed.take(0)));
        while i < count
            invariant
                begin <= i <= count,
                count == self.events@.len(),
                begin == after + 1 - self@[0].sequence,
                missed == events_after(self@, after),
                missed.len() == count - begin,
                self@.len() == count,
                crate::text::texts_of(lines@) == lines_of(missed.take(i - begin)),
            decreases count - i,
        {
            let ghost told = lines@;
            lines.push(self.events[i].line.clone());
            proof {
                assert(missed[i - begin] == self@[i as int]);
                assert(self@[i as int] == self.events@[i as int]@);
                assert(missed.take(i + 1 - begin) =~= missed.take(i - begin).push(missed[i - begin]));
                assert(lines_of(missed.take(i + 1 - begin)) =~= lines_of(missed.take(i - begin)).push(
                    missed[i - begin].line,
                ));
                assert(crate::text::texts_of(lines@) =~= crate::text::texts_of(told).push(
                    missed[i - begin].line,
                ));
            }
            i += 1;
        }
        assert(missed.take(count - begin) =~= missed);
        StreamStart::Events(lines)
    }
}

/// What is kept is bounded, however much is told, and the newest event is among
/// it unless it is too large by itself.
pub proof fn lemma_replay_is_bounded(list: Seq<ReplayView>, event: ReplayView)
    ensures
        newest(list.push(event)).len() <= MAX_REPLAY_EVENTS,
        weight(newest(list.push(event))) <= MAX_REPLAY_BYTES,
        byte_count(event.line) <= MAX_REPLAY_BYTES ==> newest(list.push(event)).len() > 0 && newest(
            list.push(event),
        ).last() == event,
    decreases list.len(),
{
    let longer = list.push(event);
    lemma_weight_push(list, event);
    if list.len() > 0 {
        assert(longer.drop_first() =~= list.drop_first().push(event));
        lemma_replay_is_bounded(list.drop_first(), event);
    } else {
        let nothing = Seq::<ReplayView>::empty();
        assert(longer.drop_first() =~= nothing);
        assert(newest(nothing) == nothing && weight(nothing) == 0);
    }
}

/// The events that are told again follow the last one that was heard without a
/// gap, up to the newest.
pub proof fn lemma_replay_is_gapless(list: Seq<ReplayView>, after: u64)
    requires
        consecutive(list),
        covers(list, after),
    ensures
        events_after(list, after).len() == list.last().sequence - after,
        forall|i: int|
            0 <= i < events_after(list, after).len() ==> (#[trigger] events_after(list, after)[i]).sequence
                == after + 1 + i,
{
    assert(list.last() == list[list.len() - 1]);
    let missed = events_after(list, after);
    let begin = after + 1 - list[0].sequence;
    assert forall|i: int| 0 <= i < missed.len() implies (#[trigger] missed[i]).sequence == after + 1 + i by {
        assert(missed[i] == list[begin + i]);
    }
}

/// The events that are kept are the newest: the tail of all that were told, which is
/// shortened only as far as it must be.
pub proof fn lemma_kept_events_are_the_newest(list: Seq<ReplayView>) -> (cut: int)
    ensures
        0 <= cut <= list.len(),
        newest(list) == list.skip(cut),
        list.len() <= 2048 && weight(list) <= 8388608 ==> cut == 0,
        forall|k: int| 0 <= k < cut ==> !(#[trigger] list.skip(k).len() <= 2048 && weight(list.skip(k)) <= 8388608),
    decreases list.len(),
{
    if fits(list) || list.len() == 0 {
        assert(list.skip(0) =~= list);
        0
    } else {
        let rest = list.drop_first();
        let cut = lemma_kept_events_are_the_newest(rest);
        assert(rest.skip(cut) =~= list.skip(cut + 1));
        assert forall|k: int| 0 <= k < cut + 1 implies !(#[trigger] list.skip(k).len() <= 2048 && weight(
            list.skip(k),
        ) <= 8388608) by {
            if k == 0 {
                assert(list.skip(0) =~= list);
            } else {
                assert(rest.skip(k - 1) =~= list.skip(k));
            }
        }
        cut + 1
    }
}

} // verus!
