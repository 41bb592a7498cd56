//! How what a device sees reaches the relay: one numbered frame after the other,
//! each sent once the one before has been acknowledged.

use crate::clock::current_millis;
use crate::ids::{hyphenated, id_text, is_random_id, new_identifier};
use crate::json::{lemma_member_of_extended, integer, no_members, rendered_json, write_json, Json, JsonView, NumberView};
use crate::projection::{
    changes_between, changes_view, counts_of, in_key_order, key_of, projection_changes, put,
    set_projection_version, with_version, without_key, ChangeView, ProjectionRecord,
    ProjectionSnapshot, RecordView,
};
use crate::text::same_text;
use std::collections::VecDeque;
use vstd::prelude::*;

verus! {

/// The most changes that are sent at once.
pub const MAX_INCREMENTAL_RECORDS: usize = 32;

/// How long an acknowledgement is waited for, in milliseconds.
pub const PROJECTION_ACK_TIMEOUT: u64 = 30000;

/// How often the connection shows that it lives, in milliseconds.
pub const HEARTBEAT_INTERVAL: u64 = 20000;

/// A frame to the relay.
pub open spec fn frame_value(kind: Seq<char>, payload: JsonView, message_id: u128, created_at: i64) -> JsonView {
    no_members().with("protocol_version"@, JsonView::Number(NumberView::Unsigned(1))).with(
        "message_id"@,
        JsonView::Text(hyphenated(message_id)),
    ).with("type"@, JsonView::Text(kind)).with("created_at"@, integer(created_at)).with(
        "payload"@,
        payload,
    )
}

/// The text of a frame to the relay.
pub fn websocket_frame(frame_type: &str, payload: Json, message_id: u128, created_at: i64) -> (r: String)
    ensures
        r@ == rendered_json(frame_value(frame_type@, payload@, message_id, created_at)),
{
    write_json(
        &Json::object().with("protocol_version", Json::of_unsigned(1)).with(
            "message_id",
            Json::Text(id_text(message_id)),
        ).with("type", Json::of_text(frame_type)).with("created_at", Json::of_signed(created_at)).with(
            "payload",
            payload,
        ),
    )
}

/// A frame that is to be sent, and what is known of it.
#[derive(Debug)]
pub struct ProjectionWork {
    pub epoch: u128,
    pub sequence: u64,
    pub message_id: u128,
    pub created_at: i64,
    pub frame: String,
    pub resulting_snapshot: Option<ProjectionSnapshot>,
    pub sent_at: Option<u64>,
}

/// What the device sees once a frame is acknowledged, where the frame ends a
/// batch.
pub open spec fn resulting(work: ProjectionWork) -> Option<Seq<RecordView>> {
    match work.resulting_snapshot {
        Some(snapshot) => Some(snapshot@),
        None => None,
    }
}

/// The details of a frame, with whose frame it is and which.
pub open spec fn numbered(details: JsonView, owner: u128, machine: u128, epoch: u128, sequence: u64) -> JsonView {
    details.with("owner_id"@, JsonView::Text(hyphenated(owner))).with(
        "machine_id"@,
        JsonView::Text(hyphenated(machine)),
    ).with("epoch"@, JsonView::Text(hyphenated(epoch))).with(
        "sequence"@,
        JsonView::Number(NumberView::Unsigned(sequence)),
    )
}

/// The frames of one device's view of this machine.
#[derive(Debug)]
pub struct ProjectionTransport {
    pub owner_id: u128,
    pub machine_id: u128,
    pub epoch: u128,
    pub next_sequence: u64,
    pub acknowledged_sequence: u64,
    pub queue: VecDeque<ProjectionWork>,
    pub inflight: Option<ProjectionWork>,
    pub baseline: ProjectionSnapshot,
    pub dirty: bool,
}

/// What an acknowledgement leads to.
#[derive(Debug)]
pub enum ProjectionAckOutcome {
    Ignored,
    Advanced,
    Committed(ProjectionSnapshot),
}

/// Whether a frame is the one with a number and some details, not yet sent.
pub open spec fn is_work(
    work: ProjectionWork,
    owner: u128,
    machine: u128,
    epoch: u128,
    sequence: int,
    kind: Seq<char>,
    details: JsonView,
    result: Option<Seq<RecordView>>,
) -> bool {
    &&& work.epoch == epoch
    &&& work.sequence == sequence
    &&& work.frame@ == rendered_json(
        frame_value(
            kind,
            numbered(details, owner, machine, epoch, work.sequence),
            work.message_id,
            work.created_at,
        ),
    )
    &&& is_random_id(work.message_id)
    &&& resulting(work) == result
    &&& work.sent_at is None
}

/// The frames that are not acknowledged, the one in flight first.
pub open spec fn pending(transport: ProjectionTransport) -> Seq<ProjectionWork> {
    match transport.inflight {
        Some(work) => seq![work] + transport.queue@,
        None => transport.queue@,
    }
}

/// The details of the frame that shows or hides a record.
pub open spec fn record_details(kind: Seq<char>, value: JsonView) -> JsonView {
    no_members().with("kind"@, JsonView::Text(kind)).with("record"@, value)
}

/// The details of a frame with counts.
pub open spec fn count_details(list: Seq<RecordView>) -> JsonView {
    no_members().with("counts"@, counts_of(list))
}

/// The records, each with the number of the frame that shows it: the frame that
/// begins is the first.
pub open spec fn numbered_records(list: Seq<RecordView>) -> Seq<RecordView> {
    Seq::new(
        list.len(),
        |i: int| RecordView { value: with_version(list[i].value, (i + 2) as u64), ..list[i] },
    )
}

/// The details of the frame that tells a change.
pub open spec fn change_details(change: ChangeView, sequence: u64) -> JsonView {
    match change.value {
        Some(value) => record_details(change.kind, with_version(value, sequence)),
        None => record_details(
            "delete"@,
            no_members().with("entity"@, JsonView::Text(change.kind)).with(
                "id"@,
                JsonView::Text(change.id),
            ),
        ),
    }
}

/// A list of records after one change.
pub open spec fn changed(list: Seq<RecordView>, change: ChangeView, sequence: u64) -> Seq<RecordView> {
    match change.value {
        Some(value) => put(
            list,
            RecordView { kind: change.kind, id: change.id, value: with_version(value, sequence) },
        ),
        None => without_key(list, (change.kind, change.id)),
    }
}

/// A list of records after some changes, the first of which is told by the frame
/// after the given number.
pub open spec fn changed_by(list: Seq<RecordView>, changes: Seq<ChangeView>, start: u64) -> Seq<RecordView>
    decreases changes.len(),
{
    if changes.len() == 0 {
        list
    } else {
        changed(
            changed_by(list, changes.drop_last(), start),
            changes.last(),
            (start + changes.len()) as u64,
        )
    }
}

/// The changes that are sent at once: the first of them.
pub open spec fn first_changes(changes: Seq<ChangeView>) -> Seq<ChangeView> {
    if changes.len() > MAX_INCREMENTAL_RECORDS {
        changes.take(MAX_INCREMENTAL_RECORDS as int)
    } else {
        changes
    }
}

/// Whether a queue holds the frames of a whole snapshot.
pub open spec fn tells_snapshot(transport: ProjectionTransport, list: Seq<RecordView>) -> bool {
    let queue = transport.queue@;
    let shown = numbered_records(list);
    &&& queue.len() == list.len() + 2
    &&& is_work(
        queue[0],
        transport.owner_id,
        transport.machine_id,
        transport.epoch,
        1,
        "projection_snapshot_begin"@,
        count_details(list),
        None,
    )
    &&& forall|i: int|
        0 <= i < list.len() ==> is_work(
            #[trigger] queue[i + 1],
            transport.owner_id,
            transport.machine_id,
            transport.epoch,
            i + 2,
            "projection_snapshot_record"@,
            record_details(list[i].kind, shown[i].value),
            None,
        )
    &&& is_work(
        queue[list.len() as int + 1],
        transport.owner_id,
        transport.machine_id,
        transport.epoch,
        list.len() as int + 2,
        "projection_snapshot_commit"@,
        count_details(shown),
        Some(shown),
    )
}

/// Whether a queue holds the frames of some changes.
pub open spec fn tells_changes(
    transport: ProjectionTransport,
    baseline: Seq<RecordView>,
    changes: Seq<ChangeView>,
    start: u64,
) -> bool {
    let queue = transport.queue@;
    &&& queue.len() == changes.len()
    &&& forall|i: int|
        0 <= i < changes.len() ==> is_work(
            #[trigger] queue[i],
            transport.owner_id,
            transport.machine_id,
            transport.epoch,
            start + i + 1,
            "projection_update"@,
            change_details(changes[i], (start + i + 1) as u64),
            if i + 1 == changes.len() {
                Some(changed_by(baseline, changes, start))
            } else {
                None
            },
        )
}

/// Whether an acknowledgement has a status that the relay may give.
pub open spec fn is_ack_status(status: Seq<char>) -> bool {
    status == "applied"@ || status == "duplicate"@
}

/// Whether an acknowledgement is taken as it should be.
pub open spec fn acknowledged(
    before: ProjectionTransport,
    after: ProjectionTransport,
    epoch: u128,
    sequence: u64,
    status: Seq<char>,
    r: Result<ProjectionAckOutcome, &'static str>,
) -> bool {
    if !is_ack_status(status) {
        &&& after == before
        &&& r matches Err(text) && text@ == "relay returned invalid projection acknowledgement"@
    } else if epoch != before.epoch || sequence <= before.acknowledged_sequence {
        &&& after == before
        &&& r matches Ok(ProjectionAckOutcome::Ignored)
    } else {
        match before.inflight {
            None => {
                &&& after == before
                &&& r matches Err(text) && text@
                    == "relay acknowledged a projection that was not in flight"@
            },
            Some(work) => if work.epoch != epoch || work.sequence != sequence {
                &&& after == before
                &&& r matches Err(text) && text@
                    == "relay acknowledged an unexpected projection sequence"@
            } else {
                &&& after == (ProjectionTransport {
                    acknowledged_sequence: sequence,
                    inflight: None,
                    baseline: after.baseline,
                    ..before
                })
                &&& match resulting(work) {
                    Some(list) => r matches Ok(ProjectionAckOutcome::Committed(snapshot))
                        && snapshot@ == list && after.baseline@ == list,
                    None => r matches Ok(ProjectionAckOutcome::Advanced)
                        && after.baseline == before.baseline,
                }
            },
        }
    }
}

/// Whether changes are queued as they should be.
pub open spec fn changes_queued(
    before: ProjectionTransport,
    after: ProjectionTransport,
    current: Seq<RecordView>,
) -> bool {
    if pending(before).len() > 0 {
        after == (ProjectionTransport { dirty: true, ..before })
    } else {
        let changes = changes_between(before.baseline@, current);
        let sent = first_changes(changes);
        &&& after.owner_id == before.owner_id
        &&& after.machine_id == before.machine_id
        &&& after.epoch == before.epoch
        &&& after.next_sequence == before.next_sequence + sent.len()
        &&& after.acknowledged_sequence == before.acknowledged_sequence
        &&& after.inflight is None
        &&& after.baseline == before.baseline
        &&& after.dirty == (changes.len() > MAX_INCREMENTAL_RECORDS)
        &&& tells_changes(
            after,
            before.baseline@,
            sent,
            before.next_sequence,
        )
    }
}

impl ProjectionTransport {
    /// The frames that are not acknowledged bear the numbers that follow, without
    /// a gap, and only the last of them ends a batch.
    pub open spec fn well_formed(self) -> bool {
        let works = pending(self);
        &&& self.baseline.well_formed()
        &&& self.acknowledged_sequence + works.len() == self.next_sequence
        &&& forall|i: int|
            0 <= i < works.len() ==> (#[trigger] works[i]).epoch == self.epoch && works[i].sequence
                == self.acknowledged_sequence + i + 1 && (resulting(works[i]) is Some <==> i + 1
                == works.len()) && (resulting(works[i]) matches Some(list) ==> in_key_order(list))
    }

    /// The frames of a first snapshot.
    pub fn new(owner_id: u128, machine_id: u128, snapshot: ProjectionSnapshot) -> (r: ProjectionTransport)
        requires
            snapshot.well_formed(),
            snapshot@.len() < u64::MAX - 1,
        ensures
            r.owner_id == owner_id,
            r.machine_id == machine_id,
            is_random_id(r.epoch),
            r.next_sequence == snapshot@.len() + 2,
            r.acknowledged_sequence == 0,
            r.inflight is None,
            r.baseline@ == Seq::<RecordView>::empty(),
            !r.dirty,
            tells_snapshot(r, snapshot@),
            r.well_formed(),
    {
        let mut transport = ProjectionTransport {
            owner_id,
            machine_id,
            epoch: new_identifier(),
            next_sequence: 0,
            acknowledged_sequence: 0,
            queue: VecDeque::new(),
            inflight: None,
            baseline: ProjectionSnapshot::empty(),
            dirty: false,
        };
        transport.queue_snapshot(snapshot);
        transport
    }

    /// Puts one more frame at the end of the queue.
    fn enqueue(&mut self, frame_type: &str, details: Json, resulting_snapshot: Option<ProjectionSnapshot>)
        requires
            old(self).next_sequence < u64::MAX,
        ensures
            final(self).owner_id == old(self).owner_id,
            final(self).machine_id == old(self).machine_id,
            final(self).epoch == old(self).epoch,
            final(self).next_sequence == old(self).next_sequence + 1,
            final(self).acknowledged_sequence == old(self).acknowledged_sequence,
            final(self).inflight == old(self).inflight,
            final(self).baseline == old(self).baseline,
            final(self).dirty == old(self).dirty,
            final(self).queue@.len() == old(self).queue@.len() + 1,
            final(self).queue@.drop_last() == old(self).queue@,
            is_work(
                final(self).queue@.last(),
                old(self).owner_id,
                old(self).machine_id,
                old(self).epoch,
                old(self).next_sequence + 1,
                frame_type@,
                details@,
                match resulting_snapshot {
                    Some(snapshot) => Some(snapshot@),
                    None => None,
                },
            ),
    {
        self.next_sequence = self.next_sequence + 1;
        let payload = details.with("owner_id", Json::Text(id_text(self.owner_id))).with(
            "machine_id",
            Json::Text(id_text(self.machine_id)),
        ).with("epoch", Json::Text(id_text(self.epoch))).with(
            "sequence",
            Json::of_unsigned(self.next_sequence),
        );
        let message_id = new_identifier();
        let created_at = current_millis();
        let ghost before = self.queue@;
        self.queue.push_back(
            ProjectionWork {
                epoch: self.epoch,
                sequence: self.next_sequence,
                message_id,
                created_at,
                frame: websocket_frame(frame_type, payload, message_id, created_at),
                resulting_snapshot,
                sent_at: None,
            },
        );
        assert(self.queue@.drop_last() =~= before);
    }

    /// Begins anew with a whole snapshot, whatever was in flight.
    pub fn queue_snapshot(&mut self, snapshot: ProjectionSnapshot)
        requires
            old(self).baseline.well_formed(),
            snapshot.well_formed(),
            snapshot@.len() < u64::MAX - 1,
        ensures
            final(self).owner_id == old(self).owner_id,
            final(self).machine_id == old(self).machine_id,
            is_random_id(final(self).epoch),
            final(self).next_sequence == snapshot@.len() + 2,
            final(self).acknowledged_sequence == 0,
            final(self).inflight is None,
            final(self).baseline == old(self).baseline,
            !final(self).dirty,
            tells_snapshot(*final(self), snapshot@),
            final(self).well_formed(),
    {
        let ghost list = snapshot@;
        let ghost shown = numbered_records(list);
        self.epoch = new_identifier();
        self.next_sequence = 0;
        self.acknowledged_sequence = 0;
        self.queue.clear();
        self.inflight = None;
        self.dirty = false;
        self.enqueue("projection_snapshot_begin", Json::object().with("counts", snapshot.counts()), None);
        let ghost epoch = self.epoch;
        let ghost owner = self.owner_id;
        let ghost machine = self.machine_id;
        let mut result = ProjectionSnapshot::empty();
        let mut i: usize = 0;
        assert(result@ =~= shown.take(0));
        while i < snapshot.records.len()
            invariant
                0 <= i <= snapshot.records.len(),
                list == snapshot@,
                shown == numbered_records(list),
                list.len() < u64::MAX - 1,
                self.next_sequence == i + 1,
                self.acknowledged_sequence == 0,
                self.inflight is None,
                self.baseline == old(self).baseline,
                !self.dirty,
                self.owner_id == owner && owner == old(self).owner_id,
                self.machine_id == machine && machine == old(self).machine_id,
                self.epoch == epoch,
                is_random_id(epoch),
                result@ == shown.take(i as int),
                self.queue@.len() == i + 1,
                is_work(
                    self.queue@[0],
                    owner,
                    machine,
                    epoch,
                    1,
                    "projection_snapshot_begin"@,
                    count_details(list),
                    None,
                ),
                forall|k: int|
                    0 <= k < i ==> is_work(
                        #[trigger] self.queue@[k + 1],
                        owner,
                        machine,
                        epoch,
                        k + 2,
                        "projection_snapshot_record"@,
                        record_details(list[k].kind, shown[k].value),
                        None,
                    ),
            decreases snapshot.records.len() - i,
        {
            let ghost queued = self.queue@;
            let ghost before = result@;
            assert(list[i as int] == snapshot.records@[i as int]@);
            let record = &snapshot.records[i];
            let sequence = self.next_sequence + 1;
            let value = set_projection_version(record.value.copy(), sequence);
            self.enqueue(
                "projection_snapshot_record",
                Json::object().with("kind", Json::Text(record.kind.clone())).with("record", value.copy()),
                None,
            );
            result.records.push(
                ProjectionRecord { kind: record.kind.clone(), id: record.id.clone(), value },
            );
            proof {
                assert(result@ =~= before.push(shown[i as int]));
                assert(result@ =~= shown.take(i + 1));
                assert(self.queue@.last() == self.queue@[i + 1]);
                assert forall|k: int| 0 <= k < i + 1 implies is_work(
                    #[trigger] self.queue@[k + 1],
                    owner,
                    machine,
                    epoch,
                    k + 2,
                    "projection_snapshot_record"@,
                    record_details(list[k].kind, shown[k].value),
                    None,
                ) by {
                    if k < i {
                        assert(self.queue@.drop_last()[k + 1] == queued[k + 1]);
                    }
                }
                assert(self.queue@.drop_last()[0] == queued[0]);
            }
            i += 1;
        }
        assert(result@ =~= shown);
        let ghost queued = self.queue@;
        let counts = result.counts();
        self.enqueue("projection_snapshot_commit", Json::object().with("counts", counts), Some(result));
        proof {
            assert(self.queue@.last() == self.queue@[list.len() as int + 1]);
            assert(self.queue@.drop_last()[0] == queued[0]);
            assert forall|k: int| 0 <= k < list.len() implies is_work(
                #[trigger] self.queue@[k + 1],
                owner,
                machine,
                epoch,
                k + 2,
                "projection_snapshot_record"@,
                record_details(list[k].kind, shown[k].value),
                None,
            ) by {
                assert(self.queue@.drop_last()[k + 1] == queued[k + 1]);
            }
            lemma_numbered_in_order(list);
            let works = pending(*self);
            assert(works == self.queue@);
            assert forall|k: int| 0 <= k < works.len() implies (#[trigger] works[k]).epoch == self.epoch
                && works[k].sequence == self.acknowledged_sequence + k + 1 && (resulting(works[k]) is Some
                <==> k + 1 == works.len()) && (resulting(works[k]) matches Some(r) ==> in_key_order(r)) by {
                if k > 0 && k < list.len() + 1 {
                    assert(works[k] == self.queue@[(k - 1) + 1]);
                }
            }
        }
    }

    /// Queues the changes from what the device sees to what it should see, a
    /// bounded number at a time, once nothing is on its way.
    pub fn queue_incremental(&mut self, current: ProjectionSnapshot)
        requires
            old(self).well_formed(),
            old(self).next_sequence <= u64::MAX - MAX_INCREMENTAL_RECORDS,
        ensures
            final(self).well_formed(),
            changes_queued(*old(self), *final(self), current@),
    {
        if self.queue.len() > 0 || self.inflight.is_some() {
            self.dirty = true;
            assert(pending(*self) == pending(*old(self)));
            return ;
        }
        let ghost before = *self;
        let ghost start = self.next_sequence;
        let ghost base = self.baseline@;
        let changes = projection_changes(&self.baseline, &current);
        let ghost views = changes_view(changes@);
        let ghost sent = first_changes(views);
        self.dirty = changes.len() > MAX_INCREMENTAL_RECORDS;
        let count = if changes.len() > MAX_INCREMENTAL_RECORDS {
            MAX_INCREMENTAL_RECORDS
        } else {
            changes.len()
        };
        let mut next_baseline = self.baseline.copy();
        let mut i: usize = 0;
        assert(sent.take(0) =~= Seq::empty());
        while i < count
            invariant
                0 <= i <= count,
                count <= changes.len(),
                count <= MAX_INCREMENTAL_RECORDS,
                count == sent.len(),
                views == changes_view(changes@),
                sent == first_changes(views),
                start <= u64::MAX - MAX_INCREMENTAL_RECORDS,
                start == before.next_sequence,
                base == before.baseline@,
                self.next_sequence == start + i,
                self.owner_id == before.owner_id,
                self.machine_id == before.machine_id,
                self.epoch == before.epoch,
                self.acknowledged_sequence == before.acknowledged_sequence,
                self.inflight is None,
                self.baseline == before.baseline,
                self.dirty == (views.len() > MAX_INCREMENTAL_RECORDS),
                next_baseline@ == changed_by(base, sent.take(i as int), start),
                next_baseline.well_formed(),
                self.queue@.len() == i,
                forall|k: int|
                    0 <= k < i ==> is_work(
                        #[trigger] self.queue@[k],
                        self.owner_id,
                        self.machine_id,
                        self.epoch,
                        start + k + 1,
                        "projection_update"@,
                        change_details(sent[k], (start + k + 1) as u64),
                        if k + 1 == sent.len() {
                            Some(changed_by(base, sent, start))
                        } else {
                            None
                        },
                    ),
                i > 0 && i == count ==> resulting(self.queue@[i - 1]) == Some(next_baseline@),
            decreases count - i,
        {
            let ghost queued = self.queue@;
            proof {
                assert(sent.take(i + 1).drop_last() =~= sent.take(i as int));
                assert(sent.take(i + 1).last() == sent[i as int]);
                assert(sent[i as int] == views[i as int]);
                assert(views[i as int] == changes@[i as int]@);
                assert(sent.take(sent.len() as int) =~= sent);
            }
            let is_last = i + 1 == count;
            let sequence = self.next_sequence + 1;
            let change = &changes[i];
            let details = match &change.value {
                Some(value) => {
                    let value = set_projection_version(value.copy(), sequence);
                    next_baseline.insert(change.kind.as_str(), change.id.as_str(), value.copy());
                    Json::object().with("kind", Json::Text(change.kind.clone())).with("record", value)
                },
                None => {
                    next_baseline.remove(change.kind.as_str(), change.id.as_str());
                    Json::object().with("kind", Json::of_text("delete")).with(
                        "record",
                        Json::object().with("entity", Json::Text(change.kind.clone())).with(
                            "id",
                            Json::Text(change.id.clone()),
                        ),
                    )
                },
            };
            let result = if is_last {
                Some(next_baseline.copy())
            } else {
                None
            };
            self.enqueue("projection_update", details, result);
            proof {
                assert(self.queue@.last() == self.queue@[i as int]);
                assert forall|k: int| 0 <= k < i + 1 implies is_work(
                    #[trigger] self.queue@[k],
                    self.owner_id,
                    self.machine_id,
                    self.epoch,
                    start + k + 1,
                    "projection_update"@,
                    change_details(sent[k], (start + k + 1) as u64),
                    if k + 1 == sent.len() {
                        Some(changed_by(base, sent, start))
                    } else {
                        None
                    },
                ) by {
                    if k < i {
                        assert(self.queue@.drop_last()[k] == queued[k]);
                    }
                }
            }
            i += 1;
        }
        proof {
            let works = pending(*self);
            assert(works == self.queue@);
            assert(sent.take(sent.len() as int) =~= sent);
            assert forall|k: int| 0 <= k < works.len() implies (#[trigger] works[k]).epoch == self.epoch
                && works[k].sequence == self.acknowledged_sequence + k + 1 && (resulting(works[k]) is Some
                <==> k + 1 == works.len()) && (resulting(works[k]) matches Some(r) ==> in_key_order(r)) by {
                assert(works[k] == self.queue@[k]);
            }
        }
    }

    /// Takes an acknowledgement. Only the one of the frame in flight moves
    /// anything: older ones are passed over, and others are errors.
    pub fn acknowledge(&mut self, epoch: u128, sequence: u64, status: &str) -> (r: Result<
        ProjectionAckOutcome,
        &'static str,
    >)
        requires
            old(self).well_formed(),
        ensures
            final(self).well_formed(),
            acknowledged(*old(self), *final(self), epoch, sequence, status@, r),
    {
        if !same_text(status, "applied") && !same_text(status, "duplicate") {
            return Err("relay returned invalid projection acknowledgement");
        }
        if epoch != self.epoch || sequence <= self.acknowledged_sequence {
            return Ok(ProjectionAckOutcome::Ignored);
        }
        let expected = match &self.inflight {
            None => {
                return Err("relay acknowledged a projection that was not in flight");
            },
            Some(work) => work.epoch == epoch && work.sequence == sequence,
        };
        if !expected {
            return Err("relay acknowledged an unexpected projection sequence");
        }
        let ghost works = pending(*self);
        let ghost first = self.inflight->0;
        assert(works[0] == first);
        let work = self.inflight.take();
        self.acknowledged_sequence = sequence;
        proof {
            let rest = pending(*self);
            assert forall|k: int| 0 <= k < rest.len() implies (#[trigger] rest[k]).epoch == self.epoch
                && rest[k].sequence == self.acknowledged_sequence + k + 1 && (resulting(rest[k]) is Some
                <==> k + 1 == rest.len()) && (resulting(rest[k]) matches Some(r) ==> in_key_order(r)) by {
                assert(rest[k] == works[k + 1]);
            }
        }
        match work {
            Some(work) => match work.resulting_snapshot {
                Some(snapshot) => {
                    self.baseline = snapshot.copy();
                    Ok(ProjectionAckOutcome::Committed(snapshot))
                },
                None => Ok(ProjectionAckOutcome::Advanced),
            },
            None => Ok(ProjectionAckOutcome::Ignored),
        }
    }

    /// The frame in flight: the one that is, else the first of the queue.
    pub fn next_frame(&mut self) -> (r: Option<&ProjectionWork>)
        requires
            old(self).well_formed(),
        ensures
            final(self).well_formed(),
            pending(*final(self)) == pending(*old(self)),
            *final(self) == (ProjectionTransport {
                queue: final(self).queue,
                inflight: final(self).inflight,
                ..*old(self)
            }),
            final(self).inflight is Some <==> pending(*old(self)).len() > 0,
            old(self).inflight is Some ==> final(self).inflight == old(self).inflight,
            match r {
                Some(work) => final(self).inflight == Some(*work) && *work == pending(*old(self))[0],
                None => final(self).inflight is None,
            },
    {
        let ghost works = pending(*self);
        if self.inflight.is_none() {
            self.inflight = self.queue.pop_front();
            assert(pending(*self) =~= works);
        }
        match &self.inflight {
            Some(work) => Some(work),
            None => None,
        }
    }
}

/// What is to be done with the frame in flight.
#[derive(Debug)]
pub enum FrameStep {
    /// There is none.
    Idle,
    /// Its acknowledgement is waited for.
    Waiting,
    /// It is to be sent now.
    Send(String),
    /// Its acknowledgement has been waited for too long.
    TimedOut,
}

/// Whether so much time has passed.
pub open spec fn has_passed(since: u64, now: u64, time: u64) -> bool {
    now >= since && now - since >= time
}

impl ProjectionTransport {
    /// What is to be done with the frame in flight. A frame is sent once; the
    /// time is one that only grows.
    pub fn frame_step(&mut self, now: u64) -> (r: FrameStep)
        requires
            old(self).well_formed(),
        ensures
            final(self).well_formed(),
            ({
                let works = pending(*old(self));
                if works.len() == 0 {
                    r is Idle && pending(*final(self)) == works
                } else {
                    match works[0].sent_at {
                        Some(since) => {
                            &&& if has_passed(since, now, PROJECTION_ACK_TIMEOUT) {
                                r is TimedOut
                            } else {
                                r is Waiting
                            }
                            &&& pending(*final(self)) == works
                        },
                        None => {
                            &&& r matches FrameStep::Send(text) && text@ == works[0].frame@
                            &&& pending(*final(self)) == works.update(
                                0,
                                (ProjectionWork { sent_at: Some(now), ..works[0] }),
                            )
                        },
                    }
                }
            }),
            pending(*old(self)).len() > 0 ==> final(self).inflight is Some,
            *final(self) == (ProjectionTransport {
                queue: final(self).queue,
                inflight: final(self).inflight,
                ..*old(self)
            }),
    {
        let ghost works = pending(*self);
        if self.inflight.is_none() {
            self.inflight = self.queue.pop_front();
            assert(pending(*self) =~= works);
        }
        let work = self.inflight.take();
        match work {
            None => FrameStep::Idle,
            Some(work) => match work.sent_at {
                Some(since) => {
                    self.inflight = Some(work);
                    assert(pending(*self) =~= works);
                    if now >= since && now - since >= PROJECTION_ACK_TIMEOUT {
                        FrameStep::TimedOut
                    } else {
                        FrameStep::Waiting
                    }
                },
                None => {
                    let frame = work.frame.clone();
                    let sent = ProjectionWork { sent_at: Some(now), ..work };
                    self.inflight = Some(sent);
                    proof {
                        let after = pending(*self);
                        assert(after =~= works.update(0, sent));
                        assert forall|k: int| 0 <= k < after.len() implies (#[trigger] after[k]).epoch
                            == self.epoch && after[k].sequence == self.acknowledged_sequence + k + 1 && (
                        resulting(after[k]) is Some <==> k + 1 == after.len()) && (resulting(
                            after[k],
                        ) matches Some(r) ==> in_key_order(r)) by {
                            assert(works[k].epoch == self.epoch);
                        }
                    }
                    FrameStep::Send(frame)
                },
            },
        }
    }

    /// Whether a change waits while nothing is on its way.
    pub fn wants_changes(&self) -> (r: bool)
        ensures
            r == (pending(*self).len() == 0 && self.dirty),
    {
        self.queue.len() == 0 && self.inflight.is_none() && self.dirty
    }

    /// Something has changed.
    pub fn mark_dirty(&mut self)
        requires
            old(self).well_formed(),
        ensures
            *final(self) == (ProjectionTransport { dirty: true, ..*old(self) }),
            final(self).well_formed(),
    {
        self.dirty = true;
        assert(pending(*self) == pending(*old(self)));
    }
}

/// Once every frame has been acknowledged in turn, the device sees what the last
/// frame of the batch said, and before that what it saw.
pub proof fn lemma_batch_commits_at_its_end(transport: ProjectionTransport)
    requires
        transport.well_formed(),
    ensures
        forall|i: int|
            0 <= i < pending(transport).len() - 1 ==> resulting(#[trigger] pending(transport)[i]) is None,
        pending(transport).len() > 0 ==> resulting(pending(transport).last()) is Some,
{
    let works = pending(transport);
    if works.len() > 0 {
        assert(works.last() == works[works.len() - 1]);
    }
}

/// The numbers of the frames that are not acknowledged follow one another.
pub proof fn lemma_frames_are_consecutive(transport: ProjectionTransport, i: int)
    requires
        transport.well_formed(),
        0 <= i < pending(transport).len(),
    ensures
        pending(transport)[i].epoch == transport.epoch,
        pending(transport)[i].sequence == transport.acknowledged_sequence + i + 1,
        pending(transport)[i].sequence <= transport.next_sequence,
{
}

proof fn lemma_numbered_in_order(list: Seq<RecordView>)
    requires
        in_key_order(list),
    ensures
        in_key_order(numbered_records(list)),
{
    let shown = numbered_records(list);
    assert forall|i: int, j: int| 0 <= i < j < shown.len() implies crate::projection::key_precedes(
        #[trigger] key_of(shown[i]),
        #[trigger] key_of(shown[j]),
    ) by {
        assert(crate::projection::key_precedes(key_of(list[i]), key_of(list[j])));
    }
}

/// Only the acknowledgement of the frame in flight moves anything: its number counts
/// as acknowledged, and what the device is taken to see changes only with the last
/// frame of a batch, to just what that frame said.
pub proof fn lemma_only_the_frame_in_flight_is_acknowledged(
    before: ProjectionTransport,
    after: ProjectionTransport,
    epoch: u128,
    sequence: u64,
    status: Seq<char>,
    r: Result<ProjectionAckOutcome, &'static str>,
)
    requires
        acknowledged(before, after, epoch, sequence, status, r),
    ensures
        status != "applied"@ && status != "duplicate"@ ==> r is Err && after == before,
        epoch != before.epoch ==> after == before && (status == "applied"@ || status == "duplicate"@
            ==> r matches Ok(ProjectionAckOutcome::Ignored)),
        sequence <= before.acknowledged_sequence ==> after == before,
        after != before ==> before.inflight is Some && before.inflight->0.sequence == sequence
            && before.inflight->0.epoch == epoch && after.inflight is None && after.acknowledged_sequence
            == sequence,
        r matches Ok(ProjectionAckOutcome::Advanced) ==> after.baseline == before.baseline && resulting(
            before.inflight->0,
        ) is None,
        r matches Ok(ProjectionAckOutcome::Committed(snapshot)) ==> resulting(before.inflight->0) == Some(
            snapshot@,
        ) && after.baseline@ == snapshot@,
        r is Err ==> after == before,
        (status == "applied"@ || status == "duplicate"@) && epoch == before.epoch && sequence
            > before.acknowledged_sequence && before.inflight is Some && before.inflight->0.epoch == epoch
            && before.inflight->0.sequence == sequence ==> r is Ok && !(r matches Ok(
            ProjectionAckOutcome::Ignored,
        )),
{
}

/// While a frame is on its way nothing more is queued, but that something changed is
/// kept; otherwise at most thirty-two changes are, and that there are more is kept.
pub proof fn lemma_changes_wait_for_their_turn(
    before: ProjectionTransport,
    after: ProjectionTransport,
    current: Seq<RecordView>,
)
    requires
        changes_queued(before, after, current),
    ensures
        pending(before).len() > 0 ==> after.dirty && after.queue == before.queue && after.inflight
            == before.inflight && after.next_sequence == before.next_sequence,
        pending(before).len() == 0 ==> after.queue@.len() <= 32 && (after.dirty <==> changes_between(
            before.baseline@,
            current,
        ).len() > 32) && after.next_sequence == before.next_sequence + after.queue@.len(),
        pending(before).len() == 0 && changes_between(before.baseline@, current).len() == 0
            ==> after.queue@.len() == 0,
        after.baseline == before.baseline,
        after.acknowledged_sequence == before.acknowledged_sequence,
        after.epoch == before.epoch,
{
}

/// A frame says what it is, which it is, and whose: its kind, its number in its epoch,
/// its owner and its machine.
pub proof fn lemma_frames_name_their_place(
    kind: Seq<char>,
    details: JsonView,
    owner: u128,
    machine: u128,
    epoch: u128,
    sequence: u64,
    message_id: u128,
    created_at: i64,
)
    requires
        details is Object,
        details.member("owner_id"@) is None,
        details.member("machine_id"@) is None,
        details.member("epoch"@) is None,
        details.member("sequence"@) is None,
    ensures
        ({
            let frame = frame_value(kind, numbered(details, owner, machine, epoch, sequence), message_id, created_at);
            &&& frame.text_at("type"@) == Some(kind)
            &&& frame.text_at("message_id"@) == Some(hyphenated(message_id))
            &&& frame.member("protocol_version"@) == Some(JsonView::Number(NumberView::Unsigned(1)))
            &&& frame.member("created_at"@) == Some(integer(created_at))
            &&& frame.text_at2("payload"@, "owner_id"@) == Some(hyphenated(owner))
            &&& frame.text_at2("payload"@, "machine_id"@) == Some(hyphenated(machine))
            &&& frame.text_at2("payload"@, "epoch"@) == Some(hyphenated(epoch))
            &&& frame.member2("payload"@, "sequence"@) == Some(JsonView::Number(NumberView::Unsigned(sequence)))
        }),
{
    broadcast use lemma_member_of_extended;

    reveal_strlit("protocol_version");
    reveal_strlit("message_id");
    reveal_strlit("type");
    reveal_strlit("created_at");
    reveal_strlit("payload");
    reveal_strlit("owner_id");
    reveal_strlit("machine_id");
    reveal_strlit("epoch");
    reveal_strlit("sequence");
    assert("protocol_version"@.len() == 16);
    assert("message_id"@.len() == 10 && "message_id"@[1] == 'e');
    assert("type"@.len() == 4);
    assert("created_at"@.len() == 10 && "created_at"@[1] == 'r');
    assert("payload"@.len() == 7);
    assert("owner_id"@.len() == 8 && "owner_id"@[0] == 'o');
    assert("machine_id"@.len() == 10);
    assert("epoch"@.len() == 5);
    assert("sequence"@.len() == 8 && "sequence"@[0] == 's');
}

/// One change shows or hides just its own record: a record that is shown is found with
/// its value, one that is hidden is not, and a hidden one is told by its name.
pub proof fn lemma_changes_are_told_by_name(change: ChangeView, sequence: u64)
    ensures
        change.value is Some ==> change_details(change, sequence).text_at("kind"@) == Some(change.kind)
            && change_details(change, sequence).member("record"@) == Some(
            with_version(change.value->0, sequence),
        ),
        change.value is None ==> change_details(change, sequence).text_at("kind"@) == Some("delete"@)
            && change_details(change, sequence).text_at2("record"@, "entity"@) == Some(change.kind)
            && change_details(change, sequence).text_at2("record"@, "id"@) == Some(change.id),
{
    broadcast use lemma_member_of_extended;

    reveal_strlit("kind");
    reveal_strlit("record");
    reveal_strlit("entity");
    reveal_strlit("id");
    assert("kind"@.len() == 4);
    assert("record"@.len() == 6);
    assert("entity"@.len() == 6);
    assert("id"@.len() == 2);
}

/// At most thirty-two changes are sent at once, and they are the first.
pub proof fn lemma_first_changes_are_sent(changes: Seq<ChangeView>)
    ensures
        first_changes(changes).len() <= 32,
        changes.len() <= 32 ==> first_changes(changes) == changes,
        changes.len() > 32 ==> first_changes(changes) == changes.take(32),
{
}

/// A snapshot is told in a row: that it begins, one record after the other, and
/// that it is complete. The places in the row go up by one from the first, and only
/// with the last is the snapshot what the device shows.
pub proof fn lemma_snapshots_are_told_in_a_row(transport: ProjectionTransport, list: Seq<RecordView>, i: int)
    requires
        tells_snapshot(transport, list),
        0 <= i < list.len() + 2,
    ensures
        transport.queue@.len() == list.len() + 2,
        transport.queue@[i].sequence == i + 1,
        transport.queue@[i].epoch == transport.epoch,
        transport.queue@[i].sent_at is None,
        resulting(transport.queue@[i]) is Some <==> i == list.len() + 1,
        resulting(transport.queue@[list.len() as int + 1]) matches Some(shown) && shown.len() == list.len()
            && forall|k: int|
            0 <= k < list.len() ==> (#[trigger] shown[k]).kind == list[k].kind && shown[k].id == list[k].id
                && shown[k].value == with_version(list[k].value, (k + 2) as u64),
{
    if 1 <= i <= list.len() {
        let queue = transport.queue@;
        assert(queue[(i - 1) + 1] == queue[i]);
    }
}

} // verus!
