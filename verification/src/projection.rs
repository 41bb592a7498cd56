//! What a paired device sees of this machine: a list of records, ordered by
//! their kinds and identifiers, and how two such lists differ.

use crate::ids::{hyphenated, id_text};
use crate::json::{
    find_member, lemma_member_of_extended, no_members, same_value, Json, JsonView, NumberView,
};
use crate::order::{
    lemma_precedes_irreflexive, lemma_precedes_total, lemma_precedes_transitive, precedes,
    text_precedes,
};
use crate::text::same_text;
use vstd::prelude::*;

verus! {

/// What a device sees of one thing.
#[derive(Debug)]
pub struct ProjectionRecord {
    pub kind: String,
    pub id: String,
    pub value: Json,
}

/// The mathematical value of a record.
pub struct RecordView {
    pub kind: Seq<char>,
    pub id: Seq<char>,
    pub value: JsonView,
}

impl View for ProjectionRecord {
    type V = RecordView;

    open spec fn view(&self) -> RecordView {
        RecordView { kind: self.kind@, id: self.id@, value: self.value@ }
    }
}

impl ProjectionRecord {
    /// A record equal to this one.
    pub fn copy(&self) -> (r: ProjectionRecord)
        ensures
            r@ == self@,
    {
        ProjectionRecord { kind: self.kind.clone(), id: self.id.clone(), value: self.value.copy() }
    }
}

/// All that a device sees, each thing once.
#[derive(Debug)]
pub struct ProjectionSnapshot {
    pub records: Vec<ProjectionRecord>,
}

impl View for ProjectionSnapshot {
    type V = Seq<RecordView>;

    open spec fn view(&self) -> Seq<RecordView> {
        self.records@.map_values(|record: ProjectionRecord| record@)
    }
}

/// What a record is found by.
pub open spec fn key_of(record: RecordView) -> (Seq<char>, Seq<char>) {
    (record.kind, record.id)
}

/// The order of records: by kind, then by identifier.
pub open spec fn key_precedes(a: (Seq<char>, Seq<char>), b: (Seq<char>, Seq<char>)) -> bool {
    precedes(a.0, b.0) || (a.0 == b.0 && precedes(a.1, b.1))
}

/// Whether each record comes before all that follow it.
pub open spec fn in_key_order(list: Seq<RecordView>) -> bool {
    forall|i: int, j: int|
        0 <= i < j < list.len() ==> key_precedes(#[trigger] key_of(list[i]), #[trigger] key_of(list[j]))
}

/// The value of the record with a key.
pub open spec fn value_of(list: Seq<RecordView>, key: (Seq<char>, Seq<char>)) -> Option<JsonView>
    decreases list.len(),
{
    if list.len() == 0 {
        None
    } else if key_of(list[0]) == key {
        Some(list[0].value)
    } else {
        value_of(list.drop_first(), key)
    }
}

/// The list with a record put at its place, instead of the one with its key.
pub open spec fn put(list: Seq<RecordView>, record: RecordView) -> Seq<RecordView>
    decreases list.len(),
{
    if list.len() == 0 {
        seq![record]
    } else if key_of(list[0]) == key_of(record) {
        seq![record] + list.drop_first()
    } else if key_precedes(key_of(record), key_of(list[0])) {
        seq![record] + list
    } else {
        seq![list[0]] + put(list.drop_first(), record)
    }
}

/// The list without the record with a key.
pub open spec fn without_key(list: Seq<RecordView>, key: (Seq<char>, Seq<char>)) -> Seq<RecordView>
    decreases list.len(),
{
    if list.len() == 0 {
        list
    } else if key_of(list[0]) == key {
        list.drop_first()
    } else {
        seq![list[0]] + without_key(list.drop_first(), key)
    }
}

/// How many records are of a kind.
pub open spec fn count_of(list: Seq<RecordView>, kind: Seq<char>) -> nat
    decreases list.len(),
{
    if list.len() == 0 {
        0
    } else {
        count_of(list.drop_last(), kind) + if list.last().kind == kind {
            1nat
        } else {
            0nat
        }
    }
}

/// The counts of the records by their kinds.
pub open spec fn counts_of(list: Seq<RecordView>) -> JsonView {
    no_members().with(
        "projects"@,
        JsonView::Number(NumberView::Unsigned(count_of(list, "project"@) as u64)),
    ).with(
        "sessions"@,
        JsonView::Number(NumberView::Unsigned(count_of(list, "session"@) as u64)),
    ).with(
        "attention"@,
        JsonView::Number(NumberView::Unsigned(count_of(list, "attention"@) as u64)),
    )
}

/// The members with one of them set: changed where it stands, else at the end.
pub open spec fn set_member(members: Seq<(Seq<char>, JsonView)>, key: Seq<char>, value: JsonView) -> Seq<
    (Seq<char>, JsonView),
>
    decreases members.len(),
{
    if members.len() == 0 {
        seq![(key, value)]
    } else if members[0].0 == key {
        seq![(key, value)] + members.drop_first()
    } else {
        seq![members[0]] + set_member(members.drop_first(), key, value)
    }
}

/// A record's value with the version of its projection.
pub open spec fn with_version(value: JsonView, version: u64) -> JsonView {
    match value {
        JsonView::Object(members) => JsonView::Object(
            set_member(
                members,
                "projection_version"@,
                JsonView::Number(NumberView::Unsigned(version)),
            ),
        ),
        other => other,
    }
}

/// Whether two members are equal, or both missing.
pub open spec fn same_found(left: Option<JsonView>, right: Option<JsonView>) -> bool {
    match (left, right) {
        (Some(left), Some(right)) => same_value(left, right),
        (None, None) => true,
        _ => false,
    }
}

/// Whether two values show the same: objects with the same members but for the
/// version of the projection, or equal values.
pub open spec fn same_content(left: JsonView, right: JsonView) -> bool {
    match (left, right) {
        (JsonView::Object(_), JsonView::Object(_)) => forall|key: Seq<char>|
            key != "projection_version"@ ==> same_found(#[trigger] left.member(key), right.member(key)),
        _ => same_value(left, right),
    }
}

/// A record that has changed, or that is gone.
#[derive(Debug)]
pub struct Change {
    pub kind: String,
    pub id: String,
    pub value: Option<Json>,
}

/// The mathematical value of a change.
pub struct ChangeView {
    pub kind: Seq<char>,
    pub id: Seq<char>,
    pub value: Option<JsonView>,
}

impl View for Change {
    type V = ChangeView;

    open spec fn view(&self) -> ChangeView {
        ChangeView {
            kind: self.kind@,
            id: self.id@,
            value: match self.value {
                Some(value) => Some(value@),
                None => None,
            },
        }
    }
}

/// What a change is about.
pub open spec fn change_key(change: ChangeView) -> (Seq<char>, Seq<char>) {
    (change.kind, change.id)
}

/// A record that has changed.
pub open spec fn shows(record: RecordView) -> ChangeView {
    ChangeView { kind: record.kind, id: record.id, value: Some(record.value) }
}

/// A record that is gone.
pub open spec fn hides(record: RecordView) -> ChangeView {
    ChangeView { kind: record.kind, id: record.id, value: None }
}

/// The changes from one list to another, in the order of their keys.
pub open spec fn changes_between(before: Seq<RecordView>, after: Seq<RecordView>) -> Seq<ChangeView>
    decreases before.len() + after.len(),
{
    if before.len() == 0 && after.len() == 0 {
        Seq::empty()
    } else if before.len() == 0 || (after.len() > 0 && key_precedes(key_of(after[0]), key_of(before[0]))) {
        seq![shows(after[0])] + changes_between(before, after.drop_first())
    } else if after.len() == 0 || key_precedes(key_of(before[0]), key_of(after[0])) {
        seq![hides(before[0])] + changes_between(before.drop_first(), after)
    } else if same_content(before[0].value, after[0].value) {
        changes_between(before.drop_first(), after.drop_first())
    } else {
        seq![shows(after[0])] + changes_between(before.drop_first(), after.drop_first())
    }
}

/// Whether a change is one from the first list to the second.
pub open spec fn is_change(before: Seq<RecordView>, after: Seq<RecordView>, change: ChangeView) -> bool {
    let key = change_key(change);
    match change.value {
        Some(value) => value_of(after, key) == Some(value) && (match value_of(before, key) {
            Some(old_value) => !same_content(old_value, value),
            None => true,
        }),
        None => value_of(before, key) is Some && value_of(after, key) is None,
    }
}

// ---- the order of keys ----

pub proof fn lemma_key_irreflexive(a: (Seq<char>, Seq<char>))
    ensures
        !key_precedes(a, a),
{
    lemma_precedes_irreflexive(a.0);
    lemma_precedes_irreflexive(a.1);
}

pub proof fn lemma_key_transitive(
    a: (Seq<char>, Seq<char>),
    b: (Seq<char>, Seq<char>),
    c: (Seq<char>, Seq<char>),
)
    requires
        key_precedes(a, b),
        key_precedes(b, c),
    ensures
        key_precedes(a, c),
{
    if precedes(a.0, b.0) && precedes(b.0, c.0) {
        lemma_precedes_transitive(a.0, b.0, c.0);
    } else if a.0 == b.0 && b.0 == c.0 {
        if precedes(a.1, b.1) && precedes(b.1, c.1) {
            lemma_precedes_transitive(a.1, b.1, c.1);
        }
    }
}

pub proof fn lemma_key_total(a: (Seq<char>, Seq<char>), b: (Seq<char>, Seq<char>))
    ensures
        a == b || key_precedes(a, b) || key_precedes(b, a),
{
    lemma_precedes_total(a.0, b.0);
    lemma_precedes_total(a.1, b.1);
}

proof fn lemma_key_asymmetric(a: (Seq<char>, Seq<char>), b: (Seq<char>, Seq<char>))
    requires
        key_precedes(a, b),
    ensures
        !key_precedes(b, a),
        a != b,
{
    lemma_key_irreflexive(a);
    if key_precedes(b, a) {
        lemma_key_transitive(a, b, a);
    }
}

proof fn lemma_tail_in_order(list: Seq<RecordView>)
    requires
        in_key_order(list),
        list.len() > 0,
    ensures
        in_key_order(list.drop_first()),
        forall|i: int|
            0 <= i < list.drop_first().len() ==> key_precedes(
                key_of(list[0]),
                #[trigger] key_of(list.drop_first()[i]),
            ),
{
    let rest = list.drop_first();
    assert forall|i: int, j: int| 0 <= i < j < rest.len() implies key_precedes(
        #[trigger] key_of(rest[i]),
        #[trigger] key_of(rest[j]),
    ) by {
        assert(rest[i] == list[i + 1] && rest[j] == list[j + 1]);
        assert(key_precedes(key_of(list[i + 1]), key_of(list[j + 1])));
    }
    assert forall|i: int| 0 <= i < rest.len() implies key_precedes(
        key_of(list[0]),
        #[trigger] key_of(rest[i]),
    ) by {
        assert(rest[i] == list[i + 1]);
        assert(key_precedes(key_of(list[0]), key_of(list[i + 1])));
    }
}

proof fn lemma_head_in_order(first: RecordView, rest: Seq<RecordView>)
    requires
        in_key_order(rest),
        forall|i: int| 0 <= i < rest.len() ==> key_precedes(key_of(first), #[trigger] key_of(rest[i])),
    ensures
        in_key_order(seq![first] + rest),
{
    let list = seq![first] + rest;
    assert forall|i: int, j: int| 0 <= i < j < list.len() implies key_precedes(
        #[trigger] key_of(list[i]),
        #[trigger] key_of(list[j]),
    ) by {
        assert(list[j] == rest[j - 1]);
        if i > 0 {
            assert(list[i] == rest[i - 1]);
            assert(key_precedes(key_of(rest[i - 1]), key_of(rest[j - 1])));
        } else {
            assert(key_precedes(key_of(first), key_of(rest[j - 1])));
        }
    }
}

/// Every key of a list with a record put into it is one of the list or that of
/// the record.
proof fn lemma_put_keys(list: Seq<RecordView>, record: RecordView)
    ensures
        forall|i: int|
            0 <= i < put(list, record).len() ==> put(list, record)[i] == record || list.contains(
                #[trigger] put(list, record)[i],
            ),
    decreases list.len(),
{
    let after = put(list, record);
    if list.len() > 0 {
        lemma_put_keys(list.drop_first(), record);
        assert forall|i: int| 0 <= i < after.len() implies after[i] == record || list.contains(
            #[trigger] after[i],
        ) by {
            if key_of(list[0]) == key_of(record) {
                if i > 0 {
                    assert(after[i] == list[i]);
                }
            } else if key_precedes(key_of(record), key_of(list[0])) {
                if i > 0 {
                    assert(after[i] == list[i - 1]);
                }
            } else if i == 0 {
                assert(after[0] == list[0]);
            } else {
                let inner = put(list.drop_first(), record);
                assert(after[i] == inner[i - 1]);
                if inner[i - 1] != record {
                    assert(list.drop_first().contains(inner[i - 1]));
                    let k = choose|k: int|
                        0 <= k < list.drop_first().len() && list.drop_first()[k] == inner[i - 1];
                    assert(list[k + 1] == after[i]);
                }
            }
        }
    }
}

/// Putting a record keeps the order.
pub proof fn lemma_put_in_order(list: Seq<RecordView>, record: RecordView)
    requires
        in_key_order(list),
    ensures
        in_key_order(put(list, record)),
    decreases list.len(),
{
    if list.len() > 0 {
        lemma_tail_in_order(list);
        let rest = list.drop_first();
        if key_of(list[0]) == key_of(record) {
            lemma_head_in_order(record, rest);
        } else if key_precedes(key_of(record), key_of(list[0])) {
            assert forall|i: int| 0 <= i < list.len() implies key_precedes(
                key_of(record),
                #[trigger] key_of(list[i]),
            ) by {
                if i > 0 {
                    assert(key_precedes(key_of(list[0]), key_of(list[i])));
                    lemma_key_transitive(key_of(record), key_of(list[0]), key_of(list[i]));
                }
            }
            lemma_head_in_order(record, list);
        } else {
            lemma_put_in_order(rest, record);
            lemma_put_keys(rest, record);
            lemma_key_total(key_of(list[0]), key_of(record));
            let inner = put(rest, record);
            assert forall|i: int| 0 <= i < inner.len() implies key_precedes(
                key_of(list[0]),
                #[trigger] key_of(inner[i]),
            ) by {
                if inner[i] != record {
                    assert(rest.contains(inner[i]));
                    let k = choose|k: int| 0 <= k < rest.len() && rest[k] == inner[i];
                    assert(key_precedes(key_of(list[0]), key_of(rest[k])));
                }
            }
            lemma_head_in_order(list[0], inner);
        }
    }
}

/// Taking a record away keeps the order.
pub proof fn lemma_without_key_in_order(list: Seq<RecordView>, key: (Seq<char>, Seq<char>))
    requires
        in_key_order(list),
    ensures
        in_key_order(without_key(list, key)),
        forall|i: int|
            0 <= i < without_key(list, key).len() ==> list.contains(#[trigger] without_key(list, key)[i]),
    decreases list.len(),
{
    if list.len() > 0 {
        lemma_tail_in_order(list);
        let rest = list.drop_first();
        lemma_without_key_in_order(rest, key);
        let after = without_key(list, key);
        let inner = without_key(rest, key);
        if key_of(list[0]) == key {
            assert forall|i: int| 0 <= i < after.len() implies list.contains(#[trigger] after[i]) by {
                assert(list[i + 1] == after[i]);
            }
        } else {
            assert forall|i: int| 0 <= i < inner.len() implies key_precedes(
                key_of(list[0]),
                #[trigger] key_of(inner[i]),
            ) by {
                assert(rest.contains(inner[i]));
                let k = choose|k: int| 0 <= k < rest.len() && rest[k] == inner[i];
                assert(key_precedes(key_of(list[0]), key_of(rest[k])));
            }
            lemma_head_in_order(list[0], inner);
            assert forall|i: int| 0 <= i < after.len() implies list.contains(#[trigger] after[i]) by {
                if i == 0 {
                    assert(after[0] == list[0]);
                } else {
                    assert(after[i] == inner[i - 1]);
                    assert(rest.contains(inner[i - 1]));
                    let k = choose|k: int| 0 <= k < rest.len() && rest[k] == inner[i - 1];
                    assert(list[k + 1] == after[i]);
                }
            }
        }
    }
}

/// A record that was put is found, and no other record is touched.
pub proof fn lemma_put_is_found(list: Seq<RecordView>, record: RecordView, key: (Seq<char>, Seq<char>))
    requires
        in_key_order(list),
    ensures
        value_of(put(list, record), key) == (if key == key_of(record) {
            Some(record.value)
        } else {
            value_of(list, key)
        }),
    decreases list.len(),
{
    let after = put(list, record);
    if list.len() == 0 {
        assert(after.drop_first() =~= Seq::empty());
        assert(value_of(after.drop_first(), key) is None);
    } else {
        lemma_tail_in_order(list);
        lemma_put_is_found(list.drop_first(), record, key);
        assert(after.len() > 0);
        if key_of(list[0]) == key_of(record) {
            assert(after.drop_first() =~= list.drop_first());
        } else if key_precedes(key_of(record), key_of(list[0])) {
            assert(after.drop_first() =~= list);
        } else {
            assert(after.drop_first() =~= put(list.drop_first(), record));
        }
    }
}

proof fn lemma_absent_before(list: Seq<RecordView>, key: (Seq<char>, Seq<char>))
    requires
        forall|i: int| 0 <= i < list.len() ==> key_precedes(key, #[trigger] key_of(list[i])),
    ensures
        value_of(list, key) is None,
    decreases list.len(),
{
    if list.len() > 0 {
        lemma_key_asymmetric(key, key_of(list[0]));
        assert forall|i: int| 0 <= i < list.drop_first().len() implies key_precedes(
            key,
            #[trigger] key_of(list.drop_first()[i]),
        ) by {
            assert(list.drop_first()[i] == list[i + 1]);
            assert(key_precedes(key, key_of(list[i + 1])));
        }
        lemma_absent_before(list.drop_first(), key);
    }
}

/// A record that was taken away is gone, and no other record is touched.
pub proof fn lemma_without_key_is_gone(
    list: Seq<RecordView>,
    gone: (Seq<char>, Seq<char>),
    key: (Seq<char>, Seq<char>),
)
    requires
        in_key_order(list),
    ensures
        value_of(without_key(list, gone), key) == (if key == gone {
            None
        } else {
            value_of(list, key)
        }),
    decreases list.len(),
{
    if list.len() > 0 {
        lemma_tail_in_order(list);
        lemma_without_key_is_gone(list.drop_first(), gone, key);
        let after = without_key(list, gone);
        if key_of(list[0]) == gone {
            if key == gone {
                lemma_absent_before(list.drop_first(), key);
            }
        } else {
            assert(after[0] == list[0]);
            assert(after.drop_first() =~= without_key(list.drop_first(), gone));
        }
    }
}

/// The changes from one list to another are exactly those records that the
/// second shows anew or otherwise, and those that it no longer shows.
pub proof fn lemma_changes_are_exact(before: Seq<RecordView>, after: Seq<RecordView>, change: ChangeView)
    requires
        in_key_order(before),
        in_key_order(after),
    ensures
        changes_between(before, after).contains(change) <==> is_change(before, after, change),
    decreases before.len() + after.len(),
{
    let list = changes_between(before, after);
    let key = change_key(change);
    if before.len() == 0 && after.len() == 0 {
    } else if before.len() == 0 || (after.len() > 0 && key_precedes(key_of(after[0]), key_of(before[0]))) {
        lemma_tail_in_order(after);
        let rest = changes_between(before, after.drop_first());
        lemma_changes_are_exact(before, after.drop_first(), change);
        lemma_seq_contains(shows(after[0]), rest, change);
        lemma_absent_before(after.drop_first(), key_of(after[0]));
        assert forall|i: int| 0 <= i < before.len() implies key_precedes(
            key_of(after[0]),
            #[trigger] key_of(before[i]),
        ) by {
            if i > 0 {
                assert(key_precedes(key_of(before[0]), key_of(before[i])));
                lemma_key_transitive(key_of(after[0]), key_of(before[0]), key_of(before[i]));
            }
        }
        lemma_absent_before(before, key_of(after[0]));
        if key == key_of(after[0]) {
            assert(change == shows(after[0]) <==> change.value == Some(after[0].value));
        }
    } else if after.len() == 0 || key_precedes(key_of(before[0]), key_of(after[0])) {
        lemma_tail_in_order(before);
        let rest = changes_between(before.drop_first(), after);
        lemma_changes_are_exact(before.drop_first(), after, change);
        lemma_seq_contains(hides(before[0]), rest, change);
        lemma_absent_before(before.drop_first(), key_of(before[0]));
        assert forall|i: int| 0 <= i < after.len() implies key_precedes(
            key_of(before[0]),
            #[trigger] key_of(after[i]),
        ) by {
            if i > 0 {
                assert(key_precedes(key_of(after[0]), key_of(after[i])));
                lemma_key_transitive(key_of(before[0]), key_of(after[0]), key_of(after[i]));
            }
        }
        lemma_absent_before(after, key_of(before[0]));
        if key == key_of(before[0]) {
            assert(change == hides(before[0]) <==> change.value is None);
        }
    } else {
        lemma_key_total(key_of(before[0]), key_of(after[0]));
        lemma_tail_in_order(before);
        lemma_tail_in_order(after);
        let rest = changes_between(before.drop_first(), after.drop_first());
        lemma_changes_are_exact(before.drop_first(), after.drop_first(), change);
        lemma_absent_before(before.drop_first(), key_of(before[0]));
        lemma_absent_before(after.drop_first(), key_of(after[0]));
        if !same_content(before[0].value, after[0].value) {
            lemma_seq_contains(shows(after[0]), rest, change);
            if key == key_of(after[0]) {
                assert(change == shows(after[0]) <==> change.value == Some(after[0].value));
            }
        }
    }
}

proof fn lemma_seq_contains(first: ChangeView, rest: Seq<ChangeView>, change: ChangeView)
    ensures
        (seq![first] + rest).contains(change) <==> change == first || rest.contains(change),
{
    let list = seq![first] + rest;
    if change == first {
        assert(list[0] == change);
    }
    if rest.contains(change) {
        let k = choose|k: int| 0 <= k < rest.len() && rest[k] == change;
        assert(list[k + 1] == change);
    }
    if list.contains(change) {
        let k = choose|k: int| 0 <= k < list.len() && list[k] == change;
        if k > 0 {
            assert(rest[k - 1] == change);
        }
    }
}

// ---- lists of records ----

/// Whether one key comes before another.
fn key_is_before(kind: &str, id: &str, other_kind: &str, other_id: &str) -> (r: bool)
    ensures
        r == key_precedes((kind@, id@), (other_kind@, other_id@)),
{
    text_precedes(kind, other_kind) || (same_text(kind, other_kind) && text_precedes(id, other_id))
}

impl ProjectionSnapshot {
    /// Whether the records stand in the order of their keys.
    pub open spec fn well_formed(self) -> bool {
        in_key_order(self@)
    }

    /// Nothing is seen.
    pub fn empty() -> (r: ProjectionSnapshot)
        ensures
            r@ == Seq::<RecordView>::empty(),
            r.well_formed(),
    {
        let r = ProjectionSnapshot { records: Vec::new() };
        assert(r@ =~= Seq::<RecordView>::empty());
        r
    }

    /// A list equal to this one.
    pub fn copy(&self) -> (r: ProjectionSnapshot)
        ensures
            r@ == self@,
    {
        let mut records: Vec<ProjectionRecord> = Vec::new();
        let mut i: usize = 0;
        while i < self.records.len()
            invariant
                0 <= i <= self.records.len(),
                records.len() == i,
                forall|k: int| 0 <= k < i ==> (#[trigger] records@[k])@ == self.records@[k]@,
            decreases self.records.len() - i,
        {
            records.push(self.records[i].copy());
            i += 1;
        }
        let r = ProjectionSnapshot { records };
        assert(r@ =~= self@);
        r
    }

    /// Puts a record at its place, instead of the one with its key.
    pub fn insert(&mut self, kind: &str, id: &str, value: Json)
        ensures
            final(self)@ == put(old(self)@, RecordView { kind: kind@, id: id@, value: value@ }),
            old(self).well_formed() ==> final(self).well_formed(),
    {
        let ghost before = self@;
        let ghost record = RecordView { kind: kind@, id: id@, value: value@ };
        proof {
            if in_key_order(before) {
                lemma_put_in_order(before, record);
            }
        }
        let mut i: usize = 0;
        assert(before.take(0) + put(before.skip(0), record) =~= put(before, record)) by {
            assert(before.skip(0) =~= before);
        }
        while i < self.records.len()
            invariant
                0 <= i <= self.records.len(),
                before == self@,
                record == (RecordView { kind: kind@, id: id@, value: value@ }),
                before.take(i as int) + put(before.skip(i as int), record) == put(before, record),
                old(self)@ == before,
                in_key_order(before) ==> in_key_order(put(before, record)),
            decreases self.records.len() - i,
        {
            let ghost rest = before.skip(i as int);
            assert(rest[0] == self.records@[i as int]@);
            let found = same_text(self.records[i].kind.as_str(), kind) && same_text(
                self.records[i].id.as_str(),
                id,
            );
            if found {
                let entry = ProjectionRecord { kind: kind.to_owned(), id: id.to_owned(), value };
                self.records.set(i, entry);
                assert(self@ =~= before.take(i as int) + put(rest, record));
                return ;
            }
            if key_is_before(kind, id, self.records[i].kind.as_str(), self.records[i].id.as_str()) {
                let entry = ProjectionRecord { kind: kind.to_owned(), id: id.to_owned(), value };
                self.records.insert(i, entry);
                assert(self@ =~= before.take(i as int) + put(rest, record));
                return ;
            }
            assert(rest.drop_first() =~= before.skip(i + 1));
            assert(before.take(i as int) + put(rest, record) =~= before.take(i + 1) + put(
                before.skip(i + 1),
                record,
            ));
            i += 1;
        }
        let entry = ProjectionRecord { kind: kind.to_owned(), id: id.to_owned(), value };
        self.records.push(entry);
        assert(before.skip(i as int) =~= Seq::empty());
        assert(self@ =~= before.take(i as int) + seq![record]);
    }

    /// Takes away the record with a key.
    pub fn remove(&mut self, kind: &str, id: &str)
        ensures
            final(self)@ == without_key(old(self)@, (kind@, id@)),
            old(self).well_formed() ==> final(self).well_formed(),
    {
        let ghost before = self@;
        let ghost key = (kind@, id@);
        proof {
            if in_key_order(before) {
                lemma_without_key_in_order(before, key);
            }
        }
        let mut i: usize = 0;
        assert(before.take(0) + without_key(before.skip(0), key) =~= without_key(before, key)) by {
            assert(before.skip(0) =~= before);
        }
        while i < self.records.len()
            invariant
                0 <= i <= self.records.len(),
                before == self@,
                key == (kind@, id@),
                before.take(i as int) + without_key(before.skip(i as int), key) == without_key(before, key),
                old(self)@ == before,
                in_key_order(before) ==> in_key_order(without_key(before, key)),
            decreases self.records.len() - i,
        {
            let ghost rest = before.skip(i as int);
            assert(rest[0] == self.records@[i as int]@);
            let found = same_text(self.records[i].kind.as_str(), kind) && same_text(
                self.records[i].id.as_str(),
                id,
            );
            if found {
                self.records.remove(i);
                assert(self@ =~= before.take(i as int) + without_key(rest, key));
                return ;
            }
            assert(rest.drop_first() =~= before.skip(i + 1));
            assert(before.take(i as int) + without_key(rest, key) =~= before.take(i + 1) + without_key(
                before.skip(i + 1),
                key,
            ));
            i += 1;
        }
        assert(before.skip(i as int) =~= Seq::empty());
        assert(self@ =~= before.take(i as int) + Seq::empty());
    }

    /// How many records are of a kind.
    fn count(&self, kind: &str) -> (r: u64)
        ensures
            r == count_of(self@, kind@),
            count_of(self@, kind@) <= self@.len(),
    {
        let ghost views = self@;
        let mut n: u64 = 0;
        let mut i: usize = 0;
        assert(views.take(0) =~= Seq::empty());
        while i < self.records.len()
            invariant
                0 <= i <= self.records.len(),
                views == self@,
                n == count_of(views.take(i as int), kind@),
                n <= i,
            decreases self.records.len() - i,
        {
            assert(views.take(i + 1).drop_last() =~= views.take(i as int));
            assert(views.take(i + 1).last() == self.records@[i as int]@);
            if same_text(self.records[i].kind.as_str(), kind) {
                n += 1;
            }
            i += 1;
        }
        assert(views.take(views.len() as int) =~= views);
        n
    }

    /// The counts of the records by their kinds.
    pub fn counts(&self) -> (r: Json)
        ensures
            r@ == counts_of(self@),
    {
        Json::object().with("projects", Json::of_unsigned(self.count("project"))).with(
            "sessions",
            Json::of_unsigned(self.count("session")),
        ).with("attention", Json::of_unsigned(self.count("attention")))
    }
}

/// Something that a device sees, under its identifier.
#[derive(Debug)]
pub struct Shown {
    pub id: u128,
    pub value: Json,
}

/// The records of some things of a kind, put one after the other.
pub open spec fn put_all(list: Seq<RecordView>, kind: Seq<char>, things: Seq<Shown>) -> Seq<RecordView>
    decreases things.len(),
{
    if things.len() == 0 {
        list
    } else {
        put(
            put_all(list, kind, things.drop_last()),
            RecordView { kind, id: hyphenated(things.last().id), value: things.last().value@ },
        )
    }
}

impl ProjectionSnapshot {
    /// Puts the records of some things of a kind.
    fn insert_all(&mut self, kind: &str, things: &Vec<Shown>)
        requires
            old(self).well_formed(),
        ensures
            final(self)@ == put_all(old(self)@, kind@, things@),
            final(self).well_formed(),
    {
        let ghost before = self@;
        let mut i: usize = 0;
        assert(things@.take(0) =~= Seq::empty());
        while i < things.len()
            invariant
                0 <= i <= things.len(),
                self@ == put_all(before, kind@, things@.take(i as int)),
                self.well_formed(),
            decreases things.len() - i,
        {
            assert(things@.take(i + 1).drop_last() =~= things@.take(i as int));
            let id = id_text(things[i].id);
            self.insert(kind, id.as_str(), things[i].value.copy());
            i += 1;
        }
        assert(things@.take(things@.len() as int) =~= things@);
    }

    /// All that a device sees of some projects, sessions and notices.
    pub fn of_parts(projects: &Vec<Shown>, sessions: &Vec<Shown>, attention: &Vec<Shown>) -> (r:
        ProjectionSnapshot)
        ensures
            r@ == put_all(
                put_all(
                    put_all(Seq::empty(), "project"@, projects@),
                    "session"@,
                    sessions@,
                ),
                "attention"@,
                attention@,
            ),
            r.well_formed(),
    {
        let mut r = ProjectionSnapshot::empty();
        r.insert_all("project", projects);
        r.insert_all("session", sessions);
        r.insert_all("attention", attention);
        r
    }
}

// ---- versions and differences ----

/// Sets the version of a record's projection.
pub fn set_projection_version(record: Json, version: u64) -> (r: Json)
    ensures
        r@ == with_version(record@, version),
{
    match record {
        Json::Object(members) => {
            let ghost views = record@->Object_0;
            let ghost value = JsonView::Number(NumberView::Unsigned(version));
            let ghost key = "projection_version"@;
            let mut members = members;
            let mut i: usize = 0;
            assert(views.take(0) + set_member(views.skip(0), key, value) =~= set_member(views, key, value))
                by {
                assert(views.skip(0) =~= views);
            }
            while i < members.len()
                invariant
                    0 <= i <= members.len(),
                    key == "projection_version"@,
                    value == JsonView::Number(NumberView::Unsigned(version)),
                    record@ is Object,
                    views == record@->Object_0,
                    views.len() == members@.len(),
                    forall|k: int|
                        0 <= k < members@.len() ==> views[k] == (
                            (#[trigger] members@[k]).0@,
                            members@[k].1@,
                        ),
                    views.take(i as int) + set_member(views.skip(i as int), key, value) == set_member(
                        views,
                        key,
                        value,
                    ),
                decreases members.len() - i,
            {
                let ghost rest = views.skip(i as int);
                assert(rest[0] == (members@[i as int].0@, members@[i as int].1@));
                if same_text(members[i].0.as_str(), "projection_version") {
                    members.set(i, ("projection_version".to_owned(), Json::of_unsigned(version)));
                    let r = Json::Object(members);
                    assert(r@->Object_0 =~= views.take(i as int) + set_member(rest, key, value));
                    return r;
                }
                assert(rest.drop_first() =~= views.skip(i + 1));
                assert(views.take(i as int) + set_member(rest, key, value) =~= views.take(i + 1)
                    + set_member(views.skip(i + 1), key, value));
                i += 1;
            }
            members.push(("projection_version".to_owned(), Json::of_unsigned(version)));
            let r = Json::Object(members);
            assert(views.skip(i as int) =~= Seq::empty());
            assert(r@->Object_0 =~= views.take(i as int) + seq![(key, value)]);
            r
        },
        other => other,
    }
}

/// Whether each member of an object but the version is equal in another.
fn members_agree(left: &Json, right: &Json) -> (r: bool)
    requires
        left@ is Object,
    ensures
        r == forall|key: Seq<char>|
            key != "projection_version"@ && left@.member(key) is Some ==> same_found(
                #[trigger] left@.member(key),
                right@.member(key),
            ),
{
    match left {
        Json::Object(members) => {
            let ghost views = left@->Object_0;
            let mut i: usize = 0;
            while i < members.len()
                invariant
                    0 <= i <= members.len(),
                    *left == Json::Object(*members),
                    views == left@->Object_0,
                    forall|k: int|
                        0 <= k < i ==> (#[trigger] views[k]).0 == "projection_version"@ || same_found(
                            left@.member(views[k].0),
                            right@.member(views[k].0),
                        ),
                decreases members.len() - i,
            {
                assert(views[i as int] == (members@[i as int].0@, members@[i as int].1@));
                let name = members[i].0.as_str();
                if !same_text(name, "projection_version") {
                    let agrees = match (left.get(name), right.get(name)) {
                        (Some(a), Some(b)) => a.same(b),
                        _ => false,
                    };
                    if !agrees {
                        proof {
                            lemma_member_found(views, i as int);
                        }
                        return false;
                    }
                }
                i += 1;
            }
            assert forall|key: Seq<char>|
                key != "projection_version"@ && left@.member(key) is Some implies same_found(
                #[trigger] left@.member(key),
                right@.member(key),
            ) by {
                lemma_member_has_place(views, key);
            }
            true
        },
        _ => false,
    }
}

proof fn lemma_member_found(members: Seq<(Seq<char>, JsonView)>, at: int)
    requires
        0 <= at < members.len(),
    ensures
        find_member(members, members[at].0) is Some,
    decreases members.len(),
{
    if at > 0 && members[0].0 != members[at].0 {
        assert(members.drop_first()[at - 1] == members[at]);
        lemma_member_found(members.drop_first(), at - 1);
    }
}

proof fn lemma_member_has_place(members: Seq<(Seq<char>, JsonView)>, key: Seq<char>)
    requires
        find_member(members, key) is Some,
    ensures
        exists|k: int| 0 <= k < members.len() && (#[trigger] members[k]).0 == key,
    decreases members.len(),
{
    if members[0].0 != key {
        lemma_member_has_place(members.drop_first(), key);
        let k = choose|k: int|
            0 <= k < members.drop_first().len() && (#[trigger] members.drop_first()[k]).0 == key;
        assert(members[k + 1].0 == key);
    }
}

/// Whether two values show the same.
pub fn same_projection_content(left: &Json, right: &Json) -> (r: bool)
    ensures
        r == same_content(left@, right@),
{
    if left.is_object() && right.is_object() {
        let forth = members_agree(left, right);
        let back = members_agree(right, left);
        proof {
            if forth && back {
                assert forall|key: Seq<char>|
                    key != "projection_version"@ implies same_found(
                    #[trigger] left@.member(key),
                    right@.member(key),
                ) by {
                    let other = right@.member(key);
                    if left@.member(key) is None {
                        assert(other is None);
                    }
                }
            } else if !forth {
                let key = choose|key: Seq<char>|
                    key != "projection_version"@ && left@.member(key) is Some && !same_found(
                        #[trigger] left@.member(key),
                        right@.member(key),
                    );
                assert(!same_found(left@.member(key), right@.member(key)));
            } else {
                let key = choose|key: Seq<char>|
                    key != "projection_version"@ && right@.member(key) is Some && !same_found(
                        #[trigger] right@.member(key),
                        left@.member(key),
                    );
                assert(!same_found(left@.member(key), right@.member(key)));
            }
        }
        forth && back
    } else {
        left.same(right)
    }
}

/// The mathematical values of some changes.
pub open spec fn changes_view(list: Seq<Change>) -> Seq<ChangeView> {
    list.map_values(|change: Change| change@)
}

/// The changes from one list of records to another, in the order of their keys.
pub fn projection_changes(before: &ProjectionSnapshot, after: &ProjectionSnapshot) -> (r: Vec<Change>)
    ensures
        changes_view(r@) == changes_between(before@, after@),
{
    let ghost old_views = before@;
    let ghost new_views = after@;
    let mut changes: Vec<Change> = Vec::new();
    let mut i: usize = 0;
    let mut j: usize = 0;
    proof {
        assert(old_views.skip(0) =~= old_views);
        assert(new_views.skip(0) =~= new_views);
        assert(changes_view(changes@) =~= Seq::empty());
        assert(changes_view(changes@) + changes_between(old_views, new_views) =~= changes_between(
            old_views,
            new_views,
        ));
    }
    while i < before.records.len() || j < after.records.len()
        invariant
            0 <= i <= before.records.len(),
            0 <= j <= after.records.len(),
            old_views == before@,
            new_views == after@,
            changes_view(changes@) + changes_between(
                old_views.skip(i as int),
                new_views.skip(j as int),
            ) == changes_between(old_views, new_views),
        decreases (before.records.len() - i) + (after.records.len() - j),
    {
        let ghost done = changes_view(changes@);
        let ghost b = old_views.skip(i as int);
        let ghost a = new_views.skip(j as int);
        proof {
            if i < before.records.len() {
                assert(b[0] == before.records@[i as int]@);
                assert(b.drop_first() =~= old_views.skip(i + 1));
            }
            if j < after.records.len() {
                assert(a[0] == after.records@[j as int]@);
                assert(a.drop_first() =~= new_views.skip(j + 1));
            }
        }
        let shows_new = if i == before.records.len() {
            true
        } else if j == after.records.len() {
            false
        } else {
            key_is_before(
                after.records[j].kind.as_str(),
                after.records[j].id.as_str(),
                before.records[i].kind.as_str(),
                before.records[i].id.as_str(),
            )
        };
        if shows_new {
            let record = &after.records[j];
            changes.push(
                Change {
                    kind: record.kind.clone(),
                    id: record.id.clone(),
                    value: Some(record.value.copy()),
                },
            );
            assert(changes_view(changes@) =~= done.push(shows(a[0])));
            assert(done + (seq![shows(a[0])] + changes_between(b, a.drop_first())) =~= done.push(
                shows(a[0]),
            ) + changes_between(b, a.drop_first()));
            j += 1;
            continue ;
        }
        let hides_old = if j == after.records.len() {
            true
        } else {
            key_is_before(
                before.records[i].kind.as_str(),
                before.records[i].id.as_str(),
                after.records[j].kind.as_str(),
                after.records[j].id.as_str(),
            )
        };
        if hides_old {
            let record = &before.records[i];
            changes.push(Change { kind: record.kind.clone(), id: record.id.clone(), value: None });
            assert(changes_view(changes@) =~= done.push(hides(b[0])));
            assert(done + (seq![hides(b[0])] + changes_between(b.drop_first(), a)) =~= done.push(
                hides(b[0]),
            ) + changes_between(b.drop_first(), a));
            i += 1;
            continue ;
        }
        if !same_projection_content(&before.records[i].value, &after.records[j].value) {
            let record = &after.records[j];
            changes.push(
                Change {
                    kind: record.kind.clone(),
                    id: record.id.clone(),
                    value: Some(record.value.copy()),
                },
            );
            assert(changes_view(changes@) =~= done.push(shows(a[0])));
            assert(done + (seq![shows(a[0])] + changes_between(b.drop_first(), a.drop_first()))
                =~= done.push(shows(a[0])) + changes_between(b.drop_first(), a.drop_first()));
        }
        i += 1;
        j += 1;
    }
    proof {
        assert(old_views.skip(i as int) =~= Seq::empty());
        assert(new_views.skip(j as int) =~= Seq::empty());
        assert(changes_view(changes@) + Seq::empty() =~= changes_view(changes@));
    }
    changes
}

/// A record shows the version it was given, and all its other members as they
/// were. What is no object is left alone.
pub proof fn lemma_versions_are_shown(value: JsonView, version: u64, name: Seq<char>)
    ensures
        value is Object ==> with_version(value, version).member("projection_version"@) == Some(
            JsonView::Number(NumberView::Unsigned(version)),
        ),
        value is Object && name != "projection_version"@ ==> with_version(value, version).member(name)
            == value.member(name),
        !(value is Object) ==> with_version(value, version) == value,
{
    if value is Object {
        lemma_set_is_found(
            value->Object_0,
            "projection_version"@,
            JsonView::Number(NumberView::Unsigned(version)),
            name,
        );
        lemma_set_is_found(
            value->Object_0,
            "projection_version"@,
            JsonView::Number(NumberView::Unsigned(version)),
            "projection_version"@,
        );
    }
}

proof fn lemma_set_is_found(members: Seq<(Seq<char>, JsonView)>, key: Seq<char>, value: JsonView, name: Seq<char>)
    ensures
        find_member(set_member(members, key, value), name) == (if name == key {
            Some(value)
        } else {
            find_member(members, name)
        }),
    decreases members.len(),
{
    let after = set_member(members, key, value);
    if members.len() == 0 {
        assert(after.drop_first() =~= Seq::empty());
        assert(after[0] == (key, value));
        assert(find_member(after.drop_first(), name) is None);
    } else if members[0].0 == key {
        assert(after[0] == (key, value));
        assert(after.drop_first() =~= members.drop_first());
    } else {
        lemma_set_is_found(members.drop_first(), key, value, name);
        assert(after[0] == members[0]);
        assert(after.drop_first() =~= set_member(members.drop_first(), key, value));
    }
}

/// Two records that differ in nothing but their version show the same; two whose
/// other members differ do not.
pub proof fn lemma_versions_do_not_count(value: JsonView, one: u64, other: u64, changed: JsonView, name: Seq<char>)
    ensures
        same_content(with_version(value, one), with_version(value, other)),
        value is Object && changed is Object && name != "projection_version"@ && value.member(name) is Some && (
        changed.member(name) is None || !same_value(value.member(name)->0, changed.member(name)->0)) ==> !same_content(
            value,
            changed,
        ),
{
    let left = with_version(value, one);
    let right = with_version(value, other);
    if value is Object {
        assert forall|key: Seq<char>| key != "projection_version"@ implies same_found(
            #[trigger] left.member(key),
            right.member(key),
        ) by {
            lemma_versions_are_shown(value, one, key);
            lemma_versions_are_shown(value, other, key);
        }
        if changed is Object && same_content(value, changed) && name != "projection_version"@ {
            assert(same_found(value.member(name), changed.member(name)));
        }
    }
}

/// Projects, sessions and notices are counted apart, each by the records of its
/// kind.
pub proof fn lemma_counts_are_by_kind(list: Seq<RecordView>)
    requires
        list.len() <= u64::MAX,
    ensures
        counts_of(list).member("projects"@) == Some(
            JsonView::Number(
                NumberView::Unsigned(
                    list.filter(|record: RecordView| record.kind == "project"@).len() as u64,
                ),
            ),
        ),
        counts_of(list).member("sessions"@) == Some(
            JsonView::Number(
                NumberView::Unsigned(
                    list.filter(|record: RecordView| record.kind == "session"@).len() as u64,
                ),
            ),
        ),
        counts_of(list).member("attention"@) == Some(
            JsonView::Number(
                NumberView::Unsigned(
                    list.filter(|record: RecordView| record.kind == "attention"@).len() as u64,
                ),
            ),
        ),
{
    broadcast use lemma_member_of_extended;

    reveal_strlit("projects");
    reveal_strlit("sessions");
    reveal_strlit("attention");
    assert("projects"@[0] != "sessions"@[0]);
    assert("projects"@[0] != "attention"@[0]);
    assert("sessions"@[0] != "attention"@[0]);
    lemma_count_is_filter(list, "project"@);
    lemma_count_is_filter(list, "session"@);
    lemma_count_is_filter(list, "attention"@);
}

proof fn lemma_count_is_filter(list: Seq<RecordView>, kind: Seq<char>)
    ensures
        count_of(list, kind) == list.filter(|record: RecordView| record.kind == kind).len(),
    decreases list.len(),
{
    reveal(Seq::filter);
    if list.len() > 0 {
        lemma_count_is_filter(list.drop_last(), kind);
    }
}

/// Every thing that is shown is found under its kind and its identifier; where
/// one comes twice, the later stands. Records of other kinds are not touched.
pub proof fn lemma_shown_things_are_found(list: Seq<RecordView>, kind: Seq<char>, things: Seq<Shown>, at: int, key: (Seq<char>, Seq<char>))
    requires
        in_key_order(list),
        0 <= at < things.len(),
        forall|k: int| at < k < things.len() ==> hyphenated((#[trigger] things[k]).id) != hyphenated(things[at].id),
    ensures
        in_key_order(put_all(list, kind, things)),
        value_of(put_all(list, kind, things), (kind, hyphenated(things[at].id))) == Some(things[at].value@),
        key.0 != kind ==> value_of(put_all(list, kind, things), key) == value_of(list, key),
    decreases things.len(),
{
    let before = things.drop_last();
    let last = things.last();
    let record = RecordView { kind, id: hyphenated(last.id), value: last.value@ };
    lemma_other_kinds_stay(list, kind, things, key);
    lemma_other_kinds_stay(list, kind, before, key);
    lemma_put_is_found(put_all(list, kind, before), record, (kind, hyphenated(things[at].id)));
    if at < before.len() {
        assert(things[things.len() - 1] == last);
        assert(forall|k: int| 0 <= k < before.len() ==> #[trigger] before[k] == things[k]);
        lemma_shown_things_are_found(list, kind, before, at, key);
    }
}

proof fn lemma_other_kinds_stay(list: Seq<RecordView>, kind: Seq<char>, things: Seq<Shown>, key: (Seq<char>, Seq<char>))
    requires
        in_key_order(list),
    ensures
        in_key_order(put_all(list, kind, things)),
        key.0 != kind ==> value_of(put_all(list, kind, things), key) == value_of(list, key),
    decreases things.len(),
{
    if things.len() > 0 {
        let before = things.drop_last();
        let record = RecordView {
            kind,
            id: hyphenated(things.last().id),
            value: things.last().value@,
        };
        lemma_other_kinds_stay(list, kind, before, key);
        lemma_put_in_order(put_all(list, kind, before), record);
        lemma_put_is_found(put_all(list, kind, before), record, key);
    }
}

} // verus!
