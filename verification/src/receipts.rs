//! Receipts of operations. An operation that is asked for again under its
//! identifier is answered from its receipt and not carried out another time.

use crate::json::{Json, JsonView};
use crate::model::{error_of, protocol_error, ProtocolError};
use crate::text::{same_text, text_of};
use vstd::prelude::*;
use vstd::string::*;

verus! {

/// What became of an operation: the code of the error that it ended with, where
/// it did, and the answer.
#[derive(Debug)]
pub struct Outcome {
    pub error: Option<String>,
    pub response: Json,
}

/// The mathematical value of what became of an operation.
pub struct OutcomeView {
    pub error: Option<Seq<char>>,
    pub response: JsonView,
}

impl View for Outcome {
    type V = OutcomeView;

    open spec fn view(&self) -> OutcomeView {
        OutcomeView { error: text_of(self.error), response: self.response@ }
    }
}

impl Outcome {
    /// Another outcome with the same value.
    pub fn copy(&self) -> (r: Outcome)
        ensures
            r@ == self@,
    {
        Outcome { error: self.error.clone(), response: self.response.copy() }
    }
}

/// What is kept of an operation: what was asked, and what became of it once that
/// is known.
#[derive(Debug)]
pub struct Receipt {
    pub id: u128,
    pub fingerprint: String,
    pub outcome: Option<Outcome>,
}

/// The mathematical value of a receipt.
pub struct ReceiptView {
    pub id: u128,
    pub fingerprint: Seq<char>,
    pub outcome: Option<OutcomeView>,
}

/// The view of what may have become of an operation.
pub open spec fn outcome_view(outcome: Option<Outcome>) -> Option<OutcomeView> {
    match outcome {
        Some(outcome) => Some(outcome@),
        None => None,
    }
}

impl View for Receipt {
    type V = ReceiptView;

    open spec fn view(&self) -> ReceiptView {
        ReceiptView {
            id: self.id,
            fingerprint: self.fingerprint@,
            outcome: outcome_view(self.outcome),
        }
    }
}

/// The views of receipts.
pub open spec fn receipt_views(list: Seq<Receipt>) -> Seq<ReceiptView> {
    list.map_values(|receipt: Receipt| receipt@)
}

/// The receipts that are kept.
#[derive(Debug)]
pub struct Receipts {
    pub list: Vec<Receipt>,
}

impl View for Receipts {
    type V = Seq<ReceiptView>;

    open spec fn view(&self) -> Seq<ReceiptView> {
        receipt_views(self.list@)
    }
}

/// The place of the receipt of an operation.
pub open spec fn receipt_at(list: Seq<ReceiptView>, id: u128) -> Option<int>
    decreases list.len(),
{
    if list.len() == 0 {
        None
    } else {
        match receipt_at(list.drop_last(), id) {
            Some(i) => Some(i),
            None => if list.last().id == id {
                Some(list.len() - 1)
            } else {
                None
            },
        }
    }
}

/// The place of a receipt is one of the list, and holds that receipt.
proof fn lemma_receipt_at(list: Seq<ReceiptView>, id: u128)
    ensures
        receipt_at(list, id) matches Some(i) ==> 0 <= i < list.len() && list[i].id == id,
    decreases list.len(),
{
    if list.len() > 0 {
        lemma_receipt_at(list.drop_last(), id);
    }
}

/// Changing what became of operations moves no receipt.
proof fn lemma_receipt_stays(list: Seq<ReceiptView>, other: Seq<ReceiptView>, id: u128)
    requires
        list.len() == other.len(),
        forall|i: int| 0 <= i < list.len() ==> (#[trigger] list[i]).id == other[i].id,
    ensures
        receipt_at(list, id) == receipt_at(other, id),
    decreases list.len(),
{
    if list.len() > 0 {
        assert forall|i: int| 0 <= i < list.drop_last().len() implies (#[trigger] list.drop_last()[i]).id
            == other.drop_last()[i].id by {
            assert(list[i].id == other[i].id);
        }
        lemma_receipt_stays(list.drop_last(), other.drop_last(), id);
        assert(list[list.len() - 1].id == other[list.len() - 1].id);
    }
}

/// What is done about an operation that is asked for.
#[derive(Debug)]
pub enum ReceiptStep {
    /// It is carried out.
    Run,
    /// It was carried out, with this outcome.
    Saved(Outcome),
    /// Something else was asked under its identifier.
    Conflict,
    /// It was begun, and what became of it is not known.
    Unknown,
}

/// The mathematical value of what is done about an operation.
pub enum ReceiptStepView {
    Run,
    Saved(OutcomeView),
    Conflict,
    Unknown,
}

impl View for ReceiptStep {
    type V = ReceiptStepView;

    open spec fn view(&self) -> ReceiptStepView {
        match self {
            ReceiptStep::Run => ReceiptStepView::Run,
            ReceiptStep::Saved(outcome) => ReceiptStepView::Saved(outcome@),
            ReceiptStep::Conflict => ReceiptStepView::Conflict,
            ReceiptStep::Unknown => ReceiptStepView::Unknown,
        }
    }
}

/// The receipts after an operation is asked for, and what is done about it.
pub open spec fn begun(list: Seq<ReceiptView>, id: u128, fingerprint: Seq<char>) -> (
    Seq<ReceiptView>,
    ReceiptStepView,
) {
    match receipt_at(list, id) {
        None => (list.push(ReceiptView { id, fingerprint, outcome: None }), ReceiptStepView::Run),
        Some(i) => (
            list,
            if list[i].fingerprint != fingerprint {
                ReceiptStepView::Conflict
            } else {
                match list[i].outcome {
                    Some(outcome) => ReceiptStepView::Saved(outcome),
                    None => ReceiptStepView::Unknown,
                }
            },
        ),
    }
}

/// The receipts after it is known what became of an operation.
pub open spec fn concluded(list: Seq<ReceiptView>, id: u128, outcome: OutcomeView) -> Seq<ReceiptView> {
    match receipt_at(list, id) {
        Some(i) => list.update(i, ReceiptView { outcome: Some(outcome), ..list[i] }),
        None => list,
    }
}

impl Receipts {
    /// No operation has been asked for.
    pub fn new() -> (r: Receipts)
        ensures
            r@ == Seq::<ReceiptView>::empty(),
    {
        let r = Receipts { list: Vec::new() };
        assert(r@ =~= Seq::empty());
        r
    }

    /// The place of the receipt of an operation.
    fn find(&self, id: u128) -> (r: Option<usize>)
        ensures
            match r {
                Some(i) => receipt_at(self@, id) == Some(i as int) && i < self.list@.len(),
                None => receipt_at(self@, id) is None,
            },
    {
        let ghost views = self@;
        let mut i: usize = 0;
        while i < self.list.len()
            invariant
                0 <= i <= self.list.len(),
                views == self@,
                receipt_at(views.take(i as int), id) is None,
            decreases self.list.len() - i,
        {
            assert(views.take(i + 1).drop_last() =~= views.take(i as int));
            assert(views.take(i + 1).last() == self.list@[i as int]@);
            if self.list[i].id == id {
                proof {
                    lemma_receipt_found_early(views, id, i + 1);
                }
                return Some(i);
            }
            i += 1;
        }
        assert(views.take(i as int) =~= views);
        None
    }

    /// An operation is asked for. Where it is to be carried out its receipt is
    /// kept first.
    pub fn begin(&mut self, id: u128, fingerprint: &str) -> (r: ReceiptStep)
        ensures
            (final(self)@, r@) == begun(old(self)@, id, fingerprint@),
    {
        match self.find(id) {
            None => {
                let ghost before = self@;
                self.list.push(Receipt { id, fingerprint: fingerprint.to_owned(), outcome: None });
                assert(self@ =~= before.push(ReceiptView { id, fingerprint: fingerprint@, outcome: None }));
                ReceiptStep::Run
            },
            Some(i) => {
                assert(self@[i as int] == self.list@[i as int]@);
                if !same_text(self.list[i].fingerprint.as_str(), fingerprint) {
                    return ReceiptStep::Conflict;
                }
                match &self.list[i].outcome {
                    Some(outcome) => ReceiptStep::Saved(outcome.copy()),
                    None => ReceiptStep::Unknown,
                }
            },
        }
    }

    /// It is known what became of an operation.
    pub fn conclude(&mut self, id: u128, outcome: Outcome)
        ensures
            final(self)@ == concluded(old(self)@, id, outcome@),
    {
        match self.find(id) {
            Some(i) => {
                let ghost before = self@;
                let ghost changed = ReceiptView { outcome: Some(outcome@), ..before[i as int] };
                assert(before[i as int] == self.list@[i as int]@);
                self.list[i].outcome = Some(outcome);
                assert(self@ =~= before.update(i as int, changed));
            },
            None => {},
        }
    }

    /// What is known of an operation: nothing, that it was begun, or what became
    /// of it.
    pub fn outcome_of(&self, id: u128) -> (r: Option<Option<Outcome>>)
        ensures
            match receipt_at(self@, id) {
                None => r is None,
                Some(i) => r matches Some(outcome) && outcome_view(outcome) == self@[i].outcome,
            },
    {
        match self.find(id) {
            None => None,
            Some(i) => {
                assert(self@[i as int] == self.list@[i as int]@);
                match &self.list[i].outcome {
                    Some(outcome) => Some(Some(outcome.copy())),
                    None => Some(None),
                }
            },
        }
    }
}

/// A receipt that is found among the first ones is found among all.
proof fn lemma_receipt_found_early(list: Seq<ReceiptView>, id: u128, n: int)
    requires
        0 <= n <= list.len(),
        receipt_at(list.take(n), id) is Some,
    ensures
        receipt_at(list, id) == receipt_at(list.take(n), id),
    decreases list.len() - n,
{
    if n < list.len() {
        assert(list.take(n + 1).drop_last() =~= list.take(n));
        lemma_receipt_found_early(list, id, n + 1);
    } else {
        assert(list.take(n) =~= list);
    }
}

/// The answer to an operation without carrying it out, where there is one.
#[derive(Debug)]
pub enum OperationStep {
    Run,
    Answer(Json),
    Refuse(ProtocolError),
}

/// What an operation is answered from its receipt.
pub fn operation_step(step: ReceiptStep) -> (r: OperationStep)
    ensures
        match step@ {
            ReceiptStepView::Run => r is Run,
            ReceiptStepView::Saved(outcome) => r matches OperationStep::Answer(response) && response@
                == outcome.response,
            ReceiptStepView::Conflict => r matches OperationStep::Refuse(e) && e@ == error_of(
                "operation_conflict"@,
                "Something else was asked under the identifier of this operation"@,
            ),
            ReceiptStepView::Unknown => r matches OperationStep::Refuse(e) && e@ == error_of(
                "operation_outcome_unknown"@,
                "The outcome of this operation is not known"@,
            ),
        },
{
    match step {
        ReceiptStep::Run => OperationStep::Run,
        ReceiptStep::Saved(outcome) => OperationStep::Answer(outcome.response),
        ReceiptStep::Conflict => OperationStep::Refuse(
            protocol_error(
                "operation_conflict",
                "Something else was asked under the identifier of this operation",
            ),
        ),
        ReceiptStep::Unknown => OperationStep::Refuse(
            protocol_error("operation_outcome_unknown", "The outcome of this operation is not known"),
        ),
    }
}

/// An operation is carried out at most once: once it is begun, whatever else is
/// begun or concluded, it is never to be carried out again.
pub proof fn lemma_operations_run_once(
    list: Seq<ReceiptView>,
    id: u128,
    fingerprint: Seq<char>,
    other: u128,
    outcome: OutcomeView,
)
    ensures
        receipt_at(begun(list, id, fingerprint).0, id) is Some,
        receipt_at(list, id) is Some ==> {
            &&& !(begun(list, id, fingerprint).1 is Run)
            &&& receipt_at(begun(list, other, fingerprint).0, id) is Some
            &&& receipt_at(concluded(list, other, outcome), id) is Some
        },
{
    lemma_receipt_at(list, id);
    lemma_receipt_at(list, other);
    let pushed = list.push(ReceiptView { id, fingerprint, outcome: None });
    assert(pushed.drop_last() =~= list);
    let added = list.push(ReceiptView { id: other, fingerprint, outcome: None });
    assert(added.drop_last() =~= list);
    lemma_receipt_stays(list, concluded(list, other, outcome), id);
}

/// What became of an operation is told to all who ask for the same again, and a
/// changed request under its identifier is refused.
pub proof fn lemma_outcomes_are_given_again(
    list: Seq<ReceiptView>,
    id: u128,
    fingerprint: Seq<char>,
    changed: Seq<char>,
    outcome: OutcomeView,
)
    requires
        receipt_at(list, id) matches Some(i) && list[i].fingerprint == fingerprint,
        changed != fingerprint,
    ensures
        begun(concluded(list, id, outcome), id, fingerprint) == (
            concluded(list, id, outcome),
            ReceiptStepView::Saved(outcome),
        ),
        begun(concluded(list, id, outcome), id, changed) == (
            concluded(list, id, outcome),
            ReceiptStepView::Conflict,
        ),
        begun(list, id, changed) == (list, ReceiptStepView::Conflict),
{
    lemma_receipt_at(list, id);
    lemma_receipt_stays(list, concluded(list, id, outcome), id);
}

} // verus!
