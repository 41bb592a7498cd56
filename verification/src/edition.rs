//! Commercial access: what is known of it, refreshing what is known, and what it
//! allows.

use crate::json::Json;
use crate::model::{error_of, protocol_error, ErrorView, ProtocolError};
use crate::text::{holds_text, texts_of};
use vstd::prelude::*;

verus! {

/// The seconds between two refreshes that succeed.
pub const ENTITLEMENT_REFRESH_INTERVAL: u64 = 300;

/// The standing of a commercial plan.
#[derive(Clone, Copy, Debug, PartialEq, Eq, Structural)]
pub enum CommercialEntitlementStatus {
    Inactive,
    Active,
    OverLimit,
    Expired,
    Refunded,
}

/// A commercial plan: its standing, what it includes and how long it lasts.
#[derive(Debug)]
pub struct CommercialEntitlement {
    pub status: CommercialEntitlementStatus,
    pub capabilities: Vec<String>,
    pub valid_until: Option<i64>,
}

/// Whether a plan is in force.
pub open spec fn is_active(entitlement: CommercialEntitlement, now: i64) -> bool {
    &&& entitlement.status == CommercialEntitlementStatus::Active || entitlement.status
        == CommercialEntitlementStatus::OverLimit
    &&& entitlement.valid_until is Some ==> now < entitlement.valid_until->0
}

impl CommercialEntitlement {
    /// Whether the plan is in force.
    pub fn active_at(&self, now: i64) -> (r: bool)
        ensures
            r == is_active(*self, now),
    {
        let standing = matches!(
            self.status,
            CommercialEntitlementStatus::Active | CommercialEntitlementStatus::OverLimit
        );
        match self.valid_until {
            Some(end) => standing && now < end,
            None => standing,
        }
    }
}

/// A plan that the service has confirmed, with the summary for clients.
#[derive(Debug)]
pub struct RefreshedCommercialEntitlement {
    pub capability: CommercialEntitlement,
    pub summary: Json,
}

/// Whether commercial access has been found out.
#[derive(Clone, Copy, Debug, PartialEq, Eq, Structural)]
pub enum EntitlementReadiness {
    Loading,
    Ready,
    RefreshFailed,
}

/// What a refresh came to.
#[derive(Clone, Copy, Debug, PartialEq, Eq, Structural)]
pub enum RefreshOutcome {
    Updated,
    AlreadyInFlight,
    Failed(u32),
}

/// Whether a capability can be used.
#[derive(Clone, Copy, Debug, PartialEq, Eq, Structural)]
pub enum CapabilityAvailability {
    Allowed,
    Loading,
    Unavailable,
    Required(CommercialEntitlementStatus),
}

/// What is known of commercial access.
#[derive(Debug)]
pub struct State {
    pub entitlement: Option<RefreshedCommercialEntitlement>,
    pub entitlement_readiness: EntitlementReadiness,
    pub entitlement_refresh_in_flight: bool,
    pub entitlement_refresh_failures: u32,
    pub entitlement_generation: u64,
}

/// The name of the capability to control the runtime from another device.
pub open spec fn remote_control_name() -> Seq<char> {
    "remote_control"@
}

/// Whether a confirmed plan in force includes a capability.
pub open spec fn allows(state: State, capability: Seq<char>, now: i64) -> bool {
    match state.entitlement {
        Some(entitlement) => is_active(entitlement.capability, now) && texts_of(
            entitlement.capability.capabilities@,
        ).contains(capability),
        None => false,
    }
}

/// Whether remote control can be used.
pub open spec fn availability(state: State, now: i64) -> CapabilityAvailability {
    if allows(state, remote_control_name(), now) {
        CapabilityAvailability::Allowed
    } else if state.entitlement is Some {
        CapabilityAvailability::Required(state.entitlement->0.capability.status)
    } else if state.entitlement_readiness == EntitlementReadiness::Loading {
        CapabilityAvailability::Loading
    } else {
        CapabilityAvailability::Unavailable
    }
}

/// Whether an activation left its plan behind.
pub open spec fn well_formed(state: State) -> bool {
    state.entitlement_generation > 0 ==> state.entitlement is Some
}

/// The seconds to wait after so many failures in a row.
pub open spec fn retry_delay(failures: u32) -> u64 {
    if failures <= 1 {
        2
    } else if failures == 2 {
        5
    } else if failures == 3 {
        15
    } else {
        60
    }
}

pub open spec fn loading_error() -> ErrorView {
    error_of(
        "commercial_entitlement_loading"@,
        "Ditch is activating Remote Control. Try again in a moment."@,
    )
}

pub open spec fn unavailable_error() -> ErrorView {
    error_of(
        "commercial_entitlement_unavailable"@,
        "Ditch could not verify Commercial access. Check the connection and try again."@,
    )
}

pub open spec fn required_error(status: CommercialEntitlementStatus) -> ErrorView {
    error_of(
        "commercial_entitlement_required"@,
        if status == CommercialEntitlementStatus::Expired {
            "Commercial subscription expired. Local and SSH Ditch continue to work."@
        } else {
            "Commercial access is required for Remote Control. Local and SSH Ditch continue to work."@
        },
    )
}

/// The seconds to wait after so many failures in a row.
pub fn entitlement_retry_delay(failures: u32) -> (r: u64)
    ensures
        r == retry_delay(failures),
{
    if failures <= 1 {
        2
    } else if failures == 2 {
        5
    } else if failures == 3 {
        15
    } else {
        60
    }
}

/// The seconds to wait after a refresh.
pub fn delay_after(outcome: RefreshOutcome) -> (r: u64)
    ensures
        r == (match outcome {
            RefreshOutcome::Updated => ENTITLEMENT_REFRESH_INTERVAL,
            RefreshOutcome::AlreadyInFlight => retry_delay(1),
            RefreshOutcome::Failed(failures) => retry_delay(failures),
        }),
{
    match outcome {
        RefreshOutcome::Updated => ENTITLEMENT_REFRESH_INTERVAL,
        RefreshOutcome::AlreadyInFlight => entitlement_retry_delay(1),
        RefreshOutcome::Failed(failures) => entitlement_retry_delay(failures),
    }
}

/// The error that is told while access is being found out.
pub fn entitlement_loading() -> (r: ProtocolError)
    ensures
        r@ == loading_error(),
{
    protocol_error(
        "commercial_entitlement_loading",
        "Ditch is activating Remote Control. Try again in a moment.",
    )
}

/// The error that is told where access cannot be found out.
pub fn entitlement_unavailable() -> (r: ProtocolError)
    ensures
        r@ == unavailable_error(),
{
    protocol_error(
        "commercial_entitlement_unavailable",
        "Ditch could not verify Commercial access. Check the connection and try again.",
    )
}

/// The error that is told where a plan does not allow remote control.
pub fn entitlement_required(status: CommercialEntitlementStatus) -> (r: ProtocolError)
    ensures
        r@ == required_error(status),
{
    if matches!(status, CommercialEntitlementStatus::Expired) {
        protocol_error(
            "commercial_entitlement_required",
            "Commercial subscription expired. Local and SSH Ditch continue to work.",
        )
    } else {
        protocol_error(
            "commercial_entitlement_required",
            "Commercial access is required for Remote Control. Local and SSH Ditch continue to work.",
        )
    }
}

/// What a question for remote control comes to before anything is refreshed.
#[derive(Debug)]
pub enum RemoteGate {
    Open,
    Refused { error: ProtocolError },
    RefreshFirst,
}

/// Whether a refresh ends as it should.
pub open spec fn refresh_ended(
    before: State,
    after: State,
    generation: u64,
    confirmed: Option<RefreshedCommercialEntitlement>,
    r: RefreshOutcome,
) -> bool {
    if before.entitlement_generation != generation {
        r == RefreshOutcome::Updated && after == (State {
            entitlement_refresh_in_flight: false,
            ..before
        })
    } else if confirmed is Some {
        r == RefreshOutcome::Updated && after == (State {
            entitlement: confirmed,
            entitlement_readiness: EntitlementReadiness::Ready,
            entitlement_refresh_in_flight: false,
            entitlement_refresh_failures: 0,
            ..before
        })
    } else {
        let failures = if before.entitlement_refresh_failures == u32::MAX {
            u32::MAX
        } else {
            (before.entitlement_refresh_failures + 1) as u32
        };
        r == RefreshOutcome::Failed(failures) && after == (State {
            entitlement_readiness: EntitlementReadiness::RefreshFailed,
            entitlement_refresh_in_flight: false,
            entitlement_refresh_failures: failures,
            ..before
        })
    }
}

/// Whether a question for remote control is decided as it should be.
pub open spec fn gate_decided(
    state: State,
    remote_runtime: bool,
    now: i64,
    r: RemoteGate,
) -> bool {
    if remote_runtime {
        r matches RemoteGate::Refused { error } && error@ == error_of(
            "wrong_execution_target"@,
            "Mobile control is available through the Mac runtime only"@,
        )
    } else {
        match availability(state, now) {
            CapabilityAvailability::Allowed => r is Open,
            CapabilityAvailability::Required(status) => r matches RemoteGate::Refused { error }
                && error@ == required_error(status),
            _ => r is RefreshFirst,
        }
    }
}

/// Whether a question for remote control is decided as it should be after a refresh.
pub open spec fn gate_after_refresh(
    state: State,
    outcome: RefreshOutcome,
    now: i64,
    r: Option<ProtocolError>,
) -> bool {
    match outcome {
        RefreshOutcome::Updated => match availability(state, now) {
            CapabilityAvailability::Allowed => r is None,
            CapabilityAvailability::Required(status) => r matches Some(e) && e@ == required_error(
                status,
            ),
            _ => r matches Some(e) && e@ == unavailable_error(),
        },
        RefreshOutcome::AlreadyInFlight => r matches Some(e) && e@ == loading_error(),
        RefreshOutcome::Failed(_) => r matches Some(e) && e@ == unavailable_error(),
    }
}

impl State {
    /// Nothing is known yet.
    pub fn new() -> (r: State)
        ensures
            r.entitlement is None,
            r.entitlement_readiness == EntitlementReadiness::Loading,
            !r.entitlement_refresh_in_flight,
            r.entitlement_refresh_failures == 0,
            r.entitlement_generation == 0,
            well_formed(r),
    {
        State {
            entitlement: None,
            entitlement_readiness: EntitlementReadiness::Loading,
            entitlement_refresh_in_flight: false,
            entitlement_refresh_failures: 0,
            entitlement_generation: 0,
        }
    }

    /// Takes a plan over that the user has just activated, and tells whether it is
    /// in force. A refresh under way stays marked; its result will be dropped.
    pub fn accept_activation(&mut self, entitlement: RefreshedCommercialEntitlement, now: i64) -> (r: bool)
        requires
            old(self).entitlement_generation < u64::MAX,
        ensures
            r == is_active(entitlement.capability, now),
            *final(self) == (State {
                entitlement: Some(entitlement),
                entitlement_readiness: EntitlementReadiness::Ready,
                entitlement_refresh_failures: 0,
                entitlement_generation: (old(self).entitlement_generation + 1) as u64,
                ..*old(self)
            }),
            well_formed(*final(self)),
    {
        let active = entitlement.capability.active_at(now);
        self.entitlement_generation = self.entitlement_generation + 1;
        self.entitlement = Some(entitlement);
        self.entitlement_readiness = EntitlementReadiness::Ready;
        self.entitlement_refresh_failures = 0;
        active
    }

    /// Whether a confirmed plan in force includes a capability.
    pub fn commercial_allows(&self, capability: &str, now: i64) -> (r: bool)
        ensures
            r == allows(*self, capability@, now),
    {
        match &self.entitlement {
            Some(entitlement) => entitlement.capability.active_at(now) && holds_text(
                &entitlement.capability.capabilities,
                capability,
            ),
            None => false,
        }
    }

    /// Whether remote control can be used.
    pub fn remote_control_availability(&self, now: i64) -> (r: CapabilityAvailability)
        ensures
            r == availability(*self, now),
    {
        if self.commercial_allows("remote_control", now) {
            return CapabilityAvailability::Allowed;
        }
        match &self.entitlement {
            Some(entitlement) => CapabilityAvailability::Required(entitlement.capability.status),
            None => match self.entitlement_readiness {
                EntitlementReadiness::Loading => CapabilityAvailability::Loading,
                EntitlementReadiness::RefreshFailed => CapabilityAvailability::Unavailable,
                EntitlementReadiness::Ready => CapabilityAvailability::Unavailable,
            },
        }
    }

    /// Begins a refresh, unless one is under way, and hands its generation out.
    pub fn begin_refresh(&mut self) -> (r: Option<u64>)
        ensures
            old(self).entitlement_refresh_in_flight ==> r is None && *final(self) == *old(self),
            !old(self).entitlement_refresh_in_flight ==> r == Some(old(self).entitlement_generation)
                && *final(self) == (State { entitlement_refresh_in_flight: true, ..*old(self) }),
    {
        if self.entitlement_refresh_in_flight {
            return None;
        }
        self.entitlement_refresh_in_flight = true;
        Some(self.entitlement_generation)
    }

    /// Ends a refresh with the plan that the service confirmed, or without one
    /// where it failed. A plan that was activated meanwhile stays.
    pub fn finish_refresh(
        &mut self,
        generation: u64,
        confirmed: Option<RefreshedCommercialEntitlement>,
    ) -> (r: RefreshOutcome)
        requires
            well_formed(*old(self)),
            generation <= old(self).entitlement_generation,
        ensures
            well_formed(*final(self)),
            r == RefreshOutcome::Updated ==> final(self).entitlement is Some,
            refresh_ended(*old(self), *final(self), generation, confirmed, r),
    {
        self.entitlement_refresh_in_flight = false;
        if self.entitlement_generation != generation {
            return RefreshOutcome::Updated;
        }
        match confirmed {
            Some(entitlement) => {
                self.entitlement = Some(entitlement);
                self.entitlement_readiness = EntitlementReadiness::Ready;
                self.entitlement_refresh_failures = 0;
                RefreshOutcome::Updated
            },
            None => {
                self.entitlement_readiness = EntitlementReadiness::RefreshFailed;
                self.entitlement_refresh_failures = self.entitlement_refresh_failures.saturating_add(1);
                RefreshOutcome::Failed(self.entitlement_refresh_failures)
            },
        }
    }

    /// What a question for the plan is answered after a refresh.
    pub fn commercial_entitlement(&self, outcome: RefreshOutcome) -> (r: Result<Json, ProtocolError>)
        requires
            outcome == RefreshOutcome::Updated ==> self.entitlement is Some,
        ensures
            match self.entitlement {
                Some(entitlement) => r matches Ok(summary) && summary@ == entitlement.summary@,
                None => r matches Err(e) && e@ == (if outcome is AlreadyInFlight {
                    loading_error()
                } else {
                    unavailable_error()
                }),
            },
    {
        match &self.entitlement {
            Some(entitlement) => Ok(entitlement.summary.copy()),
            None => match outcome {
                RefreshOutcome::AlreadyInFlight => Err(entitlement_loading()),
                _ => Err(entitlement_unavailable()),
            },
        }
    }

    /// Whether remote control may be used, as far as that is known. A runtime on
    /// an SSH host never offers it.
    pub fn require_remote_control_entitlement(&self, remote_runtime: bool, now: i64) -> (r: RemoteGate)
        ensures
            gate_decided(*self, remote_runtime, now, r),
    {
        if remote_runtime {
            return RemoteGate::Refused {
                error: protocol_error(
                    "wrong_execution_target",
                    "Mobile control is available through the Mac runtime only",
                ),
            };
        }
        match self.remote_control_availability(now) {
            CapabilityAvailability::Allowed => RemoteGate::Open,
            CapabilityAvailability::Required(status) => RemoteGate::Refused {
                error: entitlement_required(status),
            },
            CapabilityAvailability::Loading | CapabilityAvailability::Unavailable => {
                RemoteGate::RefreshFirst
            },
        }
    }

    /// Whether remote control may be used after a refresh.
    pub fn require_after_refresh(&self, outcome: RefreshOutcome, now: i64) -> (r: Option<ProtocolError>)
        ensures
            gate_after_refresh(*self, outcome, now, r),
    {
        match outcome {
            RefreshOutcome::Updated => match self.remote_control_availability(now) {
                CapabilityAvailability::Allowed => None,
                CapabilityAvailability::Required(status) => Some(entitlement_required(status)),
                CapabilityAvailability::Loading | CapabilityAvailability::Unavailable => Some(
                    entitlement_unavailable(),
                ),
            },
            RefreshOutcome::AlreadyInFlight => Some(entitlement_loading()),
            RefreshOutcome::Failed(_) => Some(entitlement_unavailable()),
        }
    }
}

/// What is logged of a refresh that failed.
pub fn refresh_failure_text(error: &str, failures: u32) -> (r: String)
    ensures
        r@ == "Commercial entitlement refresh attempt "@ + crate::text::decimal(failures as nat)
            + " failed: "@ + error@,
{
    let mut text = "Commercial entitlement refresh attempt ".to_owned();
    text.append(crate::text::decimal_text(failures as u64).as_str());
    text.append(" failed: ");
    text.append(error);
    text
}

/// Capabilities, with those that a plan in force includes.
pub open spec fn capabilities_with(state: State, capabilities: Seq<Seq<char>>, now: i64) -> Seq<Seq<char>> {
    capabilities + (match state.entitlement {
        Some(entitlement) => if is_active(entitlement.capability, now) {
            texts_of(entitlement.capability.capabilities@)
        } else {
            Seq::empty()
        },
        None => Seq::empty(),
    })
}

/// Adds the names of the capabilities that a plan in force includes.
pub fn extend_runtime_capabilities(state: &State, capabilities: &mut Vec<String>, now: i64)
    ensures
        texts_of(final(capabilities)@) == capabilities_with(*state, texts_of(old(capabilities)@), now),
{
    match &state.entitlement {
        Some(entitlement) => {
            if entitlement.capability.active_at(now) {
                let more = crate::text::copy_texts(&entitlement.capability.capabilities);
                crate::text::append_texts(capabilities, more);
                return;
            }
        },
        None => {},
    }
    assert(texts_of(capabilities@) =~= texts_of(old(capabilities)@) + Seq::empty());
}

/// The wait never grows past a minute, and never shrinks while failures go on.
pub proof fn lemma_retry_delay_grows(fewer: u32, more: u32)
    requires
        fewer <= more,
    ensures
        2 <= retry_delay(fewer) <= retry_delay(more) <= 60,
        retry_delay(more) < ENTITLEMENT_REFRESH_INTERVAL,
{
}

/// Only a plan that the service has confirmed says that access is allowed or
/// required; before that it is loading or unavailable.
pub proof fn lemma_only_confirmed_plans_decide(state: State, now: i64)
    ensures
        (availability(state, now) is Allowed || availability(state, now) is Required) <==> state.entitlement
            is Some,
{
}

/// Remote control is open exactly where a plan that the service confirmed is active or
/// over its limit, has not run out, and includes it; a runtime on an SSH host never
/// offers it.
pub proof fn lemma_remote_control_needs_a_plan_in_force(state: State, remote_runtime: bool, now: i64, r: RemoteGate)
    requires
        gate_decided(state, remote_runtime, now, r),
    ensures
        r is Open <==> !remote_runtime && state.entitlement is Some && {
            let plan = state.entitlement->0.capability;
            &&& plan.status == CommercialEntitlementStatus::Active || plan.status
                == CommercialEntitlementStatus::OverLimit
            &&& plan.valid_until is None || now < plan.valid_until->0
            &&& texts_of(plan.capabilities@).contains("remote_control"@)
        },
        remote_runtime ==> (r matches RemoteGate::Refused { error } && error@.code == "wrong_execution_target"@),
        !remote_runtime && state.entitlement is None ==> r is RefreshFirst,
        !remote_runtime && state.entitlement is Some && !(r is Open) ==> (r matches RemoteGate::Refused { error }
            && error@.code == "commercial_entitlement_required"@),
{
}

/// After a refresh remote control is allowed only on the word of the service: a
/// refresh that failed or is still under way allows nothing.
pub proof fn lemma_failed_refreshes_allow_nothing(
    state: State,
    outcome: RefreshOutcome,
    now: i64,
    r: Option<ProtocolError>,
)
    requires
        gate_after_refresh(state, outcome, now, r),
    ensures
        r is None ==> outcome == RefreshOutcome::Updated && availability(state, now) is Allowed,
        outcome is AlreadyInFlight ==> r->0@.code == "commercial_entitlement_loading"@,
        outcome is Failed ==> r->0@.code == "commercial_entitlement_unavailable"@,
        outcome == RefreshOutcome::Updated && availability(state, now) is Allowed ==> r is None,
{
}

/// A refresh counts its failures in a row and starts anew with a success. A plan that
/// was activated meanwhile is not overwritten, and a failure takes no plan away.
pub proof fn lemma_refreshes_keep_what_is_known(
    before: State,
    after: State,
    generation: u64,
    confirmed: Option<RefreshedCommercialEntitlement>,
    r: RefreshOutcome,
)
    requires
        refresh_ended(before, after, generation, confirmed, r),
    ensures
        !after.entitlement_refresh_in_flight,
        before.entitlement_generation != generation ==> after.entitlement == before.entitlement
            && after.entitlement_readiness == before.entitlement_readiness && r == RefreshOutcome::Updated,
        before.entitlement_generation == generation && confirmed is Some ==> after.entitlement == confirmed
            && after.entitlement_readiness == EntitlementReadiness::Ready && after.entitlement_refresh_failures == 0
            && r == RefreshOutcome::Updated,
        before.entitlement_generation == generation && confirmed is None ==> {
            &&& after.entitlement == before.entitlement
            &&& after.entitlement_readiness == EntitlementReadiness::RefreshFailed
            &&& before.entitlement_refresh_failures < u32::MAX ==> after.entitlement_refresh_failures
                == before.entitlement_refresh_failures + 1
            &&& r == RefreshOutcome::Failed(after.entitlement_refresh_failures)
        },
{
}

/// The waits between attempts: two seconds after the first failure, then five, then
/// fifteen, then a minute.
pub proof fn lemma_retry_delays()
    ensures
        retry_delay(0) == 2,
        retry_delay(1) == 2,
        retry_delay(2) == 5,
        retry_delay(3) == 15,
        forall|failures: u32| failures > 3 ==> #[trigger] retry_delay(failures) == 60,
{
}

/// What a plan in force includes is added to the capabilities of the runtime, and what
/// a plan out of force includes is not.
pub proof fn lemma_capabilities_follow_the_plan(state: State, capabilities: Seq<Seq<char>>, now: i64, name: Seq<char>)
    ensures
        capabilities_with(state, capabilities, now).take(capabilities.len() as int) == capabilities,
        allows(state, name, now) ==> capabilities_with(state, capabilities, now).contains(name),
        state.entitlement is None ==> capabilities_with(state, capabilities, now) == capabilities,
        state.entitlement is Some && !is_active(state.entitlement->0.capability, now) ==> capabilities_with(
            state,
            capabilities,
            now,
        ) == capabilities,
{
    let all = capabilities_with(state, capabilities, now);
    assert(all.take(capabilities.len() as int) =~= capabilities);
    if state.entitlement is None || !is_active(state.entitlement->0.capability, now) {
        assert(all =~= capabilities);
    }
    if allows(state, name, now) {
        let more = texts_of(state.entitlement->0.capability.capabilities@);
        let i = choose|i: int| 0 <= i < more.len() && more[i] == name;
        assert(all[capabilities.len() + i] == name);
    }
}

/// Who is told that a plan is required learns whether theirs has expired, and each
/// reason to refuse has a code of its own.
pub proof fn lemma_refusals_of_plans_are_told_apart(status: CommercialEntitlementStatus)
    ensures
        required_error(status).code == "commercial_entitlement_required"@,
        status == CommercialEntitlementStatus::Expired ==> required_error(status).message
            == "Commercial subscription expired. Local and SSH Ditch continue to work."@,
        status != CommercialEntitlementStatus::Expired ==> required_error(status).message
            == "Commercial access is required for Remote Control. Local and SSH Ditch continue to work."@,
        required_error(status).code != loading_error().code,
        required_error(status).code != unavailable_error().code,
        loading_error().code != unavailable_error().code,
{
    reveal_strlit("commercial_entitlement_required");
    reveal_strlit("commercial_entitlement_loading");
    reveal_strlit("commercial_entitlement_unavailable");
    assert("commercial_entitlement_required"@.len() == 31);
    assert("commercial_entitlement_loading"@.len() == 30);
    assert("commercial_entitlement_unavailable"@.len() == 34);
}

} // verus!
