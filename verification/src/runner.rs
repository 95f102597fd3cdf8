//! The bounded automation loop as a state machine.
//!
//! Observing, asking a decision provider, dispatching and verifying happen
//! outside. What was found there comes in as an event; the phase that a run is
//! in says what to do next. `enhanced` switches the decision provider only.
use vstd::prelude::*;
use vstd::string::*;

use crate::model;
use crate::model::Plain;
use crate::text;
use crate::text::{decimal, is_blank, owned, same_text};
use crate::types::{
    ActionCandidate, ActionReceipt, AutomationError, CandidateKind, CandidateModel, Decision,
    DecisionUsage, ErrorKind, ExecutionInput, KindModel, Observation, ObservationModel, ObservationScope,
    PolicyDecision, ReceiptModel, RecentAction, RecentModel, RunLimits, RunOutcome, RunStatus,
    ScopeModel, SemanticLocator, LocatorModel, TraceEvent, TraceEventKind, TraceModel,
    Verification,
};

verus! {

/// The automation id that marks an ancestor as the menu scope.
pub const MENU_SCOPE_ID: &'static str = "nuphus:scope:menu";

/// How many actions a decision provider is reminded of.
pub const RECENT_LIMIT: usize = 8;

/// How many candidates one decision may choose from.
pub const CANDIDATE_LIMIT: usize = 255;

/// The next piece of outside work, with what is needed to do it.
pub enum Phase {
    /// Read the clock.
    Start,
    /// Observe the desktop.
    Observing,
    /// Build candidates for the observation.
    Building { observation: Observation },
    /// Ask the decision provider.
    Deciding { observation: Observation, candidates: Vec<ActionCandidate> },
    /// Ask the policy.
    Judging { observation: Observation, candidate: ActionCandidate },
    /// Observe again before dispatching.
    Refreshing { observation: Observation, candidate: ActionCandidate },
    /// Dispatch the action with an input.
    Dispatching { fresh: Observation, candidate: ActionCandidate, input: ExecutionInput },
    /// Observe after the action.
    Watching { fresh: Observation, candidate: ActionCandidate, receipt: ActionReceipt },
    /// Verify the effect.
    Verifying {
        fresh: Observation,
        candidate: ActionCandidate,
        receipt: ActionReceipt,
        after: Observation,
    },
    /// Observe once more because the effect was not known.
    Rewatching {
        fresh: Observation,
        candidate: ActionCandidate,
        receipt: ActionReceipt,
        after: Observation,
    },
    /// Verify against the later observation.
    Reverifying {
        fresh: Observation,
        candidate: ActionCandidate,
        receipt: ActionReceipt,
        after: Observation,
        reconciled: Observation,
    },
    /// The run is over.
    Finished { status: RunStatus },
    /// The run broke off.
    Failed { error: AutomationError },
}

/// The content of a [`Phase`].
#[verifier::ext_equal]
pub enum PhaseModel {
    Start,
    Observing,
    Building(ObservationModel),
    Deciding(ObservationModel, Seq<CandidateModel>),
    Judging(ObservationModel, CandidateModel),
    Refreshing(ObservationModel, CandidateModel),
    Dispatching(ObservationModel, CandidateModel, Option<Seq<char>>),
    Watching(ObservationModel, CandidateModel, ReceiptModel),
    Verifying(ObservationModel, CandidateModel, ReceiptModel, ObservationModel),
    Rewatching(ObservationModel, CandidateModel, ReceiptModel, ObservationModel),
    Reverifying(
        ObservationModel,
        CandidateModel,
        ReceiptModel,
        ObservationModel,
        ObservationModel,
    ),
    Finished(RunStatus),
    Failed((ErrorKind, Seq<char>)),
}

impl View for Phase {
    type V = PhaseModel;

    open spec fn view(&self) -> PhaseModel {
        match self {
            Phase::Start => PhaseModel::Start,
            Phase::Observing => PhaseModel::Observing,
            Phase::Building { observation } => PhaseModel::Building(observation@),
            Phase::Deciding { observation, candidates } => PhaseModel::Deciding(
                observation@,
                model::seq_view(candidates@),
            ),
            Phase::Judging { observation, candidate } => PhaseModel::Judging(
                observation@,
                candidate@,
            ),
            Phase::Refreshing { observation, candidate } => PhaseModel::Refreshing(
                observation@,
                candidate@,
            ),
            Phase::Dispatching { fresh, candidate, input } => PhaseModel::Dispatching(
                fresh@,
                candidate@,
                model::opt_view(input.value),
            ),
            Phase::Watching { fresh, candidate, receipt } => PhaseModel::Watching(
                fresh@,
                candidate@,
                receipt@,
            ),
            Phase::Verifying { fresh, candidate, receipt, after } => PhaseModel::Verifying(
                fresh@,
                candidate@,
                receipt@,
                after@,
            ),
            Phase::Rewatching { fresh, candidate, receipt, after } => PhaseModel::Rewatching(
                fresh@,
                candidate@,
                receipt@,
                after@,
            ),
            Phase::Reverifying { fresh, candidate, receipt, after, reconciled } => {
                PhaseModel::Reverifying(fresh@, candidate@, receipt@, after@, reconciled@)
            },
            Phase::Finished { status } => PhaseModel::Finished(*status),
            Phase::Failed { error } => PhaseModel::Failed(error@),
        }
    }
}

/// What outside work found.
pub enum RunEvent {
    /// Milliseconds since the run began.
    Clock(u64),
    /// A reading of the desktop.
    Observed(Observation),
    /// The candidates for the current observation.
    Offered(Vec<ActionCandidate>),
    /// The provider's choice.
    Decided(Decision),
    /// The policy's answer.
    Judged(PolicyDecision),
    /// The executor's receipt.
    Executed(ActionReceipt),
    /// The verifier's finding.
    Verified(Verification),
    /// A piece of outside work failed.
    Broken(AutomationError),
}

/// The content of a [`RunEvent`].
#[verifier::ext_equal]
pub enum EventModel {
    Clock(u64),
    Observed(ObservationModel),
    Offered(Seq<CandidateModel>),
    Decided(Seq<char>, Option<Seq<char>>, Option<DecisionUsage>),
    Allowed,
    Held(Seq<char>),
    Denied(Seq<char>),
    Executed(ReceiptModel),
    Verified(Verification),
    Broken((ErrorKind, Seq<char>)),
}

impl View for RunEvent {
    type V = EventModel;

    open spec fn view(&self) -> EventModel {
        match self {
            RunEvent::Clock(ms) => EventModel::Clock(*ms),
            RunEvent::Observed(o) => EventModel::Observed(o@),
            RunEvent::Offered(c) => EventModel::Offered(model::seq_view(c@)),
            RunEvent::Decided(d) => EventModel::Decided(
                d.candidate_id@,
                model::opt_view(d.actual_model),
                d.usage,
            ),
            RunEvent::Judged(PolicyDecision::Allow) => EventModel::Allowed,
            RunEvent::Judged(PolicyDecision::NeedsIncrementalGrant(s)) => EventModel::Held(s@),
            RunEvent::Judged(PolicyDecision::NeedsConfirmation(s)) => EventModel::Held(s@),
            RunEvent::Judged(PolicyDecision::Deny(s)) => EventModel::Denied(s@),
            RunEvent::Executed(r) => EventModel::Executed(r@),
            RunEvent::Verified(v) => EventModel::Verified(*v),
            RunEvent::Broken(e) => EventModel::Broken(e@),
        }
    }
}

/// Who decides between candidates.
#[derive(Debug, Clone, Copy, PartialEq, Eq, Structural)]
pub enum Provider {
    /// The primary model.
    Normal,
    /// The service of the enhanced mode.
    Jev,
}

/// A run of the automation loop.
pub struct Run {
    pub limits: RunLimits,
    pub enhanced: bool,
    pub jev: bool,
    pub executed_steps: u32,
    pub stall_count: u32,
    pub soft_reported: bool,
    pub recent: Vec<RecentAction>,
    pub trace: Vec<TraceEvent>,
    pub phase: Phase,
}

/// The content of a [`Run`].
#[verifier::ext_equal]
pub struct RunModel {
    pub limits: RunLimits,
    pub enhanced: bool,
    pub jev: bool,
    pub executed_steps: int,
    pub stall_count: int,
    pub soft_reported: bool,
    pub recent: Seq<RecentModel>,
    pub trace: Seq<TraceModel>,
    pub phase: PhaseModel,
}

impl View for Run {
    type V = RunModel;

    open spec fn view(&self) -> RunModel {
        RunModel {
            limits: self.limits,
            enhanced: self.enhanced,
            jev: self.jev,
            executed_steps: self.executed_steps as int,
            stall_count: self.stall_count as int,
            soft_reported: self.soft_reported,
            recent: model::seq_view(self.recent@),
            trace: model::seq_view(self.trace@),
            phase: self.phase@,
        }
    }
}

impl RunModel {
    /// Whether the run is over, by its own decision or by a failure.
    pub open spec fn over(self) -> bool {
        self.phase is Finished || self.phase is Failed
    }

    /// Who is asked where candidates are to be decided between.
    pub open spec fn provider(self) -> Provider {
        if self.enhanced {
            Provider::Jev
        } else {
            Provider::Normal
        }
    }

    /// Whether the run stands between the clock and the dispatch of an action.
    pub open spec fn preparing(self) -> bool {
        self.phase is Observing || self.phase is Building || self.phase is Deciding
            || self.phase is Judging || self.phase is Refreshing || self.phase is Dispatching
    }

    /// What holds of every run: bounded steps, bounded stalls, bounded memory.
    pub open spec fn wf(self) -> bool {
        &&& 0 <= self.executed_steps <= self.limits.hard_max_steps
        &&& self.preparing() ==> self.executed_steps < self.limits.hard_max_steps
        &&& 0 <= self.stall_count
        &&& self.over() || self.stall_count == 0 || self.stall_count < self.limits.max_stall_count
        &&& self.stall_count <= self.limits.max_stall_count || self.stall_count <= 1
        &&& self.recent.len() <= RECENT_LIMIT
    }

    /// The run with one more trace entry.
    pub open spec fn noted(
        self,
        kind: TraceEventKind,
        revision: Option<u64>,
        candidate: Option<Seq<char>>,
        detail: Seq<char>,
    ) -> RunModel {
        RunModel {
            trace: self.trace.push(
                TraceModel { kind, observation_revision: revision, candidate_id: candidate, detail },
            ),
            ..self
        }
    }

    /// The run in another phase.
    pub open spec fn enters(self, phase: PhaseModel) -> RunModel {
        RunModel { phase, ..self }
    }

    /// The run ended with a status and a last trace entry.
    pub open spec fn stops(self, status: RunStatus, detail: Seq<char>) -> RunModel {
        self.noted(TraceEventKind::Stopped, None, None, detail).enters(
            PhaseModel::Finished(status),
        )
    }
}

/// What is wrong with the candidates from position `i` on, the earliest fault first.
pub open spec fn fault_from(o: ObservationModel, cs: Seq<CandidateModel>, i: int) -> Option<
    (ErrorKind, Seq<char>),
>
    decreases cs.len() - i,
{
    if i < 0 || i >= cs.len() {
        None
    } else if text::blank(cs[i].id) || exists|j: int| 0 <= j < i && (#[trigger] cs[j]).id == cs[i].id {
        Some((ErrorKind::Candidates, "candidate ids must be non-empty and unique"@))
    } else if cs[i].observation_revision != o.revision {
        Some(
            (
                ErrorKind::Candidates,
                "candidate '"@ + cs[i].id + "' is bound to a different observation revision"@,
            ),
        )
    } else {
        fault_from(o, cs, i + 1)
    }
}

/// What is wrong with a set of candidates, if anything is.
pub open spec fn candidate_fault(o: ObservationModel, cs: Seq<CandidateModel>) -> Option<
    (ErrorKind, Seq<char>),
> {
    if cs.len() == 0 {
        Some((ErrorKind::Candidates, "candidate set is empty"@))
    } else if cs.len() > CANDIDATE_LIMIT {
        Some(
            (ErrorKind::Candidates, "candidate set exceeds the System One Choice hard limit"@),
        )
    } else {
        fault_from(o, cs, 0)
    }
}

/// The first candidate with an id.
pub open spec fn find_id(cs: Seq<CandidateModel>, id: Seq<char>) -> Option<CandidateModel>
    decreases cs.len(),
{
    if cs.len() == 0 {
        None
    } else if cs[0].id == id {
        Some(cs[0])
    } else {
        find_id(cs.drop_first(), id)
    }
}

/// How a decision is written into the trace.
pub open spec fn decision_detail(name: Option<Seq<char>>, usage: Option<DecisionUsage>) -> Seq<
    char,
> {
    let who = match name {
        Some(m) => m,
        None => "local decision provider"@,
    };
    match usage {
        Some(u) => who + "; usage input="@ + text::decimal_text(u.input_tokens as nat)
            + " output="@ + text::decimal_text(u.output_tokens as nat),
        None => who,
    }
}

/// The run after an action's effect is known.
pub open spec fn settled(
    m: RunModel,
    c: CandidateModel,
    after: ObservationModel,
    v: Verification,
) -> RunModel {
    let seen = m.noted(TraceEventKind::Verified, Some(after.revision), Some(c.id), v.label());
    let grown = seen.recent.push(
        RecentModel {
            action_class: ActionCandidate::class_of(c.kind),
            target_summary: c.public_description,
            verification: v,
        },
    );
    let kept = RunModel {
        recent: if grown.len() > RECENT_LIMIT {
            grown.drop_first()
        } else {
            grown
        },
        ..seen
    };
    match v {
        Verification::Achieved | Verification::Progress => RunModel {
            stall_count: 0,
            ..kept
        }.enters(PhaseModel::Start),
        Verification::NoChange => {
            let stalled = RunModel { stall_count: kept.stall_count + 1, ..kept };
            if stalled.stall_count >= m.limits.max_stall_count {
                stalled.stops(
                    RunStatus::NeedsAttention,
                    "repeated action produced no relevant progress"@,
                )
            } else {
                stalled.enters(PhaseModel::Start)
            }
        },
        Verification::Unexpected | Verification::Unknown => kept.stops(
            RunStatus::NeedsAttention,
            "outcome requires attention; non-idempotent action was not replayed"@,
        ),
    }
}

/// The run after the clock was read.
pub open spec fn clocked(m: RunModel, ms: u64) -> RunModel {
    if m.executed_steps >= m.limits.hard_max_steps || ms >= m.limits.hard_max_elapsed_ms {
        m.stops(RunStatus::BudgetExceeded, "hard run budget exceeded"@)
    } else if !m.soft_reported && (m.executed_steps >= m.limits.soft_max_steps || ms
        >= m.limits.soft_max_elapsed_ms) {
        RunModel { soft_reported: true, ..m }.noted(
            TraceEventKind::SoftBudgetReached,
            None,
            None,
            "soft budget reached; continuing within the hard bound"@,
        ).enters(PhaseModel::Observing)
    } else {
        m.enters(PhaseModel::Observing)
    }
}

/// The run after candidates were built.
pub open spec fn offered(m: RunModel, o: ObservationModel, cs: Seq<CandidateModel>) -> RunModel {
    match candidate_fault(o, cs) {
        Some(e) => m.enters(PhaseModel::Failed(e)),
        None => {
            let seen = m.noted(
                TraceEventKind::CandidatesBuilt,
                Some(o.revision),
                None,
                text::decimal_text(cs.len()) + " bounded candidates"@,
            );
            if m.enhanced && !m.jev {
                seen.enters(
                    PhaseModel::Failed(
                        (
                            ErrorKind::EnhancedUnavailable,
                            "Jev decision provider is not configured"@,
                        ),
                    ),
                )
            } else {
                seen.enters(PhaseModel::Deciding(o, cs))
            }
        },
    }
}

/// The run after the provider chose.
pub open spec fn decided(
    m: RunModel,
    o: ObservationModel,
    cs: Seq<CandidateModel>,
    id: Seq<char>,
    name: Option<Seq<char>>,
    usage: Option<DecisionUsage>,
) -> RunModel {
    match find_id(cs, id) {
        None => m.enters(PhaseModel::Failed((ErrorKind::UnknownCandidate, id))),
        Some(c) => {
            let seen = m.noted(
                TraceEventKind::DecisionMade,
                Some(o.revision),
                Some(c.id),
                decision_detail(name, usage),
            );
            match c.kind {
                KindModel::Done => if m.enhanced {
                    seen.stops(
                        RunStatus::NeedsAttention,
                        "Jev proposed completion; primary model confirmation is required"@,
                    )
                } else {
                    seen.stops(RunStatus::Completed, "goal complete"@)
                },
                KindModel::AskUser => seen.stops(
                    RunStatus::WaitingForUser,
                    "decision provider requested user input"@,
                ),
                KindModel::CannotProceed => seen.stops(
                    RunStatus::FailedSafely,
                    "no offered action can proceed"@,
                ),
                _ => seen.enters(PhaseModel::Judging(o, c)),
            }
        },
    }
}

/// The run after the desktop was observed again before dispatch.
pub open spec fn refreshed(
    m: RunModel,
    o: ObservationModel,
    c: CandidateModel,
    fresh: ObservationModel,
) -> RunModel {
    if fresh.revision != c.observation_revision || fresh.fingerprint != o.fingerprint {
        m.noted(
            TraceEventKind::StaleObservation,
            Some(fresh.revision),
            Some(c.id),
            "UI changed before dispatch; rebuilding candidates"@,
        ).enters(PhaseModel::Start)
    } else {
        m.enters(PhaseModel::Dispatching(fresh, c, None))
    }
}

/// The run after the executor reported.
pub open spec fn dispatched(
    m: RunModel,
    fresh: ObservationModel,
    c: CandidateModel,
    receipt: ReceiptModel,
) -> RunModel {
    if receipt.candidate_id != c.id {
        m.enters(
            PhaseModel::Failed(
                (
                    ErrorKind::Execution,
                    "executor receipt candidate id does not match dispatched candidate"@,
                ),
            ),
        )
    } else {
        RunModel { executed_steps: m.executed_steps + 1, ..m }.noted(
            TraceEventKind::Executed,
            Some(fresh.revision),
            Some(c.id),
            "one locally validated action dispatched"@,
        ).enters(PhaseModel::Watching(fresh, c, receipt))
    }
}

/// The run after an event. An event that the phase does not wait for changes
/// nothing.
pub open spec fn stepped(m: RunModel, e: EventModel) -> RunModel {
    match (m.phase, e) {
        (PhaseModel::Finished(_), _) => m,
        (PhaseModel::Failed(_), _) => m,
        (_, EventModel::Broken(error)) => m.enters(PhaseModel::Failed(error)),
        (PhaseModel::Start, EventModel::Clock(ms)) => clocked(m, ms),
        (PhaseModel::Observing, EventModel::Observed(o)) => m.noted(
            TraceEventKind::Observed,
            Some(o.revision),
            None,
            o.fingerprint,
        ).enters(PhaseModel::Building(o)),
        (PhaseModel::Building(o), EventModel::Offered(cs)) => offered(m, o, cs),
        (PhaseModel::Deciding(o, cs), EventModel::Decided(id, name, usage)) => decided(
            m,
            o,
            cs,
            id,
            name,
            usage,
        ),
        (PhaseModel::Judging(o, c), EventModel::Allowed) => m.noted(
            TraceEventKind::PolicyAllowed,
            Some(o.revision),
            Some(c.id),
            "allowed by local policy and execution grant"@,
        ).enters(PhaseModel::Refreshing(o, c)),
        (PhaseModel::Judging(o, c), EventModel::Held(reason)) => m.stops(
            RunStatus::WaitingForUser,
            reason,
        ),
        (PhaseModel::Judging(o, c), EventModel::Denied(reason)) => m.stops(
            RunStatus::FailedSafely,
            reason,
        ),
        (PhaseModel::Refreshing(o, c), EventModel::Observed(fresh)) => refreshed(m, o, c, fresh),
        (PhaseModel::Dispatching(fresh, c, _), EventModel::Executed(receipt)) => dispatched(
            m,
            fresh,
            c,
            receipt,
        ),
        (PhaseModel::Watching(fresh, c, receipt), EventModel::Observed(after)) => m.enters(
            PhaseModel::Verifying(fresh, c, receipt, after),
        ),
        (PhaseModel::Verifying(fresh, c, receipt, after), EventModel::Verified(v)) => if v
            == Verification::Unknown {
            m.enters(PhaseModel::Rewatching(fresh, c, receipt, after))
        } else {
            settled(m, c, after, v)
        },
        (PhaseModel::Rewatching(fresh, c, receipt, after), EventModel::Observed(later)) => m.enters(
            PhaseModel::Reverifying(fresh, c, receipt, after, later),
        ),
        (
            PhaseModel::Reverifying(fresh, c, receipt, after, later),
            EventModel::Verified(v),
        ) => settled(
            m.noted(
                TraceEventKind::Reconciled,
                Some(later.revision),
                Some(c.id),
                "reconciliation result: "@ + v.label(),
            ),
            c,
            after,
            v,
        ),
        _ => m,
    }
}

/// Every event keeps the bounds of a run.
pub proof fn step_keeps_wf(m: RunModel, e: EventModel)
    requires
        m.wf(),
    ensures
        stepped(m, e).wf(),
{
}

/// Checks the candidates of one observation: there are some, not too many,
/// their ids are neither blank nor repeated, and they belong to it.
pub fn validate_candidates(
    observation: &Observation,
    candidates: &Vec<ActionCandidate>,
) -> (r: Result<(), AutomationError>)
    ensures
        match r {
            Ok(_) => candidate_fault(observation@, model::seq_view(candidates@)) is None,
            Err(e) => candidate_fault(observation@, model::seq_view(candidates@)) == Some(e@),
        },
{
    let ghost o = observation@;
    let ghost cs = model::seq_view(candidates@);
    if candidates.len() == 0 {
        return Err(AutomationError::candidates("candidate set is empty"));
    }
    if candidates.len() > CANDIDATE_LIMIT {
        return Err(
            AutomationError::candidates("candidate set exceeds the System One Choice hard limit"),
        );
    }
    let mut i: usize = 0;
    while i < candidates.len()
        invariant
            o == observation@,
            cs == model::seq_view(candidates@),
            0 < cs.len() <= CANDIDATE_LIMIT,
            i <= candidates@.len(),
            fault_from(o, cs, 0) == fault_from(o, cs, i as int),
        decreases candidates@.len() - i,
    {
        let mut repeated = false;
        let mut j: usize = 0;
        while j < i
            invariant
                j <= i < candidates@.len(),
                cs == model::seq_view(candidates@),
                repeated == exists|k: int| 0 <= k < j && (#[trigger] cs[k]).id == cs[i as int].id,
            decreases i - j,
        {
            let hit = same_text(candidates[j].id.as_str(), candidates[i].id.as_str());
            assert(hit == (cs[j as int].id == cs[i as int].id));
            repeated = repeated || hit;
            j = j + 1;
        }
        assert(cs[i as int] == candidates@[i as int]@);
        if is_blank(candidates[i].id.as_str()) || repeated {
            return Err(AutomationError::candidates("candidate ids must be non-empty and unique"));
        }
        if candidates[i].observation_revision != observation.revision {
            let mut s = owned("candidate '");
            s.append(candidates[i].id.as_str());
            s.append("' is bound to a different observation revision");
            return Err(AutomationError::Candidates(s));
        }
        i = i + 1;
    }
    Ok(())
}

/// The last entry of a run's trace.
fn stop_event(detail: &str) -> (r: TraceEvent)
    ensures
        r@ == (TraceModel {
            kind: TraceEventKind::Stopped,
            observation_revision: None,
            candidate_id: None,
            detail: detail@,
        }),
{
    TraceEvent {
        kind: TraceEventKind::Stopped,
        observation_revision: None,
        candidate_id: None,
        detail: owned(detail),
    }
}

/// Writes a decision for the trace.
fn describe_decision(decision: &Decision) -> (r: String)
    ensures
        r@ == decision_detail(model::opt_view(decision.actual_model), decision.usage),
{
    let mut s = match &decision.actual_model {
        Some(m) => m.clone(),
        None => owned("local decision provider"),
    };
    match decision.usage {
        Some(u) => {
            s.append("; usage input=");
            s.append(decimal(u.input_tokens).as_str());
            s.append(" output=");
            s.append(decimal(u.output_tokens).as_str());
        },
        None => {},
    }
    s
}

/// Finds the first candidate with an id.
fn find_candidate(candidates: &Vec<ActionCandidate>, id: &str) -> (r: Option<ActionCandidate>)
    ensures
        model::opt_view(r) == find_id(model::seq_view(candidates@), id@),
{
    let ghost cs = model::seq_view(candidates@);
    let mut i: usize = 0;
    assert(cs.skip(0) == cs);
    while i < candidates.len()
        invariant
            i <= candidates@.len(),
            cs == model::seq_view(candidates@),
            find_id(cs, id@) == find_id(cs.skip(i as int), id@),
        decreases candidates@.len() - i,
    {
        assert(cs.skip(i as int)[0] == candidates@[i as int]@);
        if same_text(candidates[i].id.as_str(), id) {
            return Some(candidates[i].copied());
        }
        assert(cs.skip(i as int).drop_first() == cs.skip(i + 1));
        i = i + 1;
    }
    None
}

/// The part of the desktop to read for a saved locator.
pub open spec fn locator_scope_model(l: LocatorModel) -> ScopeModel {
    ScopeModel {
        app_id: Some(l.app_id),
        window_id: l.window_id,
        subtree_id: if exists|i: int|
            0 <= i < l.ancestor_chain.len() && (#[trigger] l.ancestor_chain[i]).automation_id
                == Some(MENU_SCOPE_ID@) {
            Some("@menu"@)
        } else {
            None
        },
    }
}

/// The part of the desktop to read for a saved locator: its application and
/// window, and the menu where an ancestor marks the menu scope.
pub fn locator_scope(locator: &SemanticLocator) -> (r: ObservationScope)
    ensures
        r@ == locator_scope_model(locator@),
{
    let ghost chain = locator@.ancestor_chain;
    let mut menu = false;
    let mut i: usize = 0;
    while i < locator.ancestor_chain.len()
        invariant
            i <= locator.ancestor_chain@.len(),
            chain == locator@.ancestor_chain,
            menu == exists|k: int|
                0 <= k < i && (#[trigger] chain[k]).automation_id == Some(MENU_SCOPE_ID@),
        decreases locator.ancestor_chain@.len() - i,
    {
        let hit = match &locator.ancestor_chain[i].automation_id {
            Some(id) => same_text(id.as_str(), MENU_SCOPE_ID),
            None => false,
        };
        assert(hit == (chain[i as int].automation_id == Some(MENU_SCOPE_ID@)));
        menu = menu || hit;
        i = i + 1;
    }
    ObservationScope {
        app_id: Some(locator.app_id.clone()),
        window_id: model::copy_opt(&locator.window_id),
        subtree_id: if menu {
            Some(owned("@menu"))
        } else {
            None
        },
    }
}

impl Run {
    /// Adds a trace entry.
    fn note(
        &mut self,
        kind: TraceEventKind,
        revision: Option<u64>,
        candidate: Option<String>,
        detail: String,
    )
        ensures
            final(self)@ == old(self)@.noted(kind, revision, model::opt_view(candidate), detail@),
            final(self).phase == old(self).phase,
            final(self).limits == old(self).limits,
    {
        let event = TraceEvent {
            kind,
            observation_revision: revision,
            candidate_id: candidate,
            detail,
        };
        let ghost before = self.trace@;
        self.trace.push(event);
        assert(model::seq_view(self.trace@) == model::seq_view(before).push(event@));
    }

    /// Ends the run.
    fn stop(&mut self, status: RunStatus, detail: &str)
        ensures
            final(self)@ == old(self)@.stops(status, detail@),
    {
        let event = stop_event(detail);
        let ghost before = self.trace@;
        self.trace.push(event);
        self.phase = Phase::Finished { status };
        assert(model::seq_view(self.trace@) == model::seq_view(before).push(event@));
    }

    /// Takes in the effect of an action.
    fn settle(&mut self, candidate: ActionCandidate, after: &Observation, v: Verification)
        requires
            old(self).stall_count < u32::MAX,
        ensures
            final(self)@ == settled(old(self)@, candidate@, after@, v),
    {
        let ghost start = self@;
        self.note(
            TraceEventKind::Verified,
            Some(after.revision),
            Some(candidate.id.clone()),
            owned(v.name()),
        );
        let ghost seen = self.recent@;
        let action = RecentAction {
            action_class: candidate.action_class(),
            target_summary: candidate.public_description.clone(),
            verification: v,
        };
        self.recent.push(action);
        assert(model::seq_view(self.recent@) == model::seq_view(seen).push(action@));
        if self.recent.len() > RECENT_LIMIT {
            let ghost grown = self.recent@;
            let _ = self.recent.remove(0);
            assert(model::seq_view(self.recent@) == model::seq_view(grown).drop_first());
        }
        match v {
            Verification::Achieved | Verification::Progress => {
                self.stall_count = 0;
                self.phase = Phase::Start;
            },
            Verification::NoChange => {
                self.stall_count = self.stall_count + 1;
                if self.stall_count >= self.limits.max_stall_count {
                    self.stop(
                        RunStatus::NeedsAttention,
                        "repeated action produced no relevant progress",
                    );
                } else {
                    self.phase = Phase::Start;
                }
            },
            Verification::Unexpected | Verification::Unknown => {
                self.stop(
                    RunStatus::NeedsAttention,
                    "outcome requires attention; non-idempotent action was not replayed",
                );
            },
        }
    }

    /// Takes in a reading of the clock.
    fn clock(&mut self, ms: u64)
        ensures
            final(self)@ == clocked(old(self)@, ms),
    {
        if self.executed_steps >= self.limits.hard_max_steps || ms
            >= self.limits.hard_max_elapsed_ms {
            self.stop(RunStatus::BudgetExceeded, "hard run budget exceeded");
        } else {
            if !self.soft_reported && (self.executed_steps >= self.limits.soft_max_steps || ms
                >= self.limits.soft_max_elapsed_ms) {
                self.soft_reported = true;
                self.note(
                    TraceEventKind::SoftBudgetReached,
                    None,
                    None,
                    owned("soft budget reached; continuing within the hard bound"),
                );
            }
            self.phase = Phase::Observing;
        }
    }

    /// Takes in the candidates of an observation.
    fn offer(&mut self, observation: Observation, candidates: Vec<ActionCandidate>)
        ensures
            final(self)@ == offered(old(self)@, observation@, model::seq_view(candidates@)),
    {
        match validate_candidates(&observation, &candidates) {
            Err(error) => {
                self.phase = Phase::Failed { error };
            },
            Ok(_) => {
                let mut detail = decimal(candidates.len() as u64);
                detail.append(" bounded candidates");
                self.note(
                    TraceEventKind::CandidatesBuilt,
                    Some(observation.revision),
                    None,
                    detail,
                );
                if self.enhanced && !self.jev {
                    self.phase = Phase::Failed {
                        error: AutomationError::EnhancedUnavailable(
                            owned("Jev decision provider is not configured"),
                        ),
                    };
                } else {
                    self.phase = Phase::Deciding { observation, candidates };
                }
            },
        }
    }

    /// Takes in the provider's choice.
    fn decide(
        &mut self,
        observation: Observation,
        candidates: Vec<ActionCandidate>,
        decision: Decision,
    )
        ensures
            final(self)@ == decided(
                old(self)@,
                observation@,
                model::seq_view(candidates@),
                decision.candidate_id@,
                model::opt_view(decision.actual_model),
                decision.usage,
            ),
    {
        match find_candidate(&candidates, decision.candidate_id.as_str()) {
            None => {
                self.phase = Phase::Failed {
                    error: AutomationError::UnknownCandidate(decision.candidate_id),
                };
            },
            Some(candidate) => {
                self.note(
                    TraceEventKind::DecisionMade,
                    Some(observation.revision),
                    Some(candidate.id.clone()),
                    describe_decision(&decision),
                );
                match &candidate.kind {
                    CandidateKind::Done => {
                        if self.enhanced {
                            self.stop(
                                RunStatus::NeedsAttention,
                                "Jev proposed completion; primary model confirmation is required",
                            );
                        } else {
                            self.stop(RunStatus::Completed, "goal complete");
                        }
                    },
                    CandidateKind::AskUser => {
                        self.stop(
                            RunStatus::WaitingForUser,
                            "decision provider requested user input",
                        );
                    },
                    CandidateKind::CannotProceed => {
                        self.stop(RunStatus::FailedSafely, "no offered action can proceed");
                    },
                    _ => {
                        self.phase = Phase::Judging { observation, candidate };
                    },
                }
            },
        }
    }

    /// Takes in the policy's answer.
    fn judge(
        &mut self,
        observation: Observation,
        candidate: ActionCandidate,
        decision: PolicyDecision,
    )
        ensures
            final(self)@ == stepped(
                old(self)@.enters(PhaseModel::Judging(observation@, candidate@)),
                RunEvent::Judged(decision)@,
            ),
    {
        match decision {
            PolicyDecision::Allow => {
                self.note(
                    TraceEventKind::PolicyAllowed,
                    Some(observation.revision),
                    Some(candidate.id.clone()),
                    owned("allowed by local policy and execution grant"),
                );
                self.phase = Phase::Refreshing { observation, candidate };
            },
            PolicyDecision::NeedsIncrementalGrant(reason) => {
                self.stop(RunStatus::WaitingForUser, reason.as_str());
            },
            PolicyDecision::NeedsConfirmation(reason) => {
                self.stop(RunStatus::WaitingForUser, reason.as_str());
            },
            PolicyDecision::Deny(reason) => {
                self.stop(RunStatus::FailedSafely, reason.as_str());
            },
        }
    }

    /// Takes in the observation made right before dispatch.
    fn refresh(&mut self, observation: Observation, candidate: ActionCandidate, fresh: Observation)
        ensures
            final(self)@ == refreshed(old(self)@, observation@, candidate@, fresh@),
    {
        if fresh.revision != candidate.observation_revision || !same_text(
            fresh.fingerprint.as_str(),
            observation.fingerprint.as_str(),
        ) {
            self.note(
                TraceEventKind::StaleObservation,
                Some(fresh.revision),
                Some(candidate.id.clone()),
                owned("UI changed before dispatch; rebuilding candidates"),
            );
            self.phase = Phase::Start;
        } else {
            self.phase = Phase::Dispatching {
                fresh,
                candidate,
                input: ExecutionInput::default(),
            };
        }
    }

    /// Takes in the executor's receipt.
    fn dispatch(&mut self, fresh: Observation, candidate: ActionCandidate, receipt: ActionReceipt)
        requires
            old(self).executed_steps < u32::MAX,
        ensures
            final(self)@ == dispatched(old(self)@, fresh@, candidate@, receipt@),
    {
        if !same_text(receipt.candidate_id.as_str(), candidate.id.as_str()) {
            self.phase = Phase::Failed {
                error: AutomationError::execution(
                    "executor receipt candidate id does not match dispatched candidate",
                ),
            };
        } else {
            self.executed_steps = self.executed_steps + 1;
            self.note(
                TraceEventKind::Executed,
                Some(fresh.revision),
                Some(candidate.id.clone()),
                owned("one locally validated action dispatched"),
            );
            self.phase = Phase::Watching { fresh, candidate, receipt };
        }
    }

    /// Takes in what outside work found.
    #[verifier::rlimit(60)]
    pub fn advance(&mut self, event: RunEvent)
        requires
            old(self)@.wf(),
        ensures
            final(self)@ == stepped(old(self)@, event@),
            final(self)@.wf(),
    {
        proof {
            step_keeps_wf(self@, event@);
        }
        let mut phase = Phase::Start;
        core::mem::swap(&mut phase, &mut self.phase);
        match phase {
            Phase::Finished { status } => {
                self.phase = Phase::Finished { status };
            },
            Phase::Failed { error } => {
                self.phase = Phase::Failed { error };
            },
            other => {
                match event {
                    RunEvent::Broken(error) => {
                        self.phase = Phase::Failed { error };
                    },
                    found => {
                        self.proceed(other, found);
                    },
                }
            },
        }
    }

    /// Takes in what outside work found in a phase that waits for it.
    #[verifier::rlimit(60)]
    fn proceed(&mut self, phase: Phase, event: RunEvent)
        requires
            old(self)@.enters(phase@).wf(),
            !(phase is Finished) && !(phase is Failed),
            !(event is Broken),
        ensures
            final(self)@ == stepped(old(self)@.enters(phase@), event@),
    {
        match phase {
            Phase::Start => {
                self.phase = Phase::Start;
                match event {
                    RunEvent::Clock(ms) => {
                        self.clock(ms);
                    },
                    _ => {},
                }
            },
            Phase::Observing => {
                self.phase = Phase::Observing;
                match event {
                    RunEvent::Observed(observation) => {
                        self.note(
                            TraceEventKind::Observed,
                            Some(observation.revision),
                            None,
                            observation.fingerprint.clone(),
                        );
                        self.phase = Phase::Building { observation };
                    },
                    _ => {},
                }
            },
            Phase::Building { observation } => match event {
                RunEvent::Offered(candidates) => {
                    self.offer(observation, candidates);
                },
                _ => {
                    self.phase = Phase::Building { observation };
                },
            },
            Phase::Deciding { observation, candidates } => match event {
                RunEvent::Decided(decision) => {
                    self.decide(observation, candidates, decision);
                },
                _ => {
                    self.phase = Phase::Deciding { observation, candidates };
                },
            },
            Phase::Judging { observation, candidate } => match event {
                RunEvent::Judged(decision) => {
                    self.judge(observation, candidate, decision);
                },
                _ => {
                    self.phase = Phase::Judging { observation, candidate };
                },
            },
            Phase::Refreshing { observation, candidate } => match event {
                RunEvent::Observed(fresh) => {
                    self.refresh(observation, candidate, fresh);
                },
                _ => {
                    self.phase = Phase::Refreshing { observation, candidate };
                },
            },
            Phase::Dispatching { fresh, candidate, input } => match event {
                RunEvent::Executed(receipt) => {
                    self.dispatch(fresh, candidate, receipt);
                },
                _ => {
                    self.phase = Phase::Dispatching { fresh, candidate, input };
                },
            },
            other => {
                self.conclude(other, event);
            },
        }
    }

    /// Takes in what was found after an action was dispatched.
    #[verifier::rlimit(60)]
    fn conclude(&mut self, phase: Phase, event: RunEvent)
        requires
            old(self)@.enters(phase@).wf(),
            phase is Watching || phase is Verifying || phase is Rewatching || phase is Reverifying,
            !(event is Broken),
        ensures
            final(self)@ == stepped(old(self)@.enters(phase@), event@),
    {
        match phase {
            Phase::Watching { fresh, candidate, receipt } => match event {
                RunEvent::Observed(after) => {
                    self.phase = Phase::Verifying { fresh, candidate, receipt, after };
                },
                _ => {
                    self.phase = Phase::Watching { fresh, candidate, receipt };
                },
            },
            Phase::Verifying { fresh, candidate, receipt, after } => match event {
                RunEvent::Verified(v) => {
                    if v == Verification::Unknown {
                        self.phase = Phase::Rewatching { fresh, candidate, receipt, after };
                    } else {
                        self.settle(candidate, &after, v);
                    }
                },
                _ => {
                    self.phase = Phase::Verifying { fresh, candidate, receipt, after };
                },
            },
            Phase::Rewatching { fresh, candidate, receipt, after } => match event {
                RunEvent::Observed(reconciled) => {
                    self.phase = Phase::Reverifying {
                        fresh,
                        candidate,
                        receipt,
                        after,
                        reconciled,
                    };
                },
                _ => {
                    self.phase = Phase::Rewatching { fresh, candidate, receipt, after };
                },
            },
            Phase::Reverifying { fresh, candidate, receipt, after, reconciled } => match event {
                RunEvent::Verified(v) => {
                    let mut detail = owned("reconciliation result: ");
                    detail.append(v.name());
                    self.note(
                        TraceEventKind::Reconciled,
                        Some(reconciled.revision),
                        Some(candidate.id.clone()),
                        detail,
                    );
                    self.settle(candidate, &after, v);
                },
                _ => {
                    self.phase = Phase::Reverifying {
                        fresh,
                        candidate,
                        receipt,
                        after,
                        reconciled,
                    };
                },
            },
            _ => {},
        }
    }

    /// Who is asked where candidates are to be decided between.
    pub fn provider(&self) -> (r: Provider)
        ensures
            r == self@.provider(),
            r == if self.enhanced {
                Provider::Jev
            } else {
                Provider::Normal
            },
    {
        if self.enhanced {
            Provider::Jev
        } else {
            Provider::Normal
        }
    }

    /// What the run reports once it is over.
    pub fn outcome(self) -> (r: Option<Result<RunOutcome, AutomationError>>)
        ensures
            match r {
                None => !self@.over(),
                Some(Ok(o)) => self@.phase == PhaseModel::Finished(o.status) && o.executed_steps
                    == self@.executed_steps && model::seq_view(o.trace@) == self@.trace,
                Some(Err(e)) => self@.phase == PhaseModel::Failed(e@),
            },
    {
        match self.phase {
            Phase::Finished { status } => Some(
                Ok(
                    RunOutcome {
                        status,
                        executed_steps: self.executed_steps,
                        trace: self.trace,
                    },
                ),
            ),
            Phase::Failed { error } => Some(Err(error)),
            _ => None,
        }
    }
}

/// The limits of runs, and whether the enhanced decision provider is there.
pub struct AutomationRunner {
    pub limits: RunLimits,
    pub jev: bool,
}

impl AutomationRunner {
    /// A runner without the enhanced decision provider.
    pub fn new(limits: RunLimits) -> (r: Self)
        ensures
            r.limits == limits,
            !r.jev,
    {
        AutomationRunner { limits, jev: false }
    }

    /// The same runner with the enhanced decision provider.
    pub fn with_jev_decider(self) -> (r: Self)
        ensures
            r.limits == self.limits,
            r.jev,
    {
        AutomationRunner { limits: self.limits, jev: true }
    }

    /// A run at its start.
    pub fn run(&self, enhanced_mode: bool) -> (r: Run)
        ensures
            r@ == (RunModel {
                limits: self.limits,
                enhanced: enhanced_mode,
                jev: self.jev,
                executed_steps: 0,
                stall_count: 0,
                soft_reported: false,
                recent: Seq::empty(),
                trace: Seq::empty(),
                phase: PhaseModel::Start,
            }),
            r@.wf(),
    {
        let r = Run {
            limits: self.limits,
            enhanced: enhanced_mode,
            jev: self.jev,
            executed_steps: 0,
            stall_count: 0,
            soft_reported: false,
            recent: Vec::new(),
            trace: Vec::new(),
            phase: Phase::Start,
        };
        assert(r@.recent == Seq::<RecentModel>::empty());
        assert(r@.trace == Seq::<TraceModel>::empty());
        r
    }
}

/// The run after a series of events.
pub open spec fn run_through(m: RunModel, events: Seq<EventModel>) -> RunModel
    decreases events.len(),
{
    if events.len() == 0 {
        m
    } else {
        stepped(run_through(m, events.drop_last()), events.last())
    }
}

/// Whatever happens outside, a run dispatches no more actions than its hard
/// limit allows, and its bounds hold at every point.
pub proof fn run_is_bounded(m: RunModel, events: Seq<EventModel>)
    requires
        m.wf(),
    ensures
        run_through(m, events).wf(),
        run_through(m, events).executed_steps <= m.limits.hard_max_steps,
        run_through(m, events).limits == m.limits,
    decreases events.len(),
{
    if events.len() > 0 {
        run_is_bounded(m, events.drop_last());
        step_keeps_wf(run_through(m, events.drop_last()), events.last());
    }
}

/// A trace only grows: what was written stays, in its place.
pub proof fn trace_only_grows(m: RunModel, events: Seq<EventModel>)
    ensures
        m.trace.is_prefix_of(run_through(m, events).trace),
    decreases events.len(),
{
    if events.len() > 0 {
        trace_only_grows(m, events.drop_last());
        let before = run_through(m, events.drop_last());
        assert(before.trace.is_prefix_of(stepped(before, events.last()).trace));
    }
}

/// A run that is over stays as it is.
pub proof fn over_is_final(m: RunModel, events: Seq<EventModel>)
    requires
        m.over(),
    ensures
        run_through(m, events) == m,
    decreases events.len(),
{
    if events.len() > 0 {
        over_is_final(m, events.drop_last());
    }
}

/// An action is dispatched only right after an observation that equals, in
/// revision and fingerprint, the one it was chosen for.
pub proof fn dispatch_follows_unchanged_desktop(m: RunModel, e: EventModel)
    requires
        !(m.phase is Dispatching),
        stepped(m, e).phase is Dispatching,
    ensures
        m.phase is Refreshing,
        e is Observed,
        stepped(m, e).phase == PhaseModel::Dispatching(
            e->Observed_0,
            m.phase->Refreshing_1,
            None,
        ),
        e->Observed_0.revision == m.phase->Refreshing_1.observation_revision,
        e->Observed_0.fingerprint == m.phase->Refreshing_0.fingerprint,
{
}

/// An action is dispatched only after the policy allowed that very candidate.
pub proof fn refresh_follows_permission(m: RunModel, e: EventModel)
    requires
        !(m.phase is Refreshing),
        stepped(m, e).phase is Refreshing,
    ensures
        e == EventModel::Allowed,
        m.phase is Judging,
        stepped(m, e).phase == PhaseModel::Refreshing(m.phase->Judging_0, m.phase->Judging_1),
{
}

/// Whether the run read the desktop at `a` as `o`, and at `b` was offered
/// candidates for it that pass the check.
pub open spec fn offered_at(
    m: RunModel,
    events: Seq<EventModel>,
    o: ObservationModel,
    cs: Seq<CandidateModel>,
    a: int,
    b: int,
) -> bool {
    &&& 0 <= a < b < events.len()
    &&& run_through(m, events.take(a)).phase is Observing
    &&& events[a] == EventModel::Observed(o)
    &&& run_through(m, events.take(b)).phase == PhaseModel::Building(o)
    &&& events[b] == EventModel::Offered(cs)
    &&& candidate_fault(o, cs) is None
}

/// Whether the provider chose a candidate that acts out of the offered ones
/// at `d`.
pub open spec fn decided_at(
    m: RunModel,
    events: Seq<EventModel>,
    o: ObservationModel,
    cs: Seq<CandidateModel>,
    c: CandidateModel,
    d: int,
) -> bool {
    &&& 0 <= d < events.len()
    &&& run_through(m, events.take(d)).phase == PhaseModel::Deciding(o, cs)
    &&& events[d] is Decided
    &&& events[d]->Decided_0 == c.id
    &&& cs.contains(c)
    &&& !(c.kind is Done) && !(c.kind is AskUser) && !(c.kind is CannotProceed)
}

/// Whether the policy allowed that candidate at `e`.
pub open spec fn allowed_at(
    m: RunModel,
    events: Seq<EventModel>,
    o: ObservationModel,
    c: CandidateModel,
    e: int,
) -> bool {
    &&& 0 <= e < events.len()
    &&& run_through(m, events.take(e)).phase == PhaseModel::Judging(o, c)
    &&& events[e] == EventModel::Allowed
}

/// Whether the desktop, read again at `f`, was still the one that the candidate
/// was chosen for.
pub open spec fn unchanged_at(
    m: RunModel,
    events: Seq<EventModel>,
    o: ObservationModel,
    c: CandidateModel,
    fresh: ObservationModel,
    f: int,
) -> bool {
    &&& 0 <= f < events.len()
    &&& run_through(m, events.take(f)).phase == PhaseModel::Refreshing(o, c)
    &&& events[f] == EventModel::Observed(fresh)
    &&& fresh.revision == c.observation_revision
    &&& fresh.fingerprint == o.fingerprint
}

/// Whether a candidate was chosen: offered for a reading of the desktop, then
/// decided for.
pub open spec fn chosen(
    m: RunModel,
    events: Seq<EventModel>,
    o: ObservationModel,
    c: CandidateModel,
    at: (Seq<CandidateModel>, int, int, int),
) -> bool {
    &&& offered_at(m, events, o, at.0, at.1, at.2)
    &&& decided_at(m, events, o, at.0, c, at.3)
    &&& at.2 < at.3
}

/// Whether the dispatch of a candidate is warranted: it was chosen, then
/// allowed by the policy, then found to fit a desktop that had not changed.
pub open spec fn warranted(
    m: RunModel,
    events: Seq<EventModel>,
    o: ObservationModel,
    c: CandidateModel,
    fresh: ObservationModel,
    at: (Seq<CandidateModel>, int, int, int),
    e: int,
    f: int,
) -> bool {
    &&& chosen(m, events, o, c, at)
    &&& allowed_at(m, events, o, c, e)
    &&& unchanged_at(m, events, o, c, fresh, f)
    &&& at.3 < e < f
}

/// What the phase of a run that went through events says of them.
spec fn accounted(m: RunModel, events: Seq<EventModel>) -> bool {
    match run_through(m, events).phase {
        PhaseModel::Building(o) => exists|a: int|
            #![trigger events[a]]
            0 <= a < events.len() && events[a] == EventModel::Observed(o) && run_through(
                m,
                events.take(a),
            ).phase is Observing,
        PhaseModel::Deciding(o, cs) => exists|a: int, b: int| offered_at(m, events, o, cs, a, b),
        PhaseModel::Judging(o, c) => exists|at: (Seq<CandidateModel>, int, int, int)|
            chosen(m, events, o, c, at),
        PhaseModel::Refreshing(o, c) => exists|at: (Seq<CandidateModel>, int, int, int), e: int|
            #![trigger chosen(m, events, o, c, at), allowed_at(m, events, o, c, e)]
            chosen(m, events, o, c, at) && allowed_at(m, events, o, c, e) && at.3 < e,
        PhaseModel::Dispatching(fresh, c, input) => input is None && exists|
            o: ObservationModel,
            at: (Seq<CandidateModel>, int, int, int),
            e: int,
            f: int,
        |
            warranted(m, events, o, c, fresh, at, e, f),
        _ => true,
    }
}

/// What was found of a run holds after one more event.
proof fn later_events_keep(m: RunModel, events: Seq<EventModel>)
    requires
        events.len() > 0,
    ensures
        forall|i: int|
            0 <= i < events.len() ==> #[trigger] events.drop_last().take(i) == events.take(i),
        forall|i: int| 0 <= i < events.len() - 1 ==> #[trigger] events.drop_last()[i] == events[i],
        events.take(events.len() - 1) == events.drop_last(),
{
    assert forall|i: int| 0 <= i < events.len() implies #[trigger] events.drop_last().take(i)
        == events.take(i) by {
        assert(events.drop_last().take(i) =~= events.take(i));
    }
    assert(events.take(events.len() - 1) =~= events.drop_last());
}

/// A candidate that is found is one of them, and has the id.
proof fn found_is_among(cs: Seq<CandidateModel>, id: Seq<char>)
    requires
        find_id(cs, id) is Some,
    ensures
        cs.contains(find_id(cs, id)->Some_0),
        find_id(cs, id)->Some_0.id == id,
    decreases cs.len(),
{
    if cs[0].id != id {
        found_is_among(cs.drop_first(), id);
        let i = choose|i: int|
            0 <= i < cs.drop_first().len() && cs.drop_first()[i] == find_id(cs, id)->Some_0;
        assert(cs[i + 1] == find_id(cs, id)->Some_0);
    } else {
        assert(cs[0] == find_id(cs, id)->Some_0);
    }
}

/// The phase of a run accounts for the events that led to it.
#[verifier::rlimit(40)]
proof fn phase_accounts_for_events(m: RunModel, events: Seq<EventModel>)
    requires
        m.phase is Start,
    ensures
        accounted(m, events),
    decreases events.len(),
{
    if events.len() > 0 {
        let past = events.drop_last();
        let e = events.last();
        let n = events.len() - 1;
        let before = run_through(m, past);
        let after = run_through(m, events);
        phase_accounts_for_events(m, past);
        later_events_keep(m, events);
        assert(events[n] == e);
        assert(run_through(m, events.take(n)) == before);
        match after.phase {
            PhaseModel::Building(o) => {
                if before.phase == after.phase {
                    let a = choose|a: int|
                        #![trigger past[a]]
                        0 <= a < past.len() && past[a] == EventModel::Observed(o) && run_through(
                            m,
                            past.take(a),
                        ).phase is Observing;
                    assert(events[a] == past[a]);
                    assert(past.take(a) == events.take(a));
                }
            },
            PhaseModel::Deciding(o, cs) => {
                if before.phase == after.phase {
                    let (a, b) = choose|a: int, b: int| offered_at(m, past, o, cs, a, b);
                    assert(past.take(a) == events.take(a) && past.take(b) == events.take(b));
                    assert(offered_at(m, events, o, cs, a, b));
                } else {
                    let a = choose|a: int|
                        #![trigger past[a]]
                        0 <= a < past.len() && past[a] == EventModel::Observed(o) && run_through(
                            m,
                            past.take(a),
                        ).phase is Observing;
                    assert(past.take(a) == events.take(a));
                    assert(offered_at(m, events, o, cs, a, n));
                }
            },
            PhaseModel::Judging(o, c) => {
                if before.phase == after.phase {
                    let at = choose|at: (Seq<CandidateModel>, int, int, int)|
                        chosen(m, past, o, c, at);
                    chosen_stays(m, events, o, c, at);
                } else {
                    let cs = before.phase->Deciding_1;
                    let (a, b) = choose|a: int, b: int| offered_at(m, past, o, cs, a, b);
                    found_is_among(cs, e->Decided_0);
                    assert(past.take(a) == events.take(a) && past.take(b) == events.take(b));
                    assert(chosen(m, events, o, c, (cs, a, b, n)));
                }
            },
            PhaseModel::Refreshing(o, c) => {
                if before.phase == after.phase {
                    let (at, k) = choose|at: (Seq<CandidateModel>, int, int, int), k: int|
                        #![trigger chosen(m, past, o, c, at), allowed_at(m, past, o, c, k)]
                        chosen(m, past, o, c, at) && allowed_at(m, past, o, c, k) && at.3 < k;
                    chosen_stays(m, events, o, c, at);
                    assert(past.take(k) == events.take(k));
                    assert(allowed_at(m, events, o, c, k));
                } else {
                    let at = choose|at: (Seq<CandidateModel>, int, int, int)|
                        chosen(m, past, o, c, at);
                    chosen_stays(m, events, o, c, at);
                    assert(allowed_at(m, events, o, c, n));
                }
            },
            PhaseModel::Dispatching(fresh, c, _) => {
                if before.phase == after.phase {
                    let (o, at, k, f) = choose|
                        o: ObservationModel,
                        at: (Seq<CandidateModel>, int, int, int),
                        k: int,
                        f: int,
                    |
                        warranted(m, past, o, c, fresh, at, k, f);
                    chosen_stays(m, events, o, c, at);
                    assert(past.take(k) == events.take(k) && past.take(f) == events.take(f));
                    assert(warranted(m, events, o, c, fresh, at, k, f));
                } else {
                    let o = before.phase->Refreshing_0;
                    let (at, k) = choose|at: (Seq<CandidateModel>, int, int, int), k: int|
                        #![trigger chosen(m, past, o, c, at), allowed_at(m, past, o, c, k)]
                        chosen(m, past, o, c, at) && allowed_at(m, past, o, c, k) && at.3 < k;
                    chosen_stays(m, events, o, c, at);
                    assert(past.take(k) == events.take(k));
                    assert(warranted(m, events, o, c, fresh, at, k, n));
                }
            },
            _ => {},
        }
    }
}

/// A choice stays made.
proof fn chosen_stays(
    m: RunModel,
    events: Seq<EventModel>,
    o: ObservationModel,
    c: CandidateModel,
    at: (Seq<CandidateModel>, int, int, int),
)
    requires
        events.len() > 0,
        chosen(m, events.drop_last(), o, c, at),
    ensures
        chosen(m, events, o, c, at),
{
    later_events_keep(m, events);
    let past = events.drop_last();
    assert(past.take(at.1) == events.take(at.1));
    assert(past.take(at.2) == events.take(at.2));
    assert(past.take(at.3) == events.take(at.3));
}

/// Whatever happens outside, an action is dispatched only with no input and
/// only where, in this order, the desktop was read, the candidate was among
/// those offered for that reading, the provider chose it and it is one that
/// acts, the policy allowed it, and the desktop was read again with the
/// revision of the candidate and the fingerprint of the first reading.
pub proof fn dispatch_is_warranted(m: RunModel, events: Seq<EventModel>)
    requires
        m.phase is Start,
        run_through(m, events).phase is Dispatching,
    ensures
        run_through(m, events).phase->Dispatching_2 is None,
        exists|
            o: ObservationModel,
            at: (Seq<CandidateModel>, int, int, int),
            e: int,
            f: int,
        |
            warranted(
                m,
                events,
                o,
                run_through(m, events).phase->Dispatching_1,
                run_through(m, events).phase->Dispatching_0,
                at,
                e,
                f,
            ),
{
    phase_accounts_for_events(m, events);
}

/// A step is counted exactly where an action was being dispatched and the
/// executor's receipt names it.
pub proof fn steps_are_dispatches(m: RunModel, e: EventModel)
    ensures
        stepped(m, e).executed_steps == m.executed_steps + if m.phase is Dispatching
            && e is Executed && e->Executed_0.candidate_id == m.phase->Dispatching_1.id {
            1int
        } else {
            0int
        },
{
}

/// The mode of a run chooses who decides, and nothing in its course changes
/// that: with the mode off only the primary model is ever asked; with it on only
/// the enhanced service, and never where there is none.
pub proof fn mode_chooses_provider(m: RunModel, events: Seq<EventModel>)
    requires
        m.phase is Start,
    ensures
        run_through(m, events).provider() == m.provider(),
        run_through(m, events).phase is Deciding ==> {
            &&& !m.enhanced ==> run_through(m, events).provider() == Provider::Normal
            &&& m.enhanced ==> run_through(m, events).provider() == Provider::Jev && m.jev
        },
        run_through(m, events).enhanced == m.enhanced,
        run_through(m, events).jev == m.jev,
    decreases events.len(),
{
    if events.len() > 0 {
        mode_chooses_provider(m, events.drop_last());
    }
}

/// How many entries of a kind a trace holds.
pub open spec fn entries(trace: Seq<TraceModel>, kind: TraceEventKind) -> nat
    decreases trace.len(),
{
    if trace.len() == 0 {
        0
    } else {
        entries(trace.drop_last(), kind) + if trace.last().kind == kind {
            1nat
        } else {
            0nat
        }
    }
}

/// One more entry counts once where it is of the kind.
proof fn entries_of_push(trace: Seq<TraceModel>, t: TraceModel, kind: TraceEventKind)
    ensures
        entries(trace.push(t), kind) == entries(trace, kind) + if t.kind == kind {
            1nat
        } else {
            0nat
        },
{
    assert(trace.push(t).drop_last() =~= trace);
}

/// What an event adds to a trace: an entry for a step exactly where a step is
/// counted, and one for the end, the last, exactly where the run ends by it.
proof fn step_accounts_for_entries(m: RunModel, e: EventModel)
    ensures
        stepped(m, e).executed_steps - m.executed_steps == entries(
            stepped(m, e).trace,
            TraceEventKind::Executed,
        ) - entries(m.trace, TraceEventKind::Executed),
        m.phase !is Finished ==> entries(stepped(m, e).trace, TraceEventKind::Stopped) - entries(
            m.trace,
            TraceEventKind::Stopped,
        ) == if stepped(m, e).phase is Finished {
            1int
        } else {
            0int
        },
        m.phase !is Finished && stepped(m, e).phase is Finished ==> {
            &&& stepped(m, e).trace.len() > 0
            &&& stepped(m, e).trace.last().kind == TraceEventKind::Stopped
        },
{
    let after = stepped(m, e).trace;
    let n = m.trace.len() as int;
    assert(m.trace.is_prefix_of(after));
    assert(after.len() <= n + 3);
    if after.len() > n {
        let one = m.trace.push(after[n]);
        entries_of_push(m.trace, after[n], TraceEventKind::Executed);
        entries_of_push(m.trace, after[n], TraceEventKind::Stopped);
        if after.len() > n + 1 {
            let two = one.push(after[n + 1]);
            entries_of_push(one, after[n + 1], TraceEventKind::Executed);
            entries_of_push(one, after[n + 1], TraceEventKind::Stopped);
            if after.len() > n + 2 {
                entries_of_push(two, after[n + 2], TraceEventKind::Executed);
                entries_of_push(two, after[n + 2], TraceEventKind::Stopped);
                assert(after =~= two.push(after[n + 2]));
            } else {
                assert(after =~= two);
            }
        } else {
            assert(after =~= one);
        }
    } else {
        assert(after =~= m.trace);
    }
}

/// The steps of a run that began with none are those that its trace tells of:
/// one entry for each action that was dispatched, and no other.
pub proof fn steps_are_in_the_trace(m: RunModel, events: Seq<EventModel>)
    requires
        m.executed_steps == entries(m.trace, TraceEventKind::Executed),
    ensures
        run_through(m, events).executed_steps == entries(
            run_through(m, events).trace,
            TraceEventKind::Executed,
        ),
    decreases events.len(),
{
    if events.len() > 0 {
        steps_are_in_the_trace(m, events.drop_last());
        step_accounts_for_entries(run_through(m, events.drop_last()), events.last());
    }
}

/// A run that ends by its own decision says why in the last entry of its trace;
/// before that no entry says that it stopped.
pub proof fn finished_run_says_why(m: RunModel, events: Seq<EventModel>)
    requires
        m.phase !is Finished,
        entries(m.trace, TraceEventKind::Stopped) == 0,
    ensures
        ({
            let after = run_through(m, events);
            if after.phase is Finished {
                &&& after.trace.len() > 0
                &&& after.trace.last().kind == TraceEventKind::Stopped
                &&& entries(after.trace, TraceEventKind::Stopped) == 1
            } else {
                entries(after.trace, TraceEventKind::Stopped) == 0
            }
        }),
    decreases events.len(),
{
    if events.len() > 0 {
        finished_run_says_why(m, events.drop_last());
        step_accounts_for_entries(run_through(m, events.drop_last()), events.last());
    }
}

/// With the enhanced provider a run never completes by itself: completion is
/// left to the primary model.
pub proof fn enhanced_run_never_completes(m: RunModel, events: Seq<EventModel>)
    requires
        m.enhanced,
        m.phase != PhaseModel::Finished(RunStatus::Completed),
    ensures
        run_through(m, events).enhanced,
        run_through(m, events).phase != PhaseModel::Finished(RunStatus::Completed),
    decreases events.len(),
{
    if events.len() > 0 {
        enhanced_run_never_completes(m, events.drop_last());
    }
}

/// An outcome that is unexpected, or unknown even after a second look, ends
/// the run; the action is not replayed.
pub proof fn unclear_outcome_ends_run(m: RunModel, v: Verification)
    requires
        v == Verification::Unexpected || v == Verification::Unknown,
        m.phase is Reverifying || (m.phase is Verifying && v != Verification::Unknown),
    ensures
        stepped(m, EventModel::Verified(v)).phase == PhaseModel::Finished(
            RunStatus::NeedsAttention,
        ),
        stepped(m, EventModel::Verified(v)).executed_steps == m.executed_steps,
{
}

/// Candidates pass the check exactly where there is at least one and no more
/// than the limit, no id is blank, no two ids are the same and each belongs to
/// the observation.
pub proof fn accepted_candidates(o: ObservationModel, cs: Seq<CandidateModel>)
    ensures
        candidate_fault(o, cs) is None <==> {
            &&& 0 < cs.len() <= CANDIDATE_LIMIT
            &&& forall|i: int| 0 <= i < cs.len() ==> !text::blank((#[trigger] cs[i]).id)
            &&& forall|i: int|
                0 <= i < cs.len() ==> (#[trigger] cs[i]).observation_revision == o.revision
            &&& forall|i: int, j: int|
                0 <= i < j < cs.len() ==> (#[trigger] cs[i]).id != (#[trigger] cs[j]).id
        },
{
    if 0 < cs.len() <= CANDIDATE_LIMIT {
        accepted_from(o, cs, 0);
    }
}

/// The same from a position on.
proof fn accepted_from(o: ObservationModel, cs: Seq<CandidateModel>, n: int)
    requires
        0 <= n <= cs.len(),
    ensures
        fault_from(o, cs, n) is None <==> {
            &&& forall|i: int| n <= i < cs.len() ==> !text::blank((#[trigger] cs[i]).id)
            &&& forall|i: int|
                n <= i < cs.len() ==> (#[trigger] cs[i]).observation_revision == o.revision
            &&& forall|i: int, j: int|
                0 <= i < j && n <= j < cs.len() ==> (#[trigger] cs[i]).id != (#[trigger] cs[j]).id
        },
    decreases cs.len() - n,
{
    if n < cs.len() {
        accepted_from(o, cs, n + 1);
    }
}

/// Whether the effect of the last action is looked at.
pub open spec fn awaits_finding(m: RunModel) -> bool {
    m.phase is Verifying || m.phase is Reverifying
}

/// The action whose effect is looked at.
pub open spec fn acted_on(m: RunModel) -> CandidateModel {
    match m.phase {
        PhaseModel::Verifying(_, c, _, _) => c,
        PhaseModel::Reverifying(_, c, _, _, _) => c,
        _ => arbitrary(),
    }
}

/// An action that got anywhere lets the run go on: the next round begins, the
/// rounds without progress are forgotten, and nothing is dispatched again.
pub proof fn progress_goes_on(m: RunModel, v: Verification)
    requires
        awaits_finding(m),
        v == Verification::Achieved || v == Verification::Progress,
    ensures
        stepped(m, EventModel::Verified(v)).phase is Start,
        stepped(m, EventModel::Verified(v)).stall_count == 0,
        stepped(m, EventModel::Verified(v)).executed_steps == m.executed_steps,
        !stepped(m, EventModel::Verified(v)).over(),
{
}

/// An action that changed nothing is counted, and the run goes on until so many
/// as its limit allows came in a row; then the user is asked for.
pub proof fn standstill_is_counted(m: RunModel)
    requires
        awaits_finding(m),
    ensures
        ({
            let after = stepped(m, EventModel::Verified(Verification::NoChange));
            &&& after.stall_count == m.stall_count + 1
            &&& after.executed_steps == m.executed_steps
            &&& m.stall_count + 1 < m.limits.max_stall_count ==> after.phase is Start
            &&& m.stall_count + 1 >= m.limits.max_stall_count ==> after.phase
                == PhaseModel::Finished(RunStatus::NeedsAttention)
        }),
{
}

/// A finding ends a run only where it is unexpected, unknown at the second look,
/// or the last standstill that is allowed; it never completes a run.
pub proof fn findings_that_end_a_run(m: RunModel, v: Verification)
    requires
        awaits_finding(m),
    ensures
        ({
            let after = stepped(m, EventModel::Verified(v));
            &&& after.over() <==> {
                ||| v == Verification::Unexpected
                ||| v == Verification::Unknown && m.phase is Reverifying
                ||| v == Verification::NoChange && m.stall_count + 1 >= m.limits.max_stall_count
            }
            &&& after.over() ==> after.phase == PhaseModel::Finished(RunStatus::NeedsAttention)
        }),
{
}

/// What is not known after the first look is looked at once more, with the same
/// action, and decided by the second look.
pub proof fn unknown_effect_is_looked_at_again(m: RunModel, later: ObservationModel)
    requires
        m.phase is Verifying,
    ensures
        ({
            let again = stepped(m, EventModel::Verified(Verification::Unknown));
            let seen = stepped(again, EventModel::Observed(later));
            &&& !again.over() && !seen.over()
            &&& again.trace == m.trace
            &&& awaits_finding(seen)
            &&& acted_on(seen) == acted_on(m)
            &&& seen.phase matches PhaseModel::Reverifying(fresh, c, receipt, after, reconciled)
            &&& m.phase == PhaseModel::Verifying(fresh, c, receipt, after)
            &&& reconciled == later
        }),
{
}

/// What the provider is told of the past: the last action comes last, with what
/// came of it, and no more than the newest are kept.
pub proof fn past_actions_are_remembered(m: RunModel, v: Verification)
    requires
        awaits_finding(m),
        m.recent.len() <= 8,
        m.phase is Reverifying || v != Verification::Unknown,
    ensures
        ({
            let after = stepped(m, EventModel::Verified(v)).recent;
            &&& 0 < after.len() <= 8
            &&& after.last().action_class == ActionCandidate::class_of(acted_on(m).kind)
            &&& after.last().target_summary == acted_on(m).public_description
            &&& after.last().verification == v
            &&& m.recent.len() < 8 ==> after.drop_last() == m.recent
            &&& m.recent.len() == 8 ==> after.drop_last() == m.recent.drop_first()
        }),
{
    let after = stepped(m, EventModel::Verified(v)).recent;
    let whole = m.recent.push(after.last());
    if m.recent.len() < 8 {
        assert(after.drop_last() =~= m.recent);
    } else {
        assert(after =~= whole.drop_first());
        assert(after.drop_last() =~= m.recent.drop_first());
    }
}

/// A round begins unless the steps or the time are used up; then the run ends
/// for that reason. The softer bound is told of once and stops nothing.
pub proof fn budgets_are_kept(m: RunModel, ms: u64)
    requires
        m.phase is Start,
    ensures
        ({
            let after = stepped(m, EventModel::Clock(ms));
            let spent = m.executed_steps >= m.limits.hard_max_steps || ms
                >= m.limits.hard_max_elapsed_ms;
            let soft = m.executed_steps >= m.limits.soft_max_steps || ms
                >= m.limits.soft_max_elapsed_ms;
            &&& spent ==> after.phase == PhaseModel::Finished(RunStatus::BudgetExceeded)
            &&& !spent ==> after.phase is Observing
            &&& !spent ==> after.soft_reported == (m.soft_reported || soft)
            &&& !spent && soft && !m.soft_reported ==> after.trace.len() == m.trace.len() + 1
                && after.trace.last().kind == TraceEventKind::SoftBudgetReached
            &&& !spent && (!soft || m.soft_reported) ==> after.trace == m.trace
        }),
{
}

/// What is observed is what candidates are built for, and what was built is what
/// is decided between: nothing is exchanged on the way, and each is told in the
/// trace.
pub proof fn rounds_decide_on_what_was_seen(
    m: RunModel,
    o: ObservationModel,
    cs: Seq<CandidateModel>,
)
    ensures
        m.phase is Observing ==> {
            let after = stepped(m, EventModel::Observed(o));
            &&& after.phase == PhaseModel::Building(o)
            &&& after.trace.len() == m.trace.len() + 1
            &&& after.trace.last().kind == TraceEventKind::Observed
            &&& after.trace.last().observation_revision == Some(o.revision)
            &&& after.trace.last().detail == o.fingerprint
        },
        m.phase == PhaseModel::Building(o) ==> {
            let after = stepped(m, EventModel::Offered(cs));
            let proper = candidate_fault(o, cs) is None;
            &&& !proper ==> after.phase == PhaseModel::Failed(candidate_fault(o, cs)->Some_0)
                && after.trace == m.trace
            &&& proper && m.enhanced && !m.jev ==> after.phase is Failed && after.phase->Failed_0.0
                == ErrorKind::EnhancedUnavailable
            &&& proper && (!m.enhanced || m.jev) ==> after.phase == PhaseModel::Deciding(o, cs)
            &&& proper ==> after.trace.len() == m.trace.len() + 1 && after.trace.last().kind
                == TraceEventKind::CandidatesBuilt && after.trace.last().observation_revision
                == Some(o.revision)
        },
{
}

/// Why candidates are refused: that there are none, too many, one without a name
/// of its own, or one of another observation.
pub proof fn refused_candidates_are_faulty(o: ObservationModel, cs: Seq<CandidateModel>)
    ensures
        candidate_fault(o, cs) matches Some(e) ==> e.0 == ErrorKind::Candidates,
        cs.len() == 0 ==> candidate_fault(o, cs) is Some,
        cs.len() > 255 ==> candidate_fault(o, cs) is Some,
        forall|i: int|
            0 <= i < cs.len() && (#[trigger] cs[i]).observation_revision != o.revision
                ==> candidate_fault(o, cs) is Some,
        forall|i: int|
            0 <= i < cs.len() && text::all_white((#[trigger] cs[i]).id) ==> candidate_fault(o, cs)
                is Some,
        forall|i: int, j: int|
            0 <= i < j < cs.len() && (#[trigger] cs[i]).id == (#[trigger] cs[j]).id
                ==> candidate_fault(o, cs) is Some,
{
    accepted_candidates(o, cs);
    faults_are_of_candidates(o, cs, 0);
    assert forall|i: int| 0 <= i < cs.len() && text::all_white((#[trigger] cs[i]).id) implies
        candidate_fault(o, cs) is Some by {
        text::blank_texts_hold_only_blanks(cs[i].id);
    }
}

/// A fault of candidates is told as one.
proof fn faults_are_of_candidates(o: ObservationModel, cs: Seq<CandidateModel>, i: int)
    ensures
        fault_from(o, cs, i) matches Some(e) ==> e.0 == ErrorKind::Candidates,
    decreases cs.len() - i,
{
    if 0 <= i < cs.len() {
        faults_are_of_candidates(o, cs, i + 1);
    }
}

/// Where an id is looked for, the first candidate of that id is found, and none
/// only where there is none.
proof fn found_id_is_the_first(cs: Seq<CandidateModel>, id: Seq<char>)
    ensures
        match find_id(cs, id) {
            Some(c) => exists|i: int|
                0 <= i < cs.len() && #[trigger] cs[i] == c && c.id == id && forall|k: int|
                    0 <= k < i ==> (#[trigger] cs[k]).id != id,
            None => forall|i: int| 0 <= i < cs.len() ==> (#[trigger] cs[i]).id != id,
        },
    decreases cs.len(),
{
    if cs.len() > 0 && cs[0].id != id {
        let rest = cs.drop_first();
        found_id_is_the_first(rest, id);
        match find_id(rest, id) {
            Some(c) => {
                let i = choose|i: int|
                    0 <= i < rest.len() && #[trigger] rest[i] == c && c.id == id && forall|k: int|
                        0 <= k < i ==> (#[trigger] rest[k]).id != id;
                assert(cs[i + 1] == c);
                assert forall|k: int| 0 <= k < i + 1 implies (#[trigger] cs[k]).id != id by {
                    if k > 0 {
                        assert(rest[k - 1] == cs[k]);
                    }
                }
            },
            None => {
                assert forall|k: int| 0 <= k < cs.len() implies (#[trigger] cs[k]).id != id by {
                    if k > 0 {
                        assert(rest[k - 1] == cs[k]);
                    }
                }
            },
        }
    } else if cs.len() > 0 {
        assert(cs[0] == find_id(cs, id)->Some_0);
    }
}

/// The candidate that was decided on is taken, and no other: it ends the run
/// where it says so, with the status for it; else the policy is asked about it.
/// A choice that was not offered breaks the run off.
pub proof fn decision_is_carried_out(
    m: RunModel,
    o: ObservationModel,
    cs: Seq<CandidateModel>,
    i: int,
    name: Option<Seq<char>>,
    usage: Option<DecisionUsage>,
)
    requires
        m.phase == PhaseModel::Deciding(o, cs),
        0 <= i < cs.len(),
        forall|k: int| 0 <= k < i ==> (#[trigger] cs[k]).id != cs[i].id,
    ensures
        ({
            let c = cs[i];
            let after = stepped(m, EventModel::Decided(c.id, name, usage));
            let told = after.trace[m.trace.len() as int];
            &&& c.kind == KindModel::Done && !m.enhanced ==> after.phase == PhaseModel::Finished(
                RunStatus::Completed,
            )
            &&& c.kind == KindModel::Done && m.enhanced ==> after.phase == PhaseModel::Finished(
                RunStatus::NeedsAttention,
            )
            &&& c.kind == KindModel::AskUser ==> after.phase == PhaseModel::Finished(
                RunStatus::WaitingForUser,
            )
            &&& c.kind == KindModel::CannotProceed ==> after.phase == PhaseModel::Finished(
                RunStatus::FailedSafely,
            )
            &&& !(c.kind is Done || c.kind is AskUser || c.kind is CannotProceed) ==> after.phase
                == PhaseModel::Judging(o, c)
            &&& after.trace.len() > m.trace.len()
            &&& told.kind == TraceEventKind::DecisionMade
            &&& told.observation_revision == Some(o.revision)
            &&& told.candidate_id == Some(c.id)
            &&& after.executed_steps == m.executed_steps
        }),
        forall|id: Seq<char>|
            (forall|k: int| 0 <= k < cs.len() ==> (#[trigger] cs[k]).id != id) ==> (
            #[trigger] stepped(m, EventModel::Decided(id, name, usage))).phase
                == PhaseModel::Failed((ErrorKind::UnknownCandidate, id)),
{
    found_id_is_the_first(cs, cs[i].id);
    assert(find_id(cs, cs[i].id) == Some(cs[i])) by {
        let c = find_id(cs, cs[i].id)->Some_0;
        let at = choose|at: int|
            0 <= at < cs.len() && #[trigger] cs[at] == c && c.id == cs[i].id && forall|k: int|
                0 <= k < at ==> (#[trigger] cs[k]).id != cs[i].id;
        if at < i {
            assert(cs[at].id != cs[i].id);
        } else if i < at {
            assert(cs[i].id != cs[i].id);
        }
    }
    assert forall|id: Seq<char>|
        (forall|k: int| 0 <= k < cs.len() ==> (#[trigger] cs[k]).id != id) implies (
    #[trigger] stepped(m, EventModel::Decided(id, name, usage))).phase == PhaseModel::Failed(
        (ErrorKind::UnknownCandidate, id),
    ) by {
        found_id_is_the_first(cs, id);
    }
}

/// What the policy says is done: an action that it allows is prepared, and it is
/// that action; one that it holds back waits for the user, one that it denies
/// ends the run safely, each with the policy's own words.
pub proof fn policy_is_obeyed(
    m: RunModel,
    o: ObservationModel,
    c: CandidateModel,
    reason: Seq<char>,
)
    requires
        m.phase == PhaseModel::Judging(o, c),
    ensures
        stepped(m, EventModel::Allowed).phase == PhaseModel::Refreshing(o, c),
        stepped(m, EventModel::Allowed).trace.len() == m.trace.len() + 1,
        stepped(m, EventModel::Allowed).trace.last().kind == TraceEventKind::PolicyAllowed,
        stepped(m, EventModel::Allowed).trace.last().candidate_id == Some(c.id),
        stepped(m, EventModel::Held(reason)).phase == PhaseModel::Finished(
            RunStatus::WaitingForUser,
        ),
        stepped(m, EventModel::Held(reason)).trace.last().detail == reason,
        stepped(m, EventModel::Denied(reason)).phase == PhaseModel::Finished(
            RunStatus::FailedSafely,
        ),
        stepped(m, EventModel::Denied(reason)).trace.last().detail == reason,
{
}

/// An action is dispatched exactly where the desktop is still what it was when
/// the action was chosen; else the round begins anew and nothing was done.
pub proof fn changed_desktop_starts_over(
    m: RunModel,
    o: ObservationModel,
    c: CandidateModel,
    fresh: ObservationModel,
)
    requires
        m.phase == PhaseModel::Refreshing(o, c),
    ensures
        ({
            let after = stepped(m, EventModel::Observed(fresh));
            let same = fresh.revision == c.observation_revision && fresh.fingerprint
                == o.fingerprint;
            &&& same ==> after.phase == PhaseModel::Dispatching(fresh, c, None) && after.trace
                == m.trace
            &&& !same ==> after.phase is Start && after.trace.len() == m.trace.len() + 1
                && after.trace.last().kind == TraceEventKind::StaleObservation
            &&& after.executed_steps == m.executed_steps
            &&& after.stall_count == m.stall_count
        }),
{
}

/// A dispatch that is confirmed for the action counts as a step and is watched;
/// a receipt for another action breaks the run off, and counts for nothing.
pub proof fn receipt_belongs_to_the_action(
    m: RunModel,
    fresh: ObservationModel,
    c: CandidateModel,
    input: Option<Seq<char>>,
    receipt: ReceiptModel,
    after: ObservationModel,
)
    requires
        m.phase == PhaseModel::Dispatching(fresh, c, input),
    ensures
        ({
            let done = stepped(m, EventModel::Executed(receipt));
            let watched = stepped(done, EventModel::Observed(after));
            &&& receipt.candidate_id == c.id ==> {
                &&& done.phase == PhaseModel::Watching(fresh, c, receipt)
                &&& done.executed_steps == m.executed_steps + 1
                &&& done.trace.len() == m.trace.len() + 1
                &&& done.trace.last().kind == TraceEventKind::Executed
                &&& done.trace.last().candidate_id == Some(c.id)
                &&& watched.phase == PhaseModel::Verifying(fresh, c, receipt, after)
                &&& watched.executed_steps == done.executed_steps
            }
            &&& receipt.candidate_id != c.id ==> {
                &&& done.phase matches PhaseModel::Failed(e) && e.0 == ErrorKind::Execution
                &&& done.executed_steps == m.executed_steps
                &&& done.trace == m.trace
            }
        }),
{
}

/// Work outside that failed breaks the run off with that failure; nothing else
/// of the run changes.
pub proof fn failure_breaks_the_run_off(m: RunModel, error: (ErrorKind, Seq<char>))
    requires
        !m.over(),
    ensures
        stepped(m, EventModel::Broken(error)) == (RunModel {
            phase: PhaseModel::Failed(error),
            ..m
        }),
{
}

/// What is written of a decision names the model that decided, where it is
/// known, and the tokens that it took, where these are.
pub proof fn decision_names_its_model(name: Seq<char>, usage: DecisionUsage)
    ensures
        decision_detail(Some(name), None) == name,
        text::begins(decision_detail(Some(name), Some(usage)), name),
        text::finishes(
            decision_detail(Some(name), Some(usage)),
            text::decimal_text(usage.output_tokens as nat),
        ),
        decision_detail(Some(name), Some(usage)) == name + "; usage input="@ + text::decimal_text(
            usage.input_tokens as nat,
        ) + " output="@ + text::decimal_text(usage.output_tokens as nat),
{
    let all = decision_detail(Some(name), Some(usage));
    let out = text::decimal_text(usage.output_tokens as nat);
    assert(all.take(name.len() as int) =~= name);
    assert(all.skip(all.len() - out.len()) =~= out);
}

/// A saved locator is looked for in its application and window, and in the menu
/// where one of its ancestors is marked as the menu.
pub proof fn locators_are_looked_for_where_they_belong(l: LocatorModel, i: int)
    ensures
        locator_scope_model(l).app_id == Some(l.app_id),
        locator_scope_model(l).window_id == l.window_id,
        0 <= i < l.ancestor_chain.len() && l.ancestor_chain[i].automation_id == Some(
            "nuphus:scope:menu"@,
        ) ==> locator_scope_model(l).subtree_id == Some("@menu"@),
        (forall|k: int|
            0 <= k < l.ancestor_chain.len() ==> (#[trigger] l.ancestor_chain[k]).automation_id
                != Some("nuphus:scope:menu"@)) ==> locator_scope_model(l).subtree_id is None,
{
}

} // verus!
