//! Playbooks: which action answers which attack.
//!
//! Playbooks are tried in order, and the first that fits the attack is
//! taken. Its steps are listed from the weakest to the strongest, and the
//! strongest step whose preconditions hold is the one selected, so a step
//! that asks for persistence is reached only once the attack has gone on.

use vstd::prelude::*;

use crate::action::{rate_matches_kind, Action};
use crate::config::PolicyProfile;
use crate::domain::{ActionParams, ActionType, AttackVector};
use crate::search::{lemma_first_where_is, position};

verus! {

/// One step of a playbook.
#[derive(Clone, Copy, Debug, PartialEq, Eq, Structural)]
pub struct PlaybookStep {
    pub action: ActionType,
    /// The rate of a policing step.
    pub rate_bps: Option<u64>,
    /// How long the mitigation lives; the default where nothing is given.
    pub ttl_seconds: Option<u32>,
    /// In millionths.
    pub require_confidence_at_least: Option<u32>,
    pub require_persistence_seconds: Option<u32>,
}

/// The steps that answer one kind of attack.
#[derive(Debug)]
pub struct Playbook {
    pub name: String,
    pub vector: AttackVector,
    /// Whether the attacked ports must be ports of the victim's service.
    pub require_top_ports: bool,
    /// From the weakest to the strongest.
    pub steps: Vec<PlaybookStep>,
}

/// The mathematical content of a [`Playbook`].
pub struct PlaybookView {
    pub name: Seq<char>,
    pub vector: AttackVector,
    pub require_top_ports: bool,
    pub steps: Seq<PlaybookStep>,
}

impl View for Playbook {
    type V = PlaybookView;

    open spec fn view(&self) -> PlaybookView {
        PlaybookView {
            name: self.name@,
            vector: self.vector,
            require_top_ports: self.require_top_ports,
            steps: self.steps@,
        }
    }
}

/// The views of a list of playbooks, in order.
pub open spec fn playbook_views(playbooks: Seq<Playbook>) -> Seq<PlaybookView> {
    playbooks.map_values(|p: Playbook| p@)
}

/// What an attack looks like to the selector.
pub struct Attack {
    pub vector: AttackVector,
    pub top_ports: Vec<u16>,
    /// In millionths.
    pub confidence: Option<u32>,
    /// For how many seconds a mitigation of the same scope has existed;
    /// `None` where there is none.
    pub persistence_seconds: Option<u32>,
    /// The ports of the victim's service.
    pub service_ports: Vec<u16>,
}

/// The mathematical content of an [`Attack`].
pub struct AttackView {
    pub vector: AttackVector,
    pub top_ports: Seq<u16>,
    pub confidence: Option<u32>,
    pub persistence_seconds: Option<u32>,
    pub service_ports: Seq<u16>,
}

impl View for Attack {
    type V = AttackView;

    open spec fn view(&self) -> AttackView {
        AttackView {
            vector: self.vector,
            top_ports: self.top_ports@,
            confidence: self.confidence,
            persistence_seconds: self.persistence_seconds,
            service_ports: self.service_ports@,
        }
    }
}

/// Whether two lists of ports have a port in common.
pub open spec fn intersects(a: Seq<u16>, b: Seq<u16>) -> bool {
    exists|i: int, j: int| 0 <= i < a.len() && 0 <= j < b.len() && #[trigger] a[i] == #[trigger] b[j]
}

/// The playbooks that fit an attack.
pub open spec fn fits(attack: AttackView) -> spec_fn(PlaybookView) -> bool {
    |p: PlaybookView|
        p.vector == attack.vector && (!p.require_top_ports || intersects(
            attack.top_ports,
            attack.service_ports,
        ))
}

/// Whether the preconditions of a step hold.
pub open spec fn step_ready(
    step: PlaybookStep,
    confidence: Option<u32>,
    persistence_seconds: Option<u32>,
) -> bool {
    &&& match step.require_confidence_at_least {
        Some(least) => confidence is Some && confidence->0 >= least,
        None => true,
    }
    &&& match step.require_persistence_seconds {
        Some(least) => persistence_seconds is Some && persistence_seconds->0 >= least,
        None => true,
    }
}

/// The position of the strongest of the first `n` steps whose preconditions
/// hold: the last such position, or -1 where there is none.
pub open spec fn strongest_ready(
    steps: Seq<PlaybookStep>,
    confidence: Option<u32>,
    persistence_seconds: Option<u32>,
    n: int,
) -> int
    decreases n,
{
    if n <= 0 {
        -1
    } else if step_ready(steps[n - 1], confidence, persistence_seconds) {
        n - 1
    } else {
        strongest_ready(steps, confidence, persistence_seconds, n - 1)
    }
}

/// The step that answers an attack: the strongest ready step of the first
/// playbook that fits; `None` where no playbook fits or no step is ready.
pub open spec fn selected_step(playbooks: Seq<PlaybookView>, attack: AttackView) -> Option<
    PlaybookStep,
> {
    let p = position(playbooks, fits(attack));
    if p >= playbooks.len() {
        None
    } else {
        let steps = playbooks[p].steps;
        let s = strongest_ready(
            steps,
            attack.confidence,
            attack.persistence_seconds,
            steps.len() as int,
        );
        if s < 0 {
            None
        } else {
            Some(steps[s])
        }
    }
}

/// The action of a step for a customer: a strict customer's traffic is
/// discarded where the step would police it. A rate is kept only for
/// policing.
pub open spec fn action_for(step: PlaybookStep, profile: PolicyProfile) -> Action {
    if step.action == ActionType::Police && profile != PolicyProfile::Strict {
        Action { kind: ActionType::Police, params: ActionParams { rate_bps: step.rate_bps } }
    } else if step.action == ActionType::Police {
        Action { kind: ActionType::Discard, params: ActionParams { rate_bps: None } }
    } else {
        Action { kind: step.action, params: ActionParams { rate_bps: None } }
    }
}

/// The strongest ready step is ready, and no stronger step is.
pub proof fn lemma_strongest_ready(
    steps: Seq<PlaybookStep>,
    confidence: Option<u32>,
    persistence_seconds: Option<u32>,
    n: int,
)
    requires
        0 <= n <= steps.len(),
    ensures
        -1 <= strongest_ready(steps, confidence, persistence_seconds, n) < n,
        strongest_ready(steps, confidence, persistence_seconds, n) >= 0 ==> step_ready(
            steps[strongest_ready(steps, confidence, persistence_seconds, n)],
            confidence,
            persistence_seconds,
        ),
        forall|k: int|
            strongest_ready(steps, confidence, persistence_seconds, n) < k < n ==> !step_ready(
                #[trigger] steps[k],
                confidence,
                persistence_seconds,
            ),
    decreases n,
{
    if n > 0 && !step_ready(steps[n - 1], confidence, persistence_seconds) {
        lemma_strongest_ready(steps, confidence, persistence_seconds, n - 1);
    }
}

/// An action that a playbook step gives has a rate exactly when it polices,
/// unless the step polices without naming a rate; and a strict customer's
/// traffic is never policed.
pub proof fn lemma_action_for_rate(step: PlaybookStep, profile: PolicyProfile)
    ensures
        rate_matches_kind(action_for(step, profile).kind, action_for(step, profile).params) || (
        step.action == ActionType::Police && step.rate_bps is None),
        action_for(step, profile).params.rate_bps is Some ==> action_for(step, profile).kind
            == ActionType::Police,
        profile == PolicyProfile::Strict ==> action_for(step, profile).kind != ActionType::Police,
{
}

/// Tells whether two lists of ports have a port in common.
pub fn ports_intersect(a: &Vec<u16>, b: &Vec<u16>) -> (yes: bool)
    ensures
        yes == intersects(a@, b@),
{
    let mut i: usize = 0;
    while i < a.len()
        invariant
            i <= a.len(),
            forall|x: int, y: int| 0 <= x < i && 0 <= y < b.len() ==> #[trigger] a@[x] != #[trigger] b@[y],
        decreases a.len() - i,
    {
        let mut j: usize = 0;
        while j < b.len()
            invariant
                i < a.len(),
                j <= b.len(),
                forall|y: int| 0 <= y < j ==> a@[i as int] != #[trigger] b@[y],
            decreases b.len() - j,
        {
            if a[i] == b[j] {
                return true;
            }
            j = j + 1;
        }
        i = i + 1;
    }
    false
}

/// Tells whether the preconditions of a step hold.
pub fn is_ready(step: &PlaybookStep, confidence: Option<u32>, persistence_seconds: Option<u32>) -> (yes:
    bool)
    ensures
        yes == step_ready(*step, confidence, persistence_seconds),
{
    let confident = match step.require_confidence_at_least {
        Some(least) => match confidence {
            Some(c) => c >= least,
            None => false,
        },
        None => true,
    };
    let persistent = match step.require_persistence_seconds {
        Some(least) => match persistence_seconds {
            Some(p) => p >= least,
            None => false,
        },
        None => true,
    };
    confident && persistent
}

/// Selects the step that answers an attack.
pub fn select_step(playbooks: &Vec<Playbook>, attack: &Attack) -> (step: Option<PlaybookStep>)
    ensures
        step == selected_step(playbook_views(playbooks@), attack@),
{
    let ghost views = playbook_views(playbooks@);
    let ghost pred = fits(attack@);
    let on_service = ports_intersect(&attack.top_ports, &attack.service_ports);
    let mut p: usize = 0;
    let mut found = false;
    while p < playbooks.len() && !found
        invariant
            p <= playbooks.len(),
            views == playbook_views(playbooks@),
            pred == fits(attack@),
            on_service == intersects(attack@.top_ports, attack@.service_ports),
            forall|k: int| 0 <= k < p ==> !pred(#[trigger] views[k]),
            found ==> p < playbooks.len() && pred(views[p as int]),
        decreases playbooks.len() - p + (if found { 0int } else { 1int }),
    {
        let pb = &playbooks[p];
        assert(views[p as int] == pb@);
        if pb.vector == attack.vector && (!pb.require_top_ports || on_service) {
            found = true;
        } else {
            p = p + 1;
        }
    }
    proof {
        lemma_first_where_is(views, pred, 0, p as int);
    }
    if !found {
        return None;
    }
    let pb = &playbooks[p];
    assert(views[p as int] == pb@);
    let mut n: usize = pb.steps.len();
    while n > 0 && !is_ready(&pb.steps[n - 1], attack.confidence, attack.persistence_seconds)
        invariant
            n <= pb.steps.len(),
            strongest_ready(
                pb.steps@,
                attack.confidence,
                attack.persistence_seconds,
                pb.steps.len() as int,
            ) == strongest_ready(pb.steps@, attack.confidence, attack.persistence_seconds, n as int),
        decreases n,
    {
        n = n - 1;
    }
    if n == 0 {
        None
    } else {
        Some(pb.steps[n - 1])
    }
}

/// The action of a step for a customer.
pub fn step_action(step: &PlaybookStep, profile: PolicyProfile) -> (action: Action)
    ensures
        action == action_for(*step, profile),
{
    match step.action {
        ActionType::Police => match profile {
            PolicyProfile::Strict => Action::discard(),
            _ => Action {
                kind: ActionType::Police,
                params: ActionParams { rate_bps: step.rate_bps },
            },
        },
        ActionType::Discard => Action::discard(),
        ActionType::Redirect => Action::redirect(),
    }
}

} // verus!
