//! Submodule setup of a worktree as a state machine: from the current state
//! and the answer to the last action, the next state and the next action.
//! The caller performs each action (inspecting clones, attaching a
//! submodule, cloning, hardening) and answers with what happened.
use vstd::prelude::*;

use crate::config::SubmoduleSharing;
use crate::submodules::{duplicates_view, first_refusal, migration_check, record_clones, record_share_result, SubmoduleOutcome};
use crate::text::owned;

verus! {

/// Where submodule setup stands.
#[derive(Clone, Copy, Debug, PartialEq, Eq, Structural)]
pub enum SetupPhase {
    /// Waiting for the inspection of this worktree's isolated clones.
    Inspecting,
    /// Attaching the wanted submodules to the shared store, one at a time.
    Sharing,
    /// Waiting for the batch clone of the submodules that were not shared.
    Cloning,
    /// Hardening the gitdirs of the isolated clones, one at a time.
    Hardening,
    /// Done, or refused.
    Finished,
}

/// What setup asks to be done next.
pub enum SetupAction {
    /// Inspect this worktree's isolated clones of the wanted submodules;
    /// answer with `Inspected`.
    Inspect,
    /// Stop with this message; nothing has been migrated or removed.
    Refuse(String),
    /// Attach the wanted submodule at this index to the shared store,
    /// migrating its isolated clone if it has one; answer with
    /// `ShareAttempted`.
    Share(usize),
    /// Clone these submodules in isolation, in one `submodule update`;
    /// answer with `Cloned`.
    Clone(Vec<String>),
    /// Harden the gitdirs of this isolated clone, the worktree's own and
    /// the main worktree's; answer with `Hardened`.
    Harden(String),
    /// Setup is complete; the counts are in the state.
    Finish,
}

pub enum SetupActionView {
    Inspect,
    Refuse(Seq<char>),
    Share(nat),
    Clone(Seq<Seq<char>>),
    Harden(Seq<char>),
    Finish,
}

impl View for SetupAction {
    type V = SetupActionView;

    open spec fn view(&self) -> SetupActionView {
        match self {
            SetupAction::Inspect => SetupActionView::Inspect,
            SetupAction::Refuse(m) => SetupActionView::Refuse(m@),
            SetupAction::Share(i) => SetupActionView::Share(*i as nat),
            SetupAction::Clone(paths) => SetupActionView::Clone(paths.deep_view()),
            SetupAction::Harden(p) => SetupActionView::Harden(p@),
            SetupAction::Finish => SetupActionView::Finish,
        }
    }
}

/// The answer to the last action.
pub enum SetupEvent {
    /// Each isolated clone of a wanted submodule: `(path, checkout shown to
    /// the user, dirty)`.
    Inspected(Vec<(String, String, bool)>),
    /// Whether the attach succeeded.
    ShareAttempted(bool),
    Cloned,
    Hardened,
}

pub enum SetupEventView {
    Inspected(Seq<(Seq<char>, Seq<char>, bool)>),
    ShareAttempted(bool),
    Cloned,
    Hardened,
}

impl View for SetupEvent {
    type V = SetupEventView;

    open spec fn view(&self) -> SetupEventView {
        match self {
            SetupEvent::Inspected(d) => SetupEventView::Inspected(duplicates_view(d@)),
            SetupEvent::ShareAttempted(ok) => SetupEventView::ShareAttempted(*ok),
            SetupEvent::Cloned => SetupEventView::Cloned,
            SetupEvent::Hardened => SetupEventView::Hardened,
        }
    }
}

/// The state of setup as plain values: the mode, the wanted submodules'
/// paths, the counts, the paths queued for an isolated clone, the phase,
/// and the position within the phase (the next wanted submodule while
/// sharing, the next isolated clone while hardening).
pub struct SetupView {
    pub mode: SubmoduleSharing,
    pub wanted: Seq<Seq<char>>,
    pub shared: nat,
    pub cloned: nat,
    pub skipped: nat,
    pub isolated: Seq<Seq<char>>,
    pub phase: SetupPhase,
    pub next: nat,
}

/// What holds in each phase.
pub open spec fn setup_wf(v: SetupView) -> bool {
    match v.phase {
        SetupPhase::Inspecting => v.mode == SubmoduleSharing::Shared && v.shared == 0 && v.cloned == 0
            && v.isolated.len() == 0 && v.next == 0,
        SetupPhase::Sharing => v.next < v.wanted.len() && v.shared + v.isolated.len() == v.next && v.cloned == 0,
        SetupPhase::Cloning => v.isolated.len() > 0 && v.cloned == 0 && v.shared + v.isolated.len()
            == v.wanted.len(),
        SetupPhase::Hardening => v.next < v.isolated.len() && v.shared + v.isolated.len() == v.wanted.len(),
        SetupPhase::Finished => true,
    }
}

/// Once every wanted submodule has had its attempt: clone the queued ones,
/// or finish if none is queued.
pub open spec fn after_attempts(v: SetupView) -> SetupView {
    SetupView {
        phase: if v.isolated.len() > 0 { SetupPhase::Cloning } else { SetupPhase::Finished },
        next: v.wanted.len(),
        ..v
    }
}

/// Go on sharing from the wanted submodule at `next`, if there is one.
pub open spec fn share_from(v: SetupView, next: nat) -> SetupView {
    if next < v.wanted.len() {
        SetupView { phase: SetupPhase::Sharing, next, ..v }
    } else {
        after_attempts(v)
    }
}

/// The first state: shared mode starts by inspecting the isolated clones;
/// isolated mode queues every wanted submodule for the isolated clone.
pub open spec fn setup_start(mode: SubmoduleSharing, wanted: Seq<Seq<char>>, skipped: nat) -> SetupView {
    let v = SetupView {
        mode,
        wanted,
        shared: 0,
        cloned: 0,
        skipped,
        isolated: Seq::empty(),
        phase: SetupPhase::Inspecting,
        next: 0,
    };
    if mode == SubmoduleSharing::Shared {
        v
    } else {
        after_attempts(SetupView { isolated: wanted, ..v })
    }
}

/// The state after an answer. An answer that does not fit the phase
/// changes nothing.
pub open spec fn setup_next(v: SetupView, e: SetupEventView) -> SetupView {
    match e {
        SetupEventView::Inspected(d) => if v.phase == SetupPhase::Inspecting {
            if first_refusal(d, 0) is Some {
                SetupView { phase: SetupPhase::Finished, ..v }
            } else {
                share_from(v, 0)
            }
        } else {
            v
        },
        SetupEventView::ShareAttempted(ok) => if v.phase == SetupPhase::Sharing {
            let w = if ok {
                SetupView { shared: v.shared + 1, ..v }
            } else {
                SetupView { isolated: v.isolated.push(v.wanted[v.next as int]), ..v }
            };
            share_from(w, v.next + 1)
        } else {
            v
        },
        SetupEventView::Cloned => if v.phase == SetupPhase::Cloning {
            SetupView { phase: SetupPhase::Hardening, next: 0, cloned: v.cloned + v.isolated.len(), ..v }
        } else {
            v
        },
        SetupEventView::Hardened => if v.phase == SetupPhase::Hardening {
            if v.next + 1 < v.isolated.len() {
                SetupView { next: v.next + 1, ..v }
            } else {
                SetupView { phase: SetupPhase::Finished, ..v }
            }
        } else {
            v
        },
    }
}

/// The action a state asks for.
pub open spec fn pending(v: SetupView) -> SetupActionView {
    match v.phase {
        SetupPhase::Inspecting => SetupActionView::Inspect,
        SetupPhase::Sharing => SetupActionView::Share(v.next),
        SetupPhase::Cloning => SetupActionView::Clone(v.isolated),
        SetupPhase::Hardening => SetupActionView::Harden(v.isolated[v.next as int]),
        SetupPhase::Finished => SetupActionView::Finish,
    }
}

/// The refusal an answer brings, if any: an inspection that finds a dirty
/// clone.
pub open spec fn refusal_of(v: SetupView, e: SetupEventView) -> Option<Seq<char>> {
    match e {
        SetupEventView::Inspected(d) => if v.phase == SetupPhase::Inspecting {
            first_refusal(d, 0)
        } else {
            None
        },
        _ => None,
    }
}

/// The action after an answer: the refusal, if the answer brings one, else
/// what the next state asks for.
pub open spec fn setup_action(v: SetupView, e: SetupEventView) -> SetupActionView {
    match refusal_of(v, e) {
        Some(m) => SetupActionView::Refuse(m),
        None => pending(setup_next(v, e)),
    }
}

/// Every answer keeps what holds in each phase.
proof fn lemma_setup_next_wf(v: SetupView, e: SetupEventView)
    requires
        setup_wf(v),
    ensures
        setup_wf(setup_next(v, e)),
{
}

/// Nothing is migrated or removed while an isolated clone is dirty: an
/// inspection that finds a dirty clone ends setup with the refusal for the
/// first one, and from then on every answer is met with `Finish` and
/// changes nothing. An attach, which may migrate a clone, is asked for only
/// in the sharing phase, and that phase is entered only from an inspection
/// that found no dirty clone.
pub proof fn law_no_migration_while_dirty(v: SetupView, e: SetupEventView)
    requires
        setup_wf(v),
    ensures
        v.phase == SetupPhase::Inspecting && (e matches SetupEventView::Inspected(d) && first_refusal(d, 0) is Some)
            ==> setup_action(v, e) == SetupActionView::Refuse(first_refusal(e->Inspected_0, 0)->Some_0)
            && setup_next(v, e).phase == SetupPhase::Finished,
        v.phase == SetupPhase::Finished ==> setup_next(v, e) == v && setup_action(v, e) == SetupActionView::Finish,
        setup_action(v, e) is Share ==> setup_next(v, e).phase == SetupPhase::Sharing,
        setup_next(v, e).phase == SetupPhase::Sharing ==> v.phase == SetupPhase::Sharing || (v.phase
            == SetupPhase::Inspecting && (e matches SetupEventView::Inspected(d) && first_refusal(d, 0) is None)),
{
}

/// The isolated clones are made in one batch once every wanted submodule
/// has had its attempt: a clone is asked for only when each wanted
/// submodule is either shared or queued, and it names exactly the queued
/// ones.
pub proof fn law_clone_after_all_attempts(v: SetupView, e: SetupEventView)
    requires
        setup_wf(v),
    ensures
        setup_action(v, e) matches SetupActionView::Clone(paths) ==> ({
            let n = setup_next(v, e);
            &&& n.phase == SetupPhase::Cloning
            &&& paths == n.isolated
            &&& n.shared + n.isolated.len() == n.wanted.len()
        }),
        setup_next(v, e).phase == SetupPhase::Cloning ==> v.phase == SetupPhase::Cloning || v.phase
            == SetupPhase::Sharing || v.phase == SetupPhase::Inspecting,
{
    lemma_setup_next_wf(v, e);
}

/// In isolated mode nothing is inspected or attached: every wanted
/// submodule is queued for the isolated clone from the start.
pub proof fn law_isolated_mode_queues_every_submodule(wanted: Seq<Seq<char>>, skipped: nat)
    ensures
        ({
            let v = setup_start(SubmoduleSharing::Isolated, wanted, skipped);
            &&& v.isolated == wanted
            &&& v.shared == 0
            &&& v.phase == (if wanted.len() > 0 { SetupPhase::Cloning } else { SetupPhase::Finished })
        }),
{
}

/// Each isolated clone's gitdirs are hardened after the batch clone, one
/// clone at a time and in order, and setup finishes only after the last; the
/// clone counts every queued submodule.
pub proof fn law_each_clone_is_hardened(v: SetupView, e: SetupEventView)
    requires
        setup_wf(v),
    ensures
        v.phase == SetupPhase::Cloning && e is Cloned ==> setup_action(v, e) == SetupActionView::Harden(v.isolated[0])
            && setup_next(v, e).cloned == v.cloned + v.isolated.len(),
        v.phase == SetupPhase::Hardening && e is Hardened ==> setup_action(v, e) == (if v.next + 1
            < v.isolated.len() {
            SetupActionView::Harden(v.isolated[v.next + 1int])
        } else {
            SetupActionView::Finish
        }),
        setup_next(v, e).phase == SetupPhase::Hardening ==> v.phase == SetupPhase::Hardening || (v.phase
            == SetupPhase::Cloning && e is Cloned),
{
}

/// Submodule setup of one worktree.
pub struct SubmoduleSetup {
    mode: SubmoduleSharing,
    wanted: Vec<String>,
    outcome: SubmoduleOutcome,
    isolated: Vec<String>,
    phase: SetupPhase,
    next: usize,
}

impl View for SubmoduleSetup {
    type V = SetupView;

    closed spec fn view(&self) -> SetupView {
        SetupView {
            mode: self.mode,
            wanted: self.wanted.deep_view(),
            shared: self.outcome.shared as nat,
            cloned: self.outcome.cloned as nat,
            skipped: self.outcome.skipped as nat,
            isolated: self.isolated.deep_view(),
            phase: self.phase,
            next: self.next as nat,
        }
    }
}

fn copy_strings(v: &Vec<String>) -> (r: Vec<String>)
    ensures
        r.deep_view() == v.deep_view(),
{
    let mut r: Vec<String> = Vec::new();
    for i in 0..v.len()
        invariant
            r.deep_view() == v.deep_view().take(i as int),
    {
        r.push(owned(v[i].as_str()));
        assert(v.deep_view().take(i + 1) =~= v.deep_view().take(i as int).push(v@[i as int]@));
    }
    assert(v.deep_view().take(v.len() as int) =~= v.deep_view());
    r
}

impl SubmoduleSetup {
    #[verifier::type_invariant]
    closed spec fn inv(self) -> bool {
        setup_wf(self@)
    }

    /// Start setup for the wanted submodules' paths, in `mode`, after
    /// `skipped` submodules were skipped.
    pub fn start(mode: SubmoduleSharing, wanted: Vec<String>, skipped: usize) -> (r: (SubmoduleSetup, SetupAction))
        ensures
            r.0@ == setup_start(mode, wanted.deep_view(), skipped as nat),
            r.1@ == pending(r.0@),
    {
        let ghost w = wanted.deep_view();
        let outcome = SubmoduleOutcome { shared: 0, cloned: 0, skipped };
        let s = if mode == SubmoduleSharing::Shared {
            let isolated: Vec<String> = Vec::new();
            assert(isolated.deep_view() =~= Seq::<Seq<char>>::empty());
            SubmoduleSetup { mode, wanted, outcome, isolated, phase: SetupPhase::Inspecting, next: 0 }
        } else {
            let isolated = copy_strings(&wanted);
            let n = wanted.len();
            let phase = if isolated.len() > 0 { SetupPhase::Cloning } else { SetupPhase::Finished };
            SubmoduleSetup { mode, wanted, outcome, isolated, phase, next: n }
        };
        proof {
            assert(s@ =~~= setup_start(mode, w, skipped as nat));
        }
        let a = s.pending_action();
        (s, a)
    }

    /// The counts so far.
    pub fn outcome(&self) -> (r: SubmoduleOutcome)
        ensures
            r.shared == self@.shared,
            r.cloned == self@.cloned,
            r.skipped == self@.skipped,
    {
        SubmoduleOutcome { shared: self.outcome.shared, cloned: self.outcome.cloned, skipped: self.outcome.skipped }
    }

    /// The action this state asks for.
    pub fn pending_action(&self) -> (r: SetupAction)
        ensures
            r@ == pending(self@),
    {
        proof {
            use_type_invariant(self);
        }
        match self.phase {
            SetupPhase::Inspecting => SetupAction::Inspect,
            SetupPhase::Sharing => SetupAction::Share(self.next),
            SetupPhase::Cloning => SetupAction::Clone(copy_strings(&self.isolated)),
            SetupPhase::Hardening => SetupAction::Harden(owned(self.isolated[self.next].as_str())),
            SetupPhase::Finished => SetupAction::Finish,
        }
    }

    fn share_from(
        mode: SubmoduleSharing,
        wanted: Vec<String>,
        outcome: SubmoduleOutcome,
        isolated: Vec<String>,
        next: usize,
    ) -> (r: SubmoduleSetup)
        requires
            next <= wanted.len(),
            outcome.shared + isolated.len() == next,
            outcome.cloned == 0,
        ensures
            r@ == share_from(
                SetupView {
                    mode,
                    wanted: wanted.deep_view(),
                    shared: outcome.shared as nat,
                    cloned: outcome.cloned as nat,
                    skipped: outcome.skipped as nat,
                    isolated: isolated.deep_view(),
                    phase: SetupPhase::Sharing,
                    next: next as nat,
                },
                next as nat,
            ),
    {
        let n = wanted.len();
        if next < n {
            SubmoduleSetup { mode, wanted, outcome, isolated, phase: SetupPhase::Sharing, next }
        } else if isolated.len() > 0 {
            SubmoduleSetup { mode, wanted, outcome, isolated, phase: SetupPhase::Cloning, next: n }
        } else {
            SubmoduleSetup { mode, wanted, outcome, isolated, phase: SetupPhase::Finished, next: n }
        }
    }

    /// One step: the next state and action from this state and the answer
    /// to the last action.
    pub fn step(self, event: SetupEvent) -> (r: (SubmoduleSetup, SetupAction))
        ensures
            r.0@ == setup_next(self@, event@),
            r.1@ == setup_action(self@, event@),
    {
        proof {
            use_type_invariant(&self);
            lemma_setup_next_wf(self@, event@);
        }
        let ghost v = self@;
        let ghost ev = event@;
        let SubmoduleSetup { mode, wanted, outcome, isolated, phase, next } = self;
        assert(wanted.deep_view().len() == wanted.len());
        assert(isolated.deep_view().len() == isolated.len());
        match event {
            SetupEvent::Inspected(d) => {
                if phase == SetupPhase::Inspecting {
                    match migration_check(mode, &d) {
                        Some(m) => {
                            let s = SubmoduleSetup { mode, wanted, outcome, isolated, phase: SetupPhase::Finished, next };
                            proof {
                                assert(s@ =~~= setup_next(v, ev));
                            }
                            return (s, SetupAction::Refuse(m));
                        },
                        None => {
                            let s = Self::share_from(mode, wanted, outcome, isolated, 0);
                            proof {
                                assert(s@ =~~= setup_next(v, ev));
                            }
                            let a = s.pending_action();
                            return (s, a);
                        },
                    }
                }
            },
            SetupEvent::ShareAttempted(ok) => {
                if phase == SetupPhase::Sharing {
                    let path = owned(wanted[next].as_str());
                    let (o, iso) = record_share_result(outcome, isolated, path, ok);
                    let s = Self::share_from(mode, wanted, o, iso, next + 1);
                    proof {
                        assert(s@ =~~= setup_next(v, ev));
                    }
                    let a = s.pending_action();
                    return (s, a);
                }
            },
            SetupEvent::Cloned => {
                if phase == SetupPhase::Cloning {
                    let n = isolated.len();
                    let o = record_clones(outcome, n);
                    let s = SubmoduleSetup { mode, wanted, outcome: o, isolated, phase: SetupPhase::Hardening, next: 0 };
                    proof {
                        assert(s@ =~~= setup_next(v, ev));
                    }
                    let a = s.pending_action();
                    return (s, a);
                }
            },
            SetupEvent::Hardened => {
                if phase == SetupPhase::Hardening {
                    let s = if next + 1 < isolated.len() {
                        SubmoduleSetup { mode, wanted, outcome, isolated, phase, next: next + 1 }
                    } else {
                        SubmoduleSetup { mode, wanted, outcome, isolated, phase: SetupPhase::Finished, next }
                    };
                    proof {
                        assert(s@ =~~= setup_next(v, ev));
                    }
                    let a = s.pending_action();
                    return (s, a);
                }
            },
        }
        let s = SubmoduleSetup { mode, wanted, outcome, isolated, phase, next };
        proof {
            assert(s@ =~~= v);
        }
        let a = s.pending_action();
        (s, a)
    }
}

} // verus!
