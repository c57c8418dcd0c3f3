use vstd::prelude::*;

verus! {

/// Where a fold of swept solids stands: building one solid per tool face
/// and uniting each new one with the result so far.
#[derive(Debug, Clone, Copy, PartialEq, Eq, Structural)]
pub enum SweepFold {
    /// No face swept yet.
    Empty,
    /// A result is held.
    Holding,
    /// A new solid is being united with the result.
    Merging,
    /// A sweep or a union failed; the fold is over.
    Failed,
    /// All faces were handled; the fold is over.
    Done,
}

/// What the kernel reports back to the fold.
#[derive(Debug, Clone, Copy, PartialEq, Eq, Structural)]
pub enum SweepEvent {
    /// The next face was swept into a solid.
    Swept,
    /// Sweeping the next face failed.
    SweepFailed,
    /// The union asked for succeeded.
    Unioned,
    /// The union asked for failed.
    UnionFailed,
    /// There are no more tool faces.
    NoMoreFaces,
}

/// What the caller must do next.
#[derive(Debug, Clone, Copy, PartialEq, Eq, Structural)]
pub enum SweepAction {
    /// The swept solid becomes the result.
    TakeSwept,
    /// Unite the swept solid with the result.
    UnionWithResult,
    /// The union becomes the result.
    TakeUnion,
    /// Return no solids.
    ReturnEmpty,
    /// Return the result.
    ReturnResult,
    /// Return the error just reported.
    ReturnError,
    /// The event does not apply in this state; nothing to do.
    Ignore,
}

/// The fold's transition table.
pub open spec fn spec_sweep_step(state: SweepFold, event: SweepEvent) -> (SweepFold, SweepAction) {
    match (state, event) {
        (SweepFold::Empty, SweepEvent::Swept) => (SweepFold::Holding, SweepAction::TakeSwept),
        (SweepFold::Holding, SweepEvent::Swept) => (SweepFold::Merging, SweepAction::UnionWithResult),
        (SweepFold::Merging, SweepEvent::Unioned) => (SweepFold::Holding, SweepAction::TakeUnion),
        (SweepFold::Merging, SweepEvent::UnionFailed) => (SweepFold::Failed, SweepAction::ReturnError),
        (SweepFold::Empty, SweepEvent::SweepFailed) => (SweepFold::Failed, SweepAction::ReturnError),
        (SweepFold::Holding, SweepEvent::SweepFailed) => (SweepFold::Failed, SweepAction::ReturnError),
        (SweepFold::Empty, SweepEvent::NoMoreFaces) => (SweepFold::Done, SweepAction::ReturnEmpty),
        (SweepFold::Holding, SweepEvent::NoMoreFaces) => (SweepFold::Done, SweepAction::ReturnResult),
        (s, _) => (s, SweepAction::Ignore),
    }
}

/// One step of the fold: the next state and the action the caller takes.
pub fn sweep_step(state: SweepFold, event: SweepEvent) -> (res: (SweepFold, SweepAction))
    ensures
        res == spec_sweep_step(state, event),
{
    match (state, event) {
        (SweepFold::Empty, SweepEvent::Swept) => (SweepFold::Holding, SweepAction::TakeSwept),
        (SweepFold::Holding, SweepEvent::Swept) => (SweepFold::Merging, SweepAction::UnionWithResult),
        (SweepFold::Merging, SweepEvent::Unioned) => (SweepFold::Holding, SweepAction::TakeUnion),
        (SweepFold::Merging, SweepEvent::UnionFailed) => (SweepFold::Failed, SweepAction::ReturnError),
        (SweepFold::Empty, SweepEvent::SweepFailed) => (SweepFold::Failed, SweepAction::ReturnError),
        (SweepFold::Holding, SweepEvent::SweepFailed) => (SweepFold::Failed, SweepAction::ReturnError),
        (SweepFold::Empty, SweepEvent::NoMoreFaces) => (SweepFold::Done, SweepAction::ReturnEmpty),
        (SweepFold::Holding, SweepEvent::NoMoreFaces) => (SweepFold::Done, SweepAction::ReturnResult),
        (s, _) => (s, SweepAction::Ignore),
    }
}

/// The state after feeding `events` to the fold from `state`, and the last
/// action asked for (`Ignore` when there were no events).
pub open spec fn sweep_run(state: SweepFold, events: Seq<SweepEvent>) -> (SweepFold, SweepAction)
    decreases events.len(),
{
    if events.len() == 0 {
        (state, SweepAction::Ignore)
    } else {
        let (next, action) = spec_sweep_step(state, events[0]);
        if events.len() == 1 {
            (next, action)
        } else {
            sweep_run(next, events.drop_first())
        }
    }
}

/// `m` further faces, each swept and then united with the result.
pub open spec fn sweep_unions(m: nat) -> Seq<SweepEvent>
    decreases m,
{
    if m == 0 {
        Seq::empty()
    } else {
        seq![SweepEvent::Swept, SweepEvent::Unioned] + sweep_unions((m - 1) as nat)
    }
}

/// The events of a fold over `k` tool faces in which every sweep and every
/// union succeeds.
pub open spec fn sweep_success(k: nat) -> Seq<SweepEvent> {
    if k == 0 {
        seq![SweepEvent::NoMoreFaces]
    } else {
        seq![SweepEvent::Swept] + sweep_unions((k - 1) as nat) + seq![SweepEvent::NoMoreFaces]
    }
}

proof fn lemma_unions_then_finish(m: nat)
    ensures
        sweep_run(SweepFold::Holding, sweep_unions(m) + seq![SweepEvent::NoMoreFaces])
            == (SweepFold::Done, SweepAction::ReturnResult),
    decreases m,
{
    let evs = sweep_unions(m) + seq![SweepEvent::NoMoreFaces];
    if m == 0 {
        assert(evs =~= seq![SweepEvent::NoMoreFaces]);
    } else {
        let rest = sweep_unions((m - 1) as nat) + seq![SweepEvent::NoMoreFaces];
        lemma_unions_then_finish((m - 1) as nat);
        assert(evs =~= seq![SweepEvent::Swept, SweepEvent::Unioned] + rest);
        assert(evs.drop_first() =~= seq![SweepEvent::Unioned] + rest);
        assert(evs.drop_first().drop_first() =~= rest);
        assert(evs[0] == SweepEvent::Swept);
        assert(evs.drop_first()[0] == SweepEvent::Unioned);
        assert(rest.len() >= 1);
        assert(sweep_run(SweepFold::Merging, evs.drop_first()) == sweep_run(SweepFold::Holding, rest));
        assert(sweep_run(SweepFold::Holding, evs) == sweep_run(SweepFold::Merging, evs.drop_first()));
    }
}

/// A fold over no tool faces returns no solids; a fold over one or more
/// faces in which every sweep and union succeeds returns its result.
pub proof fn law_sweep_success(k: nat)
    ensures
        sweep_run(SweepFold::Empty, sweep_success(k)).1 == (if k == 0 {
            SweepAction::ReturnEmpty
        } else {
            SweepAction::ReturnResult
        }),
        sweep_run(SweepFold::Empty, sweep_success(k)).0 == SweepFold::Done,
{
    if k == 0 {
        assert(sweep_success(k)[0] == SweepEvent::NoMoreFaces);
    } else {
        let rest = sweep_unions((k - 1) as nat) + seq![SweepEvent::NoMoreFaces];
        lemma_unions_then_finish((k - 1) as nat);
        assert(sweep_success(k) =~= seq![SweepEvent::Swept] + rest);
        assert(sweep_success(k).drop_first() =~= rest);
        assert(sweep_success(k)[0] == SweepEvent::Swept);
        assert(rest.len() >= 1);
        assert(sweep_run(SweepFold::Empty, sweep_success(k)) == sweep_run(SweepFold::Holding, rest));
    }
}

/// A failed sweep or union ends the fold with the error, and once the fold
/// is over no event asks for anything more.
pub proof fn law_sweep_failure_is_final(state: SweepFold, event: SweepEvent)
    ensures
        (state == SweepFold::Empty || state == SweepFold::Holding) && event == SweepEvent::SweepFailed
            ==> spec_sweep_step(state, event) == (SweepFold::Failed, SweepAction::ReturnError),
        state == SweepFold::Merging && event == SweepEvent::UnionFailed
            ==> spec_sweep_step(state, event) == (SweepFold::Failed, SweepAction::ReturnError),
        state == SweepFold::Failed || state == SweepFold::Done
            ==> spec_sweep_step(state, event) == (state, SweepAction::Ignore),
{
}

/// The first swept solid becomes the result, every later one is united
/// with the result, and each successful union becomes the new result.
pub proof fn law_sweep_unites_each_new_solid()
    ensures
        spec_sweep_step(SweepFold::Empty, SweepEvent::Swept) == (SweepFold::Holding, SweepAction::TakeSwept),
        spec_sweep_step(SweepFold::Holding, SweepEvent::Swept) == (SweepFold::Merging, SweepAction::UnionWithResult),
        spec_sweep_step(SweepFold::Merging, SweepEvent::Unioned) == (SweepFold::Holding, SweepAction::TakeUnion),
        spec_sweep_step(SweepFold::Empty, SweepEvent::NoMoreFaces) == (SweepFold::Done, SweepAction::ReturnEmpty),
        spec_sweep_step(SweepFold::Holding, SweepEvent::NoMoreFaces) == (SweepFold::Done, SweepAction::ReturnResult),
{
}

} // verus!
