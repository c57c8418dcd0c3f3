use cadrum::sweep::{sweep_step, SweepAction, SweepEvent, SweepFold};

fn run(events: &[SweepEvent]) -> (SweepFold, SweepAction) {
    let mut state = SweepFold::Empty;
    let mut last = SweepAction::Ignore;
    for e in events {
        let (next, action) = sweep_step(state, *e);
        state = next;
        last = action;
    }
    (state, last)
}

#[test]
fn no_faces_return_nothing() {
    assert_eq!(run(&[SweepEvent::NoMoreFaces]), (SweepFold::Done, SweepAction::ReturnEmpty));
}

#[test]
fn one_face_returns_its_solid() {
    assert_eq!(sweep_step(SweepFold::Empty, SweepEvent::Swept), (SweepFold::Holding, SweepAction::TakeSwept));
    assert_eq!(
        run(&[SweepEvent::Swept, SweepEvent::NoMoreFaces]),
        (SweepFold::Done, SweepAction::ReturnResult)
    );
}

#[test]
fn later_faces_are_united() {
    assert_eq!(
        sweep_step(SweepFold::Holding, SweepEvent::Swept),
        (SweepFold::Merging, SweepAction::UnionWithResult)
    );
    assert_eq!(sweep_step(SweepFold::Merging, SweepEvent::Unioned), (SweepFold::Holding, SweepAction::TakeUnion));
    let events = [
        SweepEvent::Swept,
        SweepEvent::Swept,
        SweepEvent::Unioned,
        SweepEvent::Swept,
        SweepEvent::Unioned,
        SweepEvent::NoMoreFaces,
    ];
    assert_eq!(run(&events), (SweepFold::Done, SweepAction::ReturnResult));
}

#[test]
fn failures_end_the_fold() {
    assert_eq!(sweep_step(SweepFold::Empty, SweepEvent::SweepFailed), (SweepFold::Failed, SweepAction::ReturnError));
    assert_eq!(sweep_step(SweepFold::Holding, SweepEvent::SweepFailed), (SweepFold::Failed, SweepAction::ReturnError));
    assert_eq!(sweep_step(SweepFold::Merging, SweepEvent::UnionFailed), (SweepFold::Failed, SweepAction::ReturnError));
    assert_eq!(sweep_step(SweepFold::Failed, SweepEvent::Swept), (SweepFold::Failed, SweepAction::Ignore));
    assert_eq!(sweep_step(SweepFold::Done, SweepEvent::NoMoreFaces), (SweepFold::Done, SweepAction::Ignore));
}

#[test]
fn out_of_order_events_are_ignored() {
    assert_eq!(sweep_step(SweepFold::Empty, SweepEvent::Unioned), (SweepFold::Empty, SweepAction::Ignore));
    assert_eq!(sweep_step(SweepFold::Merging, SweepEvent::Swept), (SweepFold::Merging, SweepAction::Ignore));
}
