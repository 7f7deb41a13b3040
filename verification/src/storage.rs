//! A model of the storage directory: which files exist and what they hold.
//!
//! The model says what each [`StorageAction`](crate::upload::StorageAction)
//! does to a storage that never fails, and so what an upload session brings
//! about when a caller carries out its actions one after the other.

use vstd::prelude::*;
use crate::text::inside;
use crate::upload::{
    first_action, initial_session, upload_step, ActionView, EventView, OutcomeView, SessionView,
    StepView, UploadPhase, UploadRequestView,
};

verus! {

/// The files of the storage: the content of each file, by its path.
pub type Files = Map<Seq<char>, Seq<u8>>;

/// The paths below the directory `dir`.
pub open spec fn below(dir: Seq<char>) -> Set<Seq<char>> {
    Set::new(|path: Seq<char>| inside(dir, path))
}

/// What an action does to a storage that does not fail: the files after it
/// and the event that reports it. Reading or appending to a file that does
/// not exist fails and changes nothing.
pub open spec fn effect(files: Files, action: ActionView) -> (Files, EventView) {
    match action {
        ActionView::CreateDirAll { path } => (files, EventView::Done),
        ActionView::WriteFile { path, data } => (files.insert(path, data), EventView::Done),
        ActionView::Exists { path } => (files, EventView::Found(files.dom().contains(path))),
        ActionView::CreateFile { path } => (files.insert(path, Seq::empty()), EventView::Done),
        ActionView::ReadFile { path } => if files.dom().contains(path) {
            (files, EventView::Data(files[path]))
        } else {
            (files, EventView::Failed)
        },
        ActionView::Append { path, data } => if files.dom().contains(path) {
            (files.insert(path, files[path] + data), EventView::Done)
        } else {
            (files, EventView::Failed)
        },
        ActionView::Flush { path } => (files, EventView::Done),
        ActionView::RemoveDirAll { path } => (files.remove_keys(below(path)), EventView::Done),
    }
}

/// How many segments from `index` on an upload of `total` segments has.
pub open spec fn segments_left(index: usize, total: usize) -> nat {
    if index < total {
        (total - index) as nat
    } else {
        0
    }
}

/// A bound on the number of actions that a session can still ask for.
pub open spec fn steps_left(s: SessionView) -> nat {
    match s.phase {
        UploadPhase::CreatingDir => 3 * s.total_segments as nat + 10,
        UploadPhase::WritingSegment => 3 * s.total_segments as nat + 9,
        UploadPhase::Probing { index, missing } => 2 * s.total_segments as nat + 8 + segments_left(
            index,
            s.total_segments,
        ),
        UploadPhase::CreatingMerged => 2 * s.total_segments as nat + 7,
        UploadPhase::Reading { index } => 2 * segments_left(index, s.total_segments) + 6,
        UploadPhase::Appending { index } => 2 * segments_left(index, s.total_segments) + 5,
        UploadPhase::Flushing => 3,
        UploadPhase::Cleaning => 2,
        UploadPhase::Finished => 1,
    }
}

/// The outcome of a session, and the files it leaves, when `event` reports
/// its last action and every further action is carried out on a storage that
/// does not fail.
pub open spec fn run(s: SessionView, event: EventView, files: Files) -> (OutcomeView, Files)
    decreases steps_left(s),
{
    let (next, step) = upload_step(s, event);
    match step {
        StepView::Finish(outcome) => (outcome, files),
        StepView::Perform(action) => run(next, effect(files, action).1, effect(files, action).0),
    }
}

/// The outcome of handling `request` below the storage directory `root`, and
/// the files it leaves, on a storage that does not fail.
pub open spec fn handle_upload(root: Seq<char>, request: UploadRequestView, files: Files) -> (
    OutcomeView,
    Files,
) {
    let s = initial_session(root, request);
    run(s, effect(files, first_action(s)).1, effect(files, first_action(s)).0)
}

} // verus!
