//! Uploads that run side by side on one storage directory, and what a
//! listing of the registry can see while they run.
//!
//! Each upload session takes one step at a time: it carries out the action
//! it has asked for and decides what comes next. The steps of different
//! sessions interleave in any order, those of the segments of one upload
//! among them. The law proved here is that every record in the registry
//! describes a file that is in place and has the recorded size, at every
//! moment of every interleaving, as long as no two sessions merge the same
//! upload and the identifiers are plain names.

use vstd::prelude::*;
use crate::models::FileInfoView;
use crate::reassembly::lemma_merged_path_apart;
use crate::storage::{below, effect, Files};
use crate::text::inside;
use crate::upload::{
    first_action, initial_session, is_final_segment, merged_path, registry_after, segment_dir,
    segment_path, upload_step, ActionView, OutcomeView, SessionView, StepView, UploadPhase,
    UploadRequestView,
};

verus! {

/// An upload session together with the action it has asked for and that has
/// not been carried out yet.
pub struct Job {
    pub session: SessionView,
    pub pending: ActionView,
}

/// The storage directory, the registry and the upload sessions under way.
pub struct System {
    pub files: Files,
    pub registry: Seq<FileInfoView>,
    pub jobs: Seq<Job>,
}

/// Whether a session handles the last segment of its upload by index: the
/// sessions that merge.
pub open spec fn is_last(s: SessionView) -> bool {
    is_final_segment(s.segment_index as nat, s.total_segments as nat)
}

/// Whether a session may write or remove the file at `path`: everything
/// below its segment directory and, if it is the session of a last segment,
/// the merged file.
pub open spec fn touches(s: SessionView, path: Seq<char>) -> bool {
    inside(segment_dir(s.root, s.file_id), path) || (is_last(s) && path == merged_path(
        s.root,
        s.file_id,
    ))
}

/// Whether a session has not ended yet.
pub open spec fn live(s: SessionView) -> bool {
    s.phase != UploadPhase::Finished
}

/// The system after the session `k` has taken one step: its pending action
/// is carried out and the session decides what comes next; an outcome is
/// brought to the registry at once. A session that has ended does nothing.
pub open spec fn tick(sys: System, k: int) -> System {
    let job = sys.jobs[k];
    if !live(job.session) {
        sys
    } else {
        let files = effect(sys.files, job.pending).0;
        let next = upload_step(job.session, effect(sys.files, job.pending).1).0;
        match upload_step(job.session, effect(sys.files, job.pending).1).1 {
            StepView::Perform(action) => System {
                files,
                registry: sys.registry,
                jobs: sys.jobs.update(k, Job { session: next, pending: action }),
            },
            StepView::Finish(outcome) => System {
                files,
                registry: registry_after(sys.registry, outcome),
                jobs: sys.jobs.update(k, Job { session: next, pending: job.pending }),
            },
        }
    }
}

/// The system after a new upload request has arrived: one more session,
/// with its first action pending.
pub open spec fn arrive(sys: System, root: Seq<char>, request: UploadRequestView) -> System {
    System {
        jobs: sys.jobs.push(
            Job {
                session: initial_session(root, request),
                pending: first_action(initial_session(root, request)),
            },
        ),
        ..sys
    }
}

/// Whether the pending action is the one that the session asks for in its phase.
pub open spec fn pending_fits(job: Job) -> bool {
    let s = job.session;
    match s.phase {
        UploadPhase::CreatingDir => job.pending == first_action(s),
        UploadPhase::WritingSegment => job.pending matches ActionView::WriteFile { path, data }
            && path == segment_path(s.root, s.file_id, s.segment_index as nat),
        UploadPhase::Probing { index, missing } => job.pending == (ActionView::Exists {
            path: segment_path(s.root, s.file_id, index as nat),
        }),
        UploadPhase::CreatingMerged => job.pending == (ActionView::CreateFile {
            path: merged_path(s.root, s.file_id),
        }),
        UploadPhase::Reading { index } => job.pending == (ActionView::ReadFile {
            path: segment_path(s.root, s.file_id, index as nat),
        }),
        UploadPhase::Appending { index } => job.pending matches ActionView::Append { path, data }
            && path == merged_path(s.root, s.file_id),
        UploadPhase::Flushing => job.pending == (ActionView::Flush { path: merged_path(s.root, s.file_id) }),
        UploadPhase::Cleaning => job.pending == (ActionView::RemoveDirAll {
            path: segment_dir(s.root, s.file_id),
        }),
        UploadPhase::Finished => true,
    }
}

/// Whether the session is in a phase that its segment allows: only the
/// session of a last segment goes beyond storing it.
pub open spec fn phase_fits(s: SessionView) -> bool {
    match s.phase {
        UploadPhase::CreatingDir => true,
        UploadPhase::WritingSegment => true,
        UploadPhase::Finished => true,
        _ => is_last(s),
    }
}

/// Whether the merged file of a session holds as many bytes as the session
/// has counted, the bytes of a pending append being counted already.
pub open spec fn merged_size_fits(job: Job, files: Files) -> bool {
    let s = job.session;
    let merged = merged_path(s.root, s.file_id);
    match s.phase {
        UploadPhase::CreatingDir => s.merged_size == 0,
        UploadPhase::WritingSegment => s.merged_size == 0,
        UploadPhase::Probing { index, missing } => s.merged_size == 0,
        UploadPhase::CreatingMerged => s.merged_size == 0,
        UploadPhase::Appending { index } => files.dom().contains(merged) && (
        job.pending matches ActionView::Append { path, data } && files[merged].len() + data.len()
            == s.merged_size),
        UploadPhase::Finished => true,
        _ => files.dom().contains(merged) && files[merged].len() == s.merged_size,
    }
}

/// Whether a session is in order on the files.
pub open spec fn job_ok(job: Job, files: Files) -> bool {
    pending_fits(job) && phase_fits(job.session) && merged_size_fits(job, files)
}

/// Whether the file of each record is in place and has the recorded size.
pub open spec fn registry_sound(files: Files, registry: Seq<FileInfoView>) -> bool {
    forall|i: int|
        0 <= i < registry.len() ==> files.dom().contains((#[trigger] registry[i]).path)
            && files[registry[i].path].len() == registry[i].size
}

/// Whether the uploads keep out of each other's way: no session under way
/// may touch the merged file of another session that is merging, and no
/// session under way may touch the file of a record. The sessions of the
/// segments of one upload share their segment directory.
pub open spec fn apart(sys: System) -> bool {
    &&& forall|j: int, k: int|
        0 <= j < sys.jobs.len() && 0 <= k < sys.jobs.len() && j != k && live(
            (#[trigger] sys.jobs[j]).session,
        ) && live((#[trigger] sys.jobs[k]).session) && is_last(sys.jobs[k].session) ==> !touches(
            sys.jobs[j].session,
            merged_path(sys.jobs[k].session.root, sys.jobs[k].session.file_id),
        )
    &&& forall|j: int, i: int|
        0 <= j < sys.jobs.len() && 0 <= i < sys.registry.len() && live(
            (#[trigger] sys.jobs[j]).session,
        ) ==> !touches(sys.jobs[j].session, (#[trigger] sys.registry[i]).path)
}

/// What holds at every moment: the records are sound, the sessions are in
/// order, and the uploads keep out of each other's way.
pub open spec fn steady(sys: System) -> bool {
    &&& registry_sound(sys.files, sys.registry)
    &&& forall|k: int| 0 <= k < sys.jobs.len() ==> job_ok(#[trigger] sys.jobs[k], sys.files)
    &&& apart(sys)
}

/// Whether two jobs are of the same segment of the same upload.
pub open spec fn same_upload_session(a: Job, b: Job) -> bool {
    &&& a.session.root == b.session.root
    &&& a.session.file_id == b.session.file_id
    &&& a.session.segment_index == b.session.segment_index
    &&& a.session.total_segments == b.session.total_segments
}

/// A step of a session changes no file but those the session may touch.
pub proof fn lemma_step_frame(job: Job, files: Files, path: Seq<char>)
    requires
        pending_fits(job),
        phase_fits(job.session),
        live(job.session),
        !touches(job.session, path),
    ensures
        effect(files, job.pending).0.dom().contains(path) == files.dom().contains(path),
        files.dom().contains(path) ==> effect(files, job.pending).0[path] == files[path],
{
    let s = job.session;
    match s.phase {
        UploadPhase::WritingSegment => {
            lemma_merged_path_apart(s.root, s.file_id, s.segment_index as nat);
        },
        _ => {},
    }
}

/// A step of a session leaves the session in order, keeps its storage
/// directory, file identifier and numbering, and ends in the record of a
/// merged file only when the session is that of a last segment and the file
/// is in place with the recorded size.
pub proof fn lemma_own_step(job: Job, files: Files)
    requires
        job_ok(job, files),
        live(job.session),
    ensures
        upload_step(job.session, effect(files, job.pending).1).0.root == job.session.root,
        upload_step(job.session, effect(files, job.pending).1).0.file_id == job.session.file_id,
        upload_step(job.session, effect(files, job.pending).1).0.segment_index
            == job.session.segment_index,
        upload_step(job.session, effect(files, job.pending).1).0.total_segments
            == job.session.total_segments,
        match upload_step(job.session, effect(files, job.pending).1).1 {
            StepView::Perform(action) => job_ok(
                Job { session: upload_step(job.session, effect(files, job.pending).1).0, pending: action },
                effect(files, job.pending).0,
            ),
            StepView::Finish(outcome) => {
                &&& !live(upload_step(job.session, effect(files, job.pending).1).0)
                &&& outcome matches OutcomeView::Completed(record) ==> {
                    &&& is_last(job.session)
                    &&& record.path == merged_path(job.session.root, job.session.file_id)
                    &&& effect(files, job.pending).0.dom().contains(record.path)
                    &&& effect(files, job.pending).0[record.path].len() == record.size
                }
            },
        },
{
    let s = job.session;
    lemma_merged_path_apart(s.root, s.file_id, 0);
}

/// A step keeps the system steady: whichever session moves, the records
/// stay sound, the sessions stay in order, and the uploads stay apart.
pub proof fn lemma_tick_keeps_steady(sys: System, k: int)
    requires
        steady(sys),
        0 <= k < sys.jobs.len(),
    ensures
        steady(tick(sys, k)),
{
    let job = sys.jobs[k];
    let after = tick(sys, k);
    if live(job.session) {
        let files = effect(sys.files, job.pending).0;
        let (next, step) = upload_step(job.session, effect(sys.files, job.pending).1);
        lemma_own_step(job, sys.files);
        assert(after.jobs.len() == sys.jobs.len());
        assert(after.files == files);
        // records already there
        assert forall|i: int| 0 <= i < sys.registry.len() implies files.dom().contains(
            (#[trigger] sys.registry[i]).path,
        ) && files[sys.registry[i].path].len() == sys.registry[i].size by {
            assert(!touches(sys.jobs[k].session, sys.registry[i].path));
            lemma_step_frame(job, sys.files, sys.registry[i].path);
        }
        assert(registry_sound(files, after.registry)) by {
            assert forall|i: int| 0 <= i < after.registry.len() implies files.dom().contains(
                (#[trigger] after.registry[i]).path,
            ) && files[after.registry[i].path].len() == after.registry[i].size by {
                if i < sys.registry.len() {
                    assert(after.registry[i] == sys.registry[i]);
                }
            }
        }
        // the sessions
        assert forall|j: int| 0 <= j < after.jobs.len() implies job_ok(
            #[trigger] after.jobs[j],
            after.files,
        ) by {
            if j != k {
                let other = sys.jobs[j];
                assert(after.jobs[j] == other);
                assert(job_ok(other, sys.files));
                if live(other.session) && is_last(other.session) {
                    assert(!touches(
                        sys.jobs[k].session,
                        merged_path(sys.jobs[j].session.root, sys.jobs[j].session.file_id),
                    ));
                    lemma_step_frame(
                        job,
                        sys.files,
                        merged_path(other.session.root, other.session.file_id),
                    );
                }
            }
        }
        // apart
        assert forall|j: int| 0 <= j < after.jobs.len() implies same_upload_session(
            #[trigger] after.jobs[j],
            sys.jobs[j],
        ) && (live(after.jobs[j].session) ==> live(sys.jobs[j].session)) by {
            if j != k {
                assert(after.jobs[j] == sys.jobs[j]);
            }
        }
        assert forall|j: int, l: int|
            0 <= j < after.jobs.len() && 0 <= l < after.jobs.len() && j != l && live(
                (#[trigger] after.jobs[j]).session,
            ) && live((#[trigger] after.jobs[l]).session) && is_last(
                after.jobs[l].session,
            ) implies !touches(
            after.jobs[j].session,
            merged_path(after.jobs[l].session.root, after.jobs[l].session.file_id),
        ) by {
            assert(same_upload_session(after.jobs[j], sys.jobs[j]));
            assert(same_upload_session(after.jobs[l], sys.jobs[l]));
            assert(!touches(
                sys.jobs[j].session,
                merged_path(sys.jobs[l].session.root, sys.jobs[l].session.file_id),
            ));
        }
        assert forall|j: int, i: int|
            0 <= j < after.jobs.len() && 0 <= i < after.registry.len() && live(
                (#[trigger] after.jobs[j]).session,
            ) implies !touches(after.jobs[j].session, (#[trigger] after.registry[i]).path) by {
            assert(same_upload_session(after.jobs[j], sys.jobs[j]));
            assert(live(sys.jobs[j].session));
            if i < sys.registry.len() {
                assert(after.registry[i] == sys.registry[i]);
                assert(!touches(sys.jobs[j].session, sys.registry[i].path));
            } else {
                assert(j != k);
                assert(is_last(sys.jobs[k].session));
                assert(after.registry[i].path == merged_path(
                    sys.jobs[k].session.root,
                    sys.jobs[k].session.file_id,
                ));
                assert(!touches(
                    sys.jobs[j].session,
                    merged_path(sys.jobs[k].session.root, sys.jobs[k].session.file_id),
                ));
            }
        }
    }
}

/// The system after the sessions named by `schedule` have taken one step
/// each, in that order. A name that is no session's is skipped.
pub open spec fn after_ticks(sys: System, schedule: Seq<int>) -> System
    decreases schedule.len(),
{
    if schedule.len() == 0 {
        sys
    } else if 0 <= schedule.last() < after_ticks(sys, schedule.drop_last()).jobs.len() {
        tick(after_ticks(sys, schedule.drop_last()), schedule.last())
    } else {
        after_ticks(sys, schedule.drop_last())
    }
}

/// No listing sees a merged file that is not complete. In whatever order
/// the sessions take their steps, every record in the registry describes a
/// file that is in place and has the recorded size: a record enters the
/// registry only with the step that ends its session, after the merged file
/// has been written and flushed.
pub proof fn lemma_listing_sees_complete_files(sys: System, schedule: Seq<int>)
    requires
        steady(sys),
    ensures
        steady(after_ticks(sys, schedule)),
        registry_sound(after_ticks(sys, schedule).files, after_ticks(sys, schedule).registry),
    decreases schedule.len(),
{
    if schedule.len() > 0 {
        lemma_listing_sees_complete_files(sys, schedule.drop_last());
        let before = after_ticks(sys, schedule.drop_last());
        if 0 <= schedule.last() < before.jobs.len() {
            lemma_tick_keeps_steady(before, schedule.last());
        }
    }
}

/// A storage directory with no upload under way and an empty registry is steady.
pub proof fn lemma_idle_is_steady(files: Files)
    ensures
        steady(System { files, registry: Seq::empty(), jobs: Seq::empty() }),
{
}

/// A new upload request keeps the system steady if its session keeps out
/// of the way of the sessions that are merging and of the files of the
/// records, and the sessions under way out of its way if it is to merge.
pub proof fn lemma_arrival_keeps_steady(sys: System, root: Seq<char>, request: UploadRequestView)
    requires
        steady(sys),
        forall|k: int|
            0 <= k < sys.jobs.len() && live((#[trigger] sys.jobs[k]).session) && is_last(
                sys.jobs[k].session,
            ) ==> !touches(
                initial_session(root, request),
                merged_path(sys.jobs[k].session.root, sys.jobs[k].session.file_id),
            ),
        forall|k: int|
            0 <= k < sys.jobs.len() && live((#[trigger] sys.jobs[k]).session) && is_last(
                initial_session(root, request),
            ) ==> !touches(sys.jobs[k].session, merged_path(root, request.file_id)),
        forall|i: int|
            0 <= i < sys.registry.len() ==> !touches(
                initial_session(root, request),
                (#[trigger] sys.registry[i]).path,
            ),
    ensures
        steady(arrive(sys, root, request)),
{
    let after = arrive(sys, root, request);
    let n = sys.jobs.len() as int;
    assert forall|k: int| 0 <= k < after.jobs.len() implies job_ok(
        #[trigger] after.jobs[k],
        after.files,
    ) by {
        if k < n {
            assert(after.jobs[k] == sys.jobs[k]);
        }
    }
    assert forall|j: int, k: int|
        0 <= j < after.jobs.len() && 0 <= k < after.jobs.len() && j != k && live(
            (#[trigger] after.jobs[j]).session,
        ) && live((#[trigger] after.jobs[k]).session) && is_last(
            after.jobs[k].session,
        ) implies !touches(
        after.jobs[j].session,
        merged_path(after.jobs[k].session.root, after.jobs[k].session.file_id),
    ) by {
        if j < n && k < n {
            assert(after.jobs[j] == sys.jobs[j] && after.jobs[k] == sys.jobs[k]);
            assert(!touches(
                sys.jobs[j].session,
                merged_path(sys.jobs[k].session.root, sys.jobs[k].session.file_id),
            ));
        } else if j < n {
            assert(after.jobs[j] == sys.jobs[j]);
            assert(!touches(sys.jobs[j].session, merged_path(root, request.file_id)));
        } else {
            assert(after.jobs[k] == sys.jobs[k]);
            assert(!touches(
                initial_session(root, request),
                merged_path(sys.jobs[k].session.root, sys.jobs[k].session.file_id),
            ));
        }
    }
    assert forall|j: int, i: int|
        0 <= j < after.jobs.len() && 0 <= i < after.registry.len() && live(
            (#[trigger] after.jobs[j]).session,
        ) implies !touches(after.jobs[j].session, (#[trigger] after.registry[i]).path) by {
        if j < n {
            assert(after.jobs[j] == sys.jobs[j]);
            assert(!touches(sys.jobs[j].session, sys.registry[i].path));
        } else {
            assert(!touches(initial_session(root, request), sys.registry[i].path));
        }
    }
}

/// Whether an identifier is a plain name: it holds no path separator.
pub open spec fn plain_name(file_id: Seq<char>) -> bool {
    forall|i: int| 0 <= i < file_id.len() ==> file_id[i] != '/'
}

/// The merged file of an upload with a plain name lies outside every
/// segment directory below the same storage directory.
pub proof fn lemma_merged_outside_segment_dirs(root: Seq<char>, holder: Seq<char>, file_id: Seq<char>)
    requires
        plain_name(file_id),
    ensures
        !inside(segment_dir(root, holder), merged_path(root, file_id)),
{
    reveal_strlit("_file");
    let target = merged_path(root, file_id);
    let name = file_id + "_file"@;
    let dir = segment_dir(root, holder);
    if inside(dir, target) {
        let at = dir.len() as int;
        assert(target.subrange(0, at + 1)[at] == dir.push('/')[at]);
        assert(target[at] == '/');
        let m = holder.len() as int;
        assert(target[at] == name[m]);
        if m < file_id.len() {
            assert(name[m] == file_id[m]);
        } else {
            assert(name[m] == "_file"@[m - file_id.len()]);
        }
    }
}

/// Uploads with different identifiers have different merged files.
pub proof fn lemma_merged_paths_differ(root: Seq<char>, a: Seq<char>, b: Seq<char>)
    requires
        a != b,
    ensures
        merged_path(root, a) != merged_path(root, b),
{
    let start = root.len() as int + 1;
    let left = a + "_file"@;
    let right = b + "_file"@;
    if merged_path(root, a) == merged_path(root, b) {
        assert(merged_path(root, a).skip(start) =~= left);
        assert(merged_path(root, b).skip(start) =~= right);
        assert(left.len() == right.len());
        assert(left.take(a.len() as int) =~= a);
        assert(right.take(b.len() as int) =~= b);
    }
}

/// Sessions below one storage directory keep out of the way of a merged
/// file with a plain name, unless they are to merge that very upload: the
/// sessions of other uploads, and the sessions that store the earlier
/// segments of the same upload.
pub proof fn lemma_sessions_apart(s: SessionView, t: SessionView)
    requires
        s.root == t.root,
        plain_name(t.file_id),
        s.file_id != t.file_id || !is_last(s),
    ensures
        !touches(s, merged_path(t.root, t.file_id)),
{
    lemma_merged_outside_segment_dirs(s.root, s.file_id, t.file_id);
    if s.file_id != t.file_id {
        lemma_merged_paths_differ(s.root, s.file_id, t.file_id);
    }
}

/// What happens on a server, one thing at a time.
pub enum Move {
    /// The upload session with this number takes one step.
    Step(int),
    /// An upload request arrives and a session is opened for it.
    Upload(UploadRequestView),
}

/// Whether a request opens a session that keeps out of the way of what is
/// there. Its identifier is a plain name. A request for a segment that is
/// not the last one is always let in, beside the other sessions of its
/// upload. A request for the last segment, whose session merges, is let in
/// unless another session is merging that upload, or the registry holds the
/// record of its merged file already.
pub open spec fn admissible(sys: System, root: Seq<char>, request: UploadRequestView) -> bool {
    &&& plain_name(request.file_id)
    &&& is_final_segment(request.segment_index as nat, request.total_segments as nat) ==> {
        &&& forall|k: int|
            0 <= k < sys.jobs.len() && live((#[trigger] sys.jobs[k]).session) && is_last(
                sys.jobs[k].session,
            ) ==> sys.jobs[k].session.file_id != request.file_id
        &&& forall|i: int|
            0 <= i < sys.registry.len() ==> (#[trigger] sys.registry[i]).path != merged_path(
                root,
                request.file_id,
            )
    }
}

/// A request for a segment that is not the last one of its upload is let
/// in whatever else is under way, as long as its identifier is a plain name.
pub proof fn lemma_earlier_segments_are_admitted(
    sys: System,
    root: Seq<char>,
    request: UploadRequestView,
)
    requires
        plain_name(request.file_id),
        !is_final_segment(request.segment_index as nat, request.total_segments as nat),
    ensures
        admissible(sys, root, request),
        arrive(sys, root, request).jobs.len() == sys.jobs.len() + 1,
{
}

/// The server that has not handled any upload yet.
pub open spec fn idle(files: Files) -> System {
    System { files, registry: Seq::empty(), jobs: Seq::empty() }
}

/// The system after the moves, made one after the other on a server that
/// starts idle with the storage directory `root`. A step of a session that
/// does not exist and a request that is not admissible are passed over.
pub open spec fn after_moves(root: Seq<char>, files: Files, moves: Seq<Move>) -> System
    decreases moves.len(),
{
    if moves.len() == 0 {
        idle(files)
    } else {
        let before = after_moves(root, files, moves.drop_last());
        match moves.last() {
            Move::Step(k) => if 0 <= k < before.jobs.len() {
                tick(before, k)
            } else {
                before
            },
            Move::Upload(request) => if admissible(before, root, request) {
                arrive(before, root, request)
            } else {
                before
            },
        }
    }
}

/// Whether all sessions of a system are of one storage directory, with
/// plain identifiers, and every record is that of the merged file of one of
/// them.
pub open spec fn orderly(sys: System, root: Seq<char>) -> bool {
    &&& steady(sys)
    &&& forall|k: int|
        0 <= k < sys.jobs.len() ==> (#[trigger] sys.jobs[k]).session.root == root && plain_name(
            sys.jobs[k].session.file_id,
        )
    &&& forall|i: int| 0 <= i < sys.registry.len() ==> #[trigger] record_of_upload(sys, root, i)
}

/// Whether the record `i` is that of the merged file of one of the uploads.
pub open spec fn record_of_upload(sys: System, root: Seq<char>, i: int) -> bool {
    exists|k: int|
        0 <= k < sys.jobs.len() && sys.registry[i].path == merged_path(
            root,
            (#[trigger] sys.jobs[k]).session.file_id,
        )
}

proof fn lemma_tick_keeps_orderly(sys: System, root: Seq<char>, k: int)
    requires
        orderly(sys, root),
        0 <= k < sys.jobs.len(),
    ensures
        orderly(tick(sys, k), root),
{
    let after = tick(sys, k);
    let job = sys.jobs[k];
    lemma_tick_keeps_steady(sys, k);
    if live(job.session) {
        lemma_own_step(job, sys.files);
        assert forall|j: int| 0 <= j < after.jobs.len() implies (#[trigger] after.jobs[j]).session.root
            == root && plain_name(after.jobs[j].session.file_id) by {
            assert(sys.jobs[j].session.root == root);
            if j != k {
                assert(after.jobs[j] == sys.jobs[j]);
            }
        }
        assert forall|i: int| 0 <= i < after.registry.len() implies #[trigger] record_of_upload(
            after,
            root,
            i,
        ) by {
            if i < sys.registry.len() {
                assert(after.registry[i] == sys.registry[i]);
                assert(record_of_upload(sys, root, i));
                let l = choose|l: int|
                    0 <= l < sys.jobs.len() && sys.registry[i].path == merged_path(
                        root,
                        (#[trigger] sys.jobs[l]).session.file_id,
                    );
                assert(sys.jobs[l].session.root == root);
                if l != k {
                    assert(after.jobs[l] == sys.jobs[l]);
                }
                assert(after.jobs[l].session.file_id == sys.jobs[l].session.file_id);
            } else {
                assert(sys.jobs[k].session.root == root);
                assert(after.jobs[k].session.file_id == sys.jobs[k].session.file_id);
                assert(after.registry[i].path == merged_path(root, after.jobs[k].session.file_id));
            }
        }
    }
}

proof fn lemma_arrival_keeps_orderly(sys: System, root: Seq<char>, request: UploadRequestView)
    requires
        orderly(sys, root),
        admissible(sys, root, request),
    ensures
        orderly(arrive(sys, root, request), root),
{
    let after = arrive(sys, root, request);
    let opened = initial_session(root, request);
    let n = sys.jobs.len() as int;
    assert forall|k: int|
        0 <= k < sys.jobs.len() && live((#[trigger] sys.jobs[k]).session) && is_last(
            sys.jobs[k].session,
        ) implies !touches(
        opened,
        merged_path(sys.jobs[k].session.root, sys.jobs[k].session.file_id),
    ) by {
        assert(sys.jobs[k].session.root == root && plain_name(sys.jobs[k].session.file_id));
        lemma_sessions_apart(opened, sys.jobs[k].session);
    }
    assert forall|k: int|
        0 <= k < sys.jobs.len() && live((#[trigger] sys.jobs[k]).session) && is_last(
            opened,
        ) implies !touches(sys.jobs[k].session, merged_path(root, request.file_id)) by {
        assert(sys.jobs[k].session.root == root);
        lemma_sessions_apart(sys.jobs[k].session, opened);
    }
    assert forall|i: int| 0 <= i < sys.registry.len() implies !touches(
        opened,
        (#[trigger] sys.registry[i]).path,
    ) by {
        assert(record_of_upload(sys, root, i));
        let k = choose|k: int|
            0 <= k < sys.jobs.len() && sys.registry[i].path == merged_path(
                root,
                (#[trigger] sys.jobs[k]).session.file_id,
            );
        assert(sys.jobs[k].session.root == root && plain_name(sys.jobs[k].session.file_id));
        lemma_merged_outside_segment_dirs(root, request.file_id, sys.jobs[k].session.file_id);
    }
    lemma_arrival_keeps_steady(sys, root, request);
    assert forall|k: int| 0 <= k < after.jobs.len() implies (#[trigger] after.jobs[k]).session.root
        == root && plain_name(after.jobs[k].session.file_id) by {
        if k < n {
            assert(after.jobs[k] == sys.jobs[k]);
        }
    }
    assert forall|i: int| 0 <= i < after.registry.len() implies #[trigger] record_of_upload(
        after,
        root,
        i,
    ) by {
        assert(record_of_upload(sys, root, i));
        let k = choose|k: int|
            0 <= k < sys.jobs.len() && sys.registry[i].path == merged_path(
                root,
                (#[trigger] sys.jobs[k]).session.file_id,
            );
        assert(after.jobs[k] == sys.jobs[k]);
    }
}

/// The registry never lists a file that is not complete. On a server that
/// starts idle, whatever requests arrive, for whatever segments of whatever
/// uploads, and in whatever order the sessions take their steps, every
/// record in the registry describes a file that is in place and has the
/// recorded size. It holds as long as the identifiers are plain names and a
/// request for a last segment does not arrive while another session merges
/// that upload, or after its merged file has been registered.
pub proof fn lemma_registry_lists_complete_files(root: Seq<char>, files: Files, moves: Seq<Move>)
    ensures
        orderly(after_moves(root, files, moves), root),
        registry_sound(after_moves(root, files, moves).files, after_moves(root, files, moves).registry),
    decreases moves.len(),
{
    if moves.len() == 0 {
        lemma_idle_is_steady(files);
    } else {
        lemma_registry_lists_complete_files(root, files, moves.drop_last());
        let before = after_moves(root, files, moves.drop_last());
        match moves.last() {
            Move::Step(k) => {
                if 0 <= k < before.jobs.len() {
                    lemma_tick_keeps_orderly(before, root, k);
                }
            },
            Move::Upload(request) => {
                if admissible(before, root, request) {
                    lemma_arrival_keeps_orderly(before, root, request);
                }
            },
        }
    }
}

} // verus!
