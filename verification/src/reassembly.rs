//! What the upload protocol brings about: the laws of segment reassembly,
//! proved of the upload session running on the storage model.

use vstd::prelude::*;
use crate::error::TransferError;
use crate::models::FileInfoView;
use crate::storage::{below, effect, handle_upload, run, Files};
use crate::text::{decimal_text, inside, lemma_decimal_text_injective};
use crate::upload::{
    ack_record, binary_mime, first_action, in_phase, initial_session, is_final_segment, merged_path,
    merged_record,
    registry_after, segment_dir, segment_name, segment_path, upload_step, ActionView, EventView,
    OutcomeView, SessionView, StepView, UploadPhase, UploadRequestView,
};

verus! {

/// Two segments of one upload are kept at different paths.
pub proof fn lemma_segment_paths_differ(root: Seq<char>, file_id: Seq<char>, i: nat, j: nat)
    requires
        i != j,
    ensures
        segment_path(root, file_id, i) != segment_path(root, file_id, j),
{
    let prefix = segment_dir(root, file_id) + seq!['/'];
    let a = segment_path(root, file_id, i);
    let b = segment_path(root, file_id, j);
    if a == b {
        assert(a.skip(prefix.len() as int) =~= segment_name(i));
        assert(b.skip(prefix.len() as int) =~= segment_name(j));
        assert(segment_name(i).skip("segment_"@.len() as int) =~= decimal_text(i));
        assert(segment_name(j).skip("segment_"@.len() as int) =~= decimal_text(j));
        lemma_decimal_text_injective(i, j);
    }
}

/// A segment lies below the segment directory of its upload, and at another
/// path than the merged file, which lies outside that directory.
pub proof fn lemma_merged_path_apart(root: Seq<char>, file_id: Seq<char>, i: nat)
    ensures
        segment_path(root, file_id, i) != merged_path(root, file_id),
        inside(segment_dir(root, file_id), segment_path(root, file_id, i)),
        !inside(segment_dir(root, file_id), merged_path(root, file_id)),
{
    reveal_strlit("_file");
    let dir = segment_dir(root, file_id);
    let seg = segment_path(root, file_id, i);
    let merged = merged_path(root, file_id);
    let at = dir.len() as int;
    assert(seg[at] == '/');
    assert(merged[at] == '_');
    assert(seg.subrange(0, at + 1) =~= dir.push('/'));
    if inside(dir, merged) {
        assert(merged.subrange(0, at + 1)[at] == dir.push('/')[at]);
    }
}

/// Whether the segments `from..to` of an upload all exist.
pub open spec fn segments_present(
    files: Files,
    root: Seq<char>,
    file_id: Seq<char>,
    from: nat,
    to: nat,
) -> bool {
    forall|j: nat| from <= j < to ==> files.dom().contains(#[trigger] segment_path(root, file_id, j))
}

/// The bytes of the segments `from..to` of an upload, in index order.
pub open spec fn segment_bytes(
    files: Files,
    root: Seq<char>,
    file_id: Seq<char>,
    from: nat,
    to: nat,
) -> Seq<u8>
    decreases to - from,
{
    if from >= to {
        Seq::empty()
    } else {
        files[segment_path(root, file_id, from)] + segment_bytes(files, root, file_id, from + 1, to)
    }
}

/// The record of a merged file of `size` bytes.
pub open spec fn completed_record(s: SessionView, size: nat) -> FileInfoView {
    merged_record(SessionView { merged_size: size as u64, ..s })
}

/// The bytes of the segments depend on the segment files only.
proof fn lemma_segment_bytes_frame(
    a: Files,
    b: Files,
    root: Seq<char>,
    file_id: Seq<char>,
    from: nat,
    to: nat,
)
    requires
        forall|j: nat|
            from <= j < to ==> a[#[trigger] segment_path(root, file_id, j)] == b[segment_path(
                root,
                file_id,
                j,
            )],
    ensures
        segment_bytes(a, root, file_id, from, to) == segment_bytes(b, root, file_id, from, to),
    decreases to - from,
{
    if from < to {
        lemma_segment_bytes_frame(a, b, root, file_id, from + 1, to);
        assert(a[segment_path(root, file_id, from)] == b[segment_path(root, file_id, from)]);
    }
}

/// Looking for the segments from `index` on: a session goes on to create the
/// merged file if none has been missing and all the rest are there, and ends
/// with a client error, the files untouched, otherwise.
proof fn lemma_probing(s: SessionView, files: Files, index: usize, missing: bool)
    requires
        s.phase == (UploadPhase::Probing { index, missing }),
        index < s.total_segments,
    ensures
        run(
            s,
            EventView::Found(files.dom().contains(segment_path(s.root, s.file_id, index as nat))),
            files,
        ) == if !missing && segments_present(
            files,
            s.root,
            s.file_id,
            index as nat,
            s.total_segments as nat,
        ) {
            run(
                in_phase(s, UploadPhase::CreatingMerged),
                EventView::Done,
                files.insert(merged_path(s.root, s.file_id), Seq::empty()),
            )
        } else {
            (OutcomeView::Rejected(TransferError::BadRequest), files)
        },
    decreases s.total_segments - index,
{
    let total = s.total_segments as nat;
    let present = files.dom().contains(segment_path(s.root, s.file_id, index as nat));
    let (next, step) = upload_step(s, EventView::Found(present));
    let rest = segments_present(files, s.root, s.file_id, index as nat + 1, total);
    assert(segments_present(files, s.root, s.file_id, index as nat, total) == (present && rest)) by {
        if present && rest {
            assert forall|j: nat| index as nat <= j < total implies files.dom().contains(
                #[trigger] segment_path(s.root, s.file_id, j),
            ) by {
                if j != index as nat {
                    assert(index as nat + 1 <= j);
                }
            }
        }
        if segments_present(files, s.root, s.file_id, index as nat, total) {
            assert(files.dom().contains(segment_path(s.root, s.file_id, index as nat)));
        }
    }
    if index + 1 < s.total_segments {
        let following = (index + 1) as usize;
        lemma_probing(next, files, following, missing || !present);
        assert(in_phase(next, UploadPhase::CreatingMerged) == in_phase(s, UploadPhase::CreatingMerged));
    } else {
        assert(rest);
    }
}

/// Reading and appending the segments from `index` on: a session whose
/// segments are all there ends with the record of the merged file, which
/// holds what it held before followed by the bytes of those segments in
/// index order, and the segment directory is gone.
proof fn lemma_merging(s: SessionView, files: Files, index: usize)
    requires
        s.phase == (UploadPhase::Reading { index }),
        index < s.total_segments,
        files.dom().contains(merged_path(s.root, s.file_id)),
        segments_present(files, s.root, s.file_id, index as nat, s.total_segments as nat),
        s.merged_size + segment_bytes(
            files,
            s.root,
            s.file_id,
            index as nat,
            s.total_segments as nat,
        ).len() <= u64::MAX,
    ensures
        run(s, EventView::Data(files[segment_path(s.root, s.file_id, index as nat)]), files) == (
            OutcomeView::Completed(
                completed_record(
                    s,
                    s.merged_size as nat + segment_bytes(
                        files,
                        s.root,
                        s.file_id,
                        index as nat,
                        s.total_segments as nat,
                    ).len(),
                ),
            ),
            files.insert(
                merged_path(s.root, s.file_id),
                files[merged_path(s.root, s.file_id)] + segment_bytes(
                    files,
                    s.root,
                    s.file_id,
                    index as nat,
                    s.total_segments as nat,
                ),
            ).remove_keys(below(segment_dir(s.root, s.file_id))),
        ),
    decreases s.total_segments - index,
{
    let total = s.total_segments as nat;
    let merged = merged_path(s.root, s.file_id);
    let bytes = files[segment_path(s.root, s.file_id, index as nat)];
    let rest = segment_bytes(files, s.root, s.file_id, index as nat + 1, total);
    assert(segment_bytes(files, s.root, s.file_id, index as nat, total) == bytes + rest);
    assert((bytes + rest).len() == bytes.len() + rest.len());
    // read -> append
    let (s1, step1) = upload_step(s, EventView::Data(bytes));
    let files1 = files.insert(merged, files[merged] + bytes);
    assert(step1 == StepView::Perform(ActionView::Append { path: merged, data: bytes }));
    assert(effect(files, ActionView::Append { path: merged, data: bytes }) == (files1, EventView::Done));
    assert(run(s, EventView::Data(bytes), files) == run(s1, EventView::Done, files1));
    assert forall|j: nat| index as nat + 1 <= j < total implies files1[#[trigger] segment_path(
        s.root,
        s.file_id,
        j,
    )] == files[segment_path(s.root, s.file_id, j)] && files1.dom().contains(
        segment_path(s.root, s.file_id, j),
    ) by {
        lemma_merged_path_apart(s.root, s.file_id, j);
    }
    lemma_segment_bytes_frame(files1, files, s.root, s.file_id, index as nat + 1, total);
    let (s2, step2) = upload_step(s1, EventView::Done);
    if index + 1 < s.total_segments {
        let following = (index + 1) as usize;
        let path = segment_path(s.root, s.file_id, following as nat);
        assert(step2 == StepView::Perform(ActionView::ReadFile { path }));
        assert(files1.dom().contains(path));
        assert(effect(files1, ActionView::ReadFile { path }) == (files1, EventView::Data(files1[path])));
        assert(run(s1, EventView::Done, files1) == run(s2, EventView::Data(files1[path]), files1));
        lemma_merging(s2, files1, following);
        assert(files1[merged] + rest =~= files[merged] + (bytes + rest));
        assert(files1.insert(merged, files1[merged] + rest) =~= files.insert(
            merged,
            files[merged] + (bytes + rest),
        ));
        assert(completed_record(s2, s2.merged_size as nat + rest.len()) == completed_record(
            s,
            s.merged_size as nat + (bytes + rest).len(),
        ));
    } else {
        assert(rest =~= Seq::<u8>::empty());
        assert(bytes + rest =~= bytes);
        let dir = segment_dir(s.root, s.file_id);
        assert(step2 == StepView::Perform(ActionView::Flush { path: merged }));
        assert(run(s1, EventView::Done, files1) == run(s2, EventView::Done, files1));
        let (s3, step3) = upload_step(s2, EventView::Done);
        assert(step3 == StepView::Perform(ActionView::RemoveDirAll { path: dir }));
        let files3 = files1.remove_keys(below(dir));
        assert(run(s2, EventView::Done, files1) == run(s3, EventView::Done, files3));
        let (s4, step4) = upload_step(s3, EventView::Done);
        assert(step4 == StepView::Finish(OutcomeView::Completed(merged_record(s3))));
        assert(run(s3, EventView::Done, files3) == (OutcomeView::Completed(merged_record(s3)), files3));
        assert(merged_record(s3) == completed_record(s, s.merged_size as nat + (bytes + rest).len()));
    }
}

/// Whether a request can be held in memory: its payload has a length.
pub open spec fn valid_request(request: UploadRequestView) -> bool {
    request.data.len() <= usize::MAX
}

/// The files after the segment of `request` has been stored: the segment
/// file holds the payload, whatever it held before.
pub open spec fn with_segment(files: Files, root: Seq<char>, request: UploadRequestView) -> Files {
    files.insert(segment_path(root, request.file_id, request.segment_index as nat), request.data)
}

/// The bytes of all segments of the upload that `request` belongs to.
pub open spec fn upload_bytes(files: Files, root: Seq<char>, request: UploadRequestView) -> Seq<u8> {
    segment_bytes(files, root, request.file_id, 0, request.total_segments as nat)
}

/// Whether all segments of the upload that `request` belongs to exist.
pub open spec fn upload_complete(files: Files, root: Seq<char>, request: UploadRequestView) -> bool {
    segments_present(files, root, request.file_id, 0, request.total_segments as nat)
}

/// The files after the segments of the upload that `request` belongs to have
/// been merged: the merged file holds `bytes` and the segment directory is
/// gone.
pub open spec fn with_merged(
    files: Files,
    root: Seq<char>,
    request: UploadRequestView,
    bytes: Seq<u8>,
) -> Files {
    files.insert(merged_path(root, request.file_id), bytes).remove_keys(
        below(segment_dir(root, request.file_id)),
    )
}

proof fn lemma_to_probing(root: Seq<char>, request: UploadRequestView, files: Files)
    requires
        valid_request(request),
        is_final_segment(request.segment_index as nat, request.total_segments as nat),
    ensures
        handle_upload(root, request, files) == run(
            SessionView {
                phase: UploadPhase::Probing { index: 0, missing: false },
                data: Seq::empty(),
                ..initial_session(root, request)
            },
            EventView::Found(
                with_segment(files, root, request).dom().contains(
                    segment_path(root, request.file_id, 0),
                ),
            ),
            with_segment(files, root, request),
        ),
{
    let s0 = initial_session(root, request);
    let files1 = with_segment(files, root, request);
    assert(effect(files, first_action(s0)) == (files, EventView::Done));
    let (s1, step1) = upload_step(s0, EventView::Done);
    assert(run(s0, EventView::Done, files) == run(s1, EventView::Done, files1));
    let (s2, step2) = upload_step(s1, EventView::Done);
    assert(step2 == StepView::Perform(
        ActionView::Exists { path: segment_path(root, request.file_id, 0) },
    ));
    assert(run(s1, EventView::Done, files1) == run(
        s2,
        EventView::Found(files1.dom().contains(segment_path(root, request.file_id, 0))),
        files1,
    ));
}

/// A segment that is not the last one by index is stored, replacing what was
/// stored at its index before, and acknowledged. Nothing else changes.
pub proof fn lemma_segment_stored(root: Seq<char>, request: UploadRequestView, files: Files)
    requires
        valid_request(request),
        !is_final_segment(request.segment_index as nat, request.total_segments as nat),
    ensures
        handle_upload(root, request, files) == (
            OutcomeView::SegmentStored(ack_record(initial_session(root, request))),
            with_segment(files, root, request),
        ),
{
    let s0 = initial_session(root, request);
    let files1 = with_segment(files, root, request);
    assert(effect(files, first_action(s0)) == (files, EventView::Done));
    let (s1, step1) = upload_step(s0, EventView::Done);
    assert(run(s0, EventView::Done, files) == run(s1, EventView::Done, files1));
    assert(ack_record(s1) == ack_record(s0));
}

/// The last segment by index, arriving while another segment is missing, is
/// stored and answered with a client error. The segments that are there stay
/// in place, and no merged file is written.
pub proof fn lemma_incomplete_upload_rejected(root: Seq<char>, request: UploadRequestView, files: Files)
    requires
        valid_request(request),
        is_final_segment(request.segment_index as nat, request.total_segments as nat),
        !upload_complete(with_segment(files, root, request), root, request),
    ensures
        handle_upload(root, request, files) == (
            OutcomeView::Rejected(TransferError::BadRequest),
            with_segment(files, root, request),
        ),
{
    lemma_to_probing(root, request, files);
    let s = SessionView {
        phase: UploadPhase::Probing { index: 0, missing: false },
        data: Seq::empty(),
        ..initial_session(root, request)
    };
    lemma_probing(s, with_segment(files, root, request), 0, false);
}

/// The last segment by index, arriving when all segments are there, merges
/// them: the merged file holds the bytes of the segments in index order, the
/// record gives its length as the size, and the segment directory is gone.
pub proof fn lemma_upload_completed(root: Seq<char>, request: UploadRequestView, files: Files)
    requires
        valid_request(request),
        is_final_segment(request.segment_index as nat, request.total_segments as nat),
        upload_complete(with_segment(files, root, request), root, request),
        upload_bytes(with_segment(files, root, request), root, request).len() <= u64::MAX,
    ensures
        handle_upload(root, request, files) == (
            OutcomeView::Completed(
                completed_record(
                    initial_session(root, request),
                    upload_bytes(with_segment(files, root, request), root, request).len(),
                ),
            ),
            with_merged(
                with_segment(files, root, request),
                root,
                request,
                upload_bytes(with_segment(files, root, request), root, request),
            ),
        ),
        handle_upload(root, request, files).1.dom().contains(merged_path(root, request.file_id)),
        handle_upload(root, request, files).1[merged_path(root, request.file_id)] == upload_bytes(
            with_segment(files, root, request),
            root,
            request,
        ),
{
    let total = request.total_segments as nat;
    let id = request.file_id;
    let merged = merged_path(root, id);
    let files1 = with_segment(files, root, request);
    let bytes = upload_bytes(files1, root, request);
    lemma_to_probing(root, request, files);
    let s = SessionView {
        phase: UploadPhase::Probing { index: 0, missing: false },
        data: Seq::empty(),
        ..initial_session(root, request)
    };
    lemma_probing(s, files1, 0, false);
    let s3 = in_phase(s, UploadPhase::CreatingMerged);
    let files2 = files1.insert(merged, Seq::empty());
    let (s4, step4) = upload_step(s3, EventView::Done);
    let first = segment_path(root, id, 0);
    assert(step4 == StepView::Perform(ActionView::ReadFile { path: first }));
    assert forall|j: nat| 0 <= j < total implies files2[#[trigger] segment_path(root, id, j)]
        == files1[segment_path(root, id, j)] && files2.dom().contains(segment_path(root, id, j)) by {
        lemma_merged_path_apart(root, id, j);
    }
    assert(files2.dom().contains(first));
    assert(effect(files2, ActionView::ReadFile { path: first }) == (files2, EventView::Data(files2[first])));
    assert(run(s3, EventView::Done, files2) == run(s4, EventView::Data(files2[first]), files2));
    lemma_segment_bytes_frame(files2, files1, root, id, 0, total);
    lemma_merging(s4, files2, 0);
    assert(files2[merged] + bytes =~= bytes);
    assert(files2.insert(merged, bytes) =~= files1.insert(merged, bytes));
    assert(completed_record(s4, 0 + bytes.len()) == completed_record(
        initial_session(root, request),
        bytes.len(),
    ));
    lemma_merged_path_apart(root, id, 0);
}

/// The bytes of the segments from `from` on, one after the other.
pub open spec fn joined_segments(segments: Seq<Seq<u8>>, from: nat) -> Seq<u8>
    decreases segments.len() - from,
{
    if from >= segments.len() {
        Seq::empty()
    } else {
        segments[from as int] + joined_segments(segments, from + 1)
    }
}

/// The sum of the lengths of the segments from `from` on.
pub open spec fn joined_length(segments: Seq<Seq<u8>>, from: nat) -> nat
    decreases segments.len() - from,
{
    if from >= segments.len() {
        0
    } else {
        segments[from as int].len() + joined_length(segments, from + 1)
    }
}

proof fn lemma_joined_segments(
    files: Files,
    root: Seq<char>,
    file_id: Seq<char>,
    segments: Seq<Seq<u8>>,
    from: nat,
)
    requires
        from <= segments.len(),
        forall|i: nat|
            from <= i < segments.len() ==> files[#[trigger] segment_path(root, file_id, i)]
                == segments[i as int],
    ensures
        segment_bytes(files, root, file_id, from, segments.len()) == joined_segments(segments, from),
        joined_segments(segments, from).len() == joined_length(segments, from),
    decreases segments.len() - from,
{
    if from < segments.len() {
        lemma_joined_segments(files, root, file_id, segments, from + 1);
        assert(files[segment_path(root, file_id, from)] == segments[from as int]);
    }
}

/// The completing request. The last segment by index arrives with its
/// payload while every earlier segment is in the segment directory. Then the
/// upload succeeds: the merged file holds the segments one after the other in
/// index order, whatever order they arrived in, and the record names the
/// upload's identifier and file name, the merged file's path, the binary
/// MIME type, and as its size the sum of the segments' lengths, which is
/// the length of the merged file. The sum has to fit the size of a record.
pub proof fn lemma_completing_request_merges(
    root: Seq<char>,
    request: UploadRequestView,
    files: Files,
    segments: Seq<Seq<u8>>,
)
    requires
        valid_request(request),
        is_final_segment(request.segment_index as nat, request.total_segments as nat),
        segments.len() == request.total_segments,
        forall|i: nat|
            i < request.segment_index ==> files.dom().contains(
                #[trigger] segment_path(root, request.file_id, i),
            ) && files[segment_path(root, request.file_id, i)] == segments[i as int],
        segments[request.segment_index as int] == request.data,
        joined_length(segments, 0) <= u64::MAX,
    ensures
        handle_upload(root, request, files).0 == OutcomeView::Completed(
            FileInfoView {
                id: request.file_id,
                name: request.file_name,
                path: merged_path(root, request.file_id),
                size: joined_length(segments, 0) as u64,
                mime_type: binary_mime(),
            },
        ),
        handle_upload(root, request, files).1.dom().contains(merged_path(root, request.file_id)),
        handle_upload(root, request, files).1[merged_path(root, request.file_id)] == joined_segments(
            segments,
            0,
        ),
        joined_segments(segments, 0).len() == joined_length(segments, 0),
        forall|i: nat|
            i < request.total_segments ==> !handle_upload(root, request, files).1.dom().contains(
                #[trigger] segment_path(root, request.file_id, i),
            ),
{
    let id = request.file_id;
    let total = request.total_segments as nat;
    let stored = with_segment(files, root, request);
    assert forall|i: nat| i < total implies stored.dom().contains(
        #[trigger] segment_path(root, id, i),
    ) && stored[segment_path(root, id, i)] == segments[i as int] by {
        if i != request.segment_index as nat {
            lemma_segment_paths_differ(root, id, i, request.segment_index as nat);
        }
    }
    lemma_joined_segments(stored, root, id, segments, 0);
    lemma_upload_completed(root, request, files);
    assert forall|i: nat| i < total implies !handle_upload(root, request, files).1.dom().contains(
        #[trigger] segment_path(root, id, i),
    ) by {
        lemma_merged_path_apart(root, id, i);
    }
}

/// An upload of a single segment is complete in one request: the merged file
/// holds the payload, and the outcome is the record that enters the registry.
pub proof fn lemma_single_segment_upload(root: Seq<char>, request: UploadRequestView, files: Files)
    requires
        valid_request(request),
        request.total_segments == 1,
        request.segment_index == 0,
    ensures
        handle_upload(root, request, files).0 == OutcomeView::Completed(
            completed_record(initial_session(root, request), request.data.len()),
        ),
        handle_upload(root, request, files).1.dom().contains(merged_path(root, request.file_id)),
        handle_upload(root, request, files).1[merged_path(root, request.file_id)] == request.data,
        forall|registry: Seq<FileInfoView>| #[trigger]
            registry_after(registry, handle_upload(root, request, files).0) == registry.push(
                completed_record(initial_session(root, request), request.data.len()),
            ),
{
    let files1 = with_segment(files, root, request);
    let own = segment_path(root, request.file_id, 0);
    assert(files1.dom().contains(own));
    assert(segment_bytes(files1, root, request.file_id, 1, 1) =~= Seq::<u8>::empty());
    assert(upload_bytes(files1, root, request) =~= request.data);
    lemma_upload_completed(root, request, files);
}

/// The storage directory and the registry together.
pub struct World {
    pub files: Files,
    pub registry: Seq<FileInfoView>,
}

/// The world after one upload request has been handled and its outcome
/// brought to the registry.
pub open spec fn serve_upload(root: Seq<char>, world: World, request: UploadRequestView) -> World {
    World {
        files: handle_upload(root, request, world.files).1,
        registry: registry_after(world.registry, handle_upload(root, request, world.files).0),
    }
}

/// The world after the requests have been handled one after the other.
pub open spec fn serve_uploads(root: Seq<char>, world: World, requests: Seq<UploadRequestView>) -> World
    decreases requests.len(),
{
    if requests.len() == 0 {
        world
    } else {
        serve_upload(root, serve_uploads(root, world, requests.drop_last()), requests.last())
    }
}

/// Whether the requests are segments of one upload: of the file `file_id`,
/// in `total` segments, each with an index below `total`.
pub open spec fn same_upload(requests: Seq<UploadRequestView>, file_id: Seq<char>, total: usize) -> bool {
    forall|t: int|
        0 <= t < requests.len() ==> {
            &&& valid_request(#[trigger] requests[t])
            &&& requests[t].file_id == file_id
            &&& requests[t].total_segments == total
            &&& requests[t].segment_index < total
        }
}

/// Whether a segment with the index `index` is among the requests.
pub open spec fn arrived(requests: Seq<UploadRequestView>, index: nat) -> bool {
    exists|t: int| 0 <= t < requests.len() && (#[trigger] requests[t]).segment_index == index
}

/// Whether a segment with each index below `total` is among the requests.
pub open spec fn all_arrived(requests: Seq<UploadRequestView>, total: nat) -> bool {
    forall|j: nat| j < total ==> #[trigger] arrived(requests, j)
}

/// The payload of the last request with the index `index`.
pub open spec fn last_written(requests: Seq<UploadRequestView>, index: nat) -> Seq<u8>
    decreases requests.len(),
{
    if requests.len() == 0 {
        Seq::empty()
    } else if requests.last().segment_index == index {
        requests.last().data
    } else {
        last_written(requests.drop_last(), index)
    }
}

/// The last-written payloads of the indices `from..to`, in index order.
pub open spec fn written_bytes(requests: Seq<UploadRequestView>, from: nat, to: nat) -> Seq<u8>
    decreases to - from,
{
    if from >= to {
        Seq::empty()
    } else {
        last_written(requests, from) + written_bytes(requests, from + 1, to)
    }
}

/// The sum of the lengths of the last-written payloads of the indices `from..to`.
pub open spec fn written_len(requests: Seq<UploadRequestView>, from: nat, to: nat) -> nat
    decreases to - from,
{
    if from >= to {
        0
    } else {
        last_written(requests, from).len() + written_len(requests, from + 1, to)
    }
}

/// The concatenation of the payloads is as long as their lengths sum up to.
pub proof fn lemma_written_len(requests: Seq<UploadRequestView>, from: nat, to: nat)
    ensures
        written_bytes(requests, from, to).len() == written_len(requests, from, to),
    decreases to - from,
{
    if from < to {
        lemma_written_len(requests, from + 1, to);
    }
}

/// Whether no request before the last one completes the upload: whenever
/// the last index arrives early, some index has not arrived yet.
pub open spec fn completes_at_end(requests: Seq<UploadRequestView>, total: usize) -> bool {
    &&& requests.len() >= 1
    &&& total >= 1
    &&& requests.last().segment_index == total - 1
    &&& all_arrived(requests, total as nat)
    &&& forall|t: int|
        0 <= t < requests.len() - 1 && (#[trigger] requests[t]).segment_index == total - 1
            ==> !all_arrived(requests.take(t + 1), total as nat)
}

/// Whether the storage holds no segment of the upload yet.
pub open spec fn no_segments(files: Files, root: Seq<char>, file_id: Seq<char>, total: nat) -> bool {
    forall|j: nat| j < total ==> !files.dom().contains(#[trigger] segment_path(root, file_id, j))
}

/// Whether the segment files are exactly those of the indices that arrived,
/// each holding the payload written to it last.
pub open spec fn segments_collected(
    files: Files,
    root: Seq<char>,
    file_id: Seq<char>,
    total: nat,
    requests: Seq<UploadRequestView>,
) -> bool {
    forall|j: nat|
        j < total ==> {
            &&& files.dom().contains(#[trigger] segment_path(root, file_id, j)) == arrived(requests, j)
            &&& arrived(requests, j) ==> files[segment_path(root, file_id, j)] == last_written(
                requests,
                j,
            )
        }
}

proof fn lemma_arrived_push(requests: Seq<UploadRequestView>, k: int, index: nat)
    requires
        1 <= k <= requests.len(),
    ensures
        arrived(requests.take(k), index) == (arrived(requests.take(k - 1), index) || requests[k
            - 1].segment_index == index),
        last_written(requests.take(k), index) == if requests[k - 1].segment_index == index {
            requests[k - 1].data
        } else {
            last_written(requests.take(k - 1), index)
        },
{
    let now = requests.take(k);
    let before = requests.take(k - 1);
    assert(now.drop_last() =~= before);
    assert(now.last() == requests[k - 1]);
    if arrived(before, index) {
        let t = choose|t: int| 0 <= t < before.len() && (#[trigger] before[t]).segment_index == index;
        assert(now[t].segment_index == index);
    }
    if requests[k - 1].segment_index == index {
        assert(now[k - 1].segment_index == index);
    }
    if arrived(now, index) {
        let t = choose|t: int| 0 <= t < now.len() && (#[trigger] now[t]).segment_index == index;
        if t < k - 1 {
            assert(before[t].segment_index == index);
        }
    }
}

/// While an upload is under way, each request stores its segment and leaves
/// the registry as it was: after the first `k` requests the segment files are
/// those of the indices that arrived, each with its last-written payload.
pub proof fn lemma_segments_collect(
    root: Seq<char>,
    file_id: Seq<char>,
    total: usize,
    requests: Seq<UploadRequestView>,
    world: World,
    k: int,
)
    requires
        same_upload(requests, file_id, total),
        no_segments(world.files, root, file_id, total as nat),
        0 <= k <= requests.len(),
        forall|t: int|
            0 <= t < k && (#[trigger] requests[t]).segment_index == total - 1 ==> !all_arrived(
                requests.take(t + 1),
                total as nat,
            ),
    ensures
        serve_uploads(root, world, requests.take(k)).registry == world.registry,
        segments_collected(
            serve_uploads(root, world, requests.take(k)).files,
            root,
            file_id,
            total as nat,
            requests.take(k),
        ),
    decreases k,
{
    let now = requests.take(k);
    if k == 0 {
        assert forall|j: nat| j < total implies !arrived(now, j) by {}
    } else {
        let before = requests.take(k - 1);
        let request = requests[k - 1];
        assert(now.drop_last() =~= before);
        assert(now.last() == request);
        lemma_segments_collect(root, file_id, total, requests, world, k - 1);
        let earlier = serve_uploads(root, world, before);
        let stored = with_segment(earlier.files, root, request);
        assert(valid_request(request) && request.file_id == file_id && request.total_segments == total);
        if is_final_segment(request.segment_index as nat, total as nat) {
            assert(!all_arrived(now, total as nat));
            let gap = choose|j: nat| j < total && !arrived(now, j);
            lemma_arrived_push(requests, k, gap);
            lemma_segment_paths_differ(root, file_id, gap, request.segment_index as nat);
            assert(!stored.dom().contains(segment_path(root, file_id, gap)));
            lemma_incomplete_upload_rejected(root, request, earlier.files);
        } else {
            lemma_segment_stored(root, request, earlier.files);
        }
        assert(serve_uploads(root, world, now).files == stored);
        assert forall|j: nat| j < total implies {
            &&& stored.dom().contains(#[trigger] segment_path(root, file_id, j)) == arrived(now, j)
            &&& arrived(now, j) ==> stored[segment_path(root, file_id, j)] == last_written(now, j)
        } by {
            lemma_arrived_push(requests, k, j);
            if j != request.segment_index as nat {
                lemma_segment_paths_differ(root, file_id, j, request.segment_index as nat);
            }
        }
    }
}

proof fn lemma_collected_bytes(
    files: Files,
    root: Seq<char>,
    file_id: Seq<char>,
    total: nat,
    requests: Seq<UploadRequestView>,
    from: nat,
)
    requires
        segments_collected(files, root, file_id, total, requests),
        all_arrived(requests, total),
        from <= total,
    ensures
        segment_bytes(files, root, file_id, from, total) == written_bytes(requests, from, total),
    decreases total - from,
{
    if from < total {
        lemma_collected_bytes(files, root, file_id, total, requests, from + 1);
        assert(arrived(requests, from));
        assert(files[segment_path(root, file_id, from)] == last_written(requests, from));
    }
}

/// Reassembly. The segments of one upload arrive in any order, some of them
/// more than once, in a storage directory that holds none of them yet; the
/// last index arrives last, and any earlier arrival of it found a segment
/// missing. Then no request before the last changes the registry, and the
/// last one merges: the merged file holds the last-written payload of each
/// index, in index order; its record enters the registry, with the sum of
/// the payloads' lengths as its size.
pub proof fn lemma_reassembly(
    root: Seq<char>,
    file_id: Seq<char>,
    total: usize,
    requests: Seq<UploadRequestView>,
    world: World,
)
    requires
        same_upload(requests, file_id, total),
        completes_at_end(requests, total),
        no_segments(world.files, root, file_id, total as nat),
        written_len(requests, 0, total as nat) <= u64::MAX,
    ensures
        forall|k: int|
            0 <= k < requests.len() ==> (#[trigger] serve_uploads(
                root,
                world,
                requests.take(k),
            )).registry == world.registry,
        serve_uploads(root, world, requests).files.dom().contains(merged_path(root, file_id)),
        serve_uploads(root, world, requests).files[merged_path(root, file_id)] == written_bytes(
            requests,
            0,
            total as nat,
        ),
        serve_uploads(root, world, requests).registry == world.registry.push(
            completed_record(
                initial_session(root, requests.last()),
                written_len(requests, 0, total as nat),
            ),
        ),
        completed_record(
            initial_session(root, requests.last()),
            written_len(requests, 0, total as nat),
        ).size == written_bytes(requests, 0, total as nat).len(),
        completed_record(
            initial_session(root, requests.last()),
            written_len(requests, 0, total as nat),
        ).path == merged_path(root, file_id),
        written_bytes(requests, 0, total as nat).len() == written_len(requests, 0, total as nat),
{
    let n = requests.len() as int;
    let request = requests.last();
    assert forall|k: int| 0 <= k < n implies (#[trigger] serve_uploads(
        root,
        world,
        requests.take(k),
    )).registry == world.registry by {
        lemma_segments_collect(root, file_id, total, requests, world, k);
    }
    lemma_segments_collect(root, file_id, total, requests, world, n - 1);
    let before = requests.take(n - 1);
    assert(before =~= requests.drop_last());
    assert(requests.take(n) =~= requests);
    let earlier = serve_uploads(root, world, before);
    let stored = with_segment(earlier.files, root, request);
    assert(valid_request(request) && request.file_id == file_id && request.total_segments == total);
    assert forall|j: nat| j < total implies {
        &&& stored.dom().contains(#[trigger] segment_path(root, file_id, j)) == arrived(requests, j)
        &&& arrived(requests, j) ==> stored[segment_path(root, file_id, j)] == last_written(
            requests,
            j,
        )
    } by {
        lemma_arrived_push(requests, n, j);
        if j != request.segment_index as nat {
            lemma_segment_paths_differ(root, file_id, j, request.segment_index as nat);
        }
    }
    assert forall|j: nat| 0 <= j < total implies stored.dom().contains(
        #[trigger] segment_path(root, file_id, j),
    ) by {
        assert(arrived(requests, j));
    }
    lemma_collected_bytes(stored, root, file_id, total as nat, requests, 0);
    lemma_written_len(requests, 0, total as nat);
    lemma_upload_completed(root, request, earlier.files);
}

/// Retrying. The last segment arrives while the segment of `late` is
/// missing: the reply is a client error and the registry stays as it was.
/// Once the missing segment has been stored, the last segment sent again
/// completes the upload.
pub proof fn lemma_retry_after_missing_segment(
    root: Seq<char>,
    last: UploadRequestView,
    late: UploadRequestView,
    world: World,
)
    requires
        valid_request(last),
        valid_request(late),
        is_final_segment(last.segment_index as nat, last.total_segments as nat),
        late.file_id == last.file_id,
        late.total_segments == last.total_segments,
        late.segment_index < last.segment_index,
        !world.files.dom().contains(segment_path(root, last.file_id, late.segment_index as nat)),
        forall|j: nat|
            j < last.total_segments && j != late.segment_index && j != last.segment_index
                ==> world.files.dom().contains(#[trigger] segment_path(root, last.file_id, j)),
        upload_bytes(
            with_segment(with_segment(world.files, root, last), root, late),
            root,
            last,
        ).len() <= u64::MAX,
    ensures
        handle_upload(root, last, world.files).0 == OutcomeView::Rejected(TransferError::BadRequest),
        serve_upload(root, world, last).registry == world.registry,
        serve_upload(root, serve_upload(root, world, last), late).registry == world.registry,
        serve_upload(root, serve_upload(root, serve_upload(root, world, last), late), last).registry
            == world.registry.push(
            completed_record(
                initial_session(root, last),
                upload_bytes(
                    with_segment(with_segment(world.files, root, last), root, late),
                    root,
                    last,
                ).len(),
            ),
        ),
        serve_upload(
            root,
            serve_upload(root, serve_upload(root, world, last), late),
            last,
        ).files[merged_path(root, last.file_id)] == upload_bytes(
            with_segment(with_segment(world.files, root, last), root, late),
            root,
            last,
        ),
{
    let id = last.file_id;
    let total = last.total_segments as nat;
    let gap = segment_path(root, id, late.segment_index as nat);
    let own = segment_path(root, id, last.segment_index as nat);
    lemma_segment_paths_differ(root, id, late.segment_index as nat, last.segment_index as nat);
    // first attempt
    let files1 = with_segment(world.files, root, last);
    assert(!files1.dom().contains(gap));
    lemma_incomplete_upload_rejected(root, last, world.files);
    // the missing segment
    lemma_segment_stored(root, late, files1);
    let files2 = with_segment(files1, root, late);
    // second attempt
    let files3 = with_segment(files2, root, last);
    assert(files3 =~= files2);
    assert forall|j: nat| 0 <= j < total implies files3.dom().contains(
        #[trigger] segment_path(root, id, j),
    ) by {
        if j != late.segment_index && j != last.segment_index {
            assert(world.files.dom().contains(segment_path(root, id, j)));
        }
    }
    lemma_upload_completed(root, last, files2);
}

} // verus!
