//! The chunked-upload protocol: validating one segment request and deciding,
//! step by step, what has to happen in the storage directory to persist the
//! segment and, on the last segment, to merge all of them into one file.
//!
//! The functions here decide; the caller performs. A session hands out one
//! [`StorageAction`] at a time and is told how it went with a
//! [`StorageEvent`].
//!
//! The client is trusted with the numbering: neither the index nor the total
//! is held against a limit, and the total is not compared across the
//! segments of one upload. A segment whose index is not the last one of its
//! total is stored and acknowledged, whatever the two numbers are.
//!
//! A merge removes the segment directory. A segment that is sent again after
//! its upload has been merged starts a new segment directory; it replaces
//! nothing, since nothing of the upload is left there.

use vstd::prelude::*;
use vstd::string::StringExecFns;
use crate::error::TransferError;
use crate::models::{has_id, ids_unique, FileInfo, FileInfoView, FileList};
use crate::text::{
    decimal_text, index_of_text, join_path, joined, parse_index, push_decimal, same_text, str_view,
    text_view,
};

verus! {

/// The MIME type given to every uploaded file.
pub open spec fn binary_mime() -> Seq<char> {
    "application/octet-stream"@
}

/// The directory that holds the segments of the upload `file_id`.
pub open spec fn segment_dir(root: Seq<char>, file_id: Seq<char>) -> Seq<char> {
    joined(root, file_id)
}

/// The file name of the segment `index`.
pub open spec fn segment_name(index: nat) -> Seq<char> {
    "segment_"@ + decimal_text(index)
}

/// Where the segment `index` of the upload `file_id` is kept.
pub open spec fn segment_path(root: Seq<char>, file_id: Seq<char>, index: nat) -> Seq<char> {
    joined(segment_dir(root, file_id), segment_name(index))
}

/// Where the merged file of the upload `file_id` is kept.
pub open spec fn merged_path(root: Seq<char>, file_id: Seq<char>) -> Seq<char> {
    joined(root, file_id + "_file"@)
}

/// The display name of the acknowledgement for segment `index` of `total`.
pub open spec fn ack_name(index: nat, total: nat) -> Seq<char> {
    "segment_"@ + decimal_text(index + 1) + " of "@ + decimal_text(total)
}

/// Whether `index` is the last segment of an upload of `total` segments.
pub open spec fn is_final_segment(index: nat, total: nat) -> bool {
    total >= 1 && index == total - 1
}

/// The directory that holds the segments of the upload `file_id`.
pub fn segment_dir_of(root: &str, file_id: &str) -> (path: String)
    ensures
        path@ == segment_dir(root@, file_id@),
{
    join_path(root, file_id)
}

/// Where the segment `index` of the upload `file_id` is kept.
pub fn segment_path_of(root: &str, file_id: &str, index: usize) -> (path: String)
    ensures
        path@ == segment_path(root@, file_id@, index as nat),
{
    let dir: String = segment_dir_of(root, file_id);
    let mut name: String = String::from_str("segment_");
    push_decimal(&mut name, index as u128);
    join_path(dir.as_str(), name.as_str())
}

/// Where the merged file of the upload `file_id` is kept.
pub fn merged_path_of(root: &str, file_id: &str) -> (path: String)
    ensures
        path@ == merged_path(root@, file_id@),
{
    let mut name: String = String::from_str(file_id);
    name.append("_file");
    join_path(root, name.as_str())
}

/// A validated upload request: one segment of one logical file.
#[derive(Debug)]
pub struct UploadRequest {
    pub file_name: String,
    pub segment_index: usize,
    pub total_segments: usize,
    pub file_id: String,
    pub data: Vec<u8>,
}

/// What an [`UploadRequest`] holds, as plain mathematical values.
pub struct UploadRequestView {
    pub file_name: Seq<char>,
    pub segment_index: usize,
    pub total_segments: usize,
    pub file_id: Seq<char>,
    pub data: Seq<u8>,
}

impl View for UploadRequest {
    type V = UploadRequestView;

    open spec fn view(&self) -> UploadRequestView {
        UploadRequestView {
            file_name: self.file_name@,
            segment_index: self.segment_index,
            total_segments: self.total_segments,
            file_id: self.file_id@,
            data: self.data@,
        }
    }
}

/// The part of a multipart upload form that a field fills.
#[derive(Clone, Copy, Debug, PartialEq, Eq, Structural)]
pub enum FieldKind {
    /// `file`: the binary payload, with the name of the file it comes from.
    File,
    /// `segment_index`: the 0-based index of this segment.
    SegmentIndex,
    /// `total_segments`: the number of segments of the logical file.
    TotalSegments,
    /// `file_id`: the client's identifier of the logical file.
    FileId,
    /// Any other field, and a field without a name: ignored.
    Other,
}

/// The part of the form that a field named `name` fills.
pub open spec fn kind_of_name(name: Option<Seq<char>>) -> FieldKind {
    match name {
        None => FieldKind::Other,
        Some(n) => if n == "file"@ {
            FieldKind::File
        } else if n == "segment_index"@ {
            FieldKind::SegmentIndex
        } else if n == "total_segments"@ {
            FieldKind::TotalSegments
        } else if n == "file_id"@ {
            FieldKind::FileId
        } else {
            FieldKind::Other
        },
    }
}

/// The view of an optional byte buffer.
pub open spec fn bytes_view(bytes: Option<Vec<u8>>) -> Option<Seq<u8>> {
    match bytes {
        Some(b) => Some(b@),
        None => None,
    }
}

/// The part of the form that a field named `name` fills.
pub fn field_kind(name: Option<&str>) -> (kind: FieldKind)
    ensures
        kind == kind_of_name(str_view(name)),
{
    match name {
        None => FieldKind::Other,
        Some(n) => {
            if same_text(n, "file") {
                FieldKind::File
            } else if same_text(n, "segment_index") {
                FieldKind::SegmentIndex
            } else if same_text(n, "total_segments") {
                FieldKind::TotalSegments
            } else if same_text(n, "file_id") {
                FieldKind::FileId
            } else {
                FieldKind::Other
            }
        },
    }
}

/// What has been read of a multipart upload form so far.
#[derive(Debug)]
pub struct UploadForm {
    pub file_name: Option<String>,
    pub segment_index: Option<usize>,
    pub total_segments: Option<usize>,
    pub file_id: Option<String>,
    pub file_data: Option<Vec<u8>>,
}

/// What an [`UploadForm`] holds, as plain mathematical values.
pub struct UploadFormView {
    pub file_name: Option<Seq<char>>,
    pub segment_index: Option<usize>,
    pub total_segments: Option<usize>,
    pub file_id: Option<Seq<char>>,
    pub file_data: Option<Seq<u8>>,
}

impl View for UploadForm {
    type V = UploadFormView;

    open spec fn view(&self) -> UploadFormView {
        UploadFormView {
            file_name: text_view(self.file_name),
            segment_index: self.segment_index,
            total_segments: self.total_segments,
            file_id: text_view(self.file_id),
            file_data: bytes_view(self.file_data),
        }
    }
}

/// The form with nothing read yet.
pub open spec fn empty_form() -> UploadFormView {
    UploadFormView {
        file_name: None,
        segment_index: None,
        total_segments: None,
        file_id: None,
        file_data: None,
    }
}

/// The form after a `file` field: the file name is taken (`unknown` when the
/// field gives none); the payload is taken unless it is empty.
pub open spec fn with_file(form: UploadFormView, file_name: Option<Seq<char>>, data: Seq<u8>) -> UploadFormView {
    UploadFormView {
        file_name: Some(
            match file_name {
                Some(n) => n,
                None => "unknown"@,
            },
        ),
        file_data: if data.len() > 0 {
            Some(data)
        } else {
            form.file_data
        },
        ..form
    }
}

/// The form after a text field of the given kind: an index that does not
/// parse leaves the form as it was, and so does a field of another kind.
pub open spec fn with_text(form: UploadFormView, kind: FieldKind, text: Seq<char>) -> UploadFormView {
    match kind {
        FieldKind::SegmentIndex => match index_of_text(text) {
            Some(i) => UploadFormView { segment_index: Some(i), ..form },
            None => form,
        },
        FieldKind::TotalSegments => match index_of_text(text) {
            Some(i) => UploadFormView { total_segments: Some(i), ..form },
            None => form,
        },
        FieldKind::FileId => UploadFormView { file_id: Some(text), ..form },
        _ => form,
    }
}

/// The request that a form amounts to: all five parts must be there.
pub open spec fn request_of(form: UploadFormView) -> Option<UploadRequestView> {
    if form.file_name is Some && form.segment_index is Some && form.total_segments is Some
        && form.file_id is Some && form.file_data is Some {
        Some(
            UploadRequestView {
                file_name: form.file_name->0,
                segment_index: form.segment_index->0,
                total_segments: form.total_segments->0,
                file_id: form.file_id->0,
                data: form.file_data->0,
            },
        )
    } else {
        None
    }
}

impl UploadForm {
    /// A form with nothing read yet.
    pub fn new() -> (form: Self)
        ensures
            form@ == empty_form(),
    {
        UploadForm {
            file_name: None,
            segment_index: None,
            total_segments: None,
            file_id: None,
            file_data: None,
        }
    }

    /// Takes in a `file` field: its file name, if it has one, and its payload.
    pub fn absorb_file(&mut self, file_name: Option<&str>, data: Vec<u8>)
        ensures
            final(self)@ == with_file(old(self)@, str_view(file_name), data@),
    {
        let name: String = match file_name {
            Some(n) => String::from_str(n),
            None => String::from_str("unknown"),
        };
        self.file_name = Some(name);
        if data.len() > 0 {
            self.file_data = Some(data);
        }
    }

    /// Takes in the text of a `segment_index`, `total_segments` or `file_id` field.
    pub fn absorb_text(&mut self, kind: FieldKind, text: &str)
        ensures
            final(self)@ == with_text(old(self)@, kind, text@),
    {
        match kind {
            FieldKind::SegmentIndex => {
                match parse_index(text) {
                    Some(i) => {
                        self.segment_index = Some(i);
                    },
                    None => {},
                }
            },
            FieldKind::TotalSegments => {
                match parse_index(text) {
                    Some(i) => {
                        self.total_segments = Some(i);
                    },
                    None => {},
                }
            },
            FieldKind::FileId => {
                self.file_id = Some(String::from_str(text));
            },
            _ => {},
        }
    }

    /// The request that the form amounts to, or a client error when one of
    /// the five parts is missing.
    pub fn finish(self) -> (request: Result<UploadRequest, TransferError>)
        ensures
            match request {
                Ok(r) => request_of(self@) == Some(r@),
                Err(e) => e == TransferError::BadRequest && request_of(self@) is None,
            },
    {
        match (self.file_name, self.segment_index, self.total_segments, self.file_id, self.file_data) {
            (Some(file_name), Some(segment_index), Some(total_segments), Some(file_id), Some(data)) => Ok(
                UploadRequest { file_name, segment_index, total_segments, file_id, data },
            ),
            _ => Err(TransferError::BadRequest),
        }
    }
}

/// One thing to do in the storage directory.
#[derive(Debug)]
pub enum StorageAction {
    /// Make sure the directory `path` exists, with its parents.
    CreateDirAll { path: String },
    /// Make the file `path` hold exactly `data`, replacing what it held.
    WriteFile { path: String, data: Vec<u8> },
    /// Find out whether anything exists at `path`.
    Exists { path: String },
    /// Create the file `path` empty, or empty it, and keep it open for appending.
    CreateFile { path: String },
    /// Read the whole file `path`.
    ReadFile { path: String },
    /// Append `data` to the open file `path`.
    Append { path: String, data: Vec<u8> },
    /// Flush and close the open file `path`.
    Flush { path: String },
    /// Remove the directory `path` with all it holds.
    RemoveDirAll { path: String },
}

/// What a [`StorageAction`] holds, as plain mathematical values.
pub enum ActionView {
    CreateDirAll { path: Seq<char> },
    WriteFile { path: Seq<char>, data: Seq<u8> },
    Exists { path: Seq<char> },
    CreateFile { path: Seq<char> },
    ReadFile { path: Seq<char> },
    Append { path: Seq<char>, data: Seq<u8> },
    Flush { path: Seq<char> },
    RemoveDirAll { path: Seq<char> },
}

impl View for StorageAction {
    type V = ActionView;

    open spec fn view(&self) -> ActionView {
        match self {
            StorageAction::CreateDirAll { path } => ActionView::CreateDirAll { path: path@ },
            StorageAction::WriteFile { path, data } => ActionView::WriteFile { path: path@, data: data@ },
            StorageAction::Exists { path } => ActionView::Exists { path: path@ },
            StorageAction::CreateFile { path } => ActionView::CreateFile { path: path@ },
            StorageAction::ReadFile { path } => ActionView::ReadFile { path: path@ },
            StorageAction::Append { path, data } => ActionView::Append { path: path@, data: data@ },
            StorageAction::Flush { path } => ActionView::Flush { path: path@ },
            StorageAction::RemoveDirAll { path } => ActionView::RemoveDirAll { path: path@ },
        }
    }
}

/// How a [`StorageAction`] went.
#[derive(Debug)]
pub enum StorageEvent {
    /// The action was carried out.
    Done,
    /// The action failed.
    Failed,
    /// The answer to [`StorageAction::Exists`].
    Found(bool),
    /// The bytes that [`StorageAction::ReadFile`] read.
    Data(Vec<u8>),
}

/// What a [`StorageEvent`] holds, as plain mathematical values.
pub enum EventView {
    Done,
    Failed,
    Found(bool),
    Data(Seq<u8>),
}

impl View for StorageEvent {
    type V = EventView;

    open spec fn view(&self) -> EventView {
        match self {
            StorageEvent::Done => EventView::Done,
            StorageEvent::Failed => EventView::Failed,
            StorageEvent::Found(present) => EventView::Found(*present),
            StorageEvent::Data(bytes) => EventView::Data(bytes@),
        }
    }
}

/// How the handling of one upload request ended.
#[derive(Debug)]
pub enum UploadOutcome {
    /// The segment was stored and more are expected: the record describes the
    /// stored segment and the registry stays as it is.
    SegmentStored(FileInfo),
    /// All segments were merged: the record describes the merged file and is
    /// to be added to the registry.
    Completed(FileInfo),
    /// The request failed.
    Rejected(TransferError),
}

/// What an [`UploadOutcome`] holds, as plain mathematical values.
pub enum OutcomeView {
    SegmentStored(FileInfoView),
    Completed(FileInfoView),
    Rejected(TransferError),
}

impl View for UploadOutcome {
    type V = OutcomeView;

    open spec fn view(&self) -> OutcomeView {
        match self {
            UploadOutcome::SegmentStored(record) => OutcomeView::SegmentStored(record@),
            UploadOutcome::Completed(record) => OutcomeView::Completed(record@),
            UploadOutcome::Rejected(error) => OutcomeView::Rejected(*error),
        }
    }
}

/// What the caller of an upload session does next.
#[derive(Debug)]
pub enum UploadStep {
    /// Carry out the action and report how it went.
    Perform(StorageAction),
    /// Nothing is left to do in the storage directory.
    Finish(UploadOutcome),
}

/// What an [`UploadStep`] holds, as plain mathematical values.
pub enum StepView {
    Perform(ActionView),
    Finish(OutcomeView),
}

impl View for UploadStep {
    type V = StepView;

    open spec fn view(&self) -> StepView {
        match self {
            UploadStep::Perform(action) => StepView::Perform(action@),
            UploadStep::Finish(outcome) => StepView::Finish(outcome@),
        }
    }
}

/// Where an upload session stands: the action it has asked for last.
#[derive(Clone, Copy, Debug, PartialEq, Eq, Structural)]
pub enum UploadPhase {
    /// Asked for the segment directory.
    CreatingDir,
    /// Asked to store the segment.
    WritingSegment,
    /// Asked whether segment `index` exists; `missing` tells whether a
    /// segment before it was not there.
    Probing { index: usize, missing: bool },
    /// Asked to create the merged file.
    CreatingMerged,
    /// Asked to read segment `index`.
    Reading { index: usize },
    /// Asked to append segment `index` to the merged file.
    Appending { index: usize },
    /// Asked to flush the merged file.
    Flushing,
    /// Asked to remove the segment directory.
    Cleaning,
    /// The outcome has been handed out.
    Finished,
}

/// The handling of one upload request, from the validated request to its outcome.
#[derive(Debug)]
pub struct UploadSession {
    root: String,
    file_id: String,
    file_name: String,
    segment_index: usize,
    total_segments: usize,
    data: Vec<u8>,
    data_len: usize,
    phase: UploadPhase,
    merged_size: u64,
}

/// What an [`UploadSession`] holds, as plain mathematical values.
pub struct SessionView {
    /// The storage directory.
    pub root: Seq<char>,
    pub file_id: Seq<char>,
    pub file_name: Seq<char>,
    pub segment_index: usize,
    pub total_segments: usize,
    /// The payload, until it has been handed out for writing.
    pub data: Seq<u8>,
    /// The length of the payload.
    pub data_len: usize,
    pub phase: UploadPhase,
    /// The number of bytes handed out for appending to the merged file.
    pub merged_size: u64,
}

impl View for UploadSession {
    type V = SessionView;

    closed spec fn view(&self) -> SessionView {
        SessionView {
            root: self.root@,
            file_id: self.file_id@,
            file_name: self.file_name@,
            segment_index: self.segment_index,
            total_segments: self.total_segments,
            data: self.data@,
            data_len: self.data_len,
            phase: self.phase,
            merged_size: self.merged_size,
        }
    }
}

/// The session that handles `request` below the storage directory `root`,
/// before its first action.
pub open spec fn initial_session(root: Seq<char>, request: UploadRequestView) -> SessionView {
    SessionView {
        root,
        file_id: request.file_id,
        file_name: request.file_name,
        segment_index: request.segment_index,
        total_segments: request.total_segments,
        data: request.data,
        data_len: request.data.len() as usize,
        phase: UploadPhase::CreatingDir,
        merged_size: 0,
    }
}

/// The first action of every session: make sure the segment directory exists.
pub open spec fn first_action(s: SessionView) -> ActionView {
    ActionView::CreateDirAll { path: segment_dir(s.root, s.file_id) }
}

/// The record that acknowledges a stored segment.
pub open spec fn ack_record(s: SessionView) -> FileInfoView {
    FileInfoView {
        id: s.file_id,
        name: ack_name(s.segment_index as nat, s.total_segments as nat),
        path: segment_path(s.root, s.file_id, s.segment_index as nat),
        size: s.data_len as u64,
        mime_type: binary_mime(),
    }
}

/// The record of the merged file.
pub open spec fn merged_record(s: SessionView) -> FileInfoView {
    FileInfoView {
        id: s.file_id,
        name: s.file_name,
        path: merged_path(s.root, s.file_id),
        size: s.merged_size,
        mime_type: binary_mime(),
    }
}

/// The session in another phase.
pub open spec fn in_phase(s: SessionView, phase: UploadPhase) -> SessionView {
    SessionView { phase, ..s }
}

/// The session ends with a failure.
pub open spec fn rejected(s: SessionView, error: TransferError) -> (SessionView, StepView) {
    (in_phase(s, UploadPhase::Finished), StepView::Finish(OutcomeView::Rejected(error)))
}

/// The session asks whether segment `index` exists.
pub open spec fn probing(s: SessionView, index: usize, missing: bool) -> (SessionView, StepView) {
    (
        in_phase(s, UploadPhase::Probing { index, missing }),
        StepView::Perform(ActionView::Exists { path: segment_path(s.root, s.file_id, index as nat) }),
    )
}

/// The session asks for the bytes of segment `index`.
pub open spec fn reading(s: SessionView, index: usize) -> (SessionView, StepView) {
    (
        in_phase(s, UploadPhase::Reading { index }),
        StepView::Perform(ActionView::ReadFile { path: segment_path(s.root, s.file_id, index as nat) }),
    )
}

/// What a session does when it learns how its last action went: its next
/// state, and the next action or the outcome.
///
/// The segment is stored first. Unless it is the last one by index, the
/// session ends there with an acknowledgement. Otherwise every segment from
/// 0 up is looked for, and if one is missing the session ends with a client
/// error. If all are there, the merged file is created, each segment is read
/// and appended in index order, the file is flushed, the segment directory is
/// removed, and the session ends with the record of the merged file. A
/// failure of the storage ends the session with a storage error, except when
/// removing the segment directory, where it is ignored; so does a merged
/// file that grows beyond the size a record can hold, and an event that does
/// not answer the action asked for.
pub open spec fn upload_step(s: SessionView, event: EventView) -> (SessionView, StepView) {
    match s.phase {
        UploadPhase::CreatingDir => match event {
            EventView::Done => (
                SessionView { phase: UploadPhase::WritingSegment, data: Seq::empty(), ..s },
                StepView::Perform(
                    ActionView::WriteFile {
                        path: segment_path(s.root, s.file_id, s.segment_index as nat),
                        data: s.data,
                    },
                ),
            ),
            _ => rejected(s, TransferError::Storage),
        },
        UploadPhase::WritingSegment => match event {
            EventView::Done => if is_final_segment(s.segment_index as nat, s.total_segments as nat) {
                probing(s, 0, false)
            } else {
                (
                    in_phase(s, UploadPhase::Finished),
                    StepView::Finish(OutcomeView::SegmentStored(ack_record(s))),
                )
            },
            _ => rejected(s, TransferError::Storage),
        },
        UploadPhase::Probing { index, missing } => match event {
            EventView::Found(present) => if index + 1 < s.total_segments {
                probing(s, (index + 1) as usize, missing || !present)
            } else if missing || !present {
                rejected(s, TransferError::BadRequest)
            } else {
                (
                    in_phase(s, UploadPhase::CreatingMerged),
                    StepView::Perform(ActionView::CreateFile { path: merged_path(s.root, s.file_id) }),
                )
            },
            _ => rejected(s, TransferError::Storage),
        },
        UploadPhase::CreatingMerged => match event {
            EventView::Done => reading(s, 0),
            _ => rejected(s, TransferError::Storage),
        },
        UploadPhase::Reading { index } => match event {
            EventView::Data(bytes) => if s.merged_size + bytes.len() > u64::MAX {
                rejected(s, TransferError::Storage)
            } else {
                (
                    SessionView {
                        phase: UploadPhase::Appending { index },
                        merged_size: (s.merged_size + bytes.len()) as u64,
                        ..s
                    },
                    StepView::Perform(
                        ActionView::Append { path: merged_path(s.root, s.file_id), data: bytes },
                    ),
                )
            },
            _ => rejected(s, TransferError::Storage),
        },
        UploadPhase::Appending { index } => match event {
            EventView::Done => if index + 1 < s.total_segments {
                reading(s, (index + 1) as usize)
            } else {
                (
                    in_phase(s, UploadPhase::Flushing),
                    StepView::Perform(ActionView::Flush { path: merged_path(s.root, s.file_id) }),
                )
            },
            _ => rejected(s, TransferError::Storage),
        },
        UploadPhase::Flushing => match event {
            EventView::Done => (
                in_phase(s, UploadPhase::Cleaning),
                StepView::Perform(ActionView::RemoveDirAll { path: segment_dir(s.root, s.file_id) }),
            ),
            _ => rejected(s, TransferError::Storage),
        },
        UploadPhase::Cleaning => (
            in_phase(s, UploadPhase::Finished),
            StepView::Finish(OutcomeView::Completed(merged_record(s))),
        ),
        UploadPhase::Finished => rejected(s, TransferError::Storage),
    }
}

impl UploadSession {
    /// Starts handling `request` below the storage directory `root`, and
    /// says what to do first.
    pub fn begin(root: &str, request: UploadRequest) -> (started: (UploadSession, StorageAction))
        ensures
            started.0@ == initial_session(root@, request@),
            started.1@ == first_action(started.0@),
    {
        let dir: String = segment_dir_of(root, request.file_id.as_str());
        let data_len: usize = request.data.len();
        let session = UploadSession {
            root: String::from_str(root),
            file_id: request.file_id,
            file_name: request.file_name,
            segment_index: request.segment_index,
            total_segments: request.total_segments,
            data: request.data,
            data_len,
            phase: UploadPhase::CreatingDir,
            merged_size: 0,
        };
        (session, StorageAction::CreateDirAll { path: dir })
    }

    /// Whether the outcome has been handed out.
    pub fn is_finished(&self) -> (finished: bool)
        ensures
            finished == (self@.phase == UploadPhase::Finished),
    {
        match self.phase {
            UploadPhase::Finished => true,
            _ => false,
        }
    }

    fn reject(&mut self, error: TransferError) -> (step: UploadStep)
        ensures
            (final(self)@, step@) == rejected(old(self)@, error),
    {
        self.phase = UploadPhase::Finished;
        UploadStep::Finish(UploadOutcome::Rejected(error))
    }

    fn probe(&mut self, index: usize, missing: bool) -> (step: UploadStep)
        ensures
            (final(self)@, step@) == probing(old(self)@, index, missing),
    {
        self.phase = UploadPhase::Probing { index, missing };
        UploadStep::Perform(
            StorageAction::Exists { path: segment_path_of(self.root.as_str(), self.file_id.as_str(), index) },
        )
    }

    fn read(&mut self, index: usize) -> (step: UploadStep)
        ensures
            (final(self)@, step@) == reading(old(self)@, index),
    {
        self.phase = UploadPhase::Reading { index };
        UploadStep::Perform(
            StorageAction::ReadFile {
                path: segment_path_of(self.root.as_str(), self.file_id.as_str(), index),
            },
        )
    }

    fn acknowledgement(&self) -> (record: FileInfo)
        ensures
            record@ == ack_record(self@),
    {
        let mut name: String = String::from_str("segment_");
        push_decimal(&mut name, self.segment_index as u128 + 1);
        name.append(" of ");
        push_decimal(&mut name, self.total_segments as u128);
        FileInfo {
            id: self.file_id.clone(),
            name,
            path: segment_path_of(self.root.as_str(), self.file_id.as_str(), self.segment_index),
            size: self.data_len as u64,
            mime_type: String::from_str("application/octet-stream"),
        }
    }

    fn merged(&self) -> (record: FileInfo)
        ensures
            record@ == merged_record(self@),
    {
        FileInfo {
            id: self.file_id.clone(),
            name: self.file_name.clone(),
            path: merged_path_of(self.root.as_str(), self.file_id.as_str()),
            size: self.merged_size,
            mime_type: String::from_str("application/octet-stream"),
        }
    }

    /// Takes in how the last action went and says what to do next.
    pub fn advance(&mut self, event: StorageEvent) -> (step: UploadStep)
        ensures
            (final(self)@, step@) == upload_step(old(self)@, event@),
    {
        match self.phase {
            UploadPhase::CreatingDir => match event {
                StorageEvent::Done => {
                    let mut data: Vec<u8> = Vec::new();
                    core::mem::swap(&mut self.data, &mut data);
                    self.phase = UploadPhase::WritingSegment;
                    UploadStep::Perform(
                        StorageAction::WriteFile {
                            path: segment_path_of(
                                self.root.as_str(),
                                self.file_id.as_str(),
                                self.segment_index,
                            ),
                            data,
                        },
                    )
                },
                _ => self.reject(TransferError::Storage),
            },
            UploadPhase::WritingSegment => match event {
                StorageEvent::Done => {
                    if self.total_segments >= 1 && self.segment_index == self.total_segments - 1 {
                        self.probe(0, false)
                    } else {
                        let record: FileInfo = self.acknowledgement();
                        self.phase = UploadPhase::Finished;
                        UploadStep::Finish(UploadOutcome::SegmentStored(record))
                    }
                },
                _ => self.reject(TransferError::Storage),
            },
            UploadPhase::Probing { index, missing } => match event {
                StorageEvent::Found(present) => {
                    if index < usize::MAX && index + 1 < self.total_segments {
                        self.probe(index + 1, missing || !present)
                    } else if missing || !present {
                        self.reject(TransferError::BadRequest)
                    } else {
                        self.phase = UploadPhase::CreatingMerged;
                        UploadStep::Perform(
                            StorageAction::CreateFile {
                                path: merged_path_of(self.root.as_str(), self.file_id.as_str()),
                            },
                        )
                    }
                },
                _ => self.reject(TransferError::Storage),
            },
            UploadPhase::CreatingMerged => match event {
                StorageEvent::Done => self.read(0),
                _ => self.reject(TransferError::Storage),
            },
            UploadPhase::Reading { index } => match event {
                StorageEvent::Data(bytes) => {
                    match self.merged_size.checked_add(bytes.len() as u64) {
                        Some(size) => {
                            self.phase = UploadPhase::Appending { index };
                            self.merged_size = size;
                            UploadStep::Perform(
                                StorageAction::Append {
                                    path: merged_path_of(self.root.as_str(), self.file_id.as_str()),
                                    data: bytes,
                                },
                            )
                        },
                        None => self.reject(TransferError::Storage),
                    }
                },
                _ => self.reject(TransferError::Storage),
            },
            UploadPhase::Appending { index } => match event {
                StorageEvent::Done => {
                    if index < usize::MAX && index + 1 < self.total_segments {
                        self.read(index + 1)
                    } else {
                        self.phase = UploadPhase::Flushing;
                        UploadStep::Perform(
                            StorageAction::Flush {
                                path: merged_path_of(self.root.as_str(), self.file_id.as_str()),
                            },
                        )
                    }
                },
                _ => self.reject(TransferError::Storage),
            },
            UploadPhase::Flushing => match event {
                StorageEvent::Done => {
                    self.phase = UploadPhase::Cleaning;
                    UploadStep::Perform(
                        StorageAction::RemoveDirAll {
                            path: segment_dir_of(self.root.as_str(), self.file_id.as_str()),
                        },
                    )
                },
                _ => self.reject(TransferError::Storage),
            },
            UploadPhase::Cleaning => {
                let record: FileInfo = self.merged();
                self.phase = UploadPhase::Finished;
                UploadStep::Finish(UploadOutcome::Completed(record))
            },
            UploadPhase::Finished => self.reject(TransferError::Storage),
        }
    }
}

/// The registry after an upload session's outcome: one more record after a
/// completed upload, and no change otherwise.
pub open spec fn registry_after(registry: Seq<FileInfoView>, outcome: OutcomeView) -> Seq<FileInfoView> {
    match outcome {
        OutcomeView::Completed(record) => registry.push(record),
        _ => registry,
    }
}

/// The reply that an outcome amounts to.
pub open spec fn reply_of(outcome: OutcomeView) -> Result<FileInfoView, TransferError> {
    match outcome {
        OutcomeView::SegmentStored(record) => Ok(record),
        OutcomeView::Completed(record) => Ok(record),
        OutcomeView::Rejected(error) => Err(error),
    }
}

/// The view of a reply.
pub open spec fn reply_view(reply: Result<FileInfo, TransferError>) -> Result<FileInfoView, TransferError> {
    match reply {
        Ok(record) => Ok(record@),
        Err(error) => Err(error),
    }
}

impl UploadOutcome {
    /// Brings the outcome to the registry and gives the reply to the client:
    /// the record of a completed upload is appended, nothing else changes
    /// the registry.
    pub fn commit(self, registry: &mut FileList) -> (reply: Result<FileInfo, TransferError>)
        ensures
            final(registry)@ == registry_after(old(registry)@, self@),
            reply_view(reply) == reply_of(self@),
            ids_unique(old(registry)@) && (self@ matches OutcomeView::Completed(record) ==> !has_id(
                old(registry)@,
                record.id,
            )) ==> ids_unique(final(registry)@),
    {
        match self {
            UploadOutcome::SegmentStored(record) => Ok(record),
            UploadOutcome::Completed(record) => {
                registry.add_file(record.clone());
                Ok(record)
            },
            UploadOutcome::Rejected(error) => Err(error),
        }
    }
}

} // verus!
