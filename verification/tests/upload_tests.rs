use std::collections::HashMap;

use justrans::error::TransferError;
use justrans::models::{FileInfo, FileList};
use justrans::upload::{
    field_kind, merged_path_of, segment_dir_of, segment_path_of, FieldKind, StorageAction,
    StorageEvent, UploadForm, UploadOutcome, UploadRequest, UploadSession, UploadStep,
};

type Files = HashMap<String, Vec<u8>>;

fn request(id: &str, index: usize, total: usize, data: &[u8]) -> UploadRequest {
    UploadRequest {
        file_name: "report.bin".to_string(),
        segment_index: index,
        total_segments: total,
        file_id: id.to_string(),
        data: data.to_vec(),
    }
}

fn perform(files: &mut Files, action: StorageAction) -> StorageEvent {
    match action {
        StorageAction::CreateDirAll { .. } => StorageEvent::Done,
        StorageAction::WriteFile { path, data } => {
            files.insert(path, data);
            StorageEvent::Done
        }
        StorageAction::Exists { path } => StorageEvent::Found(files.contains_key(&path)),
        StorageAction::CreateFile { path } => {
            files.insert(path, Vec::new());
            StorageEvent::Done
        }
        StorageAction::ReadFile { path } => match files.get(&path) {
            Some(bytes) => StorageEvent::Data(bytes.clone()),
            None => StorageEvent::Failed,
        },
        StorageAction::Append { path, data } => match files.get_mut(&path) {
            Some(bytes) => {
                bytes.extend_from_slice(&data);
                StorageEvent::Done
            }
            None => StorageEvent::Failed,
        },
        StorageAction::Flush { .. } => StorageEvent::Done,
        StorageAction::RemoveDirAll { path } => {
            let prefix = format!("{}/", path);
            files.retain(|name, _| !name.starts_with(&prefix));
            StorageEvent::Done
        }
    }
}

fn run(files: &mut Files, root: &str, request: UploadRequest) -> UploadOutcome {
    let (mut session, mut action) = UploadSession::begin(root, request);
    loop {
        let event = perform(files, action);
        match session.advance(event) {
            UploadStep::Perform(next) => action = next,
            UploadStep::Finish(outcome) => {
                assert!(session.is_finished());
                return outcome;
            }
        }
    }
}

fn upload(
    files: &mut Files,
    registry: &mut FileList,
    root: &str,
    request: UploadRequest,
) -> Result<FileInfo, TransferError> {
    run(files, root, request).commit(registry)
}

fn action_name(action: &StorageAction) -> String {
    match action {
        StorageAction::CreateDirAll { path } => format!("mkdir {}", path),
        StorageAction::WriteFile { path, data } => format!("write {} {}", path, data.len()),
        StorageAction::Exists { path } => format!("exists {}", path),
        StorageAction::CreateFile { path } => format!("create {}", path),
        StorageAction::ReadFile { path } => format!("read {}", path),
        StorageAction::Append { path, data } => format!("append {} {}", path, data.len()),
        StorageAction::Flush { path } => format!("flush {}", path),
        StorageAction::RemoveDirAll { path } => format!("rmdir {}", path),
    }
}

#[test]
fn paths_follow_the_storage_layout() {
    assert_eq!(segment_dir_of("uploads", "abc"), "uploads/abc");
    assert_eq!(segment_path_of("uploads", "abc", 0), "uploads/abc/segment_0");
    assert_eq!(segment_path_of("uploads", "abc", 12), "uploads/abc/segment_12");
    assert_eq!(merged_path_of("uploads", "abc"), "uploads/abc_file");
    assert_eq!(
        segment_path_of("/srv", "id", usize::MAX),
        format!("/srv/id/segment_{}", usize::MAX)
    );
}

#[test]
fn field_kind_tells_the_four_fields_apart() {
    assert_eq!(field_kind(Some("file")), FieldKind::File);
    assert_eq!(field_kind(Some("segment_index")), FieldKind::SegmentIndex);
    assert_eq!(field_kind(Some("total_segments")), FieldKind::TotalSegments);
    assert_eq!(field_kind(Some("file_id")), FieldKind::FileId);
    assert_eq!(field_kind(Some("File")), FieldKind::Other);
    assert_eq!(field_kind(Some("")), FieldKind::Other);
    assert_eq!(field_kind(Some("unnamed")), FieldKind::Other);
    assert_eq!(field_kind(None), FieldKind::Other);
}

#[test]
fn complete_form_gives_the_request() {
    let mut form = UploadForm::new();
    form.absorb_text(FieldKind::FileId, "abc");
    form.absorb_text(FieldKind::SegmentIndex, "2");
    form.absorb_text(FieldKind::TotalSegments, "5");
    form.absorb_file(Some("photo.png"), vec![1, 2, 3]);
    let request = form.finish().unwrap();
    assert_eq!(request.file_id, "abc");
    assert_eq!(request.segment_index, 2);
    assert_eq!(request.total_segments, 5);
    assert_eq!(request.file_name, "photo.png");
    assert_eq!(request.data, vec![1, 2, 3]);
}

#[test]
fn file_without_a_name_is_called_unknown() {
    let mut form = UploadForm::new();
    form.absorb_text(FieldKind::FileId, "abc");
    form.absorb_text(FieldKind::SegmentIndex, "0");
    form.absorb_text(FieldKind::TotalSegments, "1");
    form.absorb_file(None, vec![9]);
    assert_eq!(form.finish().unwrap().file_name, "unknown");
}

#[test]
fn each_missing_field_is_a_client_error() {
    for skip in 0..5 {
        let mut form = UploadForm::new();
        if skip != 0 {
            form.absorb_text(FieldKind::FileId, "abc");
        }
        if skip != 1 {
            form.absorb_text(FieldKind::SegmentIndex, "0");
        }
        if skip != 2 {
            form.absorb_text(FieldKind::TotalSegments, "1");
        }
        if skip == 3 {
            // the file field is there, but its payload is empty
            form.absorb_file(Some("a"), Vec::new());
        } else if skip != 4 {
            form.absorb_file(Some("a"), vec![1]);
        }
        assert_eq!(form.finish().err(), Some(TransferError::BadRequest));
    }
    assert_eq!(UploadForm::new().finish().err(), Some(TransferError::BadRequest));
}

#[test]
fn malformed_index_leaves_the_form_as_it_was() {
    let mut form = UploadForm::new();
    form.absorb_text(FieldKind::SegmentIndex, "three");
    form.absorb_text(FieldKind::TotalSegments, "-4");
    assert!(form.segment_index.is_none());
    assert!(form.total_segments.is_none());
    form.absorb_text(FieldKind::SegmentIndex, "3");
    form.absorb_text(FieldKind::SegmentIndex, "x");
    assert_eq!(form.segment_index, Some(3));
    form.absorb_text(FieldKind::FileId, "abc");
    form.absorb_file(Some("a"), vec![1]);
    assert_eq!(form.finish().err(), Some(TransferError::BadRequest));
}

#[test]
fn later_fields_replace_earlier_ones() {
    let mut form = UploadForm::new();
    form.absorb_text(FieldKind::FileId, "first");
    form.absorb_text(FieldKind::FileId, "second");
    form.absorb_text(FieldKind::SegmentIndex, "1");
    form.absorb_text(FieldKind::SegmentIndex, "2");
    form.absorb_text(FieldKind::TotalSegments, "8");
    form.absorb_text(FieldKind::TotalSegments, "9");
    form.absorb_file(Some("a"), vec![1]);
    form.absorb_file(Some("b"), Vec::new());
    let request = form.finish().unwrap();
    assert_eq!(request.file_id, "second");
    assert_eq!(request.segment_index, 2);
    assert_eq!(request.total_segments, 9);
    assert_eq!(request.file_name, "b");
    assert_eq!(request.data, vec![1]);
}

#[test]
fn text_of_another_kind_is_ignored() {
    let mut form = UploadForm::new();
    form.absorb_text(FieldKind::Other, "7");
    form.absorb_text(FieldKind::File, "7");
    assert!(form.file_name.is_none());
    assert!(form.segment_index.is_none());
    assert!(form.total_segments.is_none());
    assert!(form.file_id.is_none());
    assert!(form.file_data.is_none());
}

#[test]
fn single_segment_upload_is_registered_in_one_round_trip() {
    let mut files = Files::new();
    let mut registry = FileList::new();
    let reply = upload(&mut files, &mut registry, "uploads", request("solo", 0, 1, b"hello"));
    let record = reply.unwrap();
    assert_eq!(record.id, "solo");
    assert_eq!(record.name, "report.bin");
    assert_eq!(record.path, "uploads/solo_file");
    assert_eq!(record.size, 5);
    assert_eq!(record.mime_type, "application/octet-stream");
    assert_eq!(registry.len(), 1);
    let listed = registry.get_file_by_id("solo").unwrap();
    assert_eq!(listed.path, "uploads/solo_file");
    assert_eq!(listed.size, 5);
    assert_eq!(files.get("uploads/solo_file"), Some(&b"hello".to_vec()));
    assert_eq!(files.len(), 1);
}

#[test]
fn segment_before_the_last_is_acknowledged_without_a_registry_entry() {
    let mut files = Files::new();
    let mut registry = FileList::new();
    let reply = upload(&mut files, &mut registry, "uploads", request("abc", 1, 3, b"wxyz"));
    let ack = reply.unwrap();
    assert_eq!(ack.id, "abc");
    assert_eq!(ack.name, "segment_2 of 3");
    assert_eq!(ack.path, "uploads/abc/segment_1");
    assert_eq!(ack.size, 4);
    assert_eq!(ack.mime_type, "application/octet-stream");
    assert!(registry.is_empty());
    assert_eq!(files.get("uploads/abc/segment_1"), Some(&b"wxyz".to_vec()));
    assert_eq!(files.len(), 1);
}

#[test]
fn segments_merge_in_index_order_whatever_the_arrival_order() {
    let mut files = Files::new();
    let mut registry = FileList::new();
    for (index, data) in [(2usize, &b"cc"[..]), (0, b"a"), (1, b"bbb")] {
        let ack = upload(&mut files, &mut registry, "up", request("f", index, 4, data)).unwrap();
        assert_eq!(ack.name, format!("segment_{} of 4", index + 1));
        assert!(registry.is_empty());
    }
    let record = upload(&mut files, &mut registry, "up", request("f", 3, 4, b"dddd")).unwrap();
    assert_eq!(record.size, 10);
    assert_eq!(record.path, "up/f_file");
    assert_eq!(files.get("up/f_file"), Some(&b"abbbccdddd".to_vec()));
    assert_eq!(files.len(), 1);
    assert_eq!(registry.len(), 1);
    assert_eq!(registry.get_file_by_id("f").unwrap().size, 10);
}

#[test]
fn resent_segment_replaces_the_earlier_one() {
    let mut files = Files::new();
    let mut registry = FileList::new();
    upload(&mut files, &mut registry, "up", request("f", 0, 3, b"old-old")).unwrap();
    upload(&mut files, &mut registry, "up", request("f", 1, 3, b"B")).unwrap();
    upload(&mut files, &mut registry, "up", request("f", 0, 3, b"new")).unwrap();
    upload(&mut files, &mut registry, "up", request("f", 1, 3, b"BB")).unwrap();
    let record = upload(&mut files, &mut registry, "up", request("f", 2, 3, b"C")).unwrap();
    assert_eq!(files.get("up/f_file"), Some(&b"newBBC".to_vec()));
    assert_eq!(record.size, 6);
}

#[test]
fn missing_segment_is_a_client_error_and_the_retry_succeeds() {
    let mut files = Files::new();
    let mut registry = FileList::new();
    upload(&mut files, &mut registry, "up", request("f", 0, 3, b"aa")).unwrap();
    let reply = upload(&mut files, &mut registry, "up", request("f", 2, 3, b"cc"));
    assert_eq!(reply.err(), Some(TransferError::BadRequest));
    assert!(registry.is_empty());
    assert!(!files.contains_key("up/f_file"));
    assert_eq!(files.get("up/f/segment_0"), Some(&b"aa".to_vec()));
    assert_eq!(files.get("up/f/segment_2"), Some(&b"cc".to_vec()));
    assert_eq!(files.len(), 2);

    upload(&mut files, &mut registry, "up", request("f", 1, 3, b"bb")).unwrap();
    assert!(registry.is_empty());
    let record = upload(&mut files, &mut registry, "up", request("f", 2, 3, b"cc")).unwrap();
    assert_eq!(record.size, 6);
    assert_eq!(files.get("up/f_file"), Some(&b"aabbcc".to_vec()));
    assert_eq!(registry.len(), 1);
    assert_eq!(files.len(), 1);
}

#[test]
fn uploads_of_different_files_do_not_mix() {
    let mut files = Files::new();
    let mut registry = FileList::new();
    upload(&mut files, &mut registry, "up", request("x", 0, 2, b"x0")).unwrap();
    upload(&mut files, &mut registry, "up", request("y", 0, 2, b"y0")).unwrap();
    upload(&mut files, &mut registry, "up", request("x", 1, 2, b"x1")).unwrap();
    assert_eq!(files.get("up/x_file"), Some(&b"x0x1".to_vec()));
    assert_eq!(files.get("up/y/segment_0"), Some(&b"y0".to_vec()));
    upload(&mut files, &mut registry, "up", request("y", 1, 2, b"y1")).unwrap();
    assert_eq!(files.get("up/y_file"), Some(&b"y0y1".to_vec()));
    assert_eq!(files.get("up/x_file"), Some(&b"x0x1".to_vec()));
    assert_eq!(registry.len(), 2);
    assert_eq!(registry.files[0].id, "x");
    assert_eq!(registry.files[1].id, "y");
}

#[test]
fn session_asks_for_the_actions_in_protocol_order() {
    let mut files = Files::new();
    files.insert("up/f/segment_0".to_string(), b"ab".to_vec());
    let (mut session, mut action) = UploadSession::begin("up", request("f", 1, 2, b"cde"));
    let mut asked = Vec::new();
    let outcome = loop {
        asked.push(action_name(&action));
        let event = perform(&mut files, action);
        match session.advance(event) {
            UploadStep::Perform(next) => action = next,
            UploadStep::Finish(outcome) => break outcome,
        }
    };
    assert_eq!(
        asked,
        vec![
            "mkdir up/f",
            "write up/f/segment_1 3",
            "exists up/f/segment_0",
            "exists up/f/segment_1",
            "create up/f_file",
            "read up/f/segment_0",
            "append up/f_file 2",
            "read up/f/segment_1",
            "append up/f_file 3",
            "flush up/f_file",
            "rmdir up/f",
        ]
    );
    assert!(matches!(outcome, UploadOutcome::Completed(_)));
}

#[test]
fn every_segment_is_probed_even_after_one_is_missing() {
    let mut files = Files::new();
    let (mut session, mut action) = UploadSession::begin("up", request("f", 2, 3, b"z"));
    let mut asked = Vec::new();
    let outcome = loop {
        asked.push(action_name(&action));
        let event = perform(&mut files, action);
        match session.advance(event) {
            UploadStep::Perform(next) => action = next,
            UploadStep::Finish(outcome) => break outcome,
        }
    };
    assert_eq!(
        asked,
        vec![
            "mkdir up/f",
            "write up/f/segment_2 1",
            "exists up/f/segment_0",
            "exists up/f/segment_1",
            "exists up/f/segment_2",
        ]
    );
    assert!(matches!(outcome, UploadOutcome::Rejected(TransferError::BadRequest)));
}

#[test]
fn failing_storage_is_a_storage_error_at_every_step_but_the_cleanup() {
    // steps of a complete two-segment upload: 11 actions, the last is the cleanup
    for failing in 0..11 {
        let mut files = Files::new();
        files.insert("up/f/segment_0".to_string(), b"ab".to_vec());
        let (mut session, mut action) = UploadSession::begin("up", request("f", 1, 2, b"cde"));
        let mut step = 0;
        let outcome = loop {
            let is_probe = matches!(action, StorageAction::Exists { .. });
            let event = perform(&mut files, action);
            let event = if step == failing && !is_probe { StorageEvent::Failed } else { event };
            step += 1;
            match session.advance(event) {
                UploadStep::Perform(next) => action = next,
                UploadStep::Finish(outcome) => break outcome,
            }
        };
        let probes = failing == 2 || failing == 3;
        if failing == 10 || probes {
            assert!(matches!(outcome, UploadOutcome::Completed(_)));
        } else {
            assert!(matches!(outcome, UploadOutcome::Rejected(TransferError::Storage)));
            let mut registry = FileList::new();
            assert_eq!(outcome.commit(&mut registry).err(), Some(TransferError::Storage));
            assert!(registry.is_empty());
        }
    }
}

#[test]
fn unexpected_event_is_a_storage_error() {
    let (mut session, _) = UploadSession::begin("up", request("f", 0, 1, b"a"));
    let step = session.advance(StorageEvent::Found(true));
    assert!(matches!(step, UploadStep::Finish(UploadOutcome::Rejected(TransferError::Storage))));
    assert!(session.is_finished());
    let again = session.advance(StorageEvent::Done);
    assert!(matches!(again, UploadStep::Finish(UploadOutcome::Rejected(TransferError::Storage))));
}

#[test]
fn segment_vanishing_before_the_merge_is_a_storage_error_without_a_registry_entry() {
    let mut files = Files::new();
    files.insert("up/f/segment_0".to_string(), b"ab".to_vec());
    let (mut session, mut action) = UploadSession::begin("up", request("f", 1, 2, b"cde"));
    let outcome = loop {
        if matches!(action, StorageAction::CreateFile { .. }) {
            files.remove("up/f/segment_0");
        }
        let event = perform(&mut files, action);
        match session.advance(event) {
            UploadStep::Perform(next) => action = next,
            UploadStep::Finish(outcome) => break outcome,
        }
    };
    let mut registry = FileList::new();
    assert_eq!(outcome.commit(&mut registry).err(), Some(TransferError::Storage));
    assert!(registry.is_empty());
}

#[test]
fn zero_total_segments_never_merges() {
    let mut files = Files::new();
    let mut registry = FileList::new();
    let ack = upload(&mut files, &mut registry, "up", request("f", 0, 0, b"a")).unwrap();
    assert_eq!(ack.name, "segment_1 of 0");
    assert!(registry.is_empty());
    assert!(!files.contains_key("up/f_file"));
}

#[test]
fn index_beyond_the_total_is_stored_and_acknowledged() {
    let mut files = Files::new();
    let mut registry = FileList::new();
    let ack = upload(&mut files, &mut registry, "up", request("f", 7, 3, b"a")).unwrap();
    assert_eq!(ack.name, "segment_8 of 3");
    assert_eq!(ack.path, "up/f/segment_7");
    assert!(registry.is_empty());
}

#[test]
fn largest_index_is_acknowledged_without_overflow() {
    let mut files = Files::new();
    let mut registry = FileList::new();
    let ack = upload(&mut files, &mut registry, "up", request("f", usize::MAX, 0, b"a")).unwrap();
    assert_eq!(ack.name, format!("segment_{} of 0", usize::MAX as u128 + 1));
}

#[test]
fn commit_changes_the_registry_for_a_completed_upload_only() {
    let record = |name: &str| FileInfo {
        id: "id".to_string(),
        name: name.to_string(),
        path: "p".to_string(),
        size: 1,
        mime_type: "m".to_string(),
    };
    let mut registry = FileList::new();
    let reply = UploadOutcome::SegmentStored(record("ack")).commit(&mut registry);
    assert_eq!(reply.unwrap().name, "ack");
    assert!(registry.is_empty());
    let reply = UploadOutcome::Rejected(TransferError::BadRequest).commit(&mut registry);
    assert_eq!(reply.err(), Some(TransferError::BadRequest));
    assert!(registry.is_empty());
    let reply = UploadOutcome::Completed(record("done")).commit(&mut registry);
    assert_eq!(reply.unwrap().name, "done");
    assert_eq!(registry.len(), 1);
    assert_eq!(registry.files[0].name, "done");
}

#[test]
fn interleaved_sessions_register_complete_files_only() {
    let mut files = Files::new();
    let mut registry = FileList::new();
    files.insert("up/a/segment_0".to_string(), b"a0".to_vec());
    files.insert("up/b/segment_0".to_string(), b"b0!".to_vec());
    let (mut first, mut first_action) = UploadSession::begin("up", request("a", 1, 2, b"a1"));
    let (mut second, mut second_action) = UploadSession::begin("up", request("b", 1, 2, b"b1"));
    let mut first_open = true;
    let mut second_open = true;
    let mut turn = 0;
    while first_open || second_open {
        let take_first = first_open && (!second_open || turn % 3 != 0);
        turn += 1;
        let outcome = if take_first {
            let event = perform(&mut files, first_action);
            match first.advance(event) {
                UploadStep::Perform(next) => {
                    first_action = next;
                    None
                }
                UploadStep::Finish(outcome) => {
                    first_open = false;
                    first_action = StorageAction::Flush { path: String::new() };
                    Some(outcome)
                }
            }
        } else {
            let event = perform(&mut files, second_action);
            match second.advance(event) {
                UploadStep::Perform(next) => {
                    second_action = next;
                    None
                }
                UploadStep::Finish(outcome) => {
                    second_open = false;
                    second_action = StorageAction::Flush { path: String::new() };
                    Some(outcome)
                }
            }
        };
        if let Some(outcome) = outcome {
            outcome.commit(&mut registry).unwrap();
        }
        for listed in &registry.snapshot().files {
            let on_disk = files.get(&listed.path).unwrap();
            assert_eq!(on_disk.len() as u64, listed.size);
        }
    }
    assert_eq!(registry.len(), 2);
    assert_eq!(files.get("up/a_file"), Some(&b"a0a1".to_vec()));
    assert_eq!(files.get("up/b_file"), Some(&b"b0!b1".to_vec()));
}

#[test]
fn sessions_of_one_upload_run_side_by_side() {
    // segment 0 is there; it is sent again while the last segment merges
    for pattern in 0..8u32 {
        let mut files = Files::new();
        let mut registry = FileList::new();
        upload(&mut files, &mut registry, "up", request("f", 0, 2, b"first")).unwrap();
        let (mut resend, mut resend_action) = UploadSession::begin("up", request("f", 0, 2, b"again!"));
        let (mut last, mut last_action) = UploadSession::begin("up", request("f", 1, 2, b"tail"));
        let mut resend_open = true;
        let mut last_open = true;
        let mut turn = 0;
        while resend_open || last_open {
            let take_resend = resend_open && (!last_open || (pattern >> (turn % 3)) & 1 == 1);
            turn += 1;
            let outcome = if take_resend {
                let event = perform(&mut files, resend_action);
                match resend.advance(event) {
                    UploadStep::Perform(next) => {
                        resend_action = next;
                        None
                    }
                    UploadStep::Finish(outcome) => {
                        resend_open = false;
                        resend_action = StorageAction::Flush { path: String::new() };
                        Some(outcome)
                    }
                }
            } else {
                let event = perform(&mut files, last_action);
                match last.advance(event) {
                    UploadStep::Perform(next) => {
                        last_action = next;
                        None
                    }
                    UploadStep::Finish(outcome) => {
                        last_open = false;
                        last_action = StorageAction::Flush { path: String::new() };
                        Some(outcome)
                    }
                }
            };
            if let Some(outcome) = outcome {
                let _ = outcome.commit(&mut registry);
            }
            for listed in &registry.snapshot().files {
                let on_disk = files.get(&listed.path).unwrap();
                assert_eq!(on_disk.len() as u64, listed.size);
            }
        }
        assert_eq!(registry.len(), 1);
        let merged = files.get("up/f_file").unwrap();
        assert!(merged == b"firsttail" || merged == b"again!tail");
        assert_eq!(registry.files[0].size, merged.len() as u64);
    }
}

#[test]
fn segment_sent_again_after_the_merge_starts_a_new_directory() {
    let mut files = Files::new();
    let mut registry = FileList::new();
    upload(&mut files, &mut registry, "up", request("f", 0, 2, b"ab")).unwrap();
    upload(&mut files, &mut registry, "up", request("f", 1, 2, b"cd")).unwrap();
    assert_eq!(files.len(), 1);
    let ack = upload(&mut files, &mut registry, "up", request("f", 0, 2, b"xy")).unwrap();
    assert_eq!(ack.name, "segment_1 of 2");
    assert_eq!(files.get("up/f/segment_0"), Some(&b"xy".to_vec()));
    assert_eq!(files.get("up/f_file"), Some(&b"abcd".to_vec()));
    assert_eq!(registry.len(), 1);
}
