use justrans::download::{finish_download, plan_download};
use justrans::error::TransferError;
use justrans::models::{FileInfo, FileList};

fn registry() -> FileList {
    let mut list = FileList::new();
    list.add_file(FileInfo {
        id: "a1".to_string(),
        name: "notes.txt".to_string(),
        path: "/srv/share/notes.txt".to_string(),
        size: 12,
        mime_type: "text/plain".to_string(),
    });
    list.add_file(FileInfo {
        id: "b2".to_string(),
        name: "movie.bin".to_string(),
        path: "uploads/b2_file".to_string(),
        size: 3,
        mime_type: "application/octet-stream".to_string(),
    });
    list
}

#[test]
fn download_of_an_unknown_id_is_not_found() {
    let list = registry();
    assert_eq!(plan_download(&list, "zz").err(), Some(TransferError::NotFound));
    assert_eq!(plan_download(&list, "").err(), Some(TransferError::NotFound));
    assert_eq!(plan_download(&FileList::new(), "a1").err(), Some(TransferError::NotFound));
}

#[test]
fn download_plan_names_the_path_and_the_headers() {
    let list = registry();
    let plan = plan_download(&list, "b2").unwrap();
    assert_eq!(plan.path, "uploads/b2_file");
    assert_eq!(plan.content_type, "application/octet-stream");
    assert_eq!(plan.content_disposition, "attachment; filename=\"movie.bin\"");
    let plan = plan_download(&list, "a1").unwrap();
    assert_eq!(plan.path, "/srv/share/notes.txt");
    assert_eq!(plan.content_type, "text/plain");
    assert_eq!(plan.content_disposition, "attachment; filename=\"notes.txt\"");
}

#[test]
fn download_of_a_file_that_is_gone_is_a_storage_error() {
    let list = registry();
    let plan = plan_download(&list, "b2").unwrap();
    assert_eq!(finish_download(plan, None).err(), Some(TransferError::Storage));
}

#[test]
fn download_response_carries_the_bytes_and_the_headers() {
    let list = registry();
    let plan = plan_download(&list, "b2").unwrap();
    let response = finish_download(plan, Some(vec![7, 8, 9])).unwrap();
    assert_eq!(response.body, vec![7, 8, 9]);
    assert_eq!(response.content_type, "application/octet-stream");
    assert_eq!(response.content_disposition, "attachment; filename=\"movie.bin\"");
    let plan = plan_download(&list, "a1").unwrap();
    let empty = finish_download(plan, Some(Vec::new())).unwrap();
    assert!(empty.body.is_empty());
}

#[test]
fn each_failure_has_its_status() {
    assert_eq!(TransferError::BadRequest.status_code(), 400);
    assert_eq!(TransferError::NotFound.status_code(), 404);
    assert_eq!(TransferError::Storage.status_code(), 500);
}
