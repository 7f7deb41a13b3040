//! Downloading a shared file: finding its record and describing the response.

use vstd::prelude::*;
use vstd::string::StringExecFns;
use crate::error::TransferError;
use crate::models::{has_id, is_first_with_id, FileInfoView, FileList};

verus! {

/// The `Content-Disposition` header that offers a file under `name`.
pub open spec fn content_disposition(name: Seq<char>) -> Seq<char> {
    "attachment; filename=\""@ + name + "\""@
}

/// What has to be read, and the headers to send with it.
#[derive(Debug)]
pub struct DownloadPlan {
    /// The file to read.
    pub path: String,
    /// The `Content-Type` header.
    pub content_type: String,
    /// The `Content-Disposition` header.
    pub content_disposition: String,
}

/// What a [`DownloadPlan`] holds, as plain mathematical values.
pub struct DownloadPlanView {
    pub path: Seq<char>,
    pub content_type: Seq<char>,
    pub content_disposition: Seq<char>,
}

impl View for DownloadPlan {
    type V = DownloadPlanView;

    open spec fn view(&self) -> DownloadPlanView {
        DownloadPlanView {
            path: self.path@,
            content_type: self.content_type@,
            content_disposition: self.content_disposition@,
        }
    }
}

/// The plan to download the file that `record` describes.
pub open spec fn plan_for(record: FileInfoView) -> DownloadPlanView {
    DownloadPlanView {
        path: record.path,
        content_type: record.mime_type,
        content_disposition: content_disposition(record.name),
    }
}

/// The response to a download: the headers and the file's bytes.
#[derive(Debug)]
pub struct DownloadResponse {
    pub content_type: String,
    pub content_disposition: String,
    pub body: Vec<u8>,
}

/// What a [`DownloadResponse`] holds, as plain mathematical values.
pub struct DownloadResponseView {
    pub content_type: Seq<char>,
    pub content_disposition: Seq<char>,
    pub body: Seq<u8>,
}

impl View for DownloadResponse {
    type V = DownloadResponseView;

    open spec fn view(&self) -> DownloadResponseView {
        DownloadResponseView {
            content_type: self.content_type@,
            content_disposition: self.content_disposition@,
            body: self.body@,
        }
    }
}

/// The plan to download the file `id`: not found when the registry has no
/// record of it, else the path and headers of its first record.
pub fn plan_download(registry: &FileList, id: &str) -> (plan: Result<DownloadPlan, TransferError>)
    ensures
        match plan {
            Ok(p) => exists|i: int| is_first_with_id(registry@, id@, i) && p@ == plan_for(registry@[i]),
            Err(e) => e == TransferError::NotFound && !has_id(registry@, id@),
        },
{
    match registry.get_file_by_id(id) {
        Some(record) => {
            let mut disposition: String = String::from_str("attachment; filename=\"");
            disposition.append(record.name.as_str());
            disposition.append("\"");
            Ok(
                DownloadPlan {
                    path: record.path.clone(),
                    content_type: record.mime_type.clone(),
                    content_disposition: disposition,
                },
            )
        },
        None => Err(TransferError::NotFound),
    }
}

/// The response once the file has been read: its bytes with the plan's
/// headers, or a storage error when it could not be opened or read.
pub fn finish_download(plan: DownloadPlan, contents: Option<Vec<u8>>) -> (response: Result<
    DownloadResponse,
    TransferError,
>)
    ensures
        match contents {
            Some(bytes) => response is Ok && response->Ok_0@ == (DownloadResponseView {
                content_type: plan@.content_type,
                content_disposition: plan@.content_disposition,
                body: bytes@,
            }),
            None => response is Err && response->Err_0 == TransferError::Storage,
        },
{
    match contents {
        Some(body) => Ok(
            DownloadResponse {
                content_type: plan.content_type,
                content_disposition: plan.content_disposition,
                body,
            },
        ),
        None => Err(TransferError::Storage),
    }
}

} // verus!
