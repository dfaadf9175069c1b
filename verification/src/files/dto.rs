//! The file-operation envelopes: one copy, a sync plan, a batch report, and the
//! bounded read/write results.
use vstd::prelude::*;
use crate::fileops::changes::Change;
use crate::output::{error, error_is, failure, host_field, payload_is, Envelope, ErrorPayload};
use crate::remote::Error;
use crate::session::remote::protocol::opt_view;
use crate::text::string_views;
use super::ops::{Batch, BatchItem, Read, Sync, Transfer, Write};

verus! {

/// One single-file copy, with the endpoints that actually hold the bytes.
#[derive(Debug)]
pub struct TransferDto {
    pub source: String,
    pub destination: String,
    pub backend: &'static str,
    pub size: u64,
    pub multiplexed: bool,
    pub duration_ms: u64,
    pub checksum_verified: bool,
    pub resume_enabled: bool,
}

/// The document shows a copy as it happened.
pub open spec fn transfer_is(dto: TransferDto, value: Transfer) -> bool {
    &&& dto.source@ == value.source@
    &&& dto.destination@ == value.destination@
    &&& dto.backend == value.backend
    &&& dto.size == value.size
    &&& dto.multiplexed == value.multiplexed
    &&& dto.duration_ms == value.duration_ms
    &&& dto.checksum_verified == value.checksum_verified
    &&& dto.resume_enabled == value.resume_enabled
}

pub fn transfer_dto(value: &Transfer) -> (r: TransferDto)
    ensures
        transfer_is(r, *value),
{
    TransferDto {
        source: value.source.clone(),
        destination: value.destination.clone(),
        backend: value.backend,
        size: value.size,
        multiplexed: value.multiplexed,
        duration_ms: value.duration_ms,
        checksum_verified: value.checksum_verified,
        resume_enabled: value.resume_enabled,
    }
}

/// `fs put` / `fs get`.
pub fn transfer(operation: &'static str, host: &str, result: &Transfer) -> (r: Envelope<TransferDto>)
    ensures
        r.schema_version == 2,
        r.operation == operation,
        r.ok,
        r.host matches Some(h) && h@ == host@,
        r.error is None,
        transfer_is(r.data, *result),
{
    Envelope {
        schema_version: 2,
        operation,
        ok: true,
        host: Some(String::from_str(host)),
        error: None,
        data: transfer_dto(result),
    }
}

/// One line of rsync's itemized plan.
#[derive(Debug)]
pub struct ChangeDto {
    pub action: &'static str,
    pub path: String,
    pub itemize: String,
}

/// The sync data.
#[derive(Debug)]
pub struct SyncDto {
    pub source: String,
    pub destination: String,
    pub backend: &'static str,
    pub dry_run: bool,
    pub delete: bool,
    pub multiplexed: bool,
    pub changes: Vec<ChangeDto>,
    pub files: u64,
    pub directories: u64,
    pub deletes: u64,
    /// Omitted when empty.
    pub notes: Vec<String>,
    pub duration_ms: u64,
}

/// The document shows a planned change as rsync reported it.
pub open spec fn change_is(dto: ChangeDto, value: Change) -> bool {
    dto.action@ == value.action.spec_as_str() && dto.path@ == value.path@ && dto.itemize@ == value.itemize@
}

/// `fs sync` / `fs mirror`: the plan and its counts, over rsync.
pub fn sync(operation: &'static str, host: &str, result: &Sync) -> (r: Envelope<SyncDto>)
    ensures
        r.schema_version == 2,
        r.operation == operation,
        r.ok,
        r.host matches Some(h) && h@ == host@,
        r.error is None,
        r.data.source@ == result.source@,
        r.data.destination@ == result.destination@,
        r.data.backend@ == "rsync"@,
        r.data.dry_run == result.dry_run,
        r.data.delete == result.delete,
        r.data.multiplexed == result.multiplexed,
        r.data.changes.len() == result.changes.len(),
        forall|i: int| 0 <= i < result.changes.len() ==> change_is(#[trigger] r.data.changes@[i], result.changes@[i]),
        r.data.files == result.files,
        r.data.directories == result.directories,
        r.data.deletes == result.deletes,
        string_views(r.data.notes@) == string_views(result.notes@),
        r.data.duration_ms == result.duration_ms,
{
    let mut changes: Vec<ChangeDto> = Vec::new();
    let mut i: usize = 0;
    while i < result.changes.len()
        invariant
            i <= result.changes.len(),
            changes.len() == i,
            forall|k: int| 0 <= k < i ==> change_is(#[trigger] changes@[k], result.changes@[k]),
        decreases result.changes.len() - i,
    {
        let c = &result.changes[i];
        changes.push(ChangeDto { action: c.action.as_str(), path: c.path.clone(), itemize: c.itemize.clone() });
        i = i + 1;
    }
    let mut notes: Vec<String> = Vec::new();
    let mut k: usize = 0;
    while k < result.notes.len()
        invariant
            k <= result.notes.len(),
            string_views(notes@) == string_views(result.notes@).take(k as int),
        decreases result.notes.len() - k,
    {
        crate::text::push_str(&mut notes, result.notes[k].as_str());
        assert(string_views(result.notes@).take(k + 1) =~= string_views(result.notes@).take(k as int).push(result.notes@[k as int]@));
        k = k + 1;
    }
    assert(string_views(result.notes@).take(k as int) =~= string_views(result.notes@));
    Envelope {
        schema_version: 2,
        operation,
        ok: true,
        host: Some(String::from_str(host)),
        error: None,
        data: SyncDto {
            source: result.source.clone(),
            destination: result.destination.clone(),
            backend: "rsync",
            dry_run: result.dry_run,
            delete: result.delete,
            multiplexed: result.multiplexed,
            changes,
            files: result.files,
            directories: result.directories,
            deletes: result.deletes,
            notes,
            duration_ms: result.duration_ms,
        },
    }
}

/// One entry of a batch report. `data` and `error` are mutually exclusive by
/// construction.
#[derive(Debug)]
pub struct BatchItemDto {
    pub op: &'static str,
    pub source: String,
    pub destination: String,
    pub ok: bool,
    /// Omitted when `None`.
    pub data: Option<TransferDto>,
    /// Omitted when `None`.
    pub error: Option<ErrorPayload>,
}

/// The batch data.
#[derive(Debug)]
pub struct BatchDto {
    pub items: Vec<BatchItemDto>,
    pub succeeded: u64,
    pub failed: u64,
}

/// The document shows a batch entry as it went.
pub open spec fn batch_item_is(dto: BatchItemDto, value: BatchItem) -> bool {
    &&& dto.op == value.operation
    &&& dto.source@ == value.source@
    &&& dto.destination@ == value.destination@
    &&& dto.ok == (value.error is None)
    &&& match value.data {
        Some(t) => dto.data matches Some(d) && transfer_is(d, t),
        None => dto.data is None,
    }
    &&& match value.error {
        Some(e) => dto.error matches Some(p) && payload_is(p, e.code@, e.message@, e.retryable),
        None => dto.error is None,
    }
}

fn batch_item_dto(item: &BatchItem) -> (r: BatchItemDto)
    ensures
        batch_item_is(r, *item),
{
    let data = match &item.data {
        Some(t) => Some(transfer_dto(t)),
        None => None,
    };
    let err = match &item.error {
        Some(e) => Some(error(e.code, e.message.as_str(), e.retryable)),
        None => None,
    };
    BatchItemDto {
        op: item.operation,
        source: item.source.clone(),
        destination: item.destination.clone(),
        ok: item.error.is_none(),
        data,
        error: err,
    }
}

/// The batch envelope is `ok` when the batch ran to the end; `failed` counts
/// the entries that did not copy. "The batch completed" and "every file
/// arrived" are different claims.
pub fn batch(host: &str, result: &Batch) -> (r: Envelope<BatchDto>)
    ensures
        r.schema_version == 2,
        r.operation@ == "fs.batch"@,
        r.ok,
        r.host matches Some(h) && h@ == host@,
        r.error is None,
        r.data.items.len() == result.items.len(),
        forall|i: int| 0 <= i < result.items.len() ==> batch_item_is(#[trigger] r.data.items@[i], result.items@[i]),
        r.data.succeeded == result.succeeded,
        r.data.failed == result.failed,
{
    let mut items: Vec<BatchItemDto> = Vec::new();
    let mut i: usize = 0;
    while i < result.items.len()
        invariant
            i <= result.items.len(),
            items.len() == i,
            forall|k: int| 0 <= k < i ==> batch_item_is(#[trigger] items@[k], result.items@[k]),
        decreases result.items.len() - i,
    {
        items.push(batch_item_dto(&result.items[i]));
        i = i + 1;
    }
    Envelope {
        schema_version: 2,
        operation: "fs.batch",
        ok: true,
        host: Some(String::from_str(host)),
        error: None,
        data: BatchDto { items, succeeded: result.succeeded, failed: result.failed },
    }
}

/// A bounded page of a remote file.
#[derive(Debug)]
pub struct FileReadDto {
    pub path: String,
    pub sha256: String,
    pub content: String,
    pub start: u64,
    pub lines: u64,
    pub total_lines: u64,
    pub truncated: bool,
}

/// `fs read`.
pub fn file_read(host: &str, result: &Read) -> (r: Envelope<FileReadDto>)
    ensures
        r.schema_version == 2,
        r.operation@ == "fs.read"@,
        r.ok,
        r.host matches Some(h) && h@ == host@,
        r.error is None,
        r.data.path@ == result.path@,
        r.data.sha256@ == result.sha256@,
        r.data.content@ == result.content@,
        r.data.start == result.start,
        r.data.lines == result.lines,
        r.data.total_lines == result.total_lines,
        r.data.truncated == result.truncated,
{
    Envelope {
        schema_version: 2,
        operation: "fs.read",
        ok: true,
        host: Some(String::from_str(host)),
        error: None,
        data: FileReadDto {
            path: result.path.clone(),
            sha256: result.sha256.clone(),
            content: result.content.clone(),
            start: result.start,
            lines: result.lines,
            total_lines: result.total_lines,
            truncated: result.truncated,
        },
    }
}

/// A written file: where, its new hash, and its size.
#[derive(Debug)]
pub struct FileWriteDto {
    pub path: String,
    pub sha256: String,
    pub bytes: u64,
}

/// `fs write` / `fs patch`.
pub fn file_write(operation: &'static str, host: &str, result: &Write) -> (r: Envelope<FileWriteDto>)
    ensures
        r.schema_version == 2,
        r.operation == operation,
        r.ok,
        r.host matches Some(h) && h@ == host@,
        r.error is None,
        r.data.path@ == result.path@,
        r.data.sha256@ == result.sha256@,
        r.data.bytes == result.bytes,
{
    Envelope {
        schema_version: 2,
        operation,
        ok: true,
        host: Some(String::from_str(host)),
        error: None,
        data: FileWriteDto { path: result.path.clone(), sha256: result.sha256.clone(), bytes: result.bytes },
    }
}

/// A failure envelope whose operation and host come from the use case.
pub fn file_failure(operation: &'static str, host: &str, error: &Error) -> (r: Envelope<Option<()>>)
    ensures
        r.schema_version == 2,
        r.operation == operation,
        !r.ok,
        opt_view(r.host) == host_field(host@),
        r.data is None,
        error_is(r.error, error.code@, error.message@, error.retryable),
{
    failure(operation, host, error.code, error.message.as_str(), error.retryable)
}

} // verus!
