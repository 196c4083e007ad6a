//! Task assembly: a pending task whose description is the lowercased
//! transcript, carrying the configured tags and one annotation that names the
//! memo it came from.

use vstd::prelude::*;
use vstd::string::StringExecFns;

verus! {

/// Text that starts the annotation; the memo's quoted path follows it.
pub const ANNOTATION_PREFIX: &'static str = "Created from file: \"";

/// Text that ends the annotation.
pub const ANNOTATION_SUFFIX: &'static str = "\"";

/// Status of a task at creation.
#[derive(Debug, Clone, Copy, PartialEq, Eq, Structural)]
pub enum TaskStatus {
    Pending,
}

/// A note attached to a task.
pub struct Annotation {
    /// Seconds since the Unix epoch.
    pub entry: i64,
    pub description: String,
}

/// A task as handed to the task store.
pub struct TaskRecord {
    pub uuid: u128,
    pub status: TaskStatus,
    /// Creation time, in seconds since the Unix epoch.
    pub entry: i64,
    pub description: String,
    pub tags: Vec<String>,
    pub annotations: Vec<Annotation>,
}

/// The annotation text for a memo at the given canonical path.
pub open spec fn annotation_text(path: Seq<char>) -> Seq<char> {
    ANNOTATION_PREFIX@ + path + ANNOTATION_SUFFIX@
}

/// The task built from its parts: pending, with one annotation naming the memo,
/// stamped with the task's own creation time.
pub open spec fn is_task_from(
    t: TaskRecord,
    description: Seq<char>,
    path: Seq<char>,
    tags: Seq<String>,
    uuid: u128,
    now: i64,
) -> bool {
    &&& t.uuid == uuid
    &&& t.status == TaskStatus::Pending
    &&& t.entry == now
    &&& t.description@ == description
    &&& t.tags@ == tags
    &&& t.annotations@.len() == 1
    &&& t.annotations@[0].entry == now
    &&& t.annotations@[0].description@ == annotation_text(path)
}

/// The annotation text that names the memo at `canonical_path`.
pub fn annotation_for(canonical_path: &str) -> (r: String)
    ensures
        r@ == annotation_text(canonical_path@),
{
    let mut text = String::from_str(ANNOTATION_PREFIX);
    text.append(canonical_path);
    text.append(ANNOTATION_SUFFIX);
    text
}

/// Builds the task for a memo from an already normalized description, the
/// memo's canonical path, the tags, an identifier and the current time.
pub fn task_from_parts(
    description: String,
    canonical_path: &str,
    tags: Vec<String>,
    uuid: u128,
    now: i64,
) -> (r: TaskRecord)
    ensures
        is_task_from(r, description@, canonical_path@, tags@, uuid, now),
{
    let annotation = Annotation { entry: now, description: annotation_for(canonical_path) };
    let mut annotations: Vec<Annotation> = Vec::new();
    annotations.push(annotation);
    TaskRecord { uuid, status: TaskStatus::Pending, entry: now, description, tags, annotations }
}

/// What lowercasing a text yields.
pub uninterp spec fn lower_of(s: Seq<char>) -> Seq<char>;

/// Relies on `str::to_lowercase`: the result depends on the characters alone,
/// and the empty text stays empty.
#[verifier::external_body]
fn lowercase(s: &str) -> (r: String)
    ensures
        r@ == lower_of(s@),
        s@.len() == 0 ==> r@.len() == 0,
{
    s.to_lowercase()
}

/// Whether an identifier carries the version-4 (random) and RFC 4122 variant bits.
pub open spec fn is_random_uuid(id: u128) -> bool {
    (id >> 76u128) & 0xfu128 == 4 && (id >> 62u128) & 0x3u128 == 2
}

/// Relies on `uuid::Uuid::new_v4` and `Uuid::as_u128`: a fresh random identifier
/// whose version bits say 4 and whose variant bits say RFC 4122.
#[verifier::external_body]
fn fresh_uuid() -> (r: u128)
    ensures
        is_random_uuid(r),
{
    uuid::Uuid::new_v4().as_u128()
}

/// Relies on `chrono::Local::now` and `DateTime::timestamp`: the current time in
/// seconds since the Unix epoch.
#[verifier::external_body]
fn now_seconds() -> (r: i64) {
    chrono::Local::now().timestamp()
}

/// Assembles the task for a transcript: the lowercased transcript as its
/// description, a fresh random identifier, the current time, the given tags,
/// and one annotation naming the memo at `canonical_path`.
pub fn assemble_task(transcript: &str, canonical_path: &str, tags: Vec<String>) -> (r: TaskRecord)
    ensures
        is_task_from(r, lower_of(transcript@), canonical_path@, tags@, r.uuid, r.entry),
        is_random_uuid(r.uuid),
{
    let description = lowercase(transcript);
    let uuid = fresh_uuid();
    let now = now_seconds();
    task_from_parts(description, canonical_path, tags, uuid, now)
}

} // verus!
