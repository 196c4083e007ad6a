//! Turns recorded voice memos into pending tasks: mono audio ingestion and
//! resampling, resumable progress tracking over a watched directory, task
//! assembly and the per-memo pipeline that ties them together.

pub mod audio;
pub mod tracker;
pub mod pipeline;
pub mod task;
pub mod config;
pub mod voice_memo;
