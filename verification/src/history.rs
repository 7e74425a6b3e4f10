//! Recording history: where it lives, and what a stored recording reports.

use vstd::prelude::*;

use crate::config::{join_path, path_join};

verus! {

/// One stored recording, as listed in the history.
#[derive(Clone, Debug)]
pub struct RecordingSummary {
    /// Seconds since the Unix epoch when the recording was saved.
    pub created_at: i64,
    /// Length of the audio in milliseconds.
    pub duration_ms: i64,
    /// The text that was pasted.
    pub output_text: String,
    /// Size of the stored WAV file in bytes.
    pub audio_bytes: usize,
}

/// Number of recordings shown in the history list.
pub const RECENT_LIMIT: usize = 5;

/// File of the recording database inside the data directory.
pub fn history_path(data_dir: &str) -> (r: String)
    ensures
        r@ == path_join(data_dir@, "recordings.sqlite3"@),
{
    join_path(data_dir, "recordings.sqlite3")
}

/// Length in whole milliseconds of `num_samples` samples at 16 kHz.
pub fn duration_ms(num_samples: usize) -> (r: i64)
    requires
        num_samples * 1000 <= i64::MAX,
    ensures
        r == num_samples * 1000 / 16000,
{
    (num_samples as i64 * 1000) / 16000
}

/// A history row as stored: a negative audio length reads as zero.
pub fn summary_from_row(
    created_at: i64,
    duration_ms: i64,
    output_text: String,
    audio_bytes: i64,
) -> (r: RecordingSummary)
    ensures
        r.created_at == created_at,
        r.duration_ms == duration_ms,
        r.output_text == output_text,
        r.audio_bytes == if audio_bytes < 0 {
            0
        } else {
            audio_bytes as usize
        },
{
    let bytes: usize = if audio_bytes < 0 {
        0
    } else {
        audio_bytes as usize
    };
    RecordingSummary { created_at, duration_ms, output_text, audio_bytes: bytes }
}

} // verus!
