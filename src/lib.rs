//! Filtering of FASTQ sequencing reads: grouping of lines into records,
//! positional trimming, quality and ambiguous-base filtering, de-duplication
//! of read pairs and a global base budget, with the mates of a pair kept in
//! lock-step.
pub mod config;
pub mod filter;
pub mod laws;
pub mod pipeline;
pub mod record;
pub mod run;
pub mod trim;

pub use config::{ConfigError, FilterConfig};
pub use filter::{calculate_hash, count_low_quality, count_n, bad_base_cutoff, fails_filters};
pub use record::{PairedReader, Record, RecordReader, record_lines};
pub use trim::{trim_record, trim_bytes, TrimError};
pub use pipeline::{Action, PairAction, PairedFilter, SingleEndFilter, Verdict};
pub use run::{filter_paired, filter_single_end};
