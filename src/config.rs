use vstd::prelude::*;

verus! {

/// Settings of one filtering run, fixed before the first record is read.
///
/// The share of low-quality bases that drops a read is the fraction
/// `limit_num / limit_den`.
#[derive(Clone, Copy, Debug)]
pub struct FilterConfig {
    /// Number of leading bases removed from every read.
    pub trim_start: usize,
    /// End of the kept window, exclusive; 0 leaves the end open.
    pub trim_end: usize,
    /// Quality bytes at or below this value count as bad bases.
    pub quality_threshold: u8,
    pub limit_num: u64,
    pub limit_den: u64,
    /// Reads with more `N` bases than this are dropped.
    pub max_n_count: usize,
    /// Total number of bases to write (counting mate 1 only); 0 for no limit.
    pub base_budget: usize,
    /// Drop read pairs whose first mate repeats an earlier one.
    pub deduplicate: bool,
    /// Only trim and truncate: no quality, `N` or duplicate filtering.
    pub truncate_only: bool,
}

/// Why a set of settings cannot be used.
#[derive(Clone, Copy, Debug, PartialEq, Eq)]
pub enum ConfigError {
    /// The window ends before it starts.
    InvertedWindow,
    /// The quality threshold lies outside 1 to 100.
    QualityOutOfRange,
    /// The bad-base fraction lies outside the open interval (0, 1).
    LimitOutOfRange,
}

impl FilterConfig {
    /// The settings that a run accepts.
    pub open spec fn wf(&self) -> bool {
        &&& self.trim_end == 0 || self.trim_start <= self.trim_end
        &&& 1 <= self.quality_threshold <= 100
        &&& 0 < self.limit_num < self.limit_den
    }

    /// Checks the settings; the first failing check, in the order window,
    /// quality, fraction, gives the error.
    pub fn new(
        trim_start: usize,
        trim_end: usize,
        quality_threshold: u8,
        limit_num: u64,
        limit_den: u64,
        max_n_count: usize,
        base_budget: usize,
        deduplicate: bool,
        truncate_only: bool,
    ) -> (r: Result<FilterConfig, ConfigError>)
        ensures
            trim_end != 0 && trim_start > trim_end ==> r == Err::<FilterConfig, ConfigError>(
                ConfigError::InvertedWindow,
            ),
            !(trim_end != 0 && trim_start > trim_end) && !(1 <= quality_threshold <= 100) ==> r
                == Err::<FilterConfig, ConfigError>(ConfigError::QualityOutOfRange),
            !(trim_end != 0 && trim_start > trim_end) && (1 <= quality_threshold <= 100) && !(0
                < limit_num < limit_den) ==> r == Err::<FilterConfig, ConfigError>(
                ConfigError::LimitOutOfRange,
            ),
            r.is_ok() <==> (trim_end == 0 || trim_start <= trim_end) && (1 <= quality_threshold
                <= 100) && (0 < limit_num < limit_den),
            r.is_ok() ==> ({
                let c = r.unwrap();
                &&& c.wf()
                &&& c.trim_start == trim_start
                &&& c.trim_end == trim_end
                &&& c.quality_threshold == quality_threshold
                &&& c.limit_num == limit_num
                &&& c.limit_den == limit_den
                &&& c.max_n_count == max_n_count
                &&& c.base_budget == base_budget
                &&& c.deduplicate == deduplicate
                &&& c.truncate_only == truncate_only
            }),
    {
        if trim_end != 0 && trim_start > trim_end {
            return Err(ConfigError::InvertedWindow);
        }
        if quality_threshold < 1 || quality_threshold > 100 {
            return Err(ConfigError::QualityOutOfRange);
        }
        if limit_num == 0 || limit_num >= limit_den {
            return Err(ConfigError::LimitOutOfRange);
        }
        Ok(
            FilterConfig {
                trim_start,
                trim_end,
                quality_threshold,
                limit_num,
                limit_den,
                max_n_count,
                base_budget,
                deduplicate,
                truncate_only,
            },
        )
    }

    /// The default settings: no trimming, threshold 55, fraction 1/5, at most
    /// ten `N`s, no budget, no de-duplication, filtering on.
    pub fn standard() -> (r: FilterConfig)
        ensures
            r.wf(),
            r.trim_start == 0,
            r.trim_end == 0,
            r.quality_threshold == 55,
            r.limit_num == 1,
            r.limit_den == 5,
            r.max_n_count == 10,
            r.base_budget == 0,
            !r.deduplicate,
            !r.truncate_only,
    {
        FilterConfig {
            trim_start: 0,
            trim_end: 0,
            quality_threshold: 55,
            limit_num: 1,
            limit_den: 5,
            max_n_count: 10,
            base_budget: 0,
            deduplicate: false,
            truncate_only: false,
        }
    }
}

} // verus!
