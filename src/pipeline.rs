use vstd::prelude::*;
use std::collections::HashSet;
use crate::config::FilterConfig;
use crate::filter::{calculate_hash, fails_filters, fingerprint, rejected};
use crate::record::{Record, RecordView};
use crate::trim::{trim_fits, trim_record, trimmed, TrimError};

verus! {

broadcast use vstd::std_specs::hash::group_hash_axioms;

/// What becomes of one record (or one pair of mates).
pub enum Verdict {
    /// Written to the output.
    Emit,
    /// Filtered out; the run goes on.
    Drop,
    /// The base budget is used up: the record is not written and the run ends.
    Halt,
    /// The trim window does not fit: the run fails.
    Fail,
}

/// What the caller is to do with a single-end record.
#[derive(Debug)]
pub enum Action {
    Write(Record),
    Skip,
    Stop,
}

/// What the caller is to do with a pair of mates: both are written, or neither.
#[derive(Debug)]
pub enum PairAction {
    Write(Record, Record),
    Skip,
    Stop,
}

/// Whether writing `len` more bases overruns the budget, when `used` have
/// been counted so far.
pub open spec fn budget_exceeded(cfg: FilterConfig, used: nat, len: nat) -> bool {
    cfg.base_budget != 0 && used + len > cfg.base_budget
}

/// The count of bases after writing `len` more.
pub open spec fn used_after(cfg: FilterConfig, used: nat, len: nat) -> nat {
    if cfg.base_budget != 0 {
        used + len
    } else {
        used
    }
}

/// The fate of a single-end record, `used` bases having been counted before it.
pub open spec fn se_verdict(cfg: FilterConfig, used: nat, r: RecordView) -> Verdict {
    if !trim_fits(r, cfg.trim_start as nat) {
        Verdict::Fail
    } else {
        let t = trimmed(r, cfg.trim_start as nat, cfg.trim_end as nat);
        if !cfg.truncate_only && rejected(t, cfg) {
            Verdict::Drop
        } else if budget_exceeded(cfg, used, t.sequence.len()) {
            Verdict::Halt
        } else {
            Verdict::Emit
        }
    }
}

/// The records that a single-end run writes for the input `recs`, from a state
/// with `used` bases counted.
pub open spec fn se_written(cfg: FilterConfig, used: nat, recs: Seq<RecordView>) -> Seq<
    RecordView,
>
    decreases recs.len(),
{
    if recs.len() == 0 {
        seq![]
    } else {
        let t = trimmed(recs[0], cfg.trim_start as nat, cfg.trim_end as nat);
        match se_verdict(cfg, used, recs[0]) {
            Verdict::Emit => seq![t] + se_written(
                cfg,
                used_after(cfg, used, t.sequence.len()),
                recs.drop_first(),
            ),
            Verdict::Drop => se_written(cfg, used, recs.drop_first()),
            _ => seq![],
        }
    }
}

/// Whether a single-end run on `recs` ends by a window that does not fit.
pub open spec fn se_fails(cfg: FilterConfig, used: nat, recs: Seq<RecordView>) -> bool
    decreases recs.len(),
{
    if recs.len() == 0 {
        false
    } else {
        let t = trimmed(recs[0], cfg.trim_start as nat, cfg.trim_end as nat);
        match se_verdict(cfg, used, recs[0]) {
            Verdict::Fail => true,
            Verdict::Halt => false,
            Verdict::Drop => se_fails(cfg, used, recs.drop_first()),
            Verdict::Emit => se_fails(
                cfg,
                used_after(cfg, used, t.sequence.len()),
                recs.drop_first(),
            ),
        }
    }
}

/// Whether the fingerprint of the first mate is already among those seen.
pub open spec fn is_repeat(cfg: FilterConfig, seen: Set<u64>, t1: RecordView) -> bool {
    !cfg.truncate_only && cfg.deduplicate && seen.contains(fingerprint(t1.sequence))
}

/// The fingerprints seen after a pair with trimmed first mate `t1` passed the filters.
pub open spec fn seen_after(cfg: FilterConfig, seen: Set<u64>, t1: RecordView) -> Set<u64> {
    if !cfg.truncate_only && cfg.deduplicate {
        seen.insert(fingerprint(t1.sequence))
    } else {
        seen
    }
}

/// The fate of a pair of mates: dropped when either mate fails the checks,
/// or when the first mate repeats; the budget counts the first mate only.
pub open spec fn pe_verdict(
    cfg: FilterConfig,
    used: nat,
    seen: Set<u64>,
    r1: RecordView,
    r2: RecordView,
) -> Verdict {
    if !trim_fits(r1, cfg.trim_start as nat) || !trim_fits(r2, cfg.trim_start as nat) {
        Verdict::Fail
    } else {
        let t1 = trimmed(r1, cfg.trim_start as nat, cfg.trim_end as nat);
        let t2 = trimmed(r2, cfg.trim_start as nat, cfg.trim_end as nat);
        if !cfg.truncate_only && (rejected(t1, cfg) || rejected(t2, cfg)) {
            Verdict::Drop
        } else if is_repeat(cfg, seen, t1) {
            Verdict::Drop
        } else if budget_exceeded(cfg, used, t1.sequence.len()) {
            Verdict::Halt
        } else {
            Verdict::Emit
        }
    }
}

/// The records that a paired run writes to the first output (`first`) or to
/// the second, for the input pairs `pairs`.
pub open spec fn pe_written(
    cfg: FilterConfig,
    used: nat,
    seen: Set<u64>,
    pairs: Seq<(RecordView, RecordView)>,
    first: bool,
) -> Seq<RecordView>
    decreases pairs.len(),
{
    if pairs.len() == 0 {
        seq![]
    } else {
        let (r1, r2) = pairs[0];
        let t1 = trimmed(r1, cfg.trim_start as nat, cfg.trim_end as nat);
        let t2 = trimmed(r2, cfg.trim_start as nat, cfg.trim_end as nat);
        match pe_verdict(cfg, used, seen, r1, r2) {
            Verdict::Emit => seq![if first { t1 } else { t2 }] + pe_written(
                cfg,
                used_after(cfg, used, t1.sequence.len()),
                seen_after(cfg, seen, t1),
                pairs.drop_first(),
                first,
            ),
            Verdict::Drop => pe_written(cfg, used, seen, pairs.drop_first(), first),
            _ => seq![],
        }
    }
}

/// Whether a paired run on `pairs` ends by a window that does not fit.
pub open spec fn pe_fails(
    cfg: FilterConfig,
    used: nat,
    seen: Set<u64>,
    pairs: Seq<(RecordView, RecordView)>,
) -> bool
    decreases pairs.len(),
{
    if pairs.len() == 0 {
        false
    } else {
        let (r1, r2) = pairs[0];
        let t1 = trimmed(r1, cfg.trim_start as nat, cfg.trim_end as nat);
        match pe_verdict(cfg, used, seen, r1, r2) {
            Verdict::Fail => true,
            Verdict::Halt => false,
            Verdict::Drop => pe_fails(cfg, used, seen, pairs.drop_first()),
            Verdict::Emit => pe_fails(
                cfg,
                used_after(cfg, used, t1.sequence.len()),
                seen_after(cfg, seen, t1),
                pairs.drop_first(),
            ),
        }
    }
}

/// Checks the budget for a record of `len` bases and counts them.
/// Returns false, leaving the count, when they would overrun the budget.
fn charge_budget(used: &mut usize, cfg: &FilterConfig, len: usize) -> (r: bool)
    requires
        cfg.base_budget == 0 || *old(used) <= cfg.base_budget,
    ensures
        r == !budget_exceeded(*cfg, *old(used) as nat, len as nat),
        r ==> *final(used) as nat == used_after(*cfg, *old(used) as nat, len as nat),
        !r ==> *final(used) == *old(used),
        cfg.base_budget == 0 || *final(used) <= cfg.base_budget,
{
    if cfg.base_budget == 0 {
        return true;
    }
    if len > cfg.base_budget - *used {
        false
    } else {
        *used = *used + len;
        true
    }
}

/// The single-end pipeline, one record at a time.
pub struct SingleEndFilter {
    config: FilterConfig,
    used: usize,
    stopped: bool,
}

impl SingleEndFilter {
    pub closed spec fn config(&self) -> FilterConfig {
        self.config
    }

    /// Bases counted against the budget so far.
    pub closed spec fn used(&self) -> nat {
        self.used as nat
    }

    /// Whether the run has ended.
    pub closed spec fn stopped(&self) -> bool {
        self.stopped
    }

    pub closed spec fn wf(&self) -> bool {
        &&& self.config.wf()
        &&& self.config.base_budget == 0 || self.used <= self.config.base_budget
    }

    pub fn new(config: FilterConfig) -> (r: SingleEndFilter)
        requires
            config.wf(),
        ensures
            r.wf(),
            r.config() == config,
            r.used() == 0,
            !r.stopped(),
    {
        SingleEndFilter { config, used: 0, stopped: false }
    }

    /// Runs one record through trimming, filtering and the budget check.
    /// Once the run has ended every record gives `Stop`.
    pub fn process(&mut self, rec: Record) -> (r: Result<Action, TrimError>)
        requires
            old(self).wf(),
        ensures
            final(self).wf(),
            final(self).config() == old(self).config(),
            old(self).stopped() ==> {
                &&& r matches Ok(Action::Stop)
                &&& final(self).used() == old(self).used()
                &&& final(self).stopped()
            },
            !old(self).stopped() ==> match se_verdict(old(self).config(), old(self).used(), rec@) {
                Verdict::Fail => {
                    &&& r == Err::<Action, TrimError>(TrimError::OutOfRange)
                    &&& final(self).stopped()
                },
                Verdict::Halt => r matches Ok(Action::Stop) && final(self).stopped(),
                Verdict::Drop => {
                    &&& r matches Ok(Action::Skip)
                    &&& final(self).used() == old(self).used()
                    &&& !final(self).stopped()
                },
                Verdict::Emit => {
                    &&& r matches Ok(Action::Write(_))
                    &&& r.unwrap()->Write_0@ == trimmed(
                        rec@,
                        old(self).config().trim_start as nat,
                        old(self).config().trim_end as nat,
                    )
                    &&& final(self).used() == used_after(
                        old(self).config(),
                        old(self).used(),
                        r.unwrap()->Write_0@.sequence.len(),
                    )
                    &&& !final(self).stopped()
                },
            },
    {
        if self.stopped {
            return Ok(Action::Stop);
        }
        let t = match trim_record(rec, self.config.trim_start, self.config.trim_end) {
            Ok(t) => t,
            Err(e) => {
                self.stopped = true;
                return Err(e);
            },
        };
        if !self.config.truncate_only && fails_filters(&t, &self.config) {
            return Ok(Action::Skip);
        }
        if !charge_budget(&mut self.used, &self.config, t.sequence.len()) {
            self.stopped = true;
            return Ok(Action::Stop);
        }
        Ok(Action::Write(t))
    }
}

/// The paired-end pipeline, one pair of mates at a time. Both mates are
/// judged together: one failing mate drops the pair.
pub struct PairedFilter {
    config: FilterConfig,
    used: usize,
    seen: HashSet<u64>,
    stopped: bool,
}

impl PairedFilter {
    pub closed spec fn config(&self) -> FilterConfig {
        self.config
    }

    /// Bases of first mates counted against the budget so far.
    pub closed spec fn used(&self) -> nat {
        self.used as nat
    }

    /// Fingerprints of the first mates that passed so far.
    pub closed spec fn seen(&self) -> Set<u64> {
        self.seen@
    }

    /// Whether the run has ended.
    pub closed spec fn stopped(&self) -> bool {
        self.stopped
    }

    pub closed spec fn wf(&self) -> bool {
        &&& self.config.wf()
        &&& self.config.base_budget == 0 || self.used <= self.config.base_budget
    }

    pub fn new(config: FilterConfig) -> (r: PairedFilter)
        requires
            config.wf(),
        ensures
            r.wf(),
            r.config() == config,
            r.used() == 0,
            r.seen() == Set::<u64>::empty(),
            !r.stopped(),
    {
        PairedFilter { config, used: 0, seen: HashSet::new(), stopped: false }
    }

    /// Runs one pair of mates through trimming, filtering, de-duplication and
    /// the budget check. Once the run has ended every pair gives `Stop`.
    pub fn process(&mut self, rec1: Record, rec2: Record) -> (r: Result<PairAction, TrimError>)
        requires
            old(self).wf(),
        ensures
            final(self).wf(),
            final(self).config() == old(self).config(),
            old(self).stopped() ==> {
                &&& r matches Ok(PairAction::Stop)
                &&& final(self).used() == old(self).used()
                &&& final(self).seen() == old(self).seen()
                &&& final(self).stopped()
            },
            !old(self).stopped() ==> match pe_verdict(
                old(self).config(),
                old(self).used(),
                old(self).seen(),
                rec1@,
                rec2@,
            ) {
                Verdict::Fail => {
                    &&& r == Err::<PairAction, TrimError>(TrimError::OutOfRange)
                    &&& final(self).stopped()
                },
                Verdict::Halt => r matches Ok(PairAction::Stop) && final(self).stopped(),
                Verdict::Drop => {
                    &&& r matches Ok(PairAction::Skip)
                    &&& final(self).used() == old(self).used()
                    &&& final(self).seen() == old(self).seen()
                    &&& !final(self).stopped()
                },
                Verdict::Emit => {
                    &&& r matches Ok(PairAction::Write(_, _))
                    &&& r.unwrap()->Write_0@ == trimmed(
                        rec1@,
                        old(self).config().trim_start as nat,
                        old(self).config().trim_end as nat,
                    )
                    &&& r.unwrap()->Write_1@ == trimmed(
                        rec2@,
                        old(self).config().trim_start as nat,
                        old(self).config().trim_end as nat,
                    )
                    &&& final(self).used() == used_after(
                        old(self).config(),
                        old(self).used(),
                        r.unwrap()->Write_0@.sequence.len(),
                    )
                    &&& final(self).seen() == seen_after(
                        old(self).config(),
                        old(self).seen(),
                        r.unwrap()->Write_0@,
                    )
                    &&& !final(self).stopped()
                },
            },
    {
        if self.stopped {
            return Ok(PairAction::Stop);
        }
        let start = self.config.trim_start;
        let end = self.config.trim_end;
        let t1 = match trim_record(rec1, start, end) {
            Ok(t) => t,
            Err(e) => {
                self.stopped = true;
                return Err(e);
            },
        };
        let t2 = match trim_record(rec2, start, end) {
            Ok(t) => t,
            Err(e) => {
                self.stopped = true;
                return Err(e);
            },
        };
        if !self.config.truncate_only {
            if fails_filters(&t1, &self.config) || fails_filters(&t2, &self.config) {
                return Ok(PairAction::Skip);
            }
            if self.config.deduplicate {
                let h = calculate_hash(&t1.sequence);
                if self.seen.contains(&h) {
                    return Ok(PairAction::Skip);
                }
                self.seen.insert(h);
            }
        }
        if !charge_budget(&mut self.used, &self.config, t1.sequence.len()) {
            self.stopped = true;
            return Ok(PairAction::Stop);
        }
        Ok(PairAction::Write(t1, t2))
    }
}

} // verus!
