use vstd::prelude::*;
use crate::config::FilterConfig;
use crate::filter::fingerprint;
use crate::pipeline::{
    budget_exceeded, pe_verdict, pe_written, se_verdict, se_written, seen_after, used_after,
    Verdict,
};
use crate::record::RecordView;
use crate::trim::{trim_fits, trimmed};

verus! {

/// Total number of bases in the sequences of `s`.
pub open spec fn total_bases(s: Seq<RecordView>) -> nat
    decreases s.len(),
{
    if s.len() == 0 {
        0
    } else {
        s[0].sequence.len() + total_bases(s.drop_first())
    }
}

/// A paired run writes as many records to the first output as to the second.
pub proof fn lemma_mates_aligned(
    cfg: FilterConfig,
    used: nat,
    seen: Set<u64>,
    pairs: Seq<(RecordView, RecordView)>,
)
    ensures
        pe_written(cfg, used, seen, pairs, true).len() == pe_written(
            cfg,
            used,
            seen,
            pairs,
            false,
        ).len(),
    decreases pairs.len(),
{
    if pairs.len() > 0 {
        let (r1, r2) = pairs[0];
        let t1 = trimmed(r1, cfg.trim_start as nat, cfg.trim_end as nat);
        lemma_mates_aligned(
            cfg,
            used_after(cfg, used, t1.sequence.len()),
            seen_after(cfg, seen, t1),
            pairs.drop_first(),
        );
        lemma_mates_aligned(cfg, used, seen, pairs.drop_first());
    }
}

/// Every first mate written from a state with fingerprints `seen` has a
/// fingerprint outside `seen`, and no two of them share a sequence.
pub proof fn lemma_dedup_fresh(
    cfg: FilterConfig,
    used: nat,
    seen: Set<u64>,
    pairs: Seq<(RecordView, RecordView)>,
)
    requires
        cfg.deduplicate,
        !cfg.truncate_only,
    ensures
        ({
            let out = pe_written(cfg, used, seen, pairs, true);
            &&& forall|i: int| 0 <= i < out.len() ==> !seen.contains(fingerprint(#[trigger] out[i].sequence))
            &&& forall|i: int, j: int|
                0 <= i < j < out.len() ==> #[trigger] out[i].sequence != #[trigger] out[j].sequence
        }),
    decreases pairs.len(),
{
    if pairs.len() > 0 {
        let (r1, r2) = pairs[0];
        let t1 = trimmed(r1, cfg.trim_start as nat, cfg.trim_end as nat);
        let seen2 = seen_after(cfg, seen, t1);
        let used2 = used_after(cfg, used, t1.sequence.len());
        lemma_dedup_fresh(cfg, used2, seen2, pairs.drop_first());
        lemma_dedup_fresh(cfg, used, seen, pairs.drop_first());
        let out = pe_written(cfg, used, seen, pairs, true);
        if pe_verdict(cfg, used, seen, r1, r2) is Drop {
            assert(out == pe_written(cfg, used, seen, pairs.drop_first(), true));
        } else if pe_verdict(cfg, used, seen, r1, r2) is Emit {
            let rest = pe_written(cfg, used2, seen2, pairs.drop_first(), true);
            assert(out == seq![t1] + rest);
            assert(seen2.contains(fingerprint(t1.sequence)));
            assert forall|i: int| 0 <= i < out.len() implies !seen.contains(
                fingerprint(#[trigger] out[i].sequence),
            ) by {
                if i > 0 {
                    assert(out[i] == rest[i - 1]);
                }
            }
            assert forall|i: int, j: int|
                0 <= i < j < out.len() implies #[trigger] out[i].sequence
                != #[trigger] out[j].sequence by {
                assert(out[j] == rest[j - 1]);
                assert(!seen2.contains(fingerprint(rest[j - 1].sequence)));
                if i > 0 {
                    assert(out[i] == rest[i - 1]);
                }
            }
        }
    }
}

/// With de-duplication on, no two pairs that a paired run writes share the
/// sequence of their first mate.
pub proof fn lemma_dedup_unique(cfg: FilterConfig, pairs: Seq<(RecordView, RecordView)>)
    requires
        cfg.deduplicate,
        !cfg.truncate_only,
    ensures
        ({
            let out = pe_written(cfg, 0, Set::<u64>::empty(), pairs, true);
            forall|i: int, j: int|
                0 <= i < j < out.len() ==> #[trigger] out[i].sequence != #[trigger] out[j].sequence
        }),
{
    lemma_dedup_fresh(cfg, 0, Set::<u64>::empty(), pairs);
}

/// A single-end run with a budget writes no more bases than the budget
/// leaves after the `used` already counted.
pub proof fn lemma_se_budget(cfg: FilterConfig, used: nat, recs: Seq<RecordView>)
    requires
        cfg.base_budget > 0,
        used <= cfg.base_budget,
    ensures
        used + total_bases(se_written(cfg, used, recs)) <= cfg.base_budget,
    decreases recs.len(),
{
    if recs.len() > 0 {
        let t = trimmed(recs[0], cfg.trim_start as nat, cfg.trim_end as nat);
        let out = se_written(cfg, used, recs);
        match se_verdict(cfg, used, recs[0]) {
            Verdict::Emit => {
                let used2 = used_after(cfg, used, t.sequence.len());
                lemma_se_budget(cfg, used2, recs.drop_first());
                let rest = se_written(cfg, used2, recs.drop_first());
                assert(out.drop_first() =~= rest);
            },
            Verdict::Drop => {
                lemma_se_budget(cfg, used, recs.drop_first());
            },
            _ => {},
        }
    }
}

/// A paired run with a budget writes no more first-mate bases than the budget
/// leaves after the `used` already counted.
pub proof fn lemma_pe_budget(
    cfg: FilterConfig,
    used: nat,
    seen: Set<u64>,
    pairs: Seq<(RecordView, RecordView)>,
)
    requires
        cfg.base_budget > 0,
        used <= cfg.base_budget,
    ensures
        used + total_bases(pe_written(cfg, used, seen, pairs, true)) <= cfg.base_budget,
    decreases pairs.len(),
{
    if pairs.len() > 0 {
        let (r1, r2) = pairs[0];
        let t1 = trimmed(r1, cfg.trim_start as nat, cfg.trim_end as nat);
        let out = pe_written(cfg, used, seen, pairs, true);
        match pe_verdict(cfg, used, seen, r1, r2) {
            Verdict::Emit => {
                let used2 = used_after(cfg, used, t1.sequence.len());
                let seen2 = seen_after(cfg, seen, t1);
                lemma_pe_budget(cfg, used2, seen2, pairs.drop_first());
                let rest = pe_written(cfg, used2, seen2, pairs.drop_first(), true);
                assert(out.drop_first() =~= rest);
            },
            Verdict::Drop => {
                lemma_pe_budget(cfg, used, seen, pairs.drop_first());
            },
            _ => {},
        }
    }
}

/// In truncate-only mode without a budget, a single-end run writes every
/// record, trimmed, when the window fits them all.
pub proof fn lemma_truncate_only_passthrough(cfg: FilterConfig, used: nat, recs: Seq<RecordView>)
    requires
        cfg.truncate_only,
        cfg.base_budget == 0,
        forall|i: int| 0 <= i < recs.len() ==> trim_fits(#[trigger] recs[i], cfg.trim_start as nat),
    ensures
        se_written(cfg, used, recs) == recs.map_values(
            |r: RecordView| trimmed(r, cfg.trim_start as nat, cfg.trim_end as nat),
        ),
    decreases recs.len(),
{
    let f = |r: RecordView| trimmed(r, cfg.trim_start as nat, cfg.trim_end as nat);
    if recs.len() == 0 {
        assert(recs.map_values(f) =~= seq![]);
    } else {
        assert(trim_fits(recs[0], cfg.trim_start as nat));
        assert(!budget_exceeded(cfg, used, f(recs[0]).sequence.len()));
        let rest = recs.drop_first();
        assert forall|i: int| 0 <= i < rest.len() implies trim_fits(
            #[trigger] rest[i],
            cfg.trim_start as nat,
        ) by {
            assert(rest[i] == recs[i + 1]);
        }
        lemma_truncate_only_passthrough(cfg, used, rest);
        assert(recs.map_values(f) =~= seq![f(recs[0])] + rest.map_values(f));
    }
}

/// In truncate-only mode without a budget, a paired run writes every pair,
/// trimmed, to the two outputs when the window fits them all.
pub proof fn lemma_pe_truncate_only_passthrough(
    cfg: FilterConfig,
    used: nat,
    seen: Set<u64>,
    pairs: Seq<(RecordView, RecordView)>,
)
    requires
        cfg.truncate_only,
        cfg.base_budget == 0,
        forall|i: int|
            0 <= i < pairs.len() ==> trim_fits((#[trigger] pairs[i]).0, cfg.trim_start as nat)
                && trim_fits(pairs[i].1, cfg.trim_start as nat),
    ensures
        pe_written(cfg, used, seen, pairs, true) == pairs.map_values(
            |p: (RecordView, RecordView)| trimmed(p.0, cfg.trim_start as nat, cfg.trim_end as nat),
        ),
        pe_written(cfg, used, seen, pairs, false) == pairs.map_values(
            |p: (RecordView, RecordView)| trimmed(p.1, cfg.trim_start as nat, cfg.trim_end as nat),
        ),
    decreases pairs.len(),
{
    let f1 = |p: (RecordView, RecordView)|
        trimmed(p.0, cfg.trim_start as nat, cfg.trim_end as nat);
    let f2 = |p: (RecordView, RecordView)|
        trimmed(p.1, cfg.trim_start as nat, cfg.trim_end as nat);
    if pairs.len() == 0 {
        assert(pairs.map_values(f1) =~= seq![]);
        assert(pairs.map_values(f2) =~= seq![]);
    } else {
        let (r1, r2) = pairs[0];
        assert(trim_fits(r1, cfg.trim_start as nat) && trim_fits(r2, cfg.trim_start as nat));
        let rest = pairs.drop_first();
        assert forall|i: int| 0 <= i < rest.len() implies trim_fits(
            (#[trigger] rest[i]).0,
            cfg.trim_start as nat,
        ) && trim_fits(rest[i].1, cfg.trim_start as nat) by {
            assert(rest[i] == pairs[i + 1]);
        }
        let t1 = trimmed(r1, cfg.trim_start as nat, cfg.trim_end as nat);
        lemma_pe_truncate_only_passthrough(
            cfg,
            used_after(cfg, used, t1.sequence.len()),
            seen_after(cfg, seen, t1),
            rest,
        );
        assert(pairs.map_values(f1) =~= seq![f1(pairs[0])] + rest.map_values(f1));
        assert(pairs.map_values(f2) =~= seq![f2(pairs[0])] + rest.map_values(f2));
    }
}

} // verus!
