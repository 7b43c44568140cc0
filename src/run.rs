use vstd::prelude::*;
use crate::config::FilterConfig;
use crate::pipeline::{
    pe_fails, pe_verdict, pe_written, se_fails, se_verdict, se_written, Action, PairAction,
    PairedFilter, SingleEndFilter,
};
use crate::record::{Record, RecordView};
use crate::trim::TrimError;

verus! {

/// The contents of a list of records.
pub open spec fn views(s: Seq<Record>) -> Seq<RecordView> {
    s.map_values(|r: Record| r@)
}

/// The contents of a list of mate pairs.
pub open spec fn pair_views(s: Seq<(Record, Record)>) -> Seq<(RecordView, RecordView)> {
    s.map_values(|p: (Record, Record)| (p.0@, p.1@))
}

/// The items of `v` in reverse order.
fn reversed<T>(v: Vec<T>) -> (r: Vec<T>)
    ensures
        r@.len() == v@.len(),
        forall|i: int| 0 <= i < r@.len() ==> #[trigger] r@[i] == v@[v@.len() - 1 - i],
{
    let ghost orig = v@;
    let mut src = v;
    let mut out: Vec<T> = Vec::new();
    while src.len() > 0
        invariant
            src@.len() + out@.len() == orig.len(),
            src@ == orig.take(src@.len() as int),
            forall|i: int| 0 <= i < out@.len() ==> #[trigger] out@[i] == orig[orig.len() - 1 - i],
        decreases src@.len(),
    {
        let x = src.pop().unwrap();
        out.push(x);
        proof {
            assert(src@ =~= orig.take(src@.len() as int));
        }
    }
    out
}

/// Runs the single-end pipeline over a whole list of records. Returns the
/// records written, or the error that ended the run.
pub fn filter_single_end(cfg: FilterConfig, recs: Vec<Record>) -> (r: Result<
    Vec<Record>,
    TrimError,
>)
    requires
        cfg.wf(),
    ensures
        r.is_err() <==> se_fails(cfg, 0, views(recs@)),
        r.is_err() ==> r == Err::<Vec<Record>, TrimError>(TrimError::OutOfRange),
        r.is_ok() ==> views(r.unwrap()@) == se_written(cfg, 0, views(recs@)),
{
    let ghost all = views(recs@);
    let n = recs.len();
    let mut pending = reversed(recs);
    let mut filter = SingleEndFilter::new(cfg);
    let mut out: Vec<Record> = Vec::new();
    proof {
        assert(all.skip(0) =~= all);
        assert(views(out@) + se_written(cfg, 0, all) =~= se_written(cfg, 0, all));
    }
    while pending.len() > 0
        invariant
            filter.wf(),
            filter.config() == cfg,
            !filter.stopped(),
            all == views(recs@),
            n == all.len(),
            pending@.len() <= n,
            forall|i: int| 0 <= i < pending@.len() ==> #[trigger] pending@[i]@ == all[n - 1 - i],
            views(out@) + se_written(cfg, filter.used(), all.skip(n - pending@.len())) == se_written(
                cfg,
                0,
                all,
            ),
            se_fails(cfg, filter.used(), all.skip(n - pending@.len())) == se_fails(cfg, 0, all),
        decreases pending@.len(),
    {
        let ghost k = n - pending@.len();
        let ghost used0 = filter.used();
        let ghost out0 = out@;
        let rec = pending.pop().unwrap();
        proof {
            assert(rec@ == all[k]);
            assert(all.skip(k).drop_first() =~= all.skip(k + 1));
            assert(all.skip(k)[0] == all[k]);
        }
        match filter.process(rec) {
            Ok(Action::Write(w)) => {
                out.push(w);
                proof {
                    assert(views(out@) =~= views(out0).push(w@));
                    assert(views(out@) + se_written(cfg, filter.used(), all.skip(k + 1)) =~= views(
                        out0,
                    ) + (seq![w@] + se_written(cfg, filter.used(), all.skip(k + 1))));
                }
            },
            Ok(Action::Skip) => {},
            Ok(Action::Stop) => {
                proof {
                    let rest = all.skip(k);
                    assert(rest.len() > 0);
                    assert(se_verdict(cfg, used0, rest[0]) is Halt);
                    assert(se_written(cfg, used0, rest) == Seq::<RecordView>::empty());
                    assert(!se_fails(cfg, used0, rest));
                    assert(views(out@) + se_written(cfg, used0, rest) =~= views(out@));
                }
                return Ok(out);
            },
            Err(e) => {
                return Err(e);
            },
        }
    }
    proof {
        assert(views(out@) + se_written(cfg, filter.used(), all.skip(n as int)) =~= views(out@));
    }
    Ok(out)
}

/// Runs the paired-end pipeline over a whole list of mate pairs. Returns the
/// records written to the first and to the second output, or the error that
/// ended the run.
pub fn filter_paired(cfg: FilterConfig, pairs: Vec<(Record, Record)>) -> (r: Result<
    (Vec<Record>, Vec<Record>),
    TrimError,
>)
    requires
        cfg.wf(),
    ensures
        r.is_err() <==> pe_fails(cfg, 0, Set::<u64>::empty(), pair_views(pairs@)),
        r.is_err() ==> r == Err::<(Vec<Record>, Vec<Record>), TrimError>(TrimError::OutOfRange),
        r.is_ok() ==> views(r.unwrap().0@) == pe_written(
            cfg,
            0,
            Set::<u64>::empty(),
            pair_views(pairs@),
            true,
        ),
        r.is_ok() ==> views(r.unwrap().1@) == pe_written(
            cfg,
            0,
            Set::<u64>::empty(),
            pair_views(pairs@),
            false,
        ),
{
    let ghost all = pair_views(pairs@);
    let ghost none = Set::<u64>::empty();
    let n = pairs.len();
    let mut pending = reversed(pairs);
    let mut filter = PairedFilter::new(cfg);
    let mut out1: Vec<Record> = Vec::new();
    let mut out2: Vec<Record> = Vec::new();
    proof {
        assert(all.skip(0) =~= all);
        assert(views(out1@) + pe_written(cfg, 0, none, all, true) =~= pe_written(
            cfg,
            0,
            none,
            all,
            true,
        ));
        assert(views(out2@) + pe_written(cfg, 0, none, all, false) =~= pe_written(
            cfg,
            0,
            none,
            all,
            false,
        ));
    }
    while pending.len() > 0
        invariant
            filter.wf(),
            filter.config() == cfg,
            !filter.stopped(),
            all == pair_views(pairs@),
            none == Set::<u64>::empty(),
            n == all.len(),
            pending@.len() <= n,
            forall|i: int|
                0 <= i < pending@.len() ==> (#[trigger] pending@[i]).0@ == all[n - 1 - i].0
                    && pending@[i].1@ == all[n - 1 - i].1,
            views(out1@) + pe_written(
                cfg,
                filter.used(),
                filter.seen(),
                all.skip(n - pending@.len()),
                true,
            ) == pe_written(cfg, 0, none, all, true),
            views(out2@) + pe_written(
                cfg,
                filter.used(),
                filter.seen(),
                all.skip(n - pending@.len()),
                false,
            ) == pe_written(cfg, 0, none, all, false),
            pe_fails(cfg, filter.used(), filter.seen(), all.skip(n - pending@.len())) == pe_fails(
                cfg,
                0,
                none,
                all,
            ),
        decreases pending@.len(),
    {
        let ghost k = n - pending@.len();
        let ghost used0 = filter.used();
        let ghost seen0 = filter.seen();
        let ghost o1 = out1@;
        let ghost o2 = out2@;
        let (rec1, rec2) = pending.pop().unwrap();
        proof {
            assert(rec1@ == all[k].0);
            assert(rec2@ == all[k].1);
            assert(all.skip(k).drop_first() =~= all.skip(k + 1));
            assert(all.skip(k)[0] == all[k]);
        }
        match filter.process(rec1, rec2) {
            Ok(PairAction::Write(w1, w2)) => {
                out1.push(w1);
                out2.push(w2);
                proof {
                    let rest = all.skip(k + 1);
                    let u = filter.used();
                    let s = filter.seen();
                    assert(views(out1@) =~= views(o1).push(w1@));
                    assert(views(out2@) =~= views(o2).push(w2@));
                    assert(views(out1@) + pe_written(cfg, u, s, rest, true) =~= views(o1) + (seq![
                        w1@,
                    ] + pe_written(cfg, u, s, rest, true)));
                    assert(views(out2@) + pe_written(cfg, u, s, rest, false) =~= views(o2) + (seq![
                        w2@,
                    ] + pe_written(cfg, u, s, rest, false)));
                }
            },
            Ok(PairAction::Skip) => {},
            Ok(PairAction::Stop) => {
                proof {
                    let rest = all.skip(k);
                    assert(rest.len() > 0);
                    assert(pe_verdict(cfg, used0, seen0, rest[0].0, rest[0].1) is Halt);
                    assert(pe_written(cfg, used0, seen0, rest, true) == Seq::<RecordView>::empty());
                    assert(pe_written(cfg, used0, seen0, rest, false) == Seq::<RecordView>::empty());
                    assert(!pe_fails(cfg, used0, seen0, rest));
                    assert(views(out1@) + pe_written(cfg, used0, seen0, rest, true) =~= views(
                        out1@,
                    ));
                    assert(views(out2@) + pe_written(cfg, used0, seen0, rest, false) =~= views(
                        out2@,
                    ));
                }
                return Ok((out1, out2));
            },
            Err(e) => {
                return Err(e);
            },
        }
    }
    proof {
        let u = filter.used();
        let s = filter.seen();
        assert(views(out1@) + pe_written(cfg, u, s, all.skip(n as int), true) =~= views(out1@));
        assert(views(out2@) + pe_written(cfg, u, s, all.skip(n as int), false) =~= views(out2@));
    }
    Ok((out1, out2))
}

} // verus!
