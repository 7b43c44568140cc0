use vstd::prelude::*;
use std::collections::hash_map::DefaultHasher;
use std::hash::Hasher;
use vstd::std_specs::hash::DefaultHasherAdditionalSpecFns;
use crate::config::FilterConfig;
use crate::record::{Record, RecordView};

verus! {

/// The byte of an ambiguous base.
pub const BASE_N: u8 = 78;

/// Number of `N` bytes in `s`.
pub open spec fn n_count(s: Seq<u8>) -> nat
    decreases s.len(),
{
    if s.len() == 0 {
        0
    } else {
        n_count(s.drop_last()) + if s.last() == BASE_N {
            1nat
        } else {
            0nat
        }
    }
}

/// Number of quality bytes in `q` whose value is at most `threshold`.
pub open spec fn low_count(q: Seq<u8>, threshold: u8) -> nat
    decreases q.len(),
{
    if q.len() == 0 {
        0
    } else {
        low_count(q.drop_last(), threshold) + if q.last() <= threshold {
            1nat
        } else {
            0nat
        }
    }
}

/// The number of bad bases at which a read of `len` bases is dropped:
/// `len * num / den`, rounded toward zero.
pub open spec fn cutoff_spec(len: nat, num: nat, den: nat) -> nat
    recommends
        den > 0,
{
    (len * num) / den
}

/// Whether a (trimmed) record is dropped by the quality and ambiguity checks:
/// too many `N`s, or at least the cutoff of bad quality bytes.
pub open spec fn rejected(r: RecordView, cfg: FilterConfig) -> bool {
    ||| n_count(r.sequence) > cfg.max_n_count
    ||| low_count(r.quality, cfg.quality_threshold) >= cutoff_spec(
        r.quality.len(),
        cfg.limit_num as nat,
        cfg.limit_den as nat,
    )
}

/// The 64-bit fingerprint of a byte string that de-duplication compares:
/// the default hasher fed the bytes in one write.
pub open spec fn fingerprint(s: Seq<u8>) -> u64 {
    DefaultHasher::spec_finish(seq![s])
}

/// Counts the `N` bases of a sequence.
pub fn count_n(seq: &Vec<u8>) -> (r: usize)
    ensures
        r == n_count(seq@),
{
    let mut c: usize = 0;
    let mut i: usize = 0;
    while i < seq.len()
        invariant
            i <= seq@.len(),
            c == n_count(seq@.take(i as int)),
            c <= i,
        decreases seq@.len() - i,
    {
        proof {
            assert(seq@.take(i + 1).drop_last() =~= seq@.take(i as int));
        }
        if seq[i] == BASE_N {
            c = c + 1;
        }
        i = i + 1;
    }
    proof {
        assert(seq@.take(i as int) =~= seq@);
    }
    c
}

/// Counts the quality bytes at or below `threshold`.
pub fn count_low_quality(qual: &Vec<u8>, threshold: u8) -> (r: usize)
    ensures
        r == low_count(qual@, threshold),
{
    let mut c: usize = 0;
    let mut i: usize = 0;
    while i < qual.len()
        invariant
            i <= qual@.len(),
            c == low_count(qual@.take(i as int), threshold),
            c <= i,
        decreases qual@.len() - i,
    {
        proof {
            assert(qual@.take(i + 1).drop_last() =~= qual@.take(i as int));
        }
        if qual[i] <= threshold {
            c = c + 1;
        }
        i = i + 1;
    }
    proof {
        assert(qual@.take(i as int) =~= qual@);
    }
    c
}

/// The bad-base cutoff for a read of `len` bases: `len * num / den`, rounded
/// toward zero.
pub fn bad_base_cutoff(len: usize, num: u64, den: u64) -> (r: usize)
    requires
        num < den,
    ensures
        r == cutoff_spec(len as nat, num as nat, den as nat),
        r <= len,
{
    proof {
        assert((len as nat) * (num as nat) <= (len as nat) * (den as nat)) by (nonlinear_arith)
            requires
                num < den,
        ;
        assert((len as int) * (num as int) < 0x1_0000_0000_0000_0000 * 0x1_0000_0000_0000_0000)
            by (nonlinear_arith)
            requires
                len < 0x1_0000_0000_0000_0000int,
                num < 0x1_0000_0000_0000_0000int,
        ;
        vstd::arithmetic::div_mod::lemma_div_is_ordered(
            (len as int) * (num as int),
            (len as int) * (den as int),
            den as int,
        );
        vstd::arithmetic::div_mod::lemma_div_multiples_vanish(len as int, den as int);
        assert((len as int) * (den as int) == (den as int) * (len as int)) by (nonlinear_arith);
    }
    let product: u128 = (len as u128) * (num as u128);
    (product / (den as u128)) as usize
}

/// Decides whether the quality and ambiguity checks drop a (trimmed) record.
pub fn fails_filters(rec: &Record, cfg: &FilterConfig) -> (r: bool)
    requires
        cfg.wf(),
    ensures
        r == rejected(rec@, *cfg),
{
    if count_n(&rec.sequence) > cfg.max_n_count {
        return true;
    }
    let cutoff = bad_base_cutoff(rec.quality.len(), cfg.limit_num, cfg.limit_den);
    count_low_quality(&rec.quality, cfg.quality_threshold) >= cutoff
}

/// The 64-bit fingerprint of a sequence, used to recognise repeated reads.
pub fn calculate_hash(t: &Vec<u8>) -> (r: u64)
    ensures
        r == fingerprint(t@),
{
    let mut hasher = DefaultHasher::new();
    hasher.write(t.as_slice());
    hasher.finish()
}

} // verus!
