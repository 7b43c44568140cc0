use vstd::prelude::*;
use crate::record::{Record, RecordView};

verus! {

/// A trim window that does not fit a read.
#[derive(Clone, Copy, Debug, PartialEq, Eq)]
pub enum TrimError {
    /// The window starts past the end of the read.
    OutOfRange,
}

/// The part of `s` that the window `[start, end)` keeps; `end == 0` leaves
/// the window open. Defined where `start <= s.len()`.
pub open spec fn trim_spec(s: Seq<u8>, start: nat, end: nat) -> Seq<u8> {
    let rest = s.skip(start as int);
    if end > 0 && rest.len() > end - start {
        rest.take(end - start)
    } else {
        rest
    }
}

/// Whether the window can be applied to a record.
pub open spec fn trim_fits(r: RecordView, start: nat) -> bool {
    start <= r.sequence.len() && start <= r.quality.len()
}

/// The record with the window applied to its bases and qualities.
pub open spec fn trimmed(r: RecordView, start: nat, end: nat) -> RecordView {
    RecordView {
        header: r.header,
        sequence: trim_spec(r.sequence, start, end),
        quality: trim_spec(r.quality, start, end),
    }
}

/// Applies the window `[start, end)` to one byte string.
pub fn trim_bytes(s: &Vec<u8>, start: usize, end: usize) -> (r: Vec<u8>)
    requires
        start <= s@.len(),
        end == 0 || start <= end,
    ensures
        r@ == trim_spec(s@, start as nat, end as nat),
{
    let stop: usize = if end > 0 && end < s.len() {
        end
    } else {
        s.len()
    };
    let mut out: Vec<u8> = Vec::new();
    let mut i: usize = start;
    while i < stop
        invariant
            start <= i <= stop <= s@.len(),
            out@ == s@.subrange(start as int, i as int),
        decreases stop - i,
    {
        out.push(s[i]);
        i = i + 1;
        proof {
            assert(out@ =~= s@.subrange(start as int, i as int));
        }
    }
    proof {
        assert(out@ =~= trim_spec(s@, start as nat, end as nat));
    }
    out
}

/// Applies the window `[start, end)` to the bases and qualities of a record.
/// Fails when the window starts past the end of either.
pub fn trim_record(rec: Record, start: usize, end: usize) -> (r: Result<Record, TrimError>)
    requires
        end == 0 || start <= end,
    ensures
        r.is_ok() <==> trim_fits(rec@, start as nat),
        r.is_ok() ==> r.unwrap()@ == trimmed(rec@, start as nat, end as nat),
        r.is_err() ==> r == Err::<Record, TrimError>(TrimError::OutOfRange),
{
    if start > rec.sequence.len() || start > rec.quality.len() {
        return Err(TrimError::OutOfRange);
    }
    if start == 0 && end == 0 {
        proof {
            assert(rec.sequence@.skip(0) =~= rec.sequence@);
            assert(rec.quality@.skip(0) =~= rec.quality@);
        }
        return Ok(rec);
    }
    let sequence = trim_bytes(&rec.sequence, start, end);
    let quality = trim_bytes(&rec.quality, start, end);
    Ok(Record { header: rec.header, sequence, quality })
}

/// Trimming is idempotent for windows that start at the first base: a record
/// already cut to the window is left as it is by a second cut.
pub proof fn lemma_trim_idempotent(r: RecordView, end: nat)
    ensures
        trim_fits(trimmed(r, 0, end), 0),
        trimmed(trimmed(r, 0, end), 0, end) == trimmed(r, 0, end),
{
    assert(r.sequence.skip(0) =~= r.sequence);
    assert(r.quality.skip(0) =~= r.quality);
    let t = trimmed(r, 0, end);
    assert(t.sequence.skip(0) =~= t.sequence);
    assert(t.quality.skip(0) =~= t.quality);
    assert(trimmed(t, 0, end).sequence =~= t.sequence);
    assert(trimmed(t, 0, end).quality =~= t.quality);
}

} // verus!
