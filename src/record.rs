use vstd::prelude::*;

verus! {

/// One FASTQ record: the header line, the bases and the per-base quality
/// bytes. The separator line is not kept.
#[derive(Clone, Debug, PartialEq, Eq)]
pub struct Record {
    pub header: Vec<u8>,
    pub sequence: Vec<u8>,
    pub quality: Vec<u8>,
}

/// The contents of a record, as byte sequences.
pub struct RecordView {
    pub header: Seq<u8>,
    pub sequence: Seq<u8>,
    pub quality: Seq<u8>,
}

impl View for Record {
    type V = RecordView;

    open spec fn view(&self) -> RecordView {
        RecordView { header: self.header@, sequence: self.sequence@, quality: self.quality@ }
    }
}

/// The record made of four consecutive lines: header, bases, separator, qualities.
pub open spec fn record_of_lines(
    l0: Seq<u8>,
    l1: Seq<u8>,
    l3: Seq<u8>,
) -> RecordView {
    RecordView { header: l0, sequence: l1, quality: l3 }
}

/// Groups a stream of lines into records of four lines each. Lines are fed one
/// at a time; every fourth line completes a record. Lines of an incomplete
/// trailing group are never turned into a record.
pub struct RecordReader {
    pending: Vec<Vec<u8>>,
}

impl RecordReader {
    /// The lines of the current, not yet complete, group.
    pub closed spec fn pending(&self) -> Seq<Seq<u8>> {
        self.pending@.map_values(|l: Vec<u8>| l@)
    }

    pub closed spec fn wf(&self) -> bool {
        self.pending@.len() < 4
    }

    pub fn new() -> (r: RecordReader)
        ensures
            r.wf(),
            r.pending() == Seq::<Seq<u8>>::empty(),
    {
        RecordReader { pending: Vec::new() }
    }

    /// Takes the next line of the stream. Returns the record that this line
    /// completes, if it is the fourth of its group.
    pub fn push_line(&mut self, line: Vec<u8>) -> (r: Option<Record>)
        requires
            old(self).wf(),
        ensures
            final(self).wf(),
            old(self).pending().len() < 3 ==> {
                &&& r.is_none()
                &&& final(self).pending() == old(self).pending().push(line@)
            },
            old(self).pending().len() == 3 ==> {
                &&& r.is_some()
                &&& r.unwrap()@ == record_of_lines(
                    old(self).pending()[0],
                    old(self).pending()[1],
                    line@,
                )
                &&& final(self).pending() == Seq::<Seq<u8>>::empty()
            },
    {
        if self.pending.len() < 3 {
            self.pending.push(line);
            proof {
                assert(self.pending() =~= old(self).pending().push(line@));
            }
            None
        } else {
            let _separator = self.pending.pop();
            let sequence = self.pending.pop().unwrap();
            let header = self.pending.pop().unwrap();
            proof {
                assert(self.pending() =~= Seq::<Seq<u8>>::empty());
            }
            Some(Record { header, sequence, quality: line })
        }
    }

    /// The number of lines waiting for the rest of their group.
    pub fn pending_lines(&self) -> (r: usize)
        requires
            self.wf(),
        ensures
            r == self.pending().len(),
    {
        self.pending.len()
    }
}

/// The serialized form of a record: header, bases, a `+` line and qualities,
/// each line ended by a newline.
pub open spec fn record_text(r: RecordView) -> Seq<u8> {
    r.header + seq![10u8] + r.sequence + seq![10u8, 43u8, 10u8] + r.quality + seq![10u8]
}

fn append_bytes(out: &mut Vec<u8>, src: &Vec<u8>)
    ensures
        final(out)@ == old(out)@ + src@,
{
    let mut i: usize = 0;
    while i < src.len()
        invariant
            i <= src@.len(),
            out@ == old(out)@ + src@.subrange(0, i as int),
        decreases src@.len() - i,
    {
        out.push(src[i]);
        i = i + 1;
        proof {
            assert(out@ =~= old(out)@ + src@.subrange(0, i as int));
        }
    }
    proof {
        assert(src@.subrange(0, i as int) =~= src@);
    }
}

/// Writes a record back as the four lines of FASTQ.
pub fn record_lines(rec: &Record) -> (r: Vec<u8>)
    ensures
        r@ == record_text(rec@),
{
    let mut out: Vec<u8> = Vec::new();
    append_bytes(&mut out, &rec.header);
    out.push(10u8);
    append_bytes(&mut out, &rec.sequence);
    out.push(10u8);
    out.push(43u8);
    out.push(10u8);
    append_bytes(&mut out, &rec.quality);
    out.push(10u8);
    proof {
        assert(out@ =~= record_text(rec@));
    }
    out
}

/// Two record readers driven in lock-step, one per mate file: each step
/// takes one line of each stream, so both complete their records together.
pub struct PairedReader {
    first: RecordReader,
    second: RecordReader,
}

impl PairedReader {
    pub closed spec fn wf(&self) -> bool {
        &&& self.first.wf()
        &&& self.second.wf()
        &&& self.first.pending().len() == self.second.pending().len()
    }

    /// The pending lines of the first mate's stream.
    pub closed spec fn pending_first(&self) -> Seq<Seq<u8>> {
        self.first.pending()
    }

    /// The pending lines of the second mate's stream.
    pub closed spec fn pending_second(&self) -> Seq<Seq<u8>> {
        self.second.pending()
    }

    pub fn new() -> (r: PairedReader)
        ensures
            r.wf(),
            r.pending_first() == Seq::<Seq<u8>>::empty(),
            r.pending_second() == Seq::<Seq<u8>>::empty(),
    {
        PairedReader { first: RecordReader::new(), second: RecordReader::new() }
    }

    /// Takes the next line of each stream. Returns both mates when these lines
    /// complete their records, and nothing otherwise.
    pub fn push_lines(&mut self, line1: Vec<u8>, line2: Vec<u8>) -> (r: Option<(Record, Record)>)
        requires
            old(self).wf(),
        ensures
            final(self).wf(),
            old(self).pending_first().len() < 3 ==> {
                &&& r.is_none()
                &&& final(self).pending_first() == old(self).pending_first().push(line1@)
                &&& final(self).pending_second() == old(self).pending_second().push(line2@)
            },
            old(self).pending_first().len() == 3 ==> {
                &&& r.is_some()
                &&& r.unwrap().0@ == record_of_lines(
                    old(self).pending_first()[0],
                    old(self).pending_first()[1],
                    line1@,
                )
                &&& r.unwrap().1@ == record_of_lines(
                    old(self).pending_second()[0],
                    old(self).pending_second()[1],
                    line2@,
                )
                &&& final(self).pending_first() == Seq::<Seq<u8>>::empty()
                &&& final(self).pending_second() == Seq::<Seq<u8>>::empty()
            },
    {
        let a = self.first.push_line(line1);
        let b = self.second.push_line(line2);
        match (a, b) {
            (Some(x), Some(y)) => Some((x, y)),
            _ => None,
        }
    }
}

} // verus!
