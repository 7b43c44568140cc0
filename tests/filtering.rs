use fastq_filter::{
    bad_base_cutoff, calculate_hash, count_low_quality, count_n, fails_filters, record_lines,
    trim_bytes, trim_record, Action, ConfigError, FilterConfig, PairAction, PairedFilter,
    PairedReader, Record, RecordReader, SingleEndFilter, TrimError,
};

fn rec(header: &str, seq: &str, qual: &str) -> Record {
    Record {
        header: header.as_bytes().to_vec(),
        sequence: seq.as_bytes().to_vec(),
        quality: qual.as_bytes().to_vec(),
    }
}

fn good(seq: &str) -> Record {
    rec("@r", seq, &"I".repeat(seq.len()))
}

fn config(
    start: usize,
    end: usize,
    budget: usize,
    dedup: bool,
    truncate_only: bool,
) -> FilterConfig {
    FilterConfig::new(start, end, 55, 1, 5, 10, budget, dedup, truncate_only).unwrap()
}

#[test]
fn all_low_quality_read_is_dropped() {
    let r = rec("@r1", "ACGTACGTAC", "!!!!!!!!!!");
    assert_eq!(bad_base_cutoff(10, 1, 5), 2);
    assert_eq!(count_low_quality(&r.quality, 55), 10);
    let cfg = FilterConfig::standard();
    assert!(fails_filters(&r, &cfg));
    let mut f = SingleEndFilter::new(cfg);
    assert!(matches!(f.process(r), Ok(Action::Skip)));
}

#[test]
fn bad_second_mate_drops_the_pair() {
    let m1 = good("ACGTACGTACGT");
    let m2 = rec("@r/2", "NNNNNNNNNNNA", "IIIIIIIIIIII");
    assert_eq!(count_n(&m2.sequence), 11);
    let mut f = PairedFilter::new(FilterConfig::standard());
    assert!(matches!(f.process(m1, m2), Ok(PairAction::Skip)));
}

#[test]
fn window_keeps_positions_five_to_fifteen() {
    let seq = "ACGTTGCAACGTTGCAAAAA";
    let qual = "ABCDEFGHIJKLMNOPQRST";
    let cfg = config(5, 15, 0, false, true);
    let t = trim_record(rec("@w", seq, qual), 5, 15).unwrap();
    assert_eq!(t.sequence, seq.as_bytes()[5..15].to_vec());
    assert_eq!(t.quality, qual.as_bytes()[5..15].to_vec());
    assert_eq!(t.sequence.len(), 10);
    let mut f = SingleEndFilter::new(cfg);
    match f.process(rec("@w", seq, qual)) {
        Ok(Action::Write(w)) => {
            assert_eq!(w.sequence, b"GCAACGTTGC".to_vec());
            assert_eq!(w.quality, b"FGHIJKLMNO".to_vec());
            assert_eq!(w.header, b"@w".to_vec());
        }
        other => panic!("unexpected {:?}", other),
    }
}

#[test]
fn truncate_only_keeps_reads_of_ns() {
    let r = rec("@n", "NNNNNNNNNNN", "!!!!!!!!!!!");
    let mut normal = SingleEndFilter::new(FilterConfig::standard());
    assert!(matches!(normal.process(r.clone()), Ok(Action::Skip)));
    let mut only = SingleEndFilter::new(config(0, 0, 0, false, true));
    match only.process(r) {
        Ok(Action::Write(w)) => assert_eq!(w.sequence, b"NNNNNNNNNNN".to_vec()),
        other => panic!("unexpected {:?}", other),
    }
}

#[test]
fn truncate_only_skips_dedup_too() {
    let mut f = PairedFilter::new(config(0, 0, 0, true, true));
    assert!(matches!(f.process(good("ACGT"), good("TTTTTTTTTT")), Ok(PairAction::Write(_, _))));
    assert!(matches!(f.process(good("ACGT"), good("TTTTTTTTTT")), Ok(PairAction::Write(_, _))));
}

#[test]
fn trimming_twice_from_the_start_changes_nothing() {
    let r = rec("@t", "ACGTACGTACGT", "IIIIHHHHGGGG");
    let once = trim_record(r, 0, 8).unwrap();
    let twice = trim_record(once.clone(), 0, 8).unwrap();
    assert_eq!(once, twice);
    assert_eq!(once.sequence, b"ACGTACGT".to_vec());
}

#[test]
fn short_read_is_left_whole_by_the_window_end() {
    assert_eq!(trim_bytes(&b"ACG".to_vec(), 1, 10), b"CG".to_vec());
    assert_eq!(trim_bytes(&b"ACGT".to_vec(), 4, 0), Vec::<u8>::new());
}

#[test]
fn window_past_the_read_is_an_error() {
    assert_eq!(trim_record(good("ACG"), 4, 8), Err(TrimError::OutOfRange));
    let mut f = SingleEndFilter::new(config(4, 8, 0, false, false));
    assert!(matches!(f.process(good("ACG")), Err(TrimError::OutOfRange)));
    assert!(matches!(f.process(good("ACGTACGTACGT")), Ok(Action::Stop)));
}

#[test]
fn paired_outputs_stay_the_same_length() {
    let mut f = PairedFilter::new(FilterConfig::standard());
    let inputs = vec![
        (good("ACGTACGTAC"), good("TTTTTTTTTT")),
        (rec("@x", "ACGTACGTAC", "!!!!!!!!!!"), good("TTTTTTTTTT")),
        (good("ACGTACGTAC"), rec("@y", "NNNNNNNNNNNN", "IIIIIIIIIIII")),
        (good("GGGGCCCCAA"), good("CCCCCCCCCC")),
    ];
    let mut out1 = 0;
    let mut out2 = 0;
    for (a, b) in inputs {
        if let Ok(PairAction::Write(x, y)) = f.process(a, b) {
            assert_eq!(x.sequence.len(), 10);
            assert_eq!(y.sequence.len(), 10);
            out1 += 1;
            out2 += 1;
        }
    }
    assert_eq!(out1, 2);
    assert_eq!(out1, out2);
}

#[test]
fn repeated_first_mate_is_dropped() {
    let mut f = PairedFilter::new(config(0, 0, 0, true, false));
    assert!(matches!(f.process(good("ACGTACGTAC"), good("TTTTTTTTTT")), Ok(PairAction::Write(_, _))));
    assert!(matches!(f.process(good("ACGTACGTAC"), good("GGGGGGGGGG")), Ok(PairAction::Skip)));
    assert!(matches!(f.process(good("ACGTACGTAA"), good("GGGGGGGGGG")), Ok(PairAction::Write(_, _))));
    let mut keep = PairedFilter::new(config(0, 0, 0, false, false));
    assert!(matches!(keep.process(good("ACGTACGTAC"), good("TTTTTTTTTT")), Ok(PairAction::Write(_, _))));
    assert!(matches!(keep.process(good("ACGTACGTAC"), good("GGGGGGGGGG")), Ok(PairAction::Write(_, _))));
}

#[test]
fn dedup_compares_trimmed_first_mates() {
    let mut f = PairedFilter::new(config(2, 0, 0, true, false));
    assert!(matches!(f.process(good("AAGGGGGGGG"), good("TTTTTTTTTT")), Ok(PairAction::Write(_, _))));
    assert!(matches!(f.process(good("CCGGGGGGGG"), good("TTTTTTTTTT")), Ok(PairAction::Skip)));
}

#[test]
fn budget_excludes_the_record_that_crosses_it() {
    let mut f = SingleEndFilter::new(config(0, 0, 25, false, false));
    assert!(matches!(f.process(good("ACGTACGTAC")), Ok(Action::Write(_))));
    assert!(matches!(f.process(good("ACGTACGTAC")), Ok(Action::Write(_))));
    assert!(matches!(f.process(good("ACGTACGTAC")), Ok(Action::Stop)));
    assert!(matches!(f.process(good("A")), Ok(Action::Stop)));
}

#[test]
fn budget_reached_exactly_still_writes() {
    let mut f = SingleEndFilter::new(config(0, 0, 20, false, false));
    assert!(matches!(f.process(good("ACGTACGTAC")), Ok(Action::Write(_))));
    assert!(matches!(f.process(good("ACGTACGTAC")), Ok(Action::Write(_))));
    assert!(matches!(f.process(good("ACGTA")), Ok(Action::Stop)));
}

#[test]
fn paired_budget_counts_first_mates() {
    let mut f = PairedFilter::new(config(0, 0, 12, false, false));
    let long_mate = good("TTTTTTTTTTTTTTTTTTTT");
    assert!(matches!(f.process(good("ACGTACGTAC"), long_mate), Ok(PairAction::Write(_, _))));
    assert!(matches!(f.process(good("ACGTA"), good("TTTTT")), Ok(PairAction::Stop)));
    assert!(matches!(f.process(good("ACGTA"), good("TTTTT")), Ok(PairAction::Stop)));
}

#[test]
fn reader_groups_four_lines_and_drops_the_tail() {
    let lines = ["@a", "ACGT", "+", "IIII", "@b", "GGCC", "+"];
    let mut r = RecordReader::new();
    let mut out = Vec::new();
    for l in lines.iter() {
        if let Some(x) = r.push_line(l.as_bytes().to_vec()) {
            out.push(x);
        }
    }
    assert_eq!(out.len(), 1);
    assert_eq!(out[0], rec("@a", "ACGT", "IIII"));
    assert_eq!(r.pending_lines(), 3);
}

#[test]
fn paired_reader_completes_both_mates_together() {
    let a = ["@a/1", "ACGT", "+", "IIII", "@b/1"];
    let b = ["@a/2", "TTGG", "+x", "HHHH", "@b/2"];
    let mut r = PairedReader::new();
    let mut out = Vec::new();
    for (x, y) in a.iter().zip(b.iter()) {
        if let Some(p) = r.push_lines(x.as_bytes().to_vec(), y.as_bytes().to_vec()) {
            out.push(p);
        }
    }
    assert_eq!(out.len(), 1);
    assert_eq!(out[0].0, rec("@a/1", "ACGT", "IIII"));
    assert_eq!(out[0].1, rec("@a/2", "TTGG", "HHHH"));
}

#[test]
fn record_is_written_as_four_lines() {
    let r = rec("@a", "ACGT", "IIII");
    assert_eq!(record_lines(&r), b"@a\nACGT\n+\nIIII\n".to_vec());
}

#[test]
fn config_errors() {
    assert_eq!(
        FilterConfig::new(10, 5, 55, 1, 5, 10, 0, false, false).unwrap_err(),
        ConfigError::InvertedWindow
    );
    assert_eq!(
        FilterConfig::new(0, 0, 0, 1, 5, 10, 0, false, false).unwrap_err(),
        ConfigError::QualityOutOfRange
    );
    assert_eq!(
        FilterConfig::new(0, 0, 101, 1, 5, 10, 0, false, false).unwrap_err(),
        ConfigError::QualityOutOfRange
    );
    assert_eq!(
        FilterConfig::new(0, 0, 55, 5, 5, 10, 0, false, false).unwrap_err(),
        ConfigError::LimitOutOfRange
    );
    assert_eq!(
        FilterConfig::new(0, 0, 55, 0, 5, 10, 0, false, false).unwrap_err(),
        ConfigError::LimitOutOfRange
    );
    let c = FilterConfig::new(5, 0, 55, 1, 5, 10, 0, false, false).unwrap();
    assert_eq!(c.trim_start, 5);
}

#[test]
fn cutoff_rounds_toward_zero() {
    assert_eq!(bad_base_cutoff(10, 1, 5), 2);
    assert_eq!(bad_base_cutoff(9, 1, 5), 1);
    assert_eq!(bad_base_cutoff(4, 1, 5), 0);
    assert_eq!(bad_base_cutoff(100, 3, 10), 30);
    assert_eq!(bad_base_cutoff(usize::MAX, 1, 2), usize::MAX / 2);
}

#[test]
fn counts_of_ns_and_low_quality() {
    assert_eq!(count_n(&b"ANNCGnN".to_vec()), 3);
    assert_eq!(count_n(&Vec::new()), 0);
    assert_eq!(count_low_quality(&b"!7\x38I".to_vec(), 55), 2);
}

#[test]
fn quality_boundary_counts_as_bad() {
    // five bases, cutoff 1: one byte equal to the threshold drops the read
    let r = rec("@q", "ACGTA", "IIII7");
    assert!(fails_filters(&r, &FilterConfig::standard()));
    let ok = rec("@q", "ACGTA", "IIII8");
    assert!(!fails_filters(&ok, &FilterConfig::standard()));
}

#[test]
fn ten_ns_pass_and_eleven_fail() {
    let cfg = FilterConfig::standard();
    let ten = rec("@n", "NNNNNNNNNNACGTACGTACGTACGTA", &"I".repeat(27));
    let eleven = rec("@n", "NNNNNNNNNNNCGTACGTACGTACGTA", &"I".repeat(27));
    assert!(!fails_filters(&ten, &cfg));
    assert!(fails_filters(&eleven, &cfg));
}

#[test]
fn empty_read_is_dropped() {
    let mut f = SingleEndFilter::new(FilterConfig::standard());
    assert!(matches!(f.process(rec("@e", "", "")), Ok(Action::Skip)));
}

#[test]
fn fingerprint_is_stable() {
    let a = calculate_hash(&b"ACGTACGT".to_vec());
    let b = calculate_hash(&b"ACGTACGT".to_vec());
    assert_eq!(a, b);
    assert_ne!(calculate_hash(&b"ACGTACGT".to_vec()), calculate_hash(&b"ACGTACGA".to_vec()));
}
