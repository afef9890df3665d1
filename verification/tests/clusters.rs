use rand::Rng;
use read_dedup::clusters::Clusters;
use read_dedup::fastx::SeqRecord;
use read_dedup::fingerprint::{fingerprint, fingerprint_of_pair};
use read_dedup::paired::PairedRecord;
use read_dedup::sink::CsvSink;
use std::io::Cursor;
use std::str;

const CHARSET: &[u8] = b"ACTG";

fn random_seq(len: usize) -> Vec<u8> {
    let mut rng = rand::thread_rng();
    (0..len)
        .map(|_| {
            let idx = rng.gen_range(0, CHARSET.len());
            CHARSET[idx]
        })
        .collect()
}

struct Refusing;

impl std::io::Write for Refusing {
    fn write(&mut self, _buf: &[u8]) -> std::io::Result<usize> {
        Err(std::io::Error::new(std::io::ErrorKind::Other, "refused"))
    }

    fn flush(&mut self) -> std::io::Result<()> {
        Err(std::io::Error::new(std::io::ErrorKind::Other, "refused"))
    }
}

#[test]
fn test_insert_single() {
    let mut cluster_output = Cursor::new(Vec::new());
    {
        let mut clusters =
            Clusters::from_writer(Some(&mut cluster_output), Some(10), 200).expect("asdasd");
        let seq = random_seq(20);
        let record_1 = SeqRecord::with_attrs("id_a", &seq);
        clusters.insert_single(&record_1, false).expect("don't break");
        let record_2 = SeqRecord::with_attrs("id_b", &seq);
        clusters.insert_single(&record_2, false).expect("don't break");
        assert_eq!(clusters.duplicate_records(), 1);
        assert_eq!(clusters.unique_records(), 1);
        assert_eq!(clusters.total_records(), 2);
    }
    assert_eq!(
        str::from_utf8(cluster_output.into_inner().as_slice()).unwrap(),
        "representative read id,read id\nid_a,id_a\nid_a,id_b\n"
    );
}

#[test]
fn test_insert_pair() {
    let mut cluster_output = Cursor::new(Vec::new());
    {
        let mut clusters =
            Clusters::from_writer(Some(&mut cluster_output), Some(10), 200).expect("asdasd");
        let seq_r1 = random_seq(20);
        let seq_r2 = random_seq(20);
        let record_1_r1 = SeqRecord::with_attrs("id_a", &seq_r1);
        let record_1_r2 = SeqRecord::with_attrs("id_a", &seq_r2);
        clusters
            .insert_pair(&PairedRecord::new(record_1_r1, record_1_r2), false)
            .expect("don't break");
        let record_2_r1 = SeqRecord::with_attrs("id_b", &seq_r1);
        let record_2_r2 = SeqRecord::with_attrs("id_b", &seq_r2);
        clusters
            .insert_pair(&PairedRecord::new(record_2_r1, record_2_r2), false)
            .expect("don't break");
        assert_eq!(clusters.duplicate_records(), 1);
        assert_eq!(clusters.unique_records(), 1);
        assert_eq!(clusters.total_records(), 2);
    }
    assert_eq!(
        str::from_utf8(cluster_output.into_inner().as_slice()).unwrap(),
        "representative read id,read id\nid_a,id_a\nid_a,id_b\n"
    );
}

#[test]
fn test_write_cluster_sizes() {
    let mut cluster_output = Cursor::new(Vec::new());
    let mut cluster_sizes_writer = Cursor::new(Vec::new());
    {
        let mut cluster_sizes_output = CsvSink::from_writer(&mut cluster_sizes_writer);
        let mut clusters =
            Clusters::from_writer(Some(&mut cluster_output), Some(10), 200).expect("asdasd");
        let seq1 = random_seq(20);
        let record_1 = SeqRecord::with_attrs("id_a", &seq1);
        clusters.insert_single(&record_1, false).expect("don't break");
        let record_2 = SeqRecord::with_attrs("id_b", &seq1);
        clusters.insert_single(&record_2, false).expect("don't break");
        let seq2 = random_seq(20);
        let record_3 = SeqRecord::with_attrs("id_c", &seq2);
        clusters.insert_single(&record_3, false).expect("don't break");
        clusters
            .write_sizes(&mut cluster_sizes_output)
            .expect("don't break");
    }
    let cluster_sizes_output_inner = cluster_sizes_writer.into_inner();
    let cluster_sizes = str::from_utf8(cluster_sizes_output_inner.as_slice()).unwrap();
    assert_eq!(
        cluster_sizes,
        "representative read id,cluster size\nid_a,2\nid_c,1\n"
    );
}

#[test]
fn insert_record_tells_first_occurrences_and_counts_every_call() {
    let mut clusters = Clusters::from_writer(None::<Vec<u8>>, None, 0).unwrap();
    assert_eq!(clusters.total_records(), 0);
    assert_eq!(clusters.unique_records(), 0);
    assert_eq!(clusters.duplicate_records(), 0);
    let fingerprints: [u64; 7] = [5, 9, 5, 5, 1, 9, 0];
    let first: [bool; 7] = [true, true, false, false, true, false, true];
    for i in 0..7 {
        let told = clusters
            .insert_record(fingerprints[i], format!("read{}", i), false)
            .unwrap();
        assert_eq!(told, first[i]);
        assert_eq!(clusters.total_records(), i as u64 + 1);
        assert_eq!(
            clusters.total_records(),
            clusters.unique_records() + clusters.duplicate_records()
        );
    }
    assert_eq!(clusters.unique_records(), 4);
    assert_eq!(clusters.duplicate_records(), 3);
    let mut summary = Cursor::new(Vec::new());
    {
        let mut sink = CsvSink::from_writer(&mut summary);
        clusters.write_sizes(&mut sink).unwrap();
    }
    assert_eq!(
        str::from_utf8(summary.into_inner().as_slice()).unwrap(),
        "representative read id,cluster size\nread0,3\nread1,2\nread4,1\nread6,1\n"
    );
}

#[test]
fn membership_log_marks_only_flipped_duplicates() {
    let mut log = Cursor::new(Vec::new());
    {
        let mut clusters = Clusters::from_writer(Some(&mut log), None, 4).unwrap();
        assert!(clusters.insert_record(7, "a".to_string(), true).unwrap());
        assert!(!clusters.insert_record(7, "b".to_string(), true).unwrap());
        assert!(!clusters.insert_record(7, "c".to_string(), false).unwrap());
        assert!(clusters.insert_record(8, "d".to_string(), false).unwrap());
    }
    assert_eq!(
        str::from_utf8(log.into_inner().as_slice()).unwrap(),
        "representative read id,read id\na,a\na,b (rc)\na,c\nd,d\n"
    );
}

#[test]
fn summary_of_an_empty_registry_is_the_header() {
    let clusters = Clusters::from_writer(None::<Vec<u8>>, Some(3), 10).unwrap();
    let mut summary = Cursor::new(Vec::new());
    {
        let mut sink = CsvSink::from_writer(&mut summary);
        clusters.write_sizes(&mut sink).unwrap();
    }
    assert_eq!(
        str::from_utf8(summary.into_inner().as_slice()).unwrap(),
        "representative read id,cluster size\n"
    );
}

#[test]
fn summary_sizes_are_decimal() {
    let mut clusters = Clusters::from_writer(None::<Vec<u8>>, None, 0).unwrap();
    for i in 0..12 {
        clusters.insert_record(3, format!("r{}", i), false).unwrap();
    }
    let mut summary = Cursor::new(Vec::new());
    {
        let mut sink = CsvSink::from_writer(&mut summary);
        clusters.write_sizes(&mut sink).unwrap();
    }
    assert_eq!(
        str::from_utf8(summary.into_inner().as_slice()).unwrap(),
        "representative read id,cluster size\nr0,12\n"
    );
}

#[test]
fn a_registry_without_log_never_fails() {
    let mut clusters = Clusters::from_writer(None::<Refusing>, None, 0).unwrap();
    let long_id = "x".repeat(20000);
    let record = SeqRecord::with_attrs(&long_id, b"ACGT");
    assert!(clusters.insert_single(&record, true).unwrap());
    assert!(!clusters.insert_single(&record, true).unwrap());
}

#[test]
fn a_refused_log_row_still_counts_the_read() {
    let mut clusters = Clusters::from_writer(Some(Refusing), None, 0).unwrap();
    let long_id = "x".repeat(20000);
    assert!(clusters.insert_record(1, long_id.clone(), false).is_err());
    assert_eq!(clusters.total_records(), 1);
    assert_eq!(clusters.unique_records(), 1);
    assert_eq!(clusters.duplicate_records(), 0);
    assert!(clusters.insert_record(1, long_id, false).is_err());
    assert_eq!(clusters.total_records(), 2);
    assert_eq!(clusters.unique_records(), 1);
    assert_eq!(clusters.duplicate_records(), 1);
}

#[test]
fn a_refused_summary_row_is_reported() {
    let mut clusters = Clusters::from_writer(None::<Vec<u8>>, None, 0).unwrap();
    clusters.insert_record(1, "y".repeat(20000), false).unwrap();
    let mut sink = CsvSink::from_writer(Refusing);
    assert!(clusters.write_sizes(&mut sink).is_err());
}

#[test]
fn single_reads_cluster_by_the_fingerprint_of_their_canonical_form() {
    let mut log = Cursor::new(Vec::new());
    {
        let mut clusters = Clusters::from_writer(Some(&mut log), None, 0).unwrap();
        let read = SeqRecord::with_attrs("fwd", b"AAAC");
        let flipped = SeqRecord::with_attrs("rev", b"GTTT");
        let other = SeqRecord::with_attrs("other", b"AAAG");
        assert!(clusters.insert_single(&read, true).unwrap());
        assert!(!clusters.insert_single(&flipped, true).unwrap());
        assert!(clusters.insert_single(&other, true).unwrap());
        assert_eq!(clusters.unique_records(), 2);
    }
    assert_eq!(
        str::from_utf8(log.into_inner().as_slice()).unwrap(),
        "representative read id,read id\nfwd,fwd\nfwd,rev (rc)\nother,other\n"
    );
    assert_eq!(fingerprint(b"AAAC", None), fingerprint(b"AAAC", Some(4)));
}

#[test]
fn strand_symmetry_off_keeps_reverse_complements_apart() {
    let mut clusters = Clusters::from_writer(None::<Vec<u8>>, None, 0).unwrap();
    let read = SeqRecord::with_attrs("fwd", b"AAAC");
    let flipped = SeqRecord::with_attrs("rev", b"GTTT");
    assert!(clusters.insert_single(&read, false).unwrap());
    assert!(clusters.insert_single(&flipped, false).unwrap());
    assert_eq!(clusters.unique_records(), 2);
    assert_eq!(clusters.duplicate_records(), 0);
}

#[test]
fn strand_symmetry_marks_the_first_read_when_it_is_the_larger() {
    let mut log = Cursor::new(Vec::new());
    {
        let mut clusters = Clusters::from_writer(Some(&mut log), None, 0).unwrap();
        let read = SeqRecord::with_attrs("one", b"TTTT");
        let flipped = SeqRecord::with_attrs("two", b"AAAA");
        assert!(clusters.insert_single(&read, true).unwrap());
        assert!(!clusters.insert_single(&flipped, true).unwrap());
        assert_eq!(clusters.unique_records(), 1);
    }
    assert_eq!(
        str::from_utf8(log.into_inner().as_slice()).unwrap(),
        "representative read id,read id\none,one\none,two\n"
    );
}

#[test]
fn prefix_length_collapses_reads_that_agree_up_to_it() {
    let mut clusters = Clusters::from_writer(None::<Vec<u8>>, Some(4), 0).unwrap();
    let one = SeqRecord::with_attrs("one", b"ACGTAAAA");
    let two = SeqRecord::with_attrs("two", b"ACGTCCCC");
    let short = SeqRecord::with_attrs("short", b"ACG");
    assert!(clusters.insert_single(&one, false).unwrap());
    assert!(!clusters.insert_single(&two, false).unwrap());
    assert!(clusters.insert_single(&short, false).unwrap());
    assert_eq!(clusters.unique_records(), 2);

    let mut full = Clusters::from_writer(None::<Vec<u8>>, None, 0).unwrap();
    assert!(full.insert_single(&one, false).unwrap());
    assert!(full.insert_single(&two, false).unwrap());
    assert_eq!(full.unique_records(), 2);

    let mut wide = Clusters::from_writer(None::<Vec<u8>>, Some(8), 0).unwrap();
    assert!(wide.insert_single(&one, false).unwrap());
    assert!(wide.insert_single(&two, false).unwrap());
    assert_eq!(wide.unique_records(), 2);
}

#[test]
fn pairs_flip_both_mates_together() {
    let mut log = Cursor::new(Vec::new());
    {
        let mut clusters = Clusters::from_writer(Some(&mut log), None, 0).unwrap();
        let pair = PairedRecord::new(
            SeqRecord::with_attrs("pa", b"AAAC"),
            SeqRecord::with_attrs("pa", b"TTGG"),
        );
        let flipped = PairedRecord::new(
            SeqRecord::with_attrs("pb", b"GTTT"),
            SeqRecord::with_attrs("pb", b"CCAA"),
        );
        let half = PairedRecord::new(
            SeqRecord::with_attrs("pc", b"GTTT"),
            SeqRecord::with_attrs("pc", b"TTGG"),
        );
        assert!(clusters.insert_pair(&pair, true).unwrap());
        assert!(!clusters.insert_pair(&flipped, true).unwrap());
        assert!(clusters.insert_pair(&half, true).unwrap());
        assert_eq!(clusters.unique_records(), 2);
        assert_eq!(clusters.total_records(), 3);
    }
    assert_eq!(
        str::from_utf8(log.into_inner().as_slice()).unwrap(),
        "representative read id,read id\npa,pa\npa,pb (rc)\npc,pc\n"
    );
    assert_eq!(
        fingerprint_of_pair(b"AAAC", b"TTGG", Some(2)),
        fingerprint_of_pair(b"AATT", b"TTAA", Some(2))
    );
}

#[test]
fn equal_runs_write_equal_reports() {
    let reads: [(&str, &[u8]); 5] = [
        ("a", b"ACGTTGCA"),
        ("b", b"TTTTCCCC"),
        ("c", b"GGGGAAAA"),
        ("d", b"ACGTTGCA"),
        ("e", b"CCCCCCCC"),
    ];
    let mut reports: Vec<(Vec<u8>, Vec<u8>)> = Vec::new();
    for _ in 0..2 {
        let mut log = Cursor::new(Vec::new());
        let mut summary = Cursor::new(Vec::new());
        {
            let mut clusters = Clusters::from_writer(Some(&mut log), Some(6), 8).unwrap();
            for (id, seq) in reads.iter() {
                clusters
                    .insert_single(&SeqRecord::with_attrs(id, seq), true)
                    .unwrap();
            }
            let mut sink = CsvSink::from_writer(&mut summary);
            clusters.write_sizes(&mut sink).unwrap();
        }
        reports.push((log.into_inner(), summary.into_inner()));
    }
    assert_eq!(reports[0], reports[1]);
    assert_eq!(
        str::from_utf8(&reports[0].0).unwrap(),
        "representative read id,read id\na,a\nb,b\nb,c\na,d\ne,e\n"
    );
    assert_eq!(
        str::from_utf8(&reports[0].1).unwrap(),
        "representative read id,cluster size\na,2\nb,2\ne,1\n"
    );
}
