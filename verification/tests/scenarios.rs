use sbf::{HashFunction, SBF};

fn cells_snapshot(filter: &SBF, cells: usize) -> Vec<u16> {
    (0..cells).map(|i| filter.get_cell(i).unwrap()).collect()
}

#[test]
fn s1_empty_filter() {
    let sbf = SBF::new(10, 2, 5, HashFunction::MD5, 3).unwrap();
    assert_eq!(sbf.check(b"test").unwrap(), 0);
    assert!(cells_snapshot(&sbf, 10).iter().all(|v| *v == 0));
    assert_eq!(sbf.metrics.members, 0);
}

#[test]
fn s2_single_insert() {
    let mut sbf = SBF::new(10, 2, 5, HashFunction::MD5, 3).unwrap();
    sbf.insert(b"test", 1).unwrap();
    assert_eq!(sbf.check(b"test").unwrap(), 1);
    let count = cells_snapshot(&sbf, 10).iter().filter(|v| **v == 1).count();
    assert!(1 <= count && count <= 2);
    let snapshot = cells_snapshot(&sbf, 10);
    for _ in 0..5 {
        sbf.insert(b"test", 1).unwrap();
        assert_eq!(snapshot, cells_snapshot(&sbf, 10));
    }
}

#[test]
fn s3_second_area() {
    let mut sbf = SBF::new(10, 2, 5, HashFunction::MD5, 3).unwrap();
    sbf.insert(b"test", 1).unwrap();
    let before = cells_snapshot(&sbf, 10);
    sbf.insert(b"test1", 2).unwrap();
    let after_first = cells_snapshot(&sbf, 10);
    sbf.insert(b"test1", 2).unwrap();
    let after_second = cells_snapshot(&sbf, 10);
    // Idempotence of the second insertion.
    assert_eq!(after_first, after_second);
    // Overwrite: any cell that held 1 and is probed by "test1" now holds 2.
    for idx in sbf.calc_indexes(b"test1") {
        if before[idx] == 1 {
            assert_eq!(after_first[idx], 2);
        }
    }
}

#[test]
fn s4_minimum_rule() {
    // Fill two areas, then find a content whose two probes land on a cell
    // holding 2 and a cell holding 1: the check answers the minimum, 1.
    let mut sbf = SBF::new(32, 2, 8, HashFunction::MD5, 3).unwrap();
    sbf.insert(b"high", 2).unwrap();
    for c in [b"low1".as_slice(), b"low2", b"low3", b"low4"] {
        sbf.insert(c, 1).unwrap();
    }
    let cells = cells_snapshot(&sbf, 32);
    assert!(cells.iter().any(|v| *v == 1));
    assert!(cells.iter().any(|v| *v == 2));
    let mut found = false;
    for i in 0..200000u32 {
        let content = format!("probe{}", i);
        let idxs = sbf.calc_indexes(content.as_bytes());
        let a = cells[idxs[0]];
        let b = cells[idxs[1]];
        if (a == 1 && b == 2) || (a == 2 && b == 1) {
            assert_eq!(sbf.check(content.as_bytes()).unwrap(), 1);
            found = true;
            break;
        }
    }
    assert!(found, "no content probing a 1-cell and a 2-cell in the candidate range");
}

#[test]
fn s5_metrics_counts() {
    let mut sbf = SBF::new(10, 2, 5, HashFunction::MD5, 3).unwrap();
    sbf.insert(b"test", 1).unwrap();
    sbf.insert(b"test1", 2).unwrap();
    sbf.insert(b"test1", 2).unwrap();
    assert_eq!(sbf.metrics.get_area_members(1).unwrap(), 1);
    assert_eq!(sbf.metrics.get_area_members(2).unwrap(), 2);
    assert_eq!(sbf.metrics.members, 3);
}

#[test]
fn s6_truncation_padding() {
    // With a salt length of 5, content is truncated to its first 5 bytes, so
    // these two contents probe identical cells.
    let sbf = SBF::new(10, 2, 5, HashFunction::MD5, 3).unwrap();
    assert_eq!(sbf.calc_indexes(b"abcdefgh"), sbf.calc_indexes(b"abcde"));
    let mut sbf2 = SBF::new(10, 2, 5, HashFunction::MD5, 3).unwrap();
    sbf2.insert(b"abcdefgh", 1).unwrap();
    assert_eq!(sbf2.calc_indexes(b"abcdefgh"), sbf2.calc_indexes(b"abcde"));
    assert_eq!(sbf2.check(b"abcde").unwrap(), 1);
}

#[test]
fn monotonicity_under_inserts() {
    let mut sbf = SBF::new(16, 3, 4, HashFunction::MD5, 5).unwrap();
    let mut previous = cells_snapshot(&sbf, 16);
    for (content, area) in [
        (b"aa".as_slice(), 2u16),
        (b"bb", 1),
        (b"cc", 4),
        (b"aa", 3),
        (b"dd", 5),
        (b"bb", 1),
    ] {
        sbf.insert(content, area).unwrap();
        let current = cells_snapshot(&sbf, 16);
        for i in 0..16 {
            assert!(current[i] >= previous[i]);
            assert!(current[i] <= 5);
        }
        previous = current;
    }
}

#[test]
fn counter_consistency() {
    let mut sbf = SBF::new(16, 3, 4, HashFunction::MD5, 5).unwrap();
    for (content, area) in [(b"aa".as_slice(), 2u16), (b"bb", 1), (b"cc", 4), (b"aa", 3)] {
        sbf.insert(content, area).unwrap();
    }
    let cells = cells_snapshot(&sbf, 16);
    let nonzero = cells.iter().filter(|v| **v != 0).count();
    let cell_sum: usize = sbf.metrics.area_cells[1..].iter().sum();
    assert_eq!(cell_sum, nonzero);
    assert_eq!(sbf.area_cells_from(1), nonzero);
    let member_sum: usize = sbf.metrics.area_members[1..].iter().sum();
    assert_eq!(member_sum, sbf.metrics.members);
    assert_eq!(sbf.area_members_from(1), sbf.metrics.members);
    for b in 1..=5u16 {
        let held = cells.iter().filter(|v| **v == b).count();
        assert_eq!(sbf.metrics.area_cells[b as usize], held);
    }
}

#[test]
fn determinism() {
    let sbf = SBF::new(24, 4, 6, HashFunction::MD5, 3).unwrap();
    assert_eq!(sbf.calc_indexes(b"same"), sbf.calc_indexes(b"same"));
    assert_eq!(sbf.check(b"same").unwrap(), sbf.check(b"same").unwrap());
}

#[test]
fn check_dominance_after_insert() {
    let mut sbf = SBF::new(64, 3, 6, HashFunction::MD5, 4).unwrap();
    // Into an empty filter: equality with the inserted label.
    sbf.insert(b"first", 3).unwrap();
    assert_eq!(sbf.check(b"first").unwrap(), 3);
    // Right after its own insertion a content answers at least its label.
    sbf.insert(b"second", 2).unwrap();
    assert!(sbf.check(b"second").unwrap() >= 2);
}

#[test]
fn index_out_of_bounds_cases() {
    let sbf = SBF::new(10, 2, 5, HashFunction::MD5, 3).unwrap();
    assert_eq!(sbf.get_cell(9).unwrap(), 0);
    assert_eq!(sbf.get_cell(10), Err(sbf::Error::IndexOutOfBounds));
    // An area count that does not fit a cell is refused at construction.
    assert!(matches!(
        SBF::new(10, 2, 5, HashFunction::MD5, 70000),
        Err(sbf::Error::IndexOutOfBounds)
    ));
}

#[test]
fn error_message() {
    let e = sbf::Error::IndexOutOfBounds;
    assert_eq!(e.message(), "Index out of bounds");
}

#[test]
fn md5_empty_buffer_index() {
    // With a salt length of 0 every content is truncated to the empty
    // buffer, so the one probe lands where the MD5 digest of the empty
    // input, read little-endian, points.
    let mut sbf = SBF::new(10, 1, 0, HashFunction::MD5, 3).unwrap();
    let md5_empty_prefix = [0xd4u8, 0x1d, 0x8c, 0xd9, 0x8f, 0x00, 0xb2, 0x04];
    let expected = (u64::from_le_bytes(md5_empty_prefix) % 10) as usize;
    assert_eq!(sbf.calc_indexes(b"whatever"), vec![expected]);
    sbf.insert(b"anything", 1).unwrap();
    for i in 0..10 {
        let want = if i == expected { 1 } else { 0 };
        assert_eq!(sbf.get_cell(i).unwrap(), want);
    }
    assert_eq!(sbf.check(b"other").unwrap(), 1);
}

#[test]
fn md4_empty_buffer_index() {
    let sbf = SBF::new(10, 1, 0, HashFunction::MD4, 3).unwrap();
    let md4_empty_prefix = [0x31u8, 0xd6, 0xcf, 0xe0, 0xd1, 0x6a, 0xe9, 0x31];
    let expected = (u64::from_le_bytes(md4_empty_prefix) % 10) as usize;
    assert_eq!(sbf.calc_indexes(b"whatever"), vec![expected]);
}

#[test]
fn emersion_counts() {
    // With a salt length of 0 and two probes, both probes of the one insert
    // hit the same cell: one write, then one self-collision.
    let mut sbf = SBF::new(10, 2, 0, HashFunction::MD5, 3).unwrap();
    assert_eq!(sbf.area_emersion_counts(1), None);
    sbf.insert(b"x", 1).unwrap();
    assert_eq!(sbf.metrics.area_cells[1], 1);
    assert_eq!(sbf.metrics.area_self_collisions[1], 1);
    assert_eq!(sbf.metrics.collisions, 1);
    // Numerator: one cell held; denominator: 2 probes * 1 member - 1
    // self-collision.
    assert_eq!(sbf.area_emersion_counts(1), Some((1, 1)));
}
