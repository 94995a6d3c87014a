use sbf::{HashFunction, SBF};

fn cells_snapshot(filter: &SBF, cells: usize) -> Vec<u16> {
    (0..cells).map(|i| filter.get_cell(i).unwrap()).collect()
}

#[test]
fn sbf_test_sbf() {
    let mut sbf = SBF::new(10, 2, 5, HashFunction::MD5, 3).unwrap();
    assert!(cells_snapshot(&sbf, 10).iter().all(|v| *v == 0));

    sbf.insert(b"test", 1).expect("Correct insertion of an area");
    let count = cells_snapshot(&sbf, 10).iter().filter(|v| **v == 1).count();
    assert!(2 >= count && count > 0);
    let filter = cells_snapshot(&sbf, 10);

    sbf.insert(b"test", 1).expect("Correct insertion of an area");
    assert_eq!(filter, cells_snapshot(&sbf, 10));

    sbf.insert(b"test1", 2).expect("Correct insertion of an area");
    let filter = cells_snapshot(&sbf, 10);

    sbf.insert(b"test1", 2).expect("Correct insertion of an area");
    assert_eq!(filter, cells_snapshot(&sbf, 10));

    println!("AREA MEMBERS: {:?}", sbf.metrics.get_area_members(1));
    assert_eq!(2, sbf.metrics.get_area_members(1).unwrap());
}

#[test]
fn tests_test_sbf() {
    let mut sbf = SBF::new(10, 2, 5, HashFunction::MD5, 3).unwrap();
    assert!(cells_snapshot(&sbf, 10).iter().all(|v| *v == 0));

    sbf.insert(b"test", 1).expect("Correct insertion of an area");
    let count = cells_snapshot(&sbf, 10).iter().filter(|v| **v == 1).count();
    assert!(2 >= count && count > 0);
    let filter = cells_snapshot(&sbf, 10);

    sbf.insert(b"test", 1).expect("Correct insertion of an area");
    assert_eq!(filter, cells_snapshot(&sbf, 10));

    sbf.insert(b"test1", 2).expect("Correct insertion of an area");
    let filter = cells_snapshot(&sbf, 10);

    sbf.insert(b"test1", 2).expect("Correct insertion of an area");
    assert_eq!(filter, cells_snapshot(&sbf, 10));

    println!("AREA MEMBERS: {:?}", sbf.metrics.get_area_members(1));
    assert_eq!(2, sbf.metrics.get_area_members(1).unwrap());
}
