//! Chain-walk tests: iteration and skipping, filter semantics, the
//! deterministic order, and the snapshot round trip.

use kstat::chain::{Ctl, Kstat};
use kstat::data::Data;
use kstat::order::sort_descriptors;
use kstat::raw::{RawData, RawRecord};
use kstat::types::Type;
use kstat::Error;

fn buf31(s: &str) -> Vec<u8> {
    let mut v = s.as_bytes().to_vec();
    v.resize(31, 0);
    v
}

fn record(module: &str, instance: i32, name: &str, class: &str, snaptime: i64) -> RawRecord {
    RawRecord {
        ks_crtime: 1_000,
        ks_snaptime: snaptime,
        ks_module: buf31(module),
        ks_instance: instance,
        ks_name: buf31(name),
        ks_type: 0,
        ks_class: buf31(class),
        ks_ndata: 0,
        ks_data: RawData::Bytes(vec![]),
    }
}

fn io_record(module: &str, instance: i32, name: &str, snaptime: i64) -> RawRecord {
    let mut b = Vec::new();
    b.extend_from_slice(&100u64.to_le_bytes());
    b.extend_from_slice(&200u64.to_le_bytes());
    b.extend_from_slice(&3u32.to_le_bytes());
    b.extend_from_slice(&4u32.to_le_bytes());
    for t in [5i64, 6, 7, 8, 9, 10] {
        b.extend_from_slice(&t.to_le_bytes());
    }
    b.extend_from_slice(&11u32.to_le_bytes());
    b.extend_from_slice(&12u32.to_le_bytes());
    RawRecord {
        ks_crtime: 500,
        ks_snaptime: snaptime,
        ks_module: buf31(module),
        ks_instance: instance,
        ks_name: buf31(name),
        ks_type: 3,
        ks_class: buf31("disk"),
        ks_ndata: 1,
        ks_data: RawData::Bytes(b),
    }
}

fn collect(ctl: &Ctl) -> Vec<Kstat> {
    let mut out = Vec::new();
    let mut it = ctl.iter();
    while let Some(k) = it.next() {
        out.push(k);
    }
    out
}

#[test]
fn basic_test() {
    let ctl = Ctl::new(vec![
        record("cpu", 0, "sys", "misc", 10),
        io_record("sd", 0, "sd0", 20),
        record("cpu", 1, "sys", "misc", 30),
    ]);
    let mut it = ctl.iter();
    while let Some(mut kstat) = it.next() {
        match ctl.read(&mut kstat) {
            Ok(_) => {},
            Err(e) => {
                println!("{:?}", e);
            },
        }
    }
}

#[test]
fn iteration_decodes_descriptor_fields() {
    let ctl = Ctl::new(vec![record("cpu", 7, "sys", "misc", 10)]);
    let ks = collect(&ctl);
    assert_eq!(ks.len(), 1);
    assert_eq!(ks[0].ks_module, "cpu");
    assert_eq!(ks[0].ks_instance, 7);
    assert_eq!(ks[0].ks_name, "sys");
    assert_eq!(ks[0].ks_class, "misc");
    assert_eq!(ks[0].ks_type, Type::Raw);
    assert_eq!(ks[0].ks_crtime, 1_000);
    assert_eq!(ks[0].ks_snaptime, 10);
}

#[test]
fn iteration_skips_undecodable_records() {
    let mut bad_name = record("cpu", 1, "x", "misc", 10);
    bad_name.ks_name[0] = 0xff;
    bad_name.ks_name[1] = 0xfe;
    let mut bad_type = record("cpu", 2, "y", "misc", 10);
    bad_type.ks_type = 99;
    let ctl = Ctl::new(vec![
        record("cpu", 0, "first", "misc", 10),
        bad_name,
        bad_type,
        record("cpu", 3, "last", "misc", 10),
    ]);
    let ks = collect(&ctl);
    assert_eq!(ks.len(), 2);
    assert_eq!(ks[0].ks_name, "first");
    assert_eq!(ks[1].ks_name, "last");
}

#[test]
fn filter_with_all_criteria_absent_equals_iteration() {
    let ctl = Ctl::new(vec![
        record("cpu", 0, "sys", "misc", 10),
        record("mem", 1, "pages", "vm", 20),
        record("net", 2, "e1000g0", "net", 30),
    ]);
    let all = ctl.filter(None, None, None);
    let iterated = collect(&ctl);
    assert_eq!(all, iterated);
}

#[test]
fn filter_is_a_union_across_criteria() {
    let ctl = Ctl::new(vec![
        record("cpu", 0, "sys", "misc", 10),
        record("mem", 1, "pages", "vm", 20),
        record("net", 2, "e1000g0", "net", 30),
    ]);
    // A module that matches nothing alongside a name that matches one
    // record: the name-matched record is still returned.
    let got = ctl.filter(Some("nosuchmodule"), None, Some("pages"));
    assert_eq!(got.len(), 1);
    assert_eq!(got[0].ks_name, "pages");
    // Two criteria each matching a different record return both.
    let got = ctl.filter(Some("cpu"), None, Some("e1000g0"));
    assert_eq!(got.len(), 2);
    assert_eq!(got[0].ks_module, "cpu");
    assert_eq!(got[1].ks_name, "e1000g0");
    // An instance criterion alone selects by instance.
    let got = ctl.filter(None, Some(1), None);
    assert_eq!(got.len(), 1);
    assert_eq!(got[0].ks_module, "mem");
}

#[test]
fn filter_with_contradictory_criteria_matching_nothing_is_empty() {
    let ctl = Ctl::new(vec![record("cpu", 0, "sys", "misc", 10)]);
    let got = ctl.filter(Some("nosuchmodule"), None, Some("nosuchname"));
    assert!(got.is_empty());
}

#[test]
fn sorting_orders_by_class_module_instance_name() {
    let ctl = Ctl::new(vec![
        record("zfs", 0, "arcstats", "misc", 1),
        record("cpu", 1, "sys", "misc", 2),
        record("cpu", 0, "vm", "misc", 3),
        record("cpu", 0, "sys", "misc", 4),
        io_record("sd", 0, "sd0", 5),
    ]);
    let mut ks = collect(&ctl);
    sort_descriptors(&mut ks);
    let keys: Vec<(String, String, i32, String)> = ks
        .iter()
        .map(|k| (k.ks_class.clone(), k.ks_module.clone(), k.ks_instance, k.ks_name.clone()))
        .collect();
    let mut expected = keys.clone();
    expected.sort();
    assert_eq!(keys, expected);
    assert_eq!(keys[0].0, "disk");
    assert_eq!(keys[1], ("misc".to_string(), "cpu".to_string(), 0, "sys".to_string()));
    assert_eq!(keys[2], ("misc".to_string(), "cpu".to_string(), 0, "vm".to_string()));
    assert_eq!(keys[3], ("misc".to_string(), "cpu".to_string(), 1, "sys".to_string()));
    assert_eq!(keys[4].1, "zfs");
    // Sorting is deterministic: sorting again changes nothing.
    let once = ks.clone();
    sort_descriptors(&mut ks);
    assert_eq!(ks, once);
}

#[test]
fn round_trip_read_twice_after_refresh() {
    let ctl = Ctl::new(vec![io_record("sd", 0, "sd0", 100)]);
    let mut k = ctl
        .filter(Some("sd"), Some(0), Some("sd0"))
        .into_iter()
        .next()
        .expect("io descriptor should be found");
    let first = ctl.read(&mut k).expect("first read should succeed");
    let first_snaptime = k.ks_snaptime;
    // Refresh: the kernel's chain has moved on; the record was updated.
    let ctl = ctl.update(vec![io_record("sd", 0, "sd0", 250)]);
    let second = ctl.read(&mut k).expect("second read should succeed");
    assert!(k.ks_snaptime >= first_snaptime);
    match (&first, &second) {
        (Data::Io(a), Data::Io(b)) => assert_eq!(a, b),
        other => panic!("expected io data from both reads, found {:?}", other),
    }
}

#[test]
fn read_reports_null_data_for_a_stale_descriptor() {
    let ctl = Ctl::new(vec![record("cpu", 0, "sys", "misc", 10)]);
    let mut k = collect(&ctl).into_iter().next().expect("one descriptor");
    let before = k.clone();
    let ctl = ctl.update(vec![]);
    assert_eq!(ctl.read(&mut k), Err(Error::NullData));
    assert_eq!(k, before);
}
