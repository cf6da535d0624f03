//! Decoding tests: every payload shape, every error variant, and the
//! count-reconciliation and tag-validation rules, on synthetic records.

use kstat::chain::{Ctl, Kstat};
use kstat::data::{decode_record, Data, NamedData};
use kstat::raw::{kstat_str_parse, RawData, RawNamed, RawRecord};
use kstat::types::{NamedType, Type};
use kstat::Error;

fn buf31(s: &str) -> Vec<u8> {
    let mut v = s.as_bytes().to_vec();
    v.resize(31, 0);
    v
}

fn val16(head: &[u8]) -> Vec<u8> {
    let mut v = head.to_vec();
    v.resize(16, 0);
    v
}

fn record(
    module: &str,
    instance: i32,
    name: &str,
    class: &str,
    ks_type: u8,
    ks_ndata: u32,
    ks_data: RawData,
) -> RawRecord {
    RawRecord {
        ks_crtime: 1_000,
        ks_snaptime: 2_000,
        ks_module: buf31(module),
        ks_instance: instance,
        ks_name: buf31(name),
        ks_type,
        ks_class: buf31(class),
        ks_ndata,
        ks_data,
    }
}

fn read_one(rec: RawRecord) -> Result<Data, Error> {
    let ctl = Ctl::new(vec![rec]);
    let mut it = ctl.iter();
    let mut k = it.next().expect("record should yield a descriptor");
    ctl.read(&mut k)
}

#[test]
fn raw_zero_count_yields_empty_sequence() {
    let rec = record("mod", 0, "raw0", "misc", 0, 0, RawData::Bytes(vec![1, 2, 3]));
    match read_one(rec) {
        Ok(Data::Raw(chunks)) => assert!(chunks.is_empty()),
        other => panic!("expected empty raw data, found {:?}", other),
    }
}

#[test]
fn raw_chunks_slice_payload_evenly() {
    let rec = record(
        "mod",
        0,
        "raw8",
        "misc",
        0,
        2,
        RawData::Bytes(vec![10, 11, 12, 13, 20, 21, 22, 23]),
    );
    match read_one(rec) {
        Ok(Data::Raw(chunks)) => {
            assert_eq!(chunks.len(), 2);
            assert_eq!(chunks[0], vec![10, 11, 12, 13]);
            assert_eq!(chunks[1], vec![20, 21, 22, 23]);
        },
        other => panic!("expected two raw chunks, found {:?}", other),
    }
}

#[test]
fn raw_uneven_payload_truncates_per_element_width() {
    // 7 bytes over 3 elements: width 2, trailing byte never read.
    let rec = record("mod", 0, "raw7", "misc", 0, 3, RawData::Bytes(vec![1, 2, 3, 4, 5, 6, 7]));
    match read_one(rec) {
        Ok(Data::Raw(chunks)) => {
            assert_eq!(chunks, vec![vec![1, 2], vec![3, 4], vec![5, 6]]);
        },
        other => panic!("expected three raw chunks, found {:?}", other),
    }
}

fn named_u32(name: &str, x: u32) -> RawNamed {
    RawNamed { name: buf31(name), data_type: 2, value: val16(&x.to_le_bytes()), str_data: None }
}

#[test]
fn named_count_reconciliation_uses_smaller_count() {
    // Kernel declares 5 entries; the payload only backs 2. No out-of-bounds
    // read may occur and the decoded table holds exactly 2 entries.
    let entries = vec![named_u32("a", 1), named_u32("b", 2)];
    let rec = record("mod", 0, "short", "misc", 1, 5, RawData::Entries(entries));
    match read_one(rec) {
        Ok(Data::Named(v)) => {
            assert_eq!(v.len(), 2);
            assert_eq!(v[0].name, "a");
            assert_eq!(v[0].value, NamedData::UInt32(1));
            assert_eq!(v[1].name, "b");
            assert_eq!(v[1].value, NamedData::UInt32(2));
        },
        other => panic!("expected a two-entry table, found {:?}", other),
    }
}

#[test]
fn named_count_reconciliation_respects_declared_count() {
    // Kernel declares 1 entry while the payload backs 2: only 1 decoded.
    let entries = vec![named_u32("a", 1), named_u32("b", 2)];
    let rec = record("mod", 0, "long", "misc", 1, 1, RawData::Entries(entries));
    match read_one(rec) {
        Ok(Data::Named(v)) => assert_eq!(v.len(), 1),
        other => panic!("expected a one-entry table, found {:?}", other),
    }
}

#[test]
fn named_scalars_decode_by_tag() {
    let entries = vec![
        RawNamed {
            name: buf31("c"),
            data_type: 0,
            value: val16(b"chars"),
            str_data: None,
        },
        RawNamed {
            name: buf31("i32"),
            data_type: 1,
            value: val16(&(-5i32).to_le_bytes()),
            str_data: None,
        },
        RawNamed {
            name: buf31("u32"),
            data_type: 2,
            value: val16(&42u32.to_le_bytes()),
            str_data: None,
        },
        RawNamed {
            name: buf31("i64"),
            data_type: 3,
            value: val16(&(-7i64).to_le_bytes()),
            str_data: None,
        },
        RawNamed {
            name: buf31("u64"),
            data_type: 4,
            value: val16(&99u64.to_le_bytes()),
            str_data: None,
        },
        RawNamed {
            name: buf31("s"),
            data_type: 9,
            value: val16(&[]),
            str_data: Some(b"world\0junk".to_vec()),
        },
    ];
    let rec = record("mod", 0, "scalars", "misc", 1, 6, RawData::Entries(entries));
    match read_one(rec) {
        Ok(Data::Named(v)) => {
            assert_eq!(v.len(), 6);
            assert_eq!(v[0].value, NamedData::Char(val16(b"chars")));
            assert_eq!(v[1].value, NamedData::Int32(-5));
            assert_eq!(v[2].value, NamedData::UInt32(42));
            assert_eq!(v[3].value, NamedData::Int64(-7));
            assert_eq!(v[4].value, NamedData::UInt64(99));
            assert_eq!(v[5].value, NamedData::String("world".to_string()));
            // Tag/value consistency: each entry classifies itself under the
            // tag that selected its decode branch.
            assert_eq!(v[0].data_type(), NamedType::Char);
            assert_eq!(v[1].data_type(), NamedType::Int32);
            assert_eq!(v[2].data_type(), NamedType::UInt32);
            assert_eq!(v[3].data_type(), NamedType::Int64);
            assert_eq!(v[4].data_type(), NamedType::UInt64);
            assert_eq!(v[5].data_type(), NamedType::String);
            assert_eq!(v[5].value.data_type(), NamedType::String);
        },
        other => panic!("expected a six-entry table, found {:?}", other),
    }
}

#[test]
fn unknown_outer_type_tag_is_rejected() {
    // A record declaring tag 99 yields no typed descriptor at all.
    assert_eq!(Type::try_from(99), Err(Error::InvalidType(99)));
    let rec = record("mod", 0, "bad", "misc", 99, 0, RawData::Bytes(vec![]));
    assert_eq!(Kstat::try_from(&rec, 0), Err(Error::InvalidType(99)));
    let ctl = Ctl::new(vec![rec]);
    let mut it = ctl.iter();
    assert_eq!(it.next(), None);
}

#[test]
fn unknown_named_type_tag_fails_the_whole_read() {
    let entries = vec![
        named_u32("good", 1),
        RawNamed { name: buf31("bad"), data_type: 7, value: val16(&[]), str_data: None },
    ];
    let rec = record("mod", 0, "badent", "misc", 1, 2, RawData::Entries(entries));
    assert_eq!(read_one(rec), Err(Error::InvalidNamedType(7)));
}

#[test]
fn invalid_utf8_entry_name_fails_the_read() {
    let mut bad = buf31("x");
    bad[0] = 0xff;
    bad[1] = 0xfe;
    let entries = vec![RawNamed { name: bad, data_type: 2, value: val16(&[]), str_data: None }];
    let rec = record("mod", 0, "badname", "misc", 1, 1, RawData::Entries(entries));
    assert_eq!(read_one(rec), Err(Error::InvalidString));
}

#[test]
fn invalid_utf8_string_value_fails_the_read() {
    let entries = vec![RawNamed {
        name: buf31("s"),
        data_type: 9,
        value: val16(&[]),
        str_data: Some(vec![0xff, 0xfe, 0]),
    }];
    let rec = record("mod", 0, "badstr", "misc", 1, 1, RawData::Entries(entries));
    assert_eq!(read_one(rec), Err(Error::InvalidString));
}

#[test]
fn absent_string_pointer_reports_null_data() {
    let entries =
        vec![RawNamed { name: buf31("s"), data_type: 9, value: val16(&[]), str_data: None }];
    let rec = record("mod", 0, "nullstr", "misc", 1, 1, RawData::Entries(entries));
    assert_eq!(read_one(rec), Err(Error::NullData));
}

#[test]
fn null_payload_reports_null_data() {
    let rec = record("mod", 0, "null", "misc", 0, 0, RawData::Null);
    assert_eq!(read_one(rec), Err(Error::NullData));
}

#[test]
fn interrupt_payload_decodes_field_for_field() {
    let mut b = Vec::new();
    for x in [1u32, 2, 3, 4, 5] {
        b.extend_from_slice(&x.to_le_bytes());
    }
    let rec = record("mod", 0, "intr", "misc", 2, 1, RawData::Bytes(b));
    match read_one(rec) {
        Ok(Data::Intr(x)) => {
            assert_eq!(x.hard, 1);
            assert_eq!(x.soft, 2);
            assert_eq!(x.watchdog, 3);
            assert_eq!(x.spurious, 4);
            assert_eq!(x.multisvc, 5);
        },
        other => panic!("expected interrupt counters, found {:?}", other),
    }
}

#[test]
fn interrupt_size_mismatch_is_a_decode_fault() {
    let rec = record("mod", 0, "intr", "misc", 2, 1, RawData::Bytes(vec![0; 19]));
    assert_eq!(read_one(rec), Err(Error::SizeMismatch));
    let rec = record("mod", 0, "intr", "misc", 2, 2, RawData::Bytes(vec![0; 20]));
    assert_eq!(read_one(rec), Err(Error::SizeMismatch));
}

fn io_payload() -> Vec<u8> {
    let mut b = Vec::new();
    b.extend_from_slice(&100u64.to_le_bytes()); // nread
    b.extend_from_slice(&200u64.to_le_bytes()); // nwritten
    b.extend_from_slice(&3u32.to_le_bytes()); // reads
    b.extend_from_slice(&4u32.to_le_bytes()); // writes
    for t in [5i64, 6, 7, 8, 9, 10] {
        b.extend_from_slice(&t.to_le_bytes()); // wtime .. rlastupdate
    }
    b.extend_from_slice(&11u32.to_le_bytes()); // wcnt
    b.extend_from_slice(&12u32.to_le_bytes()); // rcnt
    b
}

#[test]
fn io_payload_decodes_field_for_field() {
    let rec = record("sd", 0, "sd0", "disk", 3, 1, RawData::Bytes(io_payload()));
    match read_one(rec) {
        Ok(Data::Io(x)) => {
            assert_eq!(x.nread, 100);
            assert_eq!(x.nwritten, 200);
            assert_eq!(x.reads, 3);
            assert_eq!(x.writes, 4);
            assert_eq!(x.wtime, 5);
            assert_eq!(x.wlentime, 6);
            assert_eq!(x.wlastupdate, 7);
            assert_eq!(x.rtime, 8);
            assert_eq!(x.rlentime, 9);
            assert_eq!(x.rlastupdate, 10);
            assert_eq!(x.wcnt, 11);
            assert_eq!(x.rcnt, 12);
        },
        other => panic!("expected io counters, found {:?}", other),
    }
}

#[test]
fn io_size_mismatch_is_a_decode_fault() {
    let rec = record("sd", 0, "sd0", "disk", 3, 1, RawData::Bytes(vec![0; 79]));
    assert_eq!(read_one(rec), Err(Error::SizeMismatch));
}

fn timer_record(name: &str, num_events: u64, times: [i64; 5]) -> Vec<u8> {
    let mut b = buf31(name);
    b.push(0); // reserved byte
    b.extend_from_slice(&num_events.to_le_bytes());
    for t in times {
        b.extend_from_slice(&t.to_le_bytes());
    }
    b
}

#[test]
fn timer_payload_decodes_each_record() {
    let mut b = timer_record("t0", 7, [1, 2, 3, 4, 5]);
    b.extend_from_slice(&timer_record("t1", 8, [6, 7, 8, 9, 10]));
    let rec = record("mod", 0, "timers", "misc", 4, 2, RawData::Bytes(b));
    match read_one(rec) {
        Ok(Data::Timer(v)) => {
            assert_eq!(v.len(), 2);
            assert_eq!(v[0].name, "t0");
            assert_eq!(v[0].num_events, 7);
            assert_eq!(v[0].elapsed_time, 1);
            assert_eq!(v[0].min_time, 2);
            assert_eq!(v[0].max_time, 3);
            assert_eq!(v[0].start_time, 4);
            assert_eq!(v[0].stop_time, 5);
            assert_eq!(v[1].name, "t1");
            assert_eq!(v[1].num_events, 8);
            assert_eq!(v[1].stop_time, 10);
        },
        other => panic!("expected two timers, found {:?}", other),
    }
}

#[test]
fn timer_size_mismatch_is_a_decode_fault() {
    let b = timer_record("t0", 7, [1, 2, 3, 4, 5]);
    let rec = record("mod", 0, "timers", "misc", 4, 2, RawData::Bytes(b));
    assert_eq!(read_one(rec), Err(Error::SizeMismatch));
}

#[test]
fn payload_shape_must_agree_with_declared_type() {
    // A named record whose data area is an untyped blob violates the
    // kernel's binary contract.
    let rec = record("mod", 0, "odd", "misc", 1, 1, RawData::Bytes(vec![0; 48]));
    assert_eq!(read_one(rec), Err(Error::SizeMismatch));
    // And a raw record cannot be read out of a named entry array.
    let rec = record("mod", 0, "odd2", "misc", 0, 1, RawData::Entries(vec![]));
    assert_eq!(read_one(rec), Err(Error::SizeMismatch));
}

#[test]
fn decode_record_validates_before_interpreting() {
    // The dispatcher works on the raw record and declared type alone.
    let rec = record("mod", 0, "direct", "misc", 2, 1, RawData::Bytes(vec![0; 20]));
    match decode_record(&rec, Type::Intr) {
        Ok(Data::Intr(x)) => assert_eq!(x.hard, 0),
        other => panic!("expected interrupt counters, found {:?}", other),
    }
}

#[test]
fn str_parse_stops_at_the_terminator() {
    let mut b = b"hello\0".to_vec();
    b.extend_from_slice(&[0xff, 0xff]); // junk beyond the terminator
    assert_eq!(kstat_str_parse(&b), Ok("hello".to_string()));
    assert_eq!(kstat_str_parse(b"no terminator"), Ok("no terminator".to_string()));
    assert_eq!(kstat_str_parse(&[0xff, 0xfe, 0]), Err(Error::InvalidString));
    assert_eq!(kstat_str_parse(&[]), Ok(String::new()));
}
