use hsperfdata::entry_value::EntryValue;
use hsperfdata::errors::Error;
use hsperfdata::java_virtual_machine::JavaVirtualMachine;
use hsperfdata::jvm_monitor::JvmMonitor;
use hsperfdata::perf_data::{Unit, Variability};

const BIG_ENDIAN_TAG: u8 = 0;
const LITTLE_ENDIAN_TAG: u8 = 1;

fn prolog_bytes(order: u8, major: u8, minor: u8, entry_offset: u32) -> Vec<u8> {
    let mut v = vec![0u8; 32];
    v[0..4].copy_from_slice(&0xcafec0c0u32.to_be_bytes());
    v[4] = order;
    v[5] = major;
    v[6] = minor;
    let off = if order == BIG_ENDIAN_TAG {
        entry_offset.to_be_bytes()
    } else {
        entry_offset.to_le_bytes()
    };
    v[24..28].copy_from_slice(&off);
    v
}

fn record_bytes(
    big_endian: bool,
    entry_length: i32,
    name: &str,
    vector_length: i32,
    type_tag: u8,
    unit_tag: u8,
    variability_tag: u8,
    data_offset: i32,
    data: &[u8],
) -> Vec<u8> {
    let enc = |x: i32| {
        if big_endian {
            x.to_be_bytes()
        } else {
            x.to_le_bytes()
        }
    };
    let mut v = vec![0u8; entry_length as usize];
    v[0..4].copy_from_slice(&enc(entry_length));
    v[4..8].copy_from_slice(&enc(20));
    v[8..12].copy_from_slice(&enc(vector_length));
    v[12] = type_tag;
    v[13] = 0;
    v[14] = unit_tag;
    v[15] = variability_tag;
    v[16..20].copy_from_slice(&enc(data_offset));
    v[20..20 + name.len()].copy_from_slice(name.as_bytes());
    v[data_offset as usize..data_offset as usize + data.len()].copy_from_slice(data);
    v
}

/// A region with one constant int entry and one variable long entry.
fn sample_region() -> Vec<u8> {
    let mut region = prolog_bytes(BIG_ENDIAN_TAG, 2, 0, 32);
    region.extend_from_slice(&record_bytes(
        true,
        36,
        "const.metric",
        0,
        b'I',
        2,
        1,
        32,
        &7i32.to_be_bytes(),
    ));
    region.extend_from_slice(&record_bytes(
        true,
        36,
        "var.test",
        0,
        b'J',
        3,
        3,
        28,
        &42i64.to_be_bytes(),
    ));
    region
}

#[test]
fn decoding_fails_with_magic_number_error() {
    let mut region = sample_region();
    region[0] = 0;
    let r = JvmMonitor::decode(1, &region);
    assert!(r.is_err());
    assert!(matches!(r.err().unwrap(), Error::InvalidMagicNumber));
}

#[test]
fn decoding_fails_with_major_version_error() {
    let mut region = sample_region();
    region[5] = 1;
    let r = JvmMonitor::decode(1, &region);
    assert!(matches!(r.err().unwrap(), Error::UnsupportedMajorVersion));
}

#[test]
fn decoding_fails_with_minor_version_error() {
    let mut region = sample_region();
    region[6] = 9;
    let r = JvmMonitor::decode(1, &region);
    assert!(matches!(r.err().unwrap(), Error::UnsupportedMinorVersion));
}

#[test]
fn decoding_fails_when_region_shorter_than_prolog() {
    let region = vec![0u8; 10];
    let r = JvmMonitor::decode(1, &region);
    assert!(matches!(r.err().unwrap(), Error::WontBeAbleToRead));
}

#[test]
fn decoding_fails_when_record_overruns_region() {
    // The second record claims more bytes than the region holds: the whole
    // decode fails rather than returning a truncated monitor.
    let mut region = sample_region();
    let n = region.len();
    region.truncate(n - 4);
    let r = JvmMonitor::decode(1, &region);
    assert!(matches!(r.err().unwrap(), Error::WontBeAbleToRead));
}

#[test]
fn monitor_decodes_entries_in_on_disk_order() {
    let region = sample_region();
    let monitor = JvmMonitor::decode(4242, &region).unwrap();
    assert_eq!(4242, monitor.pid());

    let entries = monitor.entries();
    assert_eq!(2, entries.len());
    assert_eq!("const.metric", entries[0].name());
    assert_eq!("var.test", entries[1].name());
    assert!(matches!(entries[0].value(), EntryValue::Int(7)));
    assert!(matches!(entries[1].value(), EntryValue::Long(42)));
    assert_eq!(Unit::Bytes, entries[0].unit());
    assert_eq!(Unit::Ticks, entries[1].unit());

    let constants = monitor.constants();
    assert_eq!(1, constants.len());
    assert_eq!("const.metric", constants[0].name());

    let variables = monitor.variables();
    assert_eq!(1, variables.len());
    assert_eq!("var.test", variables[0].name());
    assert_eq!(Variability::Variable, variables[0].variability());
}

#[test]
fn monitor_decodes_a_little_endian_region() {
    let mut region = prolog_bytes(LITTLE_ENDIAN_TAG, 2, 0, 32);
    region.extend_from_slice(&record_bytes(
        false,
        36,
        "const.metric",
        0,
        b'I',
        2,
        1,
        32,
        &123456i32.to_le_bytes(),
    ));
    let monitor = JvmMonitor::decode(7, &region).unwrap();
    let entries = monitor.entries();
    assert_eq!(1, entries.len());
    assert!(matches!(entries[0].value(), EntryValue::Int(123456)));
}

#[test]
fn refresh_rereads_variable_entries_and_keeps_constants() {
    let mut region = sample_region();
    let mut monitor = JvmMonitor::decode(1, &region).unwrap();

    // The publisher overwrites the variable counter's bytes in place.
    region[96..104].copy_from_slice(&99i64.to_be_bytes());
    // And scribbles over the constant's bytes too; the constant must not move.
    region[64..68].copy_from_slice(&1000i32.to_be_bytes());

    monitor.refresh(&region).unwrap();

    let entries = monitor.entries();
    assert!(matches!(entries[0].value(), EntryValue::Int(7)));
    assert!(matches!(entries[1].value(), EntryValue::Long(99)));
}

#[test]
fn refresh_returns_the_updated_variable_entries() {
    let mut region = sample_region();
    let mut monitor = JvmMonitor::decode(1, &region).unwrap();

    region[96..104].copy_from_slice(&7777i64.to_be_bytes());
    let updated = monitor.refresh(&region).unwrap();

    assert_eq!(1, updated.len());
    assert_eq!("var.test", updated[0].name());
    assert!(matches!(updated[0].value(), EntryValue::Long(7777)));
}

#[test]
fn refresh_reflects_the_most_recent_call_only() {
    let mut region = sample_region();
    let mut monitor = JvmMonitor::decode(1, &region).unwrap();

    region[96..104].copy_from_slice(&11i64.to_be_bytes());
    monitor.refresh(&region).unwrap();
    region[96..104].copy_from_slice(&22i64.to_be_bytes());
    monitor.refresh(&region).unwrap();

    assert!(matches!(monitor.entries()[1].value(), EntryValue::Long(22)));
}

#[test]
fn refresh_failure_leaves_every_entry_unchanged() {
    let region = sample_region();
    let mut monitor = JvmMonitor::decode(1, &region).unwrap();

    // A region too short for the variable counter fails the whole refresh.
    let truncated = region[..90].to_vec();
    let r = monitor.refresh(&truncated);
    assert!(matches!(r.err().unwrap(), Error::WontBeAbleToRead));

    let entries = monitor.entries();
    assert!(matches!(entries[0].value(), EntryValue::Int(7)));
    assert!(matches!(entries[1].value(), EntryValue::Long(42)));
}

#[test]
fn only_keeps_entries_matching_the_predicate_unchanged() {
    let region = sample_region();
    let monitor = JvmMonitor::decode(1, &region).unwrap();

    let narrowed = monitor.only(|name: &String| name.as_str().starts_with("var"));

    assert_eq!(1, narrowed.pid());
    let entries = narrowed.entries();
    assert_eq!(1, entries.len());
    assert_eq!("var.test", entries[0].name());
    assert!(matches!(entries[0].value(), EntryValue::Long(42)));
    assert_eq!(Unit::Ticks, entries[0].unit());
}

#[test]
fn only_with_rejecting_predicate_removes_everything() {
    let region = sample_region();
    let monitor = JvmMonitor::decode(1, &region).unwrap();

    let narrowed = monitor.only(|_name: &String| false);

    assert_eq!(0, narrowed.entries().len());
}

#[test]
fn from_path_parses_the_pid_from_the_file_name() {
    let jvm = JavaVirtualMachine::from_path("/tmp/hsperfdata_user/1234").unwrap();
    assert_eq!(1234, jvm.pid());
    assert_eq!("/tmp/hsperfdata_user/1234", jvm.hs_perf_data_path());
}

#[test]
fn from_path_without_separator_parses_the_whole_name() {
    let jvm = JavaVirtualMachine::from_path("4321").unwrap();
    assert_eq!(4321, jvm.pid());
}

#[test]
fn from_path_rejects_an_empty_file_name() {
    let r = JavaVirtualMachine::from_path("/tmp/hsperfdata_user/");
    assert!(matches!(r.err().unwrap(), Error::InvalidPath));
}

#[test]
fn from_path_rejects_a_non_numeric_file_name() {
    let r = JavaVirtualMachine::from_path("/tmp/hsperfdata_user/not-a-pid");
    assert!(matches!(r.err().unwrap(), Error::FailedToParsePid));
}

#[test]
fn from_path_rejects_a_pid_out_of_range() {
    let r = JavaVirtualMachine::from_path("/tmp/hsperfdata_user/99999999999");
    assert!(matches!(r.err().unwrap(), Error::FailedToParsePid));
}
