use abbrws::envelope::{DecodeError, Envelope, ErrorStatus};
use abbrws::file_service::{bool_through_str, count_through_str, parse_directory_listing, RawDirEntry, WireCount, WireFlag};
use abbrws::DirEntry;

fn blank(tag: &str, title: &str) -> RawDirEntry {
    RawDirEntry {
        entry_type: Some(tag.to_string()),
        title: Some(title.to_string()),
        device_type: None,
        free_space: None,
        total_space: None,
        enabled: None,
        read_only: None,
        cdate: None,
        mdate: None,
        size: None,
    }
}

fn file(size: WireCount, read_only: WireFlag) -> RawDirEntry {
    let mut raw = blank("fs-file", "program.mod");
    raw.cdate = Some("2020-01-01 10:00:00".to_string());
    raw.mdate = Some("2020-01-02 11:00:00".to_string());
    raw.size = Some(size);
    raw.read_only = Some(read_only);
    raw
}

fn device() -> RawDirEntry {
    let mut raw = blank("fs-device", "HOME:");
    raw.device_type = Some("fs_type_disk".to_string());
    raw.free_space = Some(WireCount::Text("1000".to_string()));
    raw.total_space = Some(WireCount::Unsigned(5000));
    raw.enabled = Some(WireFlag::Text("true".to_string()));
    raw.read_only = Some(WireFlag::Native(false));
    raw
}

#[test]
fn listing_of_each_kind() {
    let envelope = Envelope {
        state: Some(vec![
            blank("fs-dir", "BACKUP"),
            file(WireCount::Text("123".to_string()), WireFlag::Text("false".to_string())),
            device(),
        ]),
        status: None,
    };
    let entries = parse_directory_listing(envelope).unwrap().unwrap();
    assert_eq!(entries.len(), 3);
    match &entries[0] {
        DirEntry::Directory(d) => assert_eq!(d.name, "BACKUP"),
        other => panic!("unexpected {:?}", other),
    }
    match &entries[1] {
        DirEntry::File(f) => {
            assert_eq!(f.name, "program.mod");
            assert_eq!(f.size, 123);
            assert!(!f.read_only);
            assert_eq!(f.cdate, "2020-01-01 10:00:00");
        },
        other => panic!("unexpected {:?}", other),
    }
    match &entries[2] {
        DirEntry::Device(d) => {
            assert_eq!(d.free_space, 1000);
            assert_eq!(d.total_space, 5000);
            assert!(d.enabled);
            assert!(!d.read_only);
            assert_eq!(d.device_type, "fs_type_disk");
        },
        other => panic!("unexpected {:?}", other),
    }
}

#[test]
fn counts_through_text_or_number() {
    assert_eq!(count_through_str(&WireCount::Unsigned(7)).unwrap(), 7);
    assert_eq!(count_through_str(&WireCount::Signed(8)).unwrap(), 8);
    assert!(count_through_str(&WireCount::Signed(-1)).is_err());
    assert_eq!(count_through_str(&WireCount::Text("+9".to_string())).unwrap(), 9);
    assert!(count_through_str(&WireCount::Text("9 ".to_string())).is_err());
    assert!(count_through_str(&WireCount::Text("".to_string())).is_err());
}

#[test]
fn flags_through_text_or_bool() {
    assert!(bool_through_str(&WireFlag::Native(true)).unwrap());
    assert!(!bool_through_str(&WireFlag::Text("false".to_string())).unwrap());
    assert!(bool_through_str(&WireFlag::Text("True".to_string())).is_err());
    assert!(bool_through_str(&WireFlag::Text("1".to_string())).is_err());
}

#[test]
fn unknown_and_missing_tags() {
    let envelope = Envelope { state: Some(vec![blank("fs-link", "x")]), status: None };
    match parse_directory_listing(envelope) {
        Err(DecodeError::UnknownVariant(tag)) => assert_eq!(tag, "fs-link"),
        other => panic!("unexpected {:?}", other.is_ok()),
    }
    let mut raw = blank("fs-dir", "x");
    raw.entry_type = None;
    assert!(matches!(DirEntry::from_raw(&raw), Err(DecodeError::MissingField("_type"))));
}

#[test]
fn missing_file_field() {
    let mut raw = file(WireCount::Unsigned(1), WireFlag::Native(true));
    raw.mdate = None;
    assert!(matches!(DirEntry::from_raw(&raw), Err(DecodeError::MissingField(_))));
    let raw = file(WireCount::Text("big".to_string()), WireFlag::Native(true));
    assert!(matches!(DirEntry::from_raw(&raw), Err(DecodeError::InvalidValue(_))));
}

#[test]
fn listing_error_status() {
    let envelope: Envelope<Vec<RawDirEntry>> =
        Envelope { state: None, status: Some(ErrorStatus::from_wire(-1, "no such directory".to_string())) };
    assert!(matches!(parse_directory_listing(envelope), Ok(Err(ErrorStatus { code: 0xFFFF_FFFF, .. }))));
}
