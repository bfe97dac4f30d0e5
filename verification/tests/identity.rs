use file_identity::decimal::u64_to_decimal;
use file_identity::identity::{compose_file_index, identity_of, resolve, FileIdentity, RawFileInfo};

#[test]
fn decimal_single_digits() {
    assert_eq!(u64_to_decimal(0), "0");
    assert_eq!(u64_to_decimal(7), "7");
    assert_eq!(u64_to_decimal(9), "9");
}

#[test]
fn decimal_multi_digits() {
    assert_eq!(u64_to_decimal(10), "10");
    assert_eq!(u64_to_decimal(100), "100");
    assert_eq!(u64_to_decimal(1234567), "1234567");
    assert_eq!(u64_to_decimal(u64::MAX), "18446744073709551615");
}

#[test]
fn compose_file_index_joins_halves() {
    assert_eq!(compose_file_index(0, 0), 0);
    assert_eq!(compose_file_index(0, 5), 5);
    assert_eq!(compose_file_index(1, 2), 4294967298);
    assert_eq!(compose_file_index(0xDEAD, 0xBEEF), (0xDEADu64 << 32) | 0xBEEF);
    assert_eq!(compose_file_index(u32::MAX, u32::MAX), u64::MAX);
}

#[test]
fn posix_identity_format() {
    let info = RawFileInfo::Posix { device: 2049, inode: 1234567 };
    assert_eq!(identity_of(Some(info)), Some(String::from("2049:1234567")));
}

#[test]
fn windows_identity_format() {
    let info = RawFileInfo::Windows { volume_serial: 1234567890, index_high: 1, index_low: 2 };
    assert_eq!(identity_of(Some(info)), Some(String::from("1234567890:4294967298")));
}

#[test]
fn zero_numbers_still_resolve() {
    let info = RawFileInfo::Posix { device: 0, inode: 0 };
    assert_eq!(identity_of(Some(info)), Some(String::from("0:0")));
}

#[test]
fn encode_matches_identity_of() {
    let id = FileIdentity { primary: 42, secondary: 99 };
    assert_eq!(id.encode(), "42:99");
    let resolved = resolve(Some(RawFileInfo::Posix { device: 42, inode: 99 }));
    assert_eq!(resolved, Some(id));
}

#[test]
fn failed_query_gives_no_identity() {
    // A nonexistent path, a permission error, and an unsupported platform
    // all arrive as None and must yield no identity.
    assert_eq!(identity_of(None), None);
    assert_eq!(resolve(None), None);
}

#[test]
fn hard_links_resolve_equal() {
    // Two paths that are hard links to one file object report the same
    // device and inode; both must resolve, to the same identity.
    let via_first_path = RawFileInfo::Posix { device: 2049, inode: 777 };
    let via_second_path = RawFileInfo::Posix { device: 2049, inode: 777 };
    let a = identity_of(Some(via_first_path));
    let b = identity_of(Some(via_second_path));
    assert!(a.is_some());
    assert!(b.is_some());
    assert_eq!(a, b);
}

#[test]
fn distinct_files_resolve_distinct() {
    let base = RawFileInfo::Posix { device: 2049, inode: 1000 };
    let other_inode = RawFileInfo::Posix { device: 2049, inode: 1001 };
    let other_device = RawFileInfo::Posix { device: 2050, inode: 1000 };
    assert_ne!(identity_of(Some(base)), identity_of(Some(other_inode)));
    assert_ne!(identity_of(Some(base)), identity_of(Some(other_device)));
    assert_ne!(identity_of(Some(other_inode)), identity_of(Some(other_device)));
}

#[test]
fn no_collision_across_digit_boundaries() {
    // The ':' separator keeps e.g. (1, 23) apart from (12, 3).
    let a = identity_of(Some(RawFileInfo::Posix { device: 1, inode: 23 }));
    let b = identity_of(Some(RawFileInfo::Posix { device: 12, inode: 3 }));
    assert_ne!(a, b);
}

#[test]
fn resolve_is_idempotent() {
    let info = RawFileInfo::Windows { volume_serial: 7, index_high: 0, index_low: 512 };
    let first = identity_of(Some(info));
    let second = identity_of(Some(info));
    assert_eq!(first, second);
}

#[test]
fn directory_metadata_resolves() {
    // A directory's metadata query reports device and inode like any file's;
    // it must resolve to a present identity.
    let dir_info = RawFileInfo::Posix { device: 2049, inode: 2 };
    assert!(identity_of(Some(dir_info)).is_some());
}

#[test]
fn temp_file_lifecycle() {
    // A freshly created file resolves; resolving again untouched gives the
    // same identity; once it is deleted the query fails and nothing resolves.
    let created = RawFileInfo::Posix { device: 2049, inode: 424242 };
    let first = identity_of(Some(created));
    assert!(first.is_some());
    let second = identity_of(Some(created));
    assert_eq!(first, second);
    let after_delete = identity_of(None);
    assert_eq!(after_delete, None);
}
