//! Attributes, listings, open plans and chunks of remote files.
use russh_sftp::protocol::{FileAttributes, OpenFlags};
use ssh_transport::sftp::{
    entry_path, listing, meta_record, open_file, open_read, open_read_at, open_write,
    open_write_at, read_buffer, read_bytes, whole_file_flags, FileAttrs, NamedAttrs,
};

fn attrs(size: Option<u64>, permissions: Option<u32>, mtime: Option<u32>) -> FileAttrs {
    FileAttrs { size, permissions, mtime }
}

#[test]
fn metadata_of_a_regular_file() {
    let meta = meta_record(&attrs(Some(4), Some(0o100644), Some(1_700_000_000)));
    assert_eq!(meta.size, 4);
    assert!(meta.is_file && !meta.is_dir && !meta.is_symlink);
    assert_eq!(meta.mtime_unix, Some(1_700_000_000));
    assert_eq!(meta.permissions, Some(0o100644));
}

#[test]
fn metadata_of_other_kinds() {
    let dir = meta_record(&attrs(None, Some(0o040755), None));
    assert!(dir.is_dir && !dir.is_file && !dir.is_symlink);
    let link = meta_record(&attrs(None, Some(0o120777), None));
    assert!(link.is_symlink && !link.is_dir && !link.is_file);
    for mode in [0o010644, 0o020644, 0o060644, 0o140644, 0o170644, 0o644, 0] {
        let meta = meta_record(&attrs(None, Some(mode), None));
        assert!(!meta.is_dir && !meta.is_file && !meta.is_symlink);
    }
}

#[test]
fn metadata_that_is_left_out() {
    let meta = meta_record(&attrs(None, None, None));
    assert_eq!(meta.size, 0);
    assert!(!meta.is_dir && !meta.is_file && !meta.is_symlink);
    assert_eq!(meta.mtime_unix, None);
    assert_eq!(meta.permissions, None);
    let late = meta_record(&attrs(Some(u64::MAX), None, Some(u32::MAX)));
    assert_eq!(late.size, u64::MAX);
    assert_eq!(late.mtime_unix, Some(4294967295));
}

#[test]
fn kinds_agree_with_the_protocol_on_every_type() {
    for bits in 0..=16u32 {
        let mode = (bits << 12) | 0o751;
        let outside = FileAttributes { permissions: Some(mode), ..FileAttributes::default() };
        let meta = meta_record(&attrs(None, Some(mode), None));
        assert_eq!(meta.is_dir, outside.file_type().is_dir());
        assert_eq!(meta.is_file, outside.file_type().is_file());
        assert_eq!(meta.is_symlink, outside.file_type().is_symlink());
    }
}

#[test]
fn listings_keep_names_and_order() {
    let entries = vec![
        NamedAttrs { name: "sub".to_string(), attrs: attrs(Some(10), Some(0o040700), Some(5)) },
        NamedAttrs { name: "a.txt".to_string(), attrs: attrs(Some(20), Some(0o100600), None) },
    ];
    let here = attrs(Some(1), Some(0o040755), Some(2));
    let parent = attrs(Some(3), Some(0o040711), Some(4));
    let list = listing(Some(here), Some(parent), entries);
    let names: Vec<&str> = list.iter().map(|e| e.file_name.as_str()).collect();
    assert_eq!(names, vec![".", "..", "sub", "a.txt"]);
    assert_eq!(list[0].mtime_unix, Some(2));
    assert_eq!(list[1].permissions, Some(0o040711));
    assert!(list[2].is_dir && list[2].size == 10 && list[2].mtime_unix == Some(5));
    assert!(list[3].is_file && list[3].size == 20 && list[3].mtime_unix.is_none());
    assert!(!list[3].is_symlink && list[3].permissions == Some(0o100600));
}

#[test]
fn a_listing_does_without_what_cannot_be_looked_up() {
    let entry = || {
        vec![NamedAttrs { name: "x".to_string(), attrs: attrs(Some(1), None, None) }]
    };
    let here = attrs(Some(2), Some(0o040755), None);
    let names = |list: Vec<ssh_transport::SshSpikeDirEntry>| {
        list.into_iter().map(|e| e.file_name).collect::<Vec<String>>()
    };
    assert_eq!(names(listing(Some(here), None, entry())), vec![".", "x"]);
    assert_eq!(names(listing(None, Some(here), entry())), vec!["..", "x"]);
    assert_eq!(names(listing(None, None, entry())), vec!["x"]);
    assert!(listing(None, None, Vec::new()).is_empty());
}

#[test]
fn paths_are_joined_by_one_slash() {
    assert_eq!(entry_path("/tmp", "."), "/tmp/.");
    assert_eq!(entry_path("/", ".."), "/..");
    assert_eq!(entry_path("", "."), ".");
    assert_eq!(entry_path("d\u{e9}", "x"), "d\u{e9}/x");
}

#[test]
fn open_flags_are_those_of_the_protocol() {
    assert_eq!(open_read().flags, OpenFlags::READ.bits());
    assert_eq!(
        open_write().flags,
        (OpenFlags::WRITE | OpenFlags::CREATE | OpenFlags::TRUNCATE).bits()
    );
    assert_eq!(
        open_write_at(0, false).flags,
        (OpenFlags::WRITE | OpenFlags::CREATE).bits()
    );
    assert_eq!(whole_file_flags(), open_write().flags);
}

#[test]
fn handles_start_at_their_offset() {
    assert_eq!(open_read().seek, None);
    assert_eq!(open_read_at(0), open_read());
    assert_eq!(open_read_at(40_000).seek, Some(40_000));
    assert_eq!(open_read_at(40_000).flags, open_read().flags);
    assert_eq!(open_write_at(5, false).seek, Some(5));
    assert_eq!(open_write(), open_write_at(0, true));
}

#[test]
fn a_resume_keeps_what_is_there() {
    for truncate in [false, true] {
        let plan = open_write_at(1, truncate);
        assert_eq!(plan.flags & OpenFlags::TRUNCATE.bits(), 0);
        assert_eq!(plan.seek, Some(1));
    }
}

#[test]
fn a_reader_does_not_truncate() {
    assert_eq!(open_file(true, true, 0), open_read());
}

#[test]
fn chunks_are_cut_to_what_was_read() {
    let mut buf = read_buffer(5);
    assert_eq!(buf, vec![0, 0, 0, 0, 0]);
    buf[0] = 7;
    buf[1] = 8;
    assert_eq!(read_bytes(buf.clone(), 2), vec![7, 8]);
    assert_eq!(read_bytes(buf.clone(), 0), Vec::<u8>::new());
    assert_eq!(read_bytes(buf.clone(), 5), buf);
    assert_eq!(read_bytes(buf.clone(), 9), buf);
    assert!(read_buffer(0).is_empty());
}
