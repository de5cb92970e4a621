use cargo_contract::template::{join_path_exec, Contents, MemberPlan, ScaffoldError, Template};
use std::io::{Cursor, Write};
use zip::write::FileOptions;
use zip::ZipWriter;

enum Entry<'a> {
    Dir(&'a str),
    File(&'a str, &'a [u8]),
    FileWithMode(&'a str, &'a [u8], u32),
}

fn archive(entries: &[Entry]) -> Vec<u8> {
    let mut w = ZipWriter::new(Cursor::new(Vec::new()));
    for e in entries {
        match e {
            Entry::Dir(name) => w.add_directory(*name, FileOptions::default()).unwrap(),
            Entry::File(name, data) => {
                w.start_file(*name, FileOptions::default()).unwrap();
                w.write_all(data).unwrap();
            }
            Entry::FileWithMode(name, data, mode) => {
                w.start_file(*name, FileOptions::default().unix_permissions(*mode)).unwrap();
                w.write_all(data).unwrap();
            }
        }
    }
    w.finish().unwrap().into_inner()
}

fn plans(bytes: &[u8], root: &str, project: Option<&str>) -> Vec<MemberPlan> {
    let mut t = Template::from_bytes(bytes).unwrap();
    (0..t.len()).map(|i| t.plan_member(root, i, project).unwrap()).collect()
}

#[test]
fn directory_markers_give_only_directories() {
    let bytes = archive(&[Entry::Dir("proj/"), Entry::Dir("proj/src/"), Entry::Dir("proj/src/lib/")]);
    let ps = plans(&bytes, "/out", Some("demo"));
    let paths: Vec<String> = ps
        .iter()
        .map(|p| match p {
            MemberPlan::Directory { path, .. } => path.clone(),
            MemberPlan::File { .. } => panic!("a file was planned"),
        })
        .collect();
    assert_eq!(paths, vec!["/out/proj/", "/out/proj/src/", "/out/proj/src/lib/"]);
}

#[test]
fn binary_member_is_copied_verbatim_without_a_name() {
    let data: Vec<u8> = vec![0xff, 0x00, b'{', b'{', b'n', b'a', b'm', b'e', b'}', b'}', 0xfe];
    let bytes = archive(&[Entry::File("bin/blob", &data)]);
    match &plans(&bytes, "out/", None)[0] {
        MemberPlan::File { member, path, contents: Contents::Bytes(b), .. } => {
            assert_eq!(member, "bin/blob");
            assert_eq!(path, "out/bin/blob");
            assert_eq!(b, &data);
        }
        other => panic!("unexpected plan {:?}", other),
    }
}

#[test]
fn text_member_gets_the_project_name() {
    let bytes = archive(&[Entry::File("lib.rs", b"pub const NAME: &str = \"{{name}}\";")]);
    match &plans(&bytes, "dest", Some("demo"))[0] {
        MemberPlan::File { path, contents: Contents::Bytes(b), .. } => {
            assert_eq!(path, "dest/lib.rs");
            assert_eq!(b, b"pub const NAME: &str = \"demo\";");
        }
        other => panic!("unexpected plan {:?}", other),
    }
}

#[test]
fn non_utf8_member_with_a_name_is_refused() {
    let bytes = archive(&[Entry::File("blob", &[0xff, 0xfe, 0x00])]);
    match &plans(&bytes, "dest", Some("demo"))[0] {
        MemberPlan::File { contents: Contents::NotUtf8, .. } => {}
        other => panic!("unexpected plan {:?}", other),
    }
}

#[test]
fn permission_bits_are_carried() {
    let bytes = archive(&[Entry::FileWithMode("run.sh", b"#!/bin/sh\n", 0o755)]);
    match &plans(&bytes, "dest", None)[0] {
        MemberPlan::File { mode, .. } => assert_eq!(mode.map(|m| m & 0o777), Some(0o755)),
        other => panic!("unexpected plan {:?}", other),
    }
}

#[test]
fn members_are_read_as_stored() {
    let bytes = archive(&[Entry::Dir("d/"), Entry::File("d/f.txt", b"hello")]);
    let mut t = Template::from_bytes(&bytes).unwrap();
    assert_eq!(t.len(), 2);
    let m = t.member(1).unwrap();
    assert_eq!(m.name, "d/f.txt");
    assert_eq!(m.content, b"hello".to_vec());
}

#[test]
fn corrupt_buffer_is_refused() {
    assert!(matches!(Template::from_bytes(b"not a zip archive"), Err(ScaffoldError::ArchiveCorrupt)));
}

#[test]
fn existing_file_is_reported_by_member_name() {
    match ScaffoldError::from_open_failure("src/lib.rs", true, "exists".to_string()) {
        ScaffoldError::FileAlreadyExists(name) => assert_eq!(name, "src/lib.rs"),
        other => panic!("unexpected error {:?}", other),
    }
    match ScaffoldError::from_open_failure("src/lib.rs", false, "denied".to_string()) {
        ScaffoldError::Io(detail) => assert_eq!(detail, "denied"),
        other => panic!("unexpected error {:?}", other),
    }
}

#[test]
fn absolute_member_name_replaces_root() {
    assert_eq!(join_path_exec("/out", "/etc/x"), "/etc/x");
    assert_eq!(join_path_exec("", "a/b"), "a/b");
    assert_eq!(join_path_exec("/out/", "a"), "/out/a");
    assert_eq!(join_path_exec("/out", "a"), "/out/a");
}

#[test]
fn member_index_past_the_end_is_refused() {
    let bytes = archive(&[Entry::File("a.txt", b"a")]);
    let mut t = Template::from_bytes(&bytes).unwrap();
    assert!(matches!(t.member(1), Err(ScaffoldError::IndexOutOfRange(1))));
    assert!(matches!(t.plan_member("out", 5, None), Err(ScaffoldError::IndexOutOfRange(5))));
}

#[test]
fn names_reaching_outside_the_destination_are_refused() {
    let bytes = archive(&[
        Entry::File("../evil.txt", b"x"),
        Entry::File("/etc/evil", b"x"),
        Entry::File("a/../../b", b"x"),
        Entry::File("a/..b/c..", b"x"),
    ]);
    let mut t = Template::from_bytes(&bytes).unwrap();
    for i in 0..3 {
        match t.plan_member("out", i, None) {
            Err(ScaffoldError::UnsafeMemberName(_)) => {}
            other => panic!("member {} was not refused: {:?}", i, other),
        }
    }
    assert!(t.plan_member("out", 3, None).is_ok());
}

/// The CRC-32 of the bytes `data`.
const DATA_CRC: u32 = 0xadf3f363;

fn le16(out: &mut Vec<u8>, v: u16) {
    out.extend_from_slice(&v.to_le_bytes());
}

fn le32(out: &mut Vec<u8>, v: u32) {
    out.extend_from_slice(&v.to_le_bytes());
}

/// A one-member stored archive, written field by field, whose member carries
/// the given extra field in both headers and no encryption flag.
fn archive_with_extra(name: &[u8], extra: &[u8], data: &[u8], crc: u32) -> Vec<u8> {
    let mut out = Vec::new();
    le32(&mut out, 0x04034b50);
    for v in [20u16, 0, 0, 0, 0] {
        le16(&mut out, v);
    }
    le32(&mut out, crc);
    le32(&mut out, data.len() as u32);
    le32(&mut out, data.len() as u32);
    le16(&mut out, name.len() as u16);
    le16(&mut out, extra.len() as u16);
    out.extend_from_slice(name);
    out.extend_from_slice(extra);
    out.extend_from_slice(data);
    let central_start = out.len() as u32;
    le32(&mut out, 0x02014b50);
    for v in [0x031eu16, 20, 0, 0, 0, 0] {
        le16(&mut out, v);
    }
    le32(&mut out, crc);
    le32(&mut out, data.len() as u32);
    le32(&mut out, data.len() as u32);
    le16(&mut out, name.len() as u16);
    le16(&mut out, extra.len() as u16);
    for v in [0u16, 0, 0] {
        le16(&mut out, v);
    }
    le32(&mut out, 0o100644 << 16);
    le32(&mut out, 0);
    out.extend_from_slice(name);
    out.extend_from_slice(extra);
    let central_size = out.len() as u32 - central_start;
    le32(&mut out, 0x06054b50);
    for v in [0u16, 0, 1, 1] {
        le16(&mut out, v);
    }
    le32(&mut out, central_size);
    le32(&mut out, central_start);
    le16(&mut out, 0);
    out
}

#[test]
fn member_with_aes_data_but_no_encryption_is_corrupt() {
    // AES extra field: id 0x9901, 7 bytes, AE-1, vendor "AE", AES-128, stored
    let aes = [0x01, 0x99, 0x07, 0x00, 0x01, 0x00, 0x41, 0x45, 0x01, 0x00, 0x00];
    let bytes = archive_with_extra(b"secret.txt", &aes, b"data", DATA_CRC);
    let mut t = Template::from_bytes(&bytes).unwrap();
    assert_eq!(t.len(), 1);
    assert!(matches!(t.member(0), Err(ScaffoldError::ArchiveCorrupt)));
    assert!(matches!(t.plan_member("out", 0, None), Err(ScaffoldError::ArchiveCorrupt)));
}

#[test]
fn hand_written_archive_without_extra_data_reads() {
    let bytes = archive_with_extra(b"plain.txt", &[], b"data", DATA_CRC);
    let mut t = Template::from_bytes(&bytes).unwrap();
    let m = t.member(0).unwrap();
    assert_eq!(m.name, "plain.txt");
    assert_eq!(m.content, b"data".to_vec());
}
