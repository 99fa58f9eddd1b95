use intershare_sdk::bundler::{pack, unpack, unzip_file, FsNode};
use intershare_sdk::codec::{enc_bool, enc_bytes, enc_string, enc_u64};
use intershare_sdk::errors::ArchiveError;

fn file(name: &str, data: &[u8]) -> FsNode {
    FsNode::File { name: name.to_string(), data: data.to_vec() }
}

fn dir(name: &str, children: Vec<FsNode>) -> FsNode {
    FsNode::Dir { name: name.to_string(), children }
}

#[test]
fn pack_unpack_round_trip_files_and_dirs() {
    let inputs = vec![
        file("a.txt", b"alpha"),
        dir(
            "docs",
            vec![file("b.txt", b"beta"), dir("inner", vec![file("c.bin", &[0u8, 255u8, 7u8])])],
        ),
    ];
    let archive = pack(&inputs);
    let out = unpack(&archive, &"/tmp/root".to_string()).expect("round trip must unpack");
    let summary: Vec<(String, bool, Vec<u8>)> =
        out.iter().map(|e| (e.path.clone(), e.is_dir, e.data.clone())).collect();
    assert_eq!(
        summary,
        vec![
            ("/tmp/root/a.txt".to_string(), false, b"alpha".to_vec()),
            ("/tmp/root/docs".to_string(), true, vec![]),
            ("/tmp/root/docs/b.txt".to_string(), false, b"beta".to_vec()),
            ("/tmp/root/docs/inner".to_string(), true, vec![]),
            ("/tmp/root/docs/inner/c.bin".to_string(), false, vec![0u8, 255u8, 7u8]),
        ]
    );
}

#[test]
fn pack_walks_both_sibling_directories() {
    // Two sibling directories, one file each: unpacking must yield both
    // files, not only the first directory's.
    let inputs = vec![
        dir("left", vec![file("one.txt", b"1")]),
        dir("right", vec![file("two.txt", b"2")]),
    ];
    let archive = pack(&inputs);
    let paths = unzip_file(&archive, &"root".to_string()).expect("both directories must unpack");
    assert_eq!(
        paths,
        vec![
            "root/left".to_string(),
            "root/left/one.txt".to_string(),
            "root/right".to_string(),
            "root/right/two.txt".to_string(),
        ]
    );
}

#[test]
fn pack_walks_every_nested_level() {
    let inputs = vec![dir(
        "a",
        vec![dir("b", vec![file("deep.txt", b"x")]), file("shallow.txt", b"y")],
    )];
    let archive = pack(&inputs);
    let paths = unzip_file(&archive, &"r".to_string()).expect("nested tree must unpack");
    assert_eq!(
        paths,
        vec![
            "r/a".to_string(),
            "r/a/b".to_string(),
            "r/a/b/deep.txt".to_string(),
            "r/a/shallow.txt".to_string(),
        ]
    );
}

#[test]
fn unpack_refuses_escaping_entry() {
    // A hand-built archive whose single entry climbs out of the root.
    let mut archive: Vec<u8> = Vec::new();
    enc_u64(&mut archive, 1); // one entry
    enc_u64(&mut archive, 2); // two path segments
    enc_string(&mut archive, &"..".to_string());
    enc_string(&mut archive, &"evil.txt".to_string());
    enc_bool(&mut archive, false);
    enc_bytes(&mut archive, &b"payload".to_vec());
    let r = unpack(&archive, &"root".to_string());
    assert!(matches!(r, Err(ArchiveError::UnsafeEntryPath)));
}

#[test]
fn unpack_refuses_malformed_bytes() {
    let garbage = vec![9u8, 9u8, 9u8];
    let r = unzip_file(&garbage, &"root".to_string());
    assert!(matches!(r, Err(ArchiveError::MalformedArchive)));
    // A truncated but well-started archive is refused too.
    let mut archive: Vec<u8> = Vec::new();
    enc_u64(&mut archive, 2); // announces two entries, carries none
    let r2 = unpack(&archive, &"root".to_string());
    assert!(matches!(r2, Err(ArchiveError::MalformedArchive)));
}

#[test]
fn archive_entry_fields_survive_packing() {
    let inputs = vec![file("data.bin", &[1, 2, 3, 4, 5])];
    let archive = pack(&inputs);
    let out = unpack(&archive, &"base".to_string()).unwrap();
    assert_eq!(out.len(), 1);
    let x = &out[0];
    assert_eq!(x.path, "base/data.bin");
    assert!(!x.is_dir);
    assert_eq!(x.data, vec![1, 2, 3, 4, 5]);
}
