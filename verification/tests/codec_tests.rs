use mapant_worker::codec::{
    compress_tree, decompress_tree, entry_path_ok, ArchiveEntry, CodecError,
};
use std::io::Write;

fn entry(path: &str, data: &[u8]) -> ArchiveEntry {
    ArchiveEntry {
        path: path.to_string(),
        data: data.to_vec(),
    }
}

#[test]
fn archive_round_trip() {
    let tree = vec![
        entry("extent.txt", b"601000 6520000 602000 6521000"),
        entry("rasters/dem.tif", &[0u8, 1, 2, 3, 255, 254]),
        entry("pipeline.json", b"{}"),
        entry("shapefiles/vectors/lines.shp", &vec![7u8; 4096]),
    ];
    let bytes = compress_tree(&tree).unwrap();
    let back = decompress_tree(&bytes).unwrap();
    assert_eq!(back.len(), tree.len());
    for (a, b) in tree.iter().zip(back.iter()) {
        assert_eq!(a.path, b.path);
        assert_eq!(a.data, b.data);
    }
}

#[test]
fn archive_round_trip_empty_tree() {
    let tree: Vec<ArchiveEntry> = vec![];
    let bytes = compress_tree(&tree).unwrap();
    let back = decompress_tree(&bytes).unwrap();
    assert!(back.is_empty());
}

#[test]
fn archive_round_trip_long_path() {
    let long = format!("{}file.bin", "directory-with-a-rather-long-name/".repeat(5));
    assert!(long.len() > 100);
    let tree = vec![entry(&long, b"payload")];
    let bytes = compress_tree(&tree).unwrap();
    let back = decompress_tree(&bytes).unwrap();
    assert_eq!(back.len(), 1);
    assert_eq!(back[0].path, long);
    assert_eq!(back[0].data, b"payload");
}

#[test]
fn archive_output_is_not_the_input() {
    let tree = vec![entry("a.txt", &vec![0u8; 10000])];
    let bytes = compress_tree(&tree).unwrap();
    assert_ne!(bytes, vec![0u8; 10000]);
    assert!(bytes.len() < 10000);
}

#[test]
fn compress_rejects_unarchivable_paths() {
    for bad in [
        "",
        "/absolute.txt",
        "trailing/",
        "a//b.txt",
        "a/./b.txt",
        "../escape.txt",
        "a/../b.txt",
        ".",
        "..",
        "dir/..",
    ] {
        let tree = vec![entry(bad, b"x")];
        assert_eq!(compress_tree(&tree), Err(CodecError::Archive), "path {:?}", bad);
    }
}

#[test]
fn entry_path_validity() {
    assert!(entry_path_ok("extent.txt"));
    assert!(entry_path_ok("rasters/dem.tif"));
    assert!(entry_path_ok(".hidden"));
    assert!(entry_path_ok("a/.hidden"));
    assert!(entry_path_ok("..double-dot-name"));
    assert!(!entry_path_ok(""));
    assert!(!entry_path_ok("/a"));
    assert!(!entry_path_ok("a/"));
    assert!(!entry_path_ok("a//b"));
    assert!(!entry_path_ok("./a"));
    assert!(!entry_path_ok("a/."));
    assert!(!entry_path_ok("a/../b"));
    assert!(!entry_path_ok("caf\u{e9}.txt"));
    assert!(!entry_path_ok("tab\tseparated.txt"));
}

#[test]
fn decompress_rejects_garbage() {
    let garbage = vec![1u8, 2, 3, 4, 5];
    assert!(matches!(
        decompress_tree(&garbage),
        Err(CodecError::Compression)
    ));
}

#[test]
fn decompress_rejects_truncated_stream() {
    let tree = vec![entry("a.txt", &vec![9u8; 5000])];
    let mut bytes = compress_tree(&tree).unwrap();
    bytes.truncate(bytes.len() / 2);
    assert!(decompress_tree(&bytes).is_err());
}

#[test]
fn decompress_rejects_compressed_non_archive() {
    let mut enc = xz2::write::XzEncoder::new(Vec::new(), 6);
    enc.write_all(b"these bytes are no archive framing").unwrap();
    let bytes = enc.finish().unwrap();
    assert!(matches!(decompress_tree(&bytes), Err(CodecError::Archive)));
}
