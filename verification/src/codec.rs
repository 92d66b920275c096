//! Archive codec: a directory tree, modelled as a list of relative file
//! paths with their contents, serialized to one compressed archive and
//! back. The framing is done by the `tar` crate and the compression by
//! `xz2`; both are trusted only for the round-trip facts stated on the
//! wrappers below, and everything around them is verified.
//!
//! The codec is deliberately not streaming: it serializes a whole
//! in-memory tree at once, trading one-pass streaming for a value-level
//! boundary whose round trip can be stated and proved. Memory use is
//! therefore proportional to the tree's size, and callers that walk a
//! directory read every file into memory before encoding; very large
//! trees should be archived in parts.

use vstd::prelude::*;
use vstd::string::*;

verus! {

/// Compression preset handed to the encoder.
pub const XZ_COMPRESSION_LEVEL: u32 = 6;

/// Why encoding or decoding an archive failed.
#[derive(Clone, Copy, Debug, PartialEq, Eq, Structural)]
pub enum CodecError {
    /// A path unfit for archiving, or framing that did not parse.
    Archive,
    /// The compressed stream could not be produced or read back.
    Compression,
}

/// One file of a directory tree: its relative path and its bytes.
pub struct ArchiveEntry {
    pub path: String,
    pub data: Vec<u8>,
}

/// Model of an archive entry.
#[verifier::ext_equal]
pub ghost struct ArchiveEntryView {
    pub path: Seq<char>,
    pub data: Seq<u8>,
}

impl View for ArchiveEntry {
    type V = ArchiveEntryView;

    open spec fn view(&self) -> ArchiveEntryView {
        ArchiveEntryView { path: self.path@, data: self.data@ }
    }
}

/// The models of a list of entries.
pub open spec fn entries_view(es: Seq<ArchiveEntry>) -> Seq<ArchiveEntryView> {
    es.map_values(|e: ArchiveEntry| e@)
}

/// Whether a path component starts at position `i`.
pub open spec fn component_start(p: Seq<char>, i: int) -> bool {
    0 <= i < p.len() && (i == 0 || p[i - 1] == '/')
}

/// Whether a path component ends just before position `i`.
pub open spec fn component_end(p: Seq<char>, i: int) -> bool {
    i == p.len() || (0 <= i < p.len() && p[i] == '/')
}

/// A relative path that archives byte-for-byte: printable ASCII, not
/// absolute, no trailing slash, and no empty, `.` or `..` component.
pub open spec fn valid_entry_path(p: Seq<char>) -> bool {
    &&& p.len() > 0
    &&& forall|i: int| 0 <= i < p.len() ==> 32 <= (#[trigger] p[i]) as u32 <= 126
    &&& p[0] != '/'
    &&& p[p.len() - 1] != '/'
    &&& forall|i: int| 0 <= i < p.len() - 1 ==> !(#[trigger] p[i] == '/' && p[i + 1] == '/')
    &&& forall|i: int|
        !(#[trigger] component_start(p, i) && p[i] == '.' && component_end(p, i + 1))
    &&& forall|i: int|
        !(#[trigger] component_start(p, i) && p[i] == '.' && i + 1 < p.len() && p[i + 1] == '.'
            && component_end(p, i + 2))
}

/// Whether every entry of a tree has a path fit for archiving.
pub open spec fn all_paths_valid(es: Seq<ArchiveEntryView>) -> bool {
    forall|i: int| 0 <= i < es.len() ==> valid_entry_path((#[trigger] es[i]).path)
}

/// Checks `valid_entry_path` on a real path.
pub fn entry_path_ok(p: &str) -> (r: bool)
    ensures
        r == valid_entry_path(p@),
{
    let n = p.unicode_len();
    if n == 0 {
        return false;
    }
    if p.get_char(0) == '/' {
        return false;
    }
    if p.get_char(n - 1) == '/' {
        return false;
    }
    let mut i: usize = 0;
    while i < n
        invariant
            0 < n == p@.len(),
            i <= n,
            p@[0] != '/',
            p@[n - 1] != '/',
            forall|j: int| 0 <= j < i ==> 32 <= (#[trigger] p@[j]) as u32 <= 126,
            forall|j: int| 0 <= j < i && j < n - 1 ==> !(#[trigger] p@[j] == '/' && p@[j + 1] == '/'),
            forall|j: int|
                j < i ==> !(#[trigger] component_start(p@, j) && p@[j] == '.' && component_end(
                    p@,
                    j + 1,
                )),
            forall|j: int|
                j < i ==> !(#[trigger] component_start(p@, j) && p@[j] == '.' && j + 1 < p@.len()
                    && p@[j + 1] == '.' && component_end(p@, j + 2)),
        decreases n - i,
    {
        let c = p.get_char(i);
        let u = c as u32;
        if !(32 <= u && u <= 126) {
            return false;
        }
        if c == '/' && i + 1 < n && p.get_char(i + 1) == '/' {
            return false;
        }
        let at_start = i == 0 || p.get_char(i - 1) == '/';
        if at_start && c == '.' {
            if i + 1 == n || p.get_char(i + 1) == '/' {
                proof {
                    assert(component_start(p@, i as int));
                    assert(component_end(p@, i + 1));
                }
                return false;
            }
            if p.get_char(i + 1) == '.' && (i + 2 == n || p.get_char(i + 2) == '/') {
                proof {
                    assert(component_start(p@, i as int));
                    assert(component_end(p@, i + 2));
                }
                return false;
            }
        }
        proof {
            assert(!(component_start(p@, i as int) && p@[i as int] == '.' && component_end(
                p@,
                i + 1,
            )));
            assert(!(component_start(p@, i as int) && p@[i as int] == '.' && i + 1 < p@.len()
                && p@[i + 1] == '.' && component_end(p@, i + 2)));
        }
        i = i + 1;
    }
    true
}

/// The I/O error type the `tar` and `xz2` calls report; carried opaquely.
#[verifier::external_type_specification]
#[verifier::external_body]
pub struct ExIoError(std::io::Error);

/// What the `tar` reader yields for a byte stream: the entries in order,
/// or nothing when the stream is not a well-formed archive.
pub uninterp spec fn tar_entries_of(b: Seq<u8>) -> Option<Seq<ArchiveEntryView>>;

/// What the `xz` decoder yields for a byte stream: the uncompressed
/// bytes, or nothing when the stream is truncated or corrupt.
pub uninterp spec fn xz_plain_of(b: Seq<u8>) -> Option<Seq<u8>>;

/// Relies on tar::Builder::append_data and tar::Builder::into_inner:
/// appending each entry as a regular file, with its exact path and bytes,
/// to an in-memory archive that the reader yields back entry for entry.
/// Writing to a Vec cannot fail and every admitted path is accepted.
#[verifier::external_body]
fn tar_pack(entries: &Vec<ArchiveEntry>) -> (r: Result<Vec<u8>, std::io::Error>)
    requires
        all_paths_valid(entries_view(entries@)),
    ensures
        r is Ok,
        r is Ok ==> tar_entries_of(r.unwrap()@) == Some(entries_view(entries@)),
{
    let mut b = tar::Builder::new(Vec::new());
    for e in entries.iter() {
        let mut h = tar::Header::new_gnu();
        h.set_size(e.data.len() as u64);
        h.set_mode(0o644);
        b.append_data(&mut h, &e.path, e.data.as_slice())?;
    }
    b.into_inner()
}

/// Relies on tar::Archive::entries: reading back, in order, each entry's
/// path and bytes from an in-memory archive, and failing on bytes that
/// are not a well-formed archive.
#[verifier::external_body]
fn tar_unpack(bytes: &Vec<u8>) -> (r: Result<Vec<ArchiveEntry>, std::io::Error>)
    ensures
        match tar_entries_of(bytes@) {
            Some(es) => r is Ok && entries_view(r.unwrap()@) == es,
            None => r is Err,
        },
{
    let mut ar = tar::Archive::new(bytes.as_slice());
    let mut out: Vec<ArchiveEntry> = Vec::new();
    for ent in ar.entries()? {
        let mut e = ent?;
        let path = e.path()?.to_string_lossy().into_owned();
        let mut data: Vec<u8> = Vec::new();
        std::io::Read::read_to_end(&mut e, &mut data)?;
        out.push(ArchiveEntry { path, data });
    }
    Ok(out)
}

/// Relies on xz2::write::XzEncoder at the fixed valid preset: encoding
/// into an in-memory Vec succeeds (the encoder reports only memory,
/// option or data-limit errors, none of which arises here), and its
/// output decodes back to exactly the bytes written.
#[verifier::external_body]
fn xz_compress(data: &Vec<u8>) -> (r: Result<Vec<u8>, std::io::Error>)
    ensures
        r is Ok,
        r is Ok ==> xz_plain_of(r.unwrap()@) == Some(data@),
{
    let mut enc = xz2::write::XzEncoder::new(Vec::new(), XZ_COMPRESSION_LEVEL);
    std::io::Write::write_all(&mut enc, data.as_slice())?;
    enc.finish()
}

/// Relies on xz2::write::XzDecoder: yields the uncompressed bytes of a
/// complete stream and fails on a truncated or corrupt one.
#[verifier::external_body]
fn xz_decompress(data: &Vec<u8>) -> (r: Result<Vec<u8>, std::io::Error>)
    ensures
        match xz_plain_of(data@) {
            Some(p) => r is Ok && r.unwrap()@ == p,
            None => r is Err,
        },
{
    let mut dec = xz2::write::XzDecoder::new(Vec::new());
    std::io::Write::write_all(&mut dec, data.as_slice())?;
    dec.finish()
}

/// What reading an archive back yields: decompress, then unframe.
pub open spec fn archive_decode(b: Seq<u8>) -> Option<Seq<ArchiveEntryView>> {
    match xz_plain_of(b) {
        Some(p) => tar_entries_of(p),
        None => None,
    }
}

/// Serializes a directory tree into one compressed archive. Succeeds
/// exactly when every path is fit for archiving, and the archive
/// round-trips: whenever this returns bytes, `decompress_tree` on those
/// bytes yields back exactly the given tree, path for path and byte for
/// byte.
pub fn compress_tree(entries: &Vec<ArchiveEntry>) -> (r: Result<Vec<u8>, CodecError>)
    ensures
        r is Ok <==> all_paths_valid(entries_view(entries@)),
        r == Err::<Vec<u8>, CodecError>(CodecError::Archive) <==> !all_paths_valid(
            entries_view(entries@),
        ),
        r is Ok ==> archive_decode(r.unwrap()@) == Some(entries_view(entries@)),
{
    let n = entries.len();
    let mut i: usize = 0;
    while i < n
        invariant
            n == entries@.len(),
            i <= n,
            forall|j: int| 0 <= j < i ==> valid_entry_path((#[trigger] entries@[j])@.path),
        decreases n - i,
    {
        if !entry_path_ok(entries[i].path.as_str()) {
            assert(!valid_entry_path(entries_view(entries@)[i as int].path));
            return Err(CodecError::Archive);
        }
        i = i + 1;
    }
    assert forall|j: int| 0 <= j < entries_view(entries@).len() implies valid_entry_path(
        (#[trigger] entries_view(entries@)[j]).path,
    ) by {
        assert(valid_entry_path(entries@[j]@.path));
    }
    let framed = match tar_pack(entries) {
        Ok(b) => b,
        Err(_) => {
            proof {
                assert(false);
            }
            return Err(CodecError::Compression);
        },
    };
    match xz_compress(&framed) {
        Ok(z) => Ok(z),
        Err(_) => {
            proof {
                assert(false);
            }
            Err(CodecError::Compression)
        },
    }
}

/// Reads a compressed archive back into the directory tree it encodes:
/// the inverse of `compress_tree`. Fails with `Compression` exactly when
/// the stream does not decompress, and with `Archive` exactly when the
/// decompressed framing does not parse.
pub fn decompress_tree(bytes: &Vec<u8>) -> (r: Result<Vec<ArchiveEntry>, CodecError>)
    ensures
        match archive_decode(bytes@) {
            Some(es) => r is Ok && entries_view(r.unwrap()@) == es,
            None => r is Err,
        },
        r == Err::<Vec<ArchiveEntry>, CodecError>(CodecError::Compression) <==> xz_plain_of(bytes@)
            is None,
        r == Err::<Vec<ArchiveEntry>, CodecError>(CodecError::Archive) <==> (xz_plain_of(bytes@)
            is Some && tar_entries_of(xz_plain_of(bytes@).unwrap()) is None),
{
    let plain = match xz_decompress(bytes) {
        Ok(p) => p,
        Err(_) => {
            return Err(CodecError::Compression);
        },
    };
    match tar_unpack(&plain) {
        Ok(es) => Ok(es),
        Err(_) => Err(CodecError::Archive),
    }
}

} // verus!
