use vstd::prelude::*;
use vstd::string::StrSliceExecFns;
use vstd::utf8::is_ascii_chars;

use crate::errors::BottleError;
use crate::strutil::split_and_vectorize;
use crate::strutil::split_spec;
use crate::strutil::str_eq;

verus! {

/// The tar type-flag byte of a regular file entry (ASCII `0`).
pub const REGULAR_FILE: u8 = 48;

/// The tar type-flag byte of a directory entry (ASCII `5`).
pub const DIRECTORY: u8 = 53;

/// One entry of a directory tree flattened for archiving: a relative path,
/// the tar type-flag byte, and the file's bytes (empty for a directory).
#[derive(Debug)]
pub struct FileEntry {
    pub path: String,
    pub kind: u8,
    pub data: Vec<u8>,
}

impl View for FileEntry {
    type V = (Seq<char>, u8, Seq<u8>);

    open spec fn view(&self) -> (Seq<char>, u8, Seq<u8>) {
        (self.path@, self.kind, self.data@)
    }
}

/// The views of a sequence of entries.
pub open spec fn entries_view(es: Seq<FileEntry>) -> Seq<(Seq<char>, u8, Seq<u8>)> {
    es.map_values(|e: FileEntry| e@)
}

/// The bytes a gzip decoder recovers from `data`, or None where it rejects
/// the stream as malformed or truncated.
pub uninterp spec fn gunzip_of(data: Seq<u8>) -> Option<Seq<u8>>;

/// The entry list a tar reader recovers from `data`, or None where it rejects
/// the stream as malformed or truncated.
pub uninterp spec fn untar_of(data: Seq<u8>) -> Option<Seq<(Seq<char>, u8, Seq<u8>)>>;

/// A path that the tar header's own name field holds as written: nonempty,
/// ASCII, at most 100 characters, relative, with no empty, `.` or `..`
/// component and no NUL.
pub open spec fn simple_tar_path(p: Seq<char>) -> bool {
    &&& 1 <= p.len() <= 100
    &&& is_ascii_chars(p)
    &&& forall|i: int| 0 <= i < p.len() ==> p[i] != '\0'
    &&& forall|i: int|
        0 <= i < split_spec(p, seq!['/']).len() ==> path_piece_ok(
            #[trigger] split_spec(p, seq!['/'])[i],
        )
}

/// A path component a tar archive can carry: nonempty and neither `.` nor `..`.
pub open spec fn path_piece_ok(piece: Seq<char>) -> bool {
    piece.len() >= 1 && piece != seq!['.'] && piece != seq!['.', '.']
}

/// True when every entry has a simple path and is a regular file or a
/// directory: the entries this library itself produces, which tar stores and
/// hands back verbatim.
pub open spec fn archivable_entries(es: Seq<(Seq<char>, u8, Seq<u8>)>) -> bool {
    forall|i: int|
        0 <= i < es.len() ==> simple_tar_path(#[trigger] es[i].0) && (es[i].1 == REGULAR_FILE
            || es[i].1 == DIRECTORY)
}

/// Relies on tar's `Builder` (`Header::new_gnu`, `append_data`, `into_inner`)
/// writing into a memory buffer: appending cannot fail when every path fits
/// the header name field (`simple_tar_path`), and for file and directory
/// entries with such paths, reading the produced archive back with tar yields
/// exactly the appended entries.
#[verifier::external_body]
fn tar_pack(entries: &Vec<FileEntry>) -> (r: Option<Vec<u8>>)
    ensures
        archivable_entries(entries_view(entries@)) ==> r is Some,
        r is Some && archivable_entries(entries_view(entries@)) ==> untar_of(r.unwrap()@)
            == Some(entries_view(entries@)),
{
    let mut builder = tar::Builder::new(Vec::new());
    for e in entries.iter() {
        let mut header = tar::Header::new_gnu();
        header.set_entry_type(tar::EntryType::new(e.kind));
        header.set_size(e.data.len() as u64);
        if builder.append_data(&mut header, &e.path, e.data.as_slice()).is_err() {
            return None;
        }
    }
    builder.into_inner().ok()
}

/// Relies on tar's `Archive` and its entry iterator: the entry list recovered
/// from a byte stream is a function of the bytes alone; `untar_of` names it.
#[verifier::external_body]
fn tar_unpack(data: &[u8]) -> (r: Option<Vec<FileEntry>>)
    ensures
        match untar_of(data@) {
            Some(es) => r is Some && entries_view(r.unwrap()@) == es,
            None => r is None,
        },
{
    let mut archive = tar::Archive::new(data);
    let mut out: Vec<FileEntry> = Vec::new();
    for entry in archive.entries().ok()? {
        let mut entry = entry.ok()?;
        let path = entry.path().ok()?.to_str()?.to_string();
        let kind = entry.header().entry_type().as_byte();
        let mut data = Vec::new();
        std::io::Read::read_to_end(&mut entry, &mut data).ok()?;
        out.push(FileEntry { path, kind, data });
    }
    Some(out)
}

/// Relies on flate2's `GzEncoder` writing into a memory buffer, which cannot
/// fail, and on the gzip format being lossless: decoding the output recovers
/// exactly the input.
#[verifier::external_body]
fn gzip_compress(data: &[u8]) -> (r: Vec<u8>)
    ensures
        gunzip_of(r@) == Some(data@),
{
    let mut encoder = flate2::write::GzEncoder::new(Vec::new(), flate2::Compression::default());
    std::io::Write::write_all(&mut encoder, data).unwrap();
    encoder.finish().unwrap()
}

/// Relies on flate2's `GzDecoder`: the decoded bytes are a function of the
/// input bytes alone; `gunzip_of` names them (None where flate2 rejects).
#[verifier::external_body]
fn gzip_decompress(data: &[u8]) -> (r: Option<Vec<u8>>)
    ensures
        match gunzip_of(data@) {
            Some(b) => r is Some && r.unwrap()@ == b,
            None => r is None,
        },
{
    let mut decoder = flate2::read::GzDecoder::new(data);
    let mut out = Vec::new();
    match std::io::Read::read_to_end(&mut decoder, &mut out) {
        Ok(_) => Some(out),
        Err(_) => None,
    }
}

/// True of a relative entry path that cannot escape the directory it is
/// extracted under: nonempty, not absolute, and without a `..` component.
pub open spec fn safe_entry_path(p: Seq<char>) -> bool {
    &&& p.len() > 0
    &&& p[0] != '/'
    &&& forall|i: int|
        0 <= i < split_spec(p, "/"@).len() ==> #[trigger] split_spec(p, "/"@)[i] != ".."@
}

/// Decides `safe_entry_path`: whether an entry may be extracted under a
/// destination directory without escaping it.
pub fn is_safe_entry_path(p: &str) -> (r: bool)
    ensures
        r == safe_entry_path(p@),
{
    proof {
        reveal_strlit("/");
    }
    if p.is_empty() {
        return false;
    }
    if p.get_char(0) == '/' {
        return false;
    }
    let pieces = split_and_vectorize(p, "/");
    let n = pieces.len();
    let mut idx: usize = 0;
    while idx < n
        invariant
            n == pieces.len(),
            idx <= n,
            pieces.deep_view() == split_spec(p@, "/"@),
            forall|j: int| 0 <= j < idx ==> pieces.deep_view()[j] != ".."@,
        decreases n - idx,
    {
        if str_eq(pieces[idx], "..") {
            proof {
                assert(split_spec(p@, "/"@)[idx as int] == ".."@);
            }
            return false;
        }
        idx += 1;
    }
    true
}

/// True when `packed` is the compressed archive of exactly the entries `es`:
/// gunzip recovers a tar stream that reads back as `es`.
pub open spec fn packed_dir(packed: Seq<u8>, es: Seq<(Seq<char>, u8, Seq<u8>)>) -> bool {
    exists|t: Seq<u8>| gunzip_of(packed) == Some(t) && #[trigger] untar_of(t) == Some(es)
}

/// Serializes a directory tree into one compressed byte stream: tar, then
/// gzip. Succeeds for every archivable tree, and what it then produces
/// unpacks to exactly the given entries.
pub fn pack_entries(entries: &Vec<FileEntry>) -> (r: Result<Vec<u8>, BottleError>)
    ensures
        archivable_entries(entries_view(entries@)) ==> r is Ok && packed_dir(
            r.unwrap()@,
            entries_view(entries@),
        ),
        r is Err ==> r == Err::<Vec<u8>, BottleError>(BottleError::WriteFailed),
{
    match tar_pack(entries) {
        Some(t) => {
            let packed = gzip_compress(t.as_slice());
            proof {
                if archivable_entries(entries_view(entries@)) {
                    assert(gunzip_of(packed@) == Some(t@) && untar_of(t@) == Some(
                        entries_view(entries@),
                    ));
                }
            }
            Ok(packed)
        },
        None => Err(BottleError::WriteFailed),
    }
}

/// Rebuilds the directory tree from one compressed byte stream: gunzip, then
/// untar. Returns exactly the entries the stream holds, and fails loudly with
/// `CorruptArchive` exactly when either layer rejects the bytes.
pub fn unpack_entries(data: &[u8]) -> (r: Result<Vec<FileEntry>, BottleError>)
    ensures
        match gunzip_of(data@) {
            Some(t) => match untar_of(t) {
                Some(es) => r is Ok && entries_view(r.unwrap()@) == es,
                None => r == Err::<Vec<FileEntry>, BottleError>(BottleError::CorruptArchive),
            },
            None => r == Err::<Vec<FileEntry>, BottleError>(BottleError::CorruptArchive),
        },
{
    match gzip_decompress(data) {
        Some(t) => match tar_unpack(t.as_slice()) {
            Some(es) => Ok(es),
            None => Err(BottleError::CorruptArchive),
        },
        None => Err(BottleError::CorruptArchive),
    }
}

/// Archive round-trip law: for every archivable directory tree, unpacking
/// the packed-and-compressed form succeeds and reproduces exactly the same
/// relative paths, kinds and byte-exact contents.
pub fn pack_unpack_round_trip(entries: &Vec<FileEntry>) -> (r: Result<Vec<FileEntry>, BottleError>)
    ensures
        archivable_entries(entries_view(entries@)) ==> r is Ok && entries_view(r.unwrap()@)
            == entries_view(entries@),
{
    let packed = match pack_entries(entries) {
        Ok(p) => p,
        Err(e) => {
            return Err(e);
        },
    };
    unpack_entries(packed.as_slice())
}

} // verus!
