//! The archive writer: turns the ordered entry list into one ZIP byte
//! stream. The mimetype entry is stored uncompressed; everything else is
//! deflated. The zip crate does the container format; the order and contents
//! of the entries are decided and checked here.

use vstd::prelude::*;
use crate::error::BuildError;

verus! {

/// One entry of the output archive: its path inside the container, its
/// bytes, and whether it is stored uncompressed rather than deflated.
#[derive(Debug, Clone, PartialEq, Eq)]
pub struct ArchiveEntry {
    pub name: String,
    pub data: Vec<u8>,
    pub stored: bool,
}

/// The fixed container descriptor pointing readers at the package document.
pub open spec fn container_doc() -> Seq<char> {
    "<?xml version=\"1.0\" encoding=\"utf-8\"?>\n<container xmlns=\"urn:oasis:names:tc:opendocument:xmlns:container\" version=\"1.0\">\n<rootfiles>\n<rootfile full-path=\"item/standard.opf\" media-type=\"application/oebps-package+xml\"/>\n</rootfiles>\n</container>\n"@
}

pub fn container_document() -> (r: String)
    ensures
        r@ == container_doc(),
{
    "<?xml version=\"1.0\" encoding=\"utf-8\"?>\n<container xmlns=\"urn:oasis:names:tc:opendocument:xmlns:container\" version=\"1.0\">\n<rootfiles>\n<rootfile full-path=\"item/standard.opf\" media-type=\"application/oebps-package+xml\"/>\n</rootfiles>\n</container>\n".to_owned()
}

/// The zip writer over its in-memory buffer. Verus refuses the writer type
/// in a declaration (its bounds name the io traits), so the whole value sits
/// behind this opaque struct and is reached only through the wrappers below.
#[verifier::external_body]
pub struct ZipBuffer {
    inner: zip::write::ZipWriter<std::io::Cursor<Vec<u8>>>,
}

/// What the archive writer holds: for each begun entry, its name, the bytes
/// written to it so far, and whether it is stored uncompressed.
pub uninterp spec fn zip_entries(w: ZipBuffer) -> Seq<(Seq<char>, Seq<u8>, bool)>;

/// Relies on zip::ZipWriter::new: a fresh writer holds no entries.
#[verifier::external_body]
fn zip_new() -> (w: ZipBuffer)
    ensures
        zip_entries(w) == Seq::<(Seq<char>, Seq<u8>, bool)>::empty(),
{
    ZipBuffer { inner: zip::write::ZipWriter::new(std::io::Cursor::new(Vec::new())) }
}

/// Relies on zip::ZipWriter::start_file: on success, a new empty entry with
/// the given name begins at the end of the archive, stored uncompressed or
/// deflated as asked.
#[verifier::external_body]
fn zip_start_file(w: &mut ZipBuffer, name: &String, stored: bool) -> (r: Result<(), String>)
    ensures
        r is Ok ==> zip_entries(*final(w)) == zip_entries(*old(w)).push(
            (name@, Seq::<u8>::empty(), stored),
        ),
{
    let method = if stored {
        zip::CompressionMethod::Stored
    } else {
        zip::CompressionMethod::Deflated
    };
    let options = zip::write::SimpleFileOptions::default().compression_method(method);
    w.inner.start_file(name.as_str(), options).map_err(|e| e.to_string())
}

/// Relies on the std::io::Write impl of zip::ZipWriter: write_all appends the
/// bytes to the entry begun by the last start_file.
#[verifier::external_body]
fn zip_write(w: &mut ZipBuffer, data: &Vec<u8>) -> (r: Result<(), String>)
    requires
        zip_entries(*old(w)).len() > 0,
    ensures
        r is Ok ==> {
            let s = zip_entries(*old(w));
            let last = s[s.len() - 1];
            zip_entries(*final(w)) == s.update(s.len() - 1, (last.0, last.1 + data@, last.2))
        },
{
    std::io::Write::write_all(&mut w.inner, data.as_slice()).map_err(|e| e.to_string())
}

/// Relies on zip::ZipWriter::finish: writes the central directory and hands
/// back the underlying buffer.
#[verifier::external_body]
fn zip_finish(w: ZipBuffer) -> (r: Result<Vec<u8>, String>) {
    w.inner.finish().map(|c| c.into_inner()).map_err(|e| e.to_string())
}

/// Serializes the entries into one ZIP byte stream, in order, each entry's
/// stored flag deciding its compression. A failure names the entry that was
/// being written.
pub fn write_archive(entries: &Vec<ArchiveEntry>) -> (r: Result<Vec<u8>, BuildError>)
    ensures
        r matches Err(e) ==> e is Archive,
{
    let mut w = zip_new();
    let n = entries.len();
    let mut i: usize = 0;
    while i < n
        invariant
            i <= n,
            n == entries@.len(),
            zip_entries(w).len() == i as int,
            forall|j: int|
                0 <= j < i ==> #[trigger] zip_entries(w)[j] == (
                    entries@[j].name@,
                    entries@[j].data@,
                    entries@[j].stored,
                ),
        decreases n - i,
    {
        match zip_start_file(&mut w, &entries[i].name, entries[i].stored) {
            Ok(_) => {},
            Err(detail) => {
                return Err(BuildError::Archive(entries[i].name.clone(), detail));
            },
        }
        match zip_write(&mut w, &entries[i].data) {
            Ok(_) => {},
            Err(detail) => {
                return Err(BuildError::Archive(entries[i].name.clone(), detail));
            },
        }
        proof {
            assert(Seq::<u8>::empty() + entries@[i as int].data@ =~= entries@[i as int].data@);
        }
        i = i + 1;
    }
    match zip_finish(w) {
        Ok(bytes) => Ok(bytes),
        Err(detail) => Err(BuildError::Archive("central directory".to_owned(), detail)),
    }
}

} // verus!
