//! Download archives: the referenced files of a review packed into one compressed zip.
//!
//! The bytes of each file are read by the caller; a file that could not be read is packed
//! with the text of its snapshot instead.

use vstd::prelude::*;
use crate::attachments::{entry_names_of, zip_entry_names};
use crate::review::{names, ReviewFile};
use crate::text::{append_str, chars_of, string_of, utf8_len};

verus! {

/// An in-memory zip archive being written; only the wrappers below touch it.
#[verifier::external_body]
pub struct ZipBuffer {
    writer: zip::ZipWriter<std::io::Cursor<Vec<u8>>>,
}

/// What an in-memory zip writer holds: its entries in order, each a name and the bytes
/// written into it so far.
pub uninterp spec fn zip_contents(w: ZipBuffer) -> Seq<(Seq<char>, Seq<u8>)>;

/// Every call made on the writer so far succeeded.
pub uninterp spec fn zip_usable(w: ZipBuffer) -> bool;

/// The archive that `zip::ZipWriter::finish` produces for the given entries, each packed
/// with Deflate and the default file options.
pub uninterp spec fn zip_archive_bytes(entries: Seq<(Seq<char>, Seq<u8>)>) -> Seq<u8>;

/// The most bytes an entry name may take: the local header (30 bytes) and the name must
/// stay under 64 KiB.
pub open spec fn zip_name_limit() -> nat {
    65504
}

/// Entries below this many bytes (1 GiB) stay, compressed or not, far under the 4 GiB
/// that an entry without the large-file option may hold.
pub open spec fn zip_entry_limit() -> nat {
    0x4000_0000
}

/// The entry being written, if any, is below the entry limit.
pub open spec fn open_entry_fits(c: Seq<(Seq<char>, Seq<u8>)>) -> bool {
    c.len() == 0 || c.last().1.len() < zip_entry_limit()
}

/// No entry of the writer is named `name`.
pub open spec fn name_is_new(c: Seq<(Seq<char>, Seq<u8>)>, name: Seq<char>) -> bool {
    forall|j: int| 0 <= j < c.len() ==> #[trigger] c[j].0 != name
}

/// Wraps `zip::ZipWriter::new` on an empty in-memory buffer: a writer with no entry.
#[verifier::external_body]
fn zip_writer_new() -> (w: ZipBuffer)
    ensures
        zip_contents(w) == Seq::<(Seq<char>, Seq<u8>)>::empty(),
        zip_usable(w),
{
    ZipBuffer { writer: zip::ZipWriter::new(std::io::Cursor::new(Vec::new())) }
}

/// Wraps `zip::ZipWriter::start_file`, which closes the entry being written and opens a
/// new one named `name` (here Deflate-compressed, with the default file options); when it
/// succeeds the writer holds one more, empty, entry. It refuses a name already used
/// (`insert_file_data`), a name too long for the local header (`start_entry`), and closing
/// an entry of 4 GiB or more (`update_local_file_header`); writing into the in-memory
/// buffer does not fail. So on a writer on which every call succeeded, a new name within
/// the name limit after an entry within the entry limit is accepted. A refusal is handed
/// back as its message, and then nothing is said of the writer.
#[verifier::external_body]
fn zip_start_file(w: &mut ZipBuffer, name: &str) -> (r: Result<(), String>)
    ensures
        r is Ok ==> zip_contents(*final(w)) == zip_contents(*old(w)).push((name@, Seq::<u8>::empty())),
        r is Ok && zip_usable(*old(w)) ==> zip_usable(*final(w)),
        zip_usable(*old(w)) && name_is_new(zip_contents(*old(w)), name@) && utf8_len(name@)
            <= zip_name_limit() && open_entry_fits(zip_contents(*old(w))) ==> r is Ok,
{
    let options = zip::write::SimpleFileOptions::default().compression_method(zip::CompressionMethod::Deflated);
    w.writer.start_file(name, options).map_err(|e| e.to_string())
}

/// Wraps `Write::write_all` of `zip::ZipWriter`. An empty `bytes` succeeds without a
/// write and changes nothing; otherwise a success means an entry was open and `bytes` were
/// added to the end of it. `ZipWriter::write` refuses when no entry is open, and when an
/// entry reaches 4 GiB; the in-memory buffer does not fail. So on a writer on which every
/// call succeeded, adding to an open entry within the entry limit succeeds. A failure is
/// handed back as its message, and then nothing is said of the writer.
#[verifier::external_body]
fn zip_write_all(w: &mut ZipBuffer, bytes: &[u8]) -> (r: Result<(), String>)
    ensures
        r is Ok ==> {
            let before = zip_contents(*old(w));
            ||| (bytes@.len() == 0 && zip_contents(*final(w)) == before)
            ||| (before.len() > 0 && zip_contents(*final(w)) == before.update(
                before.len() - 1,
                (before.last().0, before.last().1 + bytes@),
            ))
        },
        r is Ok && zip_usable(*old(w)) ==> zip_usable(*final(w)),
        zip_usable(*old(w)) && zip_contents(*old(w)).len() > 0 && zip_contents(*old(w)).last().1.len()
            + bytes@.len() < zip_entry_limit() ==> r is Ok,
{
    std::io::Write::write_all(&mut w.writer, bytes).map_err(|e| e.to_string())
}

/// Wraps `zip::ZipWriter::finish`, handing back the bytes of the archive of the writer's
/// entries, or the failure's message. It closes the last entry (refused at 4 GiB or more)
/// and writes the central directory into the in-memory buffer, switching to Zip64 by
/// itself where the counts or offsets need it; so on a writer on which every call
/// succeeded, with its last entry within the entry limit, it succeeds.
#[verifier::external_body]
fn zip_finish(w: ZipBuffer) -> (r: Result<Vec<u8>, String>)
    ensures
        r matches Ok(b) ==> b@ == zip_archive_bytes(zip_contents(w)),
        zip_usable(w) && open_entry_fits(zip_contents(w)) ==> r is Ok,
{
    w.writer.finish().map(|c| c.into_inner()).map_err(|e| e.to_string())
}

/// The UTF-8 bytes of a text.
fn bytes_of(s: &String) -> (r: Vec<u8>)
    ensures
        r@ == vstd::utf8::encode_utf8(s@),
{
    let b = s.as_str().as_bytes();
    let mut v: Vec<u8> = Vec::new();
    let mut i: usize = 0;
    while i < b.len()
        invariant
            i <= b@.len(),
            b@ == vstd::utf8::encode_utf8(s@),
            v@ == b@.take(i as int),
        decreases b.len() - i,
    {
        v.push(b[i]);
        assert(v@ =~= b@.take(i + 1));
        i = i + 1;
    }
    assert(b@.take(b@.len() as int) =~= b@);
    v
}

/// The message of a failure while packing the entry `name`.
pub open spec fn entry_failure(name: Seq<char>, during: Seq<char>, cause: Seq<char>) -> Seq<char> {
    "Failed to "@ + during + " "@ + name + ": "@ + cause
}

fn failure(during: &str, name: &String, cause: String) -> (r: String)
    ensures
        r@ == entry_failure(name@, during@, cause@),
{
    let mut m = chars_of("Failed to ");
    append_str(&mut m, during);
    append_str(&mut m, " ");
    append_str(&mut m, name.as_str());
    append_str(&mut m, ": ");
    append_str(&mut m, cause.as_str());
    string_of(&m)
}

/// The message of a failure while completing the archive.
pub open spec fn finalize_failure(cause: Seq<char>) -> Seq<char> {
    "Failed to finalize zip archive: "@ + cause
}

/// The bytes packed for a file: what was read from disk, or else its snapshot text.
pub open spec fn packed_bytes(f: ReviewFile, read: Option<Vec<u8>>) -> Seq<u8> {
    match read {
        Some(b) => b@,
        None => vstd::utf8::encode_utf8(f.content@),
    }
}

/// The entries of the archive of `files`: each file under its entry name, with its bytes.
pub open spec fn archive_entries(files: Seq<ReviewFile>, contents: Seq<Option<Vec<u8>>>) -> Seq<(Seq<char>, Seq<u8>)> {
    Seq::new(files.len(), |i: int| (zip_entry_names_spec(files)[i], packed_bytes(files[i], contents[i])))
}

/// Every entry of the archive of `files` has a name within the name limit and bytes within
/// the entry limit.
pub open spec fn archive_fits(files: Seq<ReviewFile>, contents: Seq<Option<Vec<u8>>>) -> bool {
    forall|i: int| 0 <= i < files.len() ==> entry_fits(#[trigger] archive_entries(files, contents)[i])
}

/// An entry's name is within the name limit and its bytes within the entry limit.
pub open spec fn entry_fits(e: (Seq<char>, Seq<u8>)) -> bool {
    utf8_len(e.0) <= zip_name_limit() && e.1.len() < zip_entry_limit()
}

/// Packs `files` into a zip archive, one Deflate entry per file in order, under the
/// distinct names `zip_entry_names` gives them; `contents[i]` is what reading the file of
/// `files[i]` gave. A failure names the entry and the step that failed; none comes when
/// every entry name is within the name limit and every entry within the entry limit.
pub fn create_zip_archive(files: &Vec<ReviewFile>, contents: Vec<Option<Vec<u8>>>) -> (r: Result<Vec<u8>, String>)
    requires
        contents@.len() == files@.len(),
    ensures
        r matches Ok(b) ==> b@ == zip_archive_bytes(archive_entries(files@, contents@)),
        r matches Err(m) ==> (exists|i: int, step: Seq<char>, cause: Seq<char>| {
            &&& 0 <= i < files@.len()
            &&& (step == "create zip entry"@ || step == "write zip content for"@)
            &&& m@ == #[trigger] entry_failure(zip_entry_names_spec(files@)[i], step, cause)
        }) || (exists|cause: Seq<char>| m@ == #[trigger] finalize_failure(cause)),
        archive_fits(files@, contents@) ==> r is Ok,
{
    let names_v = zip_entry_names(files);
    proof {
        lemma_entry_names_unique(files@, names(names_v@));
    }
    let ghost all = archive_entries(files@, contents@);
    let ghost given = contents@;
    let mut w = zip_writer_new();
    let mut rest = contents;
    let mut i: usize = 0;
    assert(all.take(0) =~= Seq::<(Seq<char>, Seq<u8>)>::empty());
    while i < files.len()
        invariant
            i <= files@.len(),
            names(names_v@) == zip_entry_names_spec(files@),
            names_v@.len() == files@.len(),
            given.len() == files@.len(),
            given == contents@,
            all == archive_entries(files@, given),
            rest@ == given.skip(i as int),
            zip_contents(w) == all.take(i as int),
            zip_usable(w),
            zip_entry_names_spec(files@).no_duplicates(),
            archive_fits(files@, given) ==> open_entry_fits(zip_contents(w)),
        decreases files.len() - i,
    {
        let ghost before_rest = rest@;
        let read = rest.remove(0);
        assert(read == given[i as int]);
        assert(rest@ =~= given.skip(i + 1));
        let bytes: Vec<u8> = match read {
            Some(b) => b,
            None => bytes_of(&files[i].content),
        };
        assert(bytes@ == packed_bytes(files@[i as int], given[i as int]));
        let name = &names_v[i];
        assert(name@ == zip_entry_names_spec(files@)[i as int]);
        assert(all[i as int] == (name@, bytes@));
        proof {
            if archive_fits(files@, given) {
                assert(entry_fits(archive_entries(files@, given)[i as int]));
                assert forall|j: int| 0 <= j < zip_contents(w).len() implies #[trigger] zip_contents(w)[j].0
                    != name@ by {
                    assert(zip_contents(w)[j] == all[j]);
                    assert(all[j].0 == zip_entry_names_spec(files@)[j]);
                    assert(zip_entry_names_spec(files@)[j] != zip_entry_names_spec(files@)[i as int]);
                }
            }
        }
        match zip_start_file(&mut w, name.as_str()) {
            Ok(()) => {},
            Err(e) => {
                let ghost cause = e@;
                let m = failure("create zip entry", name, e);
                assert(m@ == entry_failure(zip_entry_names_spec(files@)[i as int], "create zip entry"@, cause));
                return Err(m);
            },
        }
        let ghost opened = zip_contents(w);
        assert(opened == all.take(i as int).push((name@, Seq::<u8>::empty())));
        match zip_write_all(&mut w, bytes.as_slice()) {
            Ok(()) => {},
            Err(e) => {
                let ghost cause = e@;
                let m = failure("write zip content for", name, e);
                assert(m@ == entry_failure(zip_entry_names_spec(files@)[i as int], "write zip content for"@, cause));
                return Err(m);
            },
        }
        assert(opened.last().1 + bytes@ =~= bytes@);
        assert(zip_contents(w) =~= all.take(i + 1));
        proof {
            if archive_fits(files@, given) {
                assert(entry_fits(archive_entries(files@, given)[i as int]));
            }
        }
        i = i + 1;
    }
    assert(all.take(i as int) =~= all);
    match zip_finish(w) {
        Ok(b) => Ok(b),
        Err(e) => {
            let mut m = chars_of("Failed to finalize zip archive: ");
            append_str(&mut m, e.as_str());
            assert(m@ == finalize_failure(e@));
            Err(string_of(&m))
        },
    }
}

/// The entry names of `files`: the unique list that `entry_names_of` describes.
pub open spec fn zip_entry_names_spec(files: Seq<ReviewFile>) -> Seq<Seq<char>> {
    choose|r: Seq<Seq<char>>| entry_names_of(files, r)
}

/// The entry names of a list of files are determined by the files.
proof fn lemma_entry_names_unique(files: Seq<ReviewFile>, r: Seq<Seq<char>>)
    requires
        entry_names_of(files, r),
    ensures
        zip_entry_names_spec(files) == r,
{
    let c = zip_entry_names_spec(files);
    assert(entry_names_of(files, c));
    crate::attachments::lemma_entry_names_determined(files, c, r);
}

} // verus!
