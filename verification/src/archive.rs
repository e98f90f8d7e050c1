//! The archive of captured files.

use std::io::Cursor;
use std::io::Write;
use crate::text::same_text;
use vstd::prelude::*;
use vstd::string::*;
use zip::ZipWriter;

verus! {

/// An archive that is being written: the `ZipWriter` of the `zip` crate over a
/// buffer in memory. Every call on it so far has succeeded: a writer that has
/// refused something is given up with the error.
#[verifier::external_body]
pub struct Archive {
    inner: ZipWriter<Cursor<Vec<u8>>>,
}

/// The files that an archive being written holds: names and contents, in order.
pub uninterp spec fn members(w: Archive) -> Seq<(Seq<char>, Seq<u8>)>;

/// The files that a finished archive holds: names and contents, in order.
pub uninterp spec fn archived_in(bytes: Seq<u8>) -> Seq<(Seq<char>, Seq<u8>)>;

/// The name is short enough for an archive: its length in UTF-8 can be written
/// in sixteen bits.
pub open spec fn name_fits(name: Seq<char>) -> bool {
    vstd::utf8::encode_utf8(name).len() <= 0xffff
}

/// Every content is small enough for an archive without the extensions for large
/// files, compressed or not.
pub open spec fn all_small(files: Seq<(Seq<char>, Seq<u8>)>) -> bool {
    forall|i: int| 0 <= i < files.len() ==> (#[trigger] files[i]).1.len() <= 0x7fff_ffff
}

/// Every file is one that an archive takes: its content is small enough, and so
/// is its name.
pub open spec fn all_fit(files: Seq<(Seq<char>, Seq<u8>)>) -> bool {
    all_small(files) && forall|i: int| 0 <= i < files.len() ==> name_fits((#[trigger] files[i]).0)
}

/// Some file of the list has that name.
pub open spec fn has_name(files: Seq<(Seq<char>, Seq<u8>)>, name: Seq<char>) -> bool {
    exists|i: int| 0 <= i < files.len() && #[trigger] files[i].0 == name
}

/// `zip::ZipWriter::new`: an archive that holds no file.
#[verifier::external_body]
fn new_archive() -> (w: Archive)
    ensures
        members(w) == Seq::<(Seq<char>, Seq<u8>)>::empty(),
{
    Archive { inner: ZipWriter::new(Cursor::new(Vec::new())) }
}

/// `zip::ZipWriter::start_file`, with deflate for the compression: on success
/// the archive holds one file more, which is empty so far. The length of a name
/// is written in sixteen bits: a name that is longer is refused. A name that is
/// not, and that no file of the archive has, is taken where the file before it
/// can be closed, which is so where its content is small. When else the call
/// fails is not stated. An archive that has refused a file is given up.
#[verifier::external_body]
fn start_member(w: Archive, name: &str) -> (r: Result<Archive, String>)
    ensures
        r matches Ok(v) ==> members(v) == members(w).push((name@, Seq::<u8>::empty())),
        !name_fits(name@) ==> r is Err,
        name_fits(name@) && !has_name(members(w), name@) && all_small(members(w)) ==> r is Ok,
{
    let options = zip::write::SimpleFileOptions::default()
        .compression_method(zip::CompressionMethod::Deflated);
    let mut inner = w.inner;
    inner.start_file(name, options).map(|_| Archive { inner }).map_err(|e| e.to_string())
}

/// `std::io::Write::write_all` of `zip::ZipWriter`: on success the data stand
/// behind what the last file held. It succeeds as long as the content of that
/// file stays small. When else the call fails is not stated. An archive that has
/// refused data is given up.
#[verifier::external_body]
fn write_member(w: Archive, data: &[u8]) -> (r: Result<Archive, String>)
    requires
        members(w).len() > 0,
    ensures
        r matches Ok(v) ==> members(v) == members(w).drop_last().push(
            (members(w).last().0, members(w).last().1 + data@),
        ),
        members(w).last().1.len() + data@.len() <= 0x7fff_ffff ==> r is Ok,
{
    let mut inner = w.inner;
    inner.write_all(data).map(|_| Archive { inner }).map_err(|e| e.to_string())
}

/// `zip::ZipWriter::finish`: on success the bytes are an archive that holds
/// what the writer held. It succeeds where every content is small: it writes to
/// memory alone. When else the call fails is not stated, nor which bytes they
/// are.
#[verifier::external_body]
fn finish_archive(w: Archive) -> (r: Result<Vec<u8>, String>)
    ensures
        r matches Ok(bytes) ==> archived_in(bytes@) == members(w),
        all_small(members(w)) ==> r is Ok,
{
    w.inner.finish().map(|c| c.into_inner()).map_err(|e| e.to_string())
}

/// A file for the archive: its name, and what is in it unless it is missing.
pub struct CapturedFile {
    pub name: String,
    pub data: Option<Vec<u8>>,
}

/// What is archived of the first `n` files: those that exist, but for the
/// archive itself, each name once.
pub open spec fn archived(files: Seq<CapturedFile>, n: nat) -> Seq<(Seq<char>, Seq<u8>)>
    decreases n,
{
    if n == 0 {
        Seq::empty()
    } else {
        let before = archived(files, (n - 1) as nat);
        let f = files[n - 1];
        match f.data {
            Some(data) => if f.name@ == "profile.zip"@ || has_name(before, f.name@) {
                before
            } else {
                before.push((f.name@, data@))
            },
            None => before,
        }
    }
}

fn is_seen(seen: &Vec<String>, name: &str, Ghost(held): Ghost<Seq<(Seq<char>, Seq<u8>)>>) -> (r:
    bool)
    requires
        seen@.len() == held.len(),
        forall|i: int| 0 <= i < held.len() ==> (#[trigger] held[i]).0 == seen@[i]@,
    ensures
        r == has_name(held, name@),
{
    for i in 0..seen.len()
        invariant
            seen@.len() == held.len(),
            forall|i: int| 0 <= i < held.len() ==> (#[trigger] held[i]).0 == seen@[i]@,
            forall|j: int| 0 <= j < i ==> (#[trigger] held[j]).0 != name@,
    {
        assert(held[i as int].0 == seen@[i as int]@);
        if same_text(seen[i].as_str(), name) {
            return true;
        }
    }
    false
}

/// What is archived of fewer files stands first in what is archived of more.
proof fn lemma_archived_grows(files: Seq<CapturedFile>, m: nat, n: nat)
    requires
        m <= n,
    ensures
        archived(files, m).len() <= archived(files, n).len(),
        archived(files, m) == archived(files, n).take(archived(files, m).len() as int),
    decreases n,
{
    if m < n {
        lemma_archived_grows(files, m, (n - 1) as nat);
        let before = archived(files, (n - 1) as nat);
        assert(archived(files, n).take(archived(files, m).len() as int) =~= before.take(
            archived(files, m).len() as int,
        ));
    } else {
        assert(archived(files, n).take(archived(files, n).len() as int) =~= archived(files, n));
    }
}

/// Archives the captured files, and no others: those that exist, each name
/// once, and never the archive itself. Where that leaves none, the archive has
/// no files. It succeeds wherever every file is one that an archive takes; a
/// name that is too long is an error.
pub fn zip_files(files: &Vec<CapturedFile>) -> (r: Result<Vec<u8>, String>)
    ensures
        match r {
            Ok(bytes) => archived_in(bytes@) == archived(files@, files@.len()) && forall|i: int|
                0 <= i < archived(files@, files@.len()).len() ==> name_fits(
                    (#[trigger] archived(files@, files@.len())[i]).0,
                ),
            Err(_) => !all_fit(archived(files@, files@.len())),
        },
{
    let mut w = new_archive();
    let mut seen: Vec<String> = Vec::new();
    for i in 0..files.len()
        invariant
            members(w) == archived(files@, i as nat),
            seen@.len() == members(w).len(),
            forall|j: int| 0 <= j < seen@.len() ==> (#[trigger] members(w)[j]).0 == seen@[j]@,
            forall|j: int| 0 <= j < members(w).len() ==> name_fits((#[trigger] members(w)[j]).0),
    {
        let name = files[i].name.as_str();
        let ghost held = members(w);
        match &files[i].data {
            Some(data) => {
                if !same_text(name, "profile.zip") && !is_seen(&seen, name, Ghost(held)) {
                    let ghost all = archived(files@, files@.len());
                    proof {
                        lemma_archived_grows(files@, (i + 1) as nat, files@.len());
                        let now = archived(files@, (i + 1) as nat);
                        assert(now.last() == (name@, data@));
                        assert forall|j: int| 0 <= j < now.len() implies now[j] == #[trigger] all[j] by {
                            assert(all.take(now.len() as int)[j] == all[j]);
                        }
                        assert forall|j: int|
                            0 <= j < held.len() && all_fit(all) implies (#[trigger] held[j]).1.len()
                            <= 0x7fff_ffff by {
                            assert(held[j] == now[j]);
                            assert(all[j].1.len() <= 0x7fff_ffff);
                        }
                        if all_fit(all) {
                            assert(name_fits(all[held.len() as int].0));
                            assert(all[held.len() as int].1.len() <= 0x7fff_ffff);
                        }
                    }
                    w = match start_member(w, name) {
                        Ok(v) => v,
                        Err(e) => {
                            return Err(e);
                        },
                    };
                    w = match write_member(w, data.as_slice()) {
                        Ok(v) => v,
                        Err(e) => {
                            return Err(e);
                        },
                    };
                    seen.push(files[i].name.clone());
                    assert(Seq::<u8>::empty() + data@ =~= data@);
                    assert(members(w) =~= held.push((name@, data@)));
                }
            },
            None => {},
        }
    }
    finish_archive(w)
}

/// Law: an archive holds nothing but captured files, with what was captured.
pub proof fn law_archive_holds_only_the_captured(files: Seq<CapturedFile>, n: nat, i: int)
    requires
        n <= files.len(),
        0 <= i < archived(files, n).len(),
    ensures
        exists|j: int|
            0 <= j < n && (#[trigger] files[j]).name@ == archived(files, n)[i].0
                && files[j].data is Some && files[j].data->0@ == archived(files, n)[i].1,
    decreases n,
{
    if n > 0 {
        let before = archived(files, (n - 1) as nat);
        if i < before.len() {
            law_archive_holds_only_the_captured(files, (n - 1) as nat, i);
            let j = choose|j: int|
                0 <= j < n - 1 && (#[trigger] files[j]).name@ == before[i].0 && files[j].data is Some
                    && files[j].data->0@ == before[i].1;
            assert(files[j].name@ == archived(files, n)[i].0);
        } else {
            assert(files[n - 1].name@ == archived(files, n)[i].0);
        }
    }
}

/// Law: no name stands in an archive twice, and the archive never holds itself.
pub proof fn law_archive_names_are_distinct(files: Seq<CapturedFile>, n: nat)
    requires
        n <= files.len(),
    ensures
        forall|i: int, j: int|
            0 <= i < j < archived(files, n).len() ==> (#[trigger] archived(files, n)[i]).0 != (
            #[trigger] archived(files, n)[j]).0,
        !has_name(archived(files, n), "profile.zip"@),
    decreases n,
{
    if n > 0 {
        law_archive_names_are_distinct(files, (n - 1) as nat);
        let before = archived(files, (n - 1) as nat);
        let now = archived(files, n);
        assert forall|i: int, j: int| 0 <= i < j < now.len() implies (#[trigger] now[i]).0 != (
        #[trigger] now[j]).0 by {
            assert(now[i] == before[i]);
            if j < before.len() {
                assert(now[j] == before[j]);
            } else {
                assert(!has_name(before, now[j].0));
            }
        }
        assert forall|i: int| 0 <= i < now.len() implies (#[trigger] now[i]).0
            != "profile.zip"@ by {
            if i < before.len() {
                assert(now[i] == before[i]);
            }
        }
    }
}

/// Law: a captured file that exists is in the archive, unless it is the archive
/// itself.
pub proof fn law_every_captured_file_is_archived(files: Seq<CapturedFile>, n: nat, j: int)
    requires
        n <= files.len(),
        0 <= j < n,
        files[j].data is Some,
        files[j].name@ != "profile.zip"@,
    ensures
        has_name(archived(files, n), files[j].name@),
    decreases n,
{
    let before = archived(files, (n - 1) as nat);
    if j < n - 1 {
        law_every_captured_file_is_archived(files, (n - 1) as nat, j);
        let i = choose|i: int| 0 <= i < before.len() && #[trigger] before[i].0 == files[j].name@;
        assert(archived(files, n)[i] == before[i]);
    } else {
        if !has_name(before, files[j].name@) {
            assert(archived(files, n)[before.len() as int].0 == files[j].name@);
        }
    }
}

} // verus!
