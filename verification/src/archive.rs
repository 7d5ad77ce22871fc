use vstd::prelude::*;
use vstd::string::StringExecFns;

use crate::pasta::{lookup, Pasta, PastaFile};
use crate::text::concat3;
use crate::zipper::{
    data_appended, new_zip_writer, stored_zip_bytes, zip_finish, zip_start_stored_file,
    zip_write_all, zip_writer_files, ZIP_FILE_LIMIT,
};
use vstd::utf8::encode_utf8;

verus! {

/// One file of a pasta's archive: its name in the archive and the stored
/// paths it may be read from, to be tried in order; a file none of whose
/// paths exists is left out of the archive.
#[derive(Debug)]
pub struct ArchiveEntryPlan {
    pub name: String,
    pub candidates: Vec<String>,
}

/// What a request for a pasta's archive needs.
#[derive(Debug)]
pub enum ArchivePlan {
    /// No pasta is addressed by the slug: answer "404 Not Found".
    NotFound,
    /// The files to gather, in order, and the `Content-Disposition` header
    /// of the download.
    Found { entries: Vec<ArchiveEntryPlan>, content_disposition: String },
}

/// An archive entry plan as character sequences.
pub open spec fn entry_view(e: ArchiveEntryPlan) -> (Seq<char>, Seq<Seq<char>>) {
    (e.name@, e.candidates@.map_values(|c: String| c@))
}

/// The suffix of server-encrypted files.
pub open spec fn enc_suffix(encrypted: bool) -> Seq<char> {
    if encrypted { ".enc"@ } else { Seq::empty() }
}

/// The directory that holds the files of the pasta addressed by `slug`.
pub open spec fn attachment_dir(data_dir: Seq<char>, slug: Seq<char>) -> Seq<char> {
    data_dir + "/attachments/"@ + slug + "/"@
}

/// The archive entry of an attached file named `name`.
pub open spec fn attachment_entry(data_dir: Seq<char>, slug: Seq<char>, name: Seq<char>, encrypted: bool) -> (
    Seq<char>,
    Seq<Seq<char>>,
) {
    (name + enc_suffix(encrypted), seq![attachment_dir(data_dir, slug) + name + enc_suffix(encrypted)])
}

/// The archive entry of the main file named `name`: a server-encrypted one
/// may also sit under the older name `data.enc`.
pub open spec fn primary_entry(data_dir: Seq<char>, slug: Seq<char>, name: Seq<char>, encrypted: bool) -> (
    Seq<char>,
    Seq<Seq<char>>,
) {
    if encrypted {
        (
            name + ".enc"@,
            seq![attachment_dir(data_dir, slug) + name + ".enc"@, attachment_dir(data_dir, slug) + "data.enc"@],
        )
    } else {
        (name, seq![attachment_dir(data_dir, slug) + name])
    }
}

/// The entries of the archive of pasta `p`: its main file, then its
/// attachments, in order.
pub open spec fn archive_entries(p: Pasta, data_dir: Seq<char>) -> Seq<(Seq<char>, Seq<Seq<char>>)> {
    let primary = match p.file {
        Some(f) => seq![primary_entry(data_dir, p.slug@, f.name@, p.encrypt_server)],
        None => Seq::empty(),
    };
    let rest = match p.attachments {
        Some(atts) => atts@.map_values(
            |f: PastaFile| attachment_entry(data_dir, p.slug@, f.name@, p.encrypt_server),
        ),
        None => Seq::empty(),
    };
    primary + rest
}

/// The header that offers the archive as `<slug>.zip`.
pub open spec fn archive_disposition(slug: Seq<char>) -> Seq<char> {
    "attachment; filename=\""@ + slug + ".zip\""@
}

/// The path `data_dir/attachments/slug/name`, with `.enc` appended for a
/// server-encrypted file.
fn stored_path(data_dir: &str, slug: &str, name: &str, encrypted: bool) -> (path: String)
    ensures
        path@ == attachment_dir(data_dir@, slug@) + name@ + enc_suffix(encrypted),
{
    let mut path = concat3(data_dir, "/attachments/", slug);
    path.append("/");
    path.append(name);
    if encrypted {
        path.append(".enc");
    }
    proof {
        assert(path@ =~= attachment_dir(data_dir@, slug@) + name@ + enc_suffix(encrypted));
    }
    path
}

/// The name of a file in the archive.
fn entry_name(name: &str, encrypted: bool) -> (res: String)
    ensures
        res@ == name@ + enc_suffix(encrypted),
{
    let mut res = String::from_str(name);
    if encrypted {
        res.append(".enc");
    }
    proof {
        assert(res@ =~= name@ + enc_suffix(encrypted));
    }
    res
}

/// Plans the archive of the pasta addressed by `slug`, whose files are
/// stored under `data_dir`.
pub fn get_archive(pastas: &Vec<Pasta>, slug: &str, data_dir: &str) -> (plan: ArchivePlan)
    ensures
        match lookup(pastas@, slug@) {
            Some(i) => {
                &&& plan matches ArchivePlan::Found { entries, content_disposition }
                &&& entries@.map_values(|e: ArchiveEntryPlan| entry_view(e)) == archive_entries(
                    pastas@[i],
                    data_dir@,
                )
                &&& content_disposition@ == archive_disposition(pastas@[i].slug@)
            },
            None => plan is NotFound,
        },
{
    match Pasta::find_index(pastas, slug) {
        Some(index) => {
            let pasta = &pastas[index];
            let enc = pasta.encrypt_server;
            let pslug = pasta.slug.as_str();
            let mut entries: Vec<ArchiveEntryPlan> = Vec::new();
            let ghost primary: Seq<(Seq<char>, Seq<Seq<char>>)> = Seq::empty();
            if let Some(file) = &pasta.file {
                let mut candidates: Vec<String> = Vec::new();
                candidates.push(stored_path(data_dir, pslug, file.name.as_str(), enc));
                if enc {
                    let mut legacy = concat3(data_dir, "/attachments/", pslug);
                    legacy.append("/");
                    legacy.append("data.enc");
                    candidates.push(legacy);
                }
                entries.push(ArchiveEntryPlan { name: entry_name(file.name.as_str(), enc), candidates });
                proof {
                    primary = seq![primary_entry(data_dir@, pslug@, file.name@, enc)];
                    assert(entries@[0].candidates@.map_values(|c: String| c@) =~= primary[0].1);
                    assert(entry_view(entries@[0]) == primary[0]);
                    assert(entries@.map_values(|e: ArchiveEntryPlan| entry_view(e)) =~= primary);
                }
            }
            assert(entries@.map_values(|e: ArchiveEntryPlan| entry_view(e)) =~= primary);
            let start = entries.len();
            if let Some(atts) = &pasta.attachments {
                let mut k: usize = 0;
                while k < atts.len()
                    invariant
                        k <= atts@.len(),
                        entries@.len() == start + k,
                        entries@.map_values(|e: ArchiveEntryPlan| entry_view(e)) =~= primary
                            + atts@.take(k as int).map_values(
                            |f: PastaFile| attachment_entry(data_dir@, pslug@, f.name@, enc),
                        ),
                    decreases atts@.len() - k,
                {
                    let name = atts[k].name.as_str();
                    let mut candidates: Vec<String> = Vec::new();
                    candidates.push(stored_path(data_dir, pslug, name, enc));
                    let ghost before = entries@;
                    let entry = ArchiveEntryPlan { name: entry_name(name, enc), candidates };
                    proof {
                        let f = |f: PastaFile| attachment_entry(data_dir@, pslug@, f.name@, enc);
                        assert(entry.candidates@.map_values(|c: String| c@) =~= f(atts@[k as int]).1);
                        assert(entry_view(entry) == f(atts@[k as int]));
                        assert(atts@.take(k + 1) =~= atts@.take(k as int).push(atts@[k as int]));
                        assert(atts@.take(k + 1).map_values(f) =~= atts@.take(k as int).map_values(f).push(
                            f(atts@[k as int]),
                        ));
                    }
                    entries.push(entry);
                    proof {
                        assert(entries@.map_values(|e: ArchiveEntryPlan| entry_view(e)) =~= before.map_values(
                            |e: ArchiveEntryPlan| entry_view(e),
                        ).push(entry_view(entry)));
                    }
                    k = k + 1;
                }
                assert(atts@.take(atts@.len() as int) =~= atts@);
            }
            let mut disposition = String::from_str("attachment; filename=\"");
            disposition.append(pslug);
            disposition.append(".zip\"");
            proof {
                assert(disposition@ =~= archive_disposition(pslug@));
            }
            ArchivePlan::Found { entries, content_disposition: disposition }
        },
        None => ArchivePlan::NotFound,
    }
}

} // verus!

verus! {

/// The Unix mode of every file in an archive.
pub const ARCHIVE_FILE_MODE: u32 = 0o755;

/// Why an archive could not be written.
#[derive(PartialEq, Eq, Structural, Clone, Copy, Debug)]
pub enum ArchiveError {
    /// The zip writer refused a file or could not finish the archive.
    Zip,
    /// The zip writer refused a file's data.
    Write,
}

/// The files of an archive as the zip writer holds them.
pub open spec fn archive_files(files: Seq<(String, Vec<u8>)>) -> Seq<(Seq<char>, u32, Seq<u8>)> {
    files.map_values(|f: (String, Vec<u8>)| (f.0@, ARCHIVE_FILE_MODE, f.1@))
}

/// Two files of the list share a name.
pub open spec fn names_repeat(files: Seq<(String, Vec<u8>)>) -> bool {
    exists|i: int, j: int| 0 <= i < j < files.len() && files[i].0@ == files[j].0@
}

/// Every name fits the 16-bit length field of a zip header.
pub open spec fn names_fit(files: Seq<(String, Vec<u8>)>) -> bool {
    forall|i: int| 0 <= i < files.len() ==> encode_utf8(#[trigger] files[i].0@).len() <= 0xffff
}

/// No file holds more than `ZIP_FILE_LIMIT` bytes of data.
pub open spec fn data_within_limit(files: Seq<(String, Vec<u8>)>) -> bool {
    forall|i: int| 0 <= i < files.len() ==> (#[trigger] files[i]).1@.len() <= ZIP_FILE_LIMIT
}

/// Writes the named files, in order, into a zip archive that stores them
/// uncompressed with mode 0755. It succeeds exactly when the names are
/// distinct and no file is too large for a plain zip entry.
pub fn build_archive(files: &Vec<(String, Vec<u8>)>) -> (res: Result<Vec<u8>, ArchiveError>)
    requires
        names_fit(files@),
    ensures
        res matches Ok(bytes) ==> bytes@ == stored_zip_bytes(archive_files(files@)),
        names_repeat(files@) ==> res is Err,
        !names_repeat(files@) && !data_within_limit(files@) ==> res == Err::<Vec<u8>, ArchiveError>(
            ArchiveError::Write,
        ),
        !names_repeat(files@) && data_within_limit(files@) ==> res is Ok,
{
    let mut w = new_zip_writer();
    let mut k: usize = 0;
    assert(archive_files(files@.take(0)) =~= Seq::<(Seq<char>, u32, Seq<u8>)>::empty());
    while k < files.len()
        invariant
            k <= files@.len(),
            names_fit(files@),
            zip_writer_files(w) == archive_files(files@.take(k as int)),
            !names_repeat(files@.take(k as int)),
            data_within_limit(files@.take(k as int)),
        decreases files@.len() - k,
    {
        let name = files[k].0.as_str();
        let data = files[k].1.as_slice();
        let ghost held = zip_writer_files(w);
        assert(encode_utf8(files@[k as int].0@).len() <= 0xffff);
        let started = zip_start_stored_file(w, name, ARCHIVE_FILE_MODE);
        let w1 = match started {
            Ok(next) => next,
            Err(_) => {
                proof {
                    let j = choose|j: int| 0 <= j < held.len() && #[trigger] held[j].0 == name@;
                    assert(held[j].0 == files@.take(k as int)[j].0@);
                    assert(names_repeat(files@)) by {
                        assert(files@[j].0@ == files@[k as int].0@);
                    }
                }
                return Err(ArchiveError::Zip);
            },
        };
        proof {
            assert forall|j: int| 0 <= j < k implies files@[j].0@ != files@[k as int].0@ by {
                assert(held[j].0 == files@.take(k as int)[j].0@);
                if files@[j].0@ == files@[k as int].0@ {
                    assert(exists|m: int| 0 <= m < held.len() && #[trigger] held[m].0 == name@);
                }
            }
            assert(files@.take(k + 1) =~= files@.take(k as int).push(files@[k as int]));
            assert(Seq::<u8>::empty() + data@ =~= data@);
            let s1 = zip_writer_files(w1);
            assert(data_appended(s1, data@) =~= archive_files(files@.take(k + 1)));
        }
        let written = zip_write_all(w1, data);
        w = match written {
            Ok(next) => next,
            Err(_) => {
                proof {
                    assert(!data_within_limit(files@)) by {
                        assert(files@[k as int].1@.len() > ZIP_FILE_LIMIT);
                    }
                }
                return Err(ArchiveError::Write);
            },
        };
        proof {
            assert(zip_writer_files(w) =~= archive_files(files@.take(k + 1)));
            let t = files@.take(k + 1);
            assert(!names_repeat(t)) by {
                if names_repeat(t) {
                    let (i, j) = choose|i: int, j: int| 0 <= i < j < t.len() && t[i].0@ == t[j].0@;
                    if j < k {
                        assert(files@.take(k as int)[i] == t[i]);
                        assert(files@.take(k as int)[j] == t[j]);
                    } else {
                        assert(files@[i].0@ != files@[k as int].0@);
                    }
                }
            }
            assert forall|i: int| 0 <= i < t.len() implies (#[trigger] t[i]).1@.len() <= ZIP_FILE_LIMIT by {
                if data@.len() > 0 {
                    assert(zip_writer_files(w1).last().2.len() == 0);
                }
                if i < k {
                    assert(files@.take(k as int)[i] == t[i]);
                }
            }
        }
        k = k + 1;
    }
    assert(files@.take(files@.len() as int) =~= files@);
    proof {
        let fs = zip_writer_files(w);
        assert forall|m: int| 0 <= m < fs.len() implies (#[trigger] fs[m]).2.len() <= ZIP_FILE_LIMIT by {
            assert(files@[m].1@.len() <= ZIP_FILE_LIMIT);
        }
    }
    match zip_finish(w) {
        Ok(bytes) => Ok(bytes),
        Err(_) => Err(ArchiveError::Zip),
    }
}

} // verus!

verus! {

/// `s` ends with `suffix`.
pub open spec fn ends_with(s: Seq<char>, suffix: Seq<char>) -> bool {
    s.len() >= suffix.len() && s.subrange(s.len() - suffix.len(), s.len() as int) == suffix
}

proof fn lemma_concat_ends_with(a: Seq<char>, suffix: Seq<char>)
    ensures
        ends_with(a + suffix, suffix),
{
    assert((a + suffix).subrange(a.len() as int, (a + suffix).len() as int) =~= suffix);
}

/// The archive of a server-encrypted pasta only offers encrypted data: every
/// file in it carries the `.enc` suffix and is read from a path ending in `.enc`.
pub proof fn lemma_encrypted_archive_is_encrypted(p: Pasta, data_dir: Seq<char>)
    requires
        p.encrypt_server,
    ensures
        forall|k: int|
            0 <= k < archive_entries(p, data_dir).len() ==> {
                let e = #[trigger] archive_entries(p, data_dir)[k];
                &&& ends_with(e.0, ".enc"@)
                &&& forall|c: int| 0 <= c < e.1.len() ==> ends_with(#[trigger] e.1[c], ".enc"@)
            },
{
    let entries = archive_entries(p, data_dir);
    let dir = attachment_dir(data_dir, p.slug@);
    assert forall|k: int|
        0 <= k < entries.len() implies {
            let e = #[trigger] entries[k];
            &&& ends_with(e.0, ".enc"@)
            &&& forall|c: int| 0 <= c < e.1.len() ==> ends_with(#[trigger] e.1[c], ".enc"@)
        } by {
        let e = entries[k];
        let primary_len: int = if p.file is Some { 1 } else { 0 };
        if k < primary_len {
            let name = p.file->0.name@;
            lemma_concat_ends_with(name, ".enc"@);
            lemma_concat_ends_with(dir + name, ".enc"@);
            reveal_strlit("data.enc");
            reveal_strlit(".enc");
            assert(ends_with(dir + "data.enc"@, ".enc"@)) by {
                assert((dir + "data.enc"@).subrange((dir + "data.enc"@).len() - 4, (dir + "data.enc"@).len() as int) =~= ".enc"@);
            }
            assert forall|c: int| 0 <= c < e.1.len() implies ends_with(#[trigger] e.1[c], ".enc"@) by {
                if c == 0 {
                    assert(e.1[c] == dir + name + ".enc"@);
                } else {
                    assert(e.1[c] == dir + "data.enc"@);
                }
            }
        } else {
            let atts = p.attachments->0@;
            let f = atts[k - primary_len];
            assert(e == attachment_entry(data_dir, p.slug@, f.name@, true));
            lemma_concat_ends_with(f.name@, ".enc"@);
            lemma_concat_ends_with(dir + f.name@, ".enc"@);
        }
    }
}

} // verus!

verus! {

/// Picks the path an archive entry is read from: given, for each candidate
/// path in order, whether it exists, the first that does; `None` leaves the
/// entry out of the archive.
pub fn first_existing(exists: &Vec<bool>) -> (res: Option<usize>)
    ensures
        res matches Some(i) ==> i < exists@.len() && exists@[i as int] && forall|j: int|
            0 <= j < i ==> !exists@[j],
        res is None ==> forall|j: int| 0 <= j < exists@.len() ==> !exists@[j],
{
    let mut i: usize = 0;
    while i < exists.len()
        invariant
            i <= exists@.len(),
            forall|j: int| 0 <= j < i ==> !exists@[j],
        decreases exists@.len() - i,
    {
        if exists[i] {
            return Some(i);
        }
        i = i + 1;
    }
    None
}

} // verus!

verus! {

/// The archive of any pasta, encrypted on the server or not, holds its main
/// file, if it has one, and then one file per attachment, in order. Each
/// attachment is read from the pasta's directory under `data_dir`; a
/// server-encrypted pasta's attachments carry, in the archive and on disk, the
/// `.enc` suffix.
pub proof fn lemma_archive_holds_every_attachment(p: Pasta, data_dir: Seq<char>)
    ensures
        ({
            let entries = archive_entries(p, data_dir);
            let lead: int = if p.file is Some { 1 } else { 0 };
            let atts: Seq<PastaFile> = match p.attachments {
                Some(a) => a@,
                None => Seq::empty(),
            };
            &&& entries.len() == lead + atts.len()
            &&& forall|k: int|
                0 <= k < atts.len() ==> {
                    let name = (#[trigger] atts[k]).name@;
                    let stored = if p.encrypt_server { name + ".enc"@ } else { name };
                    entries[lead + k] == (stored, seq![data_dir + "/attachments/"@ + p.slug@ + "/"@ + stored])
                }
        }),
{
    let entries = archive_entries(p, data_dir);
    let lead: int = if p.file is Some { 1 } else { 0 };
    let atts: Seq<PastaFile> = match p.attachments {
        Some(a) => a@,
        None => Seq::empty(),
    };
    assert forall|k: int| 0 <= k < atts.len() implies {
        let name = (#[trigger] atts[k]).name@;
        let stored = if p.encrypt_server { name + ".enc"@ } else { name };
        entries[lead + k] == (stored, seq![data_dir + "/attachments/"@ + p.slug@ + "/"@ + stored])
    } by {
        let name = atts[k].name@;
        let dir = data_dir + "/attachments/"@ + p.slug@ + "/"@;
        if p.encrypt_server {
            assert(dir + name + ".enc"@ =~= dir + (name + ".enc"@));
        } else {
            assert(name + Seq::<char>::empty() =~= name);
        }
        assert(seq![dir + name + enc_suffix(p.encrypt_server)] =~= seq![dir + (name + enc_suffix(p.encrypt_server))]);
    }
}

} // verus!

verus! {

/// The main file of a pasta comes first in its archive, read from the
/// pasta's directory; a server-encrypted one carries the `.enc` suffix and may
/// also be read from the older `data.enc`.
pub proof fn lemma_archive_main_file_first(p: Pasta, data_dir: Seq<char>)
    requires
        p.file is Some,
    ensures
        ({
            let name = p.file->0.name@;
            let dir = data_dir + "/attachments/"@ + p.slug@ + "/"@;
            archive_entries(p, data_dir)[0] == if p.encrypt_server {
                (name + ".enc"@, seq![dir + (name + ".enc"@), dir + "data.enc"@])
            } else {
                (name, seq![dir + name])
            }
        }),
{
    let name = p.file->0.name@;
    let dir = data_dir + "/attachments/"@ + p.slug@ + "/"@;
    assert(dir + name + ".enc"@ =~= dir + (name + ".enc"@));
    assert(seq![dir + name + ".enc"@, dir + "data.enc"@] =~= seq![dir + (name + ".enc"@), dir + "data.enc"@]);
}

} // verus!

verus! {

/// The archive is offered for download under the pasta's slug with a `.zip`
/// extension.
pub proof fn lemma_archive_download_name(slug: Seq<char>)
    ensures
        archive_disposition(slug) == "attachment; filename=\""@ + slug + ".zip\""@,
{
}

} // verus!
