//! The archive extractor: gzip decompression, tar and zip unpacking, and
//! the extension-based dispatch over them.
//!
//! Decompression and entry decoding are delegated to the flate2, tar and zip
//! crates over in-memory bytes. Everything around those calls is verified:
//! which files are dispatched where, which entry names are accepted, and the
//! exact list of directory-creation and file-write actions a caller must
//! perform. Performing them (and reading the archive bytes) is the caller's
//! part, since this library does no I/O itself.

use std::io::Read;

use vstd::prelude::*;

use crate::fspath::{
    classify, classify_spec, is_safe_entry_name, join_path, join_path_exec, parent_of,
    parent_of_exec, safe_entry_name, ArchiveClass,
};

verus! {

/// Why an extraction failed.
#[derive(Clone, Copy, PartialEq, Eq, Structural, Debug)]
pub enum ArchiveError {
    /// The input is not a valid gzip stream.
    Gzip,
    /// The input is not a readable tar archive.
    Tar,
    /// The input is not a readable zip archive.
    Zip,
    /// An entry name is absolute, empty or escapes the destination.
    UnsafeEntryName,
}

/// One entry of an archive, decoded: its name, whether it is a directory,
/// and its bytes.
pub struct ArchiveEntry {
    pub name: String,
    pub is_dir: bool,
    pub data: Vec<u8>,
}

/// The mathematical value of an entry.
pub struct EntryView {
    pub name: Seq<char>,
    pub is_dir: bool,
    pub data: Seq<u8>,
}

impl View for ArchiveEntry {
    type V = EntryView;

    open spec fn view(&self) -> EntryView {
        EntryView { name: self.name@, is_dir: self.is_dir, data: self.data@ }
    }
}

/// One filesystem effect the caller is asked to perform, in order.
#[derive(Clone, Debug, PartialEq, Eq)]
pub enum FsAction {
    /// Create a directory and its missing parents.
    MkDirAll(String),
    /// Write a file with the given bytes, replacing what exists.
    WriteFile(String, Vec<u8>),
}

/// The mathematical value of an action.
pub enum ActionView {
    MkDirAll(Seq<char>),
    WriteFile(Seq<char>, Seq<u8>),
}

impl View for FsAction {
    type V = ActionView;

    open spec fn view(&self) -> ActionView {
        match self {
            FsAction::MkDirAll(p) => ActionView::MkDirAll(p@),
            FsAction::WriteFile(p, d) => ActionView::WriteFile(p@, d@),
        }
    }
}

/// The values of a list of entries.
pub open spec fn entry_views(s: Seq<ArchiveEntry>) -> Seq<EntryView> {
    Seq::new(s.len(), |i: int| s[i]@)
}

/// The values of a list of actions.
pub open spec fn action_views(s: Seq<FsAction>) -> Seq<ActionView> {
    Seq::new(s.len(), |i: int| s[i]@)
}

/// What gunzipping a byte stream yields: `None` when the stream is not
/// valid gzip, the decompressed bytes otherwise.
pub uninterp spec fn gunzip_of(data: Seq<u8>) -> Option<Seq<u8>>;

/// What decoding a tar archive yields: `None` when the bytes are not a
/// readable tar archive, otherwise its entries in archive order.
pub uninterp spec fn tar_entries_of(data: Seq<u8>) -> Option<Seq<EntryView>>;

/// What decoding a zip archive yields: `None` when the bytes are not a
/// readable zip archive, otherwise its entries in archive order.
pub uninterp spec fn zip_entries_of(data: Seq<u8>) -> Option<Seq<EntryView>>;

/// Relies on `flate2::read::GzDecoder`: the decompressed stream is a
/// function of the input bytes alone, and reading it fails exactly when the
/// input is not valid gzip.
#[verifier::external_body]
fn gunzip(data: &Vec<u8>) -> (r: Result<Vec<u8>, ArchiveError>)
    ensures
        r is Ok <==> gunzip_of(data@) is Some,
        r matches Ok(out) ==> out@ == gunzip_of(data@).unwrap(),
        r matches Err(e) ==> e == ArchiveError::Gzip,
{
    let mut dec = flate2::read::GzDecoder::new(data.as_slice());
    let mut out: Vec<u8> = Vec::new();
    match std::io::Read::read_to_end(&mut dec, &mut out) {
        Ok(_) => Ok(out),
        Err(_) => Err(ArchiveError::Gzip),
    }
}

/// Relies on `tar::Archive` over an in-memory buffer: the entries, with
/// their paths, directory flags and bytes, are a function of the archive
/// bytes alone, in archive order.
#[verifier::external_body]
fn read_tar_entries(data: &Vec<u8>) -> (r: Result<Vec<ArchiveEntry>, ArchiveError>)
    ensures
        r is Ok <==> tar_entries_of(data@) is Some,
        r matches Ok(v) ==> {
            let s = tar_entries_of(data@).unwrap();
            v@.len() == s.len() && forall|i: int| 0 <= i < v@.len() ==> v@[i]@ == s[i]
        },
        r matches Err(e) ==> e == ArchiveError::Tar,
{
    let bad = ArchiveError::Tar;
    let mut archive = tar::Archive::new(data.as_slice());
    let entries = match archive.entries() { Ok(e) => e, Err(_) => return Err(bad) };
    let mut out = Vec::new();
    for entry in entries {
        let mut e = match entry { Ok(e) => e, Err(_) => return Err(bad) };
        let name = match e.path() { Ok(p) => p.to_string_lossy().into_owned(), Err(_) => return Err(bad) };
        let is_dir = e.header().entry_type().is_dir();
        let mut data = Vec::new();
        if e.read_to_end(&mut data).is_err() { return Err(bad); }
        out.push(ArchiveEntry { name, is_dir, data });
    }
    Ok(out)
}

/// Relies on `zip::ZipArchive` over an in-memory buffer: the entries, with
/// their names, directory flags and decompressed bytes, are a function of
/// the archive bytes alone, in archive order.
#[verifier::external_body]
fn read_zip_entries(data: &Vec<u8>) -> (r: Result<Vec<ArchiveEntry>, ArchiveError>)
    ensures
        r is Ok <==> zip_entries_of(data@) is Some,
        r matches Ok(v) ==> {
            let s = zip_entries_of(data@).unwrap();
            v@.len() == s.len() && forall|i: int| 0 <= i < v@.len() ==> v@[i]@ == s[i]
        },
        r matches Err(e) ==> e == ArchiveError::Zip,
{
    let bad = ArchiveError::Zip;
    let cursor = std::io::Cursor::new(data.as_slice());
    let mut archive = match zip::ZipArchive::new(cursor) { Ok(a) => a, Err(_) => return Err(bad) };
    let mut out = Vec::new();
    for i in 0..archive.len() {
        let mut e = match archive.by_index(i) { Ok(e) => e, Err(_) => return Err(bad) };
        let mut data = Vec::new();
        if e.read_to_end(&mut data).is_err() { return Err(bad); }
        out.push(ArchiveEntry { name: e.name().to_string(), is_dir: e.is_dir(), data });
    }
    Ok(out)
}

/// The actions one entry asks for: its parent directory (when it has one),
/// then the directory itself or the file's bytes.
pub open spec fn entry_actions(dest: Seq<char>, e: EntryView) -> Seq<ActionView> {
    let path = join_path(dest, e.name);
    (match parent_of(path) {
        Some(par) => seq![ActionView::MkDirAll(par)],
        None => Seq::<ActionView>::empty(),
    }) + (if e.is_dir {
        seq![ActionView::MkDirAll(path)]
    } else {
        seq![ActionView::WriteFile(path, e.data)]
    })
}

/// The actions of a list of entries, in entry order.
pub open spec fn plan_spec(dest: Seq<char>, entries: Seq<EntryView>) -> Seq<ActionView>
    decreases entries.len(),
{
    if entries.len() == 0 {
        Seq::<ActionView>::empty()
    } else {
        entry_actions(dest, entries[0]) + plan_spec(dest, entries.subrange(1, entries.len() as int))
    }
}

/// Every entry name stays below the destination.
pub open spec fn all_safe(entries: Seq<EntryView>) -> bool {
    forall|i: int| 0 <= i < entries.len() ==> safe_entry_name(entries[i].name)
}

/// The plan over one more entry is the plan so far plus that entry's
/// actions.
proof fn lemma_plan_snoc(dest: Seq<char>, entries: Seq<EntryView>, i: int)
    requires
        0 <= i < entries.len(),
    ensures
        plan_spec(dest, entries.subrange(0, i + 1)) == plan_spec(dest, entries.subrange(0, i))
            + entry_actions(dest, entries[i]),
    decreases i,
{
    let a = entries.subrange(0, i + 1);
    if i == 0 {
        assert(a.subrange(1, a.len() as int) =~= entries.subrange(0, 0));
        assert(plan_spec(dest, entries.subrange(0, 0)) =~= Seq::<ActionView>::empty());
        assert(plan_spec(dest, a) =~= entry_actions(dest, entries[0]));
        assert(plan_spec(dest, entries.subrange(0, 0)) + entry_actions(dest, entries[0])
            =~= entry_actions(dest, entries[0]));
    } else {
        let rest = entries.subrange(1, entries.len() as int);
        lemma_plan_snoc(dest, rest, i - 1);
        assert(a.subrange(1, a.len() as int) =~= rest.subrange(0, i));
        assert(rest.subrange(0, i - 1 + 1) =~= a.subrange(1, a.len() as int));
        let b = entries.subrange(0, i);
        assert(b.subrange(1, b.len() as int) =~= rest.subrange(0, i - 1));
        assert(b[0] == entries[0]);
        assert(a[0] == entries[0]);
        assert(rest[i - 1] == entries[i]);
        assert(plan_spec(dest, a) == entry_actions(dest, entries[0]) + plan_spec(
            dest,
            rest.subrange(0, i),
        ));
        assert(plan_spec(dest, b) == entry_actions(dest, entries[0]) + plan_spec(
            dest,
            rest.subrange(0, i - 1),
        ));
        assert(entry_actions(dest, entries[0]) + (plan_spec(dest, rest.subrange(0, i - 1))
            + entry_actions(dest, entries[i])) =~= (entry_actions(dest, entries[0]) + plan_spec(
            dest,
            rest.subrange(0, i - 1),
        )) + entry_actions(dest, entries[i]));
    }
}

/// Turns decoded entries into the action list, refusing unsafe names.
fn plan_entries(dest: &str, entries: Vec<ArchiveEntry>) -> (r: Result<Vec<FsAction>, ArchiveError>)
    ensures
        match r {
            Ok(acts) => all_safe(entry_views(entries@)) && action_views(acts@) == plan_spec(
                dest@,
                entry_views(entries@),
            ),
            Err(e) => e == ArchiveError::UnsafeEntryName && !all_safe(entry_views(entries@)),
        },
{
    let ghost orig: Seq<EntryView> = entry_views(entries@);
    let mut rest = entries;
    let mut acts: Vec<FsAction> = Vec::new();
    let mut done: usize = 0;
    let total: usize = rest.len();
    proof {
        assert(orig.len() == total);
        assert(entry_views(rest@) =~= orig.subrange(0, orig.len() as int));
        assert(action_views(acts@) =~= plan_spec(dest@, orig.subrange(0, 0)));
    }
    while rest.len() > 0
        invariant
            orig == entry_views(entries@),
            orig.len() <= usize::MAX,
            done + rest@.len() == orig.len(),
            entry_views(rest@) =~= orig.subrange(done as int, orig.len() as int),
            forall|i: int| 0 <= i < done ==> safe_entry_name(orig[i].name),
            action_views(acts@) == plan_spec(dest@, orig.subrange(0, done as int)),
        decreases rest@.len(),
    {
        let ghost rest0 = rest@;
        let e = rest.remove(0);
        proof {
            assert(entry_views(rest0)[0] == e@);
            assert(e@ == orig[done as int]);
            assert forall|k: int| 0 <= k < rest@.len() implies entry_views(rest@)[k] == orig[done
                + 1 + k] by {
                assert(rest@[k] == rest0[k + 1]);
                assert(entry_views(rest0)[k + 1] == orig.subrange(
                    done as int,
                    orig.len() as int,
                )[k + 1]);
            }
            assert(entry_views(rest@) =~= orig.subrange(done + 1, orig.len() as int));
        }
        if !is_safe_entry_name(e.name.as_str()) {
            proof {
                assert(!safe_entry_name(orig[done as int].name));
                assert(!all_safe(orig));
            }
            return Err(ArchiveError::UnsafeEntryName);
        }
        let path: String = join_path_exec(dest, e.name.as_str());
        let ghost acts0 = acts@;
        match parent_of_exec(path.as_str()) {
            Some(par) => {
                acts.push(FsAction::MkDirAll(par));
            },
            None => {},
        }
        if e.is_dir {
            acts.push(FsAction::MkDirAll(path));
        } else {
            acts.push(FsAction::WriteFile(path, e.data));
        }
        proof {
            lemma_plan_snoc(dest@, orig, done as int);
            assert(action_views(acts@) =~= plan_spec(dest@, orig.subrange(0, done as int))
                + entry_actions(dest@, orig[done as int]));
        }
        done = done + 1;
    }
    proof {
        assert(orig.subrange(0, done as int) =~= orig);
    }
    Ok(acts)
}

/// Decompresses a gzip stream.
pub fn decompress(data: &Vec<u8>) -> (r: Result<Vec<u8>, ArchiveError>)
    ensures
        r is Ok <==> gunzip_of(data@) is Some,
        r matches Ok(out) ==> out@ == gunzip_of(data@).unwrap(),
        r matches Err(e) ==> e == ArchiveError::Gzip,
{
    gunzip(data)
}

/// Unpacks a tar archive: the actions to perform under `dest`, one parent
/// directory and one directory or file per entry, in archive order.
pub fn extract(data: &Vec<u8>, dest: &str) -> (r: Result<Vec<FsAction>, ArchiveError>)
    ensures
        match r {
            Ok(acts) => {
                &&& tar_entries_of(data@) is Some
                &&& all_safe(tar_entries_of(data@).unwrap())
                &&& action_views(acts@) == plan_spec(dest@, tar_entries_of(data@).unwrap())
            },
            Err(ArchiveError::Tar) => tar_entries_of(data@) is None,
            Err(ArchiveError::UnsafeEntryName) => tar_entries_of(data@) is Some && !all_safe(
                tar_entries_of(data@).unwrap(),
            ),
            Err(_) => false,
        },
{
    match read_tar_entries(data) {
        Err(e) => Err(e),
        Ok(v) => {
            proof {
                assert(entry_views(v@) =~= tar_entries_of(data@).unwrap());
            }
            plan_entries(dest, v)
        },
    }
}

/// Unpacks a zip archive: the actions to perform under `dest`, one parent
/// directory and one directory or file per entry, in archive order.
pub fn unzip(data: &Vec<u8>, dest: &str) -> (r: Result<Vec<FsAction>, ArchiveError>)
    ensures
        match r {
            Ok(acts) => {
                &&& zip_entries_of(data@) is Some
                &&& all_safe(zip_entries_of(data@).unwrap())
                &&& action_views(acts@) == plan_spec(dest@, zip_entries_of(data@).unwrap())
            },
            Err(ArchiveError::Zip) => zip_entries_of(data@) is None,
            Err(ArchiveError::UnsafeEntryName) => zip_entries_of(data@) is Some && !all_safe(
                zip_entries_of(data@).unwrap(),
            ),
            Err(_) => false,
        },
{
    match read_zip_entries(data) {
        Err(e) => Err(e),
        Ok(v) => {
            proof {
                assert(entry_views(v@) =~= zip_entries_of(data@).unwrap());
            }
            plan_entries(dest, v)
        },
    }
}

/// The outcome of dispatching one file for extraction.
pub enum ExtractOutcome {
    /// Extraction succeeded: the actions to perform under the destination.
    Done(Vec<FsAction>),
    /// The file was left untouched: an unknown or missing extension, or a
    /// `.gz` whose stem does not end in `.tar`.
    Skipped(ArchiveClass),
    /// The file was dispatched and extraction failed.
    Failed(ArchiveError),
}

/// Extracts an archive file according to its name: `.tar.gz` and `.tgz` are
/// gunzipped and unpacked as tar, `.tar` is unpacked directly, `.zip` is
/// unzipped, and anything else is skipped rather than failed.
pub fn extract_archive(filename: &str, data: &Vec<u8>, dest: &str) -> (r: ExtractOutcome)
    ensures
        classify_spec(filename@) == ArchiveClass::Unsupported ==> r == ExtractOutcome::Skipped(
            ArchiveClass::Unsupported,
        ),
        classify_spec(filename@) == ArchiveClass::GzNotTar ==> r == ExtractOutcome::Skipped(
            ArchiveClass::GzNotTar,
        ),
        classify_spec(filename@) == ArchiveClass::Tar ==> match r {
            ExtractOutcome::Done(acts) => {
                &&& tar_entries_of(data@) matches Some(es)
                &&& all_safe(es)
                &&& action_views(acts@) == plan_spec(dest@, es)
            },
            ExtractOutcome::Failed(e) => {
                ||| (e == ArchiveError::Tar && tar_entries_of(data@) is None)
                ||| {
                    &&& e == ArchiveError::UnsafeEntryName
                    &&& tar_entries_of(data@) matches Some(es)
                    &&& !all_safe(es)
                }
            },
            ExtractOutcome::Skipped(_) => false,
        },
        classify_spec(filename@) == ArchiveClass::Zip ==> match r {
            ExtractOutcome::Done(acts) => {
                &&& zip_entries_of(data@) matches Some(es)
                &&& all_safe(es)
                &&& action_views(acts@) == plan_spec(dest@, es)
            },
            ExtractOutcome::Failed(e) => {
                ||| (e == ArchiveError::Zip && zip_entries_of(data@) is None)
                ||| {
                    &&& e == ArchiveError::UnsafeEntryName
                    &&& zip_entries_of(data@) matches Some(es)
                    &&& !all_safe(es)
                }
            },
            ExtractOutcome::Skipped(_) => false,
        },
        classify_spec(filename@) == ArchiveClass::TarGz ==> match r {
            ExtractOutcome::Done(acts) => {
                &&& gunzip_of(data@) matches Some(t)
                &&& tar_entries_of(t) matches Some(es)
                &&& all_safe(es)
                &&& action_views(acts@) == plan_spec(dest@, es)
            },
            ExtractOutcome::Failed(e) => {
                ||| (e == ArchiveError::Gzip && gunzip_of(data@) is None)
                ||| {
                    &&& e == ArchiveError::Tar
                    &&& gunzip_of(data@) matches Some(t)
                    &&& tar_entries_of(t) is None
                }
                ||| {
                    &&& e == ArchiveError::UnsafeEntryName
                    &&& gunzip_of(data@) matches Some(t)
                    &&& tar_entries_of(t) matches Some(es)
                    &&& !all_safe(es)
                }
            },
            ExtractOutcome::Skipped(_) => false,
        },
{
    let cls = classify(filename);
    match cls {
        ArchiveClass::TarGz => match decompress(data) {
            Err(e) => ExtractOutcome::Failed(e),
            Ok(t) => match extract(&t, dest) {
                Ok(a) => ExtractOutcome::Done(a),
                Err(e) => ExtractOutcome::Failed(e),
            },
        },
        ArchiveClass::Tar => match extract(data, dest) {
            Ok(a) => ExtractOutcome::Done(a),
            Err(e) => ExtractOutcome::Failed(e),
        },
        ArchiveClass::Zip => match unzip(data, dest) {
            Ok(a) => ExtractOutcome::Done(a),
            Err(e) => ExtractOutcome::Failed(e),
        },
        ArchiveClass::GzNotTar => ExtractOutcome::Skipped(ArchiveClass::GzNotTar),
        ArchiveClass::Unsupported => ExtractOutcome::Skipped(ArchiveClass::Unsupported),
    }
}

/// The plan of a concatenation is the concatenation of the plans.
proof fn lemma_plan_concat(dest: Seq<char>, s1: Seq<EntryView>, s2: Seq<EntryView>)
    ensures
        plan_spec(dest, s1 + s2) == plan_spec(dest, s1) + plan_spec(dest, s2),
    decreases s1.len(),
{
    if s1.len() == 0 {
        assert(s1 + s2 =~= s2);
        assert(plan_spec(dest, s1) + plan_spec(dest, s2) =~= plan_spec(dest, s2));
    } else {
        let c = s1 + s2;
        let t1 = s1.subrange(1, s1.len() as int);
        assert(c[0] == s1[0]);
        assert(c.subrange(1, c.len() as int) =~= t1 + s2);
        lemma_plan_concat(dest, t1, s2);
        assert(entry_actions(dest, s1[0]) + (plan_spec(dest, t1) + plan_spec(dest, s2)) =~= (
        entry_actions(dest, s1[0]) + plan_spec(dest, t1)) + plan_spec(dest, s2));
    }
}

/// Law: the effects two entries ask for do not depend on the order in which
/// the archive lists them; swapping the entries only permutes the planned
/// actions.
pub proof fn lemma_plan_order_independent(dest: Seq<char>, e1: EntryView, e2: EntryView)
    ensures
        plan_spec(dest, seq![e1, e2]).to_multiset() == plan_spec(
            dest,
            seq![e2, e1],
        ).to_multiset(),
{
    broadcast use vstd::multiset::group_multiset_axioms;

    assert(seq![e1, e2] =~= seq![e1] + seq![e2]);
    assert(seq![e2, e1] =~= seq![e2] + seq![e1]);
    lemma_plan_concat(dest, seq![e1], seq![e2]);
    lemma_plan_concat(dest, seq![e2], seq![e1]);
    lemma_plan_single(dest, e1);
    lemma_plan_single(dest, e2);
    vstd::seq_lib::lemma_multiset_commutative(entry_actions(dest, e1), entry_actions(dest, e2));
    vstd::seq_lib::lemma_multiset_commutative(entry_actions(dest, e2), entry_actions(dest, e1));
    assert(plan_spec(dest, seq![e1, e2]).to_multiset() =~= plan_spec(
        dest,
        seq![e2, e1],
    ).to_multiset());
}

/// A single entry plans exactly its own actions.
proof fn lemma_plan_single(dest: Seq<char>, e: EntryView)
    ensures
        plan_spec(dest, seq![e]) == entry_actions(dest, e),
{
    let s = seq![e];
    assert(s[0] == e);
    assert(s.subrange(1, 1) =~= Seq::<EntryView>::empty());
    assert(plan_spec(dest, Seq::<EntryView>::empty()) == Seq::<ActionView>::empty());
    assert(entry_actions(dest, e) + Seq::<ActionView>::empty() =~= entry_actions(dest, e));
    assert(plan_spec(dest, s) =~= entry_actions(dest, e));
}

} // verus!
