//! Unpacking zip archives: which folders and files an archive yields, where
//! each one goes under the target folder, and the progress reported meanwhile.
//!
//! The archive format itself is read by the `zip` crate; what it makes of the
//! bytes is named here and not restated.

use std::io::Cursor;
use std::io::Read;
use vstd::prelude::*;
use zip::ZipArchive;
use crate::paths::{path_join, path_join_all};
use crate::text::chars_of;

verus! {

#[verifier::external_type_specification]
#[verifier::external_body]
#[verifier::reject_recursive_types(R)]
pub struct ExZipArchive<R>(ZipArchive<R>);

#[verifier::external_type_specification]
#[verifier::external_body]
#[verifier::reject_recursive_types(T)]
pub struct ExCursor<T>(Cursor<T>);

/// The bytes an opened archive reads from.
pub uninterp spec fn archive_bytes(a: ZipArchive<Cursor<Vec<u8>>>) -> Seq<u8>;

/// What `ZipArchive::new` makes of these bytes: an archive, or the text of its error.
pub uninterp spec fn zip_open_result(bytes: Seq<u8>) -> Result<(), Seq<char>>;

/// The number of entries `ZipArchive::len` reports for an archive of these bytes.
pub uninterp spec fn zip_entry_count(bytes: Seq<u8>) -> nat;

/// What `ZipArchive::by_index` reads of entry `index`: the components of its
/// enclosed name (none when the name would leave the target folder, or is
/// refused by the crate's rules for the platform the program is built for,
/// such as device names on Windows) and whether it is a folder; or the text
/// of its error.
pub uninterp spec fn zip_entry_header(bytes: Seq<u8>, index: int) -> Result<(Option<Seq<Seq<char>>>, bool), Seq<char>>;

/// The contents of entry `index` as its reader yields them; or, on an error,
/// the bytes read before it (`None` when the entry could not be opened at
/// all) and the text of the error.
pub uninterp spec fn zip_entry_data(bytes: Seq<u8>, index: int) -> Result<Seq<u8>, (Option<Seq<u8>>, Seq<char>)>;

/// `ZipArchive::new` over a copy of the bytes: the archive, which keeps them, or
/// the error's text. What the crate accepts is named, not stated.
#[verifier::external_body]
fn open_archive(bytes: &Vec<u8>) -> (r: Result<ZipArchive<Cursor<Vec<u8>>>, String>)
    ensures
        match r {
            Ok(a) => zip_open_result(bytes@) is Ok && archive_bytes(a) == bytes@,
            Err(e) => zip_open_result(bytes@) == Err::<(), Seq<char>>(e@),
        },
{
    ZipArchive::new(Cursor::new(bytes.clone())).map_err(|e| e.to_string())
}

/// `ZipArchive::len`: the number of entries, a function of the bytes.
#[verifier::external_body]
fn archive_len(archive: &ZipArchive<Cursor<Vec<u8>>>) -> (n: usize)
    ensures
        n == zip_entry_count(archive_bytes(*archive)),
{
    archive.len()
}

/// The header of an entry: its enclosed name as components, and whether it
/// is a folder.
pub struct EntryHeader {
    pub parts: Option<Vec<String>>,
    pub is_dir: bool,
}

pub open spec fn parts_view(p: Option<Vec<String>>) -> Option<Seq<Seq<char>>> {
    match p {
        Some(v) => Some(v@.map_values(|s: String| s@)),
        None => None,
    }
}

/// `ZipArchive::by_index`, then `ZipFile::enclosed_name` (split into its
/// components) and `ZipFile::is_dir`. The archive keeps its bytes; the result
/// is named as a function of the bytes and the index.
#[verifier::external_body]
fn read_entry_header(archive: &mut ZipArchive<Cursor<Vec<u8>>>, index: usize) -> (r: Result<EntryHeader, String>)
    ensures
        archive_bytes(*final(archive)) == archive_bytes(*old(archive)),
        match r {
            Ok(h) => zip_entry_header(archive_bytes(*old(archive)), index as int) == Ok::<
                (Option<Seq<Seq<char>>>, bool),
                Seq<char>,
            >((parts_view(h.parts), h.is_dir)),
            Err(e) => zip_entry_header(archive_bytes(*old(archive)), index as int) == Err::<
                (Option<Seq<Seq<char>>>, bool),
                Seq<char>,
            >(e@),
        },
{
    let file = archive.by_index(index).map_err(|e| e.to_string())?;
    let parts = file.enclosed_name().map(|p| p.iter().map(|c| c.to_string_lossy().into_owned()).collect());
    Ok(EntryHeader { parts, is_dir: file.is_dir() })
}

/// `ZipArchive::by_index`, then `Read::read_to_end` on the entry, which on
/// an error has appended the bytes read before it (as std documents). The
/// archive keeps its bytes; the result is named as a function of the bytes
/// and the index.
#[verifier::external_body]
fn read_entry_data(archive: &mut ZipArchive<Cursor<Vec<u8>>>, index: usize) -> (r: Result<Vec<u8>, (Option<Vec<u8>>, String)>)
    ensures
        archive_bytes(*final(archive)) == archive_bytes(*old(archive)),
        zip_entry_data(archive_bytes(*old(archive)), index as int) == data_view(r),
{
    let mut file = archive.by_index(index).map_err(|e| (None, e.to_string()))?;
    let mut data = Vec::new();
    match file.read_to_end(&mut data) {
        Ok(_) => Ok(data),
        Err(e) => Err((Some(data), e.to_string())),
    }
}

pub open spec fn data_view(r: Result<Vec<u8>, (Option<Vec<u8>>, String)>) -> Result<Seq<u8>, (Option<Seq<u8>>, Seq<char>)> {
    match r {
        Ok(d) => Ok(d@),
        Err((p, e)) => Err(
            (
                match p {
                    Some(v) => Some(v@),
                    None => None,
                },
                e@,
            ),
        ),
    }
}

/// A folder to create or a file to write.
pub struct ZipOutput {
    pub path: String,
    pub is_dir: bool,
    pub data: Vec<u8>,
    /// The progress to report once it is written; `None` for a file left
    /// partly written by the error that ends the extraction.
    pub percent: Option<u8>,
}

pub struct ZipOutputView {
    pub path: Seq<char>,
    pub is_dir: bool,
    pub data: Seq<u8>,
    pub percent: Option<u8>,
}

impl View for ZipOutput {
    type V = ZipOutputView;

    open spec fn view(&self) -> ZipOutputView {
        ZipOutputView { path: self.path@, is_dir: self.is_dir, data: self.data@, percent: self.percent }
    }
}

/// The outputs of an archive in entry order, and the error that stopped the
/// extraction, if one did: the outputs before it are written all the same.
pub struct ZipExtraction {
    pub outputs: Vec<ZipOutput>,
    pub error: Option<String>,
}

pub open spec fn outputs_view(v: Seq<ZipOutput>) -> Seq<ZipOutputView> {
    v.map_values(|o: ZipOutput| o@)
}

/// The progress after entry `index` of `count`: from 62 up to 88.
pub open spec fn zip_percent(index: int, count: nat) -> u8 {
    let total = if count == 0 {
        1
    } else {
        count as int
    };
    let part = (index + 1) * 26 / total;
    (62 + if part < 26 {
        part
    } else {
        26
    }) as u8
}

/// The first `n` entries of an archive unpacked into `target`: entries whose
/// name would leave the target are skipped; folders are created; files are
/// written with their contents; the first error ends the extraction, and a
/// file whose contents could not be read to the end is written with the
/// bytes read before the error (as copying the entry leaves it).
pub open spec fn extraction(bytes: Seq<u8>, target: Seq<char>, n: nat) -> (Seq<ZipOutputView>, Option<Seq<char>>)
    decreases n,
{
    if n == 0 {
        (Seq::empty(), None)
    } else {
        let (outs, err) = extraction(bytes, target, (n - 1) as nat);
        let i = n - 1;
        let percent = zip_percent(i, zip_entry_count(bytes));
        if err is Some {
            (outs, err)
        } else {
            match zip_entry_header(bytes, i) {
                Err(e) => (outs, Some(e)),
                Ok((None, _)) => (outs, None),
                Ok((Some(parts), true)) => (
                    outs.push(ZipOutputView { path: path_join_all(target, parts), is_dir: true, data: Seq::empty(), percent: Some(percent) }),
                    None,
                ),
                Ok((Some(parts), false)) => match zip_entry_data(bytes, i) {
                    Err((None, e)) => (outs, Some(e)),
                    Err((Some(partial), e)) => (
                        outs.push(ZipOutputView { path: path_join_all(target, parts), is_dir: false, data: partial, percent: None }),
                        Some(e),
                    ),
                    Ok(d) => (
                        outs.push(ZipOutputView { path: path_join_all(target, parts), is_dir: false, data: d, percent: Some(percent) }),
                        None,
                    ),
                },
            }
        }
    }
}

/// What unpacking the archive `bytes` into `target` gives: the error of
/// opening it, or its outputs and the error that stopped it, if any.
pub open spec fn unpacked(bytes: Seq<u8>, target: Seq<char>) -> Result<(Seq<ZipOutputView>, Option<Seq<char>>), Seq<char>> {
    match zip_open_result(bytes) {
        Err(e) => Err(e),
        Ok(_) => Ok(extraction(bytes, target, zip_entry_count(bytes))),
    }
}

pub open spec fn extraction_view(r: Result<ZipExtraction, String>) -> Result<(Seq<ZipOutputView>, Option<Seq<char>>), Seq<char>> {
    match r {
        Ok(x) => Ok((outputs_view(x.outputs@), match x.error {
            Some(e) => Some(e@),
            None => None,
        })),
        Err(e) => Err(e@),
    }
}

/// Once an error stopped the extraction, later entries change nothing.
proof fn lemma_extraction_stops(bytes: Seq<u8>, target: Seq<char>, k: nat, n: nat)
    requires
        k <= n,
        extraction(bytes, target, k).1 is Some,
    ensures
        extraction(bytes, target, n) == extraction(bytes, target, k),
    decreases n - k,
{
    if k < n {
        lemma_extraction_stops(bytes, target, k, (n - 1) as nat);
    }
}

fn join_parts(target: &str, parts: &Vec<String>) -> (r: String)
    ensures
        r@ == path_join_all(target@, parts@.map_values(|s: String| s@)),
{
    let ghost pv = parts@.map_values(|s: String| s@);
    let mut out = target.to_owned();
    let mut i: usize = 0;
    while i < parts.len()
        invariant
            i <= parts.len(),
            pv == parts@.map_values(|s: String| s@),
            out@ == path_join_all(target@, pv.take(i as int)),
        decreases parts.len() - i,
    {
        out = crate::paths::join_path(out.as_str(), parts[i].as_str());
        i += 1;
        assert(pv.take(i as int).drop_last() =~= pv.take(i - 1));
    }
    assert(pv.take(parts.len() as int) =~= pv);
    out
}

fn percent_after(index: usize, count: usize) -> (r: u8)
    requires
        index < count,
    ensures
        r == zip_percent(index as int, count as nat),
{
    let total: u128 = count as u128;
    let part: u128 = (index as u128 + 1) * 26 / total;
    let p: u128 = if part < 26 {
        part
    } else {
        26
    };
    (62 + p) as u8
}

/// Unpacks the zip archive `bytes` into the folder `target`. The caller
/// writes the outputs in order, reporting each one's progress, then reports
/// 88, or stops with the error.
pub fn extract_zip_with_progress(bytes: Vec<u8>, target: &str) -> (r: Result<ZipExtraction, String>)
    ensures
        extraction_view(r) == unpacked(bytes@, target@),
{
    let ghost b = bytes@;
    let mut archive = match open_archive(&bytes) {
        Ok(a) => a,
        Err(e) => return Err(e),
    };
    let count = archive_len(&archive);
    let mut outputs: Vec<ZipOutput> = Vec::new();
    let mut index: usize = 0;
    while index < count
        invariant
            index <= count,
            count == zip_entry_count(b),
            b == bytes@,
            archive_bytes(archive) == b,
            zip_open_result(b) is Ok,
            extraction(b, target@, index as nat) == (outputs_view(outputs@), None::<Seq<char>>),
        decreases count - index,
    {
        let percent = percent_after(index, count);
        let header = match read_entry_header(&mut archive, index) {
            Ok(h) => h,
            Err(e) => {
                proof {
                    assert(zip_entry_header(b, index as int) == Err::<(Option<Seq<Seq<char>>>, bool), Seq<char>>(e@));
                    assert(extraction(b, target@, (index + 1) as nat) == (outputs_view(outputs@), Some(e@)));
                    lemma_extraction_stops(b, target@, (index + 1) as nat, count as nat);
                    assert(unpacked(b, target@) == Ok::<(Seq<ZipOutputView>, Option<Seq<char>>), Seq<char>>(extraction(b, target@, count as nat)));
                }
                let ghost ov = outputs_view(outputs@);
                let r = Ok(ZipExtraction { outputs, error: Some(e) });
                assert(extraction_view(r) == Ok::<(Seq<ZipOutputView>, Option<Seq<char>>), Seq<char>>((ov, Some(e@))));
                assert(extraction(b, target@, count as nat) == (ov, Some(e@)));
                assert(extraction_view(r) == unpacked(b, target@));
                return r;
            },
        };
        match header.parts {
            None => {},
            Some(parts) => {
                let path = join_parts(target, &parts);
                if header.is_dir {
                    let ghost before = outputs_view(outputs@);
                    outputs.push(ZipOutput { path, is_dir: true, data: Vec::new(), percent: Some(percent) });
                    assert(outputs_view(outputs@) =~= before.push(outputs@.last()@));
                } else {
                    let data = match read_entry_data(&mut archive, index) {
                        Ok(d) => d,
                        Err((partial, e)) => {
                            match partial {
                                Some(p) => {
                                    let ghost before = outputs_view(outputs@);
                                    outputs.push(ZipOutput { path, is_dir: false, data: p, percent: None });
                                    assert(outputs_view(outputs@) =~= before.push(outputs@.last()@));
                                },
                                None => {},
                            }
                            proof {
                                assert(extraction(b, target@, (index + 1) as nat) == (outputs_view(outputs@), Some(e@)));
                                lemma_extraction_stops(b, target@, (index + 1) as nat, count as nat);
                            }
                            let ghost ov = outputs_view(outputs@);
                            let r = Ok(ZipExtraction { outputs, error: Some(e) });
                            assert(extraction_view(r) == Ok::<(Seq<ZipOutputView>, Option<Seq<char>>), Seq<char>>((ov, Some(e@))));
                            assert(extraction(b, target@, count as nat) == (ov, Some(e@)));
                            assert(extraction_view(r) == unpacked(b, target@));
                            return r;
                        },
                    };
                    let ghost before = outputs_view(outputs@);
                    outputs.push(ZipOutput { path, is_dir: false, data, percent: Some(percent) });
                    assert(outputs_view(outputs@) =~= before.push(outputs@.last()@));
                }
            },
        }
        index += 1;
    }
    Ok(ZipExtraction { outputs, error: None })
}

/// Unpacks the zip archive `bytes` into `target` (see `extract_zip_with_progress`).
pub fn extract_zip(bytes: Vec<u8>, target: &str) -> (r: Result<ZipExtraction, String>)
    ensures
        extraction_view(r) == unpacked(bytes@, target@),
{
    extract_zip_with_progress(bytes, target)
}

/// Unpacks the zip archive `bytes` into `target` (see `extract_zip_with_progress`).
pub fn expand_zip(bytes: Vec<u8>, target: &str) -> (r: Result<ZipExtraction, String>)
    ensures
        extraction_view(r) == unpacked(bytes@, target@),
{
    extract_zip(bytes, target)
}

/// Unpacks the zip archive `bytes` into `target` (see `extract_zip_with_progress`).
pub fn expand_zip_with_progress(bytes: Vec<u8>, target: &str) -> (r: Result<ZipExtraction, String>)
    ensures
        extraction_view(r) == unpacked(bytes@, target@),
{
    extract_zip_with_progress(bytes, target)
}


/// The progress reported while unpacking stays between 62 and 88 and never
/// goes back from one entry to a later one.
pub proof fn law_zip_percent_bounded_and_monotone(i: int, j: int, count: nat)
    requires
        0 <= i <= j,
    ensures
        62 <= zip_percent(i, count) <= 88,
        zip_percent(i, count) <= zip_percent(j, count),
{
    let total = if count == 0 {
        1
    } else {
        count as int
    };
    assert((i + 1) * 26 <= (j + 1) * 26);
    vstd::arithmetic::div_mod::lemma_div_is_ordered((i + 1) * 26, (j + 1) * 26, total);
    assert((i + 1) * 26 / total >= 0) by {
        vstd::arithmetic::div_mod::lemma_div_pos_is_pos((i + 1) * 26, total);
    }
}
} // verus!
