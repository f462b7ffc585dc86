//! Candidate log files and the extension filter applied to a directory walk.
//!
//! The walk itself (and reading each file's metadata) is filesystem work
//! done by the caller; this module owns the selection logic: which paths
//! count as log files of a given kind.

use vstd::prelude::*;
use crate::domain::Timestamp;
use crate::text::{spec_after_last, spec_file_name, after_last};

verus! {

/// Metadata of one candidate file, as one scan observed it. Regenerated on
/// every scan; `modified_at` versions the file for the cache.
#[derive(Debug)]
pub struct FileInfo {
    pub path: String,
    pub created_at: Timestamp,
    pub modified_at: Timestamp,
    pub size: u64,
}

/// The mathematical value of a `FileInfo`.
pub ghost struct FileInfoView {
    pub path: Seq<char>,
    pub created_at: Timestamp,
    pub modified_at: Timestamp,
    pub size: u64,
}

impl View for FileInfo {
    type V = FileInfoView;

    open spec fn view(&self) -> FileInfoView {
        FileInfoView {
            path: self.path@,
            created_at: self.created_at,
            modified_at: self.modified_at,
            size: self.size,
        }
    }
}

impl DeepView for FileInfo {
    type V = FileInfoView;

    open spec fn deep_view(&self) -> FileInfoView {
        self.view()
    }
}

impl Clone for FileInfo {
    fn clone(&self) -> (r: Self)
        ensures
            r@ == self@,
    {
        FileInfo {
            path: self.path.clone(),
            created_at: self.created_at,
            modified_at: self.modified_at,
            size: self.size,
        }
    }
}

/// Whether `path` has file extension `ext`, as `Path::extension` decides
/// it: the part of the final component after its last dot, provided that
/// dot is neither the component's first character nor absent.
pub open spec fn spec_has_extension(path: Seq<char>, ext: Seq<char>) -> bool {
    let name = spec_file_name(path);
    let d = spec_after_last(name, '.');
    d > 1 && name.subrange(d, name.len() as int) == ext
}

/// Tests a path against a wanted extension.
pub fn has_extension(path: &str, ext: &str) -> (r: bool)
    ensures
        r == spec_has_extension(path@, ext@),
{
    let n = path.unicode_len();
    let start = after_last(path, '/');
    let name = path.substring_char(start, n);
    proof {
        assert(name@ == spec_file_name(path@));
    }
    let nl = name.unicode_len();
    let d = after_last(name, '.');
    if d <= 1 {
        return false;
    }
    let tail = name.substring_char(d, nl);
    proof {
        assert(tail@ == spec_file_name(path@).subrange(
            spec_after_last(spec_file_name(path@), '.'),
            spec_file_name(path@).len() as int,
        ));
    }
    crate::json::str_eq(tail, ext)
}

/// Enumerates log files under one root directory. The directory walk is
/// the caller's; the scanner holds the root and owns the path filter.
#[derive(Debug)]
pub struct FileScanner {
    pub root: String,
}

impl FileScanner {
    pub fn new(root: String) -> (r: Self)
        ensures
            r.root@ == root@,
    {
        FileScanner { root }
    }

    /// Selects the files of one walk of the root that this scanner
    /// accepts for JSON-document logs.
    pub fn scan_json_files(&self, files: Vec<FileInfo>) -> (r: Vec<FileInfo>)
        ensures
            r.deep_view() == spec_filter_ext(files.deep_view(), "json"@),
    {
        self.scan_files_with_extension(files, "json")
    }

    /// Selects the files of one walk of the root that this scanner
    /// accepts for line-delimited logs.
    pub fn scan_jsonl_files(&self, files: Vec<FileInfo>) -> (r: Vec<FileInfo>)
        ensures
            r.deep_view() == spec_filter_ext(files.deep_view(), "jsonl"@),
    {
        self.scan_files_with_extension(files, "jsonl")
    }

    /// Keeps exactly the walked files whose path carries the wanted
    /// extension, in walk order; the directory walk itself is the
    /// caller's filesystem work.
    pub fn scan_files_with_extension(&self, files: Vec<FileInfo>, ext: &str) -> (r: Vec<FileInfo>)
        ensures
            r.deep_view() == spec_filter_ext(files.deep_view(), ext@),
    {
        let mut r: Vec<FileInfo> = Vec::new();
        let mut i: usize = 0;
        while i < files.len()
            invariant
                i <= files.len(),
                r.deep_view() == spec_filter_ext(files.deep_view().take(i as int), ext@),
            decreases files.len() - i,
        {
            proof {
                assert(files.deep_view().take(i + 1).drop_last() =~= files.deep_view().take(
                    i as int,
                ));
                assert(files.deep_view().take(i + 1).last() == files.deep_view()[i as int]);
            }
            let ghost prev = r.deep_view();
            if has_extension(files[i].path.as_str(), ext) {
                let f = files[i].clone();
                r.push(f);
                proof {
                    assert(r.deep_view() =~= prev.push(files.deep_view()[i as int]));
                }
            }
            i += 1;
        }
        proof {
            assert(files.deep_view().take(files.deep_view().len() as int) =~= files.deep_view());
        }
        r
    }
}

/// One candidate file together with its raw bytes, as handed to a scan:
/// the filesystem read happens at the caller's edge, the pipeline works on
/// the bytes.
#[derive(Debug)]
pub struct ScannedFile {
    pub info: FileInfo,
    pub content: Vec<u8>,
}

/// The mathematical value of a `ScannedFile`.
pub ghost struct ScannedFileView {
    pub info: FileInfoView,
    pub content: Seq<u8>,
}

impl View for ScannedFile {
    type V = ScannedFileView;

    open spec fn view(&self) -> ScannedFileView {
        ScannedFileView { info: self.info@, content: self.content@ }
    }
}

impl DeepView for ScannedFile {
    type V = ScannedFileView;

    open spec fn deep_view(&self) -> ScannedFileView {
        self.view()
    }
}

/// The files whose path carries extension `ext`, in input order.
pub open spec fn spec_filter_ext(files: Seq<FileInfoView>, ext: Seq<char>) -> Seq<FileInfoView>
    decreases files.len(),
{
    if files.len() == 0 {
        Seq::empty()
    } else {
        let p = spec_filter_ext(files.drop_last(), ext);
        if spec_has_extension(files.last().path, ext) {
            p.push(files.last())
        } else {
            p
        }
    }
}

} // verus!
