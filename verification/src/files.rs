//! Value-level bookkeeping for the files the tool works on: which names count
//! as SVG files, how backup names are formed, and the state of each file as
//! it is optimized and compressed.
//!
//! All file reading and writing stays with the caller; these types hold the
//! paths, the document text and the sizes as plain values.

use std::fmt::Write;

use vstd::prelude::*;

use crate::optimize::{default_optimize_content, optimize_spec, patterns_valid};
use crate::strutil::push_char;
use crate::subtags::str_chars;
use crate::svgz::gzip_bytes;

verus! {

// ---------------------------------------------------------------------------
// SVG file names
// ---------------------------------------------------------------------------

/// A file name that denotes an SVG document: either the bare hidden name
/// `.svg`, or any longer name ending in `.svg`.
pub open spec fn is_svg_name(name: Seq<char>) -> bool {
    name == seq!['.', 's', 'v', 'g'] || (name.len() > 4 && name.skip(name.len() - 4) == seq![
        '.',
        's',
        'v',
        'g',
    ])
}

/// Whether `file_name` (the last path component; whether it names a regular
/// file is the caller's to check) denotes an SVG document.
pub fn is_svg_file(file_name: &str) -> (r: bool)
    ensures
        r == is_svg_name(file_name@),
{
    let v = str_chars(file_name);
    let n = v.len();
    if n < 4 {
        proof {
            assert(!is_svg_name(file_name@));
        }
        return false;
    }
    let r = v[n - 4] == '.' && v[n - 3] == 's' && v[n - 2] == 'v' && v[n - 1] == 'g';
    proof {
        if r {
            if n == 4 {
                assert(file_name@ =~= seq!['.', 's', 'v', 'g']);
            } else {
                assert(file_name@.skip(file_name@.len() - 4) =~= seq!['.', 's', 'v', 'g']);
            }
        } else {
            assert(!(file_name@ =~= seq!['.', 's', 'v', 'g']));
            if file_name@.len() > 4 {
                assert(!(file_name@.skip(file_name@.len() - 4) =~= seq!['.', 's', 'v', 'g']));
            }
        }
    }
    r
}

// ---------------------------------------------------------------------------
// Temporary-directory and backup names
// ---------------------------------------------------------------------------

/// Whether chrono can render a format string, a property of the format string
/// alone.
pub uninterp spec fn time_format_valid(fmt: Seq<char>) -> bool;

/// Relies on chrono::Local::now and chrono's strftime-style formatting: the
/// current local time rendered with `fmt`, or nothing where the format string
/// is invalid.  What the text reads depends on the clock, so nothing is
/// stated of it.
#[verifier::external_body]
fn local_time_string(fmt: &str) -> (r: Option<String>)
    ensures
        r is Some <==> time_format_valid(fmt@),
{
    let mut s = String::new();
    match write!(s, "{}", chrono::Local::now().format(fmt)) {
        Ok(()) => Some(s),
        Err(_) => None,
    }
}

pub const TIMESTAMP_FORMAT: &'static str = "%Y-%m-%d_%H-%M-%S_%f";

pub const TEMP_DIR_PREFIX: &'static str = "svgc_temp_files_";

/// A fresh name for the backup directory: the fixed prefix and a timestamp of
/// the current local time, down to nanoseconds.
pub fn generate_temp_dir_name() -> (r: Option<String>)
    ensures
        r is Some <==> time_format_valid(TIMESTAMP_FORMAT@),
        r matches Some(name) ==> name@.len() >= TEMP_DIR_PREFIX@.len() && name@.take(
            TEMP_DIR_PREFIX@.len() as int,
        ) == TEMP_DIR_PREFIX@,
{
    match local_time_string(TIMESTAMP_FORMAT) {
        Some(ts) => {
            let mut name = String::new();
            name.append(TEMP_DIR_PREFIX);
            name.append(ts.as_str());
            proof {
                assert(name@.take(TEMP_DIR_PREFIX@.len() as int) =~= TEMP_DIR_PREFIX@);
            }
            Some(name)
        },
        None => None,
    }
}

/// The name of the backup copy of a file: its stem, a timestamp, and its
/// original extension.
pub fn backup_file_name(stem: &str, timestamp: &str, extension: &str) -> (r: String)
    ensures
        r@ == stem@ + seq!['_'] + timestamp@ + seq!['.'] + extension@,
{
    let mut name = String::new();
    name.append(stem);
    push_char(&mut name, '_');
    name.append(timestamp);
    push_char(&mut name, '.');
    name.append(extension);
    proof {
        assert(name@ =~= stem@ + seq!['_'] + timestamp@ + seq!['.'] + extension@);
    }
    name
}

// ---------------------------------------------------------------------------
// One SVG file
// ---------------------------------------------------------------------------

/// The byte length of a text in its UTF-8 encoding, as the machine reports
/// it.
pub open spec fn byte_len64(s: Seq<char>) -> u64 {
    (vstd::utf8::encode_utf8(s).len() as usize) as u64
}

/// The state of one file under work.
pub ghost struct SvgFileView {
    pub original_path: Seq<char>,
    pub backup_path: Seq<char>,
    pub content: Seq<char>,
    pub compressed: Option<Seq<u8>>,
    pub result_path: Option<Seq<char>>,
    pub original_size: u64,
    pub result_size: Option<u64>,
}

/// One SVG file: its paths, its document text, and what has been computed of
/// it so far.  The file on disk is the caller's; this value records the work.
pub struct SvgFile {
    original_path: String,
    backup_path: String,
    content: String,
    compressed: Option<Vec<u8>>,
    result_path: Option<String>,
    original_size: u64,
    result_size: Option<u64>,
}

impl View for SvgFile {
    type V = SvgFileView;

    closed spec fn view(&self) -> SvgFileView {
        SvgFileView {
            original_path: self.original_path@,
            backup_path: self.backup_path@,
            content: self.content@,
            compressed: match self.compressed {
                Some(v) => Some(v@),
                None => None,
            },
            result_path: match self.result_path {
                Some(p) => Some(p@),
                None => None,
            },
            original_size: self.original_size,
            result_size: self.result_size,
        }
    }
}

impl DeepView for SvgFile {
    type V = SvgFileView;

    open spec fn deep_view(&self) -> SvgFileView {
        self.view()
    }
}

/// `g` is `f` with its text optimized.
pub open spec fn optimized_of(g: SvgFileView, f: SvgFileView, remove_fill: bool) -> bool {
    g == SvgFileView { content: optimize_spec(f.content, remove_fill), ..f }
}

/// `g` is `f` after compression: the gzip output recorded, and the result
/// path the original path with `z` appended.
pub open spec fn compressed_of(g: SvgFileView, f: SvgFileView) -> bool {
    &&& g.compressed is Some
    &&& g == SvgFileView {
        compressed: g.compressed,
        result_path: Some(f.original_path.push('z')),
        ..f
    }
}

/// The size of the file's result: the compressed byte count where compression
/// happened, and the byte length of the (possibly optimized) text otherwise.
pub open spec fn measured_size(f: SvgFileView) -> u64 {
    match f.compressed {
        Some(v) => v.len() as u64,
        None => byte_len64(f.content),
    }
}

/// `g` is `f` with its result size on record.
pub open spec fn sized_of(g: SvgFileView, f: SvgFileView) -> bool {
    if f.result_size is Some {
        g == f
    } else {
        g == SvgFileView { result_size: Some(measured_size(f)), ..f }
    }
}

impl SvgFile {
    /// Takes a file up for work: its path, the path its backup copy is kept
    /// at, and its text.  The original size is the byte length of the text as
    /// read.
    pub fn new(original_path: String, backup_path: String, content: String) -> (r: Self)
        ensures
            r@ == (SvgFileView {
                original_path: original_path@,
                backup_path: backup_path@,
                content: content@,
                compressed: None,
                result_path: None,
                original_size: byte_len64(content@),
                result_size: None,
            }),
    {
        let original_size = content.as_str().len() as u64;
        SvgFile {
            original_path,
            backup_path,
            content,
            compressed: None,
            result_path: None,
            original_size,
            result_size: None,
        }
    }

    /// Rewrites the document text by the default optimization chain.
    /// Succeeds whenever the chain's fixed patterns compile (they do); a
    /// failure leaves the file untouched.
    pub fn apply_default_optimizations(&mut self, remove_fill: bool) -> (ok: bool)
        ensures
            patterns_valid() ==> ok,
            ok ==> optimized_of(final(self)@, old(self)@, remove_fill),
            !ok ==> final(self)@ == old(self)@,
    {
        match default_optimize_content(self.content.as_str(), remove_fill) {
            Some(out) => {
                self.content = out;
                true
            },
            None => false,
        }
    }

    /// Gzip-compresses the document text, recording the compressed bytes and
    /// the `.svgz` result path.  A failure of the in-memory encoder leaves
    /// the file untouched.
    pub fn compress(&mut self) -> (ok: bool)
        ensures
            ok ==> compressed_of(final(self)@, old(self)@),
            !ok ==> final(self)@ == old(self)@,
    {
        match gzip_bytes(self.content.as_str().as_bytes()) {
            Some(v) => {
                self.compressed = Some(v);
                let mut p = self.original_path.clone();
                push_char(&mut p, 'z');
                self.result_path = Some(p);
                true
            },
            None => false,
        }
    }

    /// Records the result size, once: a later call never changes it.
    pub fn calculate_result_size(&mut self)
        ensures
            sized_of(final(self)@, old(self)@),
    {
        if self.result_size.is_none() {
            let n: u64 = match &self.compressed {
                Some(v) => v.len() as u64,
                None => self.content.as_str().len() as u64,
            };
            self.result_size = Some(n);
        }
    }

    pub fn original_path(&self) -> (r: &str)
        ensures
            r@ == self@.original_path,
    {
        self.original_path.as_str()
    }

    pub fn backup_path(&self) -> (r: &str)
        ensures
            r@ == self@.backup_path,
    {
        self.backup_path.as_str()
    }

    pub fn result_path(&self) -> (r: Option<&str>)
        ensures
            r is Some <==> self@.result_path is Some,
            r matches Some(p) ==> self@.result_path == Some(p@),
    {
        match &self.result_path {
            Some(p) => Some(p.as_str()),
            None => None,
        }
    }

    pub fn original_size(&self) -> (r: u64)
        ensures
            r == self@.original_size,
    {
        self.original_size
    }

    pub fn result_size(&self) -> (r: Option<u64>)
        ensures
            r == self@.result_size,
    {
        self.result_size
    }

    /// The document text as it now stands.
    pub fn content(&self) -> (r: &str)
        ensures
            r@ == self@.content,
    {
        self.content.as_str()
    }

    /// The compressed bytes, where compression has happened.
    pub fn compressed_data(&self) -> (r: Option<&Vec<u8>>)
        ensures
            r is Some <==> self@.compressed is Some,
            r matches Some(v) ==> self@.compressed == Some(v@),
    {
        match &self.compressed {
            Some(v) => Some(v),
            None => None,
        }
    }
}

// ---------------------------------------------------------------------------
// A group of SVG files sharing one backup directory
// ---------------------------------------------------------------------------

pub ghost struct SvgFileGroupView {
    pub files: Seq<SvgFileView>,
    pub backup_dir: Seq<char>,
    pub auto_delete_backups: bool,
}

/// The files under work together, the directory their backup copies live in,
/// and whether those copies are to be cleaned up when the work ends well.
pub struct SvgFileGroup {
    files: Vec<SvgFile>,
    backup_dir: String,
    auto_delete_backups: bool,
}

impl View for SvgFileGroup {
    type V = SvgFileGroupView;

    closed spec fn view(&self) -> SvgFileGroupView {
        SvgFileGroupView {
            files: self.files.deep_view(),
            backup_dir: self.backup_dir@,
            auto_delete_backups: self.auto_delete_backups,
        }
    }
}

/// The total of the files' original sizes, saturating at the top.
pub open spec fn total_original_size(files: Seq<SvgFileView>) -> u64
    decreases files.len(),
{
    if files.len() == 0 {
        0
    } else {
        total_original_size(files.drop_last()).saturating_add(files.last().original_size)
    }
}

/// The total of the files' recorded result sizes, saturating at the top; a
/// file without a recorded size counts as zero.
pub open spec fn total_result_size(files: Seq<SvgFileView>) -> u64
    decreases files.len(),
{
    if files.len() == 0 {
        0
    } else {
        total_result_size(files.drop_last()).saturating_add(
            match files.last().result_size {
                Some(n) => n,
                None => 0,
            },
        )
    }
}

impl SvgFileGroup {
    /// Gathers files already taken up for work, with the directory their
    /// backups live in.
    pub fn new(files: Vec<SvgFile>, backup_dir: String, auto_delete_backups: bool) -> (r: Self)
        ensures
            r@ == (SvgFileGroupView {
                files: files.deep_view(),
                backup_dir: backup_dir@,
                auto_delete_backups,
            }),
    {
        SvgFileGroup { files, backup_dir, auto_delete_backups }
    }

    /// Rewrites every file's text by the default optimization chain, in list
    /// order, stopping at the first failure.  Succeeds whenever the chain's
    /// fixed patterns compile (they do).
    pub fn apply_default_optimizations(&mut self, remove_fill: bool) -> (ok: bool)
        ensures
            final(self)@.backup_dir == old(self)@.backup_dir,
            final(self)@.auto_delete_backups == old(self)@.auto_delete_backups,
            final(self)@.files.len() == old(self)@.files.len(),
            patterns_valid() ==> ok,
            ok ==> forall|k: int|
                0 <= k < old(self)@.files.len() ==> optimized_of(
                    #[trigger] final(self)@.files[k],
                    old(self)@.files[k],
                    remove_fill,
                ),
            forall|k: int|
                0 <= k < old(self)@.files.len() ==> (optimized_of(
                    #[trigger] final(self)@.files[k],
                    old(self)@.files[k],
                    remove_fill,
                ) || final(self)@.files[k] == old(self)@.files[k]),
    {
        let n = self.files.len();
        let mut i: usize = 0;
        while i < n
            invariant
                n == old(self)@.files.len(),
                i <= n,
                self@.backup_dir == old(self)@.backup_dir,
                self@.auto_delete_backups == old(self)@.auto_delete_backups,
                self@.files.len() == old(self)@.files.len(),
                forall|k: int|
                    0 <= k < i ==> optimized_of(
                        #[trigger] self@.files[k],
                        old(self)@.files[k],
                        remove_fill,
                    ),
                forall|k: int| i <= k < n ==> #[trigger] self@.files[k] == old(self)@.files[k],
            decreases n - i,
        {
            let ghost fs0 = self@.files;
            let ok = self.files[i].apply_default_optimizations(remove_fill);
            proof {
                assert forall|k: int| 0 <= k < fs0.len() && k != i implies #[trigger] self@.files[k]
                    == fs0[k] by {}
                if ok {
                    assert(optimized_of(self@.files[i as int], fs0[i as int], remove_fill));
                } else {
                    assert(self@.files[i as int] == fs0[i as int]);
                }
            }
            if !ok {
                return false;
            }
            i += 1;
        }
        true
    }

    /// The paths of the files, in list order, for handing to an external
    /// optimizer.
    pub fn apply_svgo(&self) -> (paths: Vec<String>)
        ensures
            paths@.len() == self@.files.len(),
            forall|k: int|
                0 <= k < self@.files.len() ==> #[trigger] paths@[k]@ == self@.files[k].original_path,
    {
        let mut paths: Vec<String> = Vec::new();
        let mut i: usize = 0;
        let n = self.files.len();
        while i < n
            invariant
                n == self@.files.len(),
                i <= n,
                paths@.len() == i,
                forall|k: int|
                    0 <= k < i ==> #[trigger] paths@[k]@ == self@.files[k].original_path,
            decreases n - i,
        {
            paths.push(self.files[i].original_path.clone());
            i += 1;
        }
        paths
    }

    /// Gzip-compresses every file, in list order, stopping at the first
    /// failure of the in-memory encoder.
    pub fn compress(&mut self) -> (ok: bool)
        ensures
            final(self)@.backup_dir == old(self)@.backup_dir,
            final(self)@.auto_delete_backups == old(self)@.auto_delete_backups,
            final(self)@.files.len() == old(self)@.files.len(),
            ok ==> forall|k: int|
                0 <= k < old(self)@.files.len() ==> compressed_of(
                    #[trigger] final(self)@.files[k],
                    old(self)@.files[k],
                ),
            forall|k: int|
                0 <= k < old(self)@.files.len() ==> (compressed_of(
                    #[trigger] final(self)@.files[k],
                    old(self)@.files[k],
                ) || final(self)@.files[k] == old(self)@.files[k]),
    {
        let n = self.files.len();
        let mut i: usize = 0;
        while i < n
            invariant
                n == old(self)@.files.len(),
                i <= n,
                self@.backup_dir == old(self)@.backup_dir,
                self@.auto_delete_backups == old(self)@.auto_delete_backups,
                self@.files.len() == old(self)@.files.len(),
                forall|k: int|
                    0 <= k < i ==> compressed_of(#[trigger] self@.files[k], old(self)@.files[k]),
                forall|k: int| i <= k < n ==> #[trigger] self@.files[k] == old(self)@.files[k],
            decreases n - i,
        {
            let ghost fs0 = self@.files;
            let ok = self.files[i].compress();
            proof {
                assert forall|k: int| 0 <= k < fs0.len() && k != i implies #[trigger] self@.files[k]
                    == fs0[k] by {}
                if ok {
                    assert(compressed_of(self@.files[i as int], fs0[i as int]));
                } else {
                    assert(self@.files[i as int] == fs0[i as int]);
                }
            }
            if !ok {
                return false;
            }
            i += 1;
        }
        true
    }

    /// Records every file's result size, once each.
    pub fn calculate_result_sizes(&mut self)
        ensures
            final(self)@.backup_dir == old(self)@.backup_dir,
            final(self)@.auto_delete_backups == old(self)@.auto_delete_backups,
            final(self)@.files.len() == old(self)@.files.len(),
            forall|k: int|
                0 <= k < old(self)@.files.len() ==> sized_of(
                    #[trigger] final(self)@.files[k],
                    old(self)@.files[k],
                ),
    {
        let n = self.files.len();
        let mut i: usize = 0;
        while i < n
            invariant
                n == old(self)@.files.len(),
                i <= n,
                self@.backup_dir == old(self)@.backup_dir,
                self@.auto_delete_backups == old(self)@.auto_delete_backups,
                self@.files.len() == old(self)@.files.len(),
                forall|k: int|
                    0 <= k < i ==> sized_of(#[trigger] self@.files[k], old(self)@.files[k]),
                forall|k: int| i <= k < n ==> #[trigger] self@.files[k] == old(self)@.files[k],
            decreases n - i,
        {
            let ghost fs0 = self@.files;
            self.files[i].calculate_result_size();
            proof {
                assert forall|k: int| 0 <= k < fs0.len() && k != i implies #[trigger] self@.files[k]
                    == fs0[k] by {}
                assert(sized_of(self@.files[i as int], fs0[i as int]));
            }
            i += 1;
        }
    }

    /// The grand totals of original and recorded result sizes, saturating at
    /// the top of the size type.
    pub fn total_sizes(&self) -> (r: (u64, u64))
        ensures
            r.0 == total_original_size(self@.files),
            r.1 == total_result_size(self@.files),
    {
        let mut before: u64 = 0;
        let mut after: u64 = 0;
        let n = self.files.len();
        let mut i: usize = 0;
        while i < n
            invariant
                n == self@.files.len(),
                i <= n,
                before == total_original_size(self@.files.take(i as int)),
                after == total_result_size(self@.files.take(i as int)),
            decreases n - i,
        {
            before = before.saturating_add(self.files[i].original_size());
            after = after.saturating_add(
                match self.files[i].result_size() {
                    Some(m) => m,
                    None => 0,
                },
            );
            proof {
                assert(self@.files.take(i + 1 as int).drop_last() =~= self@.files.take(i as int));
                assert(self@.files.take(i + 1 as int).last() == self@.files[i as int]);
            }
            i += 1;
        }
        proof {
            assert(self@.files.take(n as int) =~= self@.files);
        }
        (before, after)
    }

    /// The copies to make to put every file back as it was: each file's
    /// backup path paired with its original path.
    pub fn restore_files(&self) -> (pairs: Vec<(String, String)>)
        ensures
            pairs@.len() == self@.files.len(),
            forall|k: int|
                0 <= k < self@.files.len() ==> #[trigger] pairs@[k].0@ == self@.files[k].backup_path
                    && pairs@[k].1@ == self@.files[k].original_path,
    {
        let mut pairs: Vec<(String, String)> = Vec::new();
        let mut i: usize = 0;
        let n = self.files.len();
        while i < n
            invariant
                n == self@.files.len(),
                i <= n,
                pairs@.len() == i,
                forall|k: int|
                    0 <= k < i ==> #[trigger] pairs@[k].0@ == self@.files[k].backup_path
                        && pairs@[k].1@ == self@.files[k].original_path,
            decreases n - i,
        {
            pairs.push(
                (self.files[i].backup_path.clone(), self.files[i].original_path.clone()),
            );
            i += 1;
        }
        pairs
    }

    pub fn backup_dir(&self) -> (r: &str)
        ensures
            r@ == self@.backup_dir,
    {
        self.backup_dir.as_str()
    }

    pub fn is_auto_delete_backups(&self) -> (r: bool)
        ensures
            r == self@.auto_delete_backups,
    {
        self.auto_delete_backups
    }

    pub fn enable_auto_delete_backups(&mut self)
        ensures
            final(self)@ == (SvgFileGroupView { auto_delete_backups: true, ..old(self)@ }),
    {
        self.auto_delete_backups = true;
    }

    pub fn disable_auto_delete_backups(&mut self)
        ensures
            final(self)@ == (SvgFileGroupView { auto_delete_backups: false, ..old(self)@ }),
    {
        self.auto_delete_backups = false;
    }

    /// The files, for reading out paths, texts and results.
    pub fn files(&self) -> (r: &Vec<SvgFile>)
        ensures
            r.deep_view() == self@.files,
    {
        &self.files
    }
}

} // verus!
