//! Cleaning a package: which of its generated data and caches go, and the
//! report of what was removed.

use vstd::prelude::*;
use crate::schema::{bool_string, bool_text};
use crate::text::{decimal, usize_to_decimal};

verus! {

/// What to clean: generated data, caches (and saved failures), or both.
#[derive(Clone, Debug)]
pub struct CleanOptions {
    pub work_dir: String,
    pub data: bool,
    pub cache: bool,
}

/// What a clean removed.
#[derive(Clone, Debug)]
pub struct CleanReport {
    pub work_dir: String,
    pub data_files_removed: usize,
    pub cache_removed: bool,
    pub failures_removed: bool,
    pub paths_removed: Vec<String>,
}

/// The line printed after a clean.
pub open spec fn clean_summary_text(r: CleanReport) -> Seq<char> {
    "cleaned data_files="@ + decimal(r.data_files_removed as nat) + " cache_removed="@ + bool_text(
        r.cache_removed,
    ) + " failures_removed="@ + bool_text(r.failures_removed)
}

impl CleanReport {
    /// A report of nothing removed yet.
    pub fn new(work_dir: String) -> (r: CleanReport)
        ensures
            r.work_dir == work_dir,
            r.data_files_removed == 0,
            !r.cache_removed,
            !r.failures_removed,
            r.paths_removed@.len() == 0,
    {
        CleanReport {
            work_dir,
            data_files_removed: 0,
            cache_removed: false,
            failures_removed: false,
            paths_removed: Vec::new(),
        }
    }

    /// The line printed after a clean.
    pub fn summary_line(&self) -> (s: String)
        ensures
            s@ == clean_summary_text(*self),
    {
        proof {
            reveal_strlit("cleaned data_files=");
            reveal_strlit(" cache_removed=");
            reveal_strlit(" failures_removed=");
        }
        let mut s = String::from_str("cleaned data_files=");
        s.append(usize_to_decimal(self.data_files_removed).as_str());
        s.append(" cache_removed=");
        s.append(bool_string(self.cache_removed).as_str());
        s.append(" failures_removed=");
        s.append(bool_string(self.failures_removed).as_str());
        s
    }

    /// Records a removed data file.
    pub fn data_file_removed(&mut self, path: String)
        requires
            old(self).data_files_removed < usize::MAX,
        ensures
            final(self).data_files_removed == old(self).data_files_removed + 1,
            final(self).paths_removed@ == old(self).paths_removed@.push(path),
            final(self).cache_removed == old(self).cache_removed,
            final(self).failures_removed == old(self).failures_removed,
            final(self).work_dir == old(self).work_dir,
    {
        self.data_files_removed = self.data_files_removed + 1;
        self.paths_removed.push(path);
    }

    /// Records the removed cache directory.
    pub fn cache_dir_removed(&mut self, path: String)
        ensures
            final(self).cache_removed,
            final(self).paths_removed@ == old(self).paths_removed@.push(path),
            final(self).data_files_removed == old(self).data_files_removed,
            final(self).failures_removed == old(self).failures_removed,
            final(self).work_dir == old(self).work_dir,
    {
        self.cache_removed = true;
        self.paths_removed.push(path);
    }

    /// Records the removed directory of saved failures.
    pub fn failures_dir_removed(&mut self, path: String)
        ensures
            final(self).failures_removed,
            final(self).paths_removed@ == old(self).paths_removed@.push(path),
            final(self).data_files_removed == old(self).data_files_removed,
            final(self).cache_removed == old(self).cache_removed,
            final(self).work_dir == old(self).work_dir,
    {
        self.failures_removed = true;
        self.paths_removed.push(path);
    }
}

/// What a clean covers: data unless only the cache was asked for, and the
/// cache (with saved failures) unless only data was asked for.
pub fn clean_targets(options: &CleanOptions) -> (r: (bool, bool))
    ensures
        r.0 == (options.data || !options.cache),
        r.1 == (options.cache || !options.data),
{
    (options.data || !options.cache, options.cache || !options.data)
}

/// A generated data file: an `.in` or `.ans` file.
pub open spec fn data_extension(ext: Option<Seq<char>>) -> bool {
    ext == Some("in"@) || ext == Some("ans"@)
}

/// Law: a file is generated data exactly when its extension is `in` (a
/// case input) or `ans` (a case answer); so both kinds of case files go in
/// a data clean, and files without an extension stay.
pub proof fn lemma_data_extensions(ext: Option<Seq<char>>)
    ensures
        data_extension(ext) <==> (ext == Some("in"@) || ext == Some("ans"@)),
        data_extension(Some("in"@)),
        data_extension(Some("ans"@)),
        !data_extension(None),
{
}

/// Whether a file with this extension is generated data.
pub fn is_data_file(extension: Option<&str>) -> (b: bool)
    ensures
        b == data_extension(
            match extension {
                Some(e) => Some(e@),
                None => None,
            },
        ),
{
    proof {
        reveal_strlit("in");
        reveal_strlit("ans");
    }
    match extension {
        Some(e) => {
            let e = e.to_string();
            e == String::from_str("in") || e == String::from_str("ans")
        },
        None => false,
    }
}

/// The message of a clean refused because data generation is running.
pub fn generation_in_progress_message(marker_path: &str) -> (s: String)
    ensures
        s@ == "data generation is in progress: "@ + marker_path@
            + "; refusing to clean data files"@,
{
    proof {
        reveal_strlit("data generation is in progress: ");
        reveal_strlit("; refusing to clean data files");
    }
    let mut s = String::from_str("data generation is in progress: ");
    s.append(marker_path);
    s.append("; refusing to clean data files");
    s
}

} // verus!
