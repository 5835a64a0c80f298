//! Which files a traversal keeps.
//!
//! Walking the directory tree is the caller's work.  What is decided here is
//! whether a path that was met belongs to the scan.

use vstd::prelude::*;
use crate::config::Config;
use crate::detector::language::{extension, extension_of};
use crate::text::{clone_strings, contains_string, has_string, string_of};

verus! {

/// What a [`FileEntry`] holds, as plain values.
pub struct FileEntrySpec {
    pub path: Seq<char>,
    pub extension: Option<Seq<char>>,
}

/// A file entry from walking the directory tree.
#[derive(Debug)]
pub struct FileEntry {
    /// Full path to the file.
    pub path: String,
    /// File extension with leading dot.
    pub extension: Option<String>,
}

impl DeepView for FileEntry {
    type V = FileEntrySpec;

    open spec fn deep_view(&self) -> FileEntrySpec {
        FileEntrySpec { path: self.path@, extension: self.extension.deep_view() }
    }
}

/// The extension of a path with its leading dot.
pub open spec fn dotted_extension(path: Seq<char>) -> Option<Seq<char>> {
    match extension_of(path) {
        Some(ext) => Some(seq!['.'] + ext),
        None => None,
    }
}

/// Whether a traversal for the extensions `wanted` keeps the file at `path`:
/// `*` keeps every file, else the file's dotted extension must be listed.
pub open spec fn keeps(wanted: Seq<Seq<char>>, path: Seq<char>) -> bool {
    has_string(wanted, seq!['*']) || (dotted_extension(path) is Some && has_string(
        wanted,
        dotted_extension(path)->0,
    ))
}

/// Parallel file walker.
pub struct Walker {
    /// File extensions to scan.
    pub extensions: Vec<String>,
    /// Maximum file size in bytes.
    pub max_file_size: u64,
}

impl Walker {
    /// Create a new walker.
    pub fn new(config: &Config) -> (w: Self)
        requires
            config.max_file_size_kb * 1024 <= u64::MAX,
        ensures
            w.extensions.deep_view() == config.file_extensions.deep_view(),
            w.max_file_size == config.max_file_size_kb * 1024,
    {
        Walker {
            extensions: clone_strings(&config.file_extensions),
            max_file_size: config.max_file_size_kb * 1024,
        }
    }

    /// Create a new walker, unless the size limit in bytes does not fit.
    pub fn try_new(config: &Config) -> (w: Option<Self>)
        ensures
            w is Some <==> config.max_file_size_kb * 1024 <= u64::MAX,
            w matches Some(x) ==> x.extensions.deep_view() == config.file_extensions.deep_view()
                && x.max_file_size == config.max_file_size_kb * 1024,
    {
        if config.max_file_size_kb <= u64::MAX / 1024 {
            Some(Walker::new(config))
        } else {
            None
        }
    }

    /// Check if a path matches the configured extensions.
    pub fn matches_extension(&self, path: &str) -> (r: bool)
        ensures
            r == keeps(self.extensions.deep_view(), path@),
    {
        let star = contains_string(&self.extensions, "*");
        proof {
            reveal_strlit("*");
            assert("*"@ =~= seq!['*']);
        }
        if star {
            return true;
        }
        match Self::get_extension(path) {
            Some(ext) => contains_string(&self.extensions, ext.as_str()),
            None => false,
        }
    }

    /// Get the extension with leading dot.
    pub fn get_extension(path: &str) -> (ext: Option<String>)
        ensures
            ext.deep_view() == dotted_extension(path@),
    {
        match extension(path) {
            Some(e) => {
                let mut out = String::new();
                out.push('.');
                let tail = string_of(&e);
                out.push_str(tail.as_str());
                assert(out@ =~= seq!['.'] + e@);
                Some(out)
            },
            None => None,
        }
    }

    /// The entry for a path that the traversal met, where it is kept.
    pub fn entry_for(&self, path: &str) -> (entry: Option<FileEntry>)
        ensures
            entry is Some <==> keeps(self.extensions.deep_view(), path@),
            entry matches Some(e) ==> e.deep_view() == (FileEntrySpec {
                path: path@,
                extension: dotted_extension(path@),
            }),
    {
        if self.matches_extension(path) {
            Some(FileEntry { path: path.to_owned(), extension: Self::get_extension(path) })
        } else {
            None
        }
    }
}

} // verus!
