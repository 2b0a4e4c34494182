//! Configuration bookkeeping.
//!
//! The configuration file itself is read and written by the program
//! around the library; this module holds the file's location and the
//! path arithmetic for the cached copy of the configured background
//! image: the file's name under the backgrounds directory.

use vstd::prelude::*;
use vstd::string::*;

verus! {

/// Whether a character separates path components.
pub open spec fn is_path_separator(c: char) -> bool {
    c == '\\' || c == '/'
}

/// Index of the first character after the last path separator; zero when
/// the path has none.
pub open spec fn file_name_start(s: Seq<char>) -> int
    decreases s.len(),
{
    if s.len() == 0 {
        0
    } else if is_path_separator(s[s.len() - 1]) {
        s.len() as int
    } else {
        file_name_start(s.take(s.len() - 1))
    }
}

/// The path's last component: everything after the last separator.
pub open spec fn spec_file_name(s: Seq<char>) -> Seq<char> {
    s.subrange(file_name_start(s), s.len() as int)
}

/// The cached background's path: the configured file's name under the
/// backgrounds directory, joined with a backslash.
pub open spec fn spec_cached_background(bg: Seq<char>, dir: Seq<char>) -> Seq<char> {
    dir + "\\"@ + spec_file_name(bg)
}

/// Whether a path ends in a proper file name: a non-empty last component
/// that is neither `.` nor `..`. On such paths "everything after the last
/// separator" is the file name; paths without one (a trailing separator,
/// a dot or dot-dot tail) have none and are excluded by contract.
pub open spec fn has_file_name(s: Seq<char>) -> bool {
    &&& spec_file_name(s).len() > 0
    &&& spec_file_name(s) != "."@
    &&& spec_file_name(s) != ".."@
}

/// A cut right after a separator (or at the start), with no separator
/// after it, is exactly where the file name starts.
proof fn lemma_file_name_start_at(s: Seq<char>, c: int)
    requires
        0 <= c <= s.len(),
        forall|j: int| c <= j < s.len() ==> !is_path_separator(#[trigger] s[j]),
        c > 0 ==> is_path_separator(s[c - 1]),
    ensures
        file_name_start(s) == c,
    decreases s.len(),
{
    if s.len() == 0 {
    } else if is_path_separator(s[s.len() - 1]) {
        assert(c == s.len());
    } else {
        let t = s.take(s.len() - 1);
        assert(c <= t.len());
        lemma_file_name_start_at(t, c);
    }
}

/// Finds the path's last component.
fn file_name<'a>(s: &'a str) -> (r: &'a str)
    ensures
        r@ == spec_file_name(s@),
{
    let n = s.unicode_len();
    let mut cut: usize = n;
    while cut > 0
        invariant
            cut <= n == s@.len(),
            forall|j: int| cut <= j < n ==> !is_path_separator(#[trigger] s@[j]),
        ensures
            cut <= n == s@.len(),
            forall|j: int| cut <= j < n ==> !is_path_separator(#[trigger] s@[j]),
            cut == 0 || is_path_separator(s@[cut - 1]),
        decreases cut,
    {
        let c = s.get_char(cut - 1);
        if c == '\\' || c == '/' {
            break;
        }
        cut = cut - 1;
    }
    proof {
        lemma_file_name_start_at(s@, cut as int);
    }
    s.substring_char(cut, n)
}

/// Where the configuration file lives.
pub struct Config {
    path: String,
}

impl Config {
    /// The configuration file's location.
    pub closed spec fn path_spec(&self) -> Seq<char> {
        self.path@
    }

    /// Remembers the configuration file's location.
    pub fn new(path: String) -> (r: Config)
        ensures
            r.path_spec() == path@,
    {
        Config { path }
    }

    /// The configuration file's location, for the reader and writer
    /// around the library.
    pub fn path(&self) -> (r: &String)
        ensures
            r@ == self.path_spec(),
    {
        &self.path
    }

    /// The cached copy of the configured background: the configured
    /// file's name placed under the backgrounds directory. The caller
    /// passes the configured value it read, if any, and where the
    /// backgrounds directory is; a configured path without a file name
    /// is a caller error and is excluded by contract.
    pub fn cached_background(&self, background: Option<&str>, backgrounds_directory: &str) -> (r:
        Option<String>)
        requires
            background matches Some(bg) ==> has_file_name(bg@),
        ensures
            match background {
                None => r is None,
                Some(bg) => r is Some && r->0@ == spec_cached_background(
                    bg@,
                    backgrounds_directory@,
                ),
            },
    {
        match background {
            None => None,
            Some(bg) => {
                let name = file_name(bg);
                let mut out = String::from_str(backgrounds_directory);
                out.append("\\");
                out.append(name);
                Some(out)
            },
        }
    }
}

} // verus!
