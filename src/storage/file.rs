//! One file per key in a directory.
//!
//! The directory, the files and their locks are handled by the caller; this
//! type decides where an entry lives and which files a flush removes.
use regex::Regex;
use vstd::prelude::*;
use vstd::string::StringExecFns;

use crate::error::CacheError;
use crate::PREFIX;

verus! {

#[verifier::external_type_specification]
#[verifier::external_body]
pub struct ExRegex(regex::Regex);

#[verifier::external_type_specification]
#[verifier::external_body]
pub struct ExRegexError(regex::Error);

/// Whether `Regex::new` accepts a pattern.
pub uninterp spec fn regex_compiles(pattern: Seq<char>) -> bool;

/// Whether the regex compiled from `pattern` matches somewhere in `text`.
pub uninterp spec fn regex_matches(pattern: Seq<char>, text: Seq<char>) -> bool;

/// Relies on regex::Regex::new: whether the pattern compiles (syntax and the
/// default size limit) depends on the pattern alone.
#[verifier::external_body]
fn compile_regex(pattern: &str) -> (r: Result<Regex, regex::Error>)
    ensures
        r is Ok <==> regex_compiles(pattern@),
{
    Regex::new(pattern)
}

/// A compiled regex together with the pattern it was compiled from.
/// `PathFilter::compile` is the only way to build one.
pub struct PathFilter {
    pattern: String,
    re: Regex,
}

/// Relies on regex::Regex::is_match: whether the regex matches anywhere in
/// `text`. `filter.re` was compiled from `filter.pattern`.
#[verifier::external_body]
fn regex_is_match(filter: &PathFilter, text: &str) -> (r: bool)
    ensures
        r == regex_matches(filter.pattern@, text@),
{
    filter.re.is_match(text)
}

impl PathFilter {
    pub closed spec fn pattern(&self) -> Seq<char> {
        self.pattern@
    }

    /// Compiles `pattern`; a pattern that does not compile is a pattern error.
    pub fn compile(pattern: String) -> (r: Result<PathFilter, CacheError>)
        ensures
            r is Ok <==> regex_compiles(pattern@),
            r matches Ok(f) ==> f.pattern() == pattern@,
            r matches Err(e) ==> e == CacheError::Pattern,
    {
        match compile_regex(pattern.as_str()) {
            Ok(re) => Ok(PathFilter { pattern, re }),
            Err(_) => Err(CacheError::Pattern),
        }
    }

    /// Whether the filter matches somewhere in `text`.
    pub fn is_match(&self, text: &str) -> (r: bool)
        ensures
            r == regex_matches(self.pattern(), text@),
    {
        regex_is_match(self, text)
    }
}

/// The paths among `paths` that `pattern` matches, in their order.
pub open spec fn matching(pattern: Seq<char>, paths: Seq<Seq<char>>) -> Seq<Seq<char>>
    decreases paths.len(),
{
    if paths.len() == 0 {
        Seq::empty()
    } else if regex_matches(pattern, paths.last()) {
        matching(pattern, paths.drop_last()).push(paths.last())
    } else {
        matching(pattern, paths.drop_last())
    }
}

/// The path of the file that holds `key` in directory `dir`.
pub open spec fn entry_path_text(dir: Seq<char>, key: Seq<char>) -> Seq<char> {
    dir + seq!['/'] + key
}

/// The pattern that a path must match to be flushed from `dir`: it starts
/// with the directory, a separator, the prefix and `_`.
pub open spec fn flush_pattern_text(dir: Seq<char>) -> Seq<char> {
    seq!['^'] + dir + seq!['/'] + PREFIX@ + seq!['_']
}

/// Entries stored as files named by their keys in one directory.
pub struct FileStorage {
    path: String,
}

impl View for FileStorage {
    type V = Seq<char>;

    /// The directory.
    closed spec fn view(&self) -> Seq<char> {
        self.path@
    }
}

impl FileStorage {
    /// A storage in directory `path`. The directory itself is created by
    /// whoever opens the files.
    pub fn new(path: &str) -> (r: FileStorage)
        ensures
            r@ == path@,
    {
        FileStorage { path: path.to_owned() }
    }

    /// The directory.
    pub fn path(&self) -> (r: &str)
        ensures
            r@ == self@,
    {
        self.path.as_str()
    }

    /// The file that holds `key`.
    pub fn entry_path(&self, key: &str) -> (r: String)
        ensures
            r@ == entry_path_text(self@, key@),
    {
        let mut p = self.path.clone();
        p.append("/");
        p.append(key);
        proof {
            reveal_strlit("/");
        }
        p
    }

    /// The pattern that selects the files a flush removes.
    pub fn flush_pattern(&self) -> (r: String)
        ensures
            r@ == flush_pattern_text(self@),
    {
        let mut p = String::from_str("^");
        p.append(self.path.as_str());
        p.append("/");
        p.append(PREFIX);
        p.append("_");
        proof {
            reveal_strlit("^");
            reveal_strlit("/");
            reveal_strlit("_");
        }
        p
    }

    /// Of the paths found in the directory, those that a flush removes, in
    /// the order found. Fails with a pattern error when the flush pattern
    /// does not compile.
    pub fn flush_targets(&self, paths: &Vec<String>) -> (r: Result<Vec<String>, CacheError>)
        ensures
            r is Ok <==> regex_compiles(flush_pattern_text(self@)),
            r matches Ok(t) ==> t@.map_values(|s: String| s@)
                == matching(flush_pattern_text(self@), paths@.map_values(|s: String| s@)),
            r matches Err(e) ==> e == CacheError::Pattern,
    {
        let filter = PathFilter::compile(self.flush_pattern())?;
        let ghost pat = filter.pattern();
        let ghost views = paths@.map_values(|s: String| s@);
        let mut out: Vec<String> = Vec::new();
        let mut i: usize = 0;
        while i < paths.len()
            invariant
                i <= paths@.len(),
                pat == filter.pattern(),
                views == paths@.map_values(|s: String| s@),
                out@.map_values(|s: String| s@) == matching(pat, views.subrange(0, i as int)),
            decreases paths@.len() - i,
        {
            let p: &String = &paths[i];
            let hit = filter.is_match(p.as_str());
            let ghost before = out@;
            if hit {
                out.push(p.clone());
            }
            proof {
                let s = views.subrange(0, i + 1);
                assert(s.drop_last() =~= views.subrange(0, i as int));
                assert(s.last() == p@);
                if hit {
                    assert(out@.map_values(|s: String| s@)
                        =~= before.map_values(|s: String| s@).push(p@));
                }
            }
            i = i + 1;
        }
        assert(views.subrange(0, paths@.len() as int) =~= views);
        Ok(out)
    }
}

} // verus!
