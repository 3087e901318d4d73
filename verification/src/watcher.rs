//! The watcher's relevance rule: which changed paths make a debounced
//! batch rebuild and republish the bundle. The file-system event source
//! and the rebuild loop live with the binary around the library; the
//! decision is taken here.

use vstd::prelude::*;

use crate::strutil::{last_index, lemma_last_index_is};

verus! {

/// The file-name part of a path: everything after its last `/`.
pub open spec fn file_name(s: Seq<char>) -> Seq<char> {
    s.subrange(last_index(s, '/') + 1, s.len() as int)
}

/// The extension of the path's file name: what follows the file name's
/// last `.`, provided that dot is not its first character.
pub open spec fn extension(s: Seq<char>) -> Option<Seq<char>> {
    let f = file_name(s);
    let d = last_index(f, '.');
    if d >= 1 {
        Some(f.subrange(d + 1, f.len() as int))
    } else {
        None
    }
}

/// A changed path triggers a rebuild iff it is a `config.yml` file or a
/// script source: extension `ts` or `mjs`.
pub open spec fn relevant_path(s: Seq<char>) -> bool {
    ||| file_name(s) == "config.yml"@
    ||| extension(s) == Some("ts"@)
    ||| extension(s) == Some("mjs"@)
}

/// The index just after the last occurrence of `c` in `s` (0 if `c`
/// does not occur), found by one forward scan.
fn scan_after_last(s: &str, c: char) -> (r: usize)
    ensures
        r == last_index(s@, c) + 1,
        r <= s@.len(),
{
    let n = s.unicode_len();
    let mut after: usize = 0;
    let mut j: usize = 0;
    while j < n
        invariant
            0 <= j <= n,
            n == s@.len(),
            after <= j,
            after == 0 ==> forall|t: int| 0 <= t < j ==> s@[t] != c,
            after >= 1 ==> s@[after - 1] == c,
            forall|t: int| after <= t < j ==> s@[t] != c,
        decreases n - j,
    {
        if s.get_char(j) == c {
            after = j + 1;
        }
        j += 1;
    }
    proof {
        lemma_last_index_is(s@, c, after as int - 1);
    }
    after
}

/// Exec test of [`relevant_path`].
pub fn path_is_relevant(p: &str) -> (r: bool)
    ensures
        r == relevant_path(p@),
{
    let n = p.unicode_len();
    let ls = scan_after_last(p, '/');
    let fname = p.substring_char(ls, n);
    assert(fname@ =~= file_name(p@));
    let f = String::from_str(fname);
    if f == String::from_str("config.yml") {
        return true;
    }
    let fs = f.as_str();
    let fn_len = fs.unicode_len();
    let ld = scan_after_last(fs, '.');
    if ld >= 2 {
        let ext = String::from_str(fs.substring_char(ld, fn_len));
        assert(ext@ =~= file_name(p@).subrange(ld as int, fn_len as int));
        assert(extension(p@) == Some(ext@));
        if ext == String::from_str("ts") || ext == String::from_str("mjs") {
            return true;
        }
        assert(!relevant_path(p@));
        false
    } else {
        assert(extension(p@) is None);
        false
    }
}

/// A debounced batch triggers a rebuild iff some path in it is
/// relevant.
pub fn batch_needs_swap(paths: &Vec<String>) -> (r: bool)
    ensures
        r == exists|i: int| 0 <= i < paths@.len() && relevant_path((#[trigger] paths@[i])@),
{
    let n = paths.len();
    let mut i: usize = 0;
    while i < n
        invariant
            0 <= i <= n,
            n == paths@.len(),
            forall|j: int| 0 <= j < i ==> !relevant_path((#[trigger] paths@[j])@),
        decreases n - i,
    {
        if path_is_relevant(paths[i].as_str()) {
            assert(relevant_path(paths@[i as int]@));
            return true;
        }
        i += 1;
    }
    false
}

} // verus!
