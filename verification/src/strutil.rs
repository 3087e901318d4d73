//! Character-sequence helpers shared by the router, the registry and the
//! watcher: splitting on a separator, first and last occurrence of a
//! character, and view conversions for vectors of strings.

use vstd::prelude::*;

verus! {

/// The views of a sequence of strings.
pub open spec fn views_of(v: Seq<String>) -> Seq<Seq<char>> {
    v.map_values(|s: String| s@)
}

/// The views of a sequence of string pairs.
pub open spec fn pairs_view(v: Seq<(String, String)>) -> Seq<(Seq<char>, Seq<char>)> {
    v.map_values(|p: (String, String)| (p.0@, p.1@))
}

/// Index of the first occurrence of `c` in `s`, or `s.len()` if `c` does not
/// occur.
pub open spec fn first_index(s: Seq<char>, c: char) -> int
    decreases s.len(),
{
    if s.len() == 0 {
        0
    } else if s[0] == c {
        0
    } else {
        1 + first_index(s.drop_first(), c)
    }
}

pub proof fn lemma_first_index(s: Seq<char>, c: char)
    ensures
        0 <= first_index(s, c) <= s.len(),
        forall|j: int| 0 <= j < first_index(s, c) ==> s[j] != c,
        first_index(s, c) < s.len() ==> s[first_index(s, c)] == c,
    decreases s.len(),
{
    if s.len() != 0 && s[0] != c {
        lemma_first_index(s.drop_first(), c);
        assert forall|j: int| 0 <= j < first_index(s, c) implies s[j] != c by {
            if j > 0 {
                assert(s.drop_first()[j - 1] == s[j]);
            }
        }
        if first_index(s, c) < s.len() {
            assert(s.drop_first()[first_index(s, c) - 1] == s[first_index(s, c)]);
        }
    }
}

/// A position before which `c` does not occur, and at which `c` stands (or
/// the end), is exactly `first_index`.
pub proof fn lemma_first_index_is(s: Seq<char>, c: char, i: int)
    requires
        0 <= i <= s.len(),
        forall|j: int| 0 <= j < i ==> s[j] != c,
        i < s.len() ==> s[i] == c,
    ensures
        first_index(s, c) == i,
{
    lemma_first_index(s, c);
    let f = first_index(s, c);
    if f < i {
        assert(s[f] == c);
    }
    if f > i {
        assert(i < s.len());
    }
}

/// Index of the last occurrence of `c` in `s`, or `-1` if `c` does not occur.
pub open spec fn last_index(s: Seq<char>, c: char) -> int
    decreases s.len(),
{
    if s.len() == 0 {
        -1
    } else if s[s.len() - 1] == c {
        s.len() - 1
    } else {
        last_index(s.drop_last(), c)
    }
}

pub proof fn lemma_last_index(s: Seq<char>, c: char)
    ensures
        -1 <= last_index(s, c) < s.len(),
        forall|j: int| last_index(s, c) < j < s.len() ==> s[j] != c,
        last_index(s, c) >= 0 ==> s[last_index(s, c)] == c,
    decreases s.len(),
{
    if s.len() != 0 && s[s.len() - 1] != c {
        lemma_last_index(s.drop_last(), c);
        assert forall|j: int| last_index(s, c) < j < s.len() implies s[j] != c by {
            if j < s.len() - 1 {
                assert(s.drop_last()[j] == s[j]);
            }
        }
        if last_index(s, c) >= 0 {
            assert(s.drop_last()[last_index(s, c)] == s[last_index(s, c)]);
        }
    }
}

/// A position at which `c` stands, after which `c` does not occur, is exactly
/// `last_index`; if `c` occurs nowhere, `last_index` is `-1`.
pub proof fn lemma_last_index_is(s: Seq<char>, c: char, i: int)
    requires
        -1 <= i < s.len(),
        forall|j: int| i < j < s.len() ==> s[j] != c,
        i >= 0 ==> s[i] == c,
    ensures
        last_index(s, c) == i,
{
    lemma_last_index(s, c);
    let f = last_index(s, c);
    if f < i {
        assert(s[i] == c);
    }
    if f > i {
        assert(s[f] == c);
    }
}

/// `s` split on `/'`: the sequence of segments between separators. The
/// result always has at least one element; a separator at either end yields
/// an empty segment there.
pub open spec fn split_path(s: Seq<char>) -> Seq<Seq<char>>
    decreases s.len(),
{
    if s.len() == 0 {
        seq![Seq::<char>::empty()]
    } else if s[0] == '/' {
        seq![Seq::<char>::empty()].add(split_path(s.drop_first()))
    } else {
        let r = split_path(s.drop_first());
        seq![seq![s[0]].add(r[0])].add(r.drop_first())
    }
}

pub proof fn lemma_split_path_len(s: Seq<char>)
    ensures
        split_path(s).len() >= 1,
    decreases s.len(),
{
    if s.len() != 0 {
        lemma_split_path_len(s.drop_first());
    }
}

/// Splitting at the first separator: if no `/` stands before `i` and `i` is
/// either the end or a `/`, the split is the head segment followed by the
/// split of the remainder.
pub proof fn lemma_split_at_first_sep(s: Seq<char>, i: int)
    requires
        0 <= i <= s.len(),
        forall|j: int| 0 <= j < i ==> s[j] != '/',
        i < s.len() ==> s[i] == '/',
    ensures
        i == s.len() ==> split_path(s) =~~= seq![s],
        i < s.len() ==> split_path(s) =~~= seq![s.subrange(0, i)].add(
            split_path(s.subrange(i + 1, s.len() as int)),
        ),
    decreases i,
{
    lemma_split_path_len(s);
    if i == 0 {
        if s.len() == 0 {
            assert(split_path(s) =~~= seq![s]);
        } else {
            assert(s[0] == '/');
            assert(s.subrange(0, 0) =~~= Seq::<char>::empty());
            assert(s.subrange(1, s.len() as int) =~~= s.drop_first());
        }
    } else {
        let t = s.drop_first();
        assert(s[0] != '/');
        assert(forall|j: int| 0 <= j < i - 1 ==> t[j] == s[j + 1] && s[j + 1] != '/');
        assert(i - 1 < t.len() ==> t[i - 1] == s[i]);
        lemma_split_at_first_sep(t, i - 1);
        lemma_split_path_len(t);
        let r = split_path(t);
        if i == s.len() {
            assert(r =~~= seq![t]);
            assert(seq![s[0]].add(r[0]) =~~= s);
            assert(split_path(s) =~~= seq![s]);
        } else {
            assert(r =~~= seq![t.subrange(0, i - 1)].add(
                split_path(t.subrange(i, t.len() as int)),
            ));
            assert(seq![s[0]].add(r[0]) =~~= s.subrange(0, i));
            assert(t.subrange(i, t.len() as int) =~~= s.subrange(i + 1, s.len() as int));
            assert(r.drop_first() =~~= split_path(s.subrange(i + 1, s.len() as int)));
            assert(split_path(s) =~~= seq![s.subrange(0, i)].add(
                split_path(s.subrange(i + 1, s.len() as int)),
            ));
        }
    }
}

/// Exec split of `s` on `/`, mirroring [`split_path`].
pub fn split_str(s: &str) -> (r: Vec<String>)
    ensures
        views_of(r@) =~~= split_path(s@),
    decreases s@.len(),
{
    let n = s.unicode_len();
    let mut i: usize = 0;
    while i < n && s.get_char(i) != '/'
        invariant
            0 <= i <= n,
            n == s@.len(),
            forall|j: int| 0 <= j < i ==> s@[j] != '/',
        decreases n - i,
    {
        i += 1;
    }
    if i == n {
        proof {
            lemma_split_at_first_sep(s@, n as int);
        }
        let mut r: Vec<String> = Vec::new();
        r.push(String::from_str(s));
        assert(views_of(r@) =~~= seq![s@]);
        r
    } else {
        proof {
            lemma_split_at_first_sep(s@, i as int);
        }
        let head = s.substring_char(0, i);
        let tail = s.substring_char(i + 1, n);
        let mut r = split_str(tail);
        r.insert(0, String::from_str(head));
        assert(views_of(r@) =~~= seq![s@.subrange(0, i as int)].add(
            split_path(s@.subrange(i + 1, n as int)),
        ));
        r
    }
}

/// The host with any `:port` suffix removed: everything before the first
/// `:`, or the whole string if there is none.
pub open spec fn host_key(s: Seq<char>) -> Seq<char> {
    s.take(first_index(s, ':'))
}

/// Exec counterpart of [`host_key`].
pub fn strip_port(host: &str) -> (r: String)
    ensures
        r@ == host_key(host@),
{
    let n = host.unicode_len();
    let mut i: usize = 0;
    while i < n && host.get_char(i) != ':'
        invariant
            0 <= i <= n,
            n == host@.len(),
            forall|j: int| 0 <= j < i ==> host@[j] != ':',
        decreases n - i,
    {
        i += 1;
    }
    proof {
        lemma_first_index_is(host@, ':', i as int);
    }
    let r = String::from_str(host.substring_char(0, i));
    assert(r@ =~= host_key(host@));
    r
}

} // verus!
