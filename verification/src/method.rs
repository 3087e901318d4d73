//! The closed set of HTTP methods a route may name, with case-insensitive
//! parsing from configuration text.

use vstd::prelude::*;

verus! {

/// The fixed enumeration of HTTP methods. Configuration naming a method
/// outside this set is rejected at load time.
#[derive(Clone, Copy, Debug, PartialEq, Eq, Structural, Hash)]
pub enum Method {
    Get,
    Head,
    Post,
    Put,
    Delete,
    Patch,
    Options,
    Trace,
    Connect,
}

/// ASCII upper-casing of one character; every other character is unchanged.
pub open spec fn upper_char(c: char) -> char {
    match c {
        'a' => 'A',
        'b' => 'B',
        'c' => 'C',
        'd' => 'D',
        'e' => 'E',
        'f' => 'F',
        'g' => 'G',
        'h' => 'H',
        'i' => 'I',
        'j' => 'J',
        'k' => 'K',
        'l' => 'L',
        'm' => 'M',
        'n' => 'N',
        'o' => 'O',
        'p' => 'P',
        'q' => 'Q',
        'r' => 'R',
        's' => 'S',
        't' => 'T',
        'u' => 'U',
        'v' => 'V',
        'w' => 'W',
        'x' => 'X',
        'y' => 'Y',
        'z' => 'Z',
        _ => c,
    }
}

/// ASCII upper-casing of a character sequence.
pub open spec fn upper_seq(s: Seq<char>) -> Seq<char> {
    Seq::new(s.len(), |i: int| upper_char(s[i]))
}

/// Exec counterpart of [`upper_char`].
fn upper_char_exec(c: char) -> (r: char)
    ensures
        r == upper_char(c),
{
    match c {
        'a' => 'A',
        'b' => 'B',
        'c' => 'C',
        'd' => 'D',
        'e' => 'E',
        'f' => 'F',
        'g' => 'G',
        'h' => 'H',
        'i' => 'I',
        'j' => 'J',
        'k' => 'K',
        'l' => 'L',
        'm' => 'M',
        'n' => 'N',
        'o' => 'O',
        'p' => 'P',
        'q' => 'Q',
        'r' => 'R',
        's' => 'S',
        't' => 'T',
        'u' => 'U',
        'v' => 'V',
        'w' => 'W',
        'x' => 'X',
        'y' => 'Y',
        'z' => 'Z',
        _ => c,
    }
}

/// True iff `s`, upper-cased, equals `t` (the canonical upper-case name).
fn eq_upper(s: &str, t: &str) -> (r: bool)
    ensures
        r == (upper_seq(s@) == t@),
{
    let n = s.unicode_len();
    if n != t.unicode_len() {
        assert(upper_seq(s@).len() == s@.len());
        return false;
    }
    let mut i: usize = 0;
    while i < n
        invariant
            0 <= i <= n,
            n == s@.len(),
            n == t@.len(),
            forall|j: int| 0 <= j < i ==> upper_char(s@[j]) == t@[j],
        decreases n - i,
    {
        if upper_char_exec(s.get_char(i)) != t.get_char(i) {
            assert(upper_seq(s@)[i as int] != t@[i as int]);
            return false;
        }
        i += 1;
    }
    assert(upper_seq(s@) =~= t@);
    true
}

/// The canonical (upper-case) name of a method.
pub open spec fn spec_name(m: Method) -> Seq<char> {
    match m {
        Method::Get => "GET"@,
        Method::Head => "HEAD"@,
        Method::Post => "POST"@,
        Method::Put => "PUT"@,
        Method::Delete => "DELETE"@,
        Method::Patch => "PATCH"@,
        Method::Options => "OPTIONS"@,
        Method::Trace => "TRACE"@,
        Method::Connect => "CONNECT"@,
    }
}

/// The method named by `s`, compared case-insensitively; `None` for a name
/// outside the enumeration.
pub open spec fn spec_parse(s: Seq<char>) -> Option<Method> {
    if upper_seq(s) == "GET"@ {
        Some(Method::Get)
    } else if upper_seq(s) == "HEAD"@ {
        Some(Method::Head)
    } else if upper_seq(s) == "POST"@ {
        Some(Method::Post)
    } else if upper_seq(s) == "PUT"@ {
        Some(Method::Put)
    } else if upper_seq(s) == "DELETE"@ {
        Some(Method::Delete)
    } else if upper_seq(s) == "PATCH"@ {
        Some(Method::Patch)
    } else if upper_seq(s) == "OPTIONS"@ {
        Some(Method::Options)
    } else if upper_seq(s) == "TRACE"@ {
        Some(Method::Trace)
    } else if upper_seq(s) == "CONNECT"@ {
        Some(Method::Connect)
    } else {
        None
    }
}

impl Method {
    /// Parse a method name, case-insensitively.
    pub fn parse(s: &str) -> (r: Option<Method>)
        ensures
            r == spec_parse(s@),
    {
        if eq_upper(s, "GET") {
            Some(Method::Get)
        } else if eq_upper(s, "HEAD") {
            Some(Method::Head)
        } else if eq_upper(s, "POST") {
            Some(Method::Post)
        } else if eq_upper(s, "PUT") {
            Some(Method::Put)
        } else if eq_upper(s, "DELETE") {
            Some(Method::Delete)
        } else if eq_upper(s, "PATCH") {
            Some(Method::Patch)
        } else if eq_upper(s, "OPTIONS") {
            Some(Method::Options)
        } else if eq_upper(s, "TRACE") {
            Some(Method::Trace)
        } else if eq_upper(s, "CONNECT") {
            Some(Method::Connect)
        } else {
            None
        }
    }

    /// The canonical upper-case name of this method.
    pub fn as_str(&self) -> (r: &'static str)
        ensures
            r@ == spec_name(*self),
    {
        match self {
            Method::Get => "GET",
            Method::Head => "HEAD",
            Method::Post => "POST",
            Method::Put => "PUT",
            Method::Delete => "DELETE",
            Method::Patch => "PATCH",
            Method::Options => "OPTIONS",
            Method::Trace => "TRACE",
            Method::Connect => "CONNECT",
        }
    }
}

} // verus!
