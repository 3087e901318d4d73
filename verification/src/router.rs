//! The path router: compiled patterns with named captures, most-specific
//! matching, per-method handler tables, and the swappable holder that
//! publishes a tenant's current bundle.

use vstd::prelude::*;

use crate::config::{ProjectRoute, ProjectRoutes};
use crate::error::AppError;
use crate::method::Method;
use crate::strutil::{pairs_view, split_path, split_str, views_of};

verus! {

/// One segment of a path pattern: literal text, or a capture binding one
/// non-empty path segment under a name.
#[derive(Debug, Clone)]
pub enum Segment {
    Literal(String),
    Param(String),
}

/// The spec-level form of a pattern segment.
pub enum SegView {
    Lit(Seq<char>),
    Par(Seq<char>),
}

impl View for Segment {
    type V = SegView;

    open spec fn view(&self) -> SegView {
        match self {
            Segment::Literal(s) => SegView::Lit(s@),
            Segment::Param(s) => SegView::Par(s@),
        }
    }
}

/// The views of a vector of segments.
pub open spec fn segs_view(v: Seq<Segment>) -> Seq<SegView> {
    v.map_values(|s: Segment| s@)
}

pub open spec fn is_param(s: SegView) -> bool {
    s is Par
}

/// Whether one concrete path segment satisfies one pattern segment:
/// literal text must be equal, a capture takes any non-empty segment.
pub open spec fn seg_matches(p: SegView, t: Seq<char>) -> bool {
    match p {
        SegView::Lit(l) => l == t,
        SegView::Par(_) => t.len() > 0,
    }
}

/// A pattern matches a split path when they have the same length and agree
/// segment by segment.
pub open spec fn pat_matches(p: Seq<SegView>, segs: Seq<Seq<char>>) -> bool {
    p.len() == segs.len() && forall|i: int|
        0 <= i < p.len() ==> seg_matches(#[trigger] p[i], segs[i])
}

pub open spec fn same_kind(a: SegView, b: SegView) -> bool {
    is_param(a) == is_param(b)
}

/// Witness that `a` takes precedence over `b` at position `k`: their
/// kinds agree before `k`, and at `k` pattern `a` has literal text while
/// `b` has a capture.
pub open spec fn beats_at(a: Seq<SegView>, b: Seq<SegView>, k: int) -> bool {
    &&& 0 <= k < a.len()
    &&& k < b.len()
    &&& forall|i: int| 0 <= i < k ==> same_kind(#[trigger] a[i], b[i])
    &&& !is_param(a[k])
    &&& is_param(b[k])
}

/// Pattern `a` takes precedence over pattern `b`: at the first position
/// where their kinds differ, `a` has literal text and `b` a capture.
pub open spec fn beats(a: Seq<SegView>, b: Seq<SegView>) -> bool {
    exists|k: int| beats_at(a, b, k)
}

/// Two patterns are interchangeable — the same capture positions and the
/// same literal text — so inserting both is a configuration conflict.
pub open spec fn same_shape(a: Seq<SegView>, b: Seq<SegView>) -> bool {
    a.len() == b.len() && forall|i: int|
        0 <= i < a.len() ==> (same_kind(#[trigger] a[i], b[i]) && (!is_param(a[i]) ==> a[i]
            == b[i]))
}

/// Exec test of [`seg_matches`].
fn seg_match_exec(p: &Segment, t: &String) -> (r: bool)
    ensures
        r == seg_matches(p@, t@),
{
    match p {
        Segment::Literal(l) => *l == *t,
        Segment::Param(_) => !t.as_str().is_empty(),
    }
}

/// Exec test of [`pat_matches`].
fn pat_match_exec(p: &Vec<Segment>, segs: &Vec<String>) -> (r: bool)
    ensures
        r == pat_matches(segs_view(p@), views_of(segs@)),
{
    if p.len() != segs.len() {
        return false;
    }
    let n = p.len();
    let mut i: usize = 0;
    while i < n
        invariant
            0 <= i <= n,
            n == p@.len(),
            n == segs@.len(),
            forall|j: int|
                0 <= j < i ==> seg_matches(#[trigger] segs_view(p@)[j], views_of(segs@)[j]),
        decreases n - i,
    {
        if !seg_match_exec(&p[i], &segs[i]) {
            assert(!seg_matches(segs_view(p@)[i as int], views_of(segs@)[i as int]));
            return false;
        }
        i += 1;
    }
    true
}

/// Exec test of [`beats`].
fn beats_exec(a: &Vec<Segment>, b: &Vec<Segment>) -> (r: bool)
    ensures
        r == beats(segs_view(a@), segs_view(b@)),
{
    let ghost av = segs_view(a@);
    let ghost bv = segs_view(b@);
    let n = if a.len() < b.len() {
        a.len()
    } else {
        b.len()
    };
    let mut k: usize = 0;
    while k < n
        invariant
            0 <= k <= n,
            n <= a@.len(),
            n <= b@.len(),
            n == a@.len() || n == b@.len(),
            av == segs_view(a@),
            bv == segs_view(b@),
            forall|i: int| 0 <= i < k ==> same_kind(#[trigger] av[i], bv[i]),
        decreases n - k,
    {
        let ap = match &a[k] {
            Segment::Param(_) => true,
            Segment::Literal(_) => false,
        };
        let bp = match &b[k] {
            Segment::Param(_) => true,
            Segment::Literal(_) => false,
        };
        assert(ap == is_param(av[k as int]));
        assert(bp == is_param(bv[k as int]));
        if !ap && bp {
            assert(beats_at(av, bv, k as int));
            assert(beats(av, bv));
            return true;
        }
        if ap && !bp {
            proof {
                assert forall|k2: int| !beats_at(av, bv, k2) by {
                    if beats_at(av, bv, k2) {
                        if k2 < k {
                            assert(same_kind(av[k2], bv[k2]));
                        } else if k2 > k {
                            assert(same_kind(av[k as int], bv[k as int]));
                        }
                    }
                }
            }
            return false;
        }
        k += 1;
    }
    proof {
        assert forall|k2: int| !beats_at(av, bv, k2) by {
            if beats_at(av, bv, k2) {
                assert(k2 < n);
                assert(same_kind(av[k2], bv[k2]));
            }
        }
    }
    false
}

} // verus!

verus! {

// ------------------------------------------------------------------
// Method tables
// ------------------------------------------------------------------

/// For a single path pattern, the handler name registered per method.
#[derive(Debug, Clone)]
pub struct MethodRoute {
    pub get: Option<String>,
    pub head: Option<String>,
    pub delete: Option<String>,
    pub options: Option<String>,
    pub patch: Option<String>,
    pub post: Option<String>,
    pub put: Option<String>,
    pub trace: Option<String>,
    pub connect: Option<String>,
}

pub open spec fn opt_view(o: Option<String>) -> Option<Seq<char>> {
    match o {
        Some(s) => Some(s@),
        None => None,
    }
}

/// The handler name `mr` holds for method `m`, if any.
pub open spec fn method_slot(mr: MethodRoute, m: Method) -> Option<Seq<char>> {
    match m {
        Method::Get => opt_view(mr.get),
        Method::Head => opt_view(mr.head),
        Method::Delete => opt_view(mr.delete),
        Method::Options => opt_view(mr.options),
        Method::Patch => opt_view(mr.patch),
        Method::Post => opt_view(mr.post),
        Method::Put => opt_view(mr.put),
        Method::Trace => opt_view(mr.trace),
        Method::Connect => opt_view(mr.connect),
    }
}

impl Default for MethodRoute {
    /// A table with every slot empty.
    fn default() -> (r: Self)
        ensures
            forall|m: Method| method_slot(r, m) == None::<Seq<char>>,
    {
        MethodRoute {
            get: None,
            head: None,
            delete: None,
            options: None,
            patch: None,
            post: None,
            put: None,
            trace: None,
            connect: None,
        }
    }
}

impl MethodRoute {
    /// Fill the slot for `m` with `h`; other slots are unchanged.
    pub fn set_slot(&mut self, m: Method, h: String)
        ensures
            forall|mm: Method|
                method_slot(*final(self), mm) == if mm == m {
                    Some(h@)
                } else {
                    method_slot(*old(self), mm)
                },
    {
        match m {
            Method::Get => self.get = Some(h),
            Method::Head => self.head = Some(h),
            Method::Delete => self.delete = Some(h),
            Method::Options => self.options = Some(h),
            Method::Patch => self.patch = Some(h),
            Method::Post => self.post = Some(h),
            Method::Put => self.put = Some(h),
            Method::Trace => self.trace = Some(h),
            Method::Connect => self.connect = Some(h),
        }
    }

    /// The handler registered for `m`, if any.
    pub fn get_slot(&self, m: Method) -> (r: Option<String>)
        ensures
            opt_view(r) == method_slot(*self, m),
    {
        let o = match m {
            Method::Get => &self.get,
            Method::Head => &self.head,
            Method::Delete => &self.delete,
            Method::Options => &self.options,
            Method::Patch => &self.patch,
            Method::Post => &self.post,
            Method::Put => &self.put,
            Method::Trace => &self.trace,
            Method::Connect => &self.connect,
        };
        match o {
            Some(s) => Some(s.clone()),
            None => None,
        }
    }
}

// ------------------------------------------------------------------
// Captures and match results
// ------------------------------------------------------------------

/// The name/value pairs a matching pattern binds, in pattern order, from
/// position `k` on.
pub open spec fn captures_from(p: Seq<SegView>, segs: Seq<Seq<char>>, k: int) -> Seq<
    (Seq<char>, Seq<char>),
>
    decreases p.len() - k,
{
    if k < 0 || k >= p.len() {
        Seq::empty()
    } else {
        let rest = captures_from(p, segs, k + 1);
        match p[k] {
            SegView::Par(n) => seq![(n, segs[k])].add(rest),
            SegView::Lit(_) => rest,
        }
    }
}

/// All captures a matching pattern binds.
pub open spec fn captures(p: Seq<SegView>, segs: Seq<Seq<char>>) -> Seq<(Seq<char>, Seq<char>)> {
    captures_from(p, segs, 0)
}

/// The first value bound under `name`, if any.
pub open spec fn lookup_pairs(v: Seq<(Seq<char>, Seq<char>)>, name: Seq<char>) -> Option<Seq<char>>
    decreases v.len(),
{
    if v.len() == 0 {
        None
    } else if v[0].0 == name {
        Some(v[0].1)
    } else {
        lookup_pairs(v.drop_first(), name)
    }
}

proof fn lemma_lookup_found(v: Seq<(Seq<char>, Seq<char>)>, name: Seq<char>, i: int)
    requires
        0 <= i < v.len(),
        forall|j: int| 0 <= j < i ==> (#[trigger] v[j]).0 != name,
        v[i].0 == name,
    ensures
        lookup_pairs(v, name) == Some(v[i].1),
    decreases i,
{
    if i > 0 {
        assert(forall|j: int| 0 <= j < i - 1 ==> (#[trigger] v.drop_first()[j]).0 == v[j + 1].0);
        lemma_lookup_found(v.drop_first(), name, i - 1);
    }
}

proof fn lemma_lookup_missing(v: Seq<(Seq<char>, Seq<char>)>, name: Seq<char>)
    requires
        forall|j: int| 0 <= j < v.len() ==> (#[trigger] v[j]).0 != name,
    ensures
        lookup_pairs(v, name) == None::<Seq<char>>,
    decreases v.len(),
{
    if v.len() > 0 {
        assert(forall|j: int|
            0 <= j < v.len() - 1 ==> (#[trigger] v.drop_first()[j]).0 == v[j + 1].0);
        lemma_lookup_missing(v.drop_first(), name);
    }
}

/// The captures of a matched route, looked up by name.
#[derive(Debug)]
pub struct Params {
    pub pairs: Vec<(String, String)>,
}

impl Params {
    /// The first captured value bound under `name`, if any.
    pub fn get<'a>(&'a self, name: &str) -> (r: Option<&'a str>)
        ensures
            match r {
                Some(s) => lookup_pairs(pairs_view(self.pairs@), name@) == Some(s@),
                None => lookup_pairs(pairs_view(self.pairs@), name@) == None::<Seq<char>>,
            },
    {
        let name_owned = String::from_str(name);
        let n = self.pairs.len();
        let mut i: usize = 0;
        while i < n
            invariant
                0 <= i <= n,
                n == self.pairs@.len(),
                name_owned@ == name@,
                forall|j: int| 0 <= j < i ==> (#[trigger] pairs_view(self.pairs@)[j]).0 != name@,
            decreases n - i,
        {
            if self.pairs[i].0 == name_owned {
                proof {
                    lemma_lookup_found(pairs_view(self.pairs@), name@, i as int);
                }
                return Some(self.pairs[i].1.as_str());
            }
            assert(pairs_view(self.pairs@)[i as int].0 != name@);
            i += 1;
        }
        proof {
            lemma_lookup_missing(pairs_view(self.pairs@), name@);
        }
        None
    }
}

/// A successful lookup: the handler name and the captured parameters.
#[derive(Debug)]
pub struct RouteMatch {
    pub value: String,
    pub params: Params,
}

/// Collect the captures of a matching pattern.
fn collect_params(p: &Vec<Segment>, segs: &Vec<String>) -> (r: Vec<(String, String)>)
    requires
        p@.len() == segs@.len(),
    ensures
        pairs_view(r@) == captures(segs_view(p@), views_of(segs@)),
{
    let ghost pv = segs_view(p@);
    let ghost sv = views_of(segs@);
    let mut out: Vec<(String, String)> = Vec::new();
    let mut i: usize = 0;
    while i < p.len()
        invariant
            0 <= i <= p@.len(),
            p@.len() == segs@.len(),
            pv == segs_view(p@),
            sv == views_of(segs@),
            pairs_view(out@).add(captures_from(pv, sv, i as int)) == captures(pv, sv),
        decreases p@.len() - i,
    {
        let ghost before = out@;
        match &p[i] {
            Segment::Param(name) => {
                out.push((name.clone(), segs[i].clone()));
                proof {
                    assert(pairs_view(out@) =~~= pairs_view(before).add(
                        seq![(name@, sv[i as int])],
                    ));
                    assert(captures_from(pv, sv, i as int) == seq![(name@, sv[i as int])].add(
                        captures_from(pv, sv, i + 1),
                    ));
                    assert(pairs_view(out@).add(captures_from(pv, sv, i + 1)) =~~= pairs_view(
                        before,
                    ).add(captures_from(pv, sv, i as int)));
                }
            }
            Segment::Literal(_) => {
                assert(captures_from(pv, sv, i as int) == captures_from(pv, sv, i + 1));
            }
        }
        i += 1;
    }
    proof {
        assert(captures_from(pv, sv, p@.len() as int) =~~= Seq::empty());
        assert(pairs_view(out@) =~~= pairs_view(out@).add(captures_from(pv, sv, p@.len() as int)));
    }
    out
}

} // verus!

verus! {

// ------------------------------------------------------------------
// The compiled router and lookup
// ------------------------------------------------------------------

/// One compiled route: a pattern with its per-method handler table.
#[derive(Debug, Clone)]
pub struct RouteEntry {
    pub pattern: Vec<Segment>,
    pub methods: MethodRoute,
}

impl View for RouteEntry {
    type V = (Seq<SegView>, MethodRoute);

    open spec fn view(&self) -> (Seq<SegView>, MethodRoute) {
        (segs_view(self.pattern@), self.methods)
    }
}

/// The compiled path router: the tenant's routes, immutable once built.
#[derive(Debug, Clone)]
pub struct PathRouter {
    pub routes: Vec<RouteEntry>,
}

impl View for PathRouter {
    type V = Seq<(Seq<SegView>, MethodRoute)>;

    open spec fn view(&self) -> Seq<(Seq<SegView>, MethodRoute)> {
        self.routes@.map_values(|e: RouteEntry| e@)
    }
}

/// The route chosen among the first `n`, scanning in configuration order:
/// a matching route replaces the current choice only when it takes
/// precedence over it.
pub open spec fn best_upto(
    rs: Seq<(Seq<SegView>, MethodRoute)>,
    segs: Seq<Seq<char>>,
    n: int,
) -> Option<int>
    decreases n,
{
    if n <= 0 {
        None
    } else {
        let prev = best_upto(rs, segs, n - 1);
        if pat_matches(rs[n - 1].0, segs) {
            match prev {
                None => Some(n - 1),
                Some(j) => if beats(rs[n - 1].0, rs[j].0) {
                    Some(n - 1)
                } else {
                    Some(j)
                },
            }
        } else {
            prev
        }
    }
}

/// What `match_it` promises: the most specific matching route decides the
/// outcome — its handler for the method, `RouteMethodNotAllowed` when its
/// table has no slot for the method, and `RoutePathNotFound` when no
/// route matches at all.
pub open spec fn match_post(
    rs: Seq<(Seq<SegView>, MethodRoute)>,
    m: Method,
    path: Seq<char>,
    r: Result<RouteMatch, AppError>,
) -> bool {
    let segs = split_path(path);
    match best_upto(rs, segs, rs.len() as int) {
        None => r matches Err(e) && e matches AppError::RoutePathNotFound(p) && p@ == path,
        Some(i) => match method_slot(rs[i].1, m) {
            None => r matches Err(e) && e matches AppError::RouteMethodNotAllowed(mm) && mm == m,
            Some(h) => r matches Ok(mt) && mt.value@ == h && pairs_view(mt.params.pairs@)
                == captures(rs[i].0, segs),
        },
    }
}

impl PathRouter {
    /// Look up `(method, path)` among the compiled routes.
    pub fn lookup(&self, method: Method, path: &str) -> (r: Result<RouteMatch, AppError>)
        ensures
            match_post(self@, method, path@, r),
    {
        let ghost rs = self@;
        let segs = split_str(path);
        let ghost sv = views_of(segs@);
        let n = self.routes.len();
        let mut best: Option<usize> = None;
        let mut i: usize = 0;
        while i < n
            invariant
                0 <= i <= n,
                n == self.routes@.len(),
                rs == self@,
                rs.len() == n,
                sv == views_of(segs@),
                sv == split_path(path@),
                match best {
                    None => best_upto(rs, sv, i as int) == None::<int>,
                    Some(j) => j < i && best_upto(rs, sv, i as int) == Some(j as int)
                        && pat_matches(rs[j as int].0, sv),
                },
            decreases n - i,
        {
            let e = &self.routes[i];
            assert(rs[i as int] == e@);
            if pat_match_exec(&e.pattern, &segs) {
                best = match best {
                    None => Some(i),
                    Some(j) => {
                        let bj = &self.routes[j];
                        assert(rs[j as int] == bj@);
                        if beats_exec(&e.pattern, &bj.pattern) {
                            Some(i)
                        } else {
                            Some(j)
                        }
                    },
                };
            }
            i += 1;
        }
        match best {
            None => Err(AppError::RoutePathNotFound(String::from_str(path))),
            Some(bi) => {
                let e = &self.routes[bi];
                assert(rs[bi as int] == e@);
                match e.methods.get_slot(method) {
                    None => Err(AppError::RouteMethodNotAllowed(method)),
                    Some(h) => {
                        assert(segs_view(e.pattern@).len() == sv.len());
                        let pairs = collect_params(&e.pattern, &segs);
                        Ok(RouteMatch { value: h, params: Params { pairs } })
                    },
                }
            },
        }
    }
}

} // verus!

verus! {

// ------------------------------------------------------------------
// Compiling a routing description
// ------------------------------------------------------------------

/// The segment a pattern token denotes: a leading `:` names a capture.
pub open spec fn seg_of_token(t: Seq<char>) -> SegView {
    if t.len() >= 1 && t[0] == ':' {
        SegView::Par(t.drop_first())
    } else {
        SegView::Lit(t)
    }
}

/// A capture token must carry a name after the `:`.
pub open spec fn token_ok(t: Seq<char>) -> bool {
    (t.len() >= 1 && t[0] == ':') ==> t.len() >= 2
}

/// A pattern string is non-empty, begins with `/`, and its captures are
/// named.
pub open spec fn pattern_str_ok(s: Seq<char>) -> bool {
    &&& s.len() > 0
    &&& s[0] == '/'
    &&& forall|i: int| 0 <= i < split_path(s).len() ==> token_ok(#[trigger] split_path(s)[i])
}

/// The compiled form of a pattern string.
pub open spec fn pattern_of(s: Seq<char>) -> Seq<SegView> {
    split_path(s).map_values(|t: Seq<char>| seg_of_token(t))
}

/// Compile one pattern string, or report that it is invalid.
fn parse_pattern(path: &str) -> (r: Option<Vec<Segment>>)
    ensures
        match r {
            Some(v) => pattern_str_ok(path@) && segs_view(v@) == pattern_of(path@),
            None => !pattern_str_ok(path@),
        },
{
    let n = path.unicode_len();
    if n == 0 {
        return None;
    }
    if path.get_char(0) != '/' {
        return None;
    }
    let toks = split_str(path);
    let ghost tv = split_path(path@);
    let mut segs: Vec<Segment> = Vec::new();
    let mut i: usize = 0;
    while i < toks.len()
        invariant
            0 <= i <= toks@.len(),
            views_of(toks@) == tv,
            tv == split_path(path@),
            segs@.len() == i,
            forall|j: int| 0 <= j < i ==> token_ok(#[trigger] tv[j]),
            forall|j: int| 0 <= j < i ==> segs_view(segs@)[j] == seg_of_token(#[trigger] tv[j]),
        decreases toks@.len() - i,
    {
        let t = &toks[i];
        assert(t@ == tv[i as int]);
        let tn = t.as_str().unicode_len();
        if tn >= 1 && t.as_str().get_char(0) == ':' {
            if tn < 2 {
                assert(!token_ok(tv[i as int]));
                return None;
            }
            let name = String::from_str(t.as_str().substring_char(1, tn));
            assert(name@ =~= t@.drop_first());
            segs.push(Segment::Param(name));
        } else {
            segs.push(Segment::Literal(t.clone()));
        }
        i += 1;
    }
    assert(segs_view(segs@) =~~= pattern_of(path@));
    Some(segs)
}

/// The handler registered for `m` among the first `k` entries, earliest
/// entry first.
pub open spec fn slot_upto(rs: Seq<ProjectRoute>, k: int, m: Method) -> Option<Seq<char>>
    decreases k,
{
    if k <= 0 {
        None
    } else {
        match slot_upto(rs, k - 1, m) {
            Some(h) => Some(h),
            None => if rs[k - 1].method == m {
                Some(rs[k - 1].handler@)
            } else {
                None
            },
        }
    }
}

/// The handler a route group registers for `m`, if any.
pub open spec fn slot_of(rs: Seq<ProjectRoute>, m: Method) -> Option<Seq<char>> {
    slot_upto(rs, rs.len() as int, m)
}

proof fn lemma_slot_upto_none(rs: Seq<ProjectRoute>, k: int, m: Method)
    requires
        0 <= k <= rs.len(),
    ensures
        (slot_upto(rs, k, m) is None) <==> (forall|j: int|
            0 <= j < k ==> (#[trigger] rs[j]).method != m),
    decreases k,
{
    if k > 0 {
        lemma_slot_upto_none(rs, k - 1, m);
    }
}

/// A route group is well formed: non-empty, handlers named, and no
/// method registered twice.
pub open spec fn group_entries_ok(rs: Seq<ProjectRoute>) -> bool {
    &&& rs.len() > 0
    &&& forall|i: int| 0 <= i < rs.len() ==> (#[trigger] rs[i]).handler@.len() > 0
    &&& forall|i: int, j: int| 0 <= i < j < rs.len() ==> rs[i].method != rs[j].method
}

/// Build the method table of one route group.
fn build_table(rs: &Vec<ProjectRoute>) -> (r: Result<MethodRoute, AppError>)
    ensures
        r is Ok <==> group_entries_ok(rs@),
        r matches Ok(t) ==> forall|m: Method| method_slot(t, m) == slot_of(rs@, m),
        r matches Err(e) ==> e matches AppError::Config(_),
{
    if rs.len() == 0 {
        return Err(AppError::Config(String::from_str("empty route group")));
    }
    let mut t = MethodRoute::default();
    let mut k: usize = 0;
    while k < rs.len()
        invariant
            0 <= k <= rs@.len(),
            forall|m: Method| method_slot(t, m) == slot_upto(rs@, k as int, m),
            forall|i: int, j: int| 0 <= i < j < k ==> rs@[i].method != rs@[j].method,
            forall|i: int| 0 <= i < k ==> (#[trigger] rs@[i]).handler@.len() > 0,
        decreases rs@.len() - k,
    {
        let e = &rs[k];
        if e.handler.as_str().is_empty() {
            assert(rs@[k as int].handler@.len() == 0);
            return Err(AppError::Config(String::from_str("empty handler name")));
        }
        match t.get_slot(e.method) {
            Some(_) => {
                proof {
                    lemma_slot_upto_none(rs@, k as int, e.method);
                    assert(exists|j: int| 0 <= j < k && (#[trigger] rs@[j]).method == e.method);
                    let j = choose|j: int| 0 <= j < k && (#[trigger] rs@[j]).method == e.method;
                    assert(rs@[j].method == rs@[k as int].method);
                    assert(!group_entries_ok(rs@));
                }
                return Err(AppError::Config(String::from_str("duplicate method for path")));
            },
            None => {
                proof {
                    lemma_slot_upto_none(rs@, k as int, e.method);
                }
                t.set_slot(e.method, e.handler.clone());
            },
        }
        k += 1;
    }
    Ok(t)
}

/// Exec test of [`same_shape`].
fn same_shape_exec(a: &Vec<Segment>, b: &Vec<Segment>) -> (r: bool)
    ensures
        r == same_shape(segs_view(a@), segs_view(b@)),
{
    let ghost av = segs_view(a@);
    let ghost bv = segs_view(b@);
    if a.len() != b.len() {
        return false;
    }
    let n = a.len();
    let mut k: usize = 0;
    while k < n
        invariant
            0 <= k <= n,
            n == a@.len(),
            n == b@.len(),
            av == segs_view(a@),
            bv == segs_view(b@),
            forall|i: int|
                0 <= i < k ==> (same_kind(#[trigger] av[i], bv[i]) && (!is_param(av[i]) ==> av[i]
                    == bv[i])),
        decreases n - k,
    {
        match (&a[k], &b[k]) {
            (Segment::Literal(x), Segment::Literal(y)) => {
                if !(*x == *y) {
                    assert(av[k as int] != bv[k as int] && !is_param(av[k as int]));
                    return false;
                }
            },
            (Segment::Param(_), Segment::Param(_)) => {},
            _ => {
                assert(!same_kind(av[k as int], bv[k as int]));
                return false;
            },
        }
        k += 1;
    }
    true
}

/// The views of a routing description.
pub open spec fn routes_view(v: Seq<(String, Vec<ProjectRoute>)>) -> Seq<
    (Seq<char>, Seq<ProjectRoute>),
> {
    v.map_values(|p: (String, Vec<ProjectRoute>)| (p.0@, p.1@))
}

/// One configuration group is acceptable.
pub open spec fn group_ok(path: Seq<char>, rs: Seq<ProjectRoute>) -> bool {
    pattern_str_ok(path) && group_entries_ok(rs)
}

/// A whole routing description is acceptable: every group well formed,
/// and no two patterns interchangeable.
pub open spec fn routes_ok(v: Seq<(Seq<char>, Seq<ProjectRoute>)>) -> bool {
    &&& forall|i: int| 0 <= i < v.len() ==> group_ok((#[trigger] v[i]).0, v[i].1)
    &&& forall|i: int, j: int|
        0 <= i < j < v.len() ==> !same_shape(pattern_of(v[i].0), pattern_of(v[j].0))
}

/// No two compiled routes are interchangeable.
pub open spec fn wf_routes(rs: Seq<(Seq<SegView>, MethodRoute)>) -> bool {
    forall|i: int, j: int| 0 <= i < j < rs.len() ==> !same_shape(rs[i].0, rs[j].0)
}

/// A compiled router holds exactly what its description said: the same
/// patterns in the same order, each with its group's method table.
pub open spec fn router_matches_config(
    rv: Seq<(Seq<SegView>, MethodRoute)>,
    v: Seq<(Seq<char>, Seq<ProjectRoute>)>,
) -> bool {
    &&& rv.len() == v.len()
    &&& forall|i: int| 0 <= i < rv.len() ==> (#[trigger] rv[i]).0 == pattern_of(v[i].0)
    &&& forall|i: int, m: Method|
        0 <= i < rv.len() ==> #[trigger] method_slot(rv[i].1, m) == slot_of(v[i].1, m)
}

/// Compile a routing description. Rejected with a `Config` error: an
/// empty or non-`/`-rooted pattern, an unnamed capture, an empty route
/// group, an empty handler name, a method registered twice under one
/// path, and two interchangeable patterns.
pub fn build_router(routes: &ProjectRoutes) -> (r: Result<PathRouter, AppError>)
    ensures
        r is Ok <==> routes_ok(routes_view(routes@)),
        r matches Ok(pr) ==> router_matches_config(pr@, routes_view(routes@)) && wf_routes(pr@),
        r matches Err(e) ==> e matches AppError::Config(_),
{
    let ghost v = routes_view(routes@);
    let mut out: Vec<RouteEntry> = Vec::new();
    let mut i: usize = 0;
    while i < routes.len()
        invariant
            0 <= i <= routes@.len(),
            v == routes_view(routes@),
            out@.len() == i,
            forall|k: int| 0 <= k < i ==> group_ok((#[trigger] v[k]).0, v[k].1),
            forall|k: int, l: int|
                0 <= k < l < i ==> !same_shape(pattern_of(v[k].0), pattern_of(v[l].0)),
            forall|k: int|
                0 <= k < i ==> segs_view((#[trigger] out@[k]).pattern@) == pattern_of(v[k].0),
            forall|k: int, m: Method|
                0 <= k < i ==> #[trigger] method_slot(out@[k].methods, m) == slot_of(v[k].1, m),
        decreases routes@.len() - i,
    {
        let entry = &routes[i];
        assert(v[i as int] == (entry.0@, entry.1@));
        let segs = match parse_pattern(entry.0.as_str()) {
            None => {
                assert(!group_ok(v[i as int].0, v[i as int].1));
                return Err(AppError::Config(String::from_str("invalid path pattern")));
            },
            Some(s) => s,
        };
        let table = match build_table(&entry.1) {
            Err(e) => {
                assert(!group_ok(v[i as int].0, v[i as int].1));
                return Err(e);
            },
            Ok(t) => t,
        };
        let mut j: usize = 0;
        while j < out.len()
            invariant
                0 <= j <= out@.len(),
                out@.len() == i,
                i < routes@.len(),
                v == routes_view(routes@),
                segs_view(segs@) == pattern_of(v[i as int].0),
                forall|k: int|
                    0 <= k < i ==> segs_view((#[trigger] out@[k]).pattern@) == pattern_of(v[k].0),
                forall|k: int|
                    0 <= k < j ==> !same_shape(pattern_of((#[trigger] v[k]).0), pattern_of(
                        v[i as int].0,
                    )),
            decreases out@.len() - j,
        {
            if same_shape_exec(&out[j].pattern, &segs) {
                assert(same_shape(pattern_of(v[j as int].0), pattern_of(v[i as int].0)));
                return Err(AppError::Config(String::from_str("conflicting path patterns")));
            }
            j += 1;
        }
        out.push(RouteEntry { pattern: segs, methods: table });
        i += 1;
    }
    proof {
        assert(routes_ok(v));
    }
    let pr = PathRouter { routes: out };
    proof {
        assert(pr@.len() == v.len());
        assert forall|k: int| 0 <= k < pr@.len() implies (#[trigger] pr@[k]).0 == pattern_of(
            v[k].0,
        ) by {
            assert(pr@[k] == out@[k]@);
        }
        assert forall|k: int, m: Method| 0 <= k < pr@.len() implies #[trigger] method_slot(
            pr@[k].1,
            m,
        ) == slot_of(v[k].1, m) by {
            assert(pr@[k] == out@[k]@);
            assert(method_slot(out@[k].methods, m) == slot_of(v[k].1, m));
        }
        assert(wf_routes(pr@));
    }
    Ok(pr)
}

} // verus!

verus! {

// ------------------------------------------------------------------
// Bundles and the swappable holder
// ------------------------------------------------------------------

/// The immutable bundle a holder publishes: the tenant's script source
/// and its compiled router.
#[derive(Debug)]
pub struct AppRouterInner {
    pub code: String,
    pub router: PathRouter,
}

impl AppRouterInner {
    pub fn new(code: &str, router: PathRouter) -> (r: Self)
        ensures
            r.code@ == code@,
            r.router == router,
    {
        AppRouterInner { code: String::from_str(code), router }
    }
}

/// A loaded snapshot of a tenant's bundle. It is an immutable, counted
/// reference: a snapshot in hand is unaffected by later swaps and stays
/// valid until dropped.
#[derive(Debug, Clone)]
pub struct AppRouter(pub std::sync::Arc<AppRouterInner>);

impl AppRouter {
    /// The script source of this snapshot.
    pub fn code(&self) -> (r: &String)
        ensures
            r@ == self.0.code@,
    {
        &self.0.code
    }

    /// Look up `(method, path)` in this snapshot's router.
    pub fn match_it(&self, method: Method, path: &str) -> (r: Result<RouteMatch, AppError>)
        ensures
            match_post(self.0.router@, method, path@, r),
    {
        self.0.router.lookup(method, path)
    }
}

/// The per-tenant cell holding the current bundle: lock-free loads of a
/// counted snapshot, atomic publication of a replacement. The cell is
/// shared mutable state the verifier does not track, so nothing is
/// claimed here about which bundle a given `load` observes.
#[verifier::external_body]
pub struct SwappableAppRouter {
    inner: std::sync::Arc<arc_swap::ArcSwap<AppRouterInner>>,
}

impl Clone for SwappableAppRouter {
    /// Relies on Arc::clone: another handle to the same cell.
    #[verifier::external_body]
    fn clone(&self) -> (r: Self) {
        SwappableAppRouter { inner: std::sync::Arc::clone(&self.inner) }
    }
}

/// Relies on arc_swap::ArcSwapAny::new (through from_pointee): creates
/// the cell with `inner` as its initial bundle.
#[verifier::external_body]
fn holder_new(inner: AppRouterInner) -> (r: SwappableAppRouter) {
    SwappableAppRouter { inner: std::sync::Arc::new(arc_swap::ArcSwap::from_pointee(inner)) }
}

/// Relies on arc_swap::ArcSwapAny::store: atomically publishes `inner`;
/// loads that begin afterwards observe it, snapshots already loaded are
/// untouched.
#[verifier::external_body]
fn holder_store(h: &SwappableAppRouter, inner: AppRouterInner) {
    h.inner.store(std::sync::Arc::new(inner));
}

/// Relies on arc_swap::ArcSwapAny::load_full: returns a counted
/// reference to the currently published bundle, valid for as long as it
/// is held.
#[verifier::external_body]
fn holder_load(h: &SwappableAppRouter) -> (r: AppRouter) {
    AppRouter(h.inner.load_full())
}

impl SwappableAppRouter {
    /// Compile `routes` and create a holder publishing the resulting
    /// bundle.
    pub fn try_new(code: &str, routes: ProjectRoutes) -> (r: Result<SwappableAppRouter, AppError>)
        ensures
            r is Ok <==> routes_ok(routes_view(routes@)),
            r matches Err(e) ==> e matches AppError::Config(_),
    {
        let router = match build_router(&routes) {
            Err(e) => return Err(e),
            Ok(router) => router,
        };
        Ok(holder_new(AppRouterInner::new(code, router)))
    }

    /// Compile `routes` and publish the new bundle; on a configuration
    /// error nothing is published and the prior bundle stays current.
    pub fn swap(&self, code: &str, routes: ProjectRoutes) -> (r: Result<(), AppError>)
        ensures
            r is Ok <==> routes_ok(routes_view(routes@)),
            r matches Err(e) ==> e matches AppError::Config(_),
    {
        let router = match build_router(&routes) {
            Err(e) => return Err(e),
            Ok(router) => router,
        };
        holder_store(self, AppRouterInner::new(code, router));
        Ok(())
    }

    /// A snapshot of the currently published bundle.
    pub fn load(&self) -> AppRouter {
        holder_load(self)
    }
}

} // verus!

verus! {

// ------------------------------------------------------------------
// Laws of matching
// ------------------------------------------------------------------

/// The first position at which the two patterns' kinds differ, or the
/// length of the shorter pattern if their kinds agree throughout.
spec fn first_kind_diff(a: Seq<SegView>, b: Seq<SegView>) -> int
    decreases a.len(),
{
    if a.len() == 0 || b.len() == 0 {
        0
    } else if !same_kind(a[0], b[0]) {
        0
    } else {
        1 + first_kind_diff(a.drop_first(), b.drop_first())
    }
}

proof fn lemma_first_kind_diff(a: Seq<SegView>, b: Seq<SegView>)
    ensures
        0 <= first_kind_diff(a, b) <= a.len(),
        first_kind_diff(a, b) <= b.len(),
        forall|i: int| 0 <= i < first_kind_diff(a, b) ==> same_kind(#[trigger] a[i], b[i]),
        (first_kind_diff(a, b) < a.len() && first_kind_diff(a, b) < b.len()) ==> !same_kind(
            a[first_kind_diff(a, b)],
            b[first_kind_diff(a, b)],
        ),
    decreases a.len(),
{
    if a.len() != 0 && b.len() != 0 && same_kind(a[0], b[0]) {
        lemma_first_kind_diff(a.drop_first(), b.drop_first());
        let d = first_kind_diff(a, b);
        assert forall|i: int| 0 <= i < d implies same_kind(#[trigger] a[i], b[i]) by {
            if i > 0 {
                assert(a.drop_first()[i - 1] == a[i]);
                assert(b.drop_first()[i - 1] == b[i]);
                assert(same_kind(a.drop_first()[i - 1], b.drop_first()[i - 1]));
            }
        }
        if d < a.len() && d < b.len() {
            assert(a.drop_first()[d - 1] == a[d]);
            assert(b.drop_first()[d - 1] == b[d]);
        }
    }
}

/// Precedence is asymmetric.
proof fn lemma_beats_asym(a: Seq<SegView>, b: Seq<SegView>)
    requires
        beats(a, b),
    ensures
        !beats(b, a),
{
    if beats(b, a) {
        let k1 = choose|k: int| beats_at(a, b, k);
        let k2 = choose|k: int| beats_at(b, a, k);
        if k1 == k2 {
            assert(is_param(b[k1]) && !is_param(b[k2]));
        } else if k1 < k2 {
            assert(same_kind(b[k1], a[k1]));
        } else {
            assert(same_kind(a[k2], b[k2]));
        }
    }
}

/// Precedence is transitive.
proof fn lemma_beats_trans(a: Seq<SegView>, b: Seq<SegView>, c: Seq<SegView>)
    requires
        beats(a, b),
        beats(b, c),
    ensures
        beats(a, c),
{
    let k1 = choose|k: int| beats_at(a, b, k);
    let k2 = choose|k: int| beats_at(b, c, k);
    if k1 < k2 {
        assert(same_kind(b[k1], c[k1]));
        assert(beats_at(a, c, k1));
    } else if k2 < k1 {
        assert(same_kind(a[k2], b[k2]));
        assert(beats_at(a, c, k2));
    } else {
        assert(beats_at(a, c, k1));
    }
}

/// Two matching, non-interchangeable patterns are ordered: one of them
/// takes precedence.
proof fn lemma_beats_total(a: Seq<SegView>, b: Seq<SegView>, segs: Seq<Seq<char>>)
    requires
        pat_matches(a, segs),
        pat_matches(b, segs),
        !same_shape(a, b),
    ensures
        beats(a, b) || beats(b, a),
{
    assert(a.len() == segs.len() && b.len() == segs.len());
    let d = first_kind_diff(a, b);
    lemma_first_kind_diff(a, b);
    if d == a.len() {
        assert forall|i: int|
            0 <= i < a.len() implies same_kind(#[trigger] a[i], b[i]) && (!is_param(a[i]) ==> a[i]
            == b[i]) by {
            assert(seg_matches(a[i], segs[i]));
            assert(seg_matches(b[i], segs[i]));
        }
        assert(same_shape(a, b));
    } else {
        if !is_param(a[d]) {
            assert(beats_at(a, b, d));
        } else {
            assert(!is_param(b[d]));
            assert forall|i: int| 0 <= i < d implies same_kind(#[trigger] b[i], a[i]) by {
                assert(same_kind(a[i], b[i]));
            }
            assert(beats_at(b, a, d));
        }
    }
}

/// What the scan chooses is the most specific matching route: it matches,
/// and takes precedence over every other matching route.
proof fn lemma_best_upto(rs: Seq<(Seq<SegView>, MethodRoute)>, segs: Seq<Seq<char>>, n: int)
    requires
        0 <= n <= rs.len(),
        wf_routes(rs),
    ensures
        match best_upto(rs, segs, n) {
            None => forall|j: int| 0 <= j < n ==> !pat_matches((#[trigger] rs[j]).0, segs),
            Some(i) => 0 <= i < n && pat_matches(rs[i].0, segs) && forall|j: int|
                0 <= j < n && j != i && pat_matches((#[trigger] rs[j]).0, segs) ==> beats(
                    rs[i].0,
                    rs[j].0,
                ),
        },
    decreases n,
{
    if n > 0 {
        lemma_best_upto(rs, segs, n - 1);
        let prev = best_upto(rs, segs, n - 1);
        if pat_matches(rs[n - 1].0, segs) {
            match prev {
                None => {},
                Some(j0) => {
                    assert(!same_shape(rs[j0].0, rs[n - 1].0));
                    assert(!same_shape(rs[n - 1].0, rs[j0].0)) by {
                        if same_shape(rs[n - 1].0, rs[j0].0) {
                            assert forall|i: int|
                                0 <= i < rs[j0].0.len() implies same_kind(
                                #[trigger] rs[j0].0[i],
                                rs[n - 1].0[i],
                            ) && (!is_param(rs[j0].0[i]) ==> rs[j0].0[i] == rs[n - 1].0[i]) by {
                                assert(same_kind(rs[n - 1].0[i], rs[j0].0[i]));
                            }
                        }
                    }
                    lemma_beats_total(rs[n - 1].0, rs[j0].0, segs);
                    if beats(rs[n - 1].0, rs[j0].0) {
                        assert forall|j: int|
                            0 <= j < n && j != n - 1 && pat_matches((#[trigger] rs[j]).0, segs)
                            implies beats(rs[n - 1].0, rs[j].0) by {
                            if j != j0 {
                                assert(beats(rs[j0].0, rs[j].0));
                                lemma_beats_trans(rs[n - 1].0, rs[j0].0, rs[j].0);
                            }
                        }
                    } else {
                        assert(beats(rs[j0].0, rs[n - 1].0));
                    }
                },
            }
        }
    }
}

/// Match determinism: for one router, method and path, any two results
/// that satisfy the matching contract agree, outcome and payload alike.
pub proof fn lemma_match_deterministic(
    rs: Seq<(Seq<SegView>, MethodRoute)>,
    m: Method,
    path: Seq<char>,
    r1: Result<RouteMatch, AppError>,
    r2: Result<RouteMatch, AppError>,
)
    requires
        match_post(rs, m, path, r1),
        match_post(rs, m, path, r2),
    ensures
        r1 is Ok <==> r2 is Ok,
        match (r1, r2) {
            (Ok(a), Ok(b)) => a.value@ == b.value@ && pairs_view(a.params.pairs@) == pairs_view(
                b.params.pairs@,
            ),
            (Err(e1), Err(e2)) => match (e1, e2) {
                (AppError::RoutePathNotFound(p1), AppError::RoutePathNotFound(p2)) => p1@ == p2@,
                (AppError::RouteMethodNotAllowed(m1), AppError::RouteMethodNotAllowed(m2)) => m1
                    == m2,
                _ => false,
            },
            _ => false,
        },
{
    let segs = split_path(path);
    match best_upto(rs, segs, rs.len() as int) {
        None => {},
        Some(i) => {
            match method_slot(rs[i].1, m) {
                None => {},
                Some(h) => {},
            }
        },
    }
}

/// Most-specific wins: a matching route whose pattern is all literal text
/// is the route the scan selects, whatever else matches.
pub proof fn lemma_static_wins(rs: Seq<(Seq<SegView>, MethodRoute)>, segs: Seq<Seq<char>>, i: int)
    requires
        wf_routes(rs),
        0 <= i < rs.len(),
        pat_matches(rs[i].0, segs),
        forall|k: int| 0 <= k < rs[i].0.len() ==> !is_param(#[trigger] rs[i].0[k]),
    ensures
        best_upto(rs, segs, rs.len() as int) == Some(i),
{
    lemma_best_upto(rs, segs, rs.len() as int);
    match best_upto(rs, segs, rs.len() as int) {
        None => {
            assert(!pat_matches(rs[i].0, segs));
        },
        Some(j) => {
            if j != i {
                assert(beats(rs[j].0, rs[i].0));
                let k = choose|k: int| beats_at(rs[j].0, rs[i].0, k);
                assert(is_param(rs[i].0[k]));
            }
        },
    }
}

/// The root path is matched by the root pattern alone: any pattern that
/// matches `/` is two empty literals — the compiled form of `/` itself.
pub proof fn lemma_root_pattern(p: Seq<SegView>)
    requires
        pat_matches(p, split_path("/"@)),
    ensures
        p =~= pattern_of("/"@),
{
    reveal_strlit("/");
    let s = "/"@;
    assert(s.len() == 1 && s[0] == '/');
    assert(s.drop_first() =~= Seq::<char>::empty());
    let e = Seq::<char>::empty();
    assert(split_path(e) =~~= seq![e]);
    assert(split_path(s) =~~= seq![e, e]);
    assert(p.len() == 2);
    assert(seg_matches(p[0], e) && seg_matches(p[1], e));
    assert forall|i: int| 0 <= i < 2 implies #[trigger] p[i] == SegView::Lit(e) by {
        assert(seg_matches(p[i], e));
        match p[i] {
            SegView::Par(_) => {
                assert(false);
            },
            SegView::Lit(l) => {
                assert(l =~= e);
            },
        }
    }
    assert(pattern_of(s).len() == 2);
    assert(pattern_of(s)[0] == seg_of_token(e));
    assert(pattern_of(s)[1] == seg_of_token(e));
    assert(seg_of_token(e) == SegView::Lit(e));
}

} // verus!
