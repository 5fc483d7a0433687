//! Route declarations, their compilation against a template registry, and
//! first-declared-wins path matching.
use vstd::prelude::*;
use crate::template::{Registry, find_template, names_of};
use crate::text::{same, slice_owned, starts_with};

verus! {

/// What a declared route serves.
pub enum HandlerKind {
    /// Files under a directory.
    StaticDir(String),
    /// One file.
    StaticFile(String),
    /// The template registered under this name.
    Page(String),
    /// A redirect to this target.
    Redirect(String),
    /// A reverse proxy to this target.
    Proxy(String),
}

/// One route as the configuration declares it.
pub struct RouteDecl {
    pub pattern: String,
    pub handler: HandlerKind,
}

/// How a compiled route tests a request path.
pub enum Matcher {
    /// The path equals this text.
    Exact(String),
    /// The path starts with this text (a pattern ending in `*`).
    Prefix(String),
}

/// The handler of a compiled route, with its references resolved.
pub enum Target {
    StaticDir(String),
    StaticFile(String),
    /// The template at position `index` of the registry, registered as `name`.
    Page { index: usize, name: String },
    Redirect(String),
    Proxy(String),
}

pub struct CompiledRoute {
    pub pattern: String,
    pub matcher: Matcher,
    pub target: Target,
}

/// The compiled routes of one build, in declaration order, with the
/// positions of the declarations whose pattern repeats an earlier one.
pub struct RouteTable {
    pub routes: Vec<CompiledRoute>,
    pub duplicates: Vec<usize>,
}

pub enum RouteError {
    /// Route `route` names a template that the registry does not hold.
    UnknownTemplate { route: usize, name: String },
    /// Route `route` serves a path that is not available.
    PathUnavailable { route: usize, path: String },
    /// Route `route` has a pattern that is not of the form `/...` with at
    /// most one `*`, at its end.
    InvalidPattern { route: usize, pattern: String },
}

/// A pattern starts with `/` and holds `*` at most as its last character.
pub open spec fn valid_pattern(p: Seq<char>) -> bool {
    &&& p.len() > 0
    &&& p[0] == '/'
    &&& forall|k: int| 0 <= k < p.len() - 1 ==> #[trigger] p[k] != '*'
}

pub open spec fn is_wildcard(p: Seq<char>) -> bool {
    p.len() > 0 && p.last() == '*'
}

/// Whether the pattern `p` accepts the request path `path`.
pub open spec fn accepts(p: Seq<char>, path: Seq<char>) -> bool {
    if is_wildcard(p) {
        p.drop_last().is_prefix_of(path)
    } else {
        p == path
    }
}

pub open spec fn matcher_accepts(m: Matcher, path: Seq<char>) -> bool {
    match m {
        Matcher::Exact(t) => t@ == path,
        Matcher::Prefix(t) => t@.is_prefix_of(path),
    }
}

pub open spec fn paths_view(v: Seq<String>) -> Seq<Seq<char>> {
    v.map_values(|s: String| s@)
}

/// Whether the declaration can be compiled where `names` are the registered
/// template names and `avail` lists the filesystem paths that are available.
pub open spec fn decl_ok(d: RouteDecl, names: Seq<Seq<char>>, avail: Seq<Seq<char>>) -> bool {
    &&& valid_pattern(d.pattern@)
    &&& match d.handler {
        HandlerKind::StaticDir(p) => avail.contains(p@),
        HandlerKind::StaticFile(p) => avail.contains(p@),
        HandlerKind::Page(t) => find_template(names, t@) is Some,
        _ => true,
    }
}

/// The error that route `i`, declared as `d`, fails with.
pub open spec fn decl_error(d: RouteDecl, i: int, e: RouteError, names: Seq<Seq<char>>) -> bool {
    if !valid_pattern(d.pattern@) {
        e matches RouteError::InvalidPattern { route, pattern } && route == i && pattern@
            == d.pattern@
    } else {
        match d.handler {
            HandlerKind::Page(t) => e matches RouteError::UnknownTemplate { route, name } && route
                == i && name@ == t@,
            HandlerKind::StaticDir(p) => e matches RouteError::PathUnavailable { route, path }
                && route == i && path@ == p@,
            HandlerKind::StaticFile(p) => e matches RouteError::PathUnavailable { route, path }
                && route == i && path@ == p@,
            _ => false,
        }
    }
}

/// `c` is what `d` compiles to where `names` are the registered template names.
pub open spec fn compiled_as(c: CompiledRoute, d: RouteDecl, names: Seq<Seq<char>>) -> bool {
    &&& c.pattern@ == d.pattern@
    &&& forall|path: Seq<char>| #[trigger] matcher_accepts(c.matcher, path) == accepts(d.pattern@, path)
    &&& match d.handler {
        HandlerKind::StaticDir(p) => c.target matches Target::StaticDir(q) && q@ == p@,
        HandlerKind::StaticFile(p) => c.target matches Target::StaticFile(q) && q@ == p@,
        HandlerKind::Page(t) => c.target matches Target::Page { index, name } && name@ == t@
            && find_template(names, t@) == Some(index as int),
        HandlerKind::Redirect(p) => c.target matches Target::Redirect(q) && q@ == p@,
        HandlerKind::Proxy(p) => c.target matches Target::Proxy(q) && q@ == p@,
    }
}

/// Whether the pattern of declaration `i` repeats an earlier one.
pub open spec fn is_duplicate(pats: Seq<Seq<char>>, i: int) -> bool {
    exists|j: int| 0 <= j < i && pats[j] == pats[i]
}

/// The positions below `n` whose pattern repeats an earlier one, ascending.
pub open spec fn duplicates_below(pats: Seq<Seq<char>>, n: int) -> Seq<int>
    decreases n,
{
    if n <= 0 {
        Seq::empty()
    } else if is_duplicate(pats, n - 1) {
        duplicates_below(pats, n - 1).push(n - 1)
    } else {
        duplicates_below(pats, n - 1)
    }
}

pub open spec fn patterns_of(decls: Seq<RouteDecl>) -> Seq<Seq<char>> {
    decls.map_values(|d: RouteDecl| d.pattern@)
}

pub open spec fn indices_view(v: Seq<usize>) -> Seq<int> {
    v.map_values(|x: usize| x as int)
}

/// Compiles a pattern into its matcher.
pub fn compile_pattern(p: &str) -> (r: Matcher)
    ensures
        forall|path: Seq<char>| #[trigger] matcher_accepts(r, path) == accepts(p@, path),
{
    let n = p.unicode_len();
    if n > 0 && p.get_char(n - 1) == '*' {
        Matcher::Prefix(slice_owned(p, 0, n - 1))
    } else {
        Matcher::Exact(String::from_str(p))
    }
}

/// Whether `p` is a valid pattern.
pub fn check_pattern(p: &str) -> (r: bool)
    ensures
        r == valid_pattern(p@),
{
    let n = p.unicode_len();
    if n == 0 || p.get_char(0) != '/' {
        return false;
    }
    let mut k: usize = 0;
    while k < n - 1
        invariant
            n == p@.len(),
            n > 0,
            k <= n - 1,
            forall|m: int| 0 <= m < k ==> #[trigger] p@[m] != '*',
        decreases n - 1 - k,
    {
        if p.get_char(k) == '*' {
            return false;
        }
        k = k + 1;
    }
    true
}

/// Whether `avail` lists `p`.
pub fn is_available(avail: &Vec<String>, p: &str) -> (r: bool)
    ensures
        r == paths_view(avail@).contains(p@),
{
    let ghost av = paths_view(avail@);
    let mut k: usize = 0;
    while k < avail.len()
        invariant
            k <= avail@.len(),
            av == paths_view(avail@),
            forall|m: int| 0 <= m < k ==> av[m] != p@,
        decreases avail@.len() - k,
    {
        if same(avail[k].as_str(), p) {
            assert(av[k as int] == p@);
            return true;
        }
        k = k + 1;
    }
    false
}

/// Compiles declaration `i`, or gives the error it fails with.
pub fn compile_route(d: &RouteDecl, i: usize, reg: &Registry, avail: &Vec<String>) -> (r: Result<
    CompiledRoute,
    RouteError,
>)
    ensures
        r is Ok <==> decl_ok(*d, names_of(reg.templates@), paths_view(avail@)),
        r matches Ok(c) ==> compiled_as(c, *d, names_of(reg.templates@)),
        r matches Err(e) ==> decl_error(*d, i as int, e, names_of(reg.templates@)),
{
    if !check_pattern(d.pattern.as_str()) {
        return Err(RouteError::InvalidPattern { route: i, pattern: d.pattern.clone() });
    }
    let target = match &d.handler {
        HandlerKind::StaticDir(p) => {
            if !is_available(avail, p.as_str()) {
                return Err(RouteError::PathUnavailable { route: i, path: p.clone() });
            }
            Target::StaticDir(p.clone())
        },
        HandlerKind::StaticFile(p) => {
            if !is_available(avail, p.as_str()) {
                return Err(RouteError::PathUnavailable { route: i, path: p.clone() });
            }
            Target::StaticFile(p.clone())
        },
        HandlerKind::Page(t) => match reg.lookup(t.as_str()) {
            Some(index) => Target::Page { index, name: t.clone() },
            None => {
                return Err(RouteError::UnknownTemplate { route: i, name: t.clone() });
            },
        },
        HandlerKind::Redirect(p) => Target::Redirect(p.clone()),
        HandlerKind::Proxy(p) => Target::Proxy(p.clone()),
    };
    Ok(CompiledRoute { pattern: d.pattern.clone(), matcher: compile_pattern(d.pattern.as_str()), target })
}

/// Whether some declaration before `i` has the pattern of declaration `i`.
fn repeats_earlier(decls: &Vec<RouteDecl>, i: usize) -> (r: bool)
    requires
        i < decls@.len(),
    ensures
        r == is_duplicate(patterns_of(decls@), i as int),
{
    let ghost pats = patterns_of(decls@);
    let mut j: usize = 0;
    while j < i
        invariant
            i < decls@.len(),
            j <= i,
            pats == patterns_of(decls@),
            forall|m: int| 0 <= m < j ==> pats[m] != pats[i as int],
        decreases i - j,
    {
        if same(decls[j].pattern.as_str(), decls[i].pattern.as_str()) {
            assert(pats[j as int] == pats[i as int]);
            return true;
        }
        j = j + 1;
    }
    false
}

/// `t` holds, in order, what each of `decls` compiles to, and lists the
/// declarations that repeat an earlier pattern.
pub open spec fn table_from(t: RouteTable, decls: Seq<RouteDecl>, names: Seq<Seq<char>>) -> bool {
    &&& t.routes@.len() == decls.len()
    &&& forall|i: int| 0 <= i < decls.len() ==> compiled_as(#[trigger] t.routes@[i], decls[i], names)
    &&& indices_view(t.duplicates@) == duplicates_below(patterns_of(decls), decls.len() as int)
}

/// `e` reports the first declaration that cannot be compiled.
pub open spec fn build_failure(
    decls: Seq<RouteDecl>,
    names: Seq<Seq<char>>,
    avail: Seq<Seq<char>>,
    e: RouteError,
) -> bool {
    exists|i: int|
        0 <= i < decls.len() && (forall|j: int| 0 <= j < i ==> decl_ok(#[trigger] decls[j], names, avail))
            && !decl_ok(decls[i], names, avail) && decl_error(#[trigger] decls[i], i, e, names)
}

/// Compiles every declaration, in order, against `reg`; `avail` lists the
/// filesystem paths that are available. Fails on the first declaration
/// that cannot be compiled.
pub fn build(decls: &Vec<RouteDecl>, reg: &Registry, avail: &Vec<String>) -> (r: Result<
    RouteTable,
    RouteError,
>)
    ensures
        r is Ok <==> forall|i: int|
            0 <= i < decls@.len() ==> decl_ok(#[trigger] decls@[i], names_of(reg.templates@), paths_view(avail@)),
        r matches Ok(t) ==> table_from(t, decls@, names_of(reg.templates@)),
        r matches Err(e) ==> build_failure(decls@, names_of(reg.templates@), paths_view(avail@), e),
{
    let mut routes: Vec<CompiledRoute> = Vec::new();
    let mut duplicates: Vec<usize> = Vec::new();
    let mut i: usize = 0;
    while i < decls.len()
        invariant
            i <= decls@.len(),
            routes@.len() == i,
            forall|k: int| 0 <= k < i ==> compiled_as(#[trigger] routes@[k], decls@[k], names_of(reg.templates@)),
            forall|k: int| 0 <= k < i ==> decl_ok(#[trigger] decls@[k], names_of(reg.templates@), paths_view(avail@)),
            indices_view(duplicates@) == duplicates_below(patterns_of(decls@), i as int),
        decreases decls@.len() - i,
    {
        let c = compile_route(&decls[i], i, reg, avail);
        match c {
            Ok(c) => {
                routes.push(c);
            },
            Err(e) => {
                return Err(e);
            },
        }
        if repeats_earlier(decls, i) {
            let ghost before = duplicates@;
            duplicates.push(i);
            assert(indices_view(duplicates@) =~= indices_view(before).push(i as int));
        }
        i = i + 1;
    }
    Ok(RouteTable { routes, duplicates })
}

/// The first position from `k` of a route that accepts `path`, or `routes.len()`.
pub open spec fn first_match(routes: Seq<CompiledRoute>, path: Seq<char>, k: int) -> int
    decreases routes.len() - k,
{
    if k < 0 || k >= routes.len() {
        routes.len() as int
    } else if accepts(routes[k].pattern@, path) {
        k
    } else {
        first_match(routes, path, k + 1)
    }
}

/// The route that serves `path`: the first declared one that accepts it.
pub open spec fn select_route(routes: Seq<CompiledRoute>, path: Seq<char>) -> Option<int> {
    if first_match(routes, path, 0) < routes.len() {
        Some(first_match(routes, path, 0))
    } else {
        None
    }
}

/// Whether each route's matcher agrees with its pattern.
pub open spec fn matchers_agree(routes: Seq<CompiledRoute>) -> bool {
    forall|i: int, path: Seq<char>|
        0 <= i < routes.len() ==> #[trigger] matcher_accepts(routes[i].matcher, path) == accepts(
            routes[i].pattern@,
            path,
        )
}

impl RouteTable {
    pub open spec fn well_formed(&self) -> bool {
        matchers_agree(self.routes@)
    }

    /// The position of the route that serves `path`.
    pub fn select(&self, path: &str) -> (r: Option<usize>)
        requires
            self.well_formed(),
        ensures
            r matches Some(k) ==> select_route(self.routes@, path@) == Some(k as int),
            r is None ==> select_route(self.routes@, path@) is None,
    {
        let mut k: usize = 0;
        while k < self.routes.len()
            invariant
                k <= self.routes@.len(),
                matchers_agree(self.routes@),
                first_match(self.routes@, path@, 0) == first_match(self.routes@, path@, k as int),
            decreases self.routes@.len() - k,
        {
            let hit = match &self.routes[k].matcher {
                Matcher::Exact(t) => same(t.as_str(), path),
                Matcher::Prefix(t) => starts_with(path, t.as_str()),
            };
            assert(hit == matcher_accepts(self.routes@[k as int].matcher, path@));
            if hit {
                return Some(k);
            }
            k = k + 1;
        }
        None
    }
}

} // verus!
