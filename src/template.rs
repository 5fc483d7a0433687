//! Templates: text with `{{ name }}` placeholders, compiled whole-or-nothing
//! into a registry and rendered against a key/value context.
use vstd::prelude::*;
use crate::text::slice_owned;

verus! {

/// One piece of a compiled template.
pub enum Segment {
    /// Literal text, copied to the output as it stands.
    Text(String),
    /// A placeholder, replaced by the context's value for this name.
    Var(String),
}

/// The mathematical value of a `Segment`.
pub enum SegmentView {
    Text(Seq<char>),
    Var(Seq<char>),
}

impl View for Segment {
    type V = SegmentView;

    open spec fn view(&self) -> SegmentView {
        match self {
            Segment::Text(t) => SegmentView::Text(t@),
            Segment::Var(n) => SegmentView::Var(n@),
        }
    }
}

pub open spec fn segments_view(v: Seq<Segment>) -> Seq<SegmentView> {
    v.map_values(|g: Segment| g@)
}

/// The first `k' >= k` where `c` stands twice in a row, or `s.len()` if none.
pub open spec fn next_pair(s: Seq<char>, c: char, k: int) -> int
    decreases s.len() - k,
{
    if k + 1 >= s.len() {
        s.len() as int
    } else if s[k] == c && s[k + 1] == c {
        k
    } else {
        next_pair(s, c, k + 1)
    }
}

pub open spec fn is_open(s: Seq<char>, i: int) -> bool {
    0 <= i && i + 1 < s.len() && s[i] == '{' && s[i + 1] == '{'
}

/// Skips blanks forward from `lo`, not past `hi`.
pub open spec fn skip_fwd(s: Seq<char>, lo: int, hi: int) -> int
    decreases hi - lo,
{
    if lo < hi && s[lo] == ' ' {
        skip_fwd(s, lo + 1, hi)
    } else {
        lo
    }
}

/// Skips blanks backward from `hi`, not past `lo`.
pub open spec fn skip_back(s: Seq<char>, lo: int, hi: int) -> int
    decreases hi - lo,
{
    if lo < hi && s[hi - 1] == ' ' {
        skip_back(s, lo, hi - 1)
    } else {
        hi
    }
}

/// The placeholder name between `a` and `b`, blanks at both ends removed.
pub open spec fn tag_name(s: Seq<char>, a: int, b: int) -> Seq<char> {
    let lo = skip_fwd(s, a, b);
    s.subrange(lo, skip_back(s, lo, b))
}

pub open spec fn is_name_char(c: char) -> bool {
    ('a' <= c && c <= 'z') || ('A' <= c && c <= 'Z') || ('0' <= c && c <= '9') || c == '_'
        || c == '.' || c == '-'
}

pub open spec fn valid_name(n: Seq<char>) -> bool {
    n.len() > 0 && forall|k: int| 0 <= k < n.len() ==> is_name_char(#[trigger] n[k])
}

pub open spec fn prepend<E>(acc: Seq<SegmentView>, r: Result<Seq<SegmentView>, E>) -> Result<
    Seq<SegmentView>,
    E,
> {
    match r {
        Ok(rest) => Ok(acc + rest),
        Err(e) => Err(e),
    }
}

/// The segments of `s` from position `i`, or the position of the first
/// placeholder that is unclosed or holds no valid name.
pub open spec fn parse_from(s: Seq<char>, i: int) -> Result<Seq<SegmentView>, int>
    decreases s.len() - i,
    via parse_from_decreases
{
    if i < 0 || i >= s.len() {
        Ok(Seq::empty())
    } else if is_open(s, i) {
        let c = next_pair(s, '}', i + 2);
        if c >= s.len() {
            Err(i)
        } else if !valid_name(tag_name(s, i + 2, c)) {
            Err(i)
        } else {
            prepend(seq![SegmentView::Var(tag_name(s, i + 2, c))], parse_from(s, c + 2))
        }
    } else {
        let j = next_pair(s, '{', i);
        prepend(seq![SegmentView::Text(s.subrange(i, j))], parse_from(s, j))
    }
}

/// What a template source compiles to.
pub open spec fn parse(s: Seq<char>) -> Result<Seq<SegmentView>, int> {
    parse_from(s, 0)
}

proof fn lemma_next_pair_bounds(s: Seq<char>, c: char, k: int)
    requires
        k <= s.len(),
    ensures
        k <= next_pair(s, c, k) <= s.len(),
        next_pair(s, c, k) < s.len() ==> next_pair(s, c, k) + 1 < s.len(),
    decreases s.len() - k,
{
    if k + 1 < s.len() {
        lemma_next_pair_bounds(s, c, k + 1);
    }
}

#[via_fn]
proof fn parse_from_decreases(s: Seq<char>, i: int) {
    if 0 <= i < s.len() {
        if is_open(s, i) {
            lemma_next_pair_bounds(s, '}', i + 2);
        } else if i + 1 < s.len() {
            lemma_next_pair_bounds(s, '{', i + 1);
        }
    }
}

/// Position of the next doubled `c` in `s` from `k`, as `next_pair`.
fn find_pair(s: &str, n: usize, c: char, k: usize) -> (r: usize)
    requires
        n == s@.len(),
        k <= n,
    ensures
        r == next_pair(s@, c, k as int),
{
    let mut p = k;
    while p < n && n - p > 1
        invariant
            n == s@.len(),
            k <= p <= n,
            next_pair(s@, c, k as int) == next_pair(s@, c, p as int),
        decreases n - p,
    {
        if s.get_char(p) == c && s.get_char(p + 1) == c {
            return p;
        }
        p = p + 1;
    }
    n
}

fn name_char(c: char) -> (r: bool)
    ensures
        r == is_name_char(c),
{
    ('a' <= c && c <= 'z') || ('A' <= c && c <= 'Z') || ('0' <= c && c <= '9') || c == '_'
        || c == '.' || c == '-'
}

/// The placeholder name between `a` and `b`, if it is a valid one.
fn read_tag(s: &str, a: usize, b: usize) -> (r: Option<String>)
    requires
        a <= b <= s@.len(),
    ensures
        r is Some <==> valid_name(tag_name(s@, a as int, b as int)),
        r matches Some(t) ==> t@ == tag_name(s@, a as int, b as int),
{
    let mut lo = a;
    while lo < b && s.get_char(lo) == ' '
        invariant
            a <= lo <= b <= s@.len(),
            skip_fwd(s@, a as int, b as int) == skip_fwd(s@, lo as int, b as int),
        decreases b - lo,
    {
        lo = lo + 1;
    }
    let mut hi = b;
    while hi > lo && s.get_char(hi - 1) == ' '
        invariant
            a <= lo <= hi <= b <= s@.len(),
            skip_back(s@, lo as int, b as int) == skip_back(s@, lo as int, hi as int),
        decreases hi - lo,
    {
        hi = hi - 1;
    }
    assert(skip_fwd(s@, lo as int, b as int) == lo as int);
    assert(skip_back(s@, lo as int, hi as int) == hi as int);
    assert(tag_name(s@, a as int, b as int) == s@.subrange(lo as int, hi as int));
    if hi == lo {
        return None;
    }
    let mut k = lo;
    while k < hi
        invariant
            lo <= k <= hi <= s@.len(),
            tag_name(s@, a as int, b as int) == s@.subrange(lo as int, hi as int),
            forall|m: int| lo <= m < k ==> is_name_char(#[trigger] s@[m]),
        decreases hi - k,
    {
        if !name_char(s.get_char(k)) {
            proof {
                assert(s@.subrange(lo as int, hi as int)[k - lo] == s@[k as int]);
            }
            return None;
        }
        k = k + 1;
    }
    let t = slice_owned(s, lo, hi);
    assert forall|m: int| 0 <= m < t@.len() implies is_name_char(#[trigger] t@[m]) by {
        assert(t@[m] == s@[lo + m]);
    }
    Some(t)
}

/// Compiles one template source into its segments, or the position of the
/// first malformed placeholder.
pub fn parse_template(src: &str) -> (r: Result<Vec<Segment>, usize>)
    ensures
        r matches Ok(v) ==> parse(src@) == Ok::<Seq<SegmentView>, int>(segments_view(v@)),
        r matches Err(at) ==> parse(src@) == Err::<Seq<SegmentView>, int>(at as int),
{
    let n = src.unicode_len();
    let mut out: Vec<Segment> = Vec::new();
    let mut i: usize = 0;
    while i < n
        invariant
            n == src@.len(),
            i <= n,
            parse(src@) == prepend(segments_view(out@), parse_from(src@, i as int)),
        decreases n - i,
    {
        let ghost s = src@;
        let ghost before = segments_view(out@);
        if i + 1 < n && src.get_char(i) == '{' && src.get_char(i + 1) == '{' {
            let c = find_pair(src, n, '}', i + 2);
            proof {
                lemma_next_pair_bounds(s, '}', i + 2);
            }
            if c >= n {
                return Err(i);
            }
            match read_tag(src, i + 2, c) {
                None => {
                    return Err(i);
                },
                Some(name) => {
                    let ghost nv = name@;
                    out.push(Segment::Var(name));
                    proof {
                        assert(segments_view(out@) =~= before + seq![SegmentView::Var(nv)]);
                        match parse_from(s, c + 2) {
                            Ok(rest) => {
                                assert(before + (seq![SegmentView::Var(nv)] + rest) =~= (before
                                    + seq![SegmentView::Var(nv)]) + rest);
                            },
                            Err(_) => {},
                        }
                    }
                    i = c + 2;
                },
            }
        } else {
            let j = find_pair(src, n, '{', i);
            proof {
                if i + 1 < n {
                    lemma_next_pair_bounds(s, '{', i + 1);
                }
            }
            let t = slice_owned(src, i, j);
            let ghost tv = t@;
            out.push(Segment::Text(t));
            proof {
                assert(segments_view(out@) =~= before + seq![SegmentView::Text(tv)]);
                match parse_from(s, j as int) {
                    Ok(rest) => {
                        assert(before + (seq![SegmentView::Text(tv)] + rest) =~= (before
                            + seq![SegmentView::Text(tv)]) + rest);
                    },
                    Err(_) => {},
                }
            }
            i = j;
        }
    }
    proof {
        assert(segments_view(out@) + Seq::<SegmentView>::empty() =~= segments_view(out@));
    }
    Ok(out)
}

} // verus!

verus! {

/// A template file: its registry name and its text.
pub struct TemplateSource {
    pub name: String,
    pub body: String,
}

/// A compiled template, ready to render.
pub struct Template {
    pub name: String,
    pub segments: Vec<Segment>,
}

/// The templates of one build, in the order of their sources.
pub struct Registry {
    pub templates: Vec<Template>,
}

pub enum TemplateError {
    /// The template `name` holds a malformed placeholder at character `at`.
    ParseFailed { name: String, at: usize },
    /// Rendering `name` met a placeholder that the context does not fill.
    RenderFailed { name: String, variable: String },
    /// No template is registered under `name`.
    NotFound { name: String },
}

pub open spec fn compiles(src: TemplateSource) -> bool {
    parse(src.body@) is Ok
}

/// `reg` holds, in order, one template for each source, named as the source
/// and holding what its text parses to.
pub open spec fn compiled_from(reg: Seq<Template>, srcs: Seq<TemplateSource>) -> bool {
    &&& reg.len() == srcs.len()
    &&& forall|i: int|
        0 <= i < reg.len() ==> {
            &&& (#[trigger] reg[i]).name@ == srcs[i].name@
            &&& parse(srcs[i].body@) == Ok::<Seq<SegmentView>, int>(segments_view(reg[i].segments@))
        }
}

/// `e` reports the first source that does not parse.
pub open spec fn compile_failure(srcs: Seq<TemplateSource>, e: TemplateError) -> bool {
    exists|i: int|
        0 <= i < srcs.len() && (forall|j: int| 0 <= j < i ==> compiles(#[trigger] srcs[j])) && (
        e matches TemplateError::ParseFailed { name, at } && name@ == (#[trigger] srcs[i]).name@
            && parse(srcs[i].body@) == Err::<Seq<SegmentView>, int>(at as int))
}

/// Compiles every source, or fails on the first that does not parse; no
/// registry is produced unless all of them do.
pub fn compile_all(sources: &Vec<TemplateSource>) -> (r: Result<Registry, TemplateError>)
    ensures
        r is Ok <==> forall|i: int| 0 <= i < sources@.len() ==> compiles(#[trigger] sources@[i]),
        r matches Ok(reg) ==> compiled_from(reg.templates@, sources@),
        r matches Err(e) ==> compile_failure(sources@, e),
{
    let mut templates: Vec<Template> = Vec::new();
    let mut i: usize = 0;
    while i < sources.len()
        invariant
            i <= sources@.len(),
            compiled_from(templates@, sources@.subrange(0, i as int)),
            forall|j: int| 0 <= j < i ==> compiles(#[trigger] sources@[j]),
        decreases sources@.len() - i,
    {
        let src = &sources[i];
        match parse_template(src.body.as_str()) {
            Ok(segments) => {
                templates.push(Template { name: src.name.clone(), segments });
                proof {
                    let s = sources@.subrange(0, i as int + 1);
                    assert forall|k: int| 0 <= k < templates@.len() implies {
                        &&& (#[trigger] templates@[k]).name@ == s[k].name@
                        &&& parse(s[k].body@) == Ok::<Seq<SegmentView>, int>(
                            segments_view(templates@[k].segments@),
                        )
                    } by {
                        if k < i {
                            assert(s[k] == sources@.subrange(0, i as int)[k]);
                        }
                    }
                }
            },
            Err(at) => {
                return Err(TemplateError::ParseFailed { name: src.name.clone(), at });
            },
        }
        i = i + 1;
    }
    assert(sources@.subrange(0, i as int) =~= sources@);
    Ok(Registry { templates })
}

pub open spec fn names_of(reg: Seq<Template>) -> Seq<Seq<char>> {
    reg.map_values(|t: Template| t.name@)
}

pub open spec fn source_names(srcs: Seq<TemplateSource>) -> Seq<Seq<char>> {
    srcs.map_values(|t: TemplateSource| t.name@)
}

/// The first position from `k` of `name` in `names`, or `names.len()`.
pub open spec fn first_named(names: Seq<Seq<char>>, name: Seq<char>, k: int) -> int
    decreases names.len() - k,
{
    if k < 0 || k >= names.len() {
        names.len() as int
    } else if names[k] == name {
        k
    } else {
        first_named(names, name, k + 1)
    }
}

/// Where `name` is registered: its first occurrence among `names`.
pub open spec fn find_template(names: Seq<Seq<char>>, name: Seq<char>) -> Option<int> {
    if first_named(names, name, 0) < names.len() {
        Some(first_named(names, name, 0))
    } else {
        None
    }
}

proof fn lemma_first_named(names: Seq<Seq<char>>, name: Seq<char>, k: int)
    requires
        0 <= k,
    ensures
        k <= first_named(names, name, k) <= names.len() || k > names.len(),
        first_named(names, name, k) < names.len() ==> names[first_named(names, name, k)] == name,
    decreases names.len() - k,
{
    if k < names.len() && names[k] != name {
        lemma_first_named(names, name, k + 1);
    }
}

/// A name that `find_template` gives a position for is registered there.
pub proof fn lemma_find_template(names: Seq<Seq<char>>, name: Seq<char>)
    ensures
        find_template(names, name) matches Some(k) ==> 0 <= k < names.len() && names[k] == name,
{
    lemma_first_named(names, name, 0);
}

/// A registry compiled from `srcs` registers the sources' names.
pub proof fn lemma_compiled_names(reg: Seq<Template>, srcs: Seq<TemplateSource>)
    requires
        compiled_from(reg, srcs),
    ensures
        names_of(reg) == source_names(srcs),
{
    assert(names_of(reg) =~= source_names(srcs));
}

pub open spec fn context_view(ctx: Seq<(String, String)>) -> Seq<(Seq<char>, Seq<char>)> {
    ctx.map_values(|p: (String, String)| (p.0@, p.1@))
}

/// The first position from `k` of the key `key` in `ctx`, or `ctx.len()`.
pub open spec fn first_key(ctx: Seq<(Seq<char>, Seq<char>)>, key: Seq<char>, k: int) -> int
    decreases ctx.len() - k,
{
    if k < 0 || k >= ctx.len() {
        ctx.len() as int
    } else if ctx[k].0 == key {
        k
    } else {
        first_key(ctx, key, k + 1)
    }
}

/// The value that `ctx` gives `key`: that of its first entry with this key.
pub open spec fn value_of(ctx: Seq<(Seq<char>, Seq<char>)>, key: Seq<char>) -> Option<Seq<char>> {
    let k = first_key(ctx, key, 0);
    if k < ctx.len() {
        Some(ctx[k].1)
    } else {
        None
    }
}

pub open spec fn cat(a: Seq<char>, r: Result<Seq<char>, Seq<char>>) -> Result<Seq<char>, Seq<char>> {
    match r {
        Ok(x) => Ok(a + x),
        Err(e) => Err(e),
    }
}

/// The text that `segs` from position `i` render to, or the first
/// placeholder name that `ctx` leaves unfilled.
pub open spec fn render_from(segs: Seq<SegmentView>, ctx: Seq<(Seq<char>, Seq<char>)>, i: int) -> Result<
    Seq<char>,
    Seq<char>,
>
    decreases segs.len() - i,
{
    if i < 0 || i >= segs.len() {
        Ok(Seq::empty())
    } else {
        match segs[i] {
            SegmentView::Text(t) => cat(t, render_from(segs, ctx, i + 1)),
            SegmentView::Var(n) => match value_of(ctx, n) {
                Some(v) => cat(v, render_from(segs, ctx, i + 1)),
                None => Err(n),
            },
        }
    }
}

pub open spec fn render_segments(segs: Seq<SegmentView>, ctx: Seq<(Seq<char>, Seq<char>)>) -> Result<
    Seq<char>,
    Seq<char>,
> {
    render_from(segs, ctx, 0)
}

/// The value of `key` in `ctx`, as `value_of`.
pub fn context_value<'a>(ctx: &'a Vec<(String, String)>, key: &str) -> (r: Option<&'a String>)
    ensures
        r matches Some(v) ==> value_of(context_view(ctx@), key@) == Some(v@),
        r is None ==> value_of(context_view(ctx@), key@) is None,
{
    let ghost cv = context_view(ctx@);
    let mut k: usize = 0;
    while k < ctx.len()
        invariant
            k <= ctx@.len(),
            cv == context_view(ctx@),
            first_key(cv, key@, 0) == first_key(cv, key@, k as int),
        decreases ctx@.len() - k,
    {
        if crate::text::same(ctx[k].0.as_str(), key) {
            return Some(&ctx[k].1);
        }
        k = k + 1;
    }
    None
}

impl Registry {
    /// The position of the template registered under `name`.
    pub fn lookup(&self, name: &str) -> (r: Option<usize>)
        ensures
            r matches Some(k) ==> find_template(names_of(self.templates@), name@) == Some(k as int),
            r is None ==> find_template(names_of(self.templates@), name@) is None,
    {
        let ghost names = names_of(self.templates@);
        let mut k: usize = 0;
        while k < self.templates.len()
            invariant
                k <= self.templates@.len(),
                names == names_of(self.templates@),
                first_named(names, name@, 0) == first_named(names, name@, k as int),
            decreases self.templates@.len() - k,
        {
            if crate::text::same(self.templates[k].name.as_str(), name) {
                return Some(k);
            }
            k = k + 1;
        }
        None
    }

    /// Renders the template registered under `name` with `ctx`.
    pub fn render(&self, name: &str, ctx: &Vec<(String, String)>) -> (r: Result<String, TemplateError>)
        ensures
            find_template(names_of(self.templates@), name@) is None <==> r matches Err(
                TemplateError::NotFound { .. },
            ),
            r matches Err(TemplateError::NotFound { name: n }) ==> n@ == name@,
            !(r matches Err(TemplateError::ParseFailed { .. })),
            find_template(names_of(self.templates@), name@) matches Some(k) ==> {
                let rendered = render_segments(
                    segments_view(self.templates@[k].segments@),
                    context_view(ctx@),
                );
                &&& rendered is Ok <==> r is Ok
                &&& r matches Ok(out) ==> rendered == Ok::<Seq<char>, Seq<char>>(out@)
                &&& r matches Err(TemplateError::RenderFailed { name: n, variable }) ==> n@ == name@
                    && rendered == Err::<Seq<char>, Seq<char>>(variable@)
            },
    {
        match self.lookup(name) {
            None => Err(TemplateError::NotFound { name: String::from_str(name) }),
            Some(k) => match render_with(&self.templates[k].segments, ctx) {
                Ok(out) => Ok(out),
                Err(variable) => Err(TemplateError::RenderFailed { name: String::from_str(name), variable }),
            },
        }
    }
}

/// Renders `segs` with `ctx`, or names the first placeholder left unfilled.
pub fn render_with(segs: &Vec<Segment>, ctx: &Vec<(String, String)>) -> (r: Result<String, String>)
    ensures
        r matches Ok(out) ==> render_segments(segments_view(segs@), context_view(ctx@)) == Ok::<
            Seq<char>,
            Seq<char>,
        >(out@),
        r matches Err(n) ==> render_segments(segments_view(segs@), context_view(ctx@)) == Err::<
            Seq<char>,
            Seq<char>,
        >(n@),
{
    let ghost sv = segments_view(segs@);
    let ghost cv = context_view(ctx@);
    let mut out = String::new();
    let mut i: usize = 0;
    while i < segs.len()
        invariant
            i <= segs@.len(),
            sv == segments_view(segs@),
            cv == context_view(ctx@),
            render_segments(sv, cv) == cat(out@, render_from(sv, cv, i as int)),
        decreases segs@.len() - i,
    {
        let ghost before = out@;
        match &segs[i] {
            Segment::Text(t) => {
                out.append(t.as_str());
                proof {
                    match render_from(sv, cv, i + 1) {
                        Ok(x) => {
                            assert(before + (t@ + x) =~= (before + t@) + x);
                        },
                        Err(_) => {},
                    }
                }
            },
            Segment::Var(n) => match context_value(ctx, n.as_str()) {
                Some(v) => {
                    out.append(v.as_str());
                    proof {
                        match render_from(sv, cv, i + 1) {
                            Ok(x) => {
                                assert(before + (v@ + x) =~= (before + v@) + x);
                            },
                            Err(_) => {},
                        }
                    }
                },
                None => {
                    return Err(n.clone());
                },
            },
        }
        i = i + 1;
    }
    assert(out@ + Seq::<char>::empty() =~= out@);
    Ok(out)
}

} // verus!

verus! {

/// Where the extension of the last path component starts, searching back
/// from `k`: the position of its last `.`, or `s.len()` if it has none.
pub open spec fn extension_start(s: Seq<char>, k: int) -> int
    decreases k,
{
    if k <= 0 || k > s.len() {
        s.len() as int
    } else if s[k - 1] == '/' {
        s.len() as int
    } else if s[k - 1] == '.' {
        k - 1
    } else {
        extension_start(s, k - 1)
    }
}

/// `p` with each `\\` written as `/`.
pub open spec fn slashed(p: Seq<char>) -> Seq<char> {
    p.map_values(|c: char| if c == '\\' { '/' } else { c })
}

/// The registry name of the template file at relative path `p`: the path
/// with `\\` written as `/` and the extension of its last component removed.
pub open spec fn template_name_of(p: Seq<char>) -> Seq<char> {
    slashed(p).subrange(0, extension_start(slashed(p), p.len() as int))
}

proof fn lemma_extension_start(s: Seq<char>, k: int)
    requires
        0 <= k <= s.len(),
    ensures
        0 <= extension_start(s, k) <= s.len(),
    decreases k,
{
    if k > 0 {
        lemma_extension_start(s, k - 1);
    }
}

fn extension_pos(p: &str, n: usize) -> (r: usize)
    requires
        n == p@.len(),
    ensures
        r == extension_start(slashed(p@), n as int),
        r <= n,
{
    let ghost q = slashed(p@);
    let mut k: usize = n;
    while k > 0
        invariant
            n == p@.len(),
            q == slashed(p@),
            k <= n,
            extension_start(q, n as int) == extension_start(q, k as int),
        decreases k,
    {
        let c = p.get_char(k - 1);
        assert(q[k - 1] == (if c == '\\' { '/' } else { c }));
        if c == '/' || c == '\\' {
            return n;
        }
        if c == '.' {
            return k - 1;
        }
        k = k - 1;
    }
    n
}

/// The registry name of the template file at relative path `rel_path`.
pub fn template_name(rel_path: &str) -> (r: String)
    ensures
        r@ == template_name_of(rel_path@),
{
    let n = rel_path.unicode_len();
    let ghost q = slashed(rel_path@);
    let cut = extension_pos(rel_path, n);
    let mut out = String::new();
    let mut i: usize = 0;
    while i < cut
        invariant
            cut <= n,
            n == rel_path@.len(),
            q == slashed(rel_path@),
            i <= cut,
            out@ == q.subrange(0, i as int),
        decreases cut - i,
    {
        let c = rel_path.get_char(i);
        if c == '\\' {
            out.append("/");
        } else {
            out.append(rel_path.substring_char(i, i + 1));
        }
        proof {
            reveal_strlit("/");
            assert(out@ =~= q.subrange(0, i + 1));
        }
        i = i + 1;
    }
    out
}

} // verus!
