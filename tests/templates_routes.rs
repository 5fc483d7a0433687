use binserve_core::route::{build, HandlerKind, RouteDecl, RouteError, Target};
use binserve_core::template::{
    compile_all, parse_template, render_with, template_name, Registry, Segment, TemplateError,
    TemplateSource,
};

fn s(x: &str) -> String {
    x.to_string()
}

fn source(name: &str, body: &str) -> TemplateSource {
    TemplateSource { name: s(name), body: s(body) }
}

fn decl(pattern: &str, handler: HandlerKind) -> RouteDecl {
    RouteDecl { pattern: s(pattern), handler }
}

fn registry(names: &[&str]) -> Registry {
    match compile_all(&names.iter().map(|n| source(n, "x")).collect()) {
        Ok(r) => r,
        Err(_) => panic!("compile failed"),
    }
}

#[test]
fn parse_splits_text_and_placeholders() {
    match parse_template("Hello {{  name }}, {{a.b}}!") {
        Ok(segs) => {
            assert_eq!(segs.len(), 5);
            assert!(matches!(&segs[0], Segment::Text(t) if t == "Hello "));
            assert!(matches!(&segs[1], Segment::Var(n) if n == "name"));
            assert!(matches!(&segs[2], Segment::Text(t) if t == ", "));
            assert!(matches!(&segs[3], Segment::Var(n) if n == "a.b"));
            assert!(matches!(&segs[4], Segment::Text(t) if t == "!"));
        }
        Err(_) => panic!("parse failed"),
    }
}

#[test]
fn parse_empty_template() {
    assert!(matches!(parse_template(""), Ok(v) if v.is_empty()));
}

#[test]
fn parse_rejects_bad_placeholders() {
    assert!(matches!(parse_template("ab{{x"), Err(2)));
    assert!(matches!(parse_template("{{bad name}}"), Err(0)));
    assert!(matches!(parse_template("ok {{x}} {{}}"), Err(9)));
    assert!(matches!(parse_template("a }} b"), Ok(v) if v.len() == 1));
}

#[test]
fn compile_all_is_all_or_nothing() {
    let srcs = vec![source("a", "fine"), source("b", "{{ broken"), source("c", "also {{x}}")];
    match compile_all(&srcs) {
        Err(TemplateError::ParseFailed { name, at }) => {
            assert_eq!(name, "b");
            assert_eq!(at, 0);
        }
        _ => panic!("expected failure"),
    }
    let ok = vec![source("a", "fine"), source("c", "also {{x}}")];
    match compile_all(&ok) {
        Ok(reg) => {
            assert_eq!(reg.templates.len(), 2);
            assert_eq!(reg.templates[1].name, "c");
        }
        Err(_) => panic!("expected success"),
    }
}

#[test]
fn render_fills_placeholders_from_context() {
    let reg = match compile_all(&vec![source("greet", "Hi {{who}}, {{who}} {{ x }}")]) {
        Ok(r) => r,
        Err(_) => panic!("compile failed"),
    };
    let ctx = vec![(s("who"), s("Bo")), (s("x"), s("1")), (s("who"), s("ignored"))];
    assert!(matches!(reg.render("greet", &ctx), Ok(out) if out == "Hi Bo, Bo 1"));
    match reg.render("greet", &vec![(s("who"), s("Bo"))]) {
        Err(TemplateError::RenderFailed { name, variable }) => {
            assert_eq!(name, "greet");
            assert_eq!(variable, "x");
        }
        _ => panic!("expected a render failure"),
    }
    match reg.render("nope", &ctx) {
        Err(TemplateError::NotFound { name }) => assert_eq!(name, "nope"),
        _ => panic!("expected not found"),
    }
    assert_eq!(reg.lookup("greet"), Some(0));
}

#[test]
fn render_with_segments() {
    let segs = vec![Segment::Text(s("a")), Segment::Var(s("k")), Segment::Text(s("c"))];
    assert!(matches!(render_with(&segs, &vec![(s("k"), s("B"))]), Ok(o) if o == "aBc"));
    assert!(matches!(render_with(&segs, &vec![]), Err(n) if n == "k"));
}

#[test]
fn build_keeps_count_and_order() {
    let reg = registry(&["index", "post"]);
    let decls = vec![
        decl("/", HandlerKind::Page(s("index"))),
        decl("/old", HandlerKind::Redirect(s("/new"))),
        decl("/api/*", HandlerKind::Proxy(s("http://127.0.0.1:9000"))),
        decl("/post", HandlerKind::Page(s("post"))),
    ];
    match build(&decls, &reg, &vec![]) {
        Ok(t) => {
            assert_eq!(t.routes.len(), 4);
            for (r, d) in t.routes.iter().zip(decls.iter()) {
                assert_eq!(r.pattern, d.pattern);
            }
            assert!(matches!(&t.routes[0].target, Target::Page { index: 0, name } if name == "index"));
            assert!(matches!(&t.routes[3].target, Target::Page { index: 1, .. }));
            assert!(t.duplicates.is_empty());
        }
        Err(_) => panic!("build failed"),
    }
}

#[test]
fn build_of_no_routes_is_empty() {
    match build(&vec![], &registry(&[]), &vec![]) {
        Ok(t) => assert!(t.routes.is_empty()),
        Err(_) => panic!("build failed"),
    }
}

#[test]
fn duplicate_patterns_are_kept_and_reported() {
    let reg = registry(&["a"]);
    let decls = vec![
        decl("/x", HandlerKind::Redirect(s("/1"))),
        decl("/y", HandlerKind::Redirect(s("/2"))),
        decl("/x", HandlerKind::Redirect(s("/3"))),
        decl("/x", HandlerKind::Redirect(s("/4"))),
    ];
    match build(&decls, &reg, &vec![]) {
        Ok(t) => {
            assert_eq!(t.routes.len(), 4);
            assert_eq!(t.duplicates, vec![2, 3]);
            assert_eq!(t.select("/x"), Some(0));
        }
        Err(_) => panic!("build failed"),
    }
}

#[test]
fn first_declared_route_wins() {
    let reg = registry(&["blog", "special"]);
    let decls = vec![
        decl("/blog/*", HandlerKind::Page(s("blog"))),
        decl("/blog/special", HandlerKind::Page(s("special"))),
    ];
    match build(&decls, &reg, &vec![]) {
        Ok(t) => {
            assert_eq!(t.select("/blog/special"), Some(0));
            assert_eq!(t.select("/blog/"), Some(0));
            assert_eq!(t.select("/blog"), None);
            assert_eq!(t.select("/other"), None);
        }
        Err(_) => panic!("build failed"),
    }
}

#[test]
fn build_errors() {
    let reg = registry(&["index"]);
    let bad_pattern = vec![decl("no-slash", HandlerKind::Redirect(s("/")))];
    assert!(matches!(
        build(&bad_pattern, &reg, &vec![]),
        Err(RouteError::InvalidPattern { route: 0, pattern }) if pattern == "no-slash"
    ));
    let star_inside = vec![decl("/", HandlerKind::Redirect(s("/"))), decl("/a*b", HandlerKind::Redirect(s("/")))];
    assert!(matches!(
        build(&star_inside, &reg, &vec![]),
        Err(RouteError::InvalidPattern { route: 1, .. })
    ));
    let unknown = vec![decl("/", HandlerKind::Page(s("missing")))];
    assert!(matches!(
        build(&unknown, &reg, &vec![]),
        Err(RouteError::UnknownTemplate { route: 0, name }) if name == "missing"
    ));
    let files = vec![
        decl("/static/*", HandlerKind::StaticDir(s("public/static"))),
        decl("/favicon.ico", HandlerKind::StaticFile(s("public/favicon.ico"))),
    ];
    assert!(matches!(
        build(&files, &reg, &vec![s("public/static")]),
        Err(RouteError::PathUnavailable { route: 1, path }) if path == "public/favicon.ico"
    ));
    match build(&files, &reg, &vec![s("public/static"), s("public/favicon.ico")]) {
        Ok(t) => {
            assert!(matches!(&t.routes[0].target, Target::StaticDir(p) if p == "public/static"));
            assert_eq!(t.select("/static/app.css"), Some(0));
            assert_eq!(t.select("/favicon.ico"), Some(1));
        }
        Err(_) => panic!("build failed"),
    }
}

#[test]
fn template_names_drop_extension() {
    assert_eq!(template_name("index.hbs"), "index");
    assert_eq!(template_name("pages/about.html"), "pages/about");
    assert_eq!(template_name("pages\\blog.post.hbs"), "pages/blog.post");
    assert_eq!(template_name("dir.v/readme"), "dir.v/readme");
    assert_eq!(template_name("plain"), "plain");
    assert_eq!(template_name(""), "");
}
