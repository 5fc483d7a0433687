use binserve_core::config::{
    merge, ConfigError, ConfigModel, InvalidReason, Overrides, RawConfig, RawTls, TlsSettings,
};
use binserve_core::pipeline::{
    apply_outcome, build_report, run_build, BuildFailure, BuildOutcome, Reaction, Stage, TimeUnit,
};
use binserve_core::route::{HandlerKind, RouteDecl, RouteError};
use binserve_core::snapshot::{DispatchError, Response, SnapshotCell};
use binserve_core::template::{TemplateError, TemplateSource};
use binserve_core::watcher::{asset_roots, Debouncer};

fn s(x: &str) -> String {
    x.to_string()
}

fn page_route(pattern: &str, template: &str) -> RouteDecl {
    RouteDecl { pattern: s(pattern), handler: HandlerKind::Page(s(template)) }
}

fn raw(host: &str, routes: Vec<RouteDecl>) -> RawConfig {
    RawConfig { host: Some(s(host)), tls: None, enable_logging: None, routes }
}

fn no_overrides() -> Overrides {
    Overrides { host: None, tls_key: None, tls_cert: None }
}

fn source(name: &str, body: &str) -> TemplateSource {
    TemplateSource { name: s(name), body: s(body) }
}

fn scenario_a() -> BuildOutcome {
    run_build(
        Some(raw("0.0.0.0:8080", vec![page_route("/", "index")])),
        no_overrides(),
        &vec![source("index", "<h1>Hi</h1>")],
        &vec![],
    )
}

fn page_of(cell: &SnapshotCell, path: &str) -> Option<String> {
    let snap = cell.current_snapshot()?;
    match snap.dispatch(path, &vec![]) {
        Ok(Response::Page(p)) => Some(p),
        _ => None,
    }
}

#[test]
fn scenario_a_builds_and_serves_index() {
    match scenario_a() {
        BuildOutcome::Success(snap) => {
            assert_eq!(snap.table.routes.len(), 1);
            assert_eq!(snap.config.host, "0.0.0.0:8080");
            assert!(!snap.config.tls.enable);
            match snap.dispatch("/", &vec![]) {
                Ok(Response::Page(p)) => assert_eq!(p, "<h1>Hi</h1>"),
                _ => panic!("expected a page"),
            }
        }
        BuildOutcome::Failure(_) => panic!("build failed"),
    }
}

#[test]
fn scenario_b_syntax_error_fails_at_templates() {
    let out = run_build(
        Some(raw("0.0.0.0:8080", vec![page_route("/", "index")])),
        no_overrides(),
        &vec![source("index", "<h1>{{ title </h1>")],
        &vec![],
    );
    match out {
        BuildOutcome::Failure(f) => {
            assert_eq!(f.stage(), Stage::CompilingTemplates);
            match f {
                BuildFailure::Template(TemplateError::ParseFailed { name, at }) => {
                    assert_eq!(name, "index");
                    assert_eq!(at, 4);
                }
                _ => panic!("expected a parse failure"),
            }
        }
        BuildOutcome::Success(_) => panic!("build succeeded"),
    }
}

#[test]
fn scenario_b_first_startup_is_fatal() {
    let mut cell = SnapshotCell::new();
    let out = run_build(
        Some(raw("0.0.0.0:8080", vec![page_route("/", "index")])),
        no_overrides(),
        &vec![source("index", "{{")],
        &vec![],
    );
    assert!(matches!(apply_outcome(&mut cell, out), Reaction::Fatal(_)));
    assert!(cell.current_snapshot().is_none());
}

#[test]
fn scenario_b_rebuild_keeps_previous_snapshot() {
    let mut cell = SnapshotCell::new();
    assert!(matches!(apply_outcome(&mut cell, scenario_a()), Reaction::Published));
    let broken = run_build(
        Some(raw("0.0.0.0:8080", vec![page_route("/", "index")])),
        no_overrides(),
        &vec![source("index", "<h1>{{ }}</h1>")],
        &vec![],
    );
    assert!(matches!(
        apply_outcome(&mut cell, broken),
        Reaction::KeptPrevious(BuildFailure::Template(TemplateError::ParseFailed { .. }))
    ));
    assert_eq!(page_of(&cell, "/"), Some(s("<h1>Hi</h1>")));
}

#[test]
fn scenario_c_tls_without_key_is_invalid() {
    let r = RawConfig {
        host: Some(s("0.0.0.0:8080")),
        tls: Some(RawTls { enable: Some(true), key: Some(s("")), cert: Some(s("cert.pem")) }),
        enable_logging: None,
        routes: vec![],
    };
    assert!(matches!(
        ConfigModel::load(Some(r)),
        Err(ConfigError::Invalid(InvalidReason::EmptyTlsKey))
    ));
}

#[test]
fn load_missing_and_malformed() {
    assert!(matches!(ConfigModel::load(None), Err(ConfigError::Missing)));
    let no_host = RawConfig { host: None, tls: None, enable_logging: None, routes: vec![] };
    assert!(matches!(ConfigModel::load(Some(no_host)), Err(ConfigError::Malformed)));
    let partial_tls = RawConfig {
        host: Some(s("h")),
        tls: Some(RawTls { enable: Some(false), key: None, cert: Some(s("c")) }),
        enable_logging: None,
        routes: vec![],
    };
    assert!(matches!(ConfigModel::load(Some(partial_tls)), Err(ConfigError::Malformed)));
    assert!(matches!(
        ConfigModel::load(Some(raw("", vec![]))),
        Err(ConfigError::Invalid(InvalidReason::EmptyHost))
    ));
    let no_cert = RawConfig {
        host: Some(s("h")),
        tls: Some(RawTls { enable: Some(true), key: Some(s("k")), cert: Some(s("")) }),
        enable_logging: Some(true),
        routes: vec![],
    };
    assert!(matches!(
        ConfigModel::load(Some(no_cert)),
        Err(ConfigError::Invalid(InvalidReason::EmptyTlsCert))
    ));
}

#[test]
fn load_defaults_tls_and_logging_off() {
    match ConfigModel::load(Some(raw("127.0.0.1:80", vec![]))) {
        Ok(c) => {
            assert_eq!(c.host, "127.0.0.1:80");
            assert!(!c.tls.enable);
            assert_eq!(c.tls.key, "");
            assert!(!c.enable_logging);
        }
        Err(_) => panic!("load failed"),
    }
}

#[test]
fn overrides_replace_key_and_cert_independently() {
    let file = ConfigModel {
        host: s("0.0.0.0:80"),
        tls: TlsSettings { enable: true, key: s("file.key"), cert: s("file.crt") },
        enable_logging: true,
        routes: vec![page_route("/", "index")],
    };
    let c = merge(
        file,
        Overrides { host: None, tls_key: Some(s("cli.key")), tls_cert: Some(s("cli.crt")) },
    );
    assert_eq!(c.host, "0.0.0.0:80");
    assert_eq!(c.tls.key, "cli.key");
    assert_eq!(c.tls.cert, "cli.crt");
    assert!(c.tls.enable);
    assert!(c.enable_logging);
    assert_eq!(c.routes.len(), 1);

    let file2 = ConfigModel {
        host: s("0.0.0.0:80"),
        tls: TlsSettings { enable: false, key: s("k"), cert: s("c") },
        enable_logging: false,
        routes: vec![],
    };
    let c2 = merge(
        file2,
        Overrides { host: Some(s("localhost:9000")), tls_key: None, tls_cert: Some(s("x.crt")) },
    );
    assert_eq!(c2.host, "localhost:9000");
    assert_eq!(c2.tls.key, "k");
    assert_eq!(c2.tls.cert, "x.crt");
}

#[test]
fn override_making_config_invalid_fails_build() {
    let out = run_build(
        Some(raw("0.0.0.0:8080", vec![])),
        Overrides { host: Some(s("")), tls_key: None, tls_cert: None },
        &vec![],
        &vec![],
    );
    assert!(matches!(
        out,
        BuildOutcome::Failure(BuildFailure::Config(ConfigError::Invalid(InvalidReason::EmptyHost)))
    ));
}

#[test]
fn missing_config_fails_at_loading() {
    match run_build(None, no_overrides(), &vec![], &vec![]) {
        BuildOutcome::Failure(f) => {
            assert_eq!(f.stage(), Stage::Loading);
            assert!(matches!(f, BuildFailure::Config(ConfigError::Missing)));
        }
        BuildOutcome::Success(_) => panic!("build succeeded"),
    }
}

#[test]
fn unknown_template_fails_at_routes() {
    let out = run_build(
        Some(raw("h", vec![page_route("/", "index"), page_route("/about", "about")])),
        no_overrides(),
        &vec![source("index", "x")],
        &vec![],
    );
    match out {
        BuildOutcome::Failure(f) => {
            assert_eq!(f.stage(), Stage::BuildingRoutes);
            match f {
                BuildFailure::Route(RouteError::UnknownTemplate { route, name }) => {
                    assert_eq!(route, 1);
                    assert_eq!(name, "about");
                }
                _ => panic!("expected an unknown template"),
            }
        }
        BuildOutcome::Success(_) => panic!("build succeeded"),
    }
}

#[test]
fn rebuild_from_same_sources_dispatches_alike() {
    let build = || {
        run_build(
            Some(raw("h", vec![page_route("/", "index"), page_route("/blog/*", "post")])),
            no_overrides(),
            &vec![source("index", "home {{ user }}"), source("post", "post")],
            &vec![],
        )
    };
    let ctx = vec![(s("user"), s("ann"))];
    match (build(), build()) {
        (BuildOutcome::Success(a), BuildOutcome::Success(b)) => {
            for path in ["/", "/blog/x", "/none"] {
                let ra = a.dispatch(path, &ctx);
                let rb = b.dispatch(path, &ctx);
                match (ra, rb) {
                    (Ok(Response::Page(x)), Ok(Response::Page(y))) => assert_eq!(x, y),
                    (Err(DispatchError::NoRoute), Err(DispatchError::NoRoute)) => {}
                    _ => panic!("dispatch differs"),
                }
            }
            match a.dispatch("/", &ctx) {
                Ok(Response::Page(x)) => assert_eq!(x, "home ann"),
                _ => panic!("expected a page"),
            }
        }
        _ => panic!("build failed"),
    }
}

#[test]
fn publish_replaces_whole_snapshot() {
    let mut cell = SnapshotCell::new();
    assert!(!cell.has_snapshot());
    apply_outcome(&mut cell, scenario_a());
    let old = cell.current_snapshot().expect("published");
    let next = run_build(
        Some(raw("h2", vec![page_route("/", "index")])),
        no_overrides(),
        &vec![source("index", "<h1>Bye</h1>")],
        &vec![],
    );
    assert!(matches!(apply_outcome(&mut cell, next), Reaction::Published));
    // A reader holding the old snapshot keeps a consistent old view.
    match old.dispatch("/", &vec![]) {
        Ok(Response::Page(p)) => assert_eq!(p, "<h1>Hi</h1>"),
        _ => panic!("expected a page"),
    }
    assert_eq!(old.config.host, "0.0.0.0:8080");
    let new = cell.current_snapshot().expect("published");
    assert_eq!(new.config.host, "h2");
    assert_eq!(page_of(&cell, "/"), Some(s("<h1>Bye</h1>")));
}

#[test]
fn report_uses_micros_below_a_millisecond() {
    if let BuildOutcome::Success(snap) = scenario_a() {
        let r = build_report(&snap, 999);
        assert_eq!(r.unit, TimeUnit::Micros);
        assert_eq!(r.elapsed, 999);
        let r = build_report(&snap, 12_345);
        assert_eq!(r.unit, TimeUnit::Millis);
        assert_eq!(r.elapsed, 12);
        assert!(!r.tls_enabled);
        assert!(!r.logging_enabled);
    } else {
        panic!("build failed");
    }
}

#[test]
fn scenario_d_two_rapid_saves_build_once() {
    let mut d = Debouncer::new(100);
    d.on_change(1000);
    d.on_change(1030);
    assert!(!d.on_tick(1100));
    assert!(d.on_tick(1130));
    assert!(!d.on_tick(1200));
    d.on_build_finished();
    assert!(!d.on_tick(5000));
}

#[test]
fn change_during_build_runs_next_cycle() {
    let mut d = Debouncer::new(50);
    d.on_change(0);
    assert!(d.on_tick(60));
    d.on_change(70);
    assert!(!d.on_tick(200));
    d.on_build_finished();
    assert!(d.on_tick(200));
}

#[test]
fn asset_roots_list_served_paths_in_order() {
    let decls = vec![
        RouteDecl { pattern: s("/static/*"), handler: HandlerKind::StaticDir(s("public/static")) },
        page_route("/", "index"),
        RouteDecl { pattern: s("/x"), handler: HandlerKind::Redirect(s("/y")) },
        RouteDecl { pattern: s("/f"), handler: HandlerKind::StaticFile(s("public/f.txt")) },
    ];
    assert_eq!(asset_roots(&decls), vec![s("public/static"), s("public/f.txt")]);
    assert!(asset_roots(&vec![]).is_empty());
}

#[test]
fn dispatch_reports_render_failures_and_other_handlers() {
    let out = run_build(
        Some(raw(
            "h",
            vec![
                page_route("/hello", "hello"),
                RouteDecl { pattern: s("/old"), handler: HandlerKind::Redirect(s("/new")) },
                RouteDecl { pattern: s("/f"), handler: HandlerKind::StaticFile(s("public/f.txt")) },
                RouteDecl { pattern: s("/api/*"), handler: HandlerKind::Proxy(s("http://up")) },
            ],
        )),
        no_overrides(),
        &vec![source("hello", "Hi {{ who }}")],
        &vec![s("public/f.txt")],
    );
    let snap = match out {
        BuildOutcome::Success(snap) => snap,
        BuildOutcome::Failure(_) => panic!("build failed"),
    };
    match snap.dispatch("/hello", &vec![]) {
        Err(DispatchError::Render(TemplateError::RenderFailed { name, variable })) => {
            assert_eq!(name, "hello");
            assert_eq!(variable, "who");
        }
        _ => panic!("expected a render failure"),
    }
    assert!(matches!(snap.dispatch("/hello", &vec![(s("who"), s("you"))]), Ok(Response::Page(p)) if p == "Hi you"));
    assert!(matches!(snap.dispatch("/old", &vec![]), Ok(Response::Redirect(t)) if t == "/new"));
    assert!(matches!(snap.dispatch("/f", &vec![]), Ok(Response::StaticFile(p)) if p == "public/f.txt"));
    assert!(matches!(snap.dispatch("/api/v1", &vec![]), Ok(Response::Proxy(t)) if t == "http://up"));
    assert!(matches!(snap.dispatch("/nothing", &vec![]), Err(DispatchError::NoRoute)));
}
