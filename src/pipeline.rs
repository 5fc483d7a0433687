//! One build cycle: configuration, templates, routes, then a snapshot; and
//! what becomes of its outcome.
use vstd::prelude::*;
use crate::config::{
    ConfigError, ConfigModel, Overrides, RawConfig, merge, raw_tls_cert, raw_tls_enable,
    raw_tls_key, violation, well_shaped,
};
use crate::route::{
    CompiledRoute, RouteDecl, RouteError, Target, accepts, first_match, select_route, build, build_failure, compiled_as, decl_ok,
    matcher_accepts, paths_view, table_from,
};
use crate::snapshot::{Snapshot, SnapshotCell, dispatch_spec, page_resolved};
use crate::template::{
    TemplateError, TemplateSource, compile_all, compile_failure, compiled_from, compiles,
    SegmentView, lemma_compiled_names, lemma_find_template, names_of, parse, segments_view,
    source_names,
};

verus! {

/// The stage of a build cycle.
#[derive(PartialEq, Eq, Structural, Clone, Copy, Debug)]
pub enum Stage {
    Loading,
    CompilingTemplates,
    BuildingRoutes,
    Publishing,
}

/// Why a build failed; the variant tells the stage.
pub enum BuildFailure {
    Config(ConfigError),
    Template(TemplateError),
    Route(RouteError),
}

impl BuildFailure {
    /// The stage that failed.
    pub fn stage(&self) -> (r: Stage)
        ensures
            self is Config ==> r == Stage::Loading,
            self is Template ==> r == Stage::CompilingTemplates,
            self is Route ==> r == Stage::BuildingRoutes,
    {
        match self {
            BuildFailure::Config(_) => Stage::Loading,
            BuildFailure::Template(_) => Stage::CompilingTemplates,
            BuildFailure::Route(_) => Stage::BuildingRoutes,
        }
    }
}

pub enum BuildOutcome {
    Success(Snapshot),
    Failure(BuildFailure),
}

/// The host in force: the override where there is one.
pub open spec fn effective_host(raw: RawConfig, ov: Overrides) -> Seq<char> {
    match ov.host {
        Some(h) => h@,
        None => raw.host->0@,
    }
}

/// The TLS key in force: the override where there is one.
pub open spec fn effective_key(raw: RawConfig, ov: Overrides) -> Seq<char> {
    match ov.tls_key {
        Some(k) => k@,
        None => raw_tls_key(raw),
    }
}

/// The TLS certificate in force: the override where there is one.
pub open spec fn effective_cert(raw: RawConfig, ov: Overrides) -> Seq<char> {
    match ov.tls_cert {
        Some(c) => c@,
        None => raw_tls_cert(raw),
    }
}

/// The first rule that the configuration in force breaks, if any.
pub open spec fn config_violation(raw: RawConfig, ov: Overrides) -> Option<crate::config::InvalidReason> {
    violation(
        effective_host(raw, ov),
        raw_tls_enable(raw),
        effective_key(raw, ov),
        effective_cert(raw, ov),
    )
}

/// `c` is the configuration of `raw` with the overrides `ov` applied.
pub open spec fn config_in_force(c: ConfigModel, raw: RawConfig, ov: Overrides) -> bool {
    &&& c.host@ == effective_host(raw, ov)
    &&& c.tls.enable == raw_tls_enable(raw)
    &&& c.tls.key@ == effective_key(raw, ov)
    &&& c.tls.cert@ == effective_cert(raw, ov)
    &&& c.enable_logging == (raw.enable_logging == Some(true))
    &&& c.routes == raw.routes
}

pub open spec fn all_compile(srcs: Seq<TemplateSource>) -> bool {
    forall|i: int| 0 <= i < srcs.len() ==> compiles(#[trigger] srcs[i])
}

pub open spec fn all_routes_ok(decls: Seq<RouteDecl>, names: Seq<Seq<char>>, avail: Seq<Seq<char>>) -> bool {
    forall|i: int| 0 <= i < decls.len() ==> decl_ok(#[trigger] decls[i], names, avail)
}

/// `s` is what a build from these sources produces.
pub open spec fn built_from(
    s: Snapshot,
    raw: RawConfig,
    ov: Overrides,
    srcs: Seq<TemplateSource>,
) -> bool {
    &&& config_in_force(s.config, raw, ov)
    &&& compiled_from(s.registry.templates@, srcs)
    &&& table_from(s.table, raw.routes@, source_names(srcs))
    &&& s.well_formed()
}

/// What a build from these sources comes to.
pub open spec fn build_result(
    r: BuildOutcome,
    source: Option<RawConfig>,
    ov: Overrides,
    srcs: Seq<TemplateSource>,
    avail: Seq<Seq<char>>,
) -> bool {
    match source {
        None => r matches BuildOutcome::Failure(BuildFailure::Config(ConfigError::Missing)),
        Some(raw) => if !well_shaped(raw) {
            r matches BuildOutcome::Failure(BuildFailure::Config(ConfigError::Malformed))
        } else if config_violation(raw, ov) is Some {
            r matches BuildOutcome::Failure(BuildFailure::Config(ConfigError::Invalid(v))) && v
                == config_violation(raw, ov)->0
        } else if !all_compile(srcs) {
            r matches BuildOutcome::Failure(BuildFailure::Template(e)) && compile_failure(srcs, e)
        } else if !all_routes_ok(raw.routes@, source_names(srcs), avail) {
            r matches BuildOutcome::Failure(BuildFailure::Route(e)) && build_failure(
                raw.routes@,
                source_names(srcs),
                avail,
                e,
            )
        } else {
            r matches BuildOutcome::Success(s) && built_from(s, raw, ov, srcs)
        },
    }
}

/// A table compiled against the registry's names resolves against it.
proof fn lemma_table_resolves(s: Snapshot, decls: Seq<RouteDecl>)
    requires
        table_from(s.table, decls, names_of(s.registry.templates@)),
    ensures
        s.well_formed(),
{
    let names = names_of(s.registry.templates@);
    let routes = s.table.routes@;
    assert forall|i: int, path: Seq<char>| 0 <= i < routes.len() implies #[trigger] matcher_accepts(
        routes[i].matcher,
        path,
    ) == accepts(routes[i].pattern@, path) by {
        assert(compiled_as(routes[i], decls[i], names));
    }
    assert forall|i: int| 0 <= i < routes.len() implies page_resolved(
        #[trigger] routes[i].target,
        s.registry.templates@,
    ) by {
        assert(compiled_as(routes[i], decls[i], names));
        if let Target::Page { index, name } = routes[i].target {
            lemma_find_template(names, name@);
        }
    }
}

/// Runs one build cycle: reads the configuration and applies the
/// overrides, compiles the templates, then the routes, where `avail` lists
/// the filesystem paths that are available. The first stage that fails
/// decides the failure; nothing of a failed build is kept.
pub fn run_build(
    source: Option<RawConfig>,
    ov: Overrides,
    sources: &Vec<TemplateSource>,
    avail: &Vec<String>,
) -> (r: BuildOutcome)
    ensures
        build_result(r, source, ov, sources@, paths_view(avail@)),
{
    let ghost src0 = source;
    let ghost ov0 = ov;
    let file = match ConfigModel::from_raw(source) {
        Ok(c) => c,
        Err(e) => {
            return BuildOutcome::Failure(BuildFailure::Config(e));
        },
    };
    let config = merge(file, ov);
    match config.validate() {
        Ok(()) => {},
        Err(e) => {
            return BuildOutcome::Failure(BuildFailure::Config(e));
        },
    }
    let registry = match compile_all(sources) {
        Ok(reg) => reg,
        Err(e) => {
            return BuildOutcome::Failure(BuildFailure::Template(e));
        },
    };
    proof {
        lemma_compiled_names(registry.templates@, sources@);
    }
    let table = match build(&config.routes, &registry, avail) {
        Ok(t) => t,
        Err(e) => {
            return BuildOutcome::Failure(BuildFailure::Route(e));
        },
    };
    let s = Snapshot { config, registry, table };
    proof {
        lemma_table_resolves(s, s.config.routes@);
    }
    BuildOutcome::Success(s)
}

proof fn lemma_first_match_same(r1: Seq<CompiledRoute>, r2: Seq<CompiledRoute>, path: Seq<char>, k: int)
    requires
        0 <= k,
        r1.len() == r2.len(),
        forall|i: int| 0 <= i < r1.len() ==> (#[trigger] r1[i]).pattern@ == r2[i].pattern@,
    ensures
        first_match(r1, path, k) == first_match(r2, path, k),
        k <= r1.len() ==> k <= first_match(r1, path, k) <= r1.len(),
    decreases r1.len() - k,
{
    if k < r1.len() {
        lemma_first_match_same(r1, r2, path, k + 1);
    }
}

/// Rebuilding from unchanged sources gives snapshots that answer every
/// request alike: the same route is selected and the same output produced.
pub proof fn lemma_rebuild_dispatches_identically(
    s1: Snapshot,
    s2: Snapshot,
    raw: RawConfig,
    ov: Overrides,
    srcs: Seq<TemplateSource>,
    path: Seq<char>,
    ctx: Seq<(Seq<char>, Seq<char>)>,
)
    requires
        built_from(s1, raw, ov, srcs),
        built_from(s2, raw, ov, srcs),
    ensures
        dispatch_spec(s1, path, ctx) == dispatch_spec(s2, path, ctx),
{
    let decls = raw.routes@;
    let names = source_names(srcs);
    let r1 = s1.table.routes@;
    let r2 = s2.table.routes@;
    assert forall|i: int| 0 <= i < r1.len() implies (#[trigger] r1[i]).pattern@ == r2[i].pattern@ by {
        assert(compiled_as(r1[i], decls[i], names));
        assert(compiled_as(r2[i], decls[i], names));
    }
    lemma_first_match_same(r1, r2, path, 0);
    assert(select_route(r1, path) == select_route(r2, path));
    let k = first_match(r1, path, 0);
    if 0 <= k < r1.len() {
        assert(compiled_as(r1[k], decls[k], names));
        assert(compiled_as(r2[k], decls[k], names));
        assert(page_resolved(r1[k].target, s1.registry.templates@));
        if let Target::Page { index, name } = r1[k].target {
            let t1 = s1.registry.templates@[index as int];
            let t2 = s2.registry.templates@[index as int];
            assert(parse(srcs[index as int].body@) == Ok::<Seq<SegmentView>, int>(segments_view(t1.segments@)));
            assert(parse(srcs[index as int].body@) == Ok::<Seq<SegmentView>, int>(segments_view(t2.segments@)));
            assert(segments_view(t1.segments@) == segments_view(t2.segments@));
            assert(r2[k].target matches Target::Page { index: i2, name: n2 } && i2 == index && n2@
                == name@);
        }
    }
}

/// What became of a build's outcome.
pub enum Reaction {
    /// The new snapshot is published.
    Published,
    /// The build failed; the snapshot published before serves on.
    KeptPrevious(BuildFailure),
    /// The build failed and there is nothing to serve: startup must stop.
    Fatal(BuildFailure),
}

/// Publishes a successful build. A failure leaves the published snapshot
/// as it was, and is fatal only where none was published yet.
pub fn apply_outcome(cell: &mut SnapshotCell, outcome: BuildOutcome) -> (r: Reaction)
    requires
        old(cell).well_formed(),
        outcome matches BuildOutcome::Success(s) ==> s.well_formed(),
    ensures
        final(cell).well_formed(),
        match outcome {
            BuildOutcome::Success(s) => final(cell).current_spec() == Some(s) && r is Published,
            BuildOutcome::Failure(f) => {
                &&& final(cell).current_spec() == old(cell).current_spec()
                &&& old(cell).current_spec() is Some ==> r == Reaction::KeptPrevious(f)
                &&& old(cell).current_spec() is None ==> r == Reaction::Fatal(f)
            },
        },
{
    match outcome {
        BuildOutcome::Success(s) => {
            cell.publish(s);
            Reaction::Published
        },
        BuildOutcome::Failure(f) => {
            if cell.has_snapshot() {
                Reaction::KeptPrevious(f)
            } else {
                Reaction::Fatal(f)
            }
        },
    }
}

#[derive(PartialEq, Eq, Structural, Clone, Copy, Debug)]
pub enum TimeUnit {
    Micros,
    Millis,
}

/// What a successful build reports: how long it took, in the coarsest unit
/// that does not round it to zero, and which features are on.
#[derive(PartialEq, Eq, Structural, Clone, Copy, Debug)]
pub struct BuildReport {
    pub elapsed: u64,
    pub unit: TimeUnit,
    pub tls_enabled: bool,
    pub logging_enabled: bool,
}

/// The report of a build that produced `s` in `elapsed_micros` microseconds.
pub fn build_report(s: &Snapshot, elapsed_micros: u64) -> (r: BuildReport)
    ensures
        elapsed_micros < 1000 ==> r.unit == TimeUnit::Micros && r.elapsed == elapsed_micros,
        elapsed_micros >= 1000 ==> r.unit == TimeUnit::Millis && r.elapsed == elapsed_micros / 1000,
        r.tls_enabled == s.config.tls.enable,
        r.logging_enabled == s.config.enable_logging,
{
    let (elapsed, unit) = if elapsed_micros / 1000 == 0 {
        (elapsed_micros, TimeUnit::Micros)
    } else {
        (elapsed_micros / 1000, TimeUnit::Millis)
    };
    BuildReport {
        elapsed,
        unit,
        tls_enabled: s.config.tls.enable,
        logging_enabled: s.config.enable_logging,
    }
}

} // verus!
