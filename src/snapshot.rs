//! The immutable result of one successful build, request dispatch against
//! it, and the cell through which builds publish it to readers.
use vstd::prelude::*;
use std::sync::Arc;
use crate::config::ConfigModel;
use crate::route::{RouteTable, Target, select_route};
use crate::template::{
    Registry, Template, TemplateError, context_view, render_segments, render_with, segments_view,
};

verus! {

/// Configuration, compiled templates and compiled routes of one build.
pub struct Snapshot {
    pub config: ConfigModel,
    pub registry: Registry,
    pub table: RouteTable,
}

/// What a request is answered with.
pub enum Response {
    /// A rendered page.
    Page(String),
    StaticFile(String),
    StaticDir(String),
    Redirect(String),
    Proxy(String),
}

pub enum DispatchError {
    /// No route accepts the path.
    NoRoute,
    /// The route's template could not be rendered.
    Render(TemplateError),
}

/// The mathematical value of a dispatch result.
pub enum Dispatched {
    NoRoute,
    RenderFailed { template: Seq<char>, variable: Seq<char> },
    Page(Seq<char>),
    StaticFile(Seq<char>),
    StaticDir(Seq<char>),
    Redirect(Seq<char>),
    Proxy(Seq<char>),
}

pub open spec fn dispatched(r: Result<Response, DispatchError>) -> Dispatched {
    match r {
        Ok(Response::Page(s)) => Dispatched::Page(s@),
        Ok(Response::StaticFile(s)) => Dispatched::StaticFile(s@),
        Ok(Response::StaticDir(s)) => Dispatched::StaticDir(s@),
        Ok(Response::Redirect(s)) => Dispatched::Redirect(s@),
        Ok(Response::Proxy(s)) => Dispatched::Proxy(s@),
        Err(DispatchError::Render(TemplateError::RenderFailed { name, variable })) => {
            Dispatched::RenderFailed { template: name@, variable: variable@ }
        },
        Err(_) => Dispatched::NoRoute,
    }
}

/// How the snapshot `s` answers `path` with the context `ctx`.
pub open spec fn dispatch_spec(s: Snapshot, path: Seq<char>, ctx: Seq<(Seq<char>, Seq<char>)>) -> Dispatched {
    match select_route(s.table.routes@, path) {
        None => Dispatched::NoRoute,
        Some(k) => match s.table.routes@[k].target {
            Target::Page { index, name } => match render_segments(
                segments_view(s.registry.templates@[index as int].segments@),
                ctx,
            ) {
                Ok(x) => Dispatched::Page(x),
                Err(v) => Dispatched::RenderFailed { template: name@, variable: v },
            },
            Target::StaticFile(p) => Dispatched::StaticFile(p@),
            Target::StaticDir(p) => Dispatched::StaticDir(p@),
            Target::Redirect(p) => Dispatched::Redirect(p@),
            Target::Proxy(p) => Dispatched::Proxy(p@),
        },
    }
}

/// A page target refers to a template of `reg`, registered under its name.
pub open spec fn page_resolved(t: Target, reg: Seq<Template>) -> bool {
    t matches Target::Page { index, name } ==> index < reg.len() && reg[index as int].name@ == name@
}

impl Snapshot {
    /// The routes match by their patterns and each page route refers to a
    /// template of this snapshot's own registry.
    pub open spec fn well_formed(&self) -> bool {
        &&& self.table.well_formed()
        &&& forall|i: int|
            0 <= i < self.table.routes@.len() ==> page_resolved(
                #[trigger] self.table.routes@[i].target,
                self.registry.templates@,
            )
    }

    /// Answers a request for `path`, rendering with `ctx` where the first
    /// route that accepts the path serves a page.
    pub fn dispatch(&self, path: &str, ctx: &Vec<(String, String)>) -> (r: Result<Response, DispatchError>)
        requires
            self.well_formed(),
        ensures
            dispatched(r) == dispatch_spec(*self, path@, context_view(ctx@)),
            r matches Err(DispatchError::Render(e)) ==> e is RenderFailed,
    {
        match self.table.select(path) {
            None => Err(DispatchError::NoRoute),
            Some(k) => match &self.table.routes[k].target {
                Target::Page { index, name } => match render_with(
                    &self.registry.templates[*index].segments,
                    ctx,
                ) {
                    Ok(out) => Ok(Response::Page(out)),
                    Err(variable) => Err(
                        DispatchError::Render(
                            TemplateError::RenderFailed { name: name.clone(), variable },
                        ),
                    ),
                },
                Target::StaticFile(p) => Ok(Response::StaticFile(p.clone())),
                Target::StaticDir(p) => Ok(Response::StaticDir(p.clone())),
                Target::Redirect(p) => Ok(Response::Redirect(p.clone())),
                Target::Proxy(p) => Ok(Response::Proxy(p.clone())),
            },
        }
    }
}

/// Relies on `Arc::clone`: the clone points to the same value.
#[verifier::external_body]
fn share(a: &Arc<Snapshot>) -> (r: Arc<Snapshot>)
    ensures
        r == *a,
{
    Arc::clone(a)
}

/// The latest published snapshot. Publishing replaces the whole snapshot
/// at once; a failed build leaves the published one in place.
pub struct SnapshotCell {
    current: Option<Arc<Snapshot>>,
}

impl SnapshotCell {
    pub closed spec fn current_spec(&self) -> Option<Snapshot> {
        match self.current {
            Some(a) => Some(*a),
            None => None,
        }
    }

    /// Every snapshot it holds is well formed.
    pub closed spec fn well_formed(&self) -> bool {
        self.current matches Some(a) ==> a.well_formed()
    }

    /// A cell that holds no snapshot yet.
    pub fn new() -> (r: SnapshotCell)
        ensures
            r.current_spec() is None,
            r.well_formed(),
    {
        SnapshotCell { current: None }
    }

    /// The published snapshot, shared with the caller.
    pub fn current_snapshot(&self) -> (r: Option<Arc<Snapshot>>)
        requires
            self.well_formed(),
        ensures
            match r {
                Some(a) => self.current_spec() == Some(*a) && a.well_formed(),
                None => self.current_spec() is None,
            },
    {
        match &self.current {
            Some(a) => Some(share(a)),
            None => None,
        }
    }

    /// Whether a snapshot has been published.
    pub fn has_snapshot(&self) -> (r: bool)
        ensures
            r == (self.current_spec() is Some),
    {
        self.current.is_some()
    }

    /// Makes `s` the published snapshot, in one step.
    pub fn publish(&mut self, s: Snapshot)
        requires
            old(self).well_formed(),
            s.well_formed(),
        ensures
            final(self).current_spec() == Some(s),
            final(self).well_formed(),
    {
        self.current = Some(Arc::new(s));
    }
}

} // verus!
