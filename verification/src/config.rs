//! Route definitions and the choice between a declarative config and
//! direct flags.
//!
//! A run is driven either by a config that lists routes, or by one route
//! given as discrete flags. A config takes precedence; without one, all
//! three of path, method and controller list must be present, or the run is
//! rejected before any work is done.

use vstd::prelude::*;

verus! {

/// One unit of work: an API endpoint plus the source files relevant to it.
#[derive(Debug)]
pub struct Route {
    pub path: String,
    pub method: String,
    pub controllers: Vec<String>,
    pub other_details: Option<String>,
}

/// The mathematical value of a [`Route`].
pub struct RouteView {
    pub path: Seq<char>,
    pub method: Seq<char>,
    pub controllers: Seq<Seq<char>>,
    pub other_details: Option<Seq<char>>,
}

impl View for Route {
    type V = RouteView;

    open spec fn view(&self) -> RouteView {
        RouteView {
            path: self.path@,
            method: self.method@,
            controllers: self.controllers@.map_values(|s: String| s@),
            other_details: match self.other_details {
                Some(ref d) => Some(d@),
                None => None,
            },
        }
    }
}

/// The declarative route list.
#[derive(Debug)]
pub struct Config {
    pub routes: Vec<Route>,
}

/// The views of a route vector, in order.
pub open spec fn routes_view(routes: Seq<Route>) -> Seq<RouteView> {
    routes.map_values(|r: Route| r@)
}

/// The run was given neither a config nor the full direct-flag triple.
#[derive(Clone, Copy, PartialEq, Eq, Structural, Debug)]
pub enum ArgsError {
    MissingArguments,
}

/// Chooses the route list for a run. A config, when present, decides alone
/// and the direct flags are ignored; otherwise the three direct flags
/// together make a single route without extra detail; anything less is
/// rejected.
pub fn resolve_routes(
    config: Option<Config>,
    route: Option<String>,
    method: Option<String>,
    controller: Option<Vec<String>>,
) -> (r: Result<Vec<Route>, ArgsError>)
    ensures
        match config {
            Some(c) => r matches Ok(v) && routes_view(v@) == routes_view(c.routes@),
            None => match (route, method, controller) {
                (Some(p), Some(m), Some(cs)) => r matches Ok(v) && v@.len() == 1 && v@[0]@
                    == (RouteView {
                    path: p@,
                    method: m@,
                    controllers: cs@.map_values(|s: String| s@),
                    other_details: None,
                }),
                _ => r == Err::<Vec<Route>, ArgsError>(ArgsError::MissingArguments),
            },
        },
{
    match config {
        Some(c) => Ok(c.routes),
        None => match (route, method, controller) {
            (Some(p), Some(m), Some(cs)) => {
                let single = Route { path: p, method: m, controllers: cs, other_details: None };
                let mut v: Vec<Route> = Vec::new();
                v.push(single);
                Ok(v)
            },
            _ => Err(ArgsError::MissingArguments),
        },
    }
}

} // verus!
