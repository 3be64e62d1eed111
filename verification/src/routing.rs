//! Route selection for a requested model.
use vstd::prelude::*;

use crate::config::{config_problem, first_model_problem, model_problem, Config, ModelRoute};
use crate::names::{has_name, lemma_has_name_index, name_get, name_index};

verus! {

/// How a route was chosen.
#[derive(Debug, Clone, Copy, PartialEq, Eq)]
pub enum RoutingMatch {
    /// The model is configured explicitly.
    Explicit,
    /// The model is unknown and goes to the default route.
    Default,
}

/// The route a request goes to and the model name sent upstream.
#[derive(Debug, Clone)]
pub struct ResolvedRoute {
    pub route_name: String,
    pub upstream_model: String,
    pub routing_match: RoutingMatch,
}

impl RoutingMatch {
    /// The name under which the match is recorded.
    pub open spec fn name(self) -> Seq<char> {
        match self {
            RoutingMatch::Explicit => "explicit"@,
            RoutingMatch::Default => "default"@,
        }
    }

    /// The name under which the match is recorded.
    pub fn as_str(self) -> (r: &'static str)
        ensures
            r@ == self.name(),
    {
        match self {
            RoutingMatch::Explicit => "explicit",
            RoutingMatch::Default => "default",
        }
    }
}

/// The route chosen for `model`: a configured model goes to its route, under
/// its upstream name when one is set and its own name otherwise; any other
/// model goes unchanged to the default route.
pub open spec fn routed(config: Config, model: Seq<char>) -> (Seq<char>, Seq<char>, RoutingMatch) {
    match config.models.get_spec(model) {
        Some(m) => (
            m.route@,
            match m.upstream_model {
                Some(u) => u@,
                None => model,
            },
            RoutingMatch::Explicit,
        ),
        None => (config.default_route@, model, RoutingMatch::Default),
    }
}

/// Chooses the route for `requested_model`.
pub fn resolve_route(config: &Config, requested_model: &str) -> (r: ResolvedRoute)
    ensures
        (r.route_name@, r.upstream_model@, r.routing_match) == routed(*config, requested_model@),
{
    match config.models.get(requested_model) {
        Some(model_route) => ResolvedRoute {
            route_name: model_route.route.clone(),
            upstream_model: match &model_route.upstream_model {
                Some(u) => u.clone(),
                None => requested_model.to_owned(),
            },
            routing_match: RoutingMatch::Explicit,
        },
        None => ResolvedRoute {
            route_name: config.default_route.clone(),
            upstream_model: requested_model.to_owned(),
            routing_match: RoutingMatch::Default,
        },
    }
}

/// What routing does with a requested model, in terms of the configuration:
/// a model configured under a mapping goes to that mapping's route, as an
/// explicit match, under the mapping's upstream name when it has one and
/// under its own requested name when it has none; any other model goes to
/// the default route under its own name, as a default match. The name sent
/// upstream is the requested name unless a mapping renames it.
pub proof fn routing_keeps_or_renames_model(config: Config, model: Seq<char>)
    ensures
        config.models.get_spec(model) matches Some(m) ==> {
            &&& routed(config, model).0 == m.route@
            &&& routed(config, model).2 == RoutingMatch::Explicit
            &&& m.upstream_model is None ==> routed(config, model).1 == model
            &&& m.upstream_model matches Some(u) ==> routed(config, model).1 == u@
        },
        config.models.get_spec(model) is None ==> {
            &&& routed(config, model).0 == config.default_route@
            &&& routed(config, model).1 == model
            &&& routed(config, model).2 == RoutingMatch::Default
        },
        routed(config, model).1 != model ==> (config.models.get_spec(model) matches Some(m)
            && m.upstream_model matches Some(u) && u@ == routed(config, model).1),
{
}

/// Every request to an accepted configuration is routed to a configured
/// route: an explicit model's route exists, and so does the default route.
pub proof fn resolved_route_exists(config: Config, model: Seq<char>)
    requires
        config_problem(config) is None,
    ensures
        has_name(config.routes.entries(), routed(config, model).0),
{
    let routes = config.routes.entries();
    let models = config.models.entries();
    match name_index(models, model, 0) {
        Some(i) => {
            crate::names::lemma_name_index(models, model, 0);
            crate::config::lemma_no_model_problem(models, routes, 0);
            assert(model_problem(models[i].0@, models[i].1, routes) is None);
        },
        None => {},
    }
}

} // verus!
