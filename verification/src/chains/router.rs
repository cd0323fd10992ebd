//! Routes of a semantic router and the prompt a routed query is sent with.

use vstd::prelude::*;
use vstd::string::*;
use crate::text::{replace_all, replaced, str_eq};

verus! {

/// A single route definition with a name and description used for semantic matching.
#[derive(Debug, Clone)]
pub struct Route {
    /// Unique name identifying this route.
    pub name: String,
    /// Natural language description used for semantic matching against queries.
    pub description: String,
    /// Optional custom prompt template for this route. Uses `{query}` placeholder.
    pub prompt_template: Option<String>,
}

impl Route {
    /// Create a new route with the given name and description.
    pub fn new(name: &str, description: &str) -> (r: Self)
        ensures
            r.name@ == name@,
            r.description@ == description@,
            r.prompt_template is None,
    {
        Route {
            name: String::from_str(name),
            description: String::from_str(description),
            prompt_template: None,
        }
    }

    /// Set a custom prompt template for this route.
    pub fn with_prompt_template(self, template: &str) -> (r: Self)
        ensures
            r.name == self.name,
            r.description == self.description,
            r.prompt_template matches Some(t) && t@ == template@,
    {
        Route { prompt_template: Some(String::from_str(template)), ..self }
    }
}

/// The position of the first route named `name` among `routes[0..n)`, if any.
pub open spec fn route_named(routes: Seq<Route>, name: Seq<char>, n: nat) -> Option<int>
    decreases n,
{
    if n == 0 || n > routes.len() {
        None
    } else {
        match route_named(routes, name, (n - 1) as nat) {
            Some(i) => Some(i),
            None => if routes[n - 1].name@ == name {
                Some(n - 1)
            } else {
                None
            },
        }
    }
}

/// The position of the first route named `name`, if any: the default route
/// of a router that names it.
pub fn find_route(routes: &[Route], name: &str) -> (r: Option<usize>)
    ensures
        match route_named(routes@, name@, routes@.len()) {
            Some(i) => r == Some(i as usize),
            None => r is None,
        },
{
    let mut i: usize = 0;
    while i < routes.len()
        invariant
            i <= routes@.len(),
            route_named(routes@, name@, i as nat) is None,
        decreases routes.len() - i,
    {
        if str_eq(routes[i].name.as_str(), name) {
            proof {
                lemma_route_named_stays(routes@, name@, (i + 1) as nat, routes@.len());
            }
            return Some(i);
        }
        i = i + 1;
    }
    None
}

proof fn lemma_route_named_stays(routes: Seq<Route>, name: Seq<char>, n: nat, m: nat)
    requires
        n <= m <= routes.len(),
        route_named(routes, name, n) is Some,
    ensures
        route_named(routes, name, m) == route_named(routes, name, n),
    decreases m - n,
{
    if m > n {
        lemma_route_named_stays(routes, name, n, (m - 1) as nat);
    }
}

/// The template for the last entry of `prompts[0..n)` about `route`, if any.
pub open spec fn route_prompt(prompts: Seq<(String, String)>, route: Seq<char>, n: nat) -> Option<Seq<char>>
    decreases n,
{
    if n == 0 || n > prompts.len() {
        None
    } else if prompts[n - 1].0@ == route {
        Some(prompts[n - 1].1@)
    } else {
        route_prompt(prompts, route, (n - 1) as nat)
    }
}

/// The position of the last entry of `prompts` about `route`.
fn last_prompt_for(prompts: &[(String, String)], route: &str) -> (r: Option<usize>)
    ensures
        match r {
            Some(k) => k < prompts@.len() && route_prompt(prompts@, route@, prompts@.len()) == Some(
                prompts@[k as int].1@,
            ),
            None => route_prompt(prompts@, route@, prompts@.len()) is None,
        },
{
    let mut i = prompts.len();
    while i > 0
        invariant
            i <= prompts@.len(),
            route_prompt(prompts@, route@, prompts@.len()) == route_prompt(prompts@, route@, i as nat),
        decreases i,
    {
        if str_eq(prompts[i - 1].0.as_str(), route) {
            return Some(i - 1);
        }
        i = i - 1;
    }
    None
}

/// The template a routed query is sent with: the chain's prompt for the
/// route (the latest one set), else the route's own template, else the
/// default.
pub open spec fn chosen_template(prompts: Seq<(String, String)>, route: Route, default: Seq<char>) -> Seq<char> {
    match route_prompt(prompts, route.name@, prompts.len()) {
        Some(t) => t,
        None => match route.prompt_template {
            Some(t) => t@,
            None => default,
        },
    }
}

/// The prompt a query routed to `route` is sent with: the chosen template
/// with `{query}` replaced by the query.
pub fn routed_prompt(route_prompts: &[(String, String)], route: &Route, default_prompt: &str, query: &str) -> (r: String)
    ensures
        r@ == replaced(chosen_template(route_prompts@, *route, default_prompt@), "{query}"@, query@),
{
    let found = last_prompt_for(route_prompts, route.name.as_str());
    proof {
        reveal_strlit("{query}");
    }
    let template: &str = match found {
        Some(k) => route_prompts[k].1.as_str(),
        None => match &route.prompt_template {
            Some(t) => t.as_str(),
            None => default_prompt,
        },
    };
    replace_all(template, "{query}", query)
}

} // verus!
