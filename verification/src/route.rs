//! The routing table: an ordered list of patterns, of which the first that
//! covers a request path decides who handles the request.

use vstd::prelude::*;

verus! {

/// The method of a request.
#[derive(Clone, Copy, Debug, PartialEq, Eq, Structural)]
pub enum Method {
    Get,
    Head,
    Post,
    Put,
    Delete,
    Patch,
    Options,
    Trace,
    Connect,
}

/// What a route asks of a request path.
#[derive(Clone, Copy, Debug, PartialEq, Eq, Structural)]
pub enum Pattern {
    /// The root path `/` and nothing else.
    Root,
    /// Any path at all.
    Any,
}

/// Who answers a request.
#[derive(Clone, Copy, Debug, PartialEq, Eq, Structural)]
pub enum Handler {
    /// Answers with the default document.
    Index,
    /// Answers with the document that the path names, or else with the
    /// default document.
    Files,
}

/// One line of the routing table.
#[derive(Clone, Copy, Debug, PartialEq, Eq, Structural)]
pub struct Route {
    pub pattern: Pattern,
    pub handler: Handler,
}

/// The root path.
pub open spec fn root_path() -> Seq<char> {
    seq!['/']
}

impl Pattern {
    /// Whether the pattern covers a request path.
    pub open spec fn covers(self, path: Seq<char>) -> bool {
        match self {
            Pattern::Root => path == root_path(),
            Pattern::Any => true,
        }
    }

    /// Whether the pattern covers a request path.
    pub fn matches(&self, path: &str) -> (covered: bool)
        ensures
            covered == self.covers(path@),
    {
        match self {
            Pattern::Root => {
                let covered = path.unicode_len() == 1 && path.get_char(0) == '/';
                proof {
                    if covered {
                        assert(path@ =~= root_path());
                    }
                }
                covered
            },
            Pattern::Any => true,
        }
    }
}

/// The handler of the first route whose pattern covers the path.
pub open spec fn first_match(routes: Seq<Route>, path: Seq<char>) -> Option<Handler>
    decreases routes.len(),
{
    if routes.len() == 0 {
        None
    } else if routes.first().pattern.covers(path) {
        Some(routes.first().handler)
    } else {
        first_match(routes.drop_first(), path)
    }
}

/// Whether the route at `position` covers the path and none before it does.
pub open spec fn is_earliest_match(routes: Seq<Route>, path: Seq<char>, position: int) -> bool {
    &&& 0 <= position < routes.len()
    &&& routes[position].pattern.covers(path)
    &&& forall|j: int| 0 <= j < position ==> !(#[trigger] routes[j]).pattern.covers(path)
}

/// Whether no route covers the path.
pub open spec fn is_uncovered(routes: Seq<Route>, path: Seq<char>) -> bool {
    forall|j: int| 0 <= j < routes.len() ==> !(#[trigger] routes[j]).pattern.covers(path)
}

/// The first match is the handler of the earliest route that covers the path,
/// and there is none exactly when no route covers it.
pub proof fn first_match_is_earliest(routes: Seq<Route>, path: Seq<char>)
    ensures
        first_match(routes, path) is None <==> is_uncovered(routes, path),
        forall|position: int| #[trigger]
            is_earliest_match(routes, path, position) ==> first_match(routes, path) == Some(
                routes[position].handler,
            ),
    decreases routes.len(),
{
    if routes.len() > 0 {
        let rest = routes.drop_first();
        first_match_is_earliest(rest, path);
        if !routes.first().pattern.covers(path) {
            if is_uncovered(rest, path) {
                assert forall|j: int| 0 <= j < routes.len() implies !(#[trigger] routes[j]).pattern.covers(
                    path,
                ) by {
                    if j > 0 {
                        assert(routes[j] == rest[j - 1]);
                    }
                }
            }
            assert forall|position: int| #[trigger]
                is_earliest_match(routes, path, position) implies first_match(routes, path)
                == Some(routes[position].handler) by {
                assert(position > 0);
                assert(routes[position] == rest[position - 1]);
                assert forall|j: int| 0 <= j < position - 1 implies !(#[trigger] rest[j]).pattern.covers(
                    path,
                ) by {
                    assert(rest[j] == routes[j + 1]);
                }
                assert(is_earliest_match(rest, path, position - 1));
            }
        }
    }
}

/// Finds the handler for a request path: routes are tried in order, and the
/// first whose pattern covers the path wins.
pub fn dispatch(routes: &Vec<Route>, path: &str) -> (handler: Option<Handler>)
    ensures
        handler == first_match(routes@, path@),
{
    let mut at: usize = 0;
    proof {
        assert(routes@.skip(0) =~= routes@);
    }
    while at < routes.len()
        invariant
            at <= routes.len(),
            first_match(routes@, path@) == first_match(routes@.skip(at as int), path@),
        decreases routes.len() - at,
    {
        let ghost rest = routes@.skip(at as int);
        proof {
            assert(rest.drop_first() =~= routes@.skip(at + 1));
        }
        if routes[at].pattern.matches(path) {
            return Some(routes[at].handler);
        }
        at = at + 1;
    }
    None
}

/// The routing table of the server: the root path goes to the index handler,
/// and after it every path goes to the files handler.
pub open spec fn site_routes() -> Seq<Route> {
    seq![
        (Route { pattern: Pattern::Root, handler: Handler::Index }),
        (Route { pattern: Pattern::Any, handler: Handler::Files }),
    ]
}

/// The handler that the server's routing table gives for a path.
pub open spec fn handler_for(path: Seq<char>) -> Handler {
    if path == root_path() {
        Handler::Index
    } else {
        Handler::Files
    }
}

/// The root path is always handled by the index handler, and every other path
/// by the files handler: the table leaves no path out.
pub proof fn site_routes_cover_every_path(path: Seq<char>)
    ensures
        first_match(site_routes(), path) == Some(handler_for(path)),
{
    reveal_with_fuel(first_match, 3);
}

/// The routing table of the server.
pub fn routes() -> (table: Vec<Route>)
    ensures
        table@ == site_routes(),
{
    let mut table: Vec<Route> = Vec::new();
    table.push(Route { pattern: Pattern::Root, handler: Handler::Index });
    table.push(Route { pattern: Pattern::Any, handler: Handler::Files });
    table
}

/// The handler for a request path under the server's routing table.
pub fn route(path: &str) -> (handler: Handler)
    ensures
        handler == handler_for(path@),
{
    proof {
        site_routes_cover_every_path(path@);
    }
    match dispatch(&routes(), path) {
        Some(handler) => handler,
        None => Handler::Files,
    }
}

} // verus!
