//! The route matcher and the forwarding engine.

use crate::models::docker_models::{Image, Route};
use crate::models::load_balancer_models::{ActiveServiceDirectory, DirectoryView, ProxyError};
use crate::text::{
    chars_of, decimal, decimal_digits, numeral_value, parse_decimal, same_text, starts_with,
};
use vstd::prelude::*;

verus! {

/// The position of the first `/` of `s`, or its length where it has none.
pub open spec fn first_slash(s: Seq<char>) -> int
    decreases s.len(),
{
    if s.len() == 0 || s[0] == '/' {
        0
    } else {
        1 + first_slash(s.drop_first())
    }
}

/// `first_slash(s)` lies within `s`, no `/` stands before it, and a `/`
/// stands at it unless it is the end of `s`.
pub proof fn lemma_first_slash(s: Seq<char>)
    ensures
        0 <= first_slash(s) <= s.len(),
        forall|i: int| 0 <= i < first_slash(s) ==> s[i] != '/',
        first_slash(s) < s.len() ==> s[first_slash(s)] == '/',
    decreases s.len(),
{
    if s.len() == 0 || s[0] == '/' {
    } else {
        let rest = s.drop_first();
        lemma_first_slash(rest);
        assert forall|i: int| 0 <= i < first_slash(s) implies s[i] != '/' by {
            if i > 0 {
                assert(s[i] == rest[i - 1]);
            }
        }
        assert(first_slash(s) < s.len() ==> s[first_slash(s)] == rest[first_slash(rest)]);
    }
}

/// The pieces of `s` between its `/` characters, in order, without the empty
/// ones.
pub open spec fn segments(s: Seq<char>) -> Seq<Seq<char>>
    decreases s.len(),
{
    if s.len() == 0 {
        Seq::empty()
    } else if s[0] == '/' {
        segments(s.drop_first())
    } else {
        proof {
            lemma_first_slash(s);
        }
        seq![s.take(first_slash(s))] + segments(s.skip(first_slash(s)))
    }
}

/// The position of the first `?` or `#` of `s`, or its length where it has
/// neither.
pub open spec fn first_marker(s: Seq<char>) -> int
    decreases s.len(),
{
    if s.len() == 0 || s[0] == '?' || s[0] == '#' {
        0
    } else {
        1 + first_marker(s.drop_first())
    }
}

/// A segment of a request without its query or fragment: what stands before
/// the first `?` or `#`.
pub open spec fn cut_fragment(segment: Seq<char>) -> Seq<char> {
    segment.take(first_marker(segment))
}

/// The segments of a request path, each without its query or fragment.
pub open spec fn request_segments(uri: Seq<char>) -> Seq<Seq<char>> {
    segments(uri).map_values(|segment: Seq<char>| cut_fragment(segment))
}

fn scan_slash(text: &[char], from: usize) -> (to: usize)
    requires
        from <= text.len(),
    ensures
        to == from + first_slash(text@.skip(from as int)),
        from <= to <= text.len(),
{
    let mut to: usize = from;
    while to < text.len() && text[to] != '/'
        invariant
            from <= to <= text.len(),
            first_slash(text@.skip(from as int)) == (to - from) + first_slash(
                text@.skip(to as int),
            ),
        decreases text.len() - to,
    {
        assert(text@.skip(to as int).drop_first() =~= text@.skip(to + 1));
        to += 1;
    }
    to
}

fn scan_marker(text: &[char]) -> (to: usize)
    ensures
        to == first_marker(text@),
        to <= text.len(),
{
    let mut to: usize = 0;
    assert(text@.skip(0) =~= text@);
    while to < text.len() && text[to] != '?' && text[to] != '#'
        invariant
            to <= text.len(),
            first_marker(text@) == to + first_marker(text@.skip(to as int)),
        decreases text.len() - to,
    {
        assert(text@.skip(to as int).drop_first() =~= text@.skip(to + 1));
        to += 1;
    }
    to
}

fn copy_range(text: &[char], from: usize, to: usize) -> (piece: Vec<char>)
    requires
        from <= to <= text.len(),
    ensures
        piece@ == text@.subrange(from as int, to as int),
{
    let mut piece: Vec<char> = Vec::new();
    let mut i: usize = from;
    while i < to
        invariant
            from <= i <= to <= text.len(),
            piece@ == text@.subrange(from as int, i as int),
        decreases to - i,
    {
        piece.push(text[i]);
        assert(piece@ =~= text@.subrange(from as int, i + 1));
        i += 1;
    }
    piece
}

/// Splits a path into its segments.
pub fn split_segments(text: &[char]) -> (pieces: Vec<Vec<char>>)
    ensures
        pieces.deep_view() == segments(text@),
{
    let mut pieces: Vec<Vec<char>> = Vec::new();
    let mut i: usize = 0;
    assert(text@.skip(0) =~= text@);
    assert(pieces.deep_view() =~= Seq::empty());
    while i < text.len()
        invariant
            i <= text.len(),
            segments(text@) == pieces.deep_view() + segments(text@.skip(i as int)),
        decreases text.len() - i,
    {
        let ghost rest = text@.skip(i as int);
        if text[i] == '/' {
            assert(rest.drop_first() =~= text@.skip(i + 1));
            i += 1;
        } else {
            let to = scan_slash(text, i);
            proof {
                lemma_first_slash(rest);
            }
            let piece = copy_range(text, i, to);
            let ghost before = pieces.deep_view();
            assert(piece@ =~= rest.take(first_slash(rest)));
            assert(rest.skip(first_slash(rest)) =~= text@.skip(to as int));
            assert(piece.deep_view() =~= piece@);
            pieces.push(piece);
            assert(pieces.deep_view() =~= before + seq![rest.take(first_slash(rest))]);
            i = to;
        }
    }
    assert(text@.skip(i as int) =~= Seq::<char>::empty());
    pieces
}

/// Splits a request path into its segments and drops what follows the first
/// `?` or `#` of each.
pub fn split_request(text: &[char]) -> (pieces: Vec<Vec<char>>)
    ensures
        pieces.deep_view() == request_segments(text@),
{
    let whole = split_segments(text);
    let mut pieces: Vec<Vec<char>> = Vec::new();
    let mut i: usize = 0;
    while i < whole.len()
        invariant
            i <= whole.len(),
            whole.deep_view() == segments(text@),
            pieces.deep_view() == request_segments(text@).take(i as int),
        decreases whole.len() - i,
    {
        let to = scan_marker(whole[i].as_slice());
        let piece = copy_range(whole[i].as_slice(), 0, to);
        let ghost before = pieces.deep_view();
        assert(piece@ =~= cut_fragment(whole@[i as int]@));
        assert(piece.deep_view() =~= piece@);
        assert(whole@[i as int].deep_view() =~= whole@[i as int]@);
        pieces.push(piece);
        assert(pieces.deep_view() =~= before.push(piece@));
        assert(pieces.deep_view() =~= request_segments(text@).take(i + 1));
        i += 1;
    }
    assert(pieces.deep_view() =~= request_segments(text@));
    pieces
}

/// Whether the segments `leading` are the first segments of `whole`.
pub fn leads(whole: &Vec<Vec<char>>, leading: &Vec<Vec<char>>) -> (b: bool)
    ensures
        b == leading.deep_view().is_prefix_of(whole.deep_view()),
{
    if leading.len() > whole.len() {
        return false;
    }
    let mut i: usize = 0;
    while i < leading.len()
        invariant
            i <= leading.len() <= whole.len(),
            forall|k: int| 0 <= k < i ==> leading.deep_view()[k] == whole.deep_view()[k],
        decreases leading.len() - i,
    {
        let a = leading[i].as_slice();
        let b = whole[i].as_slice();
        let same = a.len() == b.len() && starts_with(b, a);
        assert(leading.deep_view()[i as int] =~= a@);
        assert(whole.deep_view()[i as int] =~= b@);
        if !same {
            assert(whole.deep_view().subrange(0, leading.deep_view().len() as int)[i as int]
                == b@);
            assert(a@ != b@) by {
                if a@ == b@ {
                    assert(a@ =~= b@.subrange(0, a@.len() as int));
                }
            }
            return false;
        }
        assert(a@ =~= b@);
        i += 1;
    }
    assert(leading.deep_view() =~= whole.deep_view().subrange(
        0,
        leading.deep_view().len() as int,
    ));
    true
}

/// The number of segments of an address.
pub open spec fn depth(address: Seq<char>) -> nat {
    segments(address).len()
}

/// Whether a route address can win the resolution of `uri`: its segments
/// are the first segments of the request. An address without segments, such
/// as `/`, qualifies for every request.
pub open spec fn qualifies(address: Seq<char>, uri: Seq<char>) -> bool {
    segments(address).is_prefix_of(request_segments(uri))
}

/// Whether `winner` is the first among the deepest addresses that qualify.
pub open spec fn is_longest_match(addresses: Seq<Seq<char>>, uri: Seq<char>, winner: int) -> bool {
    &&& 0 <= winner < addresses.len()
    &&& qualifies(addresses[winner], uri)
    &&& forall|j: int|
        0 <= j < addresses.len() && qualifies(#[trigger] addresses[j], uri) ==> depth(addresses[j])
            <= depth(addresses[winner])
    &&& forall|j: int|
        0 <= j < winner && qualifies(#[trigger] addresses[j], uri) ==> depth(addresses[j]) < depth(
            addresses[winner],
        )
}

/// Whether some address qualifies for `uri`.
pub open spec fn some_qualifies(addresses: Seq<Seq<char>>, uri: Seq<char>) -> bool {
    exists|j: int| 0 <= j < addresses.len() && qualifies(#[trigger] addresses[j], uri)
}

/// What resolution yields: the first of the deepest qualifying addresses,
/// and the first address of all where none qualifies.
pub open spec fn resolves_to(addresses: Seq<Seq<char>>, uri: Seq<char>, index: int) -> bool {
    if some_qualifies(addresses, uri) {
        is_longest_match(addresses, uri, index)
    } else {
        index == 0
    }
}

/// The addresses of a list of routes.
pub open spec fn addresses_of(routes: Seq<Route>) -> Seq<Seq<char>> {
    routes.map_values(|route: Route| route.address@)
}

/// Picks, among routes that all match a request, the one to serve it: the
/// route whose address has the most segments among those whose segments
/// lead the request's, the earliest such route where several tie. Where no
/// route qualifies the first one is picked.
pub fn route_resolver(route_matches: &Vec<Route>, uri: &str) -> (index: usize)
    ensures
        resolves_to(addresses_of(route_matches@), uri@, index as int),
        route_matches.len() > 0 ==> index < route_matches.len(),
{
    let uri_chars = chars_of(uri);
    let uri_split = split_request(uri_chars.as_slice());
    let ghost addresses = addresses_of(route_matches@);
    let mut found: bool = false;
    let mut matched_index: usize = 0;
    let mut max_matches: usize = 0;
    let mut i: usize = 0;
    while i < route_matches.len()
        invariant
            i <= route_matches.len(),
            addresses == addresses_of(route_matches@),
            uri_split.deep_view() == request_segments(uri@),
            !found ==> matched_index == 0 && !some_qualifies(addresses.take(i as int), uri@),
            found ==> is_longest_match(addresses.take(i as int), uri@, matched_index as int)
                && max_matches == depth(addresses[matched_index as int]),
        decreases route_matches.len() - i,
    {
        let address = chars_of(route_matches[i].address.as_str());
        let route_split = split_segments(address.as_slice());
        let ghost seen = addresses.take(i as int);
        let ghost more = addresses.take(i + 1);
        assert(address@ == addresses[i as int]);
        assert(more[i as int] == addresses[i as int]);
        assert(forall|j: int| 0 <= j < i ==> more[j] == seen[j]);
        let fits = leads(&uri_split, &route_split);
        if fits && (!found || route_split.len() > max_matches) {
            assert(qualifies(more[i as int], uri@));
            assert forall|j: int|
                0 <= j < more.len() && qualifies(#[trigger] more[j], uri@) implies depth(more[j])
                <= depth(more[i as int]) by {
                if j < i {
                    assert(qualifies(seen[j], uri@));
                }
            }
            assert forall|j: int| 0 <= j < i && qualifies(#[trigger] more[j], uri@) implies depth(
                more[j],
            ) < depth(more[i as int]) by {
                assert(qualifies(seen[j], uri@));
            }
            found = true;
            matched_index = i;
            max_matches = route_split.len();
        } else {
            if !found {
                assert(!qualifies(more[i as int], uri@));
                assert forall|j: int| 0 <= j < more.len() implies !qualifies(
                    #[trigger] more[j],
                    uri@,
                ) by {
                    if j < i {
                        assert(more[j] == seen[j]);
                    }
                }
            } else {
                assert(more[matched_index as int] == seen[matched_index as int]);
                assert forall|j: int|
                    0 <= j < more.len() && qualifies(#[trigger] more[j], uri@) implies depth(
                    more[j],
                ) <= depth(more[matched_index as int]) by {
                    if j < i {
                        assert(qualifies(seen[j], uri@));
                    }
                }
                assert forall|j: int|
                    0 <= j < matched_index && qualifies(#[trigger] more[j], uri@) implies depth(
                    more[j],
                ) < depth(more[matched_index as int]) by {
                    assert(qualifies(seen[j], uri@));
                }
            }
        }
        i += 1;
    }
    assert(addresses.take(i as int) =~= addresses);
    proof {
        if found {
            assert(qualifies(addresses[matched_index as int], uri@));
        }
    }
    matched_index
}

/// Resolution names one index: two indices that both answer to
/// `resolves_to` are the same.
pub proof fn lemma_resolution_is_unique(addresses: Seq<Seq<char>>, uri: Seq<char>, a: int, b: int)
    requires
        resolves_to(addresses, uri, a),
        resolves_to(addresses, uri, b),
    ensures
        a == b,
{
    if some_qualifies(addresses, uri) {
        if a < b {
            assert(qualifies(addresses[a], uri));
        } else if b < a {
            assert(qualifies(addresses[b], uri));
        }
    }
}

/// Longest prefix wins: where any candidate's segments lead the segments
/// of the request, the candidate that resolution picks is one of them, and
/// none of them has more segments.
pub proof fn lemma_longest_prefix_wins(
    addresses: Seq<Seq<char>>,
    uri: Seq<char>,
    index: int,
    other: int,
)
    requires
        resolves_to(addresses, uri, index),
        0 <= other < addresses.len(),
        qualifies(addresses[other], uri),
    ensures
        0 <= index < addresses.len(),
        qualifies(addresses[index], uri),
        depth(addresses[other]) <= depth(addresses[index]),
{
}

/// Whether the address of `route` is the beginning of `uri`.
pub open spec fn is_candidate(route: Route, uri: Seq<char>) -> bool {
    route.address@.is_prefix_of(uri)
}

/// The routes whose address is the beginning of `uri`, in their order.
pub open spec fn candidates(routes: Seq<Route>, uri: Seq<char>) -> Seq<Route> {
    routes.filter(|route: Route| is_candidate(route, uri))
}

/// What the route table yields for a request: nothing where no address is
/// the beginning of the request, and otherwise the candidate that
/// resolution picks.
pub open spec fn selects(routes: Seq<Route>, uri: Seq<char>, found: Option<Route>) -> bool {
    let matching = candidates(routes, uri);
    match found {
        None => matching.len() == 0,
        Some(route) => exists|i: int|
            0 <= i < matching.len() && resolves_to(addresses_of(matching), uri, i)
                && #[trigger] matching[i] == route,
    }
}

/// Looks a request up in the route table.
pub fn select_route(routes: &Vec<Route>, uri: &str) -> (found: Option<Route>)
    ensures
        selects(routes@, uri@, found),
{
    let uri_chars = chars_of(uri);
    let ghost wanted = |route: Route| is_candidate(route, uri@);
    let mut matching: Vec<Route> = Vec::new();
    let mut i: usize = 0;
    proof {
        reveal(Seq::filter);
        assert(routes@.take(0) =~= Seq::<Route>::empty());
    }
    while i < routes.len()
        invariant
            i <= routes.len(),
            uri_chars@ == uri@,
            wanted == |route: Route| is_candidate(route, uri@),
            matching@ == routes@.take(i as int).filter(wanted),
        decreases routes.len() - i,
    {
        let address = chars_of(routes[i].address.as_str());
        proof {
            reveal(Seq::filter);
            assert(routes@.take(i + 1).drop_last() =~= routes@.take(i as int));
            assert(routes@.take(i + 1).last() == routes@[i as int]);
        }
        if starts_with(uri_chars.as_slice(), address.as_slice()) {
            matching.push(routes[i].clone());
        }
        i += 1;
    }
    assert(routes@.take(i as int) =~= routes@);
    if matching.len() == 0 {
        None
    } else {
        let index = route_resolver(&matching, uri);
        Some(matching.swap_remove(index))
    }
}

/// The backend of a container route: the image that serves it, by its
/// stored reference and by its runtime identifier, the address of the route
/// and the prefix to strip from forwarded paths.
#[derive(Debug, PartialEq, Eq)]
pub struct RouteIdentifierResult {
    pub mongo_image_id: String,
    pub docker_image_id: String,
    pub container_path: String,
    pub prefix: Option<String>,
}

/// Where a request is to go.
#[derive(Debug, PartialEq, Eq)]
pub enum RouteTarget {
    /// To a fixed port; no load balancer is consulted.
    Static { port: usize, prefix: Option<String> },
    /// To a backend of the pool that serves the route.
    Container(RouteIdentifierResult),
}

/// Where the resolution of a request stands.
#[derive(Debug, PartialEq, Eq)]
pub enum RouteStep {
    /// Nothing has been asked yet.
    Begin,
    /// The store is asked for the routes whose address begins `uri`.
    FindRoutes { uri: String },
    /// The store is asked for the image record that `route` refers to.
    FindImage { route: Route },
    /// Resolution is over: the target of the request, or none where no
    /// route matches.
    Done(Option<RouteTarget>),
    /// The records of the store do not name a backend: a container route
    /// without an image, an image reference without a record, or a static
    /// route whose port is no number that fits.
    Failed,
}

/// An answer from the store.
#[derive(Debug, PartialEq, Eq)]
pub enum RouteEvent {
    /// Resolution is being started.
    Start,
    /// The routes that were asked for.
    Routes(Vec<Route>),
    /// The image record that was asked for, if there is one.
    Image(Option<Image>),
}

/// What is to happen with the route that was selected: a static route
/// resolves at once to its port, a container route needs its image.
pub open spec fn route_plan(route: Route, next: RouteStep) -> bool {
    if route.is_static() {
        match numeral_value(route.exposed_port@) {
            Some(value) => if value <= usize::MAX {
                &&& next matches RouteStep::Done(Some(RouteTarget::Static { port, prefix }))
                &&& port == value
                &&& prefix == route.prefix
            } else {
                next == RouteStep::Failed
            },
            None => next == RouteStep::Failed,
        }
    } else {
        match route.mongo_image {
            Some(_) => next == (RouteStep::FindImage { route }),
            None => next == RouteStep::Failed,
        }
    }
}

/// The resolution procedure, as a relation between the pending step, the
/// answer to it, and the step that follows. An answer that does not fit the
/// pending step leaves the step pending.
pub open spec fn route_follows(
    uri: Seq<char>,
    pending: RouteStep,
    event: RouteEvent,
    next: RouteStep,
) -> bool {
    match (pending, event) {
        (RouteStep::Begin, _) => {
            &&& next matches RouteStep::FindRoutes { uri: asked }
            &&& asked@ == uri
        },
        (RouteStep::FindRoutes { .. }, RouteEvent::Routes(routes)) => {
            exists|found: Option<Route>| #[trigger]
                selects(routes@, uri, found) && match found {
                    None => next == RouteStep::Done(None),
                    Some(route) => route_plan(route, next),
                }
        },
        (RouteStep::FindImage { route }, RouteEvent::Image(found)) => {
            match (found, route.mongo_image) {
                (Some(image), Some(reference)) => {
                    next == RouteStep::Done(
                        Some(
                            RouteTarget::Container(
                                RouteIdentifierResult {
                                    mongo_image_id: reference,
                                    docker_image_id: image.docker_image_id,
                                    container_path: route.address,
                                    prefix: route.prefix,
                                },
                            ),
                        ),
                    )
                },
                _ => next == RouteStep::Failed,
            }
        },
        _ => next == pending,
    }
}

/// Resolves the path and query `uri` of a request to its target.
///
/// The caller starts with `RouteStep::Begin`, performs what each returned
/// step asks for, and hands the step back with the answer until the step is
/// `Done` or `Failed`.
pub fn route_identifier(uri: &str, pending: RouteStep, event: RouteEvent) -> (next: RouteStep)
    ensures
        route_follows(uri@, pending, event, next),
{
    match (pending, event) {
        (RouteStep::Begin, _) => RouteStep::FindRoutes { uri: String::from_str(uri) },
        (RouteStep::FindRoutes { .. }, RouteEvent::Routes(routes)) => {
            let found = select_route(&routes, uri);
            match found {
                None => RouteStep::Done(None),
                Some(route) => {
                    if same_text(route.route_type.as_str(), "static") {
                        match parse_decimal(route.exposed_port.as_str()) {
                            Some(port) => RouteStep::Done(
                                Some(RouteTarget::Static { port, prefix: route.prefix }),
                            ),
                            None => RouteStep::Failed,
                        }
                    } else if route.mongo_image.is_some() {
                        RouteStep::FindImage { route }
                    } else {
                        RouteStep::Failed
                    }
                },
            }
        },
        (RouteStep::FindImage { route }, RouteEvent::Image(found)) => {
            match (found, route.mongo_image) {
                (Some(image), Some(reference)) => RouteStep::Done(
                    Some(
                        RouteTarget::Container(
                            RouteIdentifierResult {
                                mongo_image_id: reference,
                                docker_image_id: image.docker_image_id,
                                container_path: route.address,
                                prefix: route.prefix,
                            },
                        ),
                    ),
                ),
                _ => RouteStep::Failed,
            }
        },
        (pending, _) => pending,
    }
}

/// Status of the reply to a request with a method that is not forwarded.
pub const BAD_REQUEST: u16 = 400;

/// Status of the reply to a request that no route matches.
pub const NOT_FOUND: u16 = 404;

/// Status of the reply once a backend has refused connections for too long.
pub const REQUEST_TIMEOUT: u16 = 408;

/// Status of the reply when no backend could be brought up.
pub const INTERNAL_SERVER_ERROR: u16 = 500;

/// What a backend answered: status, headers and body as they came.
#[derive(Debug, PartialEq, Eq)]
pub struct UpstreamResponse {
    pub status: u16,
    pub headers: Vec<(String, Vec<u8>)>,
    pub body: Vec<u8>,
}

/// A reply of the proxy.
#[derive(Debug, PartialEq, Eq)]
pub enum ProxyResponse {
    /// A reply that the proxy writes itself: a status and a line of text.
    Plain { status: u16, text: String },
    /// The reply of a backend, passed on unchanged.
    Upstream(UpstreamResponse),
}

impl ProxyResponse {
    /// The status of the reply.
    pub open spec fn status(self) -> u16 {
        match self {
            ProxyResponse::Plain { status, .. } => status,
            ProxyResponse::Upstream(response) => response.status,
        }
    }

    /// Whether the reply is the one the proxy writes itself with `status`
    /// and `text`.
    pub open spec fn is_plain(self, status: u16, text: Seq<char>) -> bool {
        self matches ProxyResponse::Plain { status: s, text: t } && s == status && t@ == text
    }
}

/// The path and query of a request, `/` where it has none.
pub fn extract_uri(path_and_query: Option<&str>) -> (uri: String)
    ensures
        uri@ == match path_and_query {
            Some(text) => text@,
            None => seq!['/'],
        },
{
    match path_and_query {
        Some(text) => String::from_str(text),
        None => {
            proof {
                reveal_strlit("/");
            }
            assert("/"@ =~= seq!['/']);
            String::from_str("/")
        },
    }
}

/// Where a route with `prefix` is mounted: the prefix itself, with a `/` put
/// in front unless it has one.
pub open spec fn mount_point(prefix: Seq<char>) -> Seq<char> {
    if prefix.len() > 0 && prefix[0] == '/' {
        prefix
    } else {
        seq!['/'] + prefix
    }
}

/// Whether a segment of `path` ends at position `at`.
pub open spec fn at_boundary(path: Seq<char>, at: int) -> bool {
    at == path.len() || path[at] == '/' || path[at] == '?' || path[at] == '#'
}

/// Whether `path` lies under the mount point of `prefix`: the mount point
/// names at least one character beside its `/`, the path begins with it, and
/// a segment of the path ends where it ends.
pub open spec fn is_mounted(path: Seq<char>, prefix: Seq<char>) -> bool {
    let mount = mount_point(prefix);
    mount.len() > 1 && mount.is_prefix_of(path) && at_boundary(path, mount.len() as int)
}

/// The path as the backend sees it: without the mount point where the path
/// lies under it, and unchanged where it does not. What is left always
/// begins with `/`.
pub open spec fn strip_prefix(path: Seq<char>, prefix: Seq<char>) -> Seq<char> {
    if is_mounted(path, prefix) {
        let rest = path.skip(mount_point(prefix).len() as int);
        if rest.len() > 0 && rest[0] == '/' {
            rest
        } else {
            seq!['/'] + rest
        }
    } else {
        path
    }
}

/// Mounting and stripping cancel: a path put under the mount point of a
/// prefix is forwarded as it was before, provided the mount point names
/// more than the root.
pub proof fn lemma_strip_prefix_round_trip(prefix: Seq<char>, rest: Seq<char>)
    requires
        mount_point(prefix).len() > 1,
        rest.len() > 0,
        rest[0] == '/',
    ensures
        strip_prefix(mount_point(prefix) + rest, prefix) == rest,
{
    let mount = mount_point(prefix);
    let path = mount + rest;
    assert(path.subrange(0, mount.len() as int) =~= mount);
    assert(path[mount.len() as int] == rest[0]);
    assert(path.skip(mount.len() as int) =~= rest);
}

/// A path that does not begin with the mount point of the prefix is
/// forwarded unchanged.
pub proof fn lemma_strip_prefix_elsewhere(path: Seq<char>, prefix: Seq<char>)
    requires
        !mount_point(prefix).is_prefix_of(path),
    ensures
        strip_prefix(path, prefix) == path,
{
}

/// Rewrites the path of a request for the backend of a route with `prefix`.
pub fn strip_route_prefix(path: &str, prefix: &str) -> (rewritten: String)
    ensures
        rewritten@ == strip_prefix(path@, prefix@),
{
    let path_chars = chars_of(path);
    let mut mount = chars_of(prefix);
    if !(mount.len() > 0 && mount[0] == '/') {
        mount.insert(0, '/');
    }
    assert(mount@ =~= mount_point(prefix@));
    if mount.len() <= 1 || !starts_with(path_chars.as_slice(), mount.as_slice()) {
        return String::from_str(path);
    }
    let cut: usize = mount.len();
    let total: usize = path_chars.len();
    if cut < total {
        let follows = path_chars[cut];
        if follows != '/' && follows != '?' && follows != '#' {
            return String::from_str(path);
        }
    }
    let rest = path.substring_char(cut, total);
    assert(rest@ =~= path@.skip(cut as int));
    if cut < total && path_chars[cut] == '/' {
        String::from_str(rest)
    } else {
        proof {
            reveal_strlit("/");
        }
        let rewritten = String::from_str("/").concat(rest);
        assert(rewritten@ =~= seq!['/'] + rest@);
        rewritten
    }
}

/// The path and query that is forwarded for a request.
pub open spec fn forwarded_path(path_and_query: Option<Seq<char>>, prefix: Option<Seq<char>>) -> Seq<
    char,
> {
    let uri = match path_and_query {
        Some(text) => text,
        None => seq!['/'],
    };
    match prefix {
        Some(p) => strip_prefix(uri, p),
        None => uri,
    }
}

/// The address of a backend that listens on `port` of this host, for the
/// path and query `path`.
pub open spec fn destination(port: nat, path: Seq<char>) -> Seq<char> {
    "https://localhost:"@ + decimal_digits(port) + path
}

/// Builds the address to which a request is forwarded.
pub fn destination_url(
    path_and_query: Option<&str>,
    public_port: usize,
    prefix: &Option<String>,
) -> (url: String)
    ensures
        url@ == destination(
            public_port as nat,
            forwarded_path(
                match path_and_query {
                    Some(text) => Some(text@),
                    None => None,
                },
                match prefix {
                    Some(p) => Some(p@),
                    None => None,
                },
            ),
        ),
{
    let uri = extract_uri(path_and_query);
    let path = match prefix {
        Some(p) => strip_route_prefix(uri.as_str(), p.as_str()),
        None => uri,
    };
    let port = decimal(public_port);
    let url = String::from_str("https://localhost:").concat(port.as_str()).concat(path.as_str());
    url
}

/// The methods that are forwarded.
pub open spec fn method_is_forwarded(method: Seq<char>) -> bool {
    method == "GET"@ || method == "POST"@ || method == "PUT"@ || method == "PATCH"@ || method
        == "DELETE"@
}

/// The method and target of an inbound request.
#[derive(Debug, PartialEq, Eq)]
pub struct RequestHead {
    pub method: String,
    pub path_and_query: Option<String>,
}

impl RequestHead {
    /// The path and query, as characters.
    pub open spec fn target(&self) -> Option<Seq<char>> {
        match self.path_and_query {
            Some(text) => Some(text@),
            None => None,
        }
    }
}

/// The clock of one forwarding: the present time and the longest time over
/// which a backend that refuses connections is tried again, both in seconds.
#[derive(Debug, PartialEq, Eq, Clone, Copy)]
pub struct RetryClock {
    pub now: u64,
    pub maximum_time_attempt_in_seconds: u64,
}

impl RetryClock {
    /// Whether another attempt may still be made by a forwarding that began
    /// at `started_at`. A clock that has gone back counts as no time spent.
    pub open spec fn allows_attempt(self, started_at: u64) -> bool {
        if self.now >= started_at {
            self.now - started_at < self.maximum_time_attempt_in_seconds
        } else {
            0 < self.maximum_time_attempt_in_seconds
        }
    }
}

/// Where the forwarding of a request stands.
#[derive(Debug, PartialEq, Eq)]
pub enum ForwardStep {
    /// Nothing has been sent yet.
    Begin,
    /// The request is to be sent to `url`, with the method, headers and body
    /// with which it came. `started_at` is when forwarding began.
    Attempt { url: String, started_at: u64 },
    /// Forwarding is over, with the reply for the client.
    Done(ProxyResponse),
}

/// What became of an attempt.
#[derive(Debug, PartialEq, Eq)]
pub enum ForwardEvent {
    /// Forwarding is being started.
    Start,
    /// The backend could not be reached.
    Refused,
    /// The backend answered, with whatever status.
    Responded(UpstreamResponse),
}

/// The forwarding procedure, as a relation between the pending step, what
/// became of it, and the step that follows.
///
/// A request with a method that is not forwarded is answered with 400
/// before anything is sent. An answer of the backend ends forwarding and is
/// passed on, whatever its status. A refused connection is tried again at
/// once while the clock allows it, and answered with 408 when it no longer
/// does; the clock is asked before the first attempt too.
pub open spec fn forward_follows(
    request: RequestHead,
    public_port: usize,
    prefix: Option<String>,
    clock: RetryClock,
    pending: ForwardStep,
    event: ForwardEvent,
    next: ForwardStep,
) -> bool {
    match (pending, event) {
        (ForwardStep::Begin, _) => {
            if !method_is_forwarded(request.method@) {
                next matches ForwardStep::Done(reply) && reply.is_plain(BAD_REQUEST, Seq::empty())
            } else if clock.allows_attempt(clock.now) {
                &&& next matches ForwardStep::Attempt { url, started_at }
                &&& started_at == clock.now
                &&& url@ == destination(
                    public_port as nat,
                    forwarded_path(
                        request.target(),
                        match prefix {
                            Some(p) => Some(p@),
                            None => None,
                        },
                    ),
                )
            } else {
                next matches ForwardStep::Done(reply) && reply.is_plain(
                    REQUEST_TIMEOUT,
                    Seq::empty(),
                )
            }
        },
        (ForwardStep::Attempt { url, started_at }, ForwardEvent::Refused) => {
            if clock.allows_attempt(started_at) {
                next == pending
            } else {
                next matches ForwardStep::Done(reply) && reply.is_plain(
                    REQUEST_TIMEOUT,
                    Seq::empty(),
                )
            }
        },
        (ForwardStep::Attempt { .. }, ForwardEvent::Responded(response)) => {
            next == ForwardStep::Done(ProxyResponse::Upstream(response))
        },
        _ => next == pending,
    }
}

fn plain_reply(status: u16) -> (reply: ProxyResponse)
    ensures
        reply.is_plain(status, Seq::empty()),
{
    ProxyResponse::Plain { status, text: String::new() }
}

fn method_forwarded(method: &str) -> (b: bool)
    ensures
        b == method_is_forwarded(method@),
{
    same_text(method, "GET") || same_text(method, "POST") || same_text(method, "PUT") || same_text(
        method,
        "PATCH",
    ) || same_text(method, "DELETE")
}

/// Forwards a request to the backend that listens on `public_port`.
///
/// The caller starts with `ForwardStep::Begin`, reads the clock before each
/// call, sends what each `Attempt` asks for, and hands the step back with
/// what became of it until the step is `Done`.
pub fn forward_request(
    request: &RequestHead,
    public_port: usize,
    prefix: &Option<String>,
    clock: RetryClock,
    pending: ForwardStep,
    event: ForwardEvent,
) -> (next: ForwardStep)
    ensures
        forward_follows(*request, public_port, *prefix, clock, pending, event, next),
{
    match (pending, event) {
        (ForwardStep::Begin, _) => {
            if !method_forwarded(request.method.as_str()) {
                ForwardStep::Done(plain_reply(BAD_REQUEST))
            } else if 0 < clock.maximum_time_attempt_in_seconds {
                let target: Option<&str> = match &request.path_and_query {
                    Some(text) => Some(text.as_str()),
                    None => None,
                };
                ForwardStep::Attempt {
                    url: destination_url(target, public_port, prefix),
                    started_at: clock.now,
                }
            } else {
                ForwardStep::Done(plain_reply(REQUEST_TIMEOUT))
            }
        },
        (ForwardStep::Attempt { url, started_at }, ForwardEvent::Refused) => {
            let allowed = if clock.now >= started_at {
                clock.now - started_at < clock.maximum_time_attempt_in_seconds
            } else {
                0 < clock.maximum_time_attempt_in_seconds
            };
            if allowed {
                ForwardStep::Attempt { url, started_at }
            } else {
                ForwardStep::Done(plain_reply(REQUEST_TIMEOUT))
            }
        },
        (ForwardStep::Attempt { .. }, ForwardEvent::Responded(response)) => {
            ForwardStep::Done(ProxyResponse::Upstream(response))
        },
        (pending, _) => pending,
    }
}

/// Retry, then time out: while the backend refuses connections forwarding
/// never replies with anything but 408. It asks for another attempt as long
/// as the clock allows one, and replies 408 as soon as it does not.
pub proof fn lemma_refused_forwarding_times_out(
    request: RequestHead,
    public_port: usize,
    prefix: Option<String>,
    clock: RetryClock,
    url: String,
    started_at: u64,
    next: ForwardStep,
)
    requires
        forward_follows(
            request,
            public_port,
            prefix,
            clock,
            ForwardStep::Attempt { url, started_at },
            ForwardEvent::Refused,
            next,
        ),
    ensures
        clock.allows_attempt(started_at) ==> next == (ForwardStep::Attempt { url, started_at }),
        !clock.allows_attempt(started_at) ==> (next matches ForwardStep::Done(reply)
            && reply.status() == REQUEST_TIMEOUT),
        next matches ForwardStep::Done(reply) ==> !(200 <= reply.status() < 300),
        clock.now - started_at >= clock.maximum_time_attempt_in_seconds ==> next is Done,
{
}

/// Where the serving of a request by a load balancer stands.
#[derive(Debug, PartialEq, Eq)]
pub enum PortForwardStep {
    /// Nothing has been asked yet.
    Begin,
    /// A backend is to be chosen for the request.
    RouteContainer { load_balancer_key: String },
    /// The chosen backend is to be started, if it does not run.
    TryStart { container_id: String, public_port: usize },
    /// The chosen backend did not start: the pool is to be corrected.
    Correct { container_id: String, load_balancer_key: String },
    /// The request is to be forwarded to the backend, which is told of the
    /// request before and of the reply after.
    Forward { container_id: String, public_port: usize },
    /// The reply for the client.
    Done(ProxyResponse),
}

/// An answer to a step of the serving.
#[derive(Debug, PartialEq, Eq)]
pub enum PortForwardEvent {
    /// Serving is being started.
    Start,
    /// The backend that was chosen and its host port, or nothing where the
    /// pool is empty and could not be given a backend.
    Routed(Option<(String, usize)>),
    /// Whether the backend runs, with the reason where it does not.
    Started(Result<(), String>),
    /// The replacement and its host port, or the reason why there is none.
    Corrected(Result<(String, usize), ProxyError>),
    /// The reply that forwarding gave.
    Forwarded(ProxyResponse),
}

/// The directory once the load balancer under `key` has been marked as not
/// validated, so that the next request reconciles it with the runtime.
pub open spec fn invalidated(directory: DirectoryView, key: Seq<char>) -> DirectoryView {
    if directory.load_balancers.contains_key(key) {
        directory.with_load_balancer(key, directory.load_balancers[key].with_validation(false))
    } else {
        directory
    }
}

/// The serving of a request by a load balancer, as a relation between the
/// directory and pending step before, the answer, and the directory and
/// step after.
///
/// A backend that starts is forwarded to. One that does not start is
/// corrected once, and the replacement is forwarded to. Where there is no
/// backend to forward to, the client is told so with status 500 and the load
/// balancer is marked as not validated; the directory changes in no other
/// case.
pub open spec fn port_forward_follows(
    before: DirectoryView,
    load_balancer_key: Seq<char>,
    pending: PortForwardStep,
    event: PortForwardEvent,
    after: DirectoryView,
    next: PortForwardStep,
) -> bool {
    match (pending, event) {
        (PortForwardStep::Begin, _) => {
            &&& after == before
            &&& next matches PortForwardStep::RouteContainer { load_balancer_key: key }
            &&& key@ == load_balancer_key
        },
        (PortForwardStep::RouteContainer { .. }, PortForwardEvent::Routed(chosen)) => {
            match chosen {
                Some((container_id, public_port)) => {
                    &&& after == before
                    &&& next == (PortForwardStep::TryStart { container_id, public_port })
                },
                None => {
                    &&& after == invalidated(before, load_balancer_key)
                    &&& next matches PortForwardStep::Done(reply)
                    &&& reply.is_plain(INTERNAL_SERVER_ERROR, ProxyError::CannotProvision.text())
                },
            }
        },
        (
            PortForwardStep::TryStart { container_id, public_port },
            PortForwardEvent::Started(outcome),
        ) => {
            &&& after == before
            &&& match outcome {
                Ok(_) => next == (PortForwardStep::Forward { container_id, public_port }),
                Err(_) => {
                    &&& next matches PortForwardStep::Correct {
                        container_id: stale,
                        load_balancer_key: key,
                    }
                    &&& stale == container_id
                    &&& key@ == load_balancer_key
                },
            }
        },
        (PortForwardStep::Correct { .. }, PortForwardEvent::Corrected(outcome)) => {
            match outcome {
                Ok((container_id, public_port)) => {
                    &&& after == before
                    &&& next == (PortForwardStep::Forward { container_id, public_port })
                },
                Err(error) => {
                    &&& after == invalidated(before, load_balancer_key)
                    &&& next matches PortForwardStep::Done(reply)
                    &&& reply.is_plain(INTERNAL_SERVER_ERROR, error.text())
                },
            }
        },
        (PortForwardStep::Forward { .. }, PortForwardEvent::Forwarded(reply)) => {
            after == before && next == PortForwardStep::Done(reply)
        },
        _ => after == before && next == pending,
    }
}

/// Serves a request through the load balancer under `load_balancer_key`.
///
/// The caller starts with `PortForwardStep::Begin`, runs the procedure that
/// each returned step names, and hands the step back with the outcome until
/// the step is `Done`.
pub fn port_forward_request(
    directory: &mut ActiveServiceDirectory,
    load_balancer_key: &str,
    pending: PortForwardStep,
    event: PortForwardEvent,
) -> (next: PortForwardStep)
    requires
        old(directory).wf(),
    ensures
        final(directory).wf(),
        port_forward_follows(
            old(directory)@,
            load_balancer_key@,
            pending,
            event,
            final(directory)@,
            next,
        ),
{
    match (pending, event) {
        (PortForwardStep::Begin, _) => PortForwardStep::RouteContainer {
            load_balancer_key: String::from_str(load_balancer_key),
        },
        (PortForwardStep::RouteContainer { .. }, PortForwardEvent::Routed(chosen)) => {
            match chosen {
                Some((container_id, public_port)) => PortForwardStep::TryStart {
                    container_id,
                    public_port,
                },
                None => {
                    directory.update_load_balancer_validation(load_balancer_key, false);
                    PortForwardStep::Done(ProxyError::CannotProvision.into_response())
                },
            }
        },
        (
            PortForwardStep::TryStart { container_id, public_port },
            PortForwardEvent::Started(outcome),
        ) => {
            match outcome {
                Ok(_) => PortForwardStep::Forward { container_id, public_port },
                Err(_) => PortForwardStep::Correct {
                    container_id,
                    load_balancer_key: String::from_str(load_balancer_key),
                },
            }
        },
        (PortForwardStep::Correct { .. }, PortForwardEvent::Corrected(outcome)) => {
            match outcome {
                Ok((container_id, public_port)) => PortForwardStep::Forward {
                    container_id,
                    public_port,
                },
                Err(error) => {
                    directory.update_load_balancer_validation(load_balancer_key, false);
                    PortForwardStep::Done(error.into_response())
                },
            }
        },
        (PortForwardStep::Forward { .. }, PortForwardEvent::Forwarded(reply)) => {
            PortForwardStep::Done(reply)
        },
        (pending, _) => pending,
    }
}

/// Where the handling of an inbound request stands.
#[derive(Debug, PartialEq, Eq)]
pub enum DiscoveryStep {
    /// Nothing has been asked yet.
    Begin,
    /// The request is to be resolved to its target.
    Identify { uri: String },
    /// The load balancer of the route is to be found or registered.
    Balance { mongo_image_id: String, container_path: String, prefix: Option<String> },
    /// The request is to be served through the load balancer.
    PortForward { load_balancer_key: String, prefix: Option<String> },
    /// The request is to be forwarded to the fixed port of a static route.
    Forward { public_port: usize, prefix: Option<String> },
    /// The reply for the client.
    Done(ProxyResponse),
}

/// An answer to a step of the handling.
#[derive(Debug, PartialEq, Eq)]
pub enum DiscoveryEvent {
    /// Handling is being started.
    Start,
    /// The step at which resolution ended.
    Identified(RouteStep),
    /// The key of the load balancer of the route.
    Balanced(String),
    /// The reply that serving or forwarding gave.
    Answered(ProxyResponse),
}

/// The handling of an inbound request, as a relation between the pending
/// step, the answer to it, and the step that follows.
///
/// A request that no route matches is answered with 404, one whose route
/// names no backend with 500. A static route is forwarded to its port
/// without a load balancer; a container route is served through the load
/// balancer of its address.
pub open spec fn discovery_follows(
    uri: Seq<char>,
    pending: DiscoveryStep,
    event: DiscoveryEvent,
    next: DiscoveryStep,
) -> bool {
    match (pending, event) {
        (DiscoveryStep::Begin, _) => {
            &&& next matches DiscoveryStep::Identify { uri: asked }
            &&& asked@ == uri
        },
        (DiscoveryStep::Identify { .. }, DiscoveryEvent::Identified(resolution)) => {
            match resolution {
                RouteStep::Done(None) => {
                    next matches DiscoveryStep::Done(reply) && reply.is_plain(
                        NOT_FOUND,
                        Seq::empty(),
                    )
                },
                RouteStep::Done(Some(RouteTarget::Static { port, prefix })) => {
                    next == (DiscoveryStep::Forward { public_port: port, prefix })
                },
                RouteStep::Done(Some(RouteTarget::Container(target))) => {
                    next == (DiscoveryStep::Balance {
                        mongo_image_id: target.mongo_image_id,
                        container_path: target.container_path,
                        prefix: target.prefix,
                    })
                },
                RouteStep::Failed => {
                    next matches DiscoveryStep::Done(reply) && reply.is_plain(
                        INTERNAL_SERVER_ERROR,
                        Seq::empty(),
                    )
                },
                _ => next == pending,
            }
        },
        (DiscoveryStep::Balance { prefix, .. }, DiscoveryEvent::Balanced(key)) => {
            next == (DiscoveryStep::PortForward { load_balancer_key: key, prefix })
        },
        (DiscoveryStep::PortForward { .. }, DiscoveryEvent::Answered(reply)) => {
            next == DiscoveryStep::Done(reply)
        },
        (DiscoveryStep::Forward { .. }, DiscoveryEvent::Answered(reply)) => {
            next == DiscoveryStep::Done(reply)
        },
        _ => next == pending,
    }
}

/// Handles an inbound request for the path and query `uri`.
///
/// The caller starts with `DiscoveryStep::Begin`, runs the procedure that
/// each returned step names, and hands the step back with the outcome until
/// the step is `Done`.
pub fn active_service_discovery(uri: &str, pending: DiscoveryStep, event: DiscoveryEvent) -> (next:
    DiscoveryStep)
    ensures
        discovery_follows(uri@, pending, event, next),
{
    match (pending, event) {
        (DiscoveryStep::Begin, _) => DiscoveryStep::Identify { uri: String::from_str(uri) },
        (DiscoveryStep::Identify { uri: asked }, DiscoveryEvent::Identified(resolution)) => {
            match resolution {
                RouteStep::Done(None) => DiscoveryStep::Done(plain_reply(NOT_FOUND)),
                RouteStep::Done(Some(RouteTarget::Static { port, prefix })) => {
                    DiscoveryStep::Forward { public_port: port, prefix }
                },
                RouteStep::Done(Some(RouteTarget::Container(target))) => DiscoveryStep::Balance {
                    mongo_image_id: target.mongo_image_id,
                    container_path: target.container_path,
                    prefix: target.prefix,
                },
                RouteStep::Failed => DiscoveryStep::Done(plain_reply(INTERNAL_SERVER_ERROR)),
                _ => DiscoveryStep::Identify { uri: asked },
            }
        },
        (DiscoveryStep::Balance { prefix, .. }, DiscoveryEvent::Balanced(key)) => {
            DiscoveryStep::PortForward { load_balancer_key: key, prefix }
        },
        (DiscoveryStep::PortForward { .. }, DiscoveryEvent::Answered(reply)) => {
            DiscoveryStep::Done(reply)
        },
        (DiscoveryStep::Forward { .. }, DiscoveryEvent::Answered(reply)) => DiscoveryStep::Done(
            reply,
        ),
        (pending, _) => pending,
    }
}

} // verus!
