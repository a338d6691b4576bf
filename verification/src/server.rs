//! The routes of the accessory server and what it is made of.
use crate::http::{same_text, status_response, status_view, HttpResponse, Method};
use vstd::prelude::*;

verus! {

/// Where a request is taken.
#[derive(Clone, Copy, Debug, PartialEq, Eq, Structural)]
pub enum Route {
    PairSetup,
    PairVerify,
    Accessories,
    GetCharacteristics,
    PutCharacteristics,
    Pairings,
    Identify,
    /// The preparation of a timed write.
    Prepare,
    /// A camera snapshot.
    Snapshot,
    /// No route: the request is answered with "not found".
    Unrouted,
}

/// The route of a request, by its method and its path. A preparation is taken whatever its method,
/// since the answer to one with the wrong method is its own.
pub open spec fn route_of(method: Method, path: Seq<char>) -> Route {
    if path == "/prepare"@ {
        Route::Prepare
    } else if method is Post && path == "/pair-setup"@ {
        Route::PairSetup
    } else if method is Post && path == "/pair-verify"@ {
        Route::PairVerify
    } else if method is Get && path == "/accessories"@ {
        Route::Accessories
    } else if method is Get && path == "/characteristics"@ {
        Route::GetCharacteristics
    } else if method is Put && path == "/characteristics"@ {
        Route::PutCharacteristics
    } else if method is Post && path == "/pairings"@ {
        Route::Pairings
    } else if method is Post && path == "/identify"@ {
        Route::Identify
    } else if method is Post && path == "/resource"@ {
        Route::Snapshot
    } else {
        Route::Unrouted
    }
}

/// Finds the route of a request.
pub fn route(method: Method, path: &str) -> (route: Route)
    ensures
        route == route_of(method, path@),
{
    if same_text(path, "/prepare") {
        return Route::Prepare;
    }
    match method {
        Method::Post => {
            if same_text(path, "/pair-setup") {
                Route::PairSetup
            } else if same_text(path, "/pair-verify") {
                Route::PairVerify
            } else if same_text(path, "/pairings") {
                Route::Pairings
            } else if same_text(path, "/identify") {
                Route::Identify
            } else if same_text(path, "/resource") {
                Route::Snapshot
            } else {
                Route::Unrouted
            }
        },
        Method::Get => {
            if same_text(path, "/accessories") {
                Route::Accessories
            } else if same_text(path, "/characteristics") {
                Route::GetCharacteristics
            } else {
                Route::Unrouted
            }
        },
        Method::Put => {
            if same_text(path, "/characteristics") {
                Route::PutCharacteristics
            } else {
                Route::Unrouted
            }
        },
        Method::Other => Route::Unrouted,
    }
}

/// The answer to a request without a route.
pub fn not_found_response() -> (response: HttpResponse)
    ensures
        response@ == status_view(404),
{
    status_response(404)
}

/// What answers the requests that are not answered by the server itself.
pub struct Handlers<H> {
    pub pair_setup: H,
    pub pair_verify: H,
    pub accessories: H,
    pub get_characteristics: H,
    pub put_characteristics: H,
    pub pairings: H,
    pub identify: H,
}

/// How a request is answered.
pub enum Plan<'a, H> {
    /// By the handler.
    Handle(&'a H),
    /// By the server, when it has read the body: a preparation of a timed write.
    Prepare,
    /// By the server, when it has read the body: a camera snapshot.
    Snapshot,
    /// By this, at once.
    Respond(HttpResponse),
}

impl<H> Handlers<H> {
    /// The handler of a route that has one.
    pub open spec fn of_route(&self, route: Route) -> Option<H> {
        match route {
            Route::PairSetup => Some(self.pair_setup),
            Route::PairVerify => Some(self.pair_verify),
            Route::Accessories => Some(self.accessories),
            Route::GetCharacteristics => Some(self.get_characteristics),
            Route::PutCharacteristics => Some(self.put_characteristics),
            Route::Pairings => Some(self.pairings),
            Route::Identify => Some(self.identify),
            Route::Prepare | Route::Snapshot | Route::Unrouted => None,
        }
    }

    /// Decides how a request is answered.
    pub fn plan<'a>(&'a self, method: Method, path: &str) -> (plan: Plan<'a, H>)
        ensures
            match plan {
                Plan::Handle(handler) => self.of_route(route_of(method, path@)) == Some(*handler),
                Plan::Prepare => route_of(method, path@) is Prepare,
                Plan::Snapshot => route_of(method, path@) is Snapshot,
                Plan::Respond(response) => route_of(method, path@) is Unrouted && response@
                    == status_view(404),
            },
    {
        match route(method, path) {
            Route::PairSetup => Plan::Handle(&self.pair_setup),
            Route::PairVerify => Plan::Handle(&self.pair_verify),
            Route::Accessories => Plan::Handle(&self.accessories),
            Route::GetCharacteristics => Plan::Handle(&self.get_characteristics),
            Route::PutCharacteristics => Plan::Handle(&self.put_characteristics),
            Route::Pairings => Plan::Handle(&self.pairings),
            Route::Identify => Plan::Handle(&self.identify),
            Route::Prepare => Plan::Prepare,
            Route::Snapshot => Plan::Snapshot,
            Route::Unrouted => Plan::Respond(not_found_response()),
        }
    }
}

/// Apart from preparations, a route is taken by the requests of one method and one path alone.
pub proof fn law_route_determines_request(
    method: Method,
    path: Seq<char>,
    other_method: Method,
    other_path: Seq<char>,
)
    requires
        route_of(method, path) == route_of(other_method, other_path),
        route_of(method, path) != Route::Unrouted,
        route_of(method, path) != Route::Prepare,
    ensures
        method == other_method,
        path == other_path,
{
}

/// Which requests take which route.
pub proof fn law_routes_are_taken_by_method_and_path(method: Method, path: &str, taken: Route)
    requires
        call_ensures(route, (method, path), taken),
    ensures
        taken is PairSetup <==> method is Post && path@ == "/pair-setup"@,
        taken is PairVerify <==> method is Post && path@ == "/pair-verify"@,
        taken is Accessories <==> method is Get && path@ == "/accessories"@,
        taken is GetCharacteristics <==> method is Get && path@ == "/characteristics"@,
        taken is PutCharacteristics <==> method is Put && path@ == "/characteristics"@,
        taken is Pairings <==> method is Post && path@ == "/pairings"@,
        taken is Identify <==> method is Post && path@ == "/identify"@,
        taken is Prepare <==> path@ == "/prepare"@,
        taken is Snapshot <==> method is Post && path@ == "/resource"@,
{
    lemma_paths_differ();
}

/// The paths of the routes differ from each other.
proof fn lemma_paths_differ()
    ensures
        "/prepare"@ != "/pair-setup"@,
        "/prepare"@ != "/pair-verify"@,
        "/prepare"@ != "/accessories"@,
        "/prepare"@ != "/characteristics"@,
        "/prepare"@ != "/pairings"@,
        "/prepare"@ != "/identify"@,
        "/prepare"@ != "/resource"@,
        "/pair-setup"@ != "/pair-verify"@,
        "/pair-setup"@ != "/pairings"@,
        "/pair-setup"@ != "/identify"@,
        "/pair-setup"@ != "/resource"@,
        "/pair-verify"@ != "/pairings"@,
        "/pair-verify"@ != "/identify"@,
        "/pair-verify"@ != "/resource"@,
        "/pairings"@ != "/identify"@,
        "/pairings"@ != "/resource"@,
        "/identify"@ != "/resource"@,
        "/accessories"@ != "/characteristics"@,
{
    reveal_strlit("/prepare");
    reveal_strlit("/pair-setup");
    reveal_strlit("/pair-verify");
    reveal_strlit("/accessories");
    reveal_strlit("/characteristics");
    reveal_strlit("/pairings");
    reveal_strlit("/identify");
    reveal_strlit("/resource");
    assert("/prepare"@.len() == 8);
    assert("/pair-setup"@.len() == 11);
    assert("/pair-verify"@.len() == 12);
    assert("/accessories"@.len() == 12);
    assert("/characteristics"@.len() == 16);
    assert("/pairings"@.len() == 9);
    assert("/identify"@.len() == 9);
    assert("/resource"@.len() == 9);
    assert("/pairings"@[1] != "/resource"@[1]);
    assert("/pairings"@[1] != "/identify"@[1]);
    assert("/identify"@[1] != "/resource"@[1]);
}

/// A request for a handler's route is given to that handler, a preparation and a snapshot are left
/// to the server, and every other request is answered with status 404, no headers and no body.
pub proof fn law_requests_reach_their_handlers<'a, H>(
    handlers: &'a Handlers<H>,
    method: Method,
    path: &str,
    plan: Plan<'a, H>,
)
    requires
        call_ensures(Handlers::<H>::plan, (handlers, method, path), plan),
    ensures
        method is Post && path@ == "/pair-setup"@ ==> plan == Plan::Handle(&handlers.pair_setup),
        method is Post && path@ == "/pair-verify"@ ==> plan == Plan::Handle(&handlers.pair_verify),
        method is Get && path@ == "/accessories"@ ==> plan == Plan::Handle(&handlers.accessories),
        method is Get && path@ == "/characteristics"@ ==> plan == Plan::Handle(
            &handlers.get_characteristics,
        ),
        method is Put && path@ == "/characteristics"@ ==> plan == Plan::Handle(
            &handlers.put_characteristics,
        ),
        method is Post && path@ == "/pairings"@ ==> plan == Plan::Handle(&handlers.pairings),
        method is Post && path@ == "/identify"@ ==> plan == Plan::Handle(&handlers.identify),
        plan is Prepare <==> path@ == "/prepare"@,
        plan is Snapshot <==> method is Post && path@ == "/resource"@,
        plan is Handle ==> {
            ||| method is Post && path@ == "/pair-setup"@
            ||| method is Post && path@ == "/pair-verify"@
            ||| method is Get && path@ == "/accessories"@
            ||| method is Get && path@ == "/characteristics"@
            ||| method is Put && path@ == "/characteristics"@
            ||| method is Post && path@ == "/pairings"@
            ||| method is Post && path@ == "/identify"@
        },
        plan matches Plan::Respond(response) ==> {
            &&& response.status == 404
            &&& response.headers@.len() == 0
            &&& response.body@.len() == 0
        },
{
    lemma_paths_differ();
    if let Plan::Respond(response) = plan {
        assert(response@.headers.len() == response.headers@.len());
    }
}

/// The answer to a request without a route is status 404, with no headers and no body.
pub proof fn law_unrouted_is_not_found(response: HttpResponse)
    requires
        call_ensures(not_found_response, (), response),
    ensures
        response.status == 404,
        response.headers@.len() == 0,
        response.body@.len() == 0,
{
    assert(response@.headers.len() == response.headers@.len());
}

/// What the connections of an accessory server share.
pub struct Server<C, S, D, E, M, P> {
    pub config: C,
    pub storage: S,
    pub accessory_database: D,
    pub event_emitter: E,
    pub mdns_responder: M,
    pub snapshot: P,
}

impl<C: Clone, S: Clone, D: Clone, E: Clone, M: Clone, P: Clone> Clone for Server<
    C,
    S,
    D,
    E,
    M,
    P,
> {
    fn clone(&self) -> (copy: Self)
        ensures
            cloned(self.config, copy.config),
            cloned(self.storage, copy.storage),
            cloned(self.accessory_database, copy.accessory_database),
            cloned(self.event_emitter, copy.event_emitter),
            cloned(self.mdns_responder, copy.mdns_responder),
            cloned(self.snapshot, copy.snapshot),
    {
        Server {
            config: self.config.clone(),
            storage: self.storage.clone(),
            accessory_database: self.accessory_database.clone(),
            event_emitter: self.event_emitter.clone(),
            mdns_responder: self.mdns_responder.clone(),
            snapshot: self.snapshot.clone(),
        }
    }
}

/// A clone of a server whose parts are shared, so that the clone of a part is that part itself, is
/// made of the same parts: what is put into one of them later is seen by both.
pub proof fn law_clone_shares_its_parts<
    C: Clone,
    S: Clone,
    D: Clone,
    E: Clone,
    M: Clone,
    P: Clone,
>(server: Server<C, S, D, E, M, P>, copy: Server<C, S, D, E, M, P>)
    requires
        call_ensures(Clone::clone, (&server,), copy),
        forall|part: C| #[trigger] cloned(server.config, part) ==> part == server.config,
        forall|part: S| #[trigger] cloned(server.storage, part) ==> part == server.storage,
        forall|part: D| #[trigger]
            cloned(server.accessory_database, part) ==> part == server.accessory_database,
        forall|part: E| #[trigger]
            cloned(server.event_emitter, part) ==> part == server.event_emitter,
        forall|part: M| #[trigger]
            cloned(server.mdns_responder, part) ==> part == server.mdns_responder,
        forall|part: P| #[trigger] cloned(server.snapshot, part) ==> part == server.snapshot,
    ensures
        copy == server,
{
}

impl<C, S, D, E, M, P> Server<C, S, D, E, M, P> {
    pub fn new(
        config: C,
        storage: S,
        accessory_database: D,
        event_emitter: E,
        mdns_responder: M,
        snapshot: P,
    ) -> (server: Self)
        ensures
            server == (Server {
                config,
                storage,
                accessory_database,
                event_emitter,
                mdns_responder,
                snapshot,
            }),
    {
        Server { config, storage, accessory_database, event_emitter, mdns_responder, snapshot }
    }
}

} // verus!
