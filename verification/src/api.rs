//! The API of an instance: routes to the procedures that answer them.

use vstd::prelude::*;
use crate::request::Request;
use crate::strmap::StrMap;

verus! {

broadcast use vstd::string::group_string_axioms;

/// A procedure written as a Lua script in a file.
#[derive(Debug, Clone)]
pub struct LuaProcedure {
    pub file: String,
}

impl LuaProcedure {
    /// The procedure of the script in `file`.
    pub fn new(file: String) -> (r: LuaProcedure)
        ensures
            r.file@ == file@,
    {
        LuaProcedure { file }
    }
}

/// A procedure that answers a route: a dynamic one (of type `D`) or a Lua
/// script.
#[derive(Debug, Clone)]
pub enum Procedure<D> {
    Dynamic(D),
    Lua(LuaProcedure),
}

/// What fulfilling an API request takes: an immediate answer, or running a
/// Lua script whose output is the answer.
#[derive(Debug, Clone)]
pub enum ApiAction {
    Respond(String),
    RunLua(LuaProcedure),
}

/// The route under which an endpoint is served.
pub open spec fn api_route(endpoint: Seq<char>) -> Seq<char> {
    "/api/"@ + endpoint
}

/// The API of an instance: its routes and its token.
pub struct API<D> {
    procedures: StrMap<Procedure<D>>,
    token: String,
}

impl<D> API<D> {
    /// The procedure of each route.
    pub closed spec fn routes(&self) -> Map<Seq<char>, Procedure<D>> {
        self.procedures@
    }

    /// The token of the instance.
    pub closed spec fn token_view(&self) -> Seq<char> {
        self.token@
    }

    /// An API without routes for the instance with the token `token`.
    pub fn new(token: String) -> (r: API<D>)
        ensures
            r.routes() == Map::<Seq<char>, Procedure<D>>::empty(),
            r.token_view() == token@,
    {
        API { procedures: StrMap::new(), token }
    }

    /// The token of the instance.
    pub fn token(&self) -> (r: &String)
        ensures
            r@ == self.token_view(),
    {
        &self.token
    }

    /// Serves the dynamic procedure `procedure` under `/api/<endpoint>`,
    /// replacing any procedure of that route.
    pub fn add_dynamic_procedure(&mut self, endpoint: String, procedure: D)
        ensures
            final(self).routes() == old(self).routes().insert(
                api_route(endpoint@),
                Procedure::Dynamic(procedure),
            ),
            final(self).token_view() == old(self).token_view(),
    {
        let mut route = String::from_str("/api/");
        route.append(endpoint.as_str());
        self.procedures.insert(route, Procedure::Dynamic(procedure));
    }

    /// Whether `url` is a route of the API.
    pub fn has_route(&self, url: &str) -> (b: bool)
        ensures
            b == self.routes().contains_key(url@),
    {
        match self.procedures.get(url) {
            Some(_) => true,
            None => false,
        }
    }

    /// Serves the Lua script in `path` under `/api/<endpoint>`, replacing any
    /// procedure of that route.
    pub fn add_lua_procedure(&mut self, endpoint: String, path: String)
        ensures
            final(self).routes() == old(self).routes().insert(
                api_route(endpoint@),
                Procedure::Lua(LuaProcedure { file: path }),
            ),
            final(self).token_view() == old(self).token_view(),
    {
        let mut route = String::from_str("/api/");
        route.append(endpoint.as_str());
        self.procedures.insert(route, Procedure::Lua(LuaProcedure { file: path }));
    }

    /// What answers a request whose URL is a route: an empty answer for a
    /// dynamic procedure; running the script of a Lua procedure.
    pub fn fulfill_api_request(&self, req: &Request) -> (r: ApiAction)
        requires
            self.routes().contains_key(req.url@),
        ensures
            match r {
                ApiAction::Respond(s) => self.routes()[req.url@] is Dynamic && s@ == Seq::<char>::empty(),
                ApiAction::RunLua(p) => self.routes()[req.url@] == Procedure::<D>::Lua(p),
            },
    {
        match self.procedures.get(req.url.as_str()) {
            None => ApiAction::Respond(String::new()),
            Some(Procedure::Dynamic(_)) => ApiAction::Respond(String::new()),
            Some(Procedure::Lua(p)) => ApiAction::RunLua(LuaProcedure { file: p.file.clone() }),
        }
    }
}

/// A route that was just added is served by the script that was added with
/// it.
pub proof fn lemma_added_route_served<D>(
    routes: Map<Seq<char>, Procedure<D>>,
    endpoint: Seq<char>,
    file: String,
    url: Seq<char>,
)
    requires
        url == api_route(endpoint),
    ensures
        routes.insert(api_route(endpoint), Procedure::Lua(LuaProcedure { file })).contains_key(url),
        routes.insert(api_route(endpoint), Procedure::Lua(LuaProcedure { file }))[url]
            == Procedure::<D>::Lua(LuaProcedure { file }),
{
}

} // verus!
