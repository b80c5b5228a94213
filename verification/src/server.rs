//! The registry of running instances, their tokens, and what an instance
//! answers to a request.

use vstd::prelude::*;
use crate::request::Request;
use crate::response::Response;
use crate::text::{decimal, lemma_decimal_digits, lemma_decimal_parses, parse_usize, push_decimal, str_eq};

verus! {

broadcast use vstd::string::group_string_axioms;

// ----- tokens ---------------------------------------------------------------

/// The lowercase hex SHA-256 digest that `sha256::digest` gives for a text.
pub uninterp spec fn sha256_hex_digest(text: Seq<char>) -> Seq<char>;

/// `sha256::digest` on a string slice: the hex SHA-256 digest of its UTF-8
/// bytes. Nothing is claimed of the digest beyond its being a function of the
/// text.
#[verifier::external_body]
fn sha256_digest(text: &str) -> (r: String)
    ensures
        r@ == sha256_hex_digest(text@),
{
    sha256::digest(text)
}

/// The text whose digest is the token of the instance on `port`.
pub open spec fn token_source(port: u32) -> Seq<char> {
    "server:"@ + decimal(port as nat)
}

/// The token of the instance on `port`: the digest of `server:<port>`.
pub fn server_token(port: u32) -> (r: String)
    ensures
        r@ == sha256_hex_digest(token_source(port)),
{
    let mut source = String::from_str("server:");
    push_decimal(&mut source, port as u64);
    sha256_digest(source.as_str())
}

// ----- the registry ---------------------------------------------------------

/// The highest port an instance may take.
pub const HIGHEST_PORT: u32 = 65535;

/// A running instance: its token, its port, and the handle that tells it to
/// stop.
pub struct ServerEntry<T> {
    pub token: String,
    pub port: u32,
    pub terminate: T,
}

/// Some entry of `s` has the port `port`.
pub open spec fn uses_port(s: Seq<(Seq<char>, u32)>, port: u32) -> bool {
    exists|i: int| 0 <= i < s.len() && #[trigger] s[i].1 == port
}

/// No two entries of `s` have the same port.
pub open spec fn ports_distinct(s: Seq<(Seq<char>, u32)>) -> bool {
    forall|i: int, j: int| 0 <= i < j < s.len() ==> #[trigger] s[i].1 != #[trigger] s[j].1
}

/// The index of the entry with the port `port`.
pub open spec fn index_of_port(s: Seq<(Seq<char>, u32)>, port: u32) -> int {
    choose|i: int| 0 <= i < s.len() && #[trigger] s[i].1 == port
}

/// `s` without the entry with the port `port` (unchanged without one).
pub open spec fn without_port(s: Seq<(Seq<char>, u32)>, port: u32) -> Seq<(Seq<char>, u32)> {
    if uses_port(s, port) {
        s.remove(index_of_port(s, port))
    } else {
        s
    }
}

/// The index of the first entry with the token `token`, if any.
pub open spec fn first_with_token(s: Seq<(Seq<char>, u32)>, token: Seq<char>, k: nat) -> Option<nat>
    decreases s.len() - k,
{
    if k >= s.len() {
        None
    } else if s[k as int].0 == token {
        Some(k)
    } else {
        first_with_token(s, token, k + 1)
    }
}

/// The port that `allocate_port` chooses: the highest free port, counting
/// down from `from`.
pub open spec fn highest_free_port(s: Seq<(Seq<char>, u32)>, from: u32) -> Option<u32>
    decreases from,
{
    if !uses_port(s, from) {
        Some(from)
    } else if from == 0 {
        None
    } else {
        highest_free_port(s, (from - 1) as u32)
    }
}

/// The running instances, each with its own port.
pub struct ServerRegistry<T> {
    entries: Vec<ServerEntry<T>>,
}

impl<T> View for ServerRegistry<T> {
    type V = Seq<(Seq<char>, u32)>;

    closed spec fn view(&self) -> Seq<(Seq<char>, u32)> {
        self.entries@.map_values(|e: ServerEntry<T>| (e.token@, e.port))
    }
}

impl<T> ServerRegistry<T> {
    /// No two instances share a port.
    #[verifier::type_invariant]
    closed spec fn distinct(self) -> bool {
        ports_distinct(self@)
    }

    /// The stop handle of the `i`-th instance.
    pub closed spec fn handle(&self, i: int) -> T {
        self.entries@[i].terminate
    }

    /// An empty registry.
    pub fn new() -> (r: ServerRegistry<T>)
        ensures
            r@ == Seq::<(Seq<char>, u32)>::empty(),
    {
        let r = ServerRegistry { entries: Vec::new() };
        assert(r@ =~= Seq::<(Seq<char>, u32)>::empty());
        r
    }

    /// The number of instances.
    pub fn len(&self) -> (n: usize)
        ensures
            n == self@.len(),
    {
        self.entries.len()
    }

    /// The `i`-th instance.
    pub fn entry(&self, i: usize) -> (e: &ServerEntry<T>)
        requires
            i < self@.len(),
        ensures
            (e.token@, e.port) == self@[i as int],
            e.terminate == self.handle(i as int),
    {
        &self.entries[i]
    }

    /// Whether an instance has the port `port`.
    pub fn has_port(&self, port: u32) -> (b: bool)
        ensures
            b == uses_port(self@, port),
    {
        let mut i: usize = 0;
        while i < self.entries.len()
            invariant
                i <= self.entries@.len(),
                forall|j: int| 0 <= j < i ==> self@[j].1 != port,
            decreases self.entries.len() - i,
        {
            if self.entries[i].port == port {
                assert(self@[i as int].1 == port);
                return true;
            }
            i = i + 1;
        }
        false
    }

    /// The highest port at or below 65535 that no instance has, if any.
    pub fn allocate_port(&self) -> (r: Option<u32>)
        ensures
            r == highest_free_port(self@, HIGHEST_PORT),
            r matches Some(p) ==> p <= HIGHEST_PORT && !uses_port(self@, p) && forall|q: u32|
                p < q <= HIGHEST_PORT ==> uses_port(self@, q),
            r is None ==> forall|q: u32| q <= HIGHEST_PORT ==> uses_port(self@, q),
    {
        let mut port: u32 = HIGHEST_PORT;
        while self.has_port(port)
            invariant
                port <= HIGHEST_PORT,
                highest_free_port(self@, HIGHEST_PORT) == highest_free_port(self@, port),
                forall|q: u32| port < q <= HIGHEST_PORT ==> uses_port(self@, q),
            decreases port,
        {
            if port == 0 {
                assert forall|q: u32| q <= HIGHEST_PORT implies uses_port(self@, q) by {
                    if q > 0 {
                        assert(port < q);
                    }
                }
                return None;
            }
            port = port - 1;
        }
        Some(port)
    }

    /// The index of the instance with the port `port`, if any.
    pub fn find_by_port(&self, port: u32) -> (r: Option<usize>)
        ensures
            match r {
                Some(i) => i < self@.len() && self@[i as int].1 == port && i == index_of_port(
                    self@,
                    port,
                ),
                None => !uses_port(self@, port),
            },
    {
        proof {
            use_type_invariant(self);
        }
        let mut i: usize = 0;
        while i < self.entries.len()
            invariant
                i <= self.entries@.len(),
                ports_distinct(self@),
                forall|j: int| 0 <= j < i ==> self@[j].1 != port,
            decreases self.entries.len() - i,
        {
            if self.entries[i].port == port {
                proof {
                    assert(self@[i as int].1 == port);
                    assert(uses_port(self@, port));
                    let c = index_of_port(self@, port);
                    assert(0 <= c < self@.len() && self@[c].1 == port);
                    if c != i {
                        if c < i {
                            assert(self@[c].1 != self@[i as int].1);
                        } else {
                            assert(self@[i as int].1 != self@[c].1);
                        }
                    }
                }
                return Some(i);
            }
            i = i + 1;
        }
        None
    }

    /// The index of the first instance with the token `token`, if any.
    pub fn find_by_token(&self, token: &str) -> (r: Option<usize>)
        ensures
            match r {
                Some(i) => first_with_token(self@, token@, 0) == Some(i as nat),
                None => first_with_token(self@, token@, 0) is None,
            },
    {
        let mut i: usize = 0;
        while i < self.entries.len()
            invariant
                i <= self.entries@.len(),
                first_with_token(self@, token@, 0) == first_with_token(self@, token@, i as nat),
            decreases self.entries.len() - i,
        {
            assert(self@[i as int].0 == self.entries@[i as int].token@);
            if str_eq(self.entries[i].token.as_str(), token) {
                return Some(i);
            }
            i = i + 1;
        }
        None
    }

    /// Adds an instance on a port that no instance has.
    pub fn register(&mut self, token: String, port: u32, terminate: T)
        requires
            !uses_port(old(self)@, port),
        ensures
            final(self)@ == old(self)@.push((token@, port)),
            ports_distinct(final(self)@),
            final(self).handle(old(self)@.len() as int) == terminate,
            forall|i: int| 0 <= i < old(self)@.len() ==> final(self).handle(i) == old(self).handle(i),
    {
        proof {
            use_type_invariant(&*self);
        }
        let ghost old_view = self@;
        let ghost t = token@;
        let mut entries: Vec<ServerEntry<T>> = Vec::new();
        std::mem::swap(&mut entries, &mut self.entries);
        entries.push(ServerEntry { token, port, terminate });
        let ghost nv = entries@.map_values(|e: ServerEntry<T>| (e.token@, e.port));
        assert(nv =~= old_view.push((t, port)));
        proof {
            assert forall|i: int, j: int| 0 <= i < j < nv.len() implies #[trigger] nv[i].1
                != #[trigger] nv[j].1 by {
                if j < old_view.len() {
                    assert(old_view[i].1 != old_view[j].1);
                } else {
                    assert(nv[i] == old_view[i]);
                }
            }
        }
        self.entries = entries;
    }

    /// Removes the instance with the port `port` and gives it back, if there
    /// is one; the registry is unchanged otherwise.
    pub fn stop_server(&mut self, port: u32) -> (r: Option<ServerEntry<T>>)
        ensures
            final(self)@ == without_port(old(self)@, port),
            !uses_port(final(self)@, port),
            ports_distinct(final(self)@),
            match r {
                Some(e) => uses_port(old(self)@, port) && (e.token@, e.port) == old(self)@[index_of_port(old(self)@, port)]
                    && e.terminate == old(self).handle(index_of_port(old(self)@, port)),
                None => !uses_port(old(self)@, port),
            },
    {
        proof {
            use_type_invariant(&*self);
        }
        match self.find_by_port(port) {
            None => None,
            Some(i) => {
                let ghost old_view = self@;
                let ghost old_self = *self;
                let mut entries: Vec<ServerEntry<T>> = Vec::new();
                std::mem::swap(&mut entries, &mut self.entries);
                let e = entries.remove(i);
                let ghost nv = entries@.map_values(|e: ServerEntry<T>| (e.token@, e.port));
                assert(nv =~= old_view.remove(i as int));
                proof {
                    assert forall|a: int, b: int| 0 <= a < b < nv.len() implies #[trigger] nv[a].1
                        != #[trigger] nv[b].1 by {
                        if b < i {
                            assert(old_view[a].1 != old_view[b].1);
                        } else if a < i {
                            assert(old_view[a].1 != old_view[b + 1].1);
                        } else {
                            assert(old_view[a + 1].1 != old_view[b + 1].1);
                        }
                    }
                    assert forall|j: int| 0 <= j < nv.len() implies #[trigger] nv[j].1 != port by {
                        if j < i {
                            assert(old_view[j].1 != old_view[i as int].1);
                        } else {
                            assert(old_view[i as int].1 != old_view[j + 1].1);
                        }
                    }
                }
                self.entries = entries;
                Some(e)
            },
        }
    }

    /// Stops the first instance with the token `token`: removes it and
    /// gives it back, or says that no instance has the token.
    pub fn remove_server_by_token(&mut self, token: &str) -> (r: Result<ServerEntry<T>, &'static str>)
        ensures
            match first_with_token(old(self)@, token@, 0) {
                Some(i) => {
                    &&& r matches Ok(e) && e.port == old(self)@[i as int].1 && e.token@
                        == old(self)@[i as int].0 && e.terminate == old(self).handle(i as int)
                    &&& final(self)@ == old(self)@.remove(i as int)
                },
                None => r == Err::<ServerEntry<T>, &'static str>(
                    "A server with the token provided does not exist.",
                ) && final(self)@ == old(self)@,
            },
    {
        proof {
            use_type_invariant(&*self);
        }
        match self.find_by_token(token) {
            None => Err("A server with the token provided does not exist."),
            Some(i) => {
                proof {
                    lemma_first_with_token_found(self@, token@, 0);
                }
                let port = self.entries[i].port;
                proof {
                    assert(self@[i as int].1 == port);
                    assert(uses_port(self@, port));
                    assert(index_of_port(self@, port) == i) by {
                        let c = index_of_port(self@, port);
                        assert(0 <= c < self@.len() && self@[c].1 == port);
                        if c != i {
                            if c < i {
                                assert(self@[c].1 != self@[i as int].1);
                            } else {
                                assert(self@[i as int].1 != self@[c].1);
                            }
                        }
                    }
                }
                match self.stop_server(port) {
                    Some(e) => Ok(e),
                    None => Err("A server with the token provided does not exist."),
                }
            },
        }
    }

    /// Stops the instance with the port `port`: removes it and gives it back,
    /// or says that no instance has the port.
    pub fn remove_server_by_port(&mut self, port: u32) -> (r: Result<ServerEntry<T>, &'static str>)
        ensures
            final(self)@ == without_port(old(self)@, port),
            match r {
                Ok(e) => uses_port(old(self)@, port) && e.port == port && e.token@ == old(self)@[index_of_port(old(self)@, port)].0
                    && e.terminate == old(self).handle(index_of_port(old(self)@, port)),
                Err(msg) => !uses_port(old(self)@, port) && msg
                    == "A server with the port provided does not exist.",
            },
    {
        match self.stop_server(port) {
            Some(e) => Ok(e),
            None => Err("A server with the port provided does not exist."),
        }
    }
}

/// A found token lies in the registry.
pub proof fn lemma_first_with_token_found(s: Seq<(Seq<char>, u32)>, token: Seq<char>, k: nat)
    ensures
        first_with_token(s, token, k) matches Some(i) ==> k <= i < s.len() && s[i as int].0
            == token,
    decreases s.len() - k,
{
    if k < s.len() && s[k as int].0 != token {
        lemma_first_with_token_found(s, token, k + 1);
    }
}

/// The token search finds exactly the first instance with the token: it
/// finds nothing only when no instance has the token.
pub proof fn lemma_token_search_complete(s: Seq<(Seq<char>, u32)>, token: Seq<char>)
    ensures
        first_with_token(s, token, 0) is None <==> forall|i: int| 0 <= i < s.len() ==> s[i].0 != token,
        forall|i: int| 0 <= i < s.len() && first_with_token(s, token, 0) == Some(i as nat) ==> {
            &&& s[i].0 == token
            &&& forall|j: int| 0 <= j < i ==> s[j].0 != token
        },
{
    lemma_token_search_from(s, token, 0);
}

proof fn lemma_token_search_from(s: Seq<(Seq<char>, u32)>, token: Seq<char>, k: nat)
    ensures
        first_with_token(s, token, k) is None <==> forall|i: int| k <= i < s.len() ==> s[i].0 != token,
        first_with_token(s, token, k) matches Some(i) ==> k <= i < s.len() && s[i as int].0 == token
            && forall|j: int| k <= j < i ==> s[j].0 != token,
    decreases s.len() - k,
{
    if k < s.len() && s[k as int].0 != token {
        lemma_token_search_from(s, token, k + 1);
    }
}

/// The text behind a token is `server:` followed by the port in decimal:
/// reading the number after `server:` gives the port back, so instances on
/// different ports hash different texts.
pub proof fn lemma_token_source_names_port(p: u32, q: u32)
    ensures
        token_source(p).len() > 7,
        token_source(p).take(7) == "server:"@,
        parse_usize(token_source(p).skip(7)) == Some(p as usize),
        token_source(p) == token_source(q) ==> p == q,
{
    reveal_strlit("server:");
    assert(token_source(p).skip(7) =~= decimal(p as nat));
    assert(token_source(q).skip(7) =~= decimal(q as nat));
    assert(token_source(p).take(7) =~= "server:"@);
    lemma_decimal_digits(p as nat);
    lemma_decimal_parses(p as usize);
    lemma_decimal_parses(q as usize);
}

/// Removing the port that was just registered gives back the registry as it
/// was before.
pub proof fn lemma_stop_undoes_register(s: Seq<(Seq<char>, u32)>, token: Seq<char>, port: u32)
    requires
        ports_distinct(s),
        !uses_port(s, port),
    ensures
        without_port(s.push((token, port)), port) == s,
{
    let t = s.push((token, port));
    assert(t[s.len() as int].1 == port);
    assert(uses_port(t, port));
    let c = index_of_port(t, port);
    assert(0 <= c < t.len() && t[c].1 == port);
    if c < s.len() {
        assert(s[c].1 == port);
    }
    assert(t.remove(c) =~= s);
}

// ----- answering a request --------------------------------------------------

/// The page an instance serves on `port`.
pub open spec fn instance_page(port: u32) -> Seq<char> {
    page_start()@ + decimal(port as nat) + page_middle()@ + decimal(port as nat) + page_end()@
}

/// The page up to the instance's port in its title.
pub open spec fn page_start() -> &'static str {
    "<!DOCTYPE html>\n\t\t\t\t<html lang=\"en\">\n\t\t\t\t<head>\n\t\t\t\t\t<meta charset=\"UTF-8\">\n\t\t\t\t\t<meta name=\"viewport\" content=\"width=device-width, initial-scale=1.0\">\n\t\t\t\t\t<meta http-equiv=\"X-UA-Compatible\" content=\"ie=edge\">\n\t\t\t\t\t<title>Instance "
}

/// The page between the two mentions of the port.
pub open spec fn page_middle() -> &'static str {
    "</title>\n\t\t\t\t</head>\n\t\t\t\t<body>\n\t\t\t\t\tThis is a DomBuilder Instance on port "
}

/// The page after the second mention of the port.
pub open spec fn page_end() -> &'static str {
    ".\n\t\t\t\t\t<script></script>\n\t\t\t\t</body>\n\t\t\t\t</html>"
}

/// The headers of every answer to a well-formed request.
pub open spec fn page_headers() -> Seq<Seq<char>> {
    seq!["Access-Control-Allow-Origin: *"@, "Content-Type: text/html; charset=utf-8"@]
}

/// What an instance does with a request: the response it sends, and whether
/// it stops afterwards.
pub struct HandleOutcome {
    pub response: Response,
    pub stop: bool,
}

/// The answer of the instance on `port`, whose token is `token`, to a
/// request (or to the status with which reading it failed). A malformed
/// request gets its status and "Bad Request."; an `UNHOST` request with the
/// token as its body stops the instance; any other request gets the page.
pub fn handle_request(request: &Result<Request, u16>, port: u32, token: &str) -> (r: HandleOutcome)
    ensures
        match request {
            Err(status) => {
                &&& r.response.status == *status
                &&& r.response.headers@.len() == 0
                &&& r.response.body@ == "Bad Request."@
                &&& !r.stop
            },
            Ok(req) => {
                &&& r.response.status == 200
                &&& r.response.headers@.map_values(|h: String| h@) == page_headers()
                &&& if req.method@ == "UNHOST"@ {
                    if req.body@ == token@ {
                        r.response.body@ == "Server Will shut down on next request."@ && r.stop
                    } else {
                        r.response.body@ == "UNHOST request requires the correct server token in the body."@
                            && !r.stop
                    }
                } else {
                    r.response.body@ == instance_page(port) && !r.stop
                }
            },
        },
{
    let mut response = Response::new();
    response.status = 200;
    match request {
        Err(status) => {
            response.status = *status;
            response.body = String::from_str("Bad Request.");
            HandleOutcome { response, stop: false }
        },
        Ok(req) => {
            response.headers.push(String::from_str("Access-Control-Allow-Origin: *"));
            response.headers.push(String::from_str("Content-Type: text/html; charset=utf-8"));
            assert(response.headers@.map_values(|h: String| h@) =~= page_headers());
            let mut page = String::from_str(
                "<!DOCTYPE html>\n\t\t\t\t<html lang=\"en\">\n\t\t\t\t<head>\n\t\t\t\t\t<meta charset=\"UTF-8\">\n\t\t\t\t\t<meta name=\"viewport\" content=\"width=device-width, initial-scale=1.0\">\n\t\t\t\t\t<meta http-equiv=\"X-UA-Compatible\" content=\"ie=edge\">\n\t\t\t\t\t<title>Instance ",
            );
            push_decimal(&mut page, port as u64);
            page.append("</title>\n\t\t\t\t</head>\n\t\t\t\t<body>\n\t\t\t\t\tThis is a DomBuilder Instance on port ");
            push_decimal(&mut page, port as u64);
            page.append(".\n\t\t\t\t\t<script></script>\n\t\t\t\t</body>\n\t\t\t\t</html>");
            response.body = page;
            if str_eq(req.method.as_str(), "UNHOST") {
                if str_eq(req.body.as_str(), token) {
                    response.body = String::from_str("Server Will shut down on next request.");
                    HandleOutcome { response, stop: true }
                } else {
                    response.body = String::from_str(
                        "UNHOST request requires the correct server token in the body.",
                    );
                    HandleOutcome { response, stop: false }
                }
            } else {
                HandleOutcome { response, stop: false }
            }
        },
    }
}

} // verus!
