//! The values a Lua script sees: the request it answers, the HTTP calls it
//! prepares, and the JSON helper.

use vstd::prelude::*;
use crate::headers::Headers;
use crate::request::Request;
use crate::text::{lowercase, str_eq, to_lowercase};

verus! {

broadcast use vstd::string::group_string_axioms;

/// The request a script answers, as the script sees it.
pub struct LuaRequest {
    pub method: String,
    pub url: String,
    pub headers: Headers,
    pub body: String,
    pub status: u16,
}

impl LuaRequest {
    /// A copy of `request` for a script.
    pub fn new(request: &Request) -> (r: LuaRequest)
        ensures
            r.method@ == request.method@,
            r.url@ == request.url@,
            r.headers@ == request.headers@,
            r.body@ == request.body@,
            r.status == request.status,
    {
        LuaRequest {
            method: request.method.clone(),
            url: request.url.clone(),
            headers: request.headers.duplicate(),
            body: request.body.clone(),
            status: request.status,
        }
    }
}

/// The HTTP methods a script's call can use.
#[derive(Debug, Clone, Copy, PartialEq, Eq, Structural)]
pub enum CurlMethod {
    Get,
    Post,
    Put,
    Patch,
    Delete,
}

/// The method a lowercase method name selects; any other name is `GET`.
pub open spec fn method_for(name: Seq<char>) -> CurlMethod {
    if name == "post"@ {
        CurlMethod::Post
    } else if name == "put"@ {
        CurlMethod::Put
    } else if name == "patch"@ {
        CurlMethod::Patch
    } else if name == "delete"@ {
        CurlMethod::Delete
    } else {
        CurlMethod::Get
    }
}

impl CurlMethod {
    /// The method a lowercase method name selects.
    pub fn from_lowercase(name: &str) -> (r: CurlMethod)
        ensures
            r == method_for(name@),
    {
        if str_eq(name, "post") {
            CurlMethod::Post
        } else if str_eq(name, "put") {
            CurlMethod::Put
        } else if str_eq(name, "patch") {
            CurlMethod::Patch
        } else if str_eq(name, "delete") {
            CurlMethod::Delete
        } else {
            CurlMethod::Get
        }
    }
}

/// The parts of an HTTP call, by their views.
pub struct CurlView {
    pub method: Seq<char>,
    pub url: Seq<char>,
    pub headers: Map<Seq<char>, Seq<char>>,
    pub body: Seq<char>,
}

/// An HTTP call that a script prepares and then runs.
pub struct LuaCurl {
    method: String,
    url: String,
    headers: Headers,
    body: String,
}

impl View for LuaCurl {
    type V = CurlView;

    closed spec fn view(&self) -> CurlView {
        CurlView {
            method: self.method@,
            url: self.url@,
            headers: self.headers@,
            body: self.body@,
        }
    }
}

impl LuaCurl {
    /// A call with the given method, URL, headers and body.
    pub fn new(method: String, url: String, headers: Headers, body: String) -> (r: LuaCurl)
        ensures
            r@ == (CurlView { method: method@, url: url@, headers: headers@, body: body@ }),
    {
        LuaCurl { method, url, headers, body }
    }

    /// Sets the header `key` to `value`.
    pub fn set_header(&mut self, key: String, value: String)
        ensures
            final(self)@ == (CurlView { headers: old(self)@.headers.insert(key@, value@), ..old(self)@ }),
    {
        self.headers.insert(key, value);
    }

    /// Whether the call has the header `key`.
    pub fn has_header(&self, key: &str) -> (b: bool)
        ensures
            b == self@.headers.contains_key(key@),
    {
        match self.headers.get(key) {
            Some(_) => true,
            None => false,
        }
    }

    /// The value of the header `key`, which the call has.
    pub fn get_header(&self, key: &str) -> (r: String)
        requires
            self@.headers.contains_key(key@),
        ensures
            r@ == self@.headers[key@],
    {
        match self.headers.get(key) {
            Some(v) => v.clone(),
            None => String::new(),
        }
    }

    /// Sets the URL.
    pub fn set_url(&mut self, url: String)
        ensures
            final(self)@ == (CurlView { url: url@, ..old(self)@ }),
    {
        self.url = url;
    }

    /// The URL.
    pub fn get_url(&self) -> (r: String)
        ensures
            r@ == self@.url,
    {
        self.url.clone()
    }

    /// Sets the method.
    pub fn set_method(&mut self, method: String)
        ensures
            final(self)@ == (CurlView { method: method@, ..old(self)@ }),
    {
        self.method = method;
    }

    /// The method, as it was set.
    pub fn get_method(&self) -> (r: String)
        ensures
            r@ == self@.method,
    {
        self.method.clone()
    }

    /// Sets the body.
    pub fn set_body(&mut self, body: String)
        ensures
            final(self)@ == (CurlView { body: body@, ..old(self)@ }),
    {
        self.body = body;
    }

    /// The body.
    pub fn get_body(&self) -> (r: String)
        ensures
            r@ == self@.body,
    {
        self.body.clone()
    }

    /// The headers.
    pub fn headers(&self) -> (r: &Headers)
        ensures
            r@ == self@.headers,
    {
        &self.headers
    }

    /// The method the call is sent with: its name, lowercased, selects
    /// `POST`, `PUT`, `PATCH` or `DELETE`; any other name sends `GET`.
    pub fn request_method(&self) -> (r: CurlMethod)
        ensures
            r == method_for(lowercase(self@.method)),
    {
        let name = to_lowercase(self.method.as_str());
        CurlMethod::from_lowercase(name.as_str())
    }
}

/// A header set on a call is read back with the value set, and every other
/// header of the call keeps its value.
pub proof fn lemma_header_set_then_get(c: CurlView, key: Seq<char>, value: Seq<char>, other: Seq<char>)
    requires
        other != key,
    ensures
        ({
            let d = CurlView { headers: c.headers.insert(key, value), ..c };
            &&& d.headers.contains_key(key)
            &&& d.headers[key] == value
            &&& d.headers.contains_key(other) == c.headers.contains_key(other)
            &&& c.headers.contains_key(other) ==> d.headers[other] == c.headers[other]
        }),
{
}

/// The JSON helper a script sees.
pub struct LuaJson {}

/// The answer to a script's call, which the script may read once.
pub struct LuaCurlResponse<R> {
    res: Option<R>,
}

impl<R> LuaCurlResponse<R> {
    /// The answer still to be read, if any.
    pub closed spec fn pending(&self) -> Option<R> {
        self.res
    }

    /// An answer not yet read.
    pub fn new(res: R) -> (r: LuaCurlResponse<R>)
        ensures
            r.pending() == Some(res),
    {
        LuaCurlResponse { res: Some(res) }
    }

    /// The answer, to look at without reading it, or the refusal once it was
    /// read.
    pub fn peek(&self) -> (r: Result<&R, &'static str>)
        ensures
            match self.pending() {
                Some(res) => r == Ok::<&R, &'static str>(&res),
                None => r == Err::<&R, &'static str>("Response already processed."),
            },
    {
        match &self.res {
            Some(res) => Ok(res),
            None => Err("Response already processed."),
        }
    }

    /// Reads the answer, which cannot be read again, or refuses once it was
    /// read.
    pub fn take(&mut self) -> (r: Result<R, &'static str>)
        ensures
            final(self).pending() is None,
            match old(self).pending() {
                Some(res) => r == Ok::<R, &'static str>(res),
                None => r == Err::<R, &'static str>("Response already processed."),
            },
    {
        match self.res.take() {
            Some(res) => Ok(res),
            None => Err("Response already processed."),
        }
    }
}

/// The answer a script builds.
pub struct ScriptOutput {
    text: String,
}

impl View for ScriptOutput {
    type V = Seq<char>;

    closed spec fn view(&self) -> Seq<char> {
        self.text@
    }
}

impl ScriptOutput {
    /// An empty answer.
    pub fn new() -> (r: ScriptOutput)
        ensures
            r@ == Seq::<char>::empty(),
    {
        ScriptOutput { text: String::new() }
    }

    /// Replaces the answer with `response`.
    pub fn set_response(&mut self, response: String)
        ensures
            final(self)@ == response@,
    {
        self.text = response;
    }

    /// Appends `response` to the answer.
    pub fn append_response(&mut self, response: &str)
        ensures
            final(self)@ == old(self)@ + response@,
    {
        self.text.append(response);
    }

    /// The answer so far.
    pub fn get_response(&self) -> (r: String)
        ensures
            r@ == self@,
    {
        self.text.clone()
    }
}

} // verus!
