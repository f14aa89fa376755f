use vstd::prelude::*;

use crate::text::{lowercase, to_lowercase};

verus! {

/// The HTTP methods an attack can use.
#[derive(Clone, Copy, Debug, PartialEq, Eq, Structural)]
pub enum Method {
    GET,
    POST,
}

/// The method that a (case-insensitive) method name denotes, if any.
pub open spec fn method_named(name: Seq<char>) -> Option<Method> {
    if lowercase(name) == "get"@ {
        Some(Method::GET)
    } else if lowercase(name) == "post"@ {
        Some(Method::POST)
    } else {
        None
    }
}

/// The method used for a given name: unknown names fall back to GET.
pub open spec fn method_for(name: Seq<char>) -> Method {
    match method_named(name) {
        Some(m) => m,
        None => Method::GET,
    }
}

/// Method names are read without regard to letter case: names with the
/// same lowercase form give the same method.
pub proof fn lemma_method_ignores_case(a: Seq<char>, b: Seq<char>)
    requires
        lowercase(a) == lowercase(b),
    ensures
        method_named(a) == method_named(b),
        method_for(a) == method_for(b),
{
}

impl Method {
    /// Recognizes `get` and `post`, in any letter case.
    pub fn recognize(method: &str) -> (m: Option<Method>)
        ensures
            m == method_named(method@),
    {
        let lower = to_lowercase(method);
        Method::from_lowercase(&lower)
    }

    /// The method whose lowercase name is `lower`, if any.
    pub fn from_lowercase(lower: &String) -> (m: Option<Method>)
        ensures
            m == (if lower@ == "get"@ {
                Some(Method::GET)
            } else if lower@ == "post"@ {
                Some(Method::POST)
            } else {
                None
            }),
    {
        if *lower == String::from_str("get") {
            Some(Method::GET)
        } else if *lower == String::from_str("post") {
            Some(Method::POST)
        } else {
            None
        }
    }

    /// The method for a name; anything but `get` or `post` (in any letter
    /// case) gives GET.
    pub fn from_str(method: &str) -> (m: Method)
        ensures
            m == method_for(method@),
    {
        match Method::recognize(method) {
            Some(m) => m,
            None => Method::GET,
        }
    }

    /// The method's name on the wire.
    pub fn wire_name(&self) -> (name: String)
        ensures
            name@ == method_text(*self),
    {
        match self {
            Method::GET => String::from_str("GET"),
            Method::POST => String::from_str("POST"),
        }
    }
}

/// The wire name of a method.
pub open spec fn method_text(m: Method) -> Seq<char> {
    match m {
        Method::GET => "GET"@,
        Method::POST => "POST"@,
    }
}

/// Read and write timeouts of a request, in seconds.
pub struct Config {
    pub read_timeout_in_s: u64,
    pub write_timeout_in_s: u64,
}

/// The timeout, in seconds, used when no configuration is given.
pub const DEFAULT_TIMEOUT_IN_S: u64 = 5;

/// The members of a JSON object, in the order in which they are kept: each
/// key with the text of its value where that value is a JSON string.
pub type JsonMembers = Vec<(String, Option<String>)>;

/// The abstract view of `JsonMembers`.
pub type JsonMembersView = Seq<(Seq<char>, Option<Seq<char>>)>;

/// What parsing `text` as a JSON document gives when the document is an
/// object: its members in the parser's order, each value reduced to its
/// text where it is a JSON string.  `None` when the text is not JSON or
/// not an object.
pub uninterp spec fn json_object_members(text: Seq<char>) -> Option<JsonMembersView>;

/// `serde_json::from_str::<serde_json::Value>`, kept only when the value is
/// an object.  The members are those of the parsed `serde_json::Map`, in its
/// iteration order; what the parser accepts and that order are named by
/// `json_object_members`, not stated.
#[verifier::external_body]
fn parse_json_object(text: &str) -> (members: Option<JsonMembers>)
    ensures
        members.deep_view() == json_object_members(text@),
{
    match serde_json::from_str::<serde_json::Value>(text) {
        Ok(serde_json::Value::Object(map)) => {
            let mut members = Vec::new();
            for (key, value) in map {
                let text = match value {
                    serde_json::Value::String(s) => Some(s),
                    _ => None,
                };
                members.push((key, text));
            }
            Some(members)
        },
        _ => None,
    }
}

/// What parsing `addr` as a URL gives: its serialization, or the text of
/// the parse error.
pub uninterp spec fn parsed_url(addr: Seq<char>) -> Result<Seq<char>, Seq<char>>;

/// `url::Url::parse` (through `str::parse`): the serialized URL on success,
/// the error's display text on failure; both are named by `parsed_url`.
#[verifier::external_body]
fn parse_url(addr: &str) -> (r: Result<String, String>)
    ensures
        match r {
            Ok(u) => parsed_url(addr@) == Ok::<Seq<char>, Seq<char>>(u@),
            Err(e) => parsed_url(addr@) == Err::<Seq<char>, Seq<char>>(e@),
        },
{
    match addr.parse::<url::Url>() {
        Ok(u) => Ok(u.into()),
        Err(e) => Err(e.to_string()),
    }
}

/// The JSON members given by an optional text.
pub open spec fn members_of(text: Option<String>) -> Option<JsonMembersView> {
    match text {
        Some(t) => json_object_members(t@),
        None => None,
    }
}

/// A request to send repeatedly: its target, method, optional query
/// parameters and headers, and the client settings used to send it.
pub struct HttpRequest {
    url: String,
    method: Method,
    headers: Option<JsonMembers>,
    params: Option<JsonMembers>,
    body: Option<String>,
    read_timeout_in_s: u64,
    write_timeout_in_s: u64,
    https_only: bool,
}

/// The abstract view of an `HttpRequest`.
pub struct HttpRequestView {
    pub url: Seq<char>,
    pub method: Method,
    pub headers: Option<JsonMembersView>,
    pub params: Option<JsonMembersView>,
    pub body: Option<Seq<char>>,
    pub read_timeout_in_s: u64,
    pub write_timeout_in_s: u64,
    pub https_only: bool,
}

impl View for HttpRequest {
    type V = HttpRequestView;

    closed spec fn view(&self) -> HttpRequestView {
        HttpRequestView {
            url: self.url@,
            method: self.method,
            headers: self.headers.deep_view(),
            params: self.params.deep_view(),
            body: self.body.deep_view(),
            read_timeout_in_s: self.read_timeout_in_s,
            write_timeout_in_s: self.write_timeout_in_s,
            https_only: self.https_only,
        }
    }
}

/// The request built from its parts: timeouts come from the configuration
/// when one is given, else they are the default; only HTTPS is allowed.
pub open spec fn request_view(
    method: Method,
    url: Seq<char>,
    headers: Option<JsonMembersView>,
    params: Option<JsonMembersView>,
    body: Option<Seq<char>>,
    req_conf: Option<Config>,
) -> HttpRequestView {
    HttpRequestView {
        url,
        method,
        headers,
        params,
        body,
        read_timeout_in_s: match req_conf {
            Some(c) => c.read_timeout_in_s,
            None => DEFAULT_TIMEOUT_IN_S,
        },
        write_timeout_in_s: match req_conf {
            Some(c) => c.write_timeout_in_s,
            None => DEFAULT_TIMEOUT_IN_S,
        },
        https_only: true,
    }
}

/// What `HttpRequest::new` gives for its arguments: the URL's parse error,
/// or the request with the parsed URL, the JSON objects of headers and
/// parameters (absent where the text is missing or not a JSON object) and
/// the body.
pub open spec fn new_request(
    method: Method,
    addr: Seq<char>,
    headers_str: Option<String>,
    params_str: Option<String>,
    body: Option<String>,
    req_conf: Option<Config>,
) -> Result<HttpRequestView, Seq<char>> {
    match parsed_url(addr) {
        Ok(u) => Ok(
            request_view(method, u, members_of(headers_str), members_of(params_str), body.deep_view(), req_conf),
        ),
        Err(e) => Err(e),
    }
}

/// The JSON members a header or parameter text gives, read straight off
/// the parser: none without a text.
pub open spec fn parsed_members(text: Option<String>) -> Option<JsonMembersView> {
    match text {
        Some(t) => json_object_members(t@),
        None => None,
    }
}

/// A request is built exactly when its address parses as a URL.  Then its
/// URL is the parsed one, its method the one given, its headers the JSON
/// members of the header text alone and its parameters those of the
/// parameter text alone (so either text never changes the other's
/// members), its body the given one, its timeouts the configured ones or
/// the default, and it is HTTPS-only.  Otherwise the error is the URL's
/// parse error.
pub proof fn lemma_new_request_parts(
    method: Method,
    addr: Seq<char>,
    headers_str: Option<String>,
    params_str: Option<String>,
    body: Option<String>,
    req_conf: Option<Config>,
)
    ensures
        new_request(method, addr, headers_str, params_str, body, req_conf) is Ok <==> parsed_url(
            addr,
        ) is Ok,
        new_request(method, addr, headers_str, params_str, body, req_conf) matches Ok(r) ==> {
            &&& Ok::<Seq<char>, Seq<char>>(r.url) == parsed_url(addr)
            &&& r.method == method
            &&& r.headers == parsed_members(headers_str)
            &&& r.params == parsed_members(params_str)
            &&& r.body == body.deep_view()
            &&& r.read_timeout_in_s == (if req_conf is Some {
                req_conf->0.read_timeout_in_s
            } else {
                5
            })
            &&& r.write_timeout_in_s == (if req_conf is Some {
                req_conf->0.write_timeout_in_s
            } else {
                5
            })
            &&& r.https_only
        },
        new_request(method, addr, headers_str, params_str, body, req_conf) matches Err(e) ==> Err::<
            Seq<char>,
            Seq<char>,
        >(e) == parsed_url(addr),
{
}

/// Preparing a request keeps every query parameter and header exactly as
/// parsed: the same number, in the same order, each with its key and its
/// JSON string text unchanged; the method's wire name, the URL, the body
/// and the client settings are the request's own.
pub proof fn lemma_plan_keeps_members(r: HttpRequestView)
    requires
        all_text(r.headers),
        all_text(r.params),
    ensures
        r.params is Some ==> {
            &&& plan_of(r).query.len() == r.params->0.len()
            &&& forall|i: int|
                0 <= i < r.params->0.len() ==> plan_of(r).query[i].0 == r.params->0[i].0 && Some(
                    plan_of(r).query[i].1,
                ) == #[trigger] r.params->0[i].1
        },
        r.params is None ==> plan_of(r).query.len() == 0,
        r.headers is Some ==> {
            &&& plan_of(r).headers.len() == r.headers->0.len()
            &&& forall|i: int|
                0 <= i < r.headers->0.len() ==> plan_of(r).headers[i].0 == r.headers->0[i].0 && Some(
                    plan_of(r).headers[i].1,
                ) == #[trigger] r.headers->0[i].1
        },
        r.headers is None ==> plan_of(r).headers.len() == 0,
        plan_of(r).url == r.url,
        plan_of(r).body == r.body,
        plan_of(r).method == (if r.method == Method::GET {
            "GET"@
        } else {
            "POST"@
        }),
        plan_of(r).read_timeout_in_s == r.read_timeout_in_s,
        plan_of(r).write_timeout_in_s == r.write_timeout_in_s,
        plan_of(r).https_only == r.https_only,
{
    if r.params is Some {
        let m = r.params->0;
        assert forall|i: int| 0 <= i < m.len() implies plan_of(r).query[i].0 == m[i].0 && Some(
            plan_of(r).query[i].1,
        ) == #[trigger] m[i].1 by {
            assert(m[i].1 is Some);
        }
    }
    if r.headers is Some {
        let m = r.headers->0;
        assert forall|i: int| 0 <= i < m.len() implies plan_of(r).headers[i].0 == m[i].0 && Some(
            plan_of(r).headers[i].1,
        ) == #[trigger] m[i].1 by {
            assert(m[i].1 is Some);
        }
    }
}

/// Every value of the members, if any, is a JSON string.
pub open spec fn all_text(members: Option<JsonMembersView>) -> bool {
    match members {
        Some(m) => forall|i: int| 0 <= i < m.len() ==> (#[trigger] m[i]).1 is Some,
        None => true,
    }
}

/// The (key, text) pairs of members whose values are all strings; none
/// when there are no members.
pub open spec fn text_pairs(members: Option<JsonMembersView>) -> Seq<(Seq<char>, Seq<char>)> {
    match members {
        Some(m) => m.map_values(|e: (Seq<char>, Option<Seq<char>>)| (e.0, e.1->0)),
        None => Seq::empty(),
    }
}

/// Everything needed to send a request: method name, URL, query
/// parameters and headers in order, the body if any, and the client
/// settings.
pub struct RequestPlan {
    pub method: String,
    pub url: String,
    pub query: Vec<(String, String)>,
    pub headers: Vec<(String, String)>,
    pub body: Option<String>,
    pub read_timeout_in_s: u64,
    pub write_timeout_in_s: u64,
    pub https_only: bool,
}

/// The abstract view of a `RequestPlan`.
pub struct RequestPlanView {
    pub method: Seq<char>,
    pub url: Seq<char>,
    pub query: Seq<(Seq<char>, Seq<char>)>,
    pub headers: Seq<(Seq<char>, Seq<char>)>,
    pub body: Option<Seq<char>>,
    pub read_timeout_in_s: u64,
    pub write_timeout_in_s: u64,
    pub https_only: bool,
}

impl View for RequestPlan {
    type V = RequestPlanView;

    open spec fn view(&self) -> RequestPlanView {
        RequestPlanView {
            method: self.method@,
            url: self.url@,
            query: self.query.deep_view(),
            headers: self.headers.deep_view(),
            body: self.body.deep_view(),
            read_timeout_in_s: self.read_timeout_in_s,
            write_timeout_in_s: self.write_timeout_in_s,
            https_only: self.https_only,
        }
    }
}

/// The plan for sending a request.
pub open spec fn plan_of(r: HttpRequestView) -> RequestPlanView {
    RequestPlanView {
        method: method_text(r.method),
        url: r.url,
        query: text_pairs(r.params),
        headers: text_pairs(r.headers),
        body: r.body,
        read_timeout_in_s: r.read_timeout_in_s,
        write_timeout_in_s: r.write_timeout_in_s,
        https_only: r.https_only,
    }
}

/// Whether every value of the members is a JSON string.
fn members_all_text(members: &Option<JsonMembers>) -> (b: bool)
    ensures
        b == all_text(members.deep_view()),
{
    match members {
        None => true,
        Some(m) => {
            let mut i: usize = 0;
            while i < m.len()
                invariant
                    0 <= i <= m.len(),
                    *members == Some(*m),
                    forall|j: int| 0 <= j < i ==> (#[trigger] m.deep_view()[j]).1 is Some,
                decreases m.len() - i,
            {
                if m[i].1.is_none() {
                    assert(m.deep_view()[i as int] == m@[i as int].deep_view());

                    return false;
                }
                i = i + 1;
            }
            true
        },
    }
}

/// The (key, text) pairs of members whose values are all strings.
fn members_text_pairs(members: &Option<JsonMembers>) -> (pairs: Vec<(String, String)>)
    requires
        all_text(members.deep_view()),
    ensures
        pairs.deep_view() == text_pairs(members.deep_view()),
{
    let mut pairs: Vec<(String, String)> = Vec::new();
    match members {
        None => {
            assert(pairs.deep_view() =~= text_pairs(members.deep_view()));
        },
        Some(m) => {
            let ghost mv = m.deep_view();
            let ghost target = text_pairs(members.deep_view());
            let mut i: usize = 0;
            while i < m.len()
                invariant
                    0 <= i <= m.len(),
                    *members == Some(*m),
                    mv == m.deep_view(),
                    forall|j: int| 0 <= j < mv.len() ==> (#[trigger] mv[j]).1 is Some,
                    target == mv.map_values(|e: (Seq<char>, Option<Seq<char>>)| (e.0, e.1->0)),
                    pairs.deep_view() =~= target.take(i as int),
                decreases m.len() - i,
            {
                let key = m[i].0.clone();
                let value = match &m[i].1 {
                    Some(v) => v.clone(),
                    None => String::new(),
                };
                assert(mv[i as int].1 is Some);
                pairs.push((key, value));
                assert(target.take(i + 1) =~= target.take(i as int).push(target[i as int]));
                i = i + 1;
            }
            assert(target.take(mv.len() as int) =~= target);
        },
    }
    pairs
}

/// A copy of the members.
fn copy_members(members: &Option<JsonMembers>) -> (r: Option<JsonMembers>)
    ensures
        r.deep_view() == members.deep_view(),
{
    match members {
        None => None,
        Some(m) => {
            let mut out: JsonMembers = Vec::new();
            let mut i: usize = 0;
            while i < m.len()
                invariant
                    0 <= i <= m.len(),
                    *members == Some(*m),
                    out@.len() == i,
                    out.deep_view() =~= m.deep_view().take(i as int),
                decreases m.len() - i,
            {
                let key = m[i].0.clone();
                let text = match &m[i].1 {
                    Some(t) => Some(t.clone()),
                    None => None,
                };
                out.push((key, text));
                assert(out@[i as int] == m@[i as int]);
                i = i + 1;
            }
            assert(m.deep_view().take(m.len() as int) =~= m.deep_view());
            Some(out)
        },
    }
}

/// A copy of the body.
fn copy_body(body: &Option<String>) -> (r: Option<String>)
    ensures
        r == *body,
{
    match body {
        Some(b) => Some(b.clone()),
        None => None,
    }
}

impl Clone for HttpRequest {
    /// A request equal to this one.
    fn clone(&self) -> (r: HttpRequest)
        ensures
            r@ == self@,
    {
        HttpRequest {
            url: self.url.clone(),
            method: self.method,
            headers: copy_members(&self.headers),
            params: copy_members(&self.params),
            body: copy_body(&self.body),
            read_timeout_in_s: self.read_timeout_in_s,
            write_timeout_in_s: self.write_timeout_in_s,
            https_only: self.https_only,
        }
    }
}

impl HttpRequest {
    /// Builds a request from a method, a target URL, optional JSON texts of
    /// headers and query parameters, an optional body, and an optional
    /// timeout configuration.
    /// Fails with the URL's parse error when the target is not a URL;
    /// header or parameter texts that are not JSON objects are dropped.
    pub fn new(
        method_enum: Method,
        addr: &str,
        headers_str: Option<String>,
        params_str: Option<String>,
        body: Option<String>,
        req_conf: Option<Config>,
    ) -> (r: Result<HttpRequest, String>)
        ensures
            match new_request(method_enum, addr@, headers_str, params_str, body, req_conf) {
                Ok(v) => r matches Ok(req) && req@ == v,
                Err(e) => r matches Err(msg) && msg@ == e,
            },
    {
        let url = match parse_url(addr) {
            Ok(u) => u,
            Err(e) => return Err(e),
        };
        let headers = match &headers_str {
            Some(hs) => parse_json_object(hs.as_str()),
            None => None,
        };
        let params = match &params_str {
            Some(ps) => parse_json_object(ps.as_str()),
            None => None,
        };
        Ok(HttpRequest::assemble(method_enum, url, headers, params, body, req_conf))
    }

    /// The request with these already parsed parts.
    pub fn assemble(
        method_enum: Method,
        url: String,
        headers: Option<JsonMembers>,
        params: Option<JsonMembers>,
        body: Option<String>,
        req_conf: Option<Config>,
    ) -> (req: HttpRequest)
        ensures
            req@ == request_view(
                method_enum,
                url@,
                headers.deep_view(),
                params.deep_view(),
                body.deep_view(),
                req_conf,
            ),
    {
        let mut read_timeout_in_s: u64 = DEFAULT_TIMEOUT_IN_S;
        let mut write_timeout_in_s: u64 = DEFAULT_TIMEOUT_IN_S;
        match req_conf {
            Some(cnf) => {
                read_timeout_in_s = cnf.read_timeout_in_s;
                write_timeout_in_s = cnf.write_timeout_in_s;
            },
            None => {},
        }
        HttpRequest {
            url,
            method: method_enum,
            headers,
            params,
            body,
            read_timeout_in_s,
            write_timeout_in_s,
            https_only: true,
        }
    }

    /// Whether the request can be sent: every header and parameter value
    /// is a JSON string.
    pub fn is_sendable(&self) -> (b: bool)
        ensures
            b == (all_text(self@.headers) && all_text(self@.params)),
    {
        members_all_text(&self.headers) && members_all_text(&self.params)
    }

    /// What sending the request takes: the method's name, the URL, the
    /// query parameters and headers as (name, text) pairs in order, the
    /// body, and the client settings.
    pub fn prepare(&self) -> (plan: RequestPlan)
        requires
            all_text(self@.headers),
            all_text(self@.params),
        ensures
            plan@ == plan_of(self@),
    {
        RequestPlan {
            method: self.method.wire_name(),
            url: self.url.clone(),
            query: members_text_pairs(&self.params),
            headers: members_text_pairs(&self.headers),
            body: copy_body(&self.body),
            read_timeout_in_s: self.read_timeout_in_s,
            write_timeout_in_s: self.write_timeout_in_s,
            https_only: self.https_only,
        }
    }
}

} // verus!
