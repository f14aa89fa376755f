use vstd::prelude::*;
use std::collections::HashMap;

verus! {

/// Text pairs such as query parameters or headers.
pub type TextPairs = Vec<(String, String)>;

/// The abstract view of `TextPairs`.
pub type TextPairsView = Seq<(Seq<char>, Seq<char>)>;

/// `pairs` lists the entries of `m`: each pair is an entry of `m`, no key
/// occurs twice, and there are as many pairs as entries.
pub open spec fn lists_map(pairs: TextPairsView, m: Map<Seq<char>, Seq<char>>) -> bool {
    &&& m.dom().finite()
    &&& pairs.len() == m.len()
    &&& forall|i: int|
        0 <= i < pairs.len() ==> m.contains_key(#[trigger] pairs[i].0) && m[pairs[i].0] == pairs[i].1
    &&& forall|i: int, j: int|
        0 <= i < j < pairs.len() ==> #[trigger] pairs[i].0 != #[trigger] pairs[j].0
}

/// The entries of the map that parsing `text` as a JSON object whose
/// values are all strings gives; `None` when it is no such object.
pub uninterp spec fn json_string_map(text: Seq<char>) -> Option<Map<Seq<char>, Seq<char>>>;

/// `serde_json::from_str::<HashMap<String, String>>`, its entries taken
/// out in the map's iteration order.  The entries are named by
/// `json_string_map`; their order, which depends on the map's hashing,
/// is left unsaid: each entry comes once, in some order.
#[verifier::external_body]
fn parse_string_map(text: &str) -> (pairs: Option<TextPairs>)
    ensures
        pairs is Some == json_string_map(text@) is Some,
        pairs matches Some(p) ==> lists_map(p.deep_view(), json_string_map(text@)->0),
{
    match serde_json::from_str::<HashMap<String, String>>(text) {
        Ok(map) => Some(map.into_iter().collect()),
        Err(_) => None,
    }
}

/// The parts of a built request that its text is made of: method name,
/// URI path, protocol version (as debug-printed) and headers in the
/// order they are kept, each value with its text where it is visible
/// ASCII.
pub type RequestHead = (String, String, String, Vec<(String, Option<String>)>);

/// The abstract view of a `RequestHead`.
pub type RequestHeadView = (Seq<char>, Seq<char>, Seq<char>, Seq<(Seq<char>, Option<Seq<char>>)>);

/// What building a request with this method, URI and headers gives:
/// `None` when the builder rejects any of them.
pub uninterp spec fn http_request_head(
    method: Seq<char>,
    uri: Seq<char>,
    headers: TextPairsView,
) -> Option<RequestHeadView>;

/// `http::request::Builder` given the method, the URI and each header in
/// turn, then `body(())`; of the request it reads the method's name, the
/// URI's path, the version's debug text, and each header with
/// `HeaderValue::to_str`.  All of it is named by `http_request_head`.
#[verifier::external_body]
fn build_request_head(method: &str, uri: &str, headers: &TextPairs) -> (head: Option<RequestHead>)
    ensures
        head.deep_view() == http_request_head(method@, uri@, headers.deep_view()),
{
    let mut builder = http::request::Builder::new().method(method).uri(uri);
    for (name, value) in headers {
        builder = builder.header(name.as_str(), value.as_str());
    }
    let req = match builder.body(()) {
        Ok(req) => req,
        Err(_) => return None,
    };
    let mut lines = Vec::new();
    for (name, value) in req.headers() {
        lines.push((name.to_string(), value.to_str().ok().map(String::from)));
    }
    Some((req.method().to_string(), req.uri().path().to_string(), format!("{:?}", req.version()), lines))
}

/// `s` without the `&` characters it ends with.
pub open spec fn trim_trailing_amp(s: Seq<char>) -> Seq<char>
    decreases s.len(),
{
    if s.len() > 0 && s.last() == '&' {
        trim_trailing_amp(s.drop_last())
    } else {
        s
    }
}

/// `key=value&` for every pair, in order.
pub open spec fn query_items(pairs: TextPairsView) -> Seq<char>
    decreases pairs.len(),
{
    if pairs.len() == 0 {
        Seq::empty()
    } else {
        query_items(pairs.drop_last()) + pairs.last().0 + "="@ + pairs.last().1 + "&"@
    }
}

/// The address with the query made of the pairs, without trailing `&`.
pub open spec fn uri_with_query(addr: Seq<char>, pairs: TextPairsView) -> Seq<char> {
    trim_trailing_amp(addr + "?"@ + query_items(pairs))
}

/// The header lines `name: value`, joined by line breaks.
pub open spec fn header_lines(headers: TextPairsView) -> Seq<char>
    decreases headers.len(),
{
    if headers.len() == 0 {
        Seq::empty()
    } else if headers.len() == 1 {
        headers[0].0 + ": "@ + headers[0].1
    } else {
        header_lines(headers.drop_last()) + "\r\n"@ + headers.last().0 + ": "@ + headers.last().1
    }
}

/// Trimming keeps a prefix of the text that is empty or does not end in
/// `&`, and drops only `&` characters after it.
pub proof fn lemma_trim_trailing_amp(s: Seq<char>)
    ensures
        trim_trailing_amp(s).len() <= s.len(),
        trim_trailing_amp(s) == s.subrange(0, trim_trailing_amp(s).len() as int),
        trim_trailing_amp(s).len() > 0 ==> trim_trailing_amp(s).last() != '&',
        forall|i: int| trim_trailing_amp(s).len() <= i < s.len() ==> #[trigger] s[i] == '&',
    decreases s.len(),
{
    if s.len() > 0 && s.last() == '&' {
        lemma_trim_trailing_amp(s.drop_last());
        let t = trim_trailing_amp(s);
        assert(t == s.drop_last().subrange(0, t.len() as int));
        assert(t =~= s.subrange(0, t.len() as int));
        assert forall|i: int| t.len() <= i < s.len() implies #[trigger] s[i] == '&' by {
            if i < s.len() - 1 {
                assert(s.drop_last()[i] == s[i]);
            }
        }
    } else {
        assert(s =~= s.subrange(0, s.len() as int));
    }
}

/// The query items of two lists one after the other are those of the
/// first followed by those of the second, and a single pair gives
/// `key=value&`.
pub proof fn lemma_query_items_concat(a: TextPairsView, b: TextPairsView)
    ensures
        query_items(a + b) == query_items(a) + query_items(b),
        a.len() == 1 ==> query_items(a) == a[0].0 + "="@ + a[0].1 + "&"@,
    decreases b.len(),
{
    if a.len() == 1 {
        assert(a.drop_last() =~= Seq::<(Seq<char>, Seq<char>)>::empty());
        assert(query_items(a.drop_last()) =~= Seq::<char>::empty());
        assert(query_items(a) =~= a[0].0 + "="@ + a[0].1 + "&"@);
    }
    if b.len() == 0 {
        assert(a + b =~= a);
        assert(query_items(b) =~= Seq::<char>::empty());
        assert(query_items(a) + query_items(b) =~= query_items(a));
    } else {
        lemma_query_items_concat(a, b.drop_last());
        assert((a + b).drop_last() =~= a + b.drop_last());
        assert((a + b).last() == b.last());
        assert(query_items(a + b) =~= query_items(a) + query_items(b));
    }
}

/// Giving parameters is the same as giving no parameters for the address
/// with their query added.
pub proof fn lemma_raw_request_params_in_uri(
    method: Seq<char>,
    addr: Seq<char>,
    params: TextPairsView,
    headers: TextPairsView,
    body: Option<Seq<char>>,
)
    ensures
        raw_request(method, addr, Some(params), headers, body) == raw_request(
            method,
            uri_with_query(addr, params),
            None,
            headers,
            body,
        ),
{
}

/// A request's text is its request line (method, path and version
/// separated by spaces), the fixed content-type and host lines, the head's
/// header lines, a blank line, then the body verbatim if there is one.
pub proof fn lemma_request_text_layout(head: RequestHeadView, body: Option<Seq<char>>)
    ensures
        request_text(head, body) == head.0 + " "@ + head.1 + " "@ + head.2
            + "\r\nContent-Type: application/json\r\n"@ + "Host: jsonplaceholder.typicode.com\r\n"@
            + header_lines(texts_of(head.3)) + "\r\n"@ + body.unwrap_or(Seq::empty()),
{
    reveal_strlit("\r\nContent-Type: application/json\r\nHost: jsonplaceholder.typicode.com\r\n");
    reveal_strlit("\r\nContent-Type: application/json\r\n");
    reveal_strlit("Host: jsonplaceholder.typicode.com\r\n");
    assert("\r\nContent-Type: application/json\r\nHost: jsonplaceholder.typicode.com\r\n"@
        =~= "\r\nContent-Type: application/json\r\n"@ + "Host: jsonplaceholder.typicode.com\r\n"@);
    assert(request_text(head, body) =~= head.0 + " "@ + head.1 + " "@ + head.2
        + "\r\nContent-Type: application/json\r\n"@ + "Host: jsonplaceholder.typicode.com\r\n"@
        + header_lines(texts_of(head.3)) + "\r\n"@ + body.unwrap_or(Seq::empty()));
}

/// A request without parameters has a text exactly when the builder
/// accepts it and every header value of the built head has a text; the
/// text is then that of the built head and the body.
pub proof fn lemma_raw_request_text(
    method: Seq<char>,
    uri: Seq<char>,
    headers: TextPairsView,
    body: Option<Seq<char>>,
)
    ensures
        raw_request(method, uri, None, headers, body) is Some <==> (http_request_head(
            method,
            uri,
            headers,
        ) is Some && all_values_text((http_request_head(method, uri, headers)->0).3)),
        raw_request(method, uri, None, headers, body) is Some ==> raw_request(
            method,
            uri,
            None,
            headers,
            body,
        )->0 == request_text(http_request_head(method, uri, headers)->0, body),
{
}

/// The header block is the lines `name: value`, one per header in order,
/// joined by single line breaks: a single header gives its line, and the
/// block of two non-empty lists one after the other is the first block, a
/// line break, and the second block.
pub proof fn lemma_header_lines_joined(a: TextPairsView, b: TextPairsView)
    ensures
        a.len() == 1 ==> header_lines(a) == a[0].0 + ": "@ + a[0].1,
        a.len() > 0 && b.len() > 0 ==> header_lines(a + b) == header_lines(a) + "\r\n"@
            + header_lines(b),
    decreases b.len(),
{
    if a.len() > 0 && b.len() > 0 {
        if b.len() == 1 {
            assert((a + b).drop_last() =~= a);
        } else {
            lemma_header_lines_joined(a, b.drop_last());
            assert((a + b).drop_last() =~= a + b.drop_last());
            assert((a + b).last() == b.last());
        }
    }
}

/// The header block of two or more headers is the block of all but the
/// last, a line break, and the last header's line `name: value`.
pub proof fn lemma_header_lines_last(h: TextPairsView)
    requires
        h.len() >= 2,
    ensures
        header_lines(h) == header_lines(h.drop_last()) + "\r\n"@ + h.last().0 + ": "@ + h.last().1,
{
    let last = seq![h.last()];
    lemma_header_lines_joined(h.drop_last(), last);
    lemma_header_lines_joined(last, last);
    assert(h.drop_last() + last =~= h);
}

/// Every header value has a text.
pub open spec fn all_values_text(headers: Seq<(Seq<char>, Option<Seq<char>>)>) -> bool {
    forall|i: int| 0 <= i < headers.len() ==> (#[trigger] headers[i]).1 is Some
}

/// The headers with their texts.
pub open spec fn texts_of(headers: Seq<(Seq<char>, Option<Seq<char>>)>) -> TextPairsView {
    headers.map_values(|h: (Seq<char>, Option<Seq<char>>)| (h.0, h.1->0))
}

/// The text of a request with this head and body: the request line, the
/// fixed content type and host lines, the head's header lines, a blank
/// line, and the body if any.
pub open spec fn request_text(head: RequestHeadView, body: Option<Seq<char>>) -> Seq<char> {
    head.0 + " "@ + head.1 + " "@ + head.2
        + "\r\nContent-Type: application/json\r\nHost: jsonplaceholder.typicode.com\r\n"@
        + header_lines(texts_of(head.3)) + "\r\n"@ + match body {
        Some(b) => b,
        None => Seq::empty(),
    }
}

/// The request text for a method, an address, the parameter and header
/// pairs (the query is added only when there are parameters), and a
/// body: `None` when the request cannot be built or a header value has
/// no text.
pub open spec fn raw_request(
    method: Seq<char>,
    addr: Seq<char>,
    params: Option<TextPairsView>,
    headers: TextPairsView,
    body: Option<Seq<char>>,
) -> Option<Seq<char>> {
    let uri = match params {
        Some(p) => uri_with_query(addr, p),
        None => addr,
    };
    match http_request_head(method, uri, headers) {
        Some(head) => if all_values_text(head.3) {
            Some(request_text(head, body))
        } else {
            None
        },
        None => None,
    }
}

/// A raw HTTP/1.1 request, as text.
pub struct HttpRequest {
    request: String,
}

impl View for HttpRequest {
    type V = Seq<char>;

    closed spec fn view(&self) -> Seq<char> {
        self.request@
    }
}

/// The request's text, if any.
pub open spec fn text_of(r: Option<HttpRequest>) -> Option<Seq<char>> {
    match r {
        Some(req) => Some(req@),
        None => None,
    }
}

/// The pairs a (non-empty) JSON text gives, in some order, or none for
/// an empty text.
pub open spec fn pairs_listing(text: Seq<char>, pairs: TextPairsView) -> bool {
    if text.len() == 0 {
        pairs.len() == 0
    } else {
        json_string_map(text) is Some && lists_map(pairs, json_string_map(text)->0)
    }
}

/// `s` without its trailing `&` characters.
fn trim_amp(s: &String) -> (t: String)
    ensures
        t@ == trim_trailing_amp(s@),
{
    let text = s.as_str();
    let mut n: usize = text.unicode_len();
    assert(s@.subrange(0, n as int) =~= s@);
    while n > 0 && text.get_char(n - 1) == '&'
        invariant
            n <= text@.len(),
            text@ == s@,
            trim_trailing_amp(s@) == trim_trailing_amp(s@.subrange(0, n as int)),
        decreases n,
    {
        assert(s@.subrange(0, n as int).drop_last() =~= s@.subrange(0, n - 1));
        n = n - 1;
    }
    assert(s@.subrange(0, n as int) == trim_trailing_amp(s@.subrange(0, n as int)));
    String::from_str(text.substring_char(0, n))
}

/// The address with the query made of the pairs.
pub fn build_uri(addr: &str, pairs: &TextPairs) -> (uri: String)
    ensures
        uri@ == uri_with_query(addr@, pairs.deep_view()),
{
    let mut s = String::from_str(addr);
    s.append("?");
    let ghost pv = pairs.deep_view();
    let mut i: usize = 0;
    while i < pairs.len()
        invariant
            0 <= i <= pairs.len(),
            pv == pairs.deep_view(),
            s@ == addr@ + "?"@ + query_items(pv.take(i as int)),
        decreases pairs.len() - i,
    {
        assert(pv.take(i + 1).drop_last() =~= pv.take(i as int));
        s.append(pairs[i].0.as_str());
        s.append("=");
        s.append(pairs[i].1.as_str());
        s.append("&");
        i = i + 1;
    }
    assert(pv.take(pairs.len() as int) =~= pv);
    trim_amp(&s)
}

/// The header lines of the head, when every value has a text.
fn join_header_lines(headers: &Vec<(String, Option<String>)>) -> (lines: Option<String>)
    ensures
        match lines {
            Some(l) => all_values_text(headers.deep_view()) && l@ == header_lines(
                texts_of(headers.deep_view()),
            ),
            None => !all_values_text(headers.deep_view()),
        },
{
    let ghost hv = headers.deep_view();
    let mut s = String::new();
    let mut i: usize = 0;
    while i < headers.len()
        invariant
            0 <= i <= headers.len(),
            hv == headers.deep_view(),
            forall|j: int| 0 <= j < i ==> (#[trigger] hv[j]).1 is Some,
            s@ == header_lines(texts_of(hv.take(i as int))),
        decreases headers.len() - i,
    {
        assert(hv[i as int] == headers@[i as int].deep_view());
        match &headers[i].1 {
            None => {
                return None;
            },
            Some(value) => {
                assert(texts_of(hv.take(i + 1)).drop_last() =~= texts_of(hv.take(i as int)));
                if i > 0 {
                    s.append("\r\n");
                }
                s.append(headers[i].0.as_str());
                s.append(": ");
                s.append(value.as_str());
            },
        }
        i = i + 1;
    }
    assert(hv.take(headers.len() as int) =~= hv);
    Some(s)
}

impl HttpRequest {
    /// The request text for a method, an address, the listed parameters
    /// (if any) and headers, and a body; `None` when the request cannot
    /// be built or a header value is not visible ASCII.
    pub fn assemble(
        method: &str,
        addr: &str,
        params: Option<TextPairs>,
        headers: &TextPairs,
        body: Option<String>,
    ) -> (r: Option<HttpRequest>)
        ensures
            text_of(r) == raw_request(
                method@,
                addr@,
                params.deep_view(),
                headers.deep_view(),
                body.deep_view(),
            ),
    {
        let uri = match &params {
            Some(p) => build_uri(addr, p),
            None => String::from_str(addr),
        };
        match build_request_head(method, uri.as_str(), headers) {
            Some(head) => HttpRequest::from_head(head, body),
            None => None,
        }
    }

    /// The request text for a built request head and a body; `None` when a
    /// header value has no text.
    pub fn from_head(head: RequestHead, body: Option<String>) -> (r: Option<HttpRequest>)
        ensures
            text_of(r) == (if all_values_text(head.deep_view().3) {
                Some(request_text(head.deep_view(), body.deep_view()))
            } else {
                None
            }),
    {
        let lines = match join_header_lines(&head.3) {
            Some(l) => l,
            None => return None,
        };
        let mut s = head.0;
        s.append(" ");
        s.append(head.1.as_str());
        s.append(" ");
        s.append(head.2.as_str());
        s.append("\r\nContent-Type: application/json\r\nHost: jsonplaceholder.typicode.com\r\n");
        s.append(lines.as_str());
        s.append("\r\n");
        match &body {
            Some(b) => s.append(b.as_str()),
            None => {},
        }
        Some(HttpRequest { request: s })
    }

    /// The request text for sending `method` to `addr` with the query
    /// parameters and headers given as JSON objects of strings (an empty
    /// text for none) and an optional body.  The order of parameters and
    /// headers is the order in which the parsed maps give them, which is
    /// not fixed; the outcome is that of `assemble` for some listing of
    /// each.  `None` when a non-empty parameter or header text is not a
    /// JSON object of strings, or when `assemble` gives none.
    pub fn new(method: &str, addr: &str, header: &str, params: &str, body: Option<String>) -> (r:
        Option<HttpRequest>)
        ensures
            (params@.len() > 0 && json_string_map(params@) is None) ==> r is None,
            (header@.len() > 0 && json_string_map(header@) is None) ==> r is None,
            (params@.len() == 0 || json_string_map(params@) is Some) && (header@.len() == 0
                || json_string_map(header@) is Some) ==> exists|pp: TextPairsView, hp: TextPairsView|
                #![trigger pairs_listing(params@, pp), pairs_listing(header@, hp)]
                pairs_listing(params@, pp) && pairs_listing(header@, hp) && text_of(r) == raw_request(
                    method@,
                    addr@,
                    if params@.len() > 0 {
                        Some(pp)
                    } else {
                        None
                    },
                    hp,
                    body.deep_view(),
                ),
    {
        let param_pairs = if params.is_empty() {
            None
        } else {
            match parse_string_map(params) {
                Some(p) => Some(p),
                None => return None,
            }
        };
        let header_pairs = if header.is_empty() {
            Vec::new()
        } else {
            match parse_string_map(header) {
                Some(h) => h,
                None => return None,
            }
        };
        let ghost pp = match &param_pairs {
            Some(p) => p.deep_view(),
            None => Seq::empty(),
        };
        let ghost hp = header_pairs.deep_view();
        let r = HttpRequest::assemble(method, addr, param_pairs, &header_pairs, body);
        assert(pairs_listing(params@, pp) && pairs_listing(header@, hp));
        r
    }

    /// The request's text.
    pub fn as_str(&self) -> (s: &str)
        ensures
            s@ == self@,
    {
        self.request.as_str()
    }
}

} // verus!
