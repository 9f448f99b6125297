//! A small HTTP layer: building and rendering responses, and parsing a raw
//! request text into its method, path, query, headers and body. The network
//! I/O around it lives elsewhere; everything here is a pure function of the
//! text it is shown.

use vstd::prelude::*;

use crate::numfmt::{dec_rep, u64_to_string};
use crate::strings::string_push;
use crate::strsplit::{char_index_from, substr_index_from};

verus! {

use vstd::string::StringSliceAdditionalSpecFns;

/// The status line text for a code: the three known codes get their phrase,
/// anything else is marked unknown.
pub open spec fn spec_status_text(status: u16) -> Seq<char> {
    if status == 200 {
        "200 OK"@
    } else if status == 400 {
        "400 Bad Request"@
    } else if status == 500 {
        "500 Internal Server Error"@
    } else {
        dec_rep(status as u64) + " Unknown "@
    }
}

/// The header block rendered one `key: value` line at a time.
pub open spec fn headers_text(hs: Seq<(String, String)>) -> Seq<char>
    decreases hs.len(),
{
    if hs.len() == 0 {
        Seq::empty()
    } else {
        headers_text(hs.drop_last()) + hs.last().0@ + ": "@ + hs.last().1@ + "\n"@
    }
}

/// An HTTP response: status line, headers and body.
#[derive(Debug)]
pub struct Response {
    status_text: String,
    headers: Vec<(String, String)>,
    body: String,
}

impl Response {
    pub closed spec fn spec_status(self) -> Seq<char> {
        self.status_text@
    }

    pub closed spec fn spec_headers(self) -> Seq<(String, String)> {
        self.headers@
    }

    pub closed spec fn spec_body(self) -> Seq<char> {
        self.body@
    }

    /// A JSON response: the standard status phrase for the code, a
    /// `Content-Type` and byte-accurate `Content-Length` header followed by
    /// any extra headers given, and the body as handed in.
    pub fn json(status: u16, body: &str, headers: Option<Vec<(String, String)>>) -> (r: Self)
        ensures
            r.spec_status() == spec_status_text(status),
            r.spec_body() == body@,
            ({
                let extra = match headers {
                    Some(h) => h@,
                    None => Seq::<(String, String)>::empty(),
                };
                &&& r.spec_headers().len() == 2 + extra.len()
                &&& r.spec_headers()[0].0@ == "Content-Type"@
                &&& r.spec_headers()[0].1@ == "application/json"@
                &&& r.spec_headers()[1].0@ == "Content-Length"@
                &&& r.spec_headers()[1].1@ == dec_rep(body.spec_bytes().len() as u64)
                &&& forall|i: int| 0 <= i < extra.len() ==> r.spec_headers()[2 + i] == extra[i]
            }),
    {
        let content_len = body.as_bytes().len();
        let mut hs: Vec<(String, String)> = Vec::new();
        let mut ct_key = String::new();
        ct_key.append("Content-Type");
        let mut ct_val = String::new();
        ct_val.append("application/json");
        hs.push((ct_key, ct_val));
        let mut cl_key = String::new();
        cl_key.append("Content-Length");
        let cl_val = u64_to_string(content_len as u64);
        hs.push((cl_key, cl_val));
        let mut extra = match headers {
            Some(h) => h,
            None => Vec::new(),
        };
        hs.append(&mut extra);
        let status_text = if status == 200 {
            let mut t = String::new();
            t.append("200 OK");
            t
        } else if status == 400 {
            let mut t = String::new();
            t.append("400 Bad Request");
            t
        } else if status == 500 {
            let mut t = String::new();
            t.append("500 Internal Server Error");
            t
        } else {
            let mut t = u64_to_string(status as u64);
            t.append(" Unknown ");
            t
        };
        let mut b = String::new();
        b.append(body);
        Response { status_text, headers: hs, body: b }
    }

    /// Renders a response as its wire text: the status line, each header as
    /// its own line, a blank line, then the body.
    pub fn resolve(response: &Response) -> (r: String)
        ensures
            r@ == "HTTP/1.1 "@ + response.spec_status() + "\n"@ + headers_text(
                response.spec_headers(),
            ) + "\r\n"@ + response.spec_body(),
    {
        let ghost hs = response.headers@;
        let mut response_str = String::new();
        response_str.append("HTTP/1.1 ");
        response_str.append(response.status_text.as_str());
        response_str.append("\n");
        let mut i: usize = 0;
        proof {
            assert(hs.take(0) =~= Seq::<(String, String)>::empty());
            assert(response_str@ =~= "HTTP/1.1 "@ + response.spec_status() + "\n"@ + headers_text(
                hs.take(0),
            ));
        }
        while i < response.headers.len()
            invariant
                i <= hs.len(),
                hs == response.headers@,
                response_str@ == "HTTP/1.1 "@ + response.spec_status() + "\n"@ + headers_text(
                    hs.take(i as int),
                ),
            decreases hs.len() - i,
        {
            response_str.append(response.headers[i].0.as_str());
            response_str.append(": ");
            response_str.append(response.headers[i].1.as_str());
            response_str.append("\n");
            proof {
                assert(hs.take(i + 1).drop_last() =~= hs.take(i as int));
                assert(hs.take(i + 1).last() == hs[i as int]);
                assert(response_str@ =~= "HTTP/1.1 "@ + response.spec_status() + "\n"@
                    + headers_text(hs.take(i + 1)));
            }
            i += 1;
        }
        response_str.append("\r\n");
        response_str.append(response.body.as_str());
        proof {
            assert(hs.take(hs.len() as int) =~= hs);
            assert(response_str@ =~= "HTTP/1.1 "@ + response.spec_status() + "\n"@ + headers_text(
                hs,
            ) + "\r\n"@ + response.spec_body());
        }
        response_str
    }
}

// ------------------------------------------------------------------
// Request parsing
// ------------------------------------------------------------------

/// An ASCII whitespace character, as token separators count them.
pub open spec fn is_ws(c: char) -> bool {
    c == ' ' || c == '\t' || c == '\n' || c == '\r' || c == '\u{c}'
}

/// The first position at or after `i` holding something other than
/// whitespace, or the length.
pub open spec fn skip_ws_from(t: Seq<char>, i: int) -> int
    decreases t.len() - i,
{
    if i < 0 || i >= t.len() {
        t.len() as int
    } else if !is_ws(t[i]) {
        i
    } else {
        skip_ws_from(t, i + 1)
    }
}

/// The first position at or after `i` holding whitespace, or the length.
pub open spec fn ws_from(t: Seq<char>, i: int) -> int
    decreases t.len() - i,
{
    if i < 0 || i >= t.len() {
        t.len() as int
    } else if is_ws(t[i]) {
        i
    } else {
        ws_from(t, i + 1)
    }
}

proof fn lemma_skip_ws_bounds(t: Seq<char>, i: int)
    requires
        0 <= i <= t.len(),
    ensures
        i <= skip_ws_from(t, i) <= t.len(),
        i <= ws_from(t, i) <= t.len(),
    decreases t.len() - i,
{
    if i < t.len() {
        lemma_skip_ws_bounds(t, i + 1);
    }
}

/// One past the last non-whitespace position, or zero.
pub open spec fn last_non_ws_end(t: Seq<char>) -> int
    decreases t.len(),
{
    if t.len() == 0 {
        0
    } else if is_ws(t.last()) {
        last_non_ws_end(t.drop_last())
    } else {
        t.len() as int
    }
}


/// `t` with whitespace stripped from both ends.
pub open spec fn trim_ws(t: Seq<char>) -> Seq<char> {
    let a = skip_ws_from(t, 0);
    let b = last_non_ws_end(t);
    if a >= b {
        Seq::empty()
    } else {
        t.subrange(a, b)
    }
}

/// `t` with every occurrence of `c` removed.
pub open spec fn without_char(t: Seq<char>, c: char) -> Seq<char>
    decreases t.len(),
{
    if t.len() == 0 {
        Seq::empty()
    } else {
        without_char(t.drop_last(), c) + if t.last() == c {
            Seq::<char>::empty()
        } else {
            seq![t.last()]
        }
    }
}

/// The request line: everything before the first newline.
pub open spec fn request_line(s: Seq<char>) -> Seq<char> {
    s.take(char_index_from(s, '\n', 0))
}

pub open spec fn method_start(s: Seq<char>) -> int {
    skip_ws_from(request_line(s), 0)
}

pub open spec fn method_end(s: Seq<char>) -> int {
    ws_from(request_line(s), method_start(s))
}

/// The first whitespace-separated token of the request line.
pub open spec fn spec_method(s: Seq<char>) -> Seq<char> {
    request_line(s).subrange(method_start(s), method_end(s))
}

pub open spec fn path_start(s: Seq<char>) -> int {
    skip_ws_from(request_line(s), method_end(s))
}

pub open spec fn path_end(s: Seq<char>) -> int {
    ws_from(request_line(s), path_start(s))
}

/// The second whitespace-separated token of the request line: the path with
/// any query string still attached.
pub open spec fn spec_full_path(s: Seq<char>) -> Seq<char> {
    request_line(s).subrange(path_start(s), path_end(s))
}

/// The path alone: the full path up to the first `?`.
pub open spec fn spec_path(s: Seq<char>) -> Seq<char> {
    spec_full_path(s).take(char_index_from(spec_full_path(s), '?', 0))
}

/// The query text: what follows the first `?` of the full path, with any
/// further `?` dropped; empty when there is no `?`.
pub open spec fn spec_query_string(s: Seq<char>) -> Seq<char> {
    let fp = spec_full_path(s);
    let q = char_index_from(fp, '?', 0);
    if q < fp.len() {
        without_char(fp.skip(q + 1), '?')
    } else {
        Seq::empty()
    }
}

/// The `key=value` pairs of a query text from position `i` on: segments are
/// separated by `&`, a segment without `=` is dropped, and a segment splits
/// at its first `=`.
pub open spec fn query_pairs_from(q: Seq<char>, i: int) -> Seq<(Seq<char>, Seq<char>)>
    decreases q.len() - i,
    via query_pairs_from_dec
{
    if i < 0 || i >= q.len() {
        Seq::empty()
    } else {
        let e = char_index_from(q, '&', i);
        let k = char_index_from(q, '=', i);
        let here = if k < e {
            seq![(q.subrange(i, k), q.subrange(k + 1, e))]
        } else {
            Seq::<(Seq<char>, Seq<char>)>::empty()
        };
        if e < q.len() {
            here + query_pairs_from(q, e + 1)
        } else {
            here
        }
    }
}

#[via_fn]
proof fn query_pairs_from_dec(q: Seq<char>, i: int) {
    if 0 <= i < q.len() {
        crate::strsplit::lemma_char_index_from_bounds(q, '&', i);
    }
}

pub open spec fn spec_query(s: Seq<char>) -> Seq<(Seq<char>, Seq<char>)> {
    query_pairs_from(spec_query_string(s), 0)
}

/// Whether an empty line — exactly `\r\n` — starts at position `i`.
pub open spec fn is_blank_at(s: Seq<char>, i: int) -> bool {
    0 <= i && i + 1 < s.len() && s[i] == '\r' && s[i + 1] == '\n'
}

/// The start of the first blank line at or after line start `i`, or `-1`.
pub open spec fn blank_start(s: Seq<char>, i: int) -> int
    decreases s.len() - i,
    via blank_start_dec
{
    if i < 0 || i >= s.len() {
        -1
    } else if is_blank_at(s, i) {
        i
    } else {
        let e = char_index_from(s, '\n', i);
        if e >= s.len() {
            -1
        } else {
            blank_start(s, e + 1)
        }
    }
}

#[via_fn]
proof fn blank_start_dec(s: Seq<char>, i: int) {
    if 0 <= i < s.len() {
        crate::strsplit::lemma_char_index_from_bounds(s, '\n', i);
    }
}

proof fn lemma_blank_start(s: Seq<char>, i: int)
    requires
        0 <= i,
    ensures
        blank_start(s, i) == -1 || (i <= blank_start(s, i) && is_blank_at(s, blank_start(s, i))),
    decreases s.len() - i,
{
    if 0 <= i < s.len() && !is_blank_at(s, i) {
        let e = char_index_from(s, '\n', i);
        crate::strsplit::lemma_char_index_from_bounds(s, '\n', i);
        if e < s.len() {
            lemma_blank_start(s, e + 1);
        }
    }
}

/// Where the line after the request line starts, or the end.
pub open spec fn second_line_start(s: Seq<char>) -> int {
    let e = char_index_from(s, '\n', 0);
    if e < s.len() {
        e + 1
    } else {
        s.len() as int
    }
}

/// The start of the blank line separating headers from body, or `-1`.
pub open spec fn spec_blank(s: Seq<char>) -> int {
    blank_start(s, second_line_start(s))
}

/// Everything after the blank line: the request body.
pub open spec fn spec_content(s: Seq<char>) -> Seq<char> {
    s.skip(spec_blank(s) + 2)
}

/// The header pairs of the lines in `[i, blank)`: a line that is blank after
/// trimming, or lacks `": "`, is dropped; otherwise the key is everything
/// before the first `": "` and the value is the trimmed rest.
pub open spec fn spec_headers_from(s: Seq<char>, i: int, blank: int) -> Seq<(Seq<char>, Seq<char>)>
    decreases blank - i,
    via spec_headers_from_dec
{
    if i < 0 || i >= blank || blank > s.len() {
        Seq::empty()
    } else {
        let e = char_index_from(s, '\n', i);
        let le = if e < blank {
            e
        } else {
            blank
        };
        let line = s.subrange(i, le);
        let here = if trim_ws(line).len() == 0 {
            Seq::<(Seq<char>, Seq<char>)>::empty()
        } else {
            let k = substr_index_from(line, ": "@, 0);
            if k >= 0 {
                seq![(line.take(k), trim_ws(line.skip(k + 2)))]
            } else {
                Seq::<(Seq<char>, Seq<char>)>::empty()
            }
        };
        if le + 1 < blank {
            here + spec_headers_from(s, le + 1, blank)
        } else {
            here
        }
    }
}

#[via_fn]
proof fn spec_headers_from_dec(s: Seq<char>, i: int, blank: int) {
    if 0 <= i < blank && blank <= s.len() {
        crate::strsplit::lemma_char_index_from_bounds(s, '\n', i);
    }
}

pub open spec fn spec_req_headers(s: Seq<char>) -> Seq<(Seq<char>, Seq<char>)> {
    spec_headers_from(s, second_line_start(s), spec_blank(s))
}

/// Whether the text parses as a request: non-empty, with a method token, a
/// path token and a blank line.
pub open spec fn request_wf(s: Seq<char>) -> bool {
    &&& s.len() > 0
    &&& method_start(s) < request_line(s).len()
    &&& path_start(s) < request_line(s).len()
    &&& spec_blank(s) >= 0
}

/// The views of a vector of string pairs.
pub open spec fn pairs_view(ps: Seq<(String, String)>) -> Seq<(Seq<char>, Seq<char>)> {
    Seq::new(ps.len(), |i: int| (ps[i].0@, ps[i].1@))
}

/// A parsed HTTP request.
#[derive(Debug)]
pub struct Request {
    pub method: String,
    pub path: String,
    pub headers: Vec<(String, String)>,
    pub query: Vec<(String, String)>,
    pub content: String,
}

fn is_ws_char(c: char) -> (r: bool)
    ensures
        r == is_ws(c),
{
    c == ' ' || c == '\t' || c == '\n' || c == '\r' || c == '\u{c}'
}

/// The first position at or after `from` holding `c`, or the length.
fn find_char(s: &str, c: char, from: usize) -> (r: usize)
    requires
        from <= s@.len(),
    ensures
        r == char_index_from(s@, c, from as int),
        from <= r <= s@.len(),
{
    let n = s.unicode_len();
    let mut i = from;
    while i < n && s.get_char(i) != c
        invariant
            from <= i <= n,
            n == s@.len(),
            char_index_from(s@, c, from as int) == char_index_from(s@, c, i as int),
        decreases n - i,
    {
        i += 1;
    }
    proof {
        assert(char_index_from(s@, c, i as int) == i);
    }
    i
}

fn skip_ws(s: &str, from: usize) -> (r: usize)
    requires
        from <= s@.len(),
    ensures
        r == skip_ws_from(s@, from as int),
        from <= r <= s@.len(),
{
    let n = s.unicode_len();
    let mut i = from;
    while i < n && is_ws_char(s.get_char(i))
        invariant
            from <= i <= n,
            n == s@.len(),
            skip_ws_from(s@, from as int) == skip_ws_from(s@, i as int),
        decreases n - i,
    {
        i += 1;
    }
    proof {
        assert(skip_ws_from(s@, i as int) == i);
    }
    i
}

fn ws_pos(s: &str, from: usize) -> (r: usize)
    requires
        from <= s@.len(),
    ensures
        r == ws_from(s@, from as int),
        from <= r <= s@.len(),
{
    let n = s.unicode_len();
    let mut i = from;
    while i < n && !is_ws_char(s.get_char(i))
        invariant
            from <= i <= n,
            n == s@.len(),
            ws_from(s@, from as int) == ws_from(s@, i as int),
        decreases n - i,
    {
        i += 1;
    }
    proof {
        assert(ws_from(s@, i as int) == i);
    }
    i
}

/// `t` with whitespace stripped from both ends.
fn trim_str(t: &str) -> (r: &str)
    ensures
        r@ == trim_ws(t@),
{
    let n = t.unicode_len();
    let a = skip_ws(t, 0);
    let mut b = n;
    proof {
        assert(t@.take(n as int) =~= t@);
    }
    while b > 0 && is_ws_char(t.get_char(b - 1))
        invariant
            b <= n,
            n == t@.len(),
            last_non_ws_end(t@) == last_non_ws_end(t@.take(b as int)),
        decreases b,
    {
        proof {
            assert(t@.take(b as int).drop_last() =~= t@.take(b - 1));
            assert(t@.take(b as int).last() == t@[b - 1]);
        }
        b -= 1;
    }
    proof {
        if b > 0 {
            assert(t@.take(b as int).last() == t@[b - 1]);
        }
        assert(last_non_ws_end(t@.take(b as int)) == b);
        lemma_skip_ws_bounds(t@, 0);
    }
    if a >= b {
        let r = t.substring_char(0, 0);
        proof {
            assert(r@ =~= trim_ws(t@));
        }
        r
    } else {
        let r = t.substring_char(a, b);
        proof {
            assert(r@ =~= trim_ws(t@));
        }
        r
    }
}

fn err_string(msg: &str) -> (r: String)
    ensures
        r@ == msg@,
{
    let mut m = String::new();
    m.append(msg);
    m
}

impl Request {
    /// Parses a raw request text. Succeeds exactly when the text is
    /// non-empty, its first line carries a method and a path token, and a
    /// blank line separates the headers from the body; each failure reports
    /// which of those was missing. On success every field is pinned: the
    /// method and full path are the first two tokens, the path splits from
    /// the query at the first `?`, the query pairs split at `&` and `=`, the
    /// headers are the `": "`-separated lines before the blank line with
    /// trimmed values, and the content is everything after the blank line.
    pub fn parse(request_text: &str) -> (r: Result<Request, String>)
        ensures
            r is Ok <==> request_wf(request_text@),
            r matches Ok(req) ==> {
                &&& req.method@ == spec_method(request_text@)
                &&& req.path@ == spec_path(request_text@)
                &&& pairs_view(req.query@) == spec_query(request_text@)
                &&& pairs_view(req.headers@) == spec_req_headers(request_text@)
                &&& req.content@ == spec_content(request_text@)
            },
            r matches Err(m) ==> {
                let s = request_text@;
                if s.len() == 0 {
                    m@ == "empty request"@
                } else if method_start(s) >= request_line(s).len() {
                    m@ == "missing request method"@
                } else if path_start(s) >= request_line(s).len() {
                    m@ == "missing request path"@
                } else {
                    m@ == "missing blank line"@
                }
            },
    {
        let ghost s = request_text@;
        let n = request_text.unicode_len();
        if n == 0 {
            return Err(err_string("empty request"));
        }
        // The request line and its two tokens.
        let l0e = find_char(request_text, '\n', 0);
        let rl = request_text.substring_char(0, l0e);
        proof {
            assert(rl@ =~= request_line(s));
        }
        let rl_len = rl.unicode_len();
        let ms = skip_ws(rl, 0);
        if ms >= rl_len {
            return Err(err_string("missing request method"));
        }
        let me = ws_pos(rl, ms);
        let method = rl.substring_char(ms, me).to_owned();
        let ps = skip_ws(rl, me);
        if ps >= rl_len {
            return Err(err_string("missing request path"));
        }
        let pe = ws_pos(rl, ps);
        let full_path = rl.substring_char(ps, pe);
        proof {
            assert(full_path@ =~= spec_full_path(s));
        }
        // Path and query string.
        let fp_len = full_path.unicode_len();
        let qp = find_char(full_path, '?', 0);
        let path = full_path.substring_char(0, qp).to_owned();
        proof {
            assert(path@ =~= spec_path(s));
        }
        let mut query_string = String::new();
        if qp < fp_len {
            let mut j = qp + 1;
            proof {
                assert(query_string@ =~= without_char(
                    full_path@.subrange(qp + 1, j as int),
                    '?',
                ));
            }
            while j < fp_len
                invariant
                    qp + 1 <= j <= fp_len,
                    fp_len == full_path@.len(),
                    query_string@ == without_char(full_path@.subrange(qp + 1, j as int), '?'),
                decreases fp_len - j,
            {
                let c = full_path.get_char(j);
                if c != '?' {
                    string_push(&mut query_string, c);
                }
                proof {
                    assert(full_path@.subrange(qp + 1, j + 1).drop_last() =~= full_path@.subrange(
                        qp + 1,
                        j as int,
                    ));
                    assert(full_path@.subrange(qp + 1, j + 1).last() == full_path@[j as int]);
                }
                j += 1;
            }
            proof {
                assert(full_path@.subrange(qp + 1, fp_len as int) =~= full_path@.skip(qp + 1));
                assert(query_string@ =~= spec_query_string(s));
            }
        } else {
            proof {
                assert(query_string@ =~= spec_query_string(s));
            }
        }
        // Query pairs.
        let ghost q = query_string@;
        let qs = query_string.as_str();
        let q_len = qs.unicode_len();
        let mut query_params: Vec<(String, String)> = Vec::new();
        let mut pos: usize = 0;
        let mut done = q_len == 0;
        proof {
            assert(pairs_view(query_params@) =~= Seq::<(Seq<char>, Seq<char>)>::empty());
            if done {
                assert(query_pairs_from(q, 0) =~= Seq::<(Seq<char>, Seq<char>)>::empty());
            }
        }
        while !done
            invariant
                pos <= q_len,
                q_len == q.len(),
                q == query_string@,
                qs@ == q,
                done ==> pairs_view(query_params@) =~= query_pairs_from(q, 0),
                !done ==> pos < q_len && pairs_view(query_params@) + query_pairs_from(
                    q,
                    pos as int,
                ) =~= query_pairs_from(q, 0),
            decreases q_len - pos, (if done { 0int } else { 1int }),
        {
            let e = find_char(qs, '&', pos);
            let k = find_char(qs, '=', pos);
            if k < e {
                let key = qs.substring_char(pos, k).to_owned();
                let value = qs.substring_char(k + 1, e).to_owned();
                let ghost pre = query_params@;
                query_params.push((key, value));
                proof {
                    assert(pairs_view(query_params@) =~= pairs_view(pre).push(
                        (q.subrange(pos as int, k as int), q.subrange(k + 1, e as int)),
                    ));
                }
            }
            proof {
                let here = if (k as int) < e as int {
                    seq![(q.subrange(pos as int, k as int), q.subrange(k + 1, e as int))]
                } else {
                    Seq::<(Seq<char>, Seq<char>)>::empty()
                };
                if e < q_len {
                    assert(query_pairs_from(q, pos as int) == here + query_pairs_from(q, e + 1));
                } else {
                    assert(query_pairs_from(q, pos as int) == here);
                }
            }
            if e < q_len {
                pos = e + 1;
                if pos >= q_len {
                    done = true;
                    proof {
                        assert(query_pairs_from(q, pos as int) =~= Seq::<(
                            Seq<char>,
                            Seq<char>,
                        )>::empty());
                    }
                }
            } else {
                done = true;
                pos = q_len;
            }
        }
        // The blank line separating headers from body.
        let second = if l0e < n {
            l0e + 1
        } else {
            n
        };
        let mut i = second;
        let mut blank: usize = 0;
        let mut found = false;
        let mut no_more = second >= n;
        while !found && !no_more
            invariant
                second <= i <= n,
                n == s.len(),
                s == request_text@,
                found ==> is_blank_at(s, blank as int) && blank_start(s, second as int)
                    == blank as int,
                !found && !no_more ==> i < n && blank_start(s, second as int) == blank_start(
                    s,
                    i as int,
                ),
                no_more ==> !found && blank_start(s, second as int) == -1,
            decreases n - i, (if found || no_more { 0int } else { 1int }),
        {
            let c = request_text.get_char(i);
            if c == '\r' && i + 1 < n && request_text.get_char(i + 1) == '\n' {
                blank = i;
                found = true;
            } else {
                proof {
                    assert(!is_blank_at(s, i as int));
                }
                let e = find_char(request_text, '\n', i);
                if e >= n {
                    proof {
                        assert(blank_start(s, i as int) == -1);
                    }
                    no_more = true;
                } else {
                    proof {
                        assert(blank_start(s, i as int) == blank_start(s, e + 1));
                    }
                    i = e + 1;
                    if i >= n {
                        proof {
                            assert(blank_start(s, i as int) == -1);
                        }
                        no_more = true;
                    }
                }
            }
        }
        if !found {
            return Err(err_string("missing blank line"));
        }
        proof {
            assert(spec_blank(s) == blank as int);
            lemma_blank_start(s, second as int);
        }
        // Body: everything after the blank line.
        let content = request_text.substring_char(blank + 2, n).to_owned();
        proof {
            assert(content@ =~= spec_content(s));
        }
        // Header lines.
        let mut header_map: Vec<(String, String)> = Vec::new();
        let mut h = second;
        let mut h_done = h >= blank;
        proof {
            if h_done {
                assert(spec_headers_from(s, h as int, blank as int) =~= Seq::<(
                    Seq<char>,
                    Seq<char>,
                )>::empty());
                assert(pairs_view(header_map@) =~= spec_headers_from(
                    s,
                    second as int,
                    blank as int,
                ));
            } else {
                assert(pairs_view(header_map@) + spec_headers_from(s, h as int, blank as int)
                    =~= spec_headers_from(s, second as int, blank as int));
            }
        }
        while !h_done
            invariant
                second <= h <= blank,
                blank < n,
                n == s.len(),
                s == request_text@,
                is_blank_at(s, blank as int),
                h_done ==> pairs_view(header_map@) =~= spec_headers_from(
                    s,
                    second as int,
                    blank as int,
                ),
                !h_done ==> h < blank && pairs_view(header_map@) + spec_headers_from(
                    s,
                    h as int,
                    blank as int,
                ) =~= spec_headers_from(s, second as int, blank as int),
            decreases blank - h, (if h_done { 0int } else { 1int }),
        {
            let e = find_char(request_text, '\n', h);
            let le = if e < blank {
                e
            } else {
                blank
            };
            let line = request_text.substring_char(h, le);
            let ghost linev = s.subrange(h as int, le as int);
            let trimmed = trim_str(line);
            if trimmed.unicode_len() > 0 {
                let sep: &str = ": ";
                proof {
                    reveal_strlit(": ");
                }
                match crate::strsplit::Delimiter::find_next(&sep, line) {
                    Some((k, _)) => {
                        proof {
                            crate::strsplit::lemma_substr_index_from(linev, ": "@, 0);
                        }
                        let key = line.substring_char(0, k).to_owned();
                        let line_len = line.unicode_len();
                        let value_raw = line.substring_char(k + 2, line_len);
                        let value = trim_str(value_raw).to_owned();
                        let ghost pre = header_map@;
                        header_map.push((key, value));
                        proof {
                            assert(key@ =~= linev.take(k as int));
                            assert(value_raw@ =~= linev.skip(k + 2));
                            assert(pairs_view(header_map@) =~= pairs_view(pre).push(
                                (linev.take(k as int), trim_ws(linev.skip(k + 2))),
                            ));
                        }
                    },
                    None => {},
                }
            }
            proof {
                let here = if trim_ws(linev).len() == 0 {
                    Seq::<(Seq<char>, Seq<char>)>::empty()
                } else {
                    let k = substr_index_from(linev, ": "@, 0);
                    if k >= 0 {
                        seq![(linev.take(k), trim_ws(linev.skip(k + 2)))]
                    } else {
                        Seq::<(Seq<char>, Seq<char>)>::empty()
                    }
                };
                if le as int + 1 < blank as int {
                    assert(spec_headers_from(s, h as int, blank as int) == here
                        + spec_headers_from(s, le as int + 1, blank as int));
                } else {
                    assert(spec_headers_from(s, h as int, blank as int) == here);
                }
            }
            if le + 1 < blank {
                h = le + 1;
            } else {
                h = blank;
                h_done = true;
            }
        }
        Ok(
            Request {
                method,
                path,
                headers: header_map,
                query: query_params,
                content,
            },
        )
    }
}

/// The position of the last query pair whose key matches, or `-1`. A later
/// pair with the same key supersedes an earlier one, as repeated insertions
/// into a map would.
pub open spec fn last_match(ps: Seq<(String, String)>, key: Seq<char>) -> int
    decreases ps.len(),
{
    if ps.len() == 0 {
        -1
    } else if ps.last().0@ == key {
        ps.len() - 1
    } else {
        last_match(ps.drop_last(), key)
    }
}

impl Request {
    /// Looks a key up among the query pairs; the last pair wins.
    pub fn query_get(&self, key: &str) -> (r: Option<&String>)
        ensures
            last_match(self.query@, key@) >= 0 ==> (r matches Some(v) && v@ == self.query@[
                last_match(self.query@, key@)
            ].1@),
            last_match(self.query@, key@) < 0 ==> r is None,
    {
        let ghost ps = self.query@;
        let mut idx: usize = 0;
        let mut have = false;
        let mut i: usize = 0;
        proof {
            assert(ps.take(0) =~= Seq::<(String, String)>::empty());
        }
        while i < self.query.len()
            invariant
                i <= ps.len(),
                ps == self.query@,
                have ==> idx < i && last_match(ps.take(i as int), key@) == idx as int,
                !have ==> last_match(ps.take(i as int), key@) < 0,
            decreases ps.len() - i,
        {
            if crate::strings::str_eq(self.query[i].0.as_str(), key) {
                idx = i;
                have = true;
            }
            proof {
                assert(ps.take(i + 1).drop_last() =~= ps.take(i as int));
                assert(ps.take(i + 1).last() == ps[i as int]);
            }
            i += 1;
        }
        proof {
            assert(ps.take(ps.len() as int) =~= ps);
        }
        if have {
            Some(&self.query[idx].1)
        } else {
            None
        }
    }
}

/// The greeting body for a name.
pub open spec fn spec_hello_body(name: Seq<char>) -> Seq<char> {
    "{\"message\": \"Hello, "@ + name + "!\"}"@
}

/// The name the greeting route addresses: the last `name` query value, or
/// the default.
pub open spec fn spec_hello_name(req: Request) -> Seq<char> {
    if last_match(req.query@, "name"@) >= 0 {
        req.query@[last_match(req.query@, "name"@)].1@
    } else {
        "Shivraj"@
    }
}

/// Decides the response for one parsed request: the greeting route answers
/// with the caller's name (or the default) and status 200, any other path is
/// a 400 with a fixed body, and a request that failed to parse is a 500
/// carrying the parse error.
pub fn route_request(request: Result<Request, String>) -> (r: Response)
    ensures
        match request {
            Ok(req) => {
                if req.path@ == "/hello"@ {
                    r.spec_status() == spec_status_text(200) && r.spec_body() == spec_hello_body(
                        spec_hello_name(req),
                    )
                } else {
                    r.spec_status() == spec_status_text(400) && r.spec_body()
                        == "{{\"message\": \"Invalid Path\"}}"@
                }
            },
            Err(e) => r.spec_status() == spec_status_text(500) && r.spec_body()
                == "{\"message\": \"Error: "@ + e@ + "}"@,
        },
{
    match request {
        Ok(req) => {
            if crate::strings::str_eq(req.path.as_str(), "/hello") {
                let mut name = String::new();
                match req.query_get("name") {
                    Some(n) => name.append(n.as_str()),
                    None => name.append("Shivraj"),
                }
                let mut payload = String::new();
                payload.append("{\"message\": \"Hello, ");
                payload.append(name.as_str());
                payload.append("!\"}");
                proof {
                    assert(payload@ =~= spec_hello_body(spec_hello_name(req)));
                }
                Response::json(200, payload.as_str(), None)
            } else {
                Response::json(400, "{{\"message\": \"Invalid Path\"}}", None)
            }
        },
        Err(e) => {
            let mut payload = String::new();
            payload.append("{\"message\": \"Error: ");
            payload.append(e.as_str());
            payload.append("}");
            proof {
                assert(payload@ =~= "{\"message\": \"Error: "@ + e@ + "}"@);
            }
            Response::json(500, payload.as_str(), None)
        },
    }
}

} // verus!
