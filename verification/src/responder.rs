//! The connection responder: parsing of the request line, resolution of the
//! requested path under the output root, and assembly of the HTTP response.
//!
//! Everything here is pure computation on bytes. The surrounding process
//! reads the request head from the socket, hands the first line in, reads
//! the resolved file, and writes the finished response bytes back.

use vstd::prelude::*;
use crate::bytes::bytes_eq;

verus! {

use vstd::string::StringSliceAdditionalSpecFns;

/// The MIME type the responder sends for a file extension.
///
/// An empty extension stands both for a name with no extension and for a
/// name ending in a dot; both are served as HTML, as is the `html`
/// extension itself. Unknown extensions fall back to the generic binary
/// type.
pub open spec fn content_type_for(ext: Seq<u8>) -> Seq<u8> {
    if ext == "".spec_bytes() || ext == "html".spec_bytes() {
        "text/html".spec_bytes()
    } else if ext == "css".spec_bytes() {
        "text/css".spec_bytes()
    } else if ext == "png".spec_bytes() {
        "image/png".spec_bytes()
    } else if ext == "jpg".spec_bytes() || ext == "jpeg".spec_bytes() {
        "image/jpeg".spec_bytes()
    } else if ext == "gif".spec_bytes() {
        "image/gif".spec_bytes()
    } else if ext == "js".spec_bytes() {
        "application/javascript".spec_bytes()
    } else {
        "application/octet-stream".spec_bytes()
    }
}

/// The extension-to-MIME lookup on raw extension bytes.
pub fn content_type_for_ext(ext: &[u8]) -> (r: &'static str)
    ensures
        r.spec_bytes() == content_type_for(ext@),
{
    if bytes_eq(ext, "".as_bytes()) || bytes_eq(ext, "html".as_bytes()) {
        "text/html"
    } else if bytes_eq(ext, "css".as_bytes()) {
        "text/css"
    } else if bytes_eq(ext, "png".as_bytes()) {
        "image/png"
    } else if bytes_eq(ext, "jpg".as_bytes()) || bytes_eq(ext, "jpeg".as_bytes()) {
        "image/jpeg"
    } else if bytes_eq(ext, "gif".as_bytes()) {
        "image/gif"
    } else if bytes_eq(ext, "js".as_bytes()) {
        "application/javascript"
    } else {
        "application/octet-stream"
    }
}

/// The extension-to-MIME lookup on an extension given as a string.
pub fn get_content_type(ext: &str) -> (r: &'static str)
    ensures
        r.spec_bytes() == content_type_for(ext.spec_bytes()),
{
    content_type_for_ext(ext.as_bytes())
}

/// The shortest decimal numeral of `n`, as ASCII digit bytes.
pub open spec fn decimal(n: nat) -> Seq<u8>
    decreases n,
{
    if n < 10 {
        seq![(48 + n) as u8]
    } else {
        decimal(n / 10).push((48 + n % 10) as u8)
    }
}

/// Appends the decimal numeral of `n` to `out`.
pub fn push_decimal(out: &mut Vec<u8>, n: usize)
    ensures
        final(out)@ == old(out)@ + decimal(n as nat),
    decreases n,
{
    if n < 10 {
        out.push(48 + (n as u8));
    } else {
        push_decimal(out, n / 10);
        out.push(48 + ((n % 10) as u8));
    }
}

/// Whether a byte separates tokens of the request line: space, horizontal
/// tab, carriage return or line feed.
pub open spec fn is_space(b: u8) -> bool {
    b == 32 || b == 9 || b == 13 || b == 10
}

fn is_space_byte(b: u8) -> (r: bool)
    ensures
        r == is_space(b),
{
    b == 32 || b == 9 || b == 13 || b == 10
}

/// Length of the leading run of non-space bytes.
pub open spec fn run_len(s: Seq<u8>) -> nat
    decreases s.len(),
{
    if s.len() == 0 || is_space(s[0]) {
        0
    } else {
        1 + run_len(s.drop_first())
    }
}

proof fn lemma_run_len_bounds(s: Seq<u8>)
    ensures
        run_len(s) <= s.len(),
    decreases s.len(),
{
    if s.len() > 0 && !is_space(s[0]) {
        lemma_run_len_bounds(s.drop_first());
    }
}

proof fn lemma_run_len_is(s: Seq<u8>, k: int)
    requires
        0 <= k <= s.len(),
        forall|i: int| 0 <= i < k ==> !is_space(s[i]),
        k == s.len() || is_space(s[k]),
    ensures
        run_len(s) == k,
    decreases s.len(),
{
    if k > 0 {
        lemma_run_len_is(s.drop_first(), k - 1);
    }
}

/// The whitespace-separated tokens of a byte sequence, in order.
pub open spec fn tokens_of(s: Seq<u8>) -> Seq<Seq<u8>>
    decreases s.len(),
    via tokens_of_decreases
{
    if s.len() == 0 {
        Seq::empty()
    } else if is_space(s[0]) {
        tokens_of(s.drop_first())
    } else {
        Seq::empty().push(s.take(run_len(s) as int)) + tokens_of(s.skip(run_len(s) as int))
    }
}

#[via_fn]
proof fn tokens_of_decreases(s: Seq<u8>) {
    if s.len() > 0 && !is_space(s[0]) {
        lemma_run_len_bounds(s);
        assert(run_len(s) >= 1);
    }
}

proof fn lemma_tokens_skip_space(s: Seq<u8>, i: int)
    requires
        0 <= i < s.len(),
        is_space(s[i]),
    ensures
        tokens_of(s.skip(i)) == tokens_of(s.skip(i + 1)),
{
    assert(s.skip(i).drop_first() =~= s.skip(i + 1));
}

proof fn lemma_tokens_take_run(s: Seq<u8>, i: int, j: int)
    requires
        0 <= i < j <= s.len(),
        forall|k: int| i <= k < j ==> !is_space(s[k]),
        j == s.len() || is_space(s[j]),
    ensures
        tokens_of(s.skip(i)) == Seq::empty().push(s.subrange(i, j)) + tokens_of(s.skip(j)),
{
    let t = s.skip(i);
    assert(forall|k: int| 0 <= k < j - i ==> !is_space(t[k]));
    lemma_run_len_is(t, j - i);
    assert(t.take(j - i) =~= s.subrange(i, j));
    assert(t.skip(j - i) =~= s.skip(j));
}

/// The first line of a request, split into its three parts.
pub struct Request {
    pub method: Vec<u8>,
    pub path: Vec<u8>,
    pub version: Vec<u8>,
}

/// Splits the request line into whitespace-separated tokens and accepts it
/// exactly when there are three: method, path and protocol version. Any
/// other shape is malformed and yields `None`.
pub fn parse_request_line(line: &[u8]) -> (r: Option<Request>)
    ensures
        match r {
            Some(req) => {
                &&& tokens_of(line@).len() == 3
                &&& req.method@ == tokens_of(line@)[0]
                &&& req.path@ == tokens_of(line@)[1]
                &&& req.version@ == tokens_of(line@)[2]
            },
            None => tokens_of(line@).len() != 3,
        },
{
    let mut toks: Vec<Vec<u8>> = Vec::new();
    let mut i: usize = 0;
    proof {
        assert(line@.skip(0) =~= line@);
        assert(toks@.map_values(|t: Vec<u8>| t@) =~= Seq::<Seq<u8>>::empty());
        assert(Seq::<Seq<u8>>::empty() + tokens_of(line@) =~= tokens_of(line@));
    }
    while i < line.len()
        invariant
            i <= line@.len(),
            tokens_of(line@) == toks@.map_values(|t: Vec<u8>| t@) + tokens_of(
                line@.skip(i as int),
            ),
        decreases line@.len() - i,
    {
        if is_space_byte(line[i]) {
            proof {
                lemma_tokens_skip_space(line@, i as int);
            }
            i = i + 1;
        } else {
            let start = i;
            let mut j = i + 1;
            while j < line.len() && !is_space_byte(line[j])
                invariant
                    start < j <= line@.len(),
                    forall|k: int| start <= k < j ==> !is_space(line@[k]),
                decreases line@.len() - j,
            {
                j = j + 1;
            }
            let tok = crate::bytes::copy_range(line, start, j);
            proof {
                lemma_tokens_take_run(line@, start as int, j as int);
                assert(toks@.push(tok).map_values(|t: Vec<u8>| t@) =~= toks@.map_values(
                    |t: Vec<u8>| t@,
                ).push(tok@));
            }
            toks.push(tok);
            i = j;
        }
    }
    proof {
        assert(line@.skip(i as int) =~= Seq::<u8>::empty());
        assert(tokens_of(line@) =~= toks@.map_values(|t: Vec<u8>| t@));
    }
    if toks.len() == 3 {
        let version = toks.pop().unwrap();
        let path = toks.pop().unwrap();
        let method = toks.pop().unwrap();
        Some(Request { method, path, version })
    } else {
        None
    }
}

/// The resource served for the bare path `/`.
pub open spec fn default_document() -> Seq<u8> {
    "/home".spec_bytes()
}

/// The bare path `/` is served as the default document; every other path
/// stands for itself.
pub open spec fn normalize_path(p: Seq<u8>) -> Seq<u8> {
    if p == "/".spec_bytes() {
        default_document()
    } else {
        p
    }
}

/// Whether two consecutive dots occur anywhere in the path. Such a path is
/// refused outright, so a request can never name a parent directory and
/// escape the output root.
pub open spec fn contains_dotdot(p: Seq<u8>) -> bool {
    exists|i: int| 0 <= i && i + 2 <= p.len() && #[trigger] p[i] == 46 && p[i + 1] == 46
}

/// A path is served only if it is rooted (starts with a slash) and stays
/// below the output root (no `..`).
pub open spec fn path_allowed(p: Seq<u8>) -> bool {
    p.len() > 0 && p[0] == 47 && !contains_dotdot(p)
}

fn check_path_allowed(p: &[u8]) -> (r: bool)
    ensures
        r == path_allowed(p@),
{
    if p.len() == 0 {
        return false;
    }
    if p[0] != 47 {
        return false;
    }
    let mut i: usize = 0;
    while i < p.len() - 1
        invariant
            p@.len() >= 1,
            i <= p@.len(),
            forall|k: int| 0 <= k < i ==> !(#[trigger] p@[k] == 46 && p@[k + 1] == 46),
        decreases p@.len() - i,
    {
        if p[i] == 46 && p[i + 1] == 46 {
            assert(contains_dotdot(p@));
            return false;
        }
        i = i + 1;
    }
    assert(!contains_dotdot(p@));
    true
}

/// Index of the dot that starts the path's extension: the last dot of the
/// final segment, found by scanning from the end past extension bytes.
pub open spec fn dot_pos(p: Seq<u8>) -> Option<int>
    decreases p.len(),
{
    if p.len() == 0 {
        None
    } else if p[p.len() - 1] == 47 {
        None
    } else if p[p.len() - 1] == 46 {
        Some(p.len() - 1)
    } else {
        dot_pos(p.take(p.len() - 1))
    }
}

/// The path's extension: the bytes after the last dot of the final
/// segment. A name without a dot, and a name whose final segment starts
/// with its only dot, have the empty extension.
pub open spec fn ext_of(p: Seq<u8>) -> Seq<u8> {
    match dot_pos(p) {
        Some(k) => if k > 0 && p[k - 1] != 47 {
            p.skip(k + 1)
        } else {
            Seq::empty()
        },
        None => Seq::empty(),
    }
}

fn extension_of(p: &[u8]) -> (r: Vec<u8>)
    ensures
        r@ == ext_of(p@),
{
    let mut n: usize = p.len();
    proof {
        assert(p@.take(n as int) =~= p@);
    }
    while n > 0
        invariant
            n <= p@.len(),
            dot_pos(p@) == dot_pos(p@.take(n as int)),
        decreases n,
    {
        let b = p[n - 1];
        if b == 47 {
            return Vec::new();
        }
        if b == 46 {
            if n - 1 > 0 && p[n - 2] != 47 {
                let r = crate::bytes::copy_range(p, n, p.len());
                proof {
                    assert(p@.subrange(n as int, p@.len() as int) =~= p@.skip(n as int));
                }
                return r;
            }
            return Vec::new();
        }
        proof {
            assert(p@.take(n as int).take(n - 1 as int) =~= p@.take(n - 1 as int));
        }
        n = n - 1;
    }
    Vec::new()
}

/// Where a request path leads: the file to read and the MIME type to
/// declare for it.
pub struct Target {
    pub full_path: Vec<u8>,
    pub content_type: &'static str,
}

/// How `resolve_path` ties a target to the root and the requested path:
/// the file is the normalized path appended to the root, and the MIME type
/// is the table's answer for that path's extension.
pub open spec fn resolves_to(root: Seq<u8>, path: Seq<u8>, t: Target) -> bool {
    &&& t.full_path@ == root + normalize_path(path)
    &&& t.content_type.spec_bytes() == content_type_for(ext_of(normalize_path(path)))
}

/// Resolves a request path against the output root. `/` becomes the
/// default document first; a path that is not rooted below the output
/// root is refused.
pub fn resolve_path(root: &[u8], path: &[u8]) -> (r: Option<Target>)
    ensures
        match r {
            Some(t) => path_allowed(normalize_path(path@)) && resolves_to(root@, path@, t),
            None => !path_allowed(normalize_path(path@)),
        },
{
    let p: &[u8] = if bytes_eq(path, "/".as_bytes()) {
        "/home".as_bytes()
    } else {
        path
    };
    if !check_path_allowed(p) {
        return None;
    }
    let mut full_path: Vec<u8> = Vec::new();
    crate::bytes::push_bytes(&mut full_path, root);
    crate::bytes::push_bytes(&mut full_path, p);
    let ext = extension_of(p);
    let content_type = content_type_for_ext(ext.as_slice());
    Some(Target { full_path, content_type })
}

/// The status line sent for a file that was read successfully.
pub open spec fn status_ok() -> Seq<u8> {
    "HTTP/1.1 200 OK".spec_bytes()
}

/// The status line sent when the resolved file could not be read.
pub open spec fn status_not_found() -> Seq<u8> {
    "HTTP/1.1 404 NOT FOUND".spec_bytes()
}

/// The fixed body sent with a 404 status.
pub open spec fn not_found_body() -> Seq<u8> {
    "<h1>404 Not Found</h1>".spec_bytes()
}

/// The exact bytes of a response: status line, `Content-Type` and
/// `Content-Length` headers, a blank line, then the body. The length header
/// counts the body's bytes.
pub open spec fn response_bytes(status: Seq<u8>, content_type: Seq<u8>, body: Seq<u8>) -> Seq<u8> {
    status + "\r\nContent-Type: ".spec_bytes() + content_type + "\r\nContent-Length: ".spec_bytes()
        + decimal(body.len()) + "\r\n\r\n".spec_bytes() + body
}

/// Assembles the response for one `GET` request, given the MIME type the
/// resolution chose and the outcome of reading the resolved file: `Some`
/// bytes give a 200 response carrying exactly those bytes, and a failed
/// read gives a 404 response with the fixed not-found body.
pub fn respond_get(content_type: &str, file: Option<Vec<u8>>) -> (r: Vec<u8>)
    ensures
        match file {
            Some(body) => r@ == response_bytes(status_ok(), content_type.spec_bytes(), body@),
            None => r@ == response_bytes(
                status_not_found(),
                content_type.spec_bytes(),
                not_found_body(),
            ),
        },
{
    match file {
        Some(body) => build_response("HTTP/1.1 200 OK", content_type, body.as_slice()),
        None => build_response("HTTP/1.1 404 NOT FOUND", content_type, "<h1>404 Not Found</h1>".as_bytes()),
    }
}

/// What the server must do with one request line.
pub enum RequestPlan {
    /// The first line does not have exactly three tokens: log it and drop
    /// the connection without a response.
    Malformed,
    /// A well-formed line whose method is not `GET`: log it, no response
    /// is owed.
    NotGet { method: Vec<u8> },
    /// A `GET` whose path is not rooted below the output root: answer with
    /// the fixed not-found response without touching the filesystem.
    Rejected,
    /// A `GET` for a file below the output root: read the target and
    /// answer with `respond_get`.
    Get { target: Target },
}

/// Decides, from the raw request line alone, what the server must do:
/// reject a malformed line or a non-`GET` method, refuse a path that could
/// escape the output root, and otherwise name the file to read and the
/// MIME type to declare.
pub fn plan_request(line: &[u8], root: &[u8]) -> (r: RequestPlan)
    ensures
        match r {
            RequestPlan::Malformed => tokens_of(line@).len() != 3,
            RequestPlan::NotGet { method } => {
                &&& tokens_of(line@).len() == 3
                &&& method@ == tokens_of(line@)[0]
                &&& method@ != "GET".spec_bytes()
            },
            RequestPlan::Rejected => {
                &&& tokens_of(line@).len() == 3
                &&& tokens_of(line@)[0] == "GET".spec_bytes()
                &&& !path_allowed(normalize_path(tokens_of(line@)[1]))
            },
            RequestPlan::Get { target } => {
                &&& tokens_of(line@).len() == 3
                &&& tokens_of(line@)[0] == "GET".spec_bytes()
                &&& path_allowed(normalize_path(tokens_of(line@)[1]))
                &&& resolves_to(root@, tokens_of(line@)[1], target)
            },
        },
{
    let parsed = parse_request_line(line);
    match parsed {
        None => RequestPlan::Malformed,
        Some(req) => {
            if !bytes_eq(req.method.as_slice(), "GET".as_bytes()) {
                RequestPlan::NotGet { method: req.method }
            } else {
                match resolve_path(root, req.path.as_slice()) {
                    None => RequestPlan::Rejected,
                    Some(target) => RequestPlan::Get { target },
                }
            }
        },
    }
}

/// The not-found response sent without reading any file, for a path that
/// was refused.
pub fn not_found_response() -> (r: Vec<u8>)
    ensures
        r@ == response_bytes(status_not_found(), "text/html".spec_bytes(), not_found_body()),
{
    build_response("HTTP/1.1 404 NOT FOUND", "text/html", "<h1>404 Not Found</h1>".as_bytes())
}

/// Lays the response out byte for byte as `response_bytes` describes.
pub fn build_response(status: &str, content_type: &str, body: &[u8]) -> (r: Vec<u8>)
    ensures
        r@ == response_bytes(status.spec_bytes(), content_type.spec_bytes(), body@),
{
    let mut r: Vec<u8> = Vec::new();
    crate::bytes::push_bytes(&mut r, status.as_bytes());
    crate::bytes::push_bytes(&mut r, "\r\nContent-Type: ".as_bytes());
    crate::bytes::push_bytes(&mut r, content_type.as_bytes());
    crate::bytes::push_bytes(&mut r, "\r\nContent-Length: ".as_bytes());
    push_decimal(&mut r, body.len());
    crate::bytes::push_bytes(&mut r, "\r\n\r\n".as_bytes());
    crate::bytes::push_bytes(&mut r, body);
    r
}

} // verus!
