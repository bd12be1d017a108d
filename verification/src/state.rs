//! The wire types: methods, statuses, content types, requests and
//! responses, and the staged builder that turns content plus settings
//! into a finished response whose header block carries exactly one
//! status line, one `Content-Type` and one `Content-Length`.
use vstd::prelude::*;

use crate::wire::{bytes_of_str, dec_bytes, dec_of, has_prefix, lit_bytes, push_all};

verus! {

broadcast use vstd::string::group_string_axioms;

/// A request method. Tokens outside the closed set map to `UNKNOWN`
/// rather than failing the parse.
#[derive(Clone, Copy, PartialEq, Eq, Structural, Debug)]
pub enum Method {
    GET,
    POST,
    PUT,
    DELETE,
    OPTIONS,
    UNKNOWN,
}

/// A response status; each variant has a fixed code and reason phrase.
#[derive(Clone, Copy, PartialEq, Eq, Structural, Debug)]
pub enum Status {
    OK,
    NotFound,
    BadRequest,
    InternalServerError,
    NotImplemented,
}

/// A response content type; each variant resolves to a fixed MIME string.
#[derive(Clone, Copy, PartialEq, Eq, Structural, Debug)]
pub enum ContentType {
    Text,
    Html,
    Css,
    Js,
    Json,
}

/// A parsed request: the method and path from the request line, the raw
/// header lines in wire order, and the raw leftover bytes as the body
/// where the method carries one.
pub struct Request {
    pub method: Method,
    pub path: Vec<u8>,
    pub headers: Vec<Vec<u8>>,
    pub body: Option<Vec<u8>>,
}

/// A finished response: its content, the resolved MIME string, the
/// status, and the full header block (status line first, then any custom
/// headers, then `Content-Type` and `Content-Length`).
pub struct Response {
    pub content: Vec<u8>,
    pub content_type: Vec<u8>,
    pub status_code: Status,
    pub headers: Vec<Vec<u8>>,
}

/// The staged configuration for a response: content is fixed at the
/// start, the rest accumulates until `build`.
pub struct ResponseBuilder {
    content: Vec<u8>,
    content_type: Option<ContentType>,
    status_code: Status,
    headers: Vec<Vec<u8>>,
}

/// The MIME string a content type resolves to.
pub open spec fn mime_of(t: ContentType) -> Seq<u8> {
    match t {
        ContentType::Text => bytes_of_str("text/plain"@),
        ContentType::Html => bytes_of_str("text/html"@),
        ContentType::Css => bytes_of_str("text/css"@),
        ContentType::Js => bytes_of_str("text/javascript"@),
        ContentType::Json => bytes_of_str("application/json"@),
    }
}

/// The MIME string for an optional content type: `Text` when unset.
pub open spec fn resolved_mime(t: Option<ContentType>) -> Seq<u8> {
    match t {
        Option::Some(ct) => mime_of(ct),
        Option::None => mime_of(ContentType::Text),
    }
}

/// The code and reason phrase of a status.
pub open spec fn status_str(s: Status) -> Seq<u8> {
    match s {
        Status::OK => bytes_of_str("200 OK"@),
        Status::NotFound => bytes_of_str("404 Not Found"@),
        Status::BadRequest => bytes_of_str("400 Bad Request"@),
        Status::InternalServerError => bytes_of_str("500 Internal Server Error"@),
        Status::NotImplemented => bytes_of_str("501 Not Implemented"@),
    }
}

/// The prefix every status line starts with.
pub open spec fn status_line_prefix() -> Seq<u8> {
    bytes_of_str("HTTP/1.1 "@)
}

/// The prefix of the synthesized `Content-Type` header.
pub open spec fn content_type_prefix() -> Seq<u8> {
    bytes_of_str("Content-Type: "@)
}

/// The prefix of the synthesized `Content-Length` header.
pub open spec fn content_length_prefix() -> Seq<u8> {
    bytes_of_str("Content-Length: "@)
}

/// The status line for a status: `HTTP/1.1 <code> <reason>`.
pub open spec fn status_line(s: Status) -> Seq<u8> {
    status_line_prefix() + status_str(s)
}

/// The synthesized `Content-Type` header for a MIME string.
pub open spec fn content_type_header(mime: Seq<u8>) -> Seq<u8> {
    content_type_prefix() + mime
}

/// The synthesized `Content-Length` header for a content byte length.
pub open spec fn content_length_header(n: nat) -> Seq<u8> {
    content_length_prefix() + dec_of(n)
}

/// What `build` promises of a response `r` made from content `content`,
/// content type `ct`, status `st` and custom headers `hs`: the content
/// is kept, the content type resolves to its MIME string (`Text` when
/// unset), and the header block is the status line, then the custom
/// headers in order, then `Content-Type` and `Content-Length`, the
/// latter carrying the byte length of the content in decimal.
pub open spec fn built_from(
    content: Seq<u8>,
    ct: Option<ContentType>,
    st: Status,
    hs: Seq<Vec<u8>>,
    r: Response,
) -> bool {
    &&& r.content@ == content
    &&& r.content_type@ == resolved_mime(ct)
    &&& r.status_code == st
    &&& r.headers@.len() == hs.len() + 3
    &&& r.headers@[0]@ == status_line(st)
    &&& (forall|i: int| 0 <= i < hs.len() ==> r.headers@[i + 1]@ == #[trigger] hs[i]@)
    &&& r.headers@[hs.len() as int + 1]@ == content_type_header(resolved_mime(ct))
    &&& r.headers@[hs.len() as int + 2]@ == content_length_header(content.len())
}

/// The byte views of a sequence of byte vectors.
pub open spec fn views_of(hs: Seq<Vec<u8>>) -> Seq<Seq<u8>> {
    Seq::new(hs.len(), |i: int| hs[i]@)
}

/// A header block joined for the wire: every line followed by the CRLF
/// line terminator.
pub open spec fn joined_lines(hs: Seq<Seq<u8>>) -> Seq<u8>
    decreases hs.len(),
{
    if hs.len() == 0 {
        Seq::<u8>::empty()
    } else {
        joined_lines(hs.drop_last()) + hs.last() + seq![13u8, 10u8]
    }
}

/// The exact bytes a response puts on the wire: the joined header block,
/// a blank line, then the content, every line ending in CRLF.
pub open spec fn serialized(r: Response) -> Seq<u8> {
    joined_lines(views_of(r.headers@)) + seq![13u8, 10u8] + r.content@
}

/// Every built response declares as `Content-Length` exactly the byte
/// length of its content, in its last header.
pub proof fn lemma_content_length_is_content_len(
    content: Seq<u8>,
    ct: Option<ContentType>,
    st: Status,
    hs: Seq<Vec<u8>>,
    r: Response,
)
    requires
        built_from(content, ct, st, hs, r),
    ensures
        r.headers@.len() > 0,
        r.headers@.last()@ == content_length_prefix() + dec_of(r.content@.len()),
{
    assert(r.headers@.last() == r.headers@[hs.len() as int + 2]);
}

/// Every built response holds exactly one status line, one
/// `Content-Type` header and one `Content-Length` header, in that
/// order: the status line first, the two synthesized headers right
/// after the custom headers — as long as no custom header itself starts
/// with one of those three prefixes.
pub proof fn lemma_header_block_exactly_one(
    content: Seq<u8>,
    ct: Option<ContentType>,
    st: Status,
    hs: Seq<Vec<u8>>,
    r: Response,
)
    requires
        built_from(content, ct, st, hs, r),
        forall|i: int| 0 <= i < hs.len() ==> !has_prefix(#[trigger] hs[i]@, status_line_prefix())
            && !has_prefix(hs[i]@, content_type_prefix()) && !has_prefix(
            hs[i]@,
            content_length_prefix(),
        ),
    ensures
        forall|i: int|
            0 <= i < r.headers@.len() ==> (has_prefix(
                #[trigger] r.headers@[i]@,
                status_line_prefix(),
            ) <==> i == 0),
        forall|i: int|
            0 <= i < r.headers@.len() ==> (has_prefix(
                #[trigger] r.headers@[i]@,
                content_type_prefix(),
            ) <==> i == hs.len() + 1),
        forall|i: int|
            0 <= i < r.headers@.len() ==> (has_prefix(
                #[trigger] r.headers@[i]@,
                content_length_prefix(),
            ) <==> i == hs.len() + 2),
{
    reveal_strlit("HTTP/1.1 ");
    reveal_strlit("Content-Type: ");
    reveal_strlit("Content-Length: ");
    let sp = status_line_prefix();
    let ctp = content_type_prefix();
    let clp = content_length_prefix();
    let sl = r.headers@[0]@;
    let cth = r.headers@[hs.len() as int + 1]@;
    let clh = r.headers@[hs.len() as int + 2]@;
    assert(has_prefix(sl, sp)) by {
        assert(sl.take(sp.len() as int) =~= sp);
    }
    assert(has_prefix(cth, ctp)) by {
        assert(cth.take(ctp.len() as int) =~= ctp);
    }
    assert(has_prefix(clh, clp)) by {
        assert(clh.take(clp.len() as int) =~= clp);
    }
    // The three synthesized lines start with three distinct prefixes:
    // compare one byte under each wrong prefix.
    assert(!has_prefix(sl, ctp) && !has_prefix(sl, clp)) by {
        assert(sl[0] == 'H' as u8);
    }
    assert(!has_prefix(cth, sp)) by {
        assert(cth[0] == 'C' as u8 && sp[0] == 'H' as u8);
    }
    assert(!has_prefix(clh, sp)) by {
        assert(clh[0] == 'C' as u8 && sp[0] == 'H' as u8);
    }
    assert(!has_prefix(cth, clp)) by {
        assert(cth[8] == 'T' as u8 && clp[8] == 'L' as u8);
    }
    assert(!has_prefix(clh, ctp)) by {
        assert(clh[8] == 'L' as u8 && ctp[8] == 'T' as u8);
    }
    assert forall|i: int| 0 <= i < r.headers@.len() implies (has_prefix(
        #[trigger] r.headers@[i]@,
        status_line_prefix(),
    ) <==> i == 0) && (has_prefix(r.headers@[i]@, content_type_prefix()) <==> i == hs.len() + 1)
        && (has_prefix(r.headers@[i]@, content_length_prefix()) <==> i == hs.len() + 2) by {
        if 1 <= i && i <= hs.len() {
            assert(r.headers@[i]@ == hs[i - 1]@);
            assert(!has_prefix(hs[i - 1]@, sp));
            assert(!has_prefix(hs[i - 1]@, ctp));
            assert(!has_prefix(hs[i - 1]@, clp));
        }
    }
}

/// Builds from the same inputs serialize to byte-identical output.
pub proof fn lemma_build_deterministic(
    content: Seq<u8>,
    ct: Option<ContentType>,
    st: Status,
    hs: Seq<Vec<u8>>,
    r1: Response,
    r2: Response,
)
    requires
        built_from(content, ct, st, hs, r1),
        built_from(content, ct, st, hs, r2),
    ensures
        serialized(r1) == serialized(r2),
{
    assert forall|i: int| 0 <= i < r1.headers@.len() implies #[trigger] r1.headers@[i]@
        == r2.headers@[i]@ by {
        if 1 <= i && i <= hs.len() {
            assert(r1.headers@[i]@ == hs[i - 1]@);
            assert(r2.headers@[i]@ == hs[i - 1]@);
        }
    }
    assert(views_of(r1.headers@) =~= views_of(r2.headers@));
}

impl Response {
    /// Starts a builder around the given content, with status `Ok`, no
    /// content type and no custom headers.
    pub fn new(content: Vec<u8>) -> (b: ResponseBuilder)
        ensures
            b@ == (BuilderView {
                content: content@,
                content_type: Option::<ContentType>::None,
                status_code: Status::OK,
                headers: Seq::<Vec<u8>>::empty(),
            }),
    {
        let b = ResponseBuilder {
            content,
            content_type: None,
            status_code: Status::OK,
            headers: Vec::new(),
        };
        proof {
            assert(b@.headers =~= Seq::<Vec<u8>>::empty());
        }
        b
    }

    /// Serializes the response for the wire: every header line followed
    /// by the CRLF line terminator, then a blank line, then the content.
    pub fn send(self) -> (out: Vec<u8>)
        ensures
            out@ == serialized(self),
    {
        let mut out: Vec<u8> = Vec::new();
        let mut i: usize = 0;
        while i < self.headers.len()
            invariant
                0 <= i <= self.headers@.len(),
                out@ == joined_lines(views_of(self.headers@.take(i as int))),
            decreases self.headers@.len() - i,
        {
            push_all(&mut out, &self.headers[i]);
            out.push(13u8);
            out.push(10u8);
            proof {
                let v = views_of(self.headers@.take(i + 1 as int));
                assert(v.drop_last() =~= views_of(self.headers@.take(i as int)));
                assert(v.last() == self.headers@[i as int]@);
                assert(out@ =~= joined_lines(v.drop_last()) + v.last() + seq![13u8, 10u8]);
            }
            i += 1;
        }
        proof {
            assert(self.headers@.take(self.headers@.len() as int) =~= self.headers@);
        }
        out.push(13u8);
        out.push(10u8);
        push_all(&mut out, &self.content);
        proof {
            assert(out@ =~= serialized(self));
        }
        out
    }
}

/// The spec-level value of a builder.
pub struct BuilderView {
    pub content: Seq<u8>,
    pub content_type: Option<ContentType>,
    pub status_code: Status,
    pub headers: Seq<Vec<u8>>,
}

impl View for ResponseBuilder {
    type V = BuilderView;

    closed spec fn view(&self) -> BuilderView {
        BuilderView {
            content: self.content@,
            content_type: self.content_type,
            status_code: self.status_code,
            headers: self.headers@,
        }
    }
}

impl ResponseBuilder {
    /// Sets the content type; the last call before `build` wins.
    pub fn set_content_type(self, content_type: ContentType) -> (r: Self)
        ensures
            r@ == (BuilderView { content_type: Option::Some(content_type), ..self@ }),
    {
        ResponseBuilder { content_type: Some(content_type), ..self }
    }

    /// Sets the status; the last call before `build` wins.
    pub fn set_status_code(self, status_code: Status) -> (r: Self)
        ensures
            r@ == (BuilderView { status_code: status_code, ..self@ }),
    {
        ResponseBuilder { status_code, ..self }
    }

    /// Appends a custom header line, kept verbatim and in order.
    pub fn add_header(self, header: Vec<u8>) -> (r: Self)
        ensures
            r@ == (BuilderView { headers: self@.headers.push(header), ..self@ }),
    {
        let mut s = self;
        s.headers.push(header);
        s
    }

    /// Finalizes the response; see `built_from` for the full promise.
    pub fn build(self) -> (r: Response)
        ensures
            built_from(self@.content, self@.content_type, self@.status_code, self@.headers, r),
    {
        let ResponseBuilder { content, content_type, status_code, headers } = self;
        let mime: Vec<u8> = match content_type {
            Some(t) => match t {
                ContentType::Text => {
                    proof {
                        reveal_strlit("text/plain");
                    }
                    lit_bytes("text/plain")
                },
                ContentType::Html => {
                    proof {
                        reveal_strlit("text/html");
                    }
                    lit_bytes("text/html")
                },
                ContentType::Css => {
                    proof {
                        reveal_strlit("text/css");
                    }
                    lit_bytes("text/css")
                },
                ContentType::Js => {
                    proof {
                        reveal_strlit("text/javascript");
                    }
                    lit_bytes("text/javascript")
                },
                ContentType::Json => {
                    proof {
                        reveal_strlit("application/json");
                    }
                    lit_bytes("application/json")
                },
            },
            None => {
                proof {
                    reveal_strlit("text/plain");
                }
                lit_bytes("text/plain")
            },
        };
        let status_s: Vec<u8> = match status_code {
            Status::OK => {
                proof {
                    reveal_strlit("200 OK");
                }
                lit_bytes("200 OK")
            },
            Status::NotFound => {
                proof {
                    reveal_strlit("404 Not Found");
                }
                lit_bytes("404 Not Found")
            },
            Status::BadRequest => {
                proof {
                    reveal_strlit("400 Bad Request");
                }
                lit_bytes("400 Bad Request")
            },
            Status::InternalServerError => {
                proof {
                    reveal_strlit("500 Internal Server Error");
                }
                lit_bytes("500 Internal Server Error")
            },
            Status::NotImplemented => {
                proof {
                    reveal_strlit("501 Not Implemented");
                }
                lit_bytes("501 Not Implemented")
            },
        };
        proof {
            reveal_strlit("HTTP/1.1 ");
            reveal_strlit("Content-Type: ");
            reveal_strlit("Content-Length: ");
        }
        let mut status_l = lit_bytes("HTTP/1.1 ");
        push_all(&mut status_l, &status_s);
        let ghost custom = headers@;
        let mut all_headers = headers;
        all_headers.insert(0, status_l);
        let mut ct_line = lit_bytes("Content-Type: ");
        push_all(&mut ct_line, &mime);
        all_headers.push(ct_line);
        let mut cl_line = lit_bytes("Content-Length: ");
        let digits = dec_bytes(content.len());
        push_all(&mut cl_line, &digits);
        all_headers.push(cl_line);
        Response { content, content_type: mime, status_code, headers: all_headers }
    }
}

} // verus!
