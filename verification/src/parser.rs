//! The request parser: raw bytes from a connection in, a structured
//! `Request` out. The input splits into lines at `\n` (a `\r` right
//! before the `\n` is dropped); the first line must hold a method token
//! and a path token separated by spaces, or the parse fails; the
//! following lines are kept verbatim as headers until the first blank
//! line; what follows the blank line is the body, kept only for methods
//! that carry one.
use vstd::prelude::*;

use crate::state::{views_of, Method, Request};
use crate::wire::{bytes_eq, bytes_of_str, lit_bytes};

verus! {

broadcast use vstd::string::group_string_axioms;

/// The first position at or after `pos` holding the byte `b`, if any.
pub open spec fn find_from(s: Seq<u8>, pos: int, b: u8) -> Option<int>
    decreases s.len() - pos,
{
    if pos < 0 || pos >= s.len() {
        Option::None
    } else if s[pos] == b {
        Option::Some(pos)
    } else {
        find_from(s, pos + 1, b)
    }
}

/// What `find_from` returns: the first hit at or after `pos`, or nothing
/// when no byte from `pos` on is `b`.
pub broadcast proof fn lemma_find_from(s: Seq<u8>, pos: int, b: u8)
    ensures
        0 <= pos ==> match #[trigger] find_from(s, pos, b) {
            Option::Some(i) => pos <= i < s.len() && s[i] == b && (forall|j: int|
                pos <= j < i ==> s[j] != b),
            Option::None => forall|j: int| pos <= j < s.len() ==> s[j] != b,
        },
    decreases s.len() - pos,
{
    if 0 <= pos < s.len() && s[pos] != b {
        lemma_find_from(s, pos + 1, b);
    }
}

/// A line with a trailing carriage return dropped.
pub open spec fn strip_cr(l: Seq<u8>) -> Seq<u8> {
    if l.len() > 0 && l.last() == 13u8 {
        l.drop_last()
    } else {
        l
    }
}

/// The lines of a message from position `pos` up to (not including) the
/// first blank line, or up to the end where no blank line occurs; a
/// final unterminated stretch counts as a line.
pub open spec fn msg_lines(s: Seq<u8>, pos: int) -> Seq<Seq<u8>>
    decreases s.len() - pos,
    via msg_lines_dec
{
    if pos < 0 || pos >= s.len() {
        seq![]
    } else {
        match find_from(s, pos, 10u8) {
            Option::Some(i) => {
                let line = strip_cr(s.subrange(pos, i));
                if line.len() == 0 {
                    seq![]
                } else {
                    seq![line] + msg_lines(s, i + 1)
                }
            },
            Option::None => seq![s.subrange(pos, s.len() as int)],
        }
    }
}

#[via_fn]
proof fn msg_lines_dec(s: Seq<u8>, pos: int) {
    broadcast use lemma_find_from;

}

/// The bytes after the blank line that ends the header block, or nothing
/// when no blank line occurs from `pos` on.
pub open spec fn msg_rest(s: Seq<u8>, pos: int) -> Option<Seq<u8>>
    decreases s.len() - pos,
    via msg_rest_dec
{
    if pos < 0 || pos >= s.len() {
        Option::None
    } else {
        match find_from(s, pos, 10u8) {
            Option::Some(i) => {
                let line = strip_cr(s.subrange(pos, i));
                if line.len() == 0 {
                    Option::Some(s.subrange(i + 1, s.len() as int))
                } else {
                    msg_rest(s, i + 1)
                }
            },
            Option::None => Option::None,
        }
    }
}

#[via_fn]
proof fn msg_rest_dec(s: Seq<u8>, pos: int) {
    broadcast use lemma_find_from;

}

/// The parse succeeds: there is a request line, and it holds at least
/// two space-separated tokens.
pub open spec fn parse_ok(s: Seq<u8>) -> bool {
    msg_lines(s, 0).len() > 0 && find_from(msg_lines(s, 0)[0], 0, 32u8) is Some
}

/// The method token of the request line: everything before the first
/// space.
pub open spec fn method_token(s: Seq<u8>) -> Seq<u8>
    recommends
        parse_ok(s),
{
    let l = msg_lines(s, 0)[0];
    l.take(find_from(l, 0, 32u8)->Some_0)
}

/// The path token of the request line: everything between the first
/// space and the next space (or the end of the line).
pub open spec fn path_of(s: Seq<u8>) -> Seq<u8>
    recommends
        parse_ok(s),
{
    let l = msg_lines(s, 0)[0];
    let i = find_from(l, 0, 32u8)->Some_0;
    match find_from(l, i + 1, 32u8) {
        Option::Some(j) => l.subrange(i + 1, j),
        Option::None => l.subrange(i + 1, l.len() as int),
    }
}

/// The header lines: every line after the request line.
pub open spec fn header_lines(s: Seq<u8>) -> Seq<Seq<u8>>
    recommends
        parse_ok(s),
{
    msg_lines(s, 0).drop_first()
}

/// The method a request-line token maps to; tokens outside the closed
/// set map to `UNKNOWN`.
pub open spec fn method_of_token(t: Seq<u8>) -> Method {
    if t == bytes_of_str("GET"@) {
        Method::GET
    } else if t == bytes_of_str("POST"@) {
        Method::POST
    } else if t == bytes_of_str("PUT"@) {
        Method::PUT
    } else if t == bytes_of_str("DELETE"@) {
        Method::DELETE
    } else if t == bytes_of_str("OPTIONS"@) {
        Method::OPTIONS
    } else {
        Method::UNKNOWN
    }
}

/// The method carries a request body.
pub open spec fn carries_body(m: Method) -> bool {
    m == Method::POST || m == Method::PUT
}

/// The body of a message: the bytes after the blank line, kept only
/// when they are not empty and the method carries a body.
pub open spec fn body_of(s: Seq<u8>) -> Option<Seq<u8>>
    recommends
        parse_ok(s),
{
    if carries_body(method_of_token(method_token(s))) {
        match msg_rest(s, 0) {
            Option::Some(r) => if r.len() > 0 {
                Option::Some(r)
            } else {
                Option::None
            },
            Option::None => Option::None,
        }
    } else {
        Option::None
    }
}

/// `req` is exactly what parsing `s` yields: the method from the first
/// token, the path from the second, every header line verbatim and in
/// order, and the body exactly when one is owed.
pub open spec fn request_matches(s: Seq<u8>, req: Request) -> bool {
    &&& req.method == method_of_token(method_token(s))
    &&& req.path@ == path_of(s)
    &&& req.headers@.len() == header_lines(s).len()
    &&& (forall|i: int|
        0 <= i < header_lines(s).len() ==> #[trigger] req.headers@[i]@ == header_lines(s)[i])
    &&& (req.body is Some <==> body_of(s) is Some)
    &&& (req.body is Some ==> req.body->Some_0@ == body_of(s)->Some_0)
}

/// Finds the first `b` in `s` at or after `from`.
fn find_byte(s: &[u8], from: usize, b: u8) -> (r: Option<usize>)
    ensures
        match r {
            Option::Some(i) => find_from(s@, from as int, b) == Option::Some(i as int),
            Option::None => find_from(s@, from as int, b) is None,
        },
{
    let mut i: usize = from;
    while i < s.len()
        invariant
            from <= i,
            i <= s@.len() || i == from,
            find_from(s@, from as int, b) == find_from(s@, i as int, b),
        decreases s@.len() - i,
    {
        if s[i] == b {
            return Some(i);
        }
        i += 1;
    }
    None
}

/// Copies `s[a..b]` into a fresh vector.
fn copy_range(s: &[u8], a: usize, b: usize) -> (r: Vec<u8>)
    requires
        a <= b <= s@.len(),
    ensures
        r@ == s@.subrange(a as int, b as int),
{
    let mut r: Vec<u8> = Vec::new();
    let mut i: usize = a;
    while i < b
        invariant
            a <= i <= b <= s@.len(),
            r@ == s@.subrange(a as int, i as int),
        decreases b - i,
    {
        r.push(s[i]);
        proof {
            assert(r@ =~= s@.subrange(a as int, i + 1 as int));
        }
        i += 1;
    }
    r
}

/// Maps a request-line token to its method.
fn method_of_bytes(t: &Vec<u8>) -> (m: Method)
    ensures
        m == method_of_token(t@),
{
    proof {
        reveal_strlit("GET");
        reveal_strlit("POST");
        reveal_strlit("PUT");
        reveal_strlit("DELETE");
        reveal_strlit("OPTIONS");
    }
    if bytes_eq(t, &lit_bytes("GET")) {
        Method::GET
    } else if bytes_eq(t, &lit_bytes("POST")) {
        Method::POST
    } else if bytes_eq(t, &lit_bytes("PUT")) {
        Method::PUT
    } else if bytes_eq(t, &lit_bytes("DELETE")) {
        Method::DELETE
    } else if bytes_eq(t, &lit_bytes("OPTIONS")) {
        Method::OPTIONS
    } else {
        Method::UNKNOWN
    }
}

/// Parses the raw bytes of one connection's read into a request; yields
/// nothing exactly when the request line is missing or holds fewer than
/// two space-separated tokens.
pub fn parse_request(input: &[u8]) -> (r: Option<Request>)
    ensures
        r is Some <==> parse_ok(input@),
        r is Some ==> request_matches(input@, r->Some_0),
{
    broadcast use lemma_find_from;

    let ghost s = input@;
    let n = input.len();
    let mut pos: usize = 0;
    let mut lines: Vec<Vec<u8>> = Vec::new();
    let mut rest: Option<Vec<u8>> = None;
    let mut running = true;
    while running
        invariant
            n == s.len(),
            input@ == s,
            0 <= pos <= n,
            running ==> msg_lines(s, 0) =~= views_of(lines@) + msg_lines(
                s,
                pos as int,
            ),
            running ==> msg_rest(s, 0) == msg_rest(s, pos as int),
            running ==> rest is None,
            !running ==> msg_lines(s, 0) =~= views_of(lines@),
            !running ==> (match (msg_rest(s, 0), rest) {
                (Option::Some(a), Option::Some(v)) => a == v@,
                (Option::None, Option::None) => true,
                _ => false,
            }),
        decreases (if running {
            1int
        } else {
            0int
        }), n - pos,
    {
        if pos >= n {
            running = false;
            proof {
                assert(msg_lines(s, 0) =~= views_of(lines@));
            }
        } else {
            match find_byte(input, pos, 10u8) {
                None => {
                    let line = copy_range(input, pos, n);
                    proof {
                        assert(msg_lines(s, pos as int) =~= seq![line@]);
                        assert(views_of(lines@.push(line)) =~= views_of(
                            lines@,
                        ) + seq![line@]);
                    }
                    lines.push(line);
                    running = false;
                },
                Some(i) => {
                    proof {
                        lemma_find_from(s, pos as int, 10u8);
                        assert(pos <= i < n);
                    }
                    let end = if i > pos && input[i - 1] == 13u8 {
                        i - 1
                    } else {
                        i
                    };
                    let line = copy_range(input, pos, end);
                    proof {
                        let raw = s.subrange(pos as int, i as int);
                        if i > pos && s[i - 1] == 13u8 {
                            assert(raw.len() > 0 && raw.last() == 13u8);
                            assert(line@ =~= raw.drop_last());
                        } else {
                            assert(line@ =~= raw);
                        }
                        assert(line@ == strip_cr(raw));
                    }
                    if line.len() == 0 {
                        let after = copy_range(input, i + 1, n);
                        proof {
                            assert(msg_rest(s, pos as int) == Option::Some(after@));
                            assert(msg_lines(s, pos as int) =~= Seq::<Seq<u8>>::empty());
                        }
                        rest = Some(after);
                        running = false;
                    } else {
                        proof {
                            assert(msg_lines(s, pos as int) =~= seq![line@] + msg_lines(
                                s,
                                i + 1 as int,
                            ));
                            assert(views_of(lines@.push(line))
                                =~= views_of(lines@) + seq![line@]);
                        }
                        lines.push(line);
                        pos = i + 1;
                    }
                },
            }
        }
    }
    if lines.len() == 0 {
        proof {
            assert(!parse_ok(s));
        }
        return None;
    }
    let first = lines.remove(0);
    let ghost headers_spec = header_lines(s);
    proof {
        assert(first@ == msg_lines(s, 0)[0]);
        assert(lines@.len() == headers_spec.len());
        assert(forall|i: int|
            0 <= i < headers_spec.len() ==> #[trigger] lines@[i]@ == headers_spec[i]);
    }
    let sp = match find_byte(first.as_slice(), 0, 32u8) {
        None => {
            proof {
                assert(!parse_ok(s));
            }
            return None;
        },
        Some(i) => i,
    };
    proof {
        assert(parse_ok(s));
    }
    let method_tok = copy_range(first.as_slice(), 0, sp);
    proof {
        assert(method_tok@ =~= method_token(s));
    }
    let method = method_of_bytes(&method_tok);
    let line_len = first.len();
    let path_end = match find_byte(first.as_slice(), sp + 1, 32u8) {
        None => line_len,
        Some(j) => j,
    };
    let path = copy_range(first.as_slice(), sp + 1, path_end);
    proof {
        assert(path@ == path_of(s));
    }
    let body: Option<Vec<u8>> = match rest {
        Some(rv) => {
            if (method == Method::POST || method == Method::PUT) && rv.len() > 0 {
                Some(rv)
            } else {
                None
            }
        },
        None => None,
    };
    let req = Request { method, path, headers: lines, body };
    proof {
        assert(request_matches(s, req));
    }
    Some(req)
}

} // verus!
