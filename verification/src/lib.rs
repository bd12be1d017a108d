//! A small verified HTTP/1.1 core: wire types, a response builder, a
//! request parser and a router, all working on plain bytes. The pieces
//! that touch sockets or files live outside this crate and call into it
//! with the bytes they read and the bytes they must write.
pub mod parser;
pub mod state;
pub mod wire;

pub use state::{ContentType, Method, Request, Response, ResponseBuilder, Status};

use vstd::prelude::*;

use crate::wire::bytes_eq;

verus! {

/// The shape of the response a missed dispatch yields: a build of empty
/// content with status `NotFound` and content type `Text`.
pub open spec fn not_found_response(r: Response) -> bool {
    state::built_from(
        Seq::<u8>::empty(),
        Option::Some(ContentType::Text),
        Status::NotFound,
        Seq::<Vec<u8>>::empty(),
        r,
    )
}

/// The handler a route table holds for a path: the last registration
/// for that exact path wins, and no other path matches.
pub open spec fn lookup_spec<H>(t: Seq<(Vec<u8>, H)>, p: Seq<u8>) -> Option<H>
    decreases t.len(),
{
    if t.len() == 0 {
        Option::None
    } else if t.last().0@ == p {
        Option::Some(t.last().1)
    } else {
        lookup_spec(t.drop_last(), p)
    }
}

/// A missed dispatch yields the exact wire shape of a `404`: the
/// status line `HTTP/1.1 404 Not Found`, a `text/plain` content type,
/// a zero content length and no content.
pub proof fn lemma_not_found_shape(r: Response)
    requires
        not_found_response(r),
    ensures
        r.content@ == Seq::<u8>::empty(),
        r.headers@.len() == 3,
        r.headers@[0]@ == wire::bytes_of_str("HTTP/1.1 404 Not Found"@),
        r.headers@[1]@ == wire::bytes_of_str("Content-Type: text/plain"@),
        r.headers@[2]@ == wire::bytes_of_str("Content-Length: 0"@),
{
    reveal_strlit("HTTP/1.1 ");
    reveal_strlit("404 Not Found");
    reveal_strlit("HTTP/1.1 404 Not Found");
    reveal_strlit("Content-Type: ");
    reveal_strlit("text/plain");
    reveal_strlit("Content-Type: text/plain");
    reveal_strlit("Content-Length: ");
    reveal_strlit("Content-Length: 0");
    assert(r.headers@[0]@ =~= wire::bytes_of_str("HTTP/1.1 404 Not Found"@));
    assert(r.headers@[1]@ =~= wire::bytes_of_str("Content-Type: text/plain"@));
    assert(r.headers@[2]@ =~= wire::bytes_of_str("Content-Length: 0"@));
}

/// A handler registered under POST is never invoked by a GET request to
/// the same path: the registration leaves the GET table unchanged, so a
/// GET dispatch of that path still misses it, and `route`'s contract
/// (its GET clause, restated here as the hypothesis on `resp`) then
/// forces the not-found response.
pub proof fn lemma_method_isolation<G: Fn() -> Response, P: Fn(Request) -> Response>(
    before: ServerBuilder<G, P>,
    after: ServerBuilder<G, P>,
    path: Vec<u8>,
    handler: P,
    resp: Response,
)
    requires
        after.get_table() == before.get_table(),
        after.post_table() == before.post_table().push((path, handler)),
        lookup_spec(before.get_table(), path@) is None,
        match lookup_spec(after.get_table(), path@) {
            Option::Some(h) => call_ensures(h, (), resp),
            Option::None => not_found_response(resp),
        },
    ensures
        not_found_response(resp),
{
}

/// A found handler is one of the table's entries.
pub proof fn lemma_lookup_in_table<H>(t: Seq<(Vec<u8>, H)>, p: Seq<u8>)
    requires
        lookup_spec(t, p) is Some,
    ensures
        exists|i: int| 0 <= i < t.len() && #[trigger] t[i].1 == lookup_spec(t, p)->Some_0,
    decreases t.len(),
{
    if t.last().0@ == p {
        assert(t[t.len() - 1].1 == lookup_spec(t, p)->Some_0);
    } else {
        lemma_lookup_in_table(t.drop_last(), p);
        let i = choose|i: int|
            0 <= i < t.drop_last().len() && #[trigger] t.drop_last()[i].1 == lookup_spec(
                t.drop_last(),
                p,
            )->Some_0;
        assert(t[i].1 == lookup_spec(t, p)->Some_0);
    }
}

/// The route tables and bind address a server is configured with: one
/// table of zero-argument handlers for GET, one table of
/// request-consuming handlers for POST. Other methods have no table.
pub struct ServerBuilder<G, P> {
    pub address: String,
    pub get: Vec<(Vec<u8>, G)>,
    pub post: Vec<(Vec<u8>, P)>,
}

/// Builds a response for a missed dispatch: empty content, status
/// `NotFound`, content type `Text`.
pub fn not_found() -> (r: Response)
    ensures
        not_found_response(r),
{
    let content: Vec<u8> = Vec::new();
    proof {
        assert(content@ =~= Seq::<u8>::empty());
    }
    let b = Response::new(content);
    let b = b.set_status_code(Status::NotFound);
    let b = b.set_content_type(ContentType::Text);
    b.build()
}

/// Starts a server configuration with the given bind address and no
/// routes.
pub fn build<G, P>(address: String) -> (r: ServerBuilder<G, P>)
    ensures
        r.address == address,
        r.get_table() == Seq::<(Vec<u8>, G)>::empty(),
        r.post_table() == Seq::<(Vec<u8>, P)>::empty(),
{
    let r = ServerBuilder { address, get: Vec::new(), post: Vec::new() };
    proof {
        assert(r.get_table() =~= Seq::<(Vec<u8>, G)>::empty());
        assert(r.post_table() =~= Seq::<(Vec<u8>, P)>::empty());
    }
    r
}

/// Scans a route table for the exact path, last registration first.
fn table_lookup<'a, H>(t: &'a Vec<(Vec<u8>, H)>, p: &Vec<u8>) -> (r: Option<&'a H>)
    ensures
        match r {
            Option::Some(h) => lookup_spec(t@, p@) == Option::Some(*h),
            Option::None => lookup_spec(t@, p@) is None,
        },
{
    let mut i: usize = t.len();
    proof {
        assert(t@.take(i as int) =~= t@);
    }
    while i > 0
        invariant
            0 <= i <= t@.len(),
            lookup_spec(t@, p@) == lookup_spec(t@.take(i as int), p@),
        decreases i,
    {
        i -= 1;
        proof {
            assert(t@.take(i + 1 as int).last() == t@[i as int]);
            assert(t@.take(i + 1 as int).drop_last() =~= t@.take(i as int));
        }
        if bytes_eq(&t[i].0, p) {
            return Some(&t[i].1);
        }
    }
    None
}

impl<G, P> ServerBuilder<G, P> {
    /// The GET route table, in registration order.
    pub open spec fn get_table(&self) -> Seq<(Vec<u8>, G)> {
        self.get@
    }

    /// The POST route table, in registration order.
    pub open spec fn post_table(&self) -> Seq<(Vec<u8>, P)> {
        self.post@
    }

    /// Registers a GET handler for the exact path; a later registration
    /// for the same path replaces it, and every other path is untouched.
    pub fn get(self, path: Vec<u8>, handler: G) -> (r: Self)
        ensures
            r.address == self.address,
            r.post_table() == self.post_table(),
            r.get_table() == self.get_table().push((path, handler)),
            lookup_spec(r.get_table(), path@) == Option::Some(handler),
            forall|q: Seq<u8>| q != path@ ==> #[trigger] lookup_spec(r.get_table(), q)
                == lookup_spec(self.get_table(), q),
    {
        let ghost old_table = self.get@;
        let mut s = self;
        s.get.push((path, handler));
        proof {
            assert(s.get@.drop_last() =~= old_table);
            assert forall|q: Seq<u8>| q != s.get@.last().0@ implies #[trigger] lookup_spec(
                s.get@,
                q,
            ) == lookup_spec(old_table, q) by {
                assert(s.get@.drop_last() =~= old_table);
            }
        }
        s
    }

    /// Registers a POST handler for the exact path; a later registration
    /// for the same path replaces it, and every other path is untouched.
    pub fn post(self, path: Vec<u8>, handler: P) -> (r: Self)
        ensures
            r.address == self.address,
            r.get_table() == self.get_table(),
            r.post_table() == self.post_table().push((path, handler)),
            lookup_spec(r.post_table(), path@) == Option::Some(handler),
            forall|q: Seq<u8>| q != path@ ==> #[trigger] lookup_spec(r.post_table(), q)
                == lookup_spec(self.post_table(), q),
    {
        let ghost old_table = self.post@;
        let mut s = self;
        s.post.push((path, handler));
        proof {
            assert(s.post@.drop_last() =~= old_table);
            assert forall|q: Seq<u8>| q != s.post@.last().0@ implies #[trigger] lookup_spec(
                s.post@,
                q,
            ) == lookup_spec(old_table, q) by {
                assert(s.post@.drop_last() =~= old_table);
            }
        }
        s
    }
}

impl<G: Fn() -> Response, P: Fn(Request) -> Response> ServerBuilder<G, P> {
    /// Selects and invokes the handler for the request: a GET looks only
    /// in the GET table, a POST only in the POST table (and hands the
    /// request to the handler), any other method and any miss yield the
    /// `NotFound` response.
    pub fn route(&self, request: Request) -> (resp: Response)
        requires
            forall|i: int| 0 <= i < self.get_table().len() ==> call_requires(
                #[trigger] self.get_table()[i].1,
                (),
            ),
            forall|i: int| 0 <= i < self.post_table().len() ==> call_requires(
                #[trigger] self.post_table()[i].1,
                (request,),
            ),
        ensures
            request.method == Method::GET ==> match lookup_spec(
                self.get_table(),
                request.path@,
            ) {
                Option::Some(h) => call_ensures(h, (), resp),
                Option::None => not_found_response(resp),
            },
            request.method == Method::POST ==> match lookup_spec(
                self.post_table(),
                request.path@,
            ) {
                Option::Some(h) => call_ensures(h, (request,), resp),
                Option::None => not_found_response(resp),
            },
            request.method != Method::GET && request.method != Method::POST
                ==> not_found_response(resp),
    {
        match request.method {
            Method::GET => {
                match table_lookup(&self.get, &request.path) {
                    Some(h) => {
                        proof {
                            lemma_lookup_in_table(self.get@, request.path@);
                        }
                        h()
                    },
                    None => not_found(),
                }
            },
            Method::POST => {
                match table_lookup(&self.post, &request.path) {
                    Some(h) => {
                        proof {
                            lemma_lookup_in_table(self.post@, request.path@);
                        }
                        h(request)
                    },
                    None => not_found(),
                }
            },
            _ => not_found(),
        }
    }
}

} // verus!
