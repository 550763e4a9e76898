//! The plaintext endpoint served beside the shortener: stateless, it answers
//! every request, whatever its method or path, with one fixed reply.
use vstd::prelude::*;

verus! {

/// A plain HTTP reply: status code and text body.
pub struct PlainReply {
    pub status: u16,
    pub body: String,
}

/// The body of the fixed reply.
pub open spec fn hello_body() -> Seq<char> {
    "Hello World!"@
}

/// The reply to any request: `200` with the fixed body.
pub fn plain_reply() -> (r: PlainReply)
    ensures
        r.status == 200,
        r.body@ == hello_body(),
{
    PlainReply { status: 200, body: "Hello World!".to_owned() }
}

} // verus!
