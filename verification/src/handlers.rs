//! The sample service's handlers.
use crate::header::Header;
use crate::protocol::{HelloReq, HelloResp, MsgBody, MsgId};
use vstd::prelude::*;

verus! {

/// Answers a greeting with a fixed echo.
pub fn hand(msg_id: MsgId, body: MsgBody<HelloReq>) -> (r: HelloResp)
    ensures
        r.echo@ == "asdas"@,
        r.sequence == 12,
{
    HelloResp { echo: String::from_str("asdas"), sequence: 12 }
}

/// The answer for a handler id that no handler serves: an `err_code` of
/// `not impl`.
pub fn not_impl(msg_id: MsgId) -> (r: Header)
    ensures
        r@ == Map::<Seq<char>, Seq<char>>::empty().insert("err_code"@, "not impl"@),
{
    let mut m = Header::new();
    m.insert(String::from_str("err_code"), String::from_str("not impl"));
    m
}

} // verus!
