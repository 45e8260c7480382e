//! The client's view of replies: what a reply means, and how a failure is
//! reported.
use crate::errors::{error_header, CsError};
use crate::header::Header;
use crate::protocol::CsMessage;
use vstd::prelude::*;

verus! {

/// What a request came back with: the reply's handler id and sequence (or
/// -1 when no reply was had), its header, and the decoded body when the reply
/// succeeded.
pub struct ClientResponse<T> {
    pub msg_id: i64,
    pub seq: i64,
    pub header: Header,
    pub msg: Option<T>,
}

/// A reply failed when its header has an `err_code` other than `0`.
pub open spec fn reply_failed(ext: Map<Seq<char>, Seq<char>>) -> bool {
    ext.contains_key("err_code"@) && ext["err_code"@] != "0"@
}

/// Whether a reply with header `ext` failed.
pub fn is_failed_reply(ext: &Header) -> (r: bool)
    ensures
        r == reply_failed(ext@),
{
    let key = String::from_str("err_code");
    match ext.get(&key) {
        None => false,
        Some(v) => {
            let zero = String::from_str("0");
            !(*v == zero)
        },
    }
}

impl<T> ClientResponse<T> {
    /// The response for a request that got no usable reply: the given ids,
    /// the header that reports `e`, and no body.
    pub fn from_err(msg_id: i64, seq: i64, e: CsError) -> (r: ClientResponse<T>)
        ensures
            r.msg_id == msg_id,
            r.seq == seq,
            r.header@ == error_header(e),
            r.msg is None,
    {
        ClientResponse { msg_id, seq, header: e.into_header(), msg: None }
    }

    /// The response for the reply `msg`, whose body decoded to `decoded`
    /// (or failed to, with the given text). A failed reply gives its ids and
    /// header and no body; otherwise a decoded body gives the ids, header and
    /// body, and a body that did not decode gives the error response for
    /// `Other` with the text.
    pub fn from_reply(msg: CsMessage, decoded: Result<T, String>) -> (r: ClientResponse<T>)
        ensures
            reply_failed(msg.ext@) ==> r.msg_id == msg.msg_id && r.seq == msg.seq && r.header@
                == msg.ext@ && r.msg is None,
            !reply_failed(msg.ext@) ==> match decoded {
                Ok(v) => r.msg_id == msg.msg_id && r.seq == msg.seq && r.header@ == msg.ext@
                    && r.msg == Some(v),
                Err(text) => r.msg_id == -1 && r.seq == -1 && r.header@ == error_header(
                    CsError::Other(text),
                ) && r.msg is None,
            },
    {
        if is_failed_reply(&msg.ext) {
            return ClientResponse {
                msg_id: msg.msg_id as i64,
                seq: msg.seq as i64,
                header: msg.ext,
                msg: None,
            };
        }
        match decoded {
            Ok(v) => ClientResponse {
                msg_id: msg.msg_id as i64,
                seq: msg.seq as i64,
                header: msg.ext,
                msg: Some(v),
            },
            Err(text) => Self::from_err(-1, -1, CsError::Other(text)),
        }
    }
}

/// A reply has failed exactly when its header carries an `err_code` and that
/// code is any text other than `0`: setting `err_code` to a text other than
/// `0` makes any header failed, setting it to `0` makes it succeed, and a
/// header without `err_code` succeeds.
pub proof fn lemma_reply_failed_by_err_code(
    ext: Map<Seq<char>, Seq<char>>,
    code: Seq<char>,
)
    ensures
        code != "0"@ ==> reply_failed(ext.insert("err_code"@, code)),
        !reply_failed(ext.insert("err_code"@, "0"@)),
        !ext.contains_key("err_code"@) ==> !reply_failed(ext),
        reply_failed(ext) ==> ext.contains_key("err_code"@) && ext["err_code"@] != "0"@,
{
}

/// The client reads every error reply of the server as failed, except that
/// of a handler error with code 0, which it reads as success.
pub proof fn lemma_error_reply_read_as_failed(e: CsError)
    ensures
        reply_failed(error_header(e)) <==> !(e matches CsError::HandleError { err_code, .. }
            && err_code == 0),
{
    reveal_strlit("err_code");
    reveal_strlit("err_msg");
    reveal_strlit("0");
    reveal_strlit("-1");
    assert("err_code"@ != "err_msg"@) by {
        assert("err_code"@.len() != "err_msg"@.len());
    }
    match e {
        CsError::HandleError { err_code, err_msg } => {
            crate::text::lemma_decimal_text_zero(err_code as nat);
            assert("0"@ =~= seq!['0']);
            assert(error_header(e)["err_code"@] == crate::text::decimal_text(err_code as nat));
        },
        _ => {
            assert(error_header(e)["err_code"@] == "-1"@);
            assert("-1"@ != "0"@) by {
                assert("-1"@.len() != "0"@.len());
            }
        },
    }
}

} // verus!
