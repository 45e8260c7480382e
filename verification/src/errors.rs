//! Errors of the endpoint, and the response header that reports one.
use crate::header::Header;
use crate::text::{cs_error_debug, cs_error_debug_text, decimal_text, u32_text};
use vstd::set::set;
use vstd::prelude::*;

verus! {

/// What can go wrong in the endpoint.
#[derive(Debug)]
pub enum CsError {
    ServerInitError(String),
    IOError(String),
    CodeCError(String),
    HandlerNotFound(u32),
    HandleError { err_code: u32, err_msg: String },
    Other(String),
}

/// The header that reports `e`: a handler's error gives its own code and
/// message; any other error gives the code `-1` and the error's debug text.
pub open spec fn error_header(e: CsError) -> Map<Seq<char>, Seq<char>> {
    match e {
        CsError::HandleError { err_code, err_msg } => Map::empty().insert(
            "err_code"@,
            decimal_text(err_code as nat),
        ).insert("err_msg"@, err_msg@),
        _ => Map::empty().insert("err_code"@, "-1"@).insert("err_msg"@, cs_error_debug(e)),
    }
}

/// The header that reports an error has exactly the names `err_code` and
/// `err_msg`. A handler's error reports its code, whose digits read back as
/// that code, and its message; any other error reports the code `-1`.
pub proof fn lemma_error_header_fields(e: CsError)
    ensures
        error_header(e).dom() == set!["err_code"@, "err_msg"@],
        e matches CsError::HandleError { err_code, err_msg } ==> error_header(e)["err_code"@]
            == decimal_text(err_code as nat) && error_header(e)["err_msg"@] == err_msg@,
        !(e is HandleError) ==> error_header(e)["err_code"@] == "-1"@,
        forall|n: nat| #[trigger] decimal_value(decimal_text(n)) == n,
{
    reveal_strlit("err_code");
    reveal_strlit("err_msg");
    assert("err_code"@ != "err_msg"@) by {
        assert("err_code"@.len() != "err_msg"@.len());
    }
    assert(error_header(e).dom() =~= set!["err_code"@, "err_msg"@]);
    assert forall|n: nat| #[trigger] decimal_value(decimal_text(n)) == n by {
        lemma_decimal_text_reads_back(n);
    }
}

/// The number that a text of decimal digits stands for.
pub open spec fn decimal_value(s: Seq<char>) -> nat
    decreases s.len(),
{
    if s.len() == 0 {
        0
    } else {
        decimal_value(s.drop_last()) * 10 + ((s.last() as u32 - 48) as nat)
    }
}

/// Reading the decimal rendering of `n` gives `n`.
proof fn lemma_decimal_text_reads_back(n: nat)
    ensures
        decimal_value(decimal_text(n)) == n,
    decreases n,
{
    if n < 10 {
        let t = decimal_text(n);
        assert(t.drop_last() =~= Seq::<char>::empty());
        assert(t.last() as u32 == 48 + n);
        assert(decimal_value(Seq::<char>::empty()) == 0);
        assert(decimal_value(t) == decimal_value(t.drop_last()) * 10 + n);
    } else {
        lemma_decimal_text_reads_back(n / 10);
        let t = decimal_text(n);
        assert(t.drop_last() =~= decimal_text(n / 10));
        assert(t.last() as u32 == 48 + n % 10);
        assert(n == (n / 10) * 10 + n % 10);
        assert(decimal_value(t) == decimal_value(t.drop_last()) * 10 + n % 10);
    }
}

impl CsError {
    /// The header that reports this error.
    pub fn into_header(self) -> (h: Header)
        ensures
            h@ == error_header(self),
    {
        let mut h = Header::new();
        match self {
            CsError::HandleError { err_code, err_msg } => {
                h.insert(String::from_str("err_code"), u32_text(err_code));
                h.insert(String::from_str("err_msg"), err_msg);
            },
            e => {
                let text = cs_error_debug_text(&e);
                h.insert(String::from_str("err_code"), String::from_str("-1"));
                h.insert(String::from_str("err_msg"), text);
            },
        }
        h
    }
}

} // verus!
