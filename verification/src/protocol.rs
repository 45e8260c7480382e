//! Messages, responses and the server's per-message decisions.
use crate::buffers::{bytes_empty, bytes_seq, bytes_to_vec};
use crate::codec::CsExchange;
use crate::errors::{error_header, CsError};
use crate::text::{cs_error_debug, cs_error_debug_text};
use crate::header::Header;
use bytes::Bytes;
use vstd::prelude::*;

verus! {

/// A message on the wire: handler id, sequence number, header and encoded body.
#[derive(Debug)]
pub struct CsMessage {
    pub msg_id: u32,
    pub seq: u32,
    pub ext: Header,
    pub body: Vec<u8>,
}

/// Greeting request of the sample service.
#[derive(Debug)]
pub struct HelloReq {
    pub addr: i32,
    pub name: String,
}

/// Greeting response of the sample service.
#[derive(Debug)]
pub struct HelloResp {
    pub echo: String,
    pub sequence: i64,
}

/// What a handler answers: a header and an encoded body.
pub struct CsResponse {
    pub header: Header,
    pub body: Bytes,
}

/// Values that a handler can answer with.
pub trait IntoCsResponse: Sized {
    fn into_cs_resp(self) -> CsResponse;
}

impl IntoCsResponse for Header {
    /// A header alone: the response carries it and an empty body.
    fn into_cs_resp(self) -> (r: CsResponse)
        ensures
            r.header@ == self@,
            bytes_seq(r.body) == Seq::<u8>::empty(),
    {
        CsResponse { header: self, body: bytes_empty() }
    }
}

impl IntoCsResponse for Bytes {
    /// An encoded body alone: the response carries it and an empty header.
    fn into_cs_resp(self) -> (r: CsResponse)
        ensures
            r.header@ == Map::<Seq<char>, Seq<char>>::empty(),
            bytes_seq(r.body) == bytes_seq(self),
    {
        CsResponse { header: Header::new(), body: self }
    }
}

impl IntoCsResponse for CsError {
    /// An error: the response reports it in its header and has an empty body.
    fn into_cs_resp(self) -> (r: CsResponse)
        ensures
            r.header@ == error_header(self),
            bytes_seq(r.body) == Seq::<u8>::empty(),
    {
        CsResponse { header: self.into_header(), body: bytes_empty() }
    }
}

/// The handler id of the message being handled.
#[derive(Debug)]
pub struct MsgId(pub u32);

impl MsgId {
    /// The handler id that `msg` names.
    pub fn from_message(msg: &CsMessage) -> (r: MsgId)
        ensures
            r.0 == msg.msg_id,
    {
        MsgId(msg.msg_id)
    }
}

/// The decoded body of the message being handled.
#[derive(Debug)]
pub struct MsgBody<T>(pub T);

/// Why a session ended.
#[derive(Debug)]
pub enum CsDisconnectReason {
    ReadTimeout,
    ReadError(String),
    MsgCodecError(String),
}

/// The aspect that logs a session's events.
#[derive(Debug)]
pub struct LogAspect;

/// A message handed to sessions: from whom, to which sessions (none listed
/// means all of them), and the message itself.
#[derive(Debug)]
pub struct CsInnerMail {
    pub from: String,
    pub dst: Vec<u64>,
    pub mail: CsMessage,
}

/// A mail addressed to `dst` reaches the session with key `key` when no
/// session is listed, or when `key` is listed.
pub open spec fn reaches(dst: Seq<u64>, key: u64) -> bool {
    dst.len() == 0 || dst.contains(key)
}

impl CsInnerMail {
    /// The mail that broadcasts a message with handler id `msg_id` and body
    /// `body` to every session: no sender, no listed session, sequence 0 and
    /// an empty header.
    pub fn broadcast(msg_id: u32, body: Vec<u8>) -> (r: CsInnerMail)
        ensures
            r.from@ == Seq::<char>::empty(),
            r.dst@ == Seq::<u64>::empty(),
            r.mail.msg_id == msg_id,
            r.mail.seq == 0,
            r.mail.ext@ == Map::<Seq<char>, Seq<char>>::empty(),
            r.mail.body@ == body@,
    {
        CsInnerMail {
            from: String::new(),
            dst: Vec::new(),
            mail: CsMessage { msg_id, seq: 0, ext: Header::new(), body },
        }
    }

    /// Whether the session with key `key` is to get this mail.
    pub fn delivers_to(&self, key: u64) -> (r: bool)
        ensures
            r == reaches(self.dst@, key),
    {
        if self.dst.len() == 0 {
            return true;
        }
        let mut i: usize = 0;
        while i < self.dst.len()
            invariant
                0 <= i <= self.dst@.len(),
                forall|j: int| 0 <= j < i ==> self.dst@[j] != key,
            decreases self.dst@.len() - i,
        {
            if self.dst[i] == key {
                return true;
            }
            i += 1;
        }
        false
    }
}

/// A mail reaches a session exactly when it lists no session or lists that
/// session's key, wherever in the list the key stands: any listed key is
/// reached, and a reached key is listed unless the list is empty.
pub proof fn lemma_mail_reaches_listed_keys(dst: Seq<u64>, key: u64, j: int)
    ensures
        0 <= j < dst.len() && dst[j] == key ==> reaches(dst, key),
        reaches(dst, key) ==> dst.len() == 0 || exists|k: int| 0 <= k < dst.len() && dst[k] == key,
        reaches(Seq::<u64>::empty(), key),
        dst.len() > 0 && (forall|k: int| 0 <= k < dst.len() ==> dst[k] != key) ==> !reaches(
            dst,
            key,
        ),
{
    if 0 <= j < dst.len() && dst[j] == key {
        assert(dst.contains(key));
    }
}

/// A broadcast mail, which lists no session, reaches every session.
pub proof fn lemma_broadcast_reaches_every_session(key: u64)
    ensures
        reaches(Seq::<u64>::empty(), key),
{
}

/// The reply to the message with handler id `msg_id` and sequence `seq`:
/// the same id and sequence, the response's header, and its body.
pub fn reply_for(msg_id: u32, seq: u32, resp: CsResponse) -> (r: CsMessage)
    ensures
        r.msg_id == msg_id,
        r.seq == seq,
        r.ext@ == resp.header@,
        r.body@ == bytes_seq(resp.body),
{
    let body = bytes_to_vec(&resp.body);
    CsMessage { msg_id, seq, ext: resp.header, body }
}

/// The first route whose handler id is `msg_id`, if any.
pub fn select_route(routes: &Vec<u32>, msg_id: u32) -> (r: Option<usize>)
    ensures
        r matches Some(i) ==> i < routes@.len() && routes@[i as int] == msg_id && forall|j: int|
            0 <= j < i ==> routes@[j] != msg_id,
        r is None ==> forall|j: int| 0 <= j < routes@.len() ==> routes@[j] != msg_id,
{
    let mut i: usize = 0;
    while i < routes.len()
        invariant
            0 <= i <= routes@.len(),
            forall|j: int| 0 <= j < i ==> routes@[j] != msg_id,
        decreases routes@.len() - i,
    {
        if routes[i] == msg_id {
            return Some(i);
        }
        i += 1;
    }
    None
}

impl CsMessage {
    /// The request a client sends: handler id `msg_id`, sequence `seq`, an
    /// empty header and the encoded body.
    pub fn request(msg_id: u32, seq: u32, body: Vec<u8>) -> (r: CsMessage)
        ensures
            r.msg_id == msg_id,
            r.seq == seq,
            r.ext@ == Map::<Seq<char>, Seq<char>>::empty(),
            r.body@ == body@,
    {
        CsMessage { msg_id, seq, ext: Header::new(), body }
    }
}

/// What the reader of a session came back with: the stream ended (`None`),
/// a frame, or an error. An ended stream is the error `peer end`.
pub fn read_outcome(next: Option<Result<CsExchange, CsError>>) -> (r: Result<CsExchange, CsError>)
    ensures
        next is None ==> (r matches Err(CsError::IOError(m)) && m@ == "peer end"@),
        next matches Some(x) ==> r == x,
{
    match next {
        None => Err(CsError::IOError(String::from_str("peer end"))),
        Some(x) => x,
    }
}

/// What happened on the reading side of a session.
pub enum SessionEvent {
    /// Nothing arrived in time.
    TimedOut,
    /// Reading failed.
    ReadFailed(CsError),
    /// A frame arrived.
    FrameArrived(CsExchange),
}

/// What a session does next.
pub enum SessionAction {
    /// End the session for the given reason.
    Close(CsDisconnectReason),
    /// Handle the frame and send the reply.
    Process(CsExchange),
}

/// The session's answer to what its reader saw: a timeout or a read error
/// ends it, with the error's debug text as the reason; a frame is handled.
pub fn session_step(ev: SessionEvent) -> (r: SessionAction)
    ensures
        ev matches SessionEvent::TimedOut ==> r matches SessionAction::Close(
            CsDisconnectReason::ReadTimeout,
        ),
        ev matches SessionEvent::ReadFailed(e) ==> (r matches SessionAction::Close(
            CsDisconnectReason::ReadError(t),
        ) && t@ == cs_error_debug(e)),
        ev matches SessionEvent::FrameArrived(x) ==> r == SessionAction::Process(x),
{
    match ev {
        SessionEvent::TimedOut => SessionAction::Close(CsDisconnectReason::ReadTimeout),
        SessionEvent::ReadFailed(e) => SessionAction::Close(
            CsDisconnectReason::ReadError(cs_error_debug_text(&e)),
        ),
        SessionEvent::FrameArrived(x) => SessionAction::Process(x),
    }
}

/// A message carried as JSON text.
#[derive(Debug)]
pub struct JsonMsg {
    pub msg_id: u64,
    pub data: String,
}

/// A value decoded from a `JsonMsg`.
pub struct Json<T>(pub T);

} // verus!
