//! The RPC envelope of the data plane: a message to forward through a
//! proxy, and the reply that comes back.
//!
//! Content is framed as bytes in a structural (JSON) encoding chosen by the
//! caller; this module carries and unwraps it.
use vstd::prelude::*;
use crate::principal::{copy_bytes, PrincipalId};

verus! {

/// Why an envelope could not be built or read.
#[derive(Debug)]
pub enum Error {
    InvalidPrincipal(PrincipalId),
    InvalidRequest(String),
    InvalidContent(String),
    InvalidDestination(String),
}

/// The fabric's classes of call rejection.
#[derive(Clone, Copy, Debug, PartialEq, Eq, Structural)]
pub enum RejectionCode {
    NoError,
    SysFatal,
    SysTransient,
    DestinationInvalid,
    CanisterReject,
    CanisterError,
    Unknown,
}

/// A call to forward: encoded content, the program to deliver it to, and
/// the method to call there.
#[derive(Debug)]
pub struct Message {
    pub content: Vec<u8>,
    pub recipient: PrincipalId,
    pub method_name: String,
}

/// The encoded reply of a forwarded call.
#[derive(Debug)]
pub struct MessageResult {
    reply: Vec<u8>,
}

impl MessageResult {
    pub closed spec fn reply_view(&self) -> Seq<u8> {
        self.reply@
    }

    pub fn new(reply: Vec<u8>) -> (r: MessageResult)
        ensures
            r.reply_view() == reply@,
    {
        MessageResult { reply }
    }

    /// The encoded reply.
    pub fn reply_bytes(&self) -> (r: Vec<u8>)
        ensures
            r@ == self.reply_view(),
    {
        copy_bytes(&self.reply)
    }
}

impl Message {
    /// A message carrying already encoded `content` to `method_name` of
    /// `recipient`.
    pub fn new(content: Vec<u8>, recipient: PrincipalId, method_name: &str) -> (r: Message)
        ensures
            r.content@ == content@,
            r.recipient@ == recipient@,
            r.method_name@ == method_name@,
    {
        Message { content, recipient, method_name: method_name.to_string() }
    }

    pub fn recipient(&self) -> (r: PrincipalId)
        ensures
            r@ == self.recipient@,
    {
        self.recipient.duplicate()
    }

    /// The encoded content.
    pub fn content_bytes(&self) -> (r: Vec<u8>)
        ensures
            r@ == self.content@,
    {
        copy_bytes(&self.content)
    }
}

/// Sends messages through a proxy.
#[derive(Debug)]
pub struct CallProvider {
    proxy: PrincipalId,
}

impl CallProvider {
    pub closed spec fn proxy_id(&self) -> Seq<u8> {
        self.proxy@
    }

    pub fn new(proxy: PrincipalId) -> (r: CallProvider)
        ensures
            r.proxy_id() == proxy@,
    {
        CallProvider { proxy }
    }

    pub fn proxy(&self) -> (r: PrincipalId)
        ensures
            r@ == self.proxy_id(),
    {
        self.proxy.duplicate()
    }
}

/// Unwraps the two layers of a call through the proxy: the outer one is the
/// call to the proxy, the inner one the proxy's call to the recipient. Either
/// rejection is the result; otherwise the recipient's reply.
pub fn flatten_call_result(
    result: Result<Result<Vec<u8>, (RejectionCode, String)>, (RejectionCode, String)>,
) -> (r: Result<MessageResult, (RejectionCode, String)>)
    ensures
        match result {
            Err(e) => r is Err && r->Err_0.0 == e.0 && r->Err_0.1@ == e.1@,
            Ok(Err(e)) => r is Err && r->Err_0.0 == e.0 && r->Err_0.1@ == e.1@,
            Ok(Ok(b)) => r is Ok && r->Ok_0.reply_view() == b@,
        },
{
    match result {
        Ok(inner) => match inner {
            Ok(reply) => Ok(MessageResult::new(reply)),
            Err(e) => Err(e),
        },
        Err(e) => Err(e),
    }
}

} // verus!
