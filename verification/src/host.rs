use crate::msg::{coin_views, Coin, ProtoMessageType};
use crate::value::{Node, Value};
use vstd::prelude::*;

verus! {

/// The result that a completion signal carries: on success the data that the
/// completed operation returned, on failure its error.
#[derive(Debug, PartialEq, Eq)]
pub enum SubMsgResult {
    Success { data: Option<Vec<u8>> },
    Failure(String),
}

/// A completion signal: the tag under which the operation was dispatched, and
/// how it ended.
#[derive(Debug, PartialEq, Eq)]
pub struct Reply {
    pub id: u64,
    pub result: SubMsgResult,
}

/// When the runtime is to signal the completion of a dispatched operation.
#[derive(Clone, Copy, Debug, PartialEq, Eq, Structural)]
pub enum ReplyOn {
    Always,
    Error,
    Success,
    Never,
}

/// An operation that the contract hands to the runtime.
#[derive(Debug, PartialEq, Eq)]
pub enum CosmosMsg {
    /// A call's message, edited and ready, as a tree.
    Call(Value),
    /// The contract's message to itself to run the next call.
    ProcessNextCall { contract_addr: String },
    /// A transfer of funds out of the contract.
    BankSend { to_address: String, amount: Vec<Coin> },
}

pub enum CosmosMsgView {
    Call(Node),
    ProcessNextCall { contract_addr: Seq<char> },
    BankSend { to_address: Seq<char>, amount: Seq<(Seq<char>, u128)> },
}

impl View for CosmosMsg {
    type V = CosmosMsgView;

    open spec fn view(&self) -> CosmosMsgView {
        match self {
            CosmosMsg::Call(msg) => CosmosMsgView::Call(msg@),
            CosmosMsg::ProcessNextCall { contract_addr } => CosmosMsgView::ProcessNextCall {
                contract_addr: contract_addr@,
            },
            CosmosMsg::BankSend { to_address, amount } => CosmosMsgView::BankSend {
                to_address: to_address@,
                amount: coin_views(amount@),
            },
        }
    }
}

/// A dispatched operation with its correlation tag.
#[derive(Debug, PartialEq, Eq)]
pub struct SubMsg {
    pub id: u64,
    pub msg: CosmosMsg,
    pub reply_on: ReplyOn,
}

pub struct SubMsgView {
    pub id: u64,
    pub msg: CosmosMsgView,
    pub reply_on: ReplyOn,
}

impl View for SubMsg {
    type V = SubMsgView;

    open spec fn view(&self) -> SubMsgView {
        SubMsgView { id: self.id, msg: self.msg@, reply_on: self.reply_on }
    }
}

impl SubMsg {
    /// An operation whose completion is signalled only if it succeeds.
    pub fn reply_on_success(msg: CosmosMsg, id: u64) -> (sub: SubMsg)
        ensures
            sub@ == (SubMsgView { id, msg: msg@, reply_on: ReplyOn::Success }),
    {
        SubMsg { id, msg, reply_on: ReplyOn::Success }
    }

    /// An operation whose completion is signalled only if it fails.
    pub fn reply_on_error(msg: CosmosMsg, id: u64) -> (sub: SubMsg)
        ensures
            sub@ == (SubMsgView { id, msg: msg@, reply_on: ReplyOn::Error }),
    {
        SubMsg { id, msg, reply_on: ReplyOn::Error }
    }

    /// An operation whose completion is not signalled.
    pub fn new(msg: CosmosMsg) -> (sub: SubMsg)
        ensures
            sub@ == (SubMsgView { id: 0, msg: msg@, reply_on: ReplyOn::Never }),
    {
        SubMsg { id: 0, msg, reply_on: ReplyOn::Never }
    }
}

#[derive(Debug, PartialEq, Eq)]
pub struct Attribute {
    pub key: String,
    pub value: String,
}

impl View for Attribute {
    type V = (Seq<char>, Seq<char>);

    open spec fn view(&self) -> (Seq<char>, Seq<char>) {
        (self.key@, self.value@)
    }
}

/// What an entry point answers: the operations to dispatch, in order, and the
/// attributes to log.
#[derive(Debug, PartialEq, Eq)]
pub struct Response {
    pub messages: Vec<SubMsg>,
    pub attributes: Vec<Attribute>,
}

pub struct ResponseView {
    pub messages: Seq<SubMsgView>,
    pub attributes: Seq<(Seq<char>, Seq<char>)>,
}

impl View for Response {
    type V = ResponseView;

    open spec fn view(&self) -> ResponseView {
        ResponseView {
            messages: Seq::new(self.messages@.len(), |i: int| self.messages@[i]@),
            attributes: Seq::new(self.attributes@.len(), |i: int| self.attributes@[i]@),
        }
    }
}

impl Response {
    /// The empty response.
    pub fn new() -> (r: Response)
        ensures
            r@ == (ResponseView { messages: Seq::empty(), attributes: Seq::empty() }),
    {
        let r = Response { messages: Vec::new(), attributes: Vec::new() };
        assert(r@.messages =~= Seq::empty());
        assert(r@.attributes =~= Seq::empty());
        r
    }

    /// The response with one more operation to dispatch.
    pub fn add_submessage(self, sub: SubMsg) -> (r: Response)
        ensures
            r@ == (ResponseView { messages: self@.messages.push(sub@), attributes: self@.attributes }),
    {
        let ghost before = self@;
        let Response { mut messages, attributes } = self;
        messages.push(sub);
        let r = Response { messages, attributes };
        assert(r@.messages =~= before.messages.push(sub@));
        assert(r@.attributes =~= before.attributes);
        r
    }

    /// The response with one more operation whose completion is not
    /// signalled.
    pub fn add_message(self, msg: CosmosMsg) -> (r: Response)
        ensures
            r@ == (ResponseView {
                messages: self@.messages.push(
                    SubMsgView { id: 0, msg: msg@, reply_on: ReplyOn::Never },
                ),
                attributes: self@.attributes,
            }),
    {
        self.add_submessage(SubMsg::new(msg))
    }

    /// The response with one more attribute.
    pub fn add_attribute(self, key: &str, value: &str) -> (r: Response)
        ensures
            r@ == (ResponseView {
                messages: self@.messages,
                attributes: self@.attributes.push((key@, value@)),
            }),
    {
        let ghost before = self@;
        let Response { messages, mut attributes } = self;
        attributes.push(Attribute { key: key.to_owned(), value: value.to_owned() });
        let r = Response { messages, attributes };
        assert(r@.messages =~= before.messages);
        assert(r@.attributes =~= before.attributes.push((key@, value@)));
        r
    }
}

/// What the contract needs from its surroundings before it can go on.
#[derive(Debug, PartialEq, Eq)]
pub enum HostRequest {
    /// The contract's own balance of `denom`.
    NativeBalance { denom: String },
    /// The contract's own balance at the token contract.
    Cw20Balance { contract: String },
    /// All that the contract holds.
    AllBalances,
    /// The response to the query that `query_msg` describes.
    Query { query_msg: Value },
    /// The field, serialized.
    ToBinary { field: Value },
    /// The field, read as a protocol message of the given type and encoded.
    ToProtoBinary { field: Value, proto_msg_type: ProtoMessageType },
    /// Whether the message is an operation that can be dispatched.
    IntoCosmosMsg { msg: Value },
}

pub enum HostRequestView {
    NativeBalance { denom: Seq<char> },
    Cw20Balance { contract: Seq<char> },
    AllBalances,
    Query { query_msg: Node },
    ToBinary { field: Node },
    ToProtoBinary { field: Node, proto_msg_type: ProtoMessageType },
    IntoCosmosMsg { msg: Node },
}

impl View for HostRequest {
    type V = HostRequestView;

    open spec fn view(&self) -> HostRequestView {
        match self {
            HostRequest::NativeBalance { denom } => HostRequestView::NativeBalance { denom: denom@ },
            HostRequest::Cw20Balance { contract } => HostRequestView::Cw20Balance {
                contract: contract@,
            },
            HostRequest::AllBalances => HostRequestView::AllBalances,
            HostRequest::Query { query_msg } => HostRequestView::Query { query_msg: query_msg@ },
            HostRequest::ToBinary { field } => HostRequestView::ToBinary { field: field@ },
            HostRequest::ToProtoBinary { field, proto_msg_type } => HostRequestView::ToProtoBinary {
                field: field@,
                proto_msg_type: *proto_msg_type,
            },
            HostRequest::IntoCosmosMsg { msg } => HostRequestView::IntoCosmosMsg { msg: msg@ },
        }
    }
}

/// What the surroundings answer to a request.
#[derive(Debug, PartialEq, Eq)]
pub enum HostReply {
    /// A balance.
    Amount(u128),
    /// Balances, one coin for each denomination that is held.
    Coins(Vec<Coin>),
    /// The response to a query.
    Response(Value),
    /// An encoding.
    Binary(Vec<u8>),
    /// The message is an operation that can be dispatched.
    Accepted,
    /// What was handed over could not be read as what it was meant to be.
    Rejected,
    /// The request failed, for the given reason.
    Failed { reason: String },
}

pub enum HostReplyView {
    Amount(u128),
    Coins(Seq<(Seq<char>, u128)>),
    Response(Node),
    Binary(Seq<u8>),
    Accepted,
    Rejected,
    Failed { reason: Seq<char> },
}

impl View for HostReply {
    type V = HostReplyView;

    open spec fn view(&self) -> HostReplyView {
        match self {
            HostReply::Amount(amount) => HostReplyView::Amount(*amount),
            HostReply::Coins(coins) => HostReplyView::Coins(coin_views(coins@)),
            HostReply::Response(response) => HostReplyView::Response(response@),
            HostReply::Binary(bytes) => HostReplyView::Binary(bytes@),
            HostReply::Accepted => HostReplyView::Accepted,
            HostReply::Rejected => HostReplyView::Rejected,
            HostReply::Failed { reason } => HostReplyView::Failed { reason: reason@ },
        }
    }
}

/// The views of a vector of replies, in order.
pub open spec fn reply_views(replies: Seq<HostReply>) -> Seq<HostReplyView> {
    Seq::new(replies.len(), |i: int| replies[i]@)
}

/// The reason that a reply gives for a failure; none where it is no failure
/// and yet not what was asked for.
pub open spec fn failure_reason(reply: HostReplyView) -> Seq<char> {
    match reply {
        HostReplyView::Failed { reason } => reason,
        _ => Seq::empty(),
    }
}

/// The reason that a reply gives for a failure.
pub fn reason_of(reply: &HostReply) -> (reason: String)
    ensures
        reason@ == failure_reason(reply@),
{
    match reply {
        HostReply::Failed { reason } => reason.clone(),
        _ => String::new(),
    }
}

/// How far an entry point came: either it needs one more answer from its
/// surroundings and has changed nothing, or it is done.
#[derive(Debug, PartialEq, Eq)]
pub enum Progress<T> {
    Pending(HostRequest),
    Ready(T),
}

} // verus!
