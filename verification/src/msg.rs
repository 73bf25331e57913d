use crate::value::{Node, Value};
use vstd::prelude::*;

verus! {

/// The view of a string that may be absent.
pub open spec fn text_of(s: Option<String>) -> Option<Seq<char>> {
    match s {
        Some(s) => Some(s@),
        None => None,
    }
}

/// An opaque structured value as it travels in messages.
#[derive(Debug, PartialEq, Eq)]
pub struct SerializableJson(pub Value);

impl SerializableJson {
    pub fn as_value(&self) -> (v: &Value)
        ensures
            *v == self.0,
    {
        &self.0
    }
}

impl View for SerializableJson {
    type V = Node;

    open spec fn view(&self) -> Node {
        self.0@
    }
}

/// The basic settings for creating the contract: none.
#[derive(Debug, PartialEq, Eq)]
pub struct InstantiateMsg {}

#[derive(Debug, PartialEq, Eq)]
pub struct MigrateMsg {}

/// Signals that the runtime delivers about a transfer that was sent.
#[derive(Debug, PartialEq, Eq)]
pub enum IBCLifecycleComplete {
    IBCAck { channel: String, sequence: u64, ack: String, success: bool },
    IBCTimeout { channel: String, sequence: u64 },
}

#[derive(Debug, PartialEq, Eq)]
pub enum SudoMsg {
    IBCLifecycleComplete(IBCLifecycleComplete),
}

#[derive(Debug, PartialEq, Eq)]
pub enum QueryMsg {
    /// Runs the given queries one after another and returns their responses.
    MultiQuery { queries: Vec<SerializableJson> },
}

/// The tags by which a completion signal finds its handler.
#[derive(Clone, Copy, Debug, PartialEq, Eq, Structural)]
pub enum MsgReplyId {
    /// The current call completed; the next one follows.
    ProcessCall,
    /// A tracked transfer was accepted.
    IbcTransferTracking,
    /// The step that was under supervision ended.
    ExecutionFallback,
}

impl MsgReplyId {
    pub open spec fn spec_repr(self) -> u64 {
        match self {
            MsgReplyId::ProcessCall => 1,
            MsgReplyId::IbcTransferTracking => 2,
            MsgReplyId::ExecutionFallback => 3,
        }
    }

    /// The number that stands for the tag.
    #[verifier::when_used_as_spec(spec_repr)]
    pub fn repr(self) -> (id: u64)
        ensures
            id == self.spec_repr(),
    {
        match self {
            MsgReplyId::ProcessCall => 1,
            MsgReplyId::IbcTransferTracking => 2,
            MsgReplyId::ExecutionFallback => 3,
        }
    }

    pub open spec fn spec_from_repr(id: u64) -> Option<MsgReplyId> {
        if id == 1 {
            Some(MsgReplyId::ProcessCall)
        } else if id == 2 {
            Some(MsgReplyId::IbcTransferTracking)
        } else if id == 3 {
            Some(MsgReplyId::ExecutionFallback)
        } else {
            None
        }
    }

    /// The tag that a number stands for, if any.
    #[verifier::when_used_as_spec(spec_from_repr)]
    pub fn from_repr(id: u64) -> (tag: Option<MsgReplyId>)
        ensures
            tag == Self::spec_from_repr(id),
    {
        if id == 1 {
            Some(MsgReplyId::ProcessCall)
        } else if id == 2 {
            Some(MsgReplyId::IbcTransferTracking)
        } else if id == 3 {
            Some(MsgReplyId::ExecutionFallback)
        } else {
            None
        }
    }
}

/// The protocol messages into which a field can be encoded.
#[derive(Clone, Copy, Debug, PartialEq, Eq, Structural)]
pub enum ProtoMessageType {
    IbcTransfer,
    OsmosisSwapExactAmtIn,
}

/// From where in a query response a value is taken, and where in the message
/// it is put.
#[derive(Debug, PartialEq, Eq)]
pub struct ReplaceInfo {
    pub response_pointer: String,
    pub replacer: String,
}

pub struct ReplaceInfoView {
    pub response_pointer: Seq<char>,
    pub replacer: Seq<char>,
}

impl View for ReplaceInfo {
    type V = ReplaceInfoView;

    open spec fn view(&self) -> ReplaceInfoView {
        ReplaceInfoView { response_pointer: self.response_pointer@, replacer: self.replacer@ }
    }
}

/// The views of a vector of replacements, in order.
pub open spec fn replacer_views(replacers: Seq<ReplaceInfo>) -> Seq<ReplaceInfoView> {
    Seq::new(replacers.len(), |i: int| replacers[i]@)
}

/// One step that inspects, queries or edits a call's message before it is
/// dispatched.
#[derive(Debug, PartialEq, Eq)]
pub enum CallAction {
    /// Fetches this contract's balance of `denom` and writes it at `replacer`.
    NativeBalanceFetch { denom: String, replacer: String },
    /// Fetches this contract's balance at the token contract and writes it at
    /// `replacer`.
    Cw20BalanceFetch { contract: String, replacer: String },
    /// Runs a query and copies fields of its response into the message.
    CustomReplaceQuery { query_msg: SerializableJson, replacers: Vec<ReplaceInfo> },
    /// Registers the transfer that the message sends, so that its
    /// acknowledgement or timeout finds it.
    IbcTracking {
        channel: String,
        denom: String,
        amount: Option<u128>,
        amount_pointer: Option<String>,
    },
    /// Replaces the field at `replacer` by its own encoding as binary text.
    FieldToBinary { replacer: String },
    /// Replaces the field at `replacer` by its encoding as a protocol message.
    FieldToProtoBinary { replacer: String, proto_msg_type: ProtoMessageType },
}

pub enum CallActionView {
    NativeBalanceFetch { denom: Seq<char>, replacer: Seq<char> },
    Cw20BalanceFetch { contract: Seq<char>, replacer: Seq<char> },
    CustomReplaceQuery { query_msg: Node, replacers: Seq<ReplaceInfoView> },
    IbcTracking {
        channel: Seq<char>,
        denom: Seq<char>,
        amount: Option<u128>,
        amount_pointer: Option<Seq<char>>,
    },
    FieldToBinary { replacer: Seq<char> },
    FieldToProtoBinary { replacer: Seq<char>, proto_msg_type: ProtoMessageType },
}

impl View for CallAction {
    type V = CallActionView;

    open spec fn view(&self) -> CallActionView {
        match self {
            CallAction::NativeBalanceFetch { denom, replacer } => CallActionView::NativeBalanceFetch {
                denom: denom@,
                replacer: replacer@,
            },
            CallAction::Cw20BalanceFetch { contract, replacer } => CallActionView::Cw20BalanceFetch {
                contract: contract@,
                replacer: replacer@,
            },
            CallAction::CustomReplaceQuery { query_msg, replacers } =>
                CallActionView::CustomReplaceQuery {
                    query_msg: query_msg@,
                    replacers: replacer_views(replacers@),
                },
            CallAction::IbcTracking { channel, denom, amount, amount_pointer } =>
                CallActionView::IbcTracking {
                    channel: channel@,
                    denom: denom@,
                    amount: *amount,
                    amount_pointer: text_of(*amount_pointer),
                },
            CallAction::FieldToBinary { replacer } => CallActionView::FieldToBinary {
                replacer: replacer@,
            },
            CallAction::FieldToProtoBinary { replacer, proto_msg_type } =>
                CallActionView::FieldToProtoBinary {
                    replacer: replacer@,
                    proto_msg_type: *proto_msg_type,
                },
        }
    }
}

/// The views of a vector of actions, in order.
pub open spec fn action_views(actions: Seq<CallAction>) -> Seq<CallActionView> {
    Seq::new(actions.len(), |i: int| actions[i]@)
}

/// One queued operation: the message to dispatch, as a tree, and the actions
/// that fill it in before it goes out.
#[derive(Debug, PartialEq, Eq)]
pub struct Call {
    pub msg: SerializableJson,
    pub actions: Vec<CallAction>,
}

pub struct CallView {
    pub msg: Node,
    pub actions: Seq<CallActionView>,
}

impl View for Call {
    type V = CallView;

    open spec fn view(&self) -> CallView {
        CallView { msg: self.msg@, actions: action_views(self.actions@) }
    }
}

/// The views of a vector of calls, in order.
pub open spec fn call_views(calls: Seq<Call>) -> Seq<CallView> {
    Seq::new(calls.len(), |i: int| calls[i]@)
}

#[derive(Debug, PartialEq, Eq)]
pub enum ExecuteMsg {
    /// Starts a batch.
    Multicall { calls: Vec<Call>, fallback_address: Option<String> },
    /// Runs the next call of the active batch; only the contract itself may
    /// send it.
    ProcessNextCall {  },
}

/// A transfer message as the contract's callers write it.
#[derive(Debug, PartialEq, Eq)]
pub struct CwIbcMessage {
    pub source_port: String,
    pub source_channel: String,
    pub token: Option<Coin>,
    pub sender: String,
    pub receiver: String,
    pub timeout_height: Option<CwHeight>,
    pub timeout_timestamp: u64,
    pub memo: String,
}

#[derive(Debug, PartialEq, Eq)]
pub struct CwHeight {
    pub revision_number: u64,
    pub revision_height: u64,
}

/// What the transfer module answers when it accepts a transfer.
#[derive(Debug, PartialEq, Eq)]
pub struct MsgTransferResponse {
    pub sequence: u64,
}

/// An amount of one denomination.
#[derive(Debug, PartialEq, Eq)]
pub struct Coin {
    pub denom: String,
    pub amount: u128,
}

impl View for Coin {
    type V = (Seq<char>, u128);

    open spec fn view(&self) -> (Seq<char>, u128) {
        (self.denom@, self.amount)
    }
}

/// The views of a vector of coins, in order.
pub open spec fn coin_views(coins: Seq<Coin>) -> Seq<(Seq<char>, u128)> {
    Seq::new(coins.len(), |i: int| coins[i]@)
}

impl ReplaceInfo {
    /// A copy with the same view.
    pub fn duplicate(&self) -> (copy: ReplaceInfo)
        ensures
            copy@ == self@,
    {
        ReplaceInfo {
            response_pointer: self.response_pointer.clone(),
            replacer: self.replacer.clone(),
        }
    }
}

/// A copy of a string that may be absent.
pub fn duplicate_text(s: &Option<String>) -> (copy: Option<String>)
    ensures
        text_of(copy) == text_of(*s),
{
    match s {
        Some(s) => Some(s.clone()),
        None => None,
    }
}

impl CallAction {
    /// A copy with the same view.
    pub fn duplicate(&self) -> (copy: CallAction)
        ensures
            copy@ == self@,
    {
        match self {
            CallAction::NativeBalanceFetch { denom, replacer } => CallAction::NativeBalanceFetch {
                denom: denom.clone(),
                replacer: replacer.clone(),
            },
            CallAction::Cw20BalanceFetch { contract, replacer } => CallAction::Cw20BalanceFetch {
                contract: contract.clone(),
                replacer: replacer.clone(),
            },
            CallAction::CustomReplaceQuery { query_msg, replacers } => {
                let mut copies: Vec<ReplaceInfo> = Vec::new();
                let mut i: usize = 0;
                while i < replacers.len()
                    invariant
                        i <= replacers.len(),
                        copies.len() == i,
                        forall|j: int| 0 <= j < i ==> copies[j]@ == replacers[j]@,
                    decreases replacers.len() - i,
                {
                    copies.push(replacers[i].duplicate());
                    i += 1;
                }
                assert(replacer_views(copies@) =~= replacer_views(replacers@));
                CallAction::CustomReplaceQuery {
                    query_msg: SerializableJson(query_msg.0.duplicate()),
                    replacers: copies,
                }
            },
            CallAction::IbcTracking { channel, denom, amount, amount_pointer } =>
                CallAction::IbcTracking {
                    channel: channel.clone(),
                    denom: denom.clone(),
                    amount: *amount,
                    amount_pointer: duplicate_text(amount_pointer),
                },
            CallAction::FieldToBinary { replacer } => CallAction::FieldToBinary {
                replacer: replacer.clone(),
            },
            CallAction::FieldToProtoBinary { replacer, proto_msg_type } =>
                CallAction::FieldToProtoBinary {
                    replacer: replacer.clone(),
                    proto_msg_type: *proto_msg_type,
                },
        }
    }
}

impl Call {
    /// A copy with the same view.
    pub fn duplicate(&self) -> (copy: Call)
        ensures
            copy@ == self@,
    {
        let mut copies: Vec<CallAction> = Vec::new();
        let mut i: usize = 0;
        while i < self.actions.len()
            invariant
                i <= self.actions.len(),
                copies.len() == i,
                forall|j: int| 0 <= j < i ==> copies[j]@ == self.actions[j]@,
            decreases self.actions.len() - i,
        {
            copies.push(self.actions[i].duplicate());
            i += 1;
        }
        assert(action_views(copies@) =~= action_views(self.actions@));
        Call { msg: SerializableJson(self.msg.0.duplicate()), actions: copies }
    }
}

/// Copies of the calls, in order.
pub fn duplicate_calls(calls: &Vec<Call>) -> (copies: Vec<Call>)
    ensures
        call_views(copies@) == call_views(calls@),
{
    let mut copies: Vec<Call> = Vec::new();
    let mut i: usize = 0;
    while i < calls.len()
        invariant
            i <= calls.len(),
            copies.len() == i,
            forall|j: int| 0 <= j < i ==> copies[j]@ == calls[j]@,
        decreases calls.len() - i,
    {
        copies.push(calls[i].duplicate());
        i += 1;
    }
    assert(call_views(copies@) =~= call_views(calls@));
    copies
}

impl Coin {
    /// A copy with the same view.
    pub fn duplicate(&self) -> (copy: Coin)
        ensures
            copy@ == self@,
    {
        Coin { denom: self.denom.clone(), amount: self.amount }
    }
}

} // verus!
