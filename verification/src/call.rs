use crate::error::{ContractError, ContractErrorView, StdError, StdErrorView};
use crate::host::{
    failure_reason, reason_of, reply_views, CosmosMsg, CosmosMsgView, HostReply, HostReplyView,
    HostRequest, HostRequestView, Progress, ReplyOn, SubMsg, SubMsgView,
};
use crate::ibc_tracking::store_ibc_transfer_reply_state;
use crate::msg::{
    action_views, replacer_views, text_of, Call, CallAction, CallActionView, CallView, MsgReplyId,
    ReplaceInfo, ReplaceInfoView,
};
use crate::pointer::{json_pointer, read_field, replace, resolve};
use crate::storage::{
    record_of, IbcTransferReplyState, IbcTransferReplyStateView, Storage, StorageView,
};
use crate::text::{
    amount_from_str, amount_of, amount_refusal, amount_to_string, base64_text, decimal_text,
    to_base64,
};
use crate::value::{Node, Value};
use vstd::prelude::*;

verus! {

/// Where the conversion of a call stands: the message as edited so far, the
/// tag under which it will be dispatched, the transfer to register, and how
/// many answers were used.
pub struct Frame {
    pub msg: Node,
    pub id: u64,
    pub transfer: Option<IbcTransferReplyStateView>,
    pub used: nat,
}

/// What applying one action comes to.
pub enum Applied {
    /// An answer is needed that was not given.
    Pending(HostRequestView),
    /// The action is applied.
    Done(Frame),
    /// The action fails, and the call with it.
    Failed(ContractErrorView),
}

/// What converting a call comes to.
pub enum Outcome {
    /// An answer is needed that was not given.
    Pending(HostRequestView),
    /// The message is ready to be dispatched under the tag `id`; `transfer` is
    /// the record to register for it.
    Ready { msg: Node, id: u64, transfer: Option<IbcTransferReplyStateView> },
    /// The call fails.
    Failed(ContractErrorView),
}

/// The failure that a reply stands for where it is not what was asked for.
pub open spec fn host_failure(reply: HostReplyView) -> ContractErrorView {
    ContractErrorView::Std(StdErrorView::GenericErr { msg: failure_reason(reply) })
}

/// Writes `leaf` where `pointer` addresses; fails where it addresses nothing.
pub open spec fn write(msg: Node, pointer: Seq<char>, leaf: Node) -> Result<Node, ContractErrorView> {
    if resolve(msg, pointer) is Some {
        Ok(replace(msg, pointer, leaf))
    } else {
        Err(ContractErrorView::ReplacerFieldNotFound { replacer: pointer })
    }
}

/// The frame after `leaf` was written at `pointer` and one answer was used.
pub open spec fn written(frame: Frame, pointer: Seq<char>, leaf: Node) -> Applied {
    match write(frame.msg, pointer, leaf) {
        Ok(msg) => Applied::Done(Frame { msg, used: frame.used + 1, ..frame }),
        Err(e) => Applied::Failed(e),
    }
}

/// Copies the fields of `response` that the replacements at and after `from`
/// name into `msg`, one after another; fails at the first pointer, of the
/// response or of the message, that addresses nothing.
pub open spec fn substitute(
    msg: Node,
    response: Node,
    replacers: Seq<ReplaceInfoView>,
    from: int,
) -> Result<Node, ContractErrorView>
    decreases replacers.len() - from,
{
    if from < 0 || from >= replacers.len() {
        Ok(msg)
    } else {
        match resolve(response, replacers[from].response_pointer) {
            None => Err(
                ContractErrorView::ReplacerFieldNotFound {
                    replacer: replacers[from].response_pointer,
                },
            ),
            Some(field) => match write(msg, replacers[from].replacer, field) {
                Err(e) => Err(e),
                Ok(next) => substitute(next, response, replacers, from + 1),
            },
        }
    }
}

/// The amount of a tracked transfer: the string that the pointer addresses in
/// the message, read as a number, where a pointer is given, and else the
/// amount that is given.
pub open spec fn tracked_amount(msg: Node, amount: Option<u128>, amount_pointer: Option<Seq<char>>) -> Result<
    u128,
    ContractErrorView,
> {
    match amount_pointer {
        Some(pointer) => match resolve(msg, pointer) {
            None => Err(ContractErrorView::ReplacerFieldNotFound { replacer: pointer }),
            Some(Node::String(text)) => match amount_of(text) {
                Some(amount) => Ok(amount),
                None => Err(
                    ContractErrorView::Std(StdErrorView::GenericErr { msg: amount_refusal(text) }),
                ),
            },
            Some(_) => Err(ContractErrorView::InvalidAmountPointer),
        },
        None => match amount {
            Some(amount) => Ok(amount),
            None => Err(ContractErrorView::EitherAmountOfPointerMustBeSet),
        },
    }
}

/// What applying `action` to `frame` comes to, given the answers.
///
/// An action that needs an answer takes the first one that is not used yet. A
/// balance of zero fails the call, and so does a token balance that could not
/// be had. An answer of another kind than was asked for counts as a failure.
pub open spec fn apply(
    action: CallActionView,
    frame: Frame,
    replies: Seq<HostReplyView>,
    fallback_address: Option<Seq<char>>,
) -> Applied {
    match action {
        CallActionView::NativeBalanceFetch { denom, replacer } => if frame.used >= replies.len() {
            Applied::Pending(HostRequestView::NativeBalance { denom })
        } else {
            match replies[frame.used as int] {
                HostReplyView::Amount(balance) => if balance == 0 {
                    Applied::Failed(ContractErrorView::ZeroBalanceFetched { token: denom })
                } else {
                    written(frame, replacer, Node::String(decimal_text(balance as nat)))
                },
                other => Applied::Failed(host_failure(other)),
            }
        },
        CallActionView::Cw20BalanceFetch { contract, replacer } => if frame.used >= replies.len() {
            Applied::Pending(HostRequestView::Cw20Balance { contract })
        } else {
            match replies[frame.used as int] {
                HostReplyView::Amount(balance) => if balance == 0 {
                    Applied::Failed(ContractErrorView::ZeroBalanceFetched { token: contract })
                } else {
                    written(frame, replacer, Node::String(decimal_text(balance as nat)))
                },
                _ => Applied::Failed(ContractErrorView::ZeroBalanceFetched { token: contract }),
            }
        },
        CallActionView::CustomReplaceQuery { query_msg, replacers } => if frame.used
            >= replies.len() {
            Applied::Pending(HostRequestView::Query { query_msg })
        } else {
            match replies[frame.used as int] {
                HostReplyView::Response(response) => match substitute(
                    frame.msg,
                    response,
                    replacers,
                    0,
                ) {
                    Ok(msg) => Applied::Done(Frame { msg, used: frame.used + 1, ..frame }),
                    Err(e) => Applied::Failed(e),
                },
                HostReplyView::Rejected => Applied::Failed(ContractErrorView::SerializationError),
                other => Applied::Failed(host_failure(other)),
            }
        },
        CallActionView::IbcTracking { channel, denom, amount, amount_pointer } => match fallback_address {
            None => Applied::Failed(ContractErrorView::FallbackAddressMustBeSetForIbcTracking),
            Some(local_fallback_address) => match tracked_amount(frame.msg, amount, amount_pointer) {
                Err(e) => Applied::Failed(e),
                Ok(amount) => Applied::Done(
                    Frame {
                        id: MsgReplyId::IbcTransferTracking.spec_repr(),
                        transfer: Some(
                            IbcTransferReplyStateView {
                                local_fallback_address,
                                channel,
                                denom,
                                amount,
                            },
                        ),
                        ..frame
                    },
                ),
            },
        },
        CallActionView::FieldToBinary { replacer } => match resolve(frame.msg, replacer) {
            None => Applied::Failed(ContractErrorView::ReplacerFieldNotFound { replacer }),
            Some(field) => if frame.used >= replies.len() {
                Applied::Pending(HostRequestView::ToBinary { field })
            } else {
                match replies[frame.used as int] {
                    HostReplyView::Binary(bytes) => written(
                        frame,
                        replacer,
                        Node::String(base64_text(bytes)),
                    ),
                    other => Applied::Failed(host_failure(other)),
                }
            },
        },
        CallActionView::FieldToProtoBinary { replacer, proto_msg_type } => match resolve(
            frame.msg,
            replacer,
        ) {
            None => Applied::Failed(ContractErrorView::ReplacerFieldNotFound { replacer }),
            Some(field) => if frame.used >= replies.len() {
                Applied::Pending(HostRequestView::ToProtoBinary { field, proto_msg_type })
            } else {
                match replies[frame.used as int] {
                    HostReplyView::Binary(bytes) => written(
                        frame,
                        replacer,
                        Node::String(base64_text(bytes)),
                    ),
                    _ => Applied::Failed(ContractErrorView::ProtoSerializationError),
                }
            },
        },
    }
}

/// What the conversion comes to once every action is applied: the message
/// must be an operation that can be dispatched.
pub open spec fn finish(frame: Frame, replies: Seq<HostReplyView>) -> Outcome {
    if frame.used >= replies.len() {
        Outcome::Pending(HostRequestView::IntoCosmosMsg { msg: frame.msg })
    } else {
        match replies[frame.used as int] {
            HostReplyView::Accepted => Outcome::Ready {
                msg: frame.msg,
                id: frame.id,
                transfer: frame.transfer,
            },
            _ => Outcome::Failed(ContractErrorView::SerializationError),
        }
    }
}

/// What the conversion comes to from the action at `from` on.
pub open spec fn run(
    actions: Seq<CallActionView>,
    from: int,
    frame: Frame,
    replies: Seq<HostReplyView>,
    fallback_address: Option<Seq<char>>,
) -> Outcome
    decreases actions.len() - from,
{
    if from < 0 || from >= actions.len() {
        finish(frame, replies)
    } else {
        match apply(actions[from], frame, replies, fallback_address) {
            Applied::Pending(request) => Outcome::Pending(request),
            Applied::Failed(e) => Outcome::Failed(e),
            Applied::Done(next) => run(actions, from + 1, next, replies, fallback_address),
        }
    }
}

/// What converting `call` into a message comes to, given the answers of its
/// surroundings: the actions are applied in their order to a copy of the
/// call's message.
pub open spec fn interpret(
    call: CallView,
    replies: Seq<HostReplyView>,
    fallback_address: Option<Seq<char>>,
) -> Outcome {
    run(
        call.actions,
        0,
        Frame {
            msg: call.msg,
            id: MsgReplyId::ProcessCall.spec_repr(),
            transfer: None,
            used: 0,
        },
        replies,
        fallback_address,
    )
}

struct Work {
    msg: Value,
    id: u64,
    transfer: Option<IbcTransferReplyState>,
    used: usize,
}

impl Work {
    spec fn frame(&self) -> Frame {
        Frame {
            msg: self.msg@,
            id: self.id,
            transfer: record_of(self.transfer),
            used: self.used as nat,
        }
    }
}

fn host_error(reply: &HostReply) -> (e: ContractError)
    ensures
        e@ == host_failure(reply@),
{
    ContractError::Std(StdError::GenericErr { msg: reason_of(reply) })
}

fn substitute_fields(msg: &mut Value, response: &Value, replacers: &Vec<ReplaceInfo>) -> (r: Result<
    (),
    ContractError,
>)
    ensures
        match substitute(old(msg)@, response@, replacer_views(replacers@), 0) {
            Ok(next) => r is Ok && final(msg)@ == next,
            Err(e) => r matches Err(err) && err@ == e,
        },
{
    let ghost all = replacer_views(replacers@);
    let mut source = response.duplicate();
    let mut i: usize = 0;
    while i < replacers.len()
        invariant
            all == replacer_views(replacers@),
            source@ == response@,
            i <= replacers.len(),
            substitute(old(msg)@, response@, all, 0) == substitute(msg@, response@, all, i as int),
        decreases replacers.len() - i,
    {
        assert(all[i as int] == replacers[i as int]@);
        let field = match read_field(&mut source, replacers[i].response_pointer.as_str()) {
            Some(field) => field,
            None => {
                return Err(
                    ContractError::ReplacerFieldNotFound {
                        replacer: replacers[i].response_pointer.clone(),
                    },
                );
            },
        };
        match json_pointer(msg, replacers[i].replacer.as_str()) {
            Some(target) => {
                *target = field;
            },
            None => {
                return Err(
                    ContractError::ReplacerFieldNotFound { replacer: replacers[i].replacer.clone() },
                );
            },
        }
        i += 1;
    }
    Ok(())
}

impl Call {
    /// Converts the call into the operation to dispatch.
    ///
    /// The call's actions are applied, in their order, to a copy of its
    /// message. What an action needs from the contract's surroundings it
    /// takes from `replies`, one answer after another. Where an answer is
    /// missing the result names what is needed, and nothing has changed: the
    /// conversion is then called again with that answer added. A call that
    /// fails changes nothing either. A call that is ready has its transfer,
    /// if it tracks one, stored as pending.
    pub fn try_into_msg(
        &self,
        storage: &mut Storage,
        replies: &Vec<HostReply>,
        fallback_address: &Option<String>,
    ) -> (r: Result<Progress<SubMsg>, ContractError>)
        ensures
            match interpret(self@, reply_views(replies@), text_of(*fallback_address)) {
                Outcome::Pending(request) => {
                    &&& r matches Ok(Progress::Pending(asked))
                    &&& asked@ == request
                    &&& final(storage)@ == old(storage)@
                },
                Outcome::Failed(e) => {
                    &&& r matches Err(err)
                    &&& err@ == e
                    &&& final(storage)@ == old(storage)@
                },
                Outcome::Ready { msg, id, transfer } => {
                    &&& r matches Ok(Progress::Ready(sub))
                    &&& sub@ == (SubMsgView {
                        id,
                        msg: CosmosMsgView::Call(msg),
                        reply_on: ReplyOn::Success,
                    })
                    &&& final(storage)@ == (match transfer {
                        Some(record) => StorageView {
                            ibc_transfer_reply_state: Some(record),
                            ..old(storage)@
                        },
                        None => old(storage)@,
                    })
                },
            },
    {
        let ghost actions = action_views(self.actions@);
        let ghost answers = reply_views(replies@);
        let ghost fallback = text_of(*fallback_address);
        let mut work = Work {
            msg: self.msg.0.duplicate(),
            id: MsgReplyId::ProcessCall.repr(),
            transfer: None,
            used: 0,
        };
        let mut i: usize = 0;
        while i < self.actions.len()
            invariant
                actions == action_views(self.actions@),
                answers == reply_views(replies@),
                fallback == text_of(*fallback_address),
                i <= self.actions.len(),
                work.used <= replies.len(),
                interpret(self@, answers, fallback) == run(
                    actions,
                    i as int,
                    work.frame(),
                    answers,
                    fallback,
                ),
                *storage == *old(storage),
            decreases self.actions.len() - i,
        {
            assert(actions[i as int] == self.actions[i as int]@);
            match self.apply_action(&self.actions[i], &mut work, replies, fallback_address) {
                Err(e) => {
                    return Err(e);
                },
                Ok(Some(request)) => {
                    return Ok(Progress::Pending(request));
                },
                Ok(None) => {},
            }
            i += 1;
        }
        if work.used >= replies.len() {
            return Ok(Progress::Pending(HostRequest::IntoCosmosMsg { msg: work.msg }));
        }
        assert(answers[work.used as int] == replies[work.used as int]@);
        match &replies[work.used] {
            HostReply::Accepted => {},
            _ => {
                return Err(ContractError::SerializationError {  });
            },
        }
        if let Some(record) = &work.transfer {
            store_ibc_transfer_reply_state(storage, record);
        }
        Ok(Progress::Ready(SubMsg::reply_on_success(CosmosMsg::Call(work.msg), work.id)))
    }

    fn apply_action(
        &self,
        action: &CallAction,
        work: &mut Work,
        replies: &Vec<HostReply>,
        fallback_address: &Option<String>,
    ) -> (r: Result<Option<HostRequest>, ContractError>)
        requires
            old(work).used <= replies.len(),
        ensures
            match apply(
                action@,
                old(work).frame(),
                reply_views(replies@),
                text_of(*fallback_address),
            ) {
                Applied::Pending(request) => r matches Ok(Some(asked)) && asked@ == request,
                Applied::Failed(e) => r matches Err(err) && err@ == e,
                Applied::Done(frame) => r matches Ok(None) && final(work).frame() == frame
                    && final(work).used <= replies.len(),
            },
    {
        let ghost answers = reply_views(replies@);
        proof {
            if work.used < replies.len() {
                assert(answers[work.used as int] == replies[work.used as int]@);
            }
        }
        match action {
            CallAction::NativeBalanceFetch { denom, replacer } => {
                if work.used >= replies.len() {
                    return Ok(Some(HostRequest::NativeBalance { denom: denom.clone() }));
                }
                let balance = match &replies[work.used] {
                    HostReply::Amount(balance) => *balance,
                    other => {
                        return Err(host_error(other));
                    },
                };
                if balance == 0 {
                    return Err(ContractError::ZeroBalanceFetched { token: denom.clone() });
                }
                match self.replace_value(&mut work.msg, replacer.as_str(), amount_to_string(balance)) {
                    Err(e) => {
                        return Err(e);
                    },
                    Ok(_) => {},
                }
                work.used = work.used + 1;
                Ok(None)
            },
            CallAction::Cw20BalanceFetch { contract, replacer } => {
                if work.used >= replies.len() {
                    return Ok(Some(HostRequest::Cw20Balance { contract: contract.clone() }));
                }
                let balance = match &replies[work.used] {
                    HostReply::Amount(balance) => *balance,
                    _ => 0,
                };
                if balance == 0 {
                    return Err(ContractError::ZeroBalanceFetched { token: contract.clone() });
                }
                match self.replace_value(&mut work.msg, replacer.as_str(), amount_to_string(balance)) {
                    Err(e) => {
                        return Err(e);
                    },
                    Ok(_) => {},
                }
                work.used = work.used + 1;
                Ok(None)
            },
            CallAction::CustomReplaceQuery { query_msg, replacers } => {
                if work.used >= replies.len() {
                    return Ok(Some(HostRequest::Query { query_msg: query_msg.0.duplicate() }));
                }
                match &replies[work.used] {
                    HostReply::Response(response) => {
                        match substitute_fields(&mut work.msg, response, replacers) {
                            Err(e) => {
                                return Err(e);
                            },
                            Ok(_) => {},
                        }
                    },
                    HostReply::Rejected => {
                        return Err(ContractError::SerializationError {  });
                    },
                    other => {
                        return Err(host_error(other));
                    },
                }
                work.used = work.used + 1;
                Ok(None)
            },
            CallAction::IbcTracking { channel, denom, amount, amount_pointer } => {
                let local_fallback_address = match fallback_address {
                    Some(address) => address.clone(),
                    None => {
                        return Err(ContractError::FallbackAddressMustBeSetForIbcTracking {  });
                    },
                };
                let amount = match amount_pointer {
                    Some(pointer) => {
                        match read_field(&mut work.msg, pointer.as_str()) {
                            None => {
                                return Err(
                                    ContractError::ReplacerFieldNotFound { replacer: pointer.clone() },
                                );
                            },
                            Some(Value::String(text)) => match amount_from_str(text.as_str()) {
                                Ok(amount) => amount,
                                Err(msg) => {
                                    return Err(ContractError::Std(StdError::GenericErr { msg }));
                                },
                            },
                            Some(_) => {
                                return Err(ContractError::InvalidAmountPointer {  });
                            },
                        }
                    },
                    None => match amount {
                        Some(amount) => *amount,
                        None => {
                            return Err(ContractError::EitherAmountOfPointerMustBeSet {  });
                        },
                    },
                };
                work.id = MsgReplyId::IbcTransferTracking.repr();
                work.transfer = Some(
                    IbcTransferReplyState {
                        local_fallback_address,
                        channel: channel.clone(),
                        denom: denom.clone(),
                        amount,
                    },
                );
                Ok(None)
            },
            CallAction::FieldToBinary { replacer } => {
                let field = match read_field(&mut work.msg, replacer.as_str()) {
                    Some(field) => field,
                    None => {
                        return Err(
                            ContractError::ReplacerFieldNotFound { replacer: replacer.clone() },
                        );
                    },
                };
                if work.used >= replies.len() {
                    return Ok(Some(HostRequest::ToBinary { field }));
                }
                let text = match &replies[work.used] {
                    HostReply::Binary(bytes) => to_base64(bytes),
                    other => {
                        return Err(host_error(other));
                    },
                };
                match self.replace_value(&mut work.msg, replacer.as_str(), text) {
                    Err(e) => {
                        return Err(e);
                    },
                    Ok(_) => {},
                }
                work.used = work.used + 1;
                Ok(None)
            },
            CallAction::FieldToProtoBinary { replacer, proto_msg_type } => {
                let field = match read_field(&mut work.msg, replacer.as_str()) {
                    Some(field) => field,
                    None => {
                        return Err(
                            ContractError::ReplacerFieldNotFound { replacer: replacer.clone() },
                        );
                    },
                };
                if work.used >= replies.len() {
                    return Ok(
                        Some(HostRequest::ToProtoBinary { field, proto_msg_type: *proto_msg_type }),
                    );
                }
                let text = match &replies[work.used] {
                    HostReply::Binary(bytes) => to_base64(bytes),
                    _ => {
                        return Err(ContractError::ProtoSerializationError {  });
                    },
                };
                match self.replace_value(&mut work.msg, replacer.as_str(), text) {
                    Err(e) => {
                        return Err(e);
                    },
                    Ok(_) => {},
                }
                work.used = work.used + 1;
                Ok(None)
            },
        }
    }

    fn replace_value(&self, cosmos_msg: &mut Value, replacer: &str, value: String) -> (r: Result<
        (),
        ContractError,
    >)
        ensures
            match write(old(cosmos_msg)@, replacer@, Node::String(value@)) {
                Ok(next) => r is Ok && final(cosmos_msg)@ == next,
                Err(e) => r matches Err(err) && err@ == e && final(cosmos_msg)@ == old(cosmos_msg)@,
            },
    {
        match json_pointer(cosmos_msg, replacer) {
            Some(field) => {
                *field = Value::String(value);
                Ok(())
            },
            None => Err(ContractError::ReplacerFieldNotFound { replacer: replacer.to_owned() }),
        }
    }
}

/// A balance fetch that observes a balance of zero fails the call.
pub proof fn lemma_zero_balance_fails(
    action: CallActionView,
    frame: Frame,
    replies: Seq<HostReplyView>,
    fallback_address: Option<Seq<char>>,
)
    requires
        action is NativeBalanceFetch || action is Cw20BalanceFetch,
        frame.used < replies.len(),
        replies[frame.used as int] == HostReplyView::Amount(0),
    ensures
        action matches CallActionView::NativeBalanceFetch { denom, .. } ==> apply(
            action,
            frame,
            replies,
            fallback_address,
        ) == Applied::Failed(ContractErrorView::ZeroBalanceFetched { token: denom }),
        action matches CallActionView::Cw20BalanceFetch { contract, .. } ==> apply(
            action,
            frame,
            replies,
            fallback_address,
        ) == Applied::Failed(ContractErrorView::ZeroBalanceFetched { token: contract }),
{
}

/// An action that fails ends the conversion with its failure.
pub proof fn lemma_failure_ends_run(
    actions: Seq<CallActionView>,
    at: int,
    frame: Frame,
    replies: Seq<HostReplyView>,
    fallback_address: Option<Seq<char>>,
)
    requires
        0 <= at < actions.len(),
        apply(actions[at], frame, replies, fallback_address) is Failed,
    ensures
        run(actions, at, frame, replies, fallback_address) == Outcome::Failed(
            apply(actions[at], frame, replies, fallback_address)->Failed_0,
        ),
{
}

/// A call without tracking actions is dispatched under the tag that it
/// started with, and registers no transfer but one that was there.
pub proof fn lemma_untracked_run(
    actions: Seq<CallActionView>,
    from: int,
    frame: Frame,
    replies: Seq<HostReplyView>,
    fallback_address: Option<Seq<char>>,
)
    requires
        0 <= from,
        forall|j: int| from <= j < actions.len() ==> !(#[trigger] actions[j] is IbcTracking),
    ensures
        run(actions, from, frame, replies, fallback_address) matches Outcome::Ready {
            id,
            transfer,
            ..
        } ==> id == frame.id && transfer == frame.transfer,
    decreases actions.len() - from,
{
    if from < actions.len() {
        assert(!(actions[from] is IbcTracking));
        match apply(actions[from], frame, replies, fallback_address) {
            Applied::Done(next) => {
                lemma_untracked_run(actions, from + 1, next, replies, fallback_address);
            },
            _ => {},
        }
    }
}

/// An action that is applied or fails with the answers given does the same
/// with more answers after them.
pub proof fn lemma_apply_settled(
    action: CallActionView,
    frame: Frame,
    replies: Seq<HostReplyView>,
    more: Seq<HostReplyView>,
    fallback_address: Option<Seq<char>>,
)
    requires
        !(apply(action, frame, replies, fallback_address) is Pending),
    ensures
        apply(action, frame, replies + more, fallback_address) == apply(
            action,
            frame,
            replies,
            fallback_address,
        ),
{
    if frame.used < replies.len() {
        assert((replies + more)[frame.used as int] == replies[frame.used as int]);
    }
}

/// A conversion that came to its end with the answers given, ready or failed,
/// comes to the same end with more answers after them: what was decided is
/// not decided again.
pub proof fn lemma_run_settled(
    actions: Seq<CallActionView>,
    from: int,
    frame: Frame,
    replies: Seq<HostReplyView>,
    more: Seq<HostReplyView>,
    fallback_address: Option<Seq<char>>,
)
    requires
        0 <= from,
        !(run(actions, from, frame, replies, fallback_address) is Pending),
    ensures
        run(actions, from, frame, replies + more, fallback_address) == run(
            actions,
            from,
            frame,
            replies,
            fallback_address,
        ),
    decreases actions.len() - from,
{
    if from < actions.len() {
        lemma_apply_settled(actions[from], frame, replies, more, fallback_address);
        match apply(actions[from], frame, replies, fallback_address) {
            Applied::Done(next) => {
                lemma_run_settled(actions, from + 1, next, replies, more, fallback_address);
            },
            _ => {},
        }
    } else if frame.used < replies.len() {
        assert((replies + more)[frame.used as int] == replies[frame.used as int]);
    }
}

/// The conversion of a call that came to its end with the answers given comes
/// to the same end with more answers after them.
pub proof fn lemma_interpret_settled(
    call: CallView,
    replies: Seq<HostReplyView>,
    more: Seq<HostReplyView>,
    fallback_address: Option<Seq<char>>,
)
    requires
        !(interpret(call, replies, fallback_address) is Pending),
    ensures
        interpret(call, replies + more, fallback_address) == interpret(
            call,
            replies,
            fallback_address,
        ),
{
    lemma_run_settled(
        call.actions,
        0,
        Frame {
            msg: call.msg,
            id: MsgReplyId::ProcessCall.spec_repr(),
            transfer: None,
            used: 0,
        },
        replies,
        more,
        fallback_address,
    );
}

} // verus!
