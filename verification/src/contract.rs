use crate::commands::{
    agrees, continued, fallback_storage, fallback_verdict, handle_call, handle_call_reply,
    handle_execution_fallback_reply, handle_ibc_tracking_reply, handle_multicall, start_storage,
    start_verdict, step_storage, step_verdict, };
use crate::error::{ContractError, ContractErrorView, StdError};
use crate::host::{reply_views, HostReply, Progress, Reply, Response, ResponseView};
use crate::ibc_tracking::{promotion, receive_ack, receive_timeout, refund};
use crate::msg::{call_views, text_of, ExecuteMsg, IBCLifecycleComplete, MsgReplyId, QueryMsg, SudoMsg};
use crate::queries::{multi_query, MultiQueryResponse};
use crate::storage::{Storage, StorageView};
use vstd::prelude::*;

verus! {

/// Handles a message to the contract: the start of a batch, or a step.
pub fn execute(
    storage: &mut Storage,
    contract_address: &str,
    sender: &str,
    msg: ExecuteMsg,
    replies: &Vec<HostReply>,
) -> (r: Result<Progress<Response>, ContractError>)
    ensures
        match msg {
            ExecuteMsg::Multicall { calls, fallback_address } => {
                &&& match start_verdict(
                    old(storage)@,
                    contract_address@,
                    call_views(calls@),
                    text_of(fallback_address),
                ) {
                    Ok(response) => r matches Ok(Progress::Ready(given)) && given@ == response,
                    Err(e) => r matches Err(err) && err@ == e,
                }
                &&& final(storage)@ == start_storage(
                    old(storage)@,
                    contract_address@,
                    call_views(calls@),
                    text_of(fallback_address),
                )
            },
            ExecuteMsg::ProcessNextCall {  } => {
                &&& agrees(
                    r,
                    step_verdict(old(storage)@, contract_address@, sender@, reply_views(replies@)),
                )
                &&& final(storage)@ == step_storage(
                    old(storage)@,
                    contract_address@,
                    sender@,
                    reply_views(replies@),
                )
            },
        },
{
    match msg {
        ExecuteMsg::Multicall { calls, fallback_address } => {
            match handle_multicall(storage, contract_address, calls, fallback_address) {
                Ok(response) => Ok(Progress::Ready(response)),
                Err(e) => Err(e),
            }
        },
        ExecuteMsg::ProcessNextCall {  } => handle_call(storage, contract_address, sender, replies),
    }
}

/// Handles a completion signal by its tag: the completion of a call goes on
/// to the next step, the acceptance of a tracked transfer registers it first,
/// and the end of a supervised step starts the recovery. A signal under
/// another tag is refused, and changes nothing.
pub fn reply(storage: &mut Storage, contract_address: &str, signal: Reply, replies: &Vec<HostReply>) -> (r:
    Result<Progress<Response>, ContractError>)
    ensures
        match MsgReplyId::spec_from_repr(signal.id) {
            Some(MsgReplyId::ProcessCall) => {
                &&& r matches Ok(Progress::Ready(response))
                &&& response@ == continued(contract_address@)
                &&& final(storage)@ == old(storage)@
            },
            Some(MsgReplyId::IbcTransferTracking) => match promotion(
                old(storage)@,
                signal.result,
            ) {
                Ok(next) => {
                    &&& r matches Ok(Progress::Ready(response))
                    &&& response@ == continued(contract_address@)
                    &&& final(storage)@ == next
                },
                Err(e) => {
                    &&& r matches Err(err)
                    &&& err@ == ContractErrorView::IbcTrackingError(e)
                    &&& final(storage)@ == old(storage)@
                },
            },
            Some(MsgReplyId::ExecutionFallback) => {
                &&& agrees(r, fallback_verdict(old(storage)@, signal.result, reply_views(replies@)))
                &&& final(storage)@ == fallback_storage(
                    old(storage)@,
                    signal.result,
                    reply_views(replies@),
                )
            },
            None => {
                &&& r matches Err(e)
                &&& e@ == ContractErrorView::InvalidReplyId
                &&& final(storage)@ == old(storage)@
            },
        },
{
    match MsgReplyId::from_repr(signal.id) {
        Some(MsgReplyId::ProcessCall) => match handle_call_reply(contract_address) {
            Ok(response) => Ok(Progress::Ready(response)),
            Err(e) => Err(e),
        },
        Some(MsgReplyId::IbcTransferTracking) => match handle_ibc_tracking_reply(
            storage,
            contract_address,
            signal,
        ) {
            Ok(response) => Ok(Progress::Ready(response)),
            Err(e) => Err(e),
        },
        Some(MsgReplyId::ExecutionFallback) => handle_execution_fallback_reply(
            storage,
            signal,
            replies,
        ),
        None => Err(ContractError::InvalidReplyId {  }),
    }
}

/// Handles a signal of the runtime about a transfer that was sent: its
/// acknowledgement or its timeout.
pub fn sudo(storage: &mut Storage, msg: SudoMsg) -> (r: Result<Response, ContractError>)
    ensures
        match msg {
            SudoMsg::IBCLifecycleComplete(
                IBCLifecycleComplete::IBCAck { channel, sequence, success, .. },
            ) => {
                &&& r matches Ok(response)
                &&& response@ == (if success {
                    ResponseView { messages: Seq::empty(), attributes: Seq::empty() }
                } else {
                    refund(old(storage)@, channel@, sequence)
                })
                &&& final(storage)@ == (StorageView {
                    awaiting_ibc_transfers: old(storage)@.awaiting_ibc_transfers.remove(
                        (channel@, sequence),
                    ),
                    ..old(storage)@
                })
            },
            SudoMsg::IBCLifecycleComplete(IBCLifecycleComplete::IBCTimeout { channel, sequence }) => {
                &&& r matches Ok(response)
                &&& response@ == refund(old(storage)@, channel@, sequence)
                &&& final(storage)@ == (StorageView {
                    awaiting_ibc_transfers: old(storage)@.awaiting_ibc_transfers.remove(
                        (channel@, sequence),
                    ),
                    ..old(storage)@
                })
            },
        },
{
    match msg {
        SudoMsg::IBCLifecycleComplete(
            IBCLifecycleComplete::IBCAck { channel, sequence, success, .. },
        ) => receive_ack(storage, channel.as_str(), sequence, success),
        SudoMsg::IBCLifecycleComplete(IBCLifecycleComplete::IBCTimeout { channel, sequence }) => {
            receive_timeout(storage, channel.as_str(), sequence)
        },
    }
}

/// Handles a query to the contract.
pub fn query(msg: QueryMsg, replies: &Vec<HostReply>) -> (r: Result<
    Progress<MultiQueryResponse>,
    StdError,
>)
    ensures
        match msg {
            QueryMsg::MultiQuery { queries } => match crate::queries::answers_from(
                crate::queries::query_views(queries@),
                reply_views(replies@),
                0,
                Seq::empty(),
            ) {
                crate::queries::Answers::Pending(request) => r matches Ok(Progress::Pending(asked))
                    && asked@ == request,
                crate::queries::Answers::Ready(responses) => r matches Ok(Progress::Ready(given))
                    && given@ == responses,
                crate::queries::Answers::Failed(e) => r matches Err(err) && err@ == e,
            },
        },
{
    match msg {
        QueryMsg::MultiQuery { queries } => multi_query(&queries, replies),
    }
}

} // verus!
