use crate::call::{
    interpret, lemma_failure_ends_run, lemma_untracked_run, lemma_zero_balance_fails, run,
    Frame, Outcome,
};
use crate::order::lemma_canonical_same_actions;
use crate::error::{ContractError, ContractErrorView, StdError, StdErrorView};
use crate::host::{
    failure_reason, reason_of, reply_views, CosmosMsg, CosmosMsgView, HostReply, HostReplyView,
    HostRequest, HostRequestView, Progress, Reply, ReplyOn, Response, ResponseView, SubMsg,
    SubMsgResult, SubMsgView,
};
use crate::ibc_tracking::{handle_ibc_transfer_reply, promotion};
use crate::msg::{
    call_views, coin_views, duplicate_text, text_of, Call, CallActionView, CallView, Coin,
    MsgReplyId,
};
use crate::state::{
    batch_error, batch_kind, canonical_calls, has_tracking, load_multicall_state, multicall_state_exists,
    remove_multicall_state, store_multicall_state, MulticallState, MulticallStateView,
};
use crate::storage::{Storage, StorageView};
use crate::text::same_text;
use vstd::prelude::*;

verus! {

/// The message with which a batch is refused while another is active.
pub open spec fn locked() -> Seq<char> {
    "Another multicall action is in progress"@
}

/// The message with which a recovery that found nothing is reported.
pub open spec fn nothing_to_recover() -> Seq<char> {
    "No funds to recover"@
}

/// The contract's message to itself to run the next call.
pub open spec fn next_call_msg(contract_address: Seq<char>) -> CosmosMsgView {
    CosmosMsgView::ProcessNextCall { contract_addr: contract_address }
}

/// What starting a batch answers: the first step, dispatched under
/// supervision.
pub open spec fn started(contract_address: Seq<char>) -> ResponseView {
    ResponseView {
        messages: seq![
            SubMsgView {
                id: MsgReplyId::ExecutionFallback.spec_repr(),
                msg: next_call_msg(contract_address),
                reply_on: ReplyOn::Error,
            },
        ],
        attributes: Seq::empty(),
    }
}

/// What the completion of a call answers: the next step.
pub open spec fn continued(contract_address: Seq<char>) -> ResponseView {
    ResponseView {
        messages: seq![
            SubMsgView { id: 0, msg: next_call_msg(contract_address), reply_on: ReplyOn::Never },
        ],
        attributes: Seq::empty(),
    }
}

/// Whether funds are swept: there must be funds, and an address to send them
/// to.
pub open spec fn sweeps(fallback_address: Option<Seq<char>>, funds: Seq<(Seq<char>, u128)>) -> bool {
    fallback_address is Some && funds.len() > 0
}

/// The operation that sweeps `funds` to the fallback address.
pub open spec fn sweep(fallback_address: Option<Seq<char>>, funds: Seq<(Seq<char>, u128)>) -> SubMsgView {
    SubMsgView {
        id: 0,
        msg: CosmosMsgView::BankSend { to_address: fallback_address->Some_0, amount: funds },
        reply_on: ReplyOn::Never,
    }
}

/// What the step after the last call answers: the batch succeeded, and what
/// is left of the funds goes to the fallback address.
pub open spec fn finished(fallback_address: Option<Seq<char>>, funds: Seq<(Seq<char>, u128)>) -> ResponseView {
    if sweeps(fallback_address, funds) {
        ResponseView {
            messages: seq![sweep(fallback_address, funds)],
            attributes: seq![
                ("multicall_execution"@, "success"@),
                ("leftover_funds"@, "recovered"@),
            ],
        }
    } else {
        ResponseView {
            messages: Seq::empty(),
            attributes: seq![("multicall_execution"@, "success"@)],
        }
    }
}

/// What a recovery answers that found funds to return.
pub open spec fn recovered(fallback_address: Option<Seq<char>>, funds: Seq<(Seq<char>, u128)>) -> ResponseView {
    ResponseView {
        messages: seq![sweep(fallback_address, funds)],
        attributes: seq![("multicall_execution"@, "recovered"@)],
    }
}

/// What an entry point that may need answers comes to.
pub enum Verdict {
    /// An answer is needed that was not given; nothing has changed.
    Pending(HostRequestView),
    /// The entry point is done and answers this.
    Ready(ResponseView),
    /// The entry point fails.
    Failed(ContractErrorView),
}

/// Whether a result of the contract is what a verdict says.
pub open spec fn agrees(r: Result<Progress<Response>, ContractError>, verdict: Verdict) -> bool {
    match verdict {
        Verdict::Pending(request) => r matches Ok(Progress::Pending(asked)) && asked@ == request,
        Verdict::Ready(response) => r matches Ok(Progress::Ready(given)) && given@ == response,
        Verdict::Failed(e) => r matches Err(err) && err@ == e,
    }
}

/// What starting a batch comes to: refused while a batch is active or where
/// the batch is not valid, and else accepted.
pub open spec fn start_verdict(
    storage: StorageView,
    contract_address: Seq<char>,
    calls: Seq<CallView>,
    fallback_address: Option<Seq<char>>,
) -> Result<ResponseView, ContractErrorView> {
    if storage.multicall_state is Some {
        Err(ContractErrorView::ContractLocked { msg: locked() })
    } else {
        match batch_error(canonical_calls(calls), fallback_address) {
            Some(e) => Err(e),
            None => Ok(started(contract_address)),
        }
    }
}

/// What is stored after a batch was started: the batch with its cursor at the
/// first call, where it was accepted, and else what was stored before.
pub open spec fn start_storage(
    storage: StorageView,
    contract_address: Seq<char>,
    calls: Seq<CallView>,
    fallback_address: Option<Seq<char>>,
) -> StorageView {
    if start_verdict(storage, contract_address, calls, fallback_address) is Ok {
        StorageView {
            multicall_state: Some(
                MulticallStateView { current: 0, calls: canonical_calls(calls), fallback_address },
            ),
            ..storage
        }
    } else {
        storage
    }
}

/// Starts a batch: the batch is validated and stored with its cursor at the
/// first call, and the first step is dispatched under supervision. While a
/// batch is active no other can start.
pub fn handle_multicall(
    storage: &mut Storage,
    contract_address: &str,
    calls: Vec<Call>,
    fallback_address: Option<String>,
) -> (r: Result<Response, ContractError>)
    ensures
        match start_verdict(
            old(storage)@,
            contract_address@,
            call_views(calls@),
            text_of(fallback_address),
        ) {
            Ok(response) => r matches Ok(given) && given@ == response,
            Err(e) => r matches Err(err) && err@ == e,
        },
        final(storage)@ == start_storage(
            old(storage)@,
            contract_address@,
            call_views(calls@),
            text_of(fallback_address),
        ),
{
    if multicall_state_exists(storage) {
        return Err(
            ContractError::ContractLocked {
                msg: "Another multicall action is in progress".to_owned(),
            },
        );
    }
    let state = match MulticallState::new(calls, fallback_address) {
        Ok(state) => state,
        Err(e) => {
            return Err(e);
        },
    };
    store_multicall_state(storage, &state);
    let response = Response::new().add_submessage(
        SubMsg::reply_on_error(
            CosmosMsg::ProcessNextCall { contract_addr: contract_address.to_owned() },
            MsgReplyId::ExecutionFallback.repr(),
        ),
    );
    assert(response@.messages =~= started(contract_address@).messages);
    Ok(response)
}

/// What a step comes to.
///
/// Only the contract itself may ask for a step, and a batch must be active.
/// Once every call was handed out, the step ends the batch: it asks for the
/// contract's balances and sweeps them. Else it converts the call at the
/// cursor, and what it answers is that call's message, dispatched under the
/// call's tag.
pub open spec fn step_verdict(
    storage: StorageView,
    contract_address: Seq<char>,
    sender: Seq<char>,
    replies: Seq<HostReplyView>,
) -> Verdict {
    if sender != contract_address {
        Verdict::Failed(ContractErrorView::CanBeCalledOnlyByContractItself)
    } else {
        match storage.multicall_state {
            None => Verdict::Failed(
                ContractErrorView::Std(StdErrorView::NotFound { kind: batch_kind() }),
            ),
            Some(state) => if state.current >= state.calls.len() {
                if replies.len() == 0 {
                    Verdict::Pending(HostRequestView::AllBalances)
                } else {
                    match replies[0] {
                        HostReplyView::Coins(funds) => Verdict::Ready(
                            finished(state.fallback_address, funds),
                        ),
                        other => Verdict::Failed(
                            ContractErrorView::Std(
                                StdErrorView::GenericErr { msg: failure_reason(other) },
                            ),
                        ),
                    }
                }
            } else {
                match interpret(state.calls[state.current as int], replies, state.fallback_address) {
                    Outcome::Pending(request) => Verdict::Pending(request),
                    Outcome::Failed(e) => Verdict::Failed(e),
                    Outcome::Ready { msg, id, transfer } => Verdict::Ready(
                        ResponseView {
                            messages: seq![
                                SubMsgView {
                                    id,
                                    msg: CosmosMsgView::Call(msg),
                                    reply_on: ReplyOn::Success,
                                },
                            ],
                            attributes: Seq::empty(),
                        },
                    ),
                }
            },
        }
    }
}

/// What is stored after a step. A step that fails or needs an answer leaves
/// everything as it was. A step that dispatches a call moves the cursor past
/// that call and stores the record of the call's transfer, if it tracks one.
/// The step after the last call removes the batch.
pub open spec fn step_storage(
    storage: StorageView,
    contract_address: Seq<char>,
    sender: Seq<char>,
    replies: Seq<HostReplyView>,
) -> StorageView {
    if step_verdict(storage, contract_address, sender, replies) is Ready {
        let state = storage.multicall_state->Some_0;
        if state.current >= state.calls.len() {
            StorageView { multicall_state: None, ..storage }
        } else {
            let moved = Some(MulticallStateView { current: state.current + 1, ..state });
            match interpret(state.calls[state.current as int], replies, state.fallback_address) {
                Outcome::Ready { transfer: Some(record), .. } => StorageView {
                    multicall_state: moved,
                    ibc_transfer_reply_state: Some(record),
                    ..storage
                },
                _ => StorageView { multicall_state: moved, ..storage },
            }
        }
    } else {
        storage
    }
}

/// Runs one step of the active batch.
pub fn handle_call(
    storage: &mut Storage,
    contract_address: &str,
    sender: &str,
    replies: &Vec<HostReply>,
) -> (r: Result<Progress<Response>, ContractError>)
    ensures
        agrees(r, step_verdict(old(storage)@, contract_address@, sender@, reply_views(replies@))),
        final(storage)@ == step_storage(
            old(storage)@,
            contract_address@,
            sender@,
            reply_views(replies@),
        ),
{
    if !same_text(sender, contract_address) {
        return Err(ContractError::CanBeCalledOnlyByContractItself {  });
    }
    let mut state = match load_multicall_state(storage) {
        Ok(state) => state,
        Err(e) => {
            return Err(ContractError::Std(e));
        },
    };
    let ghost before = state@;
    let fallback_address = duplicate_text(&state.fallback_address);
    proof {
        state.lemma_view();
    }
    let call = match state.next_call() {
        Some(call) => call,
        None => {
            if replies.len() == 0 {
                return Ok(Progress::Pending(HostRequest::AllBalances));
            }
            assert(reply_views(replies@)[0] == replies[0]@);
            let leftover_funds = match &replies[0] {
                HostReply::Coins(funds) => duplicate_coins(funds),
                other => {
                    return Err(ContractError::Std(StdError::GenericErr { msg: reason_of(other) }));
                },
            };
            remove_multicall_state(storage);
            let mut response = Response::new().add_attribute("multicall_execution", "success");
            if leftover_funds.len() > 0 {
                if let Some(to_address) = fallback_address {
                    response = response.add_message(
                        CosmosMsg::BankSend { to_address, amount: leftover_funds },
                    ).add_attribute("leftover_funds", "recovered");
                }
            }
            proof {
                let funds = coin_views(leftover_funds@);
                assert(response@.messages =~= finished(before.fallback_address, funds).messages);
                assert(response@.attributes =~= finished(before.fallback_address, funds).attributes);
            }
            return Ok(Progress::Ready(response));
        },
    };
    let sub = match call.try_into_msg(storage, replies, &fallback_address) {
        Err(e) => {
            return Err(e);
        },
        Ok(Progress::Pending(request)) => {
            return Ok(Progress::Pending(request));
        },
        Ok(Progress::Ready(sub)) => sub,
    };
    store_multicall_state(storage, &state);
    let response = Response::new().add_submessage(sub);
    assert(response@.messages =~= seq![sub@]);
    Ok(Progress::Ready(response))
}

/// Copies of the coins, in order.
pub fn duplicate_coins(coins: &Vec<Coin>) -> (copies: Vec<Coin>)
    ensures
        coin_views(copies@) == coin_views(coins@),
{
    let mut copies: Vec<Coin> = Vec::new();
    let mut i: usize = 0;
    while i < coins.len()
        invariant
            i <= coins.len(),
            copies.len() == i,
            forall|j: int| 0 <= j < i ==> copies[j]@ == coins[j]@,
        decreases coins.len() - i,
    {
        copies.push(coins[i].duplicate());
        i += 1;
    }
    assert(coin_views(copies@) =~= coin_views(coins@));
    copies
}

/// Goes on after a call completed: the next step is dispatched.
pub fn handle_call_reply(contract_address: &str) -> (r: Result<Response, ContractError>)
    ensures
        r matches Ok(response) && response@ == continued(contract_address@),
{
    let response = Response::new().add_message(
        CosmosMsg::ProcessNextCall { contract_addr: contract_address.to_owned() },
    );
    assert(response@.messages =~= continued(contract_address@).messages);
    Ok(response)
}

/// Goes on after a tracked transfer was accepted: the transfer's record moves
/// into the ledger, and the next step is dispatched. Where the record cannot
/// be moved nothing changes.
pub fn handle_ibc_tracking_reply(storage: &mut Storage, contract_address: &str, reply: Reply) -> (r:
    Result<Response, ContractError>)
    ensures
        match promotion(old(storage)@, reply.result) {
            Ok(next) => {
                &&& r matches Ok(response)
                &&& response@ == continued(contract_address@)
                &&& final(storage)@ == next
            },
            Err(e) => {
                &&& r matches Err(err)
                &&& err@ == ContractErrorView::IbcTrackingError(e)
                &&& final(storage)@ == old(storage)@
            },
        },
{
    match handle_ibc_transfer_reply(storage, reply) {
        Err(e) => Err(ContractError::IbcTrackingError(e)),
        Ok(_) => handle_call_reply(contract_address),
    }
}

/// What the supervision layer comes to when the step it watched has ended.
///
/// It expects a failure. It needs a batch to be active, and the contract's
/// balances; with those it returns what the contract holds to the fallback
/// address, or reports that nothing was left to recover.
pub open spec fn fallback_verdict(
    storage: StorageView,
    result: SubMsgResult,
    replies: Seq<HostReplyView>,
) -> Verdict {
    match result {
        SubMsgResult::Success { .. } => Verdict::Failed(ContractErrorView::ErrorReplyExpected),
        SubMsgResult::Failure(origin_err) => match storage.multicall_state {
            None => Verdict::Failed(
                ContractErrorView::Std(StdErrorView::NotFound { kind: batch_kind() }),
            ),
            Some(state) => if replies.len() == 0 {
                Verdict::Pending(HostRequestView::AllBalances)
            } else {
                match replies[0] {
                    HostReplyView::Coins(funds) => if sweeps(state.fallback_address, funds) {
                        Verdict::Ready(recovered(state.fallback_address, funds))
                    } else {
                        Verdict::Failed(
                            ContractErrorView::RecoveryError {
                                msg: nothing_to_recover(),
                                origin_err: origin_err@,
                            },
                        )
                    },
                    other => Verdict::Failed(
                        ContractErrorView::Std(
                            StdErrorView::GenericErr { msg: failure_reason(other) },
                        ),
                    ),
                }
            },
        },
    }
}

/// What is stored after the supervision layer ran: once it has a failure, an
/// active batch and an answer, the batch is removed, whatever the answer is.
pub open spec fn fallback_storage(
    storage: StorageView,
    result: SubMsgResult,
    replies: Seq<HostReplyView>,
) -> StorageView {
    if result is Failure && storage.multicall_state is Some && replies.len() > 0 {
        StorageView { multicall_state: None, ..storage }
    } else {
        storage
    }
}

/// Recovers from a failed step: the batch is removed, which releases the
/// lock, and what the contract holds goes to the batch's fallback address.
pub fn handle_execution_fallback_reply(
    storage: &mut Storage,
    reply: Reply,
    replies: &Vec<HostReply>,
) -> (r: Result<Progress<Response>, ContractError>)
    ensures
        agrees(r, fallback_verdict(old(storage)@, reply.result, reply_views(replies@))),
        final(storage)@ == fallback_storage(old(storage)@, reply.result, reply_views(replies@)),
{
    let origin_err = match reply.result {
        SubMsgResult::Failure(err) => err,
        SubMsgResult::Success { .. } => {
            return Err(ContractError::ErrorReplyExpected {  });
        },
    };
    let state = match load_multicall_state(storage) {
        Ok(state) => state,
        Err(e) => {
            return Err(ContractError::Std(e));
        },
    };
    proof {
        state.lemma_view();
    }
    if replies.len() == 0 {
        return Ok(Progress::Pending(HostRequest::AllBalances));
    }
    assert(reply_views(replies@)[0] == replies[0]@);
    remove_multicall_state(storage);
    let recover_funds = match &replies[0] {
        HostReply::Coins(funds) => duplicate_coins(funds),
        other => {
            return Err(ContractError::Std(StdError::GenericErr { msg: reason_of(other) }));
        },
    };
    let MulticallState { current: _, calls: _, fallback_address } = state;
    if recover_funds.len() > 0 {
        if let Some(to_address) = fallback_address {
            let response = Response::new().add_message(
                CosmosMsg::BankSend { to_address, amount: recover_funds },
            ).add_attribute("multicall_execution", "recovered");
            proof {
                let funds = coin_views(recover_funds@);
                assert(response@.messages =~= recovered(Some(to_address@), funds).messages);
                assert(response@.attributes =~= recovered(Some(to_address@), funds).attributes);
            }
            return Ok(Progress::Ready(response));
        }
    }
    Err(ContractError::RecoveryError { msg: "No funds to recover".to_owned(), origin_err })
}

/// What is stored after `n` steps that the contract asked of itself, the
/// step `k` with the answers `answers[k]`.
pub open spec fn steps(
    storage: StorageView,
    contract_address: Seq<char>,
    answers: Seq<Seq<HostReplyView>>,
    n: nat,
) -> StorageView
    decreases n,
{
    if n == 0 {
        storage
    } else {
        step_storage(
            steps(storage, contract_address, answers, (n - 1) as nat),
            contract_address,
            contract_address,
            answers[n - 1],
        )
    }
}

/// What a step answers that dispatches `call` without tracking: the call's
/// message as the answers made it, under the tag of an ordinary call.
pub open spec fn dispatched(
    call: CallView,
    replies: Seq<HostReplyView>,
    fallback_address: Option<Seq<char>>,
) -> ResponseView {
    ResponseView {
        messages: seq![
            SubMsgView {
                id: MsgReplyId::ProcessCall.spec_repr(),
                msg: CosmosMsgView::Call(interpret(call, replies, fallback_address)->msg),
                reply_on: ReplyOn::Success,
            },
        ],
        attributes: Seq::empty(),
    }
}

/// A failed step changes nothing that is stored: the cursor stays where it
/// was.
pub proof fn lemma_failed_step_keeps_storage(
    storage: StorageView,
    contract_address: Seq<char>,
    sender: Seq<char>,
    replies: Seq<HostReplyView>,
)
    requires
        step_verdict(storage, contract_address, sender, replies) is Failed,
    ensures
        step_storage(storage, contract_address, sender, replies) == storage,
{
}

/// Where the conversion of the call at the cursor fails, for one at a balance
/// of zero that a balance fetch observes, the step fails with that failure and
/// changes nothing that is stored.
pub proof fn lemma_failed_call_keeps_cursor(
    storage: StorageView,
    contract_address: Seq<char>,
    replies: Seq<HostReplyView>,
)
    requires
        storage.multicall_state matches Some(state) && state.current < state.calls.len()
            && interpret(
            state.calls[state.current as int],
            replies,
            state.fallback_address,
        ) is Failed,
    ensures
        step_verdict(storage, contract_address, contract_address, replies) == Verdict::Failed(
            interpret(
                storage.multicall_state->Some_0.calls[storage.multicall_state->Some_0.current as int],
                replies,
                storage.multicall_state->Some_0.fallback_address,
            )->Failed_0,
        ),
        step_storage(storage, contract_address, contract_address, replies) == storage,
{
}

/// A batch without tracking actions runs in the order in which it was
/// submitted: once started, the step `k` dispatches the call `k`, in canonical
/// form and as the answers made it, and leaves the cursor at `k + 1`. This
/// holds as long as each call's conversion comes to its end.
pub proof fn lemma_batch_runs_in_order(
    storage: StorageView,
    contract_address: Seq<char>,
    calls: Seq<CallView>,
    fallback_address: Option<Seq<char>>,
    answers: Seq<Seq<HostReplyView>>,
    n: nat,
)
    requires
        storage.multicall_state is None,
        calls.len() > 0,
        !has_tracking(calls),
        batch_error(canonical_calls(calls), fallback_address) is None,
        n <= calls.len(),
        n <= answers.len(),
        forall|k: int|
            0 <= k < n ==> #[trigger] interpret(
                canonical_calls(calls)[k],
                answers[k],
                fallback_address,
            ) is Ready,
    ensures
        forall|k: int|
            0 <= k < n ==> step_verdict(
                #[trigger] steps(
                    start_storage(storage, contract_address, calls, fallback_address),
                    contract_address,
                    answers,
                    k as nat,
                ),
                contract_address,
                contract_address,
                answers[k],
            ) == Verdict::Ready(dispatched(canonical_calls(calls)[k], answers[k], fallback_address)),
        steps(
            start_storage(storage, contract_address, calls, fallback_address),
            contract_address,
            answers,
            n,
        ) == (StorageView {
            multicall_state: Some(
                MulticallStateView {
                    current: n,
                    calls: canonical_calls(calls),
                    fallback_address,
                },
            ),
            ..storage
        }),
    decreases n,
{
    let batch = canonical_calls(calls);
    let start = start_storage(storage, contract_address, calls, fallback_address);
    if n > 0 {
        let m = (n - 1) as nat;
        lemma_batch_runs_in_order(storage, contract_address, calls, fallback_address, answers, m);
        let before = steps(start, contract_address, answers, m);
        let call = batch[m as int];
        assert(interpret(call, answers[m as int], fallback_address) is Ready);
        assert forall|j: int| 0 <= j < call.actions.len() implies !(#[trigger] call.actions[j]
            is IbcTracking) by {
            lemma_canonical_same_actions(calls[m as int].actions);
            let x = call.actions[j];
            assert(call.actions.contains(x));
            assert(calls[m as int].actions.contains(x));
            let i = choose|i: int|
                0 <= i < calls[m as int].actions.len() && calls[m as int].actions[i] == x;
            assert(!(calls[m as int].actions[i] is IbcTracking));
        }
        lemma_untracked_run(
            call.actions,
            0,
            Frame {
                msg: call.msg,
                id: MsgReplyId::ProcessCall.spec_repr(),
                transfer: None,
                used: 0,
            },
            answers[m as int],
            fallback_address,
        );
        assert(step_verdict(before, contract_address, contract_address, answers[m as int])
            == Verdict::Ready(dispatched(call, answers[m as int], fallback_address)));
    }
}

/// Once every call of a batch was dispatched, one more step, given the
/// contract's balances, ends the batch: what is left goes to the fallback
/// address, nothing is stored of the batch any more, and a new batch can
/// start.
pub proof fn lemma_batch_ends(
    storage: StorageView,
    contract_address: Seq<char>,
    state: MulticallStateView,
    funds: Seq<(Seq<char>, u128)>,
    calls: Seq<CallView>,
    fallback_address: Option<Seq<char>>,
)
    requires
        storage.multicall_state == Some(state),
        state.current >= state.calls.len(),
    ensures
        step_verdict(
            storage,
            contract_address,
            contract_address,
            seq![HostReplyView::Coins(funds)],
        ) == Verdict::Ready(finished(state.fallback_address, funds)),
        step_storage(
            storage,
            contract_address,
            contract_address,
            seq![HostReplyView::Coins(funds)],
        ) == (StorageView { multicall_state: None, ..storage }),
        start_verdict(
            step_storage(
                storage,
                contract_address,
                contract_address,
                seq![HostReplyView::Coins(funds)],
            ),
            contract_address,
            calls,
            fallback_address,
        ) is Ok <==> batch_error(canonical_calls(calls), fallback_address) is None,
{
}

/// A batch in which any action asks for transfer tracking cannot start
/// without a fallback address.
pub proof fn lemma_start_needs_fallback(
    storage: StorageView,
    contract_address: Seq<char>,
    calls: Seq<CallView>,
)
    requires
        has_tracking(calls),
    ensures
        start_verdict(storage, contract_address, calls, None) is Err,
        storage.multicall_state is None ==> start_verdict(storage, contract_address, calls, None)
            == Err::<ResponseView, ContractErrorView>(
            ContractErrorView::FallbackAddressMustBeSetForIbcTracking,
        ),
        start_storage(storage, contract_address, calls, None) == storage,
{
    crate::state::lemma_tracking_needs_fallback(calls);
}

/// The batch that is stored is always as a batch must be: a start stores such
/// a batch, and a step leaves such a batch such a batch.
pub proof fn lemma_stored_batch_well_formed(
    storage: StorageView,
    contract_address: Seq<char>,
    sender: Seq<char>,
    calls: Seq<CallView>,
    fallback_address: Option<Seq<char>>,
    replies: Seq<HostReplyView>,
)
    requires
        storage.multicall_state matches Some(state) ==> state.well_formed(),
    ensures
        start_storage(storage, contract_address, calls, fallback_address).multicall_state matches Some(
            state,
        ) ==> state.well_formed(),
        step_storage(storage, contract_address, sender, replies).multicall_state matches Some(state)
            ==> state.well_formed(),
{
}

/// The token whose balance a balance fetch asks for.
pub open spec fn fetched_token(action: CallActionView) -> Seq<char> {
    match action {
        CallActionView::NativeBalanceFetch { denom, .. } => denom,
        CallActionView::Cw20BalanceFetch { contract, .. } => contract,
        _ => Seq::empty(),
    }
}

/// A step whose call comes to a balance fetch that observes a balance of zero
/// fails, and leaves what is stored as it was: the cursor does not move.
pub proof fn lemma_zero_balance_aborts_step(
    storage: StorageView,
    contract_address: Seq<char>,
    replies: Seq<HostReplyView>,
    at: int,
    frame: Frame,
)
    requires
        storage.multicall_state matches Some(state) && state.current < state.calls.len() && {
            let call = state.calls[state.current as int];
            &&& 0 <= at < call.actions.len()
            &&& call.actions[at] is NativeBalanceFetch || call.actions[at] is Cw20BalanceFetch
            &&& interpret(call, replies, state.fallback_address) == run(
                call.actions,
                at,
                frame,
                replies,
                state.fallback_address,
            )
        },
        frame.used < replies.len(),
        replies[frame.used as int] == HostReplyView::Amount(0),
    ensures
        step_verdict(storage, contract_address, contract_address, replies) == Verdict::Failed(
            ContractErrorView::ZeroBalanceFetched {
                token: fetched_token(
                    storage.multicall_state->Some_0.calls[storage.multicall_state->Some_0.current as int].actions[at],
                ),
            },
        ),
        step_storage(storage, contract_address, contract_address, replies) == storage,
{
    let state = storage.multicall_state->Some_0;
    let call = state.calls[state.current as int];
    lemma_zero_balance_fails(call.actions[at], frame, replies, state.fallback_address);
    lemma_failure_ends_run(call.actions, at, frame, replies, state.fallback_address);
}

/// Once the supervision layer has a failure to recover from and an answer
/// about the contract's balances, no batch is stored afterwards, whatever the
/// answer is and whether or not anything was recovered: the lock is released,
/// and a valid batch can start.
pub proof fn lemma_recovery_releases_lock(
    storage: StorageView,
    origin_err: String,
    replies: Seq<HostReplyView>,
    contract_address: Seq<char>,
    calls: Seq<CallView>,
    fallback_address: Option<Seq<char>>,
)
    requires
        replies.len() > 0,
    ensures
        fallback_storage(
            storage,
            SubMsgResult::Failure(origin_err),
            replies,
        ).multicall_state is None,
        batch_error(canonical_calls(calls), fallback_address) is None ==> start_verdict(
            fallback_storage(storage, SubMsgResult::Failure(origin_err), replies),
            contract_address,
            calls,
            fallback_address,
        ) == Ok::<ResponseView, ContractErrorView>(started(contract_address)),
{
}

} // verus!
