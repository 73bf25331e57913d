use multicall::commands::{
    handle_call, handle_call_reply, handle_execution_fallback_reply, handle_ibc_tracking_reply,
    handle_multicall,
};
use multicall::contract::{execute, query, reply, sudo};
use multicall::error::{ContractError, IbcTrackingError, StdError};
use multicall::host::{
    Attribute, CosmosMsg, HostReply, HostRequest, Progress, Reply, ReplyOn, Response, SubMsg,
    SubMsgResult,
};
use multicall::ibc_tracking::{
    handle_ibc_transfer_reply, load_awaiting_ibc_transfer_optional, load_ibc_transfer_reply_state,
    receive_ack, receive_timeout, store_awaiting_ibc_transfer, store_ibc_transfer_reply_state,
};
use multicall::msg::{
    Call, CallAction, Coin, ExecuteMsg, IBCLifecycleComplete, MsgReplyId, QueryMsg,
    SerializableJson, SudoMsg,
};
use multicall::queries::{multi_query, MultiQueryResponse};
use multicall::state::{
    load_multicall_state, multicall_state_exists, remove_multicall_state, store_multicall_state,
    MulticallState,
};
use multicall::storage::{IbcTransferReplyState, Storage};
use multicall::value::Value;
use prost::Message;

const CONTRACT: &str = "contract0000";

fn text(s: &str) -> Value {
    Value::String(s.to_owned())
}

fn map(entries: Vec<(&str, Value)>) -> Value {
    Value::Mapping(entries.into_iter().map(|(k, v)| (text(k), v)).collect())
}

fn send(denom: &str, amount: &str, to: &str) -> Value {
    map(vec![
        ("amount", text(amount)),
        ("denom", text(denom)),
        ("to_address", text(to)),
    ])
}

fn plain(name: &str) -> Call {
    Call { msg: SerializableJson(text(name)), actions: vec![] }
}

fn fetching(denom: &str) -> Call {
    Call {
        msg: SerializableJson(send(denom, "0", "A")),
        actions: vec![CallAction::NativeBalanceFetch {
            denom: denom.to_owned(),
            replacer: "/amount".to_owned(),
        }],
    }
}

fn coin(denom: &str, amount: u128) -> Coin {
    Coin { denom: denom.to_owned(), amount }
}

fn attribute(key: &str, value: &str) -> Attribute {
    Attribute { key: key.to_owned(), value: value.to_owned() }
}

fn next_call() -> CosmosMsg {
    CosmosMsg::ProcessNextCall { contract_addr: CONTRACT.to_owned() }
}

fn started() -> Response {
    Response {
        messages: vec![SubMsg { id: 3, msg: next_call(), reply_on: ReplyOn::Error }],
        attributes: vec![],
    }
}

fn dispatching(msg: Value, id: u64) -> Response {
    Response {
        messages: vec![SubMsg { id, msg: CosmosMsg::Call(msg), reply_on: ReplyOn::Success }],
        attributes: vec![],
    }
}

fn record(channel: &str, amount: u128) -> IbcTransferReplyState {
    IbcTransferReplyState {
        local_fallback_address: "fallback".to_owned(),
        channel: channel.to_owned(),
        denom: "usquid".to_owned(),
        amount,
    }
}

fn refund(record: &IbcTransferReplyState) -> Response {
    Response {
        messages: vec![SubMsg {
            id: 0,
            msg: CosmosMsg::BankSend {
                to_address: record.local_fallback_address.clone(),
                amount: vec![coin(&record.denom, record.amount)],
            },
            reply_on: ReplyOn::Never,
        }],
        attributes: vec![],
    }
}

fn accepted(sequence: u64) -> Reply {
    let response =
        osmosis_std::types::ibc::applications::transfer::v1::MsgTransferResponse { sequence };
    Reply {
        id: MsgReplyId::IbcTransferTracking.repr(),
        result: SubMsgResult::Success { data: Some(response.encode_to_vec()) },
    }
}

fn failure(id: u64, reason: &str) -> Reply {
    Reply { id, result: SubMsgResult::Failure(reason.to_owned()) }
}

#[test]
fn a_batch_runs_in_the_order_of_submission() {
    let mut storage = Storage::new();
    let calls = vec![plain("first"), plain("second"), plain("third")];
    assert_eq!(handle_multicall(&mut storage, CONTRACT, calls, None), Ok(started()));
    assert!(multicall_state_exists(&storage));

    for name in ["first", "second", "third"] {
        assert_eq!(
            handle_call(&mut storage, CONTRACT, CONTRACT, &vec![]),
            Ok(Progress::Pending(HostRequest::IntoCosmosMsg { msg: text(name) }))
        );
        assert_eq!(
            handle_call(&mut storage, CONTRACT, CONTRACT, &vec![HostReply::Accepted]),
            Ok(Progress::Ready(dispatching(text(name), 1)))
        );
        assert!(multicall_state_exists(&storage));
        assert_eq!(
            handle_call_reply(CONTRACT),
            Ok(Response {
                messages: vec![SubMsg { id: 0, msg: next_call(), reply_on: ReplyOn::Never }],
                attributes: vec![],
            })
        );
    }

    assert_eq!(
        handle_call(&mut storage, CONTRACT, CONTRACT, &vec![]),
        Ok(Progress::Pending(HostRequest::AllBalances))
    );
    assert!(multicall_state_exists(&storage));
    assert_eq!(
        handle_call(&mut storage, CONTRACT, CONTRACT, &vec![HostReply::Coins(vec![])]),
        Ok(Progress::Ready(Response {
            messages: vec![],
            attributes: vec![attribute("multicall_execution", "success")],
        }))
    );
    assert_eq!(storage, Storage::new());
}

#[test]
fn a_fetched_balance_is_dispatched_and_the_rest_is_swept() {
    let mut storage = Storage::new();
    let started_with = handle_multicall(
        &mut storage,
        CONTRACT,
        vec![fetching("u")],
        Some("fallback".to_owned()),
    );
    assert_eq!(started_with, Ok(started()));
    assert_eq!(
        handle_call(&mut storage, CONTRACT, CONTRACT, &vec![]),
        Ok(Progress::Pending(HostRequest::NativeBalance { denom: "u".to_owned() }))
    );
    assert_eq!(
        handle_call(
            &mut storage,
            CONTRACT,
            CONTRACT,
            &vec![HostReply::Amount(333), HostReply::Accepted]
        ),
        Ok(Progress::Ready(dispatching(send("u", "333", "A"), 1)))
    );
    assert_eq!(
        handle_call(
            &mut storage,
            CONTRACT,
            CONTRACT,
            &vec![HostReply::Coins(vec![coin("u", 4), coin("v", 5)])]
        ),
        Ok(Progress::Ready(Response {
            messages: vec![SubMsg {
                id: 0,
                msg: CosmosMsg::BankSend {
                    to_address: "fallback".to_owned(),
                    amount: vec![coin("u", 4), coin("v", 5)],
                },
                reply_on: ReplyOn::Never,
            }],
            attributes: vec![
                attribute("multicall_execution", "success"),
                attribute("leftover_funds", "recovered"),
            ],
        }))
    );
    assert!(!multicall_state_exists(&storage));
}

#[test]
fn leftover_funds_stay_where_no_fallback_address_is() {
    let mut storage = Storage::new();
    handle_multicall(&mut storage, CONTRACT, vec![plain("only")], None).unwrap();
    handle_call(&mut storage, CONTRACT, CONTRACT, &vec![HostReply::Accepted]).unwrap();
    assert_eq!(
        handle_call(&mut storage, CONTRACT, CONTRACT, &vec![HostReply::Coins(vec![coin("u", 4)])]),
        Ok(Progress::Ready(Response {
            messages: vec![],
            attributes: vec![attribute("multicall_execution", "success")],
        }))
    );
    assert!(!multicall_state_exists(&storage));
}

#[test]
fn a_second_batch_is_locked_out() {
    let mut storage = Storage::new();
    handle_multicall(&mut storage, CONTRACT, vec![plain("first")], None).unwrap();
    let before = load_multicall_state(&storage).unwrap();
    assert_eq!(
        handle_multicall(&mut storage, CONTRACT, vec![plain("second")], None),
        Err(ContractError::ContractLocked {
            msg: "Another multicall action is in progress".to_owned()
        })
    );
    assert_eq!(
        handle_multicall(&mut storage, CONTRACT, vec![], None),
        Err(ContractError::ContractLocked {
            msg: "Another multicall action is in progress".to_owned()
        })
    );
    assert_eq!(load_multicall_state(&storage), Ok(before));
}

#[test]
fn a_batch_that_is_not_valid_stores_nothing() {
    let mut storage = Storage::new();
    assert_eq!(
        handle_multicall(&mut storage, CONTRACT, vec![], Some("fallback".to_owned())),
        Err(ContractError::EmptyCallsList {})
    );
    let tracking = Call {
        msg: SerializableJson(text("m")),
        actions: vec![CallAction::IbcTracking {
            channel: "channel-0".to_owned(),
            denom: "usquid".to_owned(),
            amount: Some(1),
            amount_pointer: None,
        }],
    };
    assert_eq!(
        handle_multicall(&mut storage, CONTRACT, vec![plain("a"), tracking], None),
        Err(ContractError::FallbackAddressMustBeSetForIbcTracking {})
    );
    assert_eq!(storage, Storage::new());
}

#[test]
fn only_the_contract_steps() {
    let mut storage = Storage::new();
    handle_multicall(&mut storage, CONTRACT, vec![plain("first")], None).unwrap();
    let before = load_multicall_state(&storage).unwrap();
    assert_eq!(
        handle_call(&mut storage, CONTRACT, "stranger", &vec![HostReply::Accepted]),
        Err(ContractError::CanBeCalledOnlyByContractItself {})
    );
    assert_eq!(load_multicall_state(&storage), Ok(before));
}

#[test]
fn a_step_needs_a_batch() {
    let mut storage = Storage::new();
    assert_eq!(
        handle_call(&mut storage, CONTRACT, CONTRACT, &vec![]),
        Err(ContractError::Std(StdError::NotFound { kind: "MulticallState".to_owned() }))
    );
    assert_eq!(storage, Storage::new());
}

#[test]
fn a_zero_balance_keeps_the_cursor() {
    let mut storage = Storage::new();
    handle_multicall(&mut storage, CONTRACT, vec![plain("first"), fetching("u")], None).unwrap();
    handle_call(&mut storage, CONTRACT, CONTRACT, &vec![HostReply::Accepted]).unwrap();
    let before = load_multicall_state(&storage).unwrap();
    assert_eq!(
        handle_call(&mut storage, CONTRACT, CONTRACT, &vec![HostReply::Amount(0)]),
        Err(ContractError::ZeroBalanceFetched { token: "u".to_owned() })
    );
    assert_eq!(load_multicall_state(&storage), Ok(before));
    assert_eq!(
        handle_call(
            &mut storage,
            CONTRACT,
            CONTRACT,
            &vec![HostReply::Amount(2), HostReply::Accepted]
        ),
        Ok(Progress::Ready(dispatching(send("u", "2", "A"), 1)))
    );
}

#[test]
fn a_failed_step_is_recovered_and_releases_the_lock() {
    let mut storage = Storage::new();
    let calls = vec![plain("first"), fetching("u"), plain("third")];
    handle_multicall(&mut storage, CONTRACT, calls, Some("fallback".to_owned())).unwrap();
    handle_call(&mut storage, CONTRACT, CONTRACT, &vec![HostReply::Accepted]).unwrap();
    let failed = handle_call(&mut storage, CONTRACT, CONTRACT, &vec![HostReply::Amount(0)]);
    assert_eq!(failed, Err(ContractError::ZeroBalanceFetched { token: "u".to_owned() }));
    assert!(multicall_state_exists(&storage));

    let signal = || failure(MsgReplyId::ExecutionFallback.repr(), "zero balance");
    assert_eq!(
        handle_execution_fallback_reply(&mut storage, signal(), &vec![]),
        Ok(Progress::Pending(HostRequest::AllBalances))
    );
    assert!(multicall_state_exists(&storage));
    assert_eq!(
        handle_execution_fallback_reply(
            &mut storage,
            signal(),
            &vec![HostReply::Coins(vec![coin("u", 10), coin("v", 1)])]
        ),
        Ok(Progress::Ready(Response {
            messages: vec![SubMsg {
                id: 0,
                msg: CosmosMsg::BankSend {
                    to_address: "fallback".to_owned(),
                    amount: vec![coin("u", 10), coin("v", 1)],
                },
                reply_on: ReplyOn::Never,
            }],
            attributes: vec![attribute("multicall_execution", "recovered")],
        }))
    );
    assert!(!multicall_state_exists(&storage));
    assert_eq!(
        handle_multicall(&mut storage, CONTRACT, vec![plain("again")], None),
        Ok(started())
    );
}

#[test]
fn a_recovery_that_finds_nothing_still_releases_the_lock() {
    let mut storage = Storage::new();
    handle_multicall(&mut storage, CONTRACT, vec![plain("a")], Some("fallback".to_owned())).unwrap();
    assert_eq!(
        handle_execution_fallback_reply(
            &mut storage,
            failure(3, "origin"),
            &vec![HostReply::Coins(vec![])]
        ),
        Err(ContractError::RecoveryError {
            msg: "No funds to recover".to_owned(),
            origin_err: "origin".to_owned(),
        })
    );
    assert!(!multicall_state_exists(&storage));

    handle_multicall(&mut storage, CONTRACT, vec![plain("a")], None).unwrap();
    assert_eq!(
        handle_execution_fallback_reply(
            &mut storage,
            failure(3, "origin"),
            &vec![HostReply::Coins(vec![coin("u", 1)])]
        ),
        Err(ContractError::RecoveryError {
            msg: "No funds to recover".to_owned(),
            origin_err: "origin".to_owned(),
        })
    );
    assert!(!multicall_state_exists(&storage));

    handle_multicall(&mut storage, CONTRACT, vec![plain("a")], None).unwrap();
    assert_eq!(
        handle_execution_fallback_reply(
            &mut storage,
            failure(3, "origin"),
            &vec![HostReply::Failed { reason: "bank is down".to_owned() }]
        ),
        Err(ContractError::Std(StdError::GenericErr { msg: "bank is down".to_owned() }))
    );
    assert!(!multicall_state_exists(&storage));
}

#[test]
fn a_recovery_expects_a_failure_and_a_batch() {
    let mut storage = Storage::new();
    assert_eq!(
        handle_execution_fallback_reply(
            &mut storage,
            failure(3, "origin"),
            &vec![HostReply::Coins(vec![coin("u", 1)])]
        ),
        Err(ContractError::Std(StdError::NotFound { kind: "MulticallState".to_owned() }))
    );
    handle_multicall(&mut storage, CONTRACT, vec![plain("a")], None).unwrap();
    assert_eq!(
        handle_execution_fallback_reply(
            &mut storage,
            Reply { id: 3, result: SubMsgResult::Success { data: None } },
            &vec![HostReply::Coins(vec![coin("u", 1)])]
        ),
        Err(ContractError::ErrorReplyExpected {})
    );
    assert!(multicall_state_exists(&storage));
}

#[test]
fn a_tracked_transfer_is_registered_in_two_phases() {
    let mut storage = Storage::new();
    let transfer = Call {
        msg: SerializableJson(map(vec![("amount", text("77"))])),
        actions: vec![CallAction::IbcTracking {
            channel: "channel-3".to_owned(),
            denom: "usquid".to_owned(),
            amount: None,
            amount_pointer: Some("/amount".to_owned()),
        }],
    };
    handle_multicall(&mut storage, CONTRACT, vec![transfer], Some("fallback".to_owned())).unwrap();
    assert_eq!(
        handle_call(&mut storage, CONTRACT, CONTRACT, &vec![HostReply::Accepted]),
        Ok(Progress::Ready(dispatching(map(vec![("amount", text("77"))]), 2)))
    );
    assert_eq!(storage.ibc_transfer_reply_state, Some(record("channel-3", 77)));

    assert_eq!(
        handle_ibc_tracking_reply(&mut storage, CONTRACT, accepted(41)),
        Ok(Response {
            messages: vec![SubMsg { id: 0, msg: next_call(), reply_on: ReplyOn::Never }],
            attributes: vec![],
        })
    );
    assert_eq!(storage.ibc_transfer_reply_state, None);
    assert_eq!(
        load_awaiting_ibc_transfer_optional(&mut storage, "channel-3", 40),
        None
    );
    assert_eq!(
        load_awaiting_ibc_transfer_optional(&mut storage, "channel-3", 41),
        Some(record("channel-3", 77))
    );
    assert_eq!(
        load_awaiting_ibc_transfer_optional(&mut storage, "channel-3", 41),
        None
    );
}

#[test]
fn an_acceptance_that_cannot_be_read_changes_nothing() {
    let mut storage = Storage::new();
    store_ibc_transfer_reply_state(&mut storage, &record("channel-3", 5));
    let pending = Some(record("channel-3", 5));
    assert_eq!(
        handle_ibc_transfer_reply(&mut storage, failure(2, "refused")),
        Err(IbcTrackingError::FailedIBCTransfer { msg: "Reply failed".to_owned() })
    );
    assert_eq!(
        handle_ibc_transfer_reply(
            &mut storage,
            Reply { id: 2, result: SubMsgResult::Success { data: None } }
        ),
        Err(IbcTrackingError::FailedIBCTransfer { msg: "Reply failed".to_owned() })
    );
    assert_eq!(
        handle_ibc_transfer_reply(
            &mut storage,
            Reply { id: 2, result: SubMsgResult::Success { data: Some(vec![0x08]) } }
        ),
        Err(IbcTrackingError::FailedIBCTransfer {
            msg: "Failed to decode ibc transfer response".to_owned()
        })
    );
    assert_eq!(
        handle_ibc_tracking_reply(&mut storage, CONTRACT, failure(2, "refused")),
        Err(ContractError::IbcTrackingError(IbcTrackingError::FailedIBCTransfer {
            msg: "Reply failed".to_owned()
        }))
    );
    assert_eq!(storage.ibc_transfer_reply_state, pending);
    assert!(storage.awaiting_ibc_transfers.is_empty());

    assert_eq!(handle_ibc_transfer_reply(&mut storage, accepted(300)), Ok(Response::new()));
    assert_eq!(
        handle_ibc_transfer_reply(&mut storage, accepted(301)),
        Err(IbcTrackingError::Std(StdError::NotFound {
            kind: "IbcTransferReplyState".to_owned()
        }))
    );
    assert_eq!(
        load_ibc_transfer_reply_state(&mut storage),
        Err(StdError::NotFound { kind: "IbcTransferReplyState".to_owned() })
    );
    assert_eq!(
        load_awaiting_ibc_transfer_optional(&mut storage, "channel-3", 300),
        Some(record("channel-3", 5))
    );
}

#[test]
fn an_ack_without_a_record_is_a_silent_no_op() {
    let mut storage = Storage::new();
    store_awaiting_ibc_transfer(&mut storage, 7, &record("channel-1", 10));
    store_multicall_state(
        &mut storage,
        &MulticallState::new(vec![plain("a")], None).unwrap(),
    );
    let mut expected = Storage::new();
    store_awaiting_ibc_transfer(&mut expected, 7, &record("channel-1", 10));
    store_multicall_state(
        &mut expected,
        &MulticallState::new(vec![plain("a")], None).unwrap(),
    );

    assert_eq!(receive_ack(&mut storage, "channel-1", 8, false), Ok(Response::new()));
    assert_eq!(receive_ack(&mut storage, "channel-1", 8, true), Ok(Response::new()));
    assert_eq!(receive_ack(&mut storage, "channel-2", 7, false), Ok(Response::new()));
    assert_eq!(receive_timeout(&mut storage, "channel-2", 7), Ok(Response::new()));
    assert_eq!(storage, expected);
}

#[test]
fn a_failed_transfer_is_refunded_once() {
    let mut storage = Storage::new();
    store_awaiting_ibc_transfer(&mut storage, 7, &record("channel-1", 10));
    store_awaiting_ibc_transfer(&mut storage, 8, &record("channel-1", 20));
    store_awaiting_ibc_transfer(&mut storage, 7, &record("channel-2", 30));

    assert_eq!(
        receive_ack(&mut storage, "channel-1", 7, false),
        Ok(refund(&record("channel-1", 10)))
    );
    assert_eq!(receive_ack(&mut storage, "channel-1", 7, false), Ok(Response::new()));
    assert_eq!(
        receive_timeout(&mut storage, "channel-2", 7),
        Ok(refund(&record("channel-2", 30)))
    );
    assert_eq!(receive_ack(&mut storage, "channel-1", 8, true), Ok(Response::new()));
    assert_eq!(receive_timeout(&mut storage, "channel-1", 8), Ok(Response::new()));
    assert!(storage.awaiting_ibc_transfers.is_empty());
}

#[test]
fn a_later_record_replaces_an_earlier_one() {
    let mut storage = Storage::new();
    store_awaiting_ibc_transfer(&mut storage, 7, &record("channel-1", 10));
    store_awaiting_ibc_transfer(&mut storage, 7, &record("channel-1", 11));
    assert_eq!(
        load_awaiting_ibc_transfer_optional(&mut storage, "channel-1", 7),
        Some(record("channel-1", 11))
    );
    assert_eq!(load_awaiting_ibc_transfer_optional(&mut storage, "channel-1", 7), None);
}

#[test]
fn the_batch_is_stored_loaded_and_removed() {
    let mut storage = Storage::new();
    assert!(!multicall_state_exists(&storage));
    assert_eq!(
        load_multicall_state(&storage),
        Err(StdError::NotFound { kind: "MulticallState".to_owned() })
    );
    let mut state = MulticallState::new(vec![plain("a"), plain("b")], None).unwrap();
    state.next_call();
    store_multicall_state(&mut storage, &state);
    assert!(multicall_state_exists(&storage));
    let mut loaded = load_multicall_state(&storage).unwrap();
    assert_eq!(loaded, state);
    assert_eq!(loaded.next_call(), Some(&plain("b")));
    remove_multicall_state(&mut storage);
    assert_eq!(storage, Storage::new());
    remove_multicall_state(&mut storage);
    assert_eq!(storage, Storage::new());
}

#[test]
fn messages_reach_their_handlers() {
    let mut storage = Storage::new();
    assert_eq!(
        execute(
            &mut storage,
            CONTRACT,
            "anyone",
            ExecuteMsg::Multicall { calls: vec![plain("a")], fallback_address: None },
            &vec![]
        ),
        Ok(Progress::Ready(started()))
    );
    assert_eq!(
        execute(&mut storage, CONTRACT, "anyone", ExecuteMsg::ProcessNextCall {}, &vec![]),
        Err(ContractError::CanBeCalledOnlyByContractItself {})
    );
    assert_eq!(
        execute(
            &mut storage,
            CONTRACT,
            CONTRACT,
            ExecuteMsg::ProcessNextCall {},
            &vec![HostReply::Accepted]
        ),
        Ok(Progress::Ready(dispatching(text("a"), 1)))
    );
}

#[test]
fn signals_reach_their_handlers() {
    let mut storage = Storage::new();
    let done = |id: u64| Reply { id, result: SubMsgResult::Success { data: None } };
    assert_eq!(
        reply(&mut storage, CONTRACT, done(1), &vec![]),
        Ok(Progress::Ready(Response {
            messages: vec![SubMsg { id: 0, msg: next_call(), reply_on: ReplyOn::Never }],
            attributes: vec![],
        }))
    );
    assert_eq!(
        reply(&mut storage, CONTRACT, done(2), &vec![]),
        Err(ContractError::IbcTrackingError(IbcTrackingError::FailedIBCTransfer {
            msg: "Reply failed".to_owned()
        }))
    );
    assert_eq!(
        reply(&mut storage, CONTRACT, done(3), &vec![]),
        Err(ContractError::ErrorReplyExpected {})
    );
    for id in [0, 4, u64::MAX] {
        assert_eq!(
            reply(&mut storage, CONTRACT, done(id), &vec![]),
            Err(ContractError::InvalidReplyId {})
        );
    }
    assert_eq!(MsgReplyId::from_repr(1), Some(MsgReplyId::ProcessCall));
    assert_eq!(MsgReplyId::from_repr(2), Some(MsgReplyId::IbcTransferTracking));
    assert_eq!(MsgReplyId::from_repr(3), Some(MsgReplyId::ExecutionFallback));
    assert_eq!(MsgReplyId::from_repr(4), None);
    assert_eq!(storage, Storage::new());
}

#[test]
fn lifecycle_signals_reach_the_ledger() {
    let mut storage = Storage::new();
    store_awaiting_ibc_transfer(&mut storage, 1, &record("channel-1", 10));
    store_awaiting_ibc_transfer(&mut storage, 2, &record("channel-1", 20));
    store_awaiting_ibc_transfer(&mut storage, 3, &record("channel-1", 30));
    let ack = |sequence: u64, success: bool| {
        SudoMsg::IBCLifecycleComplete(IBCLifecycleComplete::IBCAck {
            channel: "channel-1".to_owned(),
            sequence,
            ack: "{}".to_owned(),
            success,
        })
    };
    assert_eq!(sudo(&mut storage, ack(1, true)), Ok(Response::new()));
    assert_eq!(sudo(&mut storage, ack(2, false)), Ok(refund(&record("channel-1", 20))));
    assert_eq!(
        sudo(
            &mut storage,
            SudoMsg::IBCLifecycleComplete(IBCLifecycleComplete::IBCTimeout {
                channel: "channel-1".to_owned(),
                sequence: 3,
            })
        ),
        Ok(refund(&record("channel-1", 30)))
    );
    assert!(storage.awaiting_ibc_transfers.is_empty());
}

#[test]
fn queries_are_answered_in_order() {
    let queries = || vec![SerializableJson(text("q1")), SerializableJson(text("q2"))];
    assert_eq!(
        multi_query(&queries(), &vec![]),
        Ok(Progress::Pending(HostRequest::Query { query_msg: text("q1") }))
    );
    assert_eq!(
        multi_query(&queries(), &vec![HostReply::Response(text("r1"))]),
        Ok(Progress::Pending(HostRequest::Query { query_msg: text("q2") }))
    );
    assert_eq!(
        query(
            QueryMsg::MultiQuery { queries: queries() },
            &vec![HostReply::Response(text("r1")), HostReply::Response(Value::U64(2))]
        ),
        Ok(Progress::Ready(MultiQueryResponse {
            responses: vec![SerializableJson(text("r1")), SerializableJson(Value::U64(2))]
        }))
    );
    assert_eq!(
        multi_query(&queries(), &vec![HostReply::Response(text("r1")), HostReply::Rejected]),
        Err(StdError::GenericErr { msg: "Failed to serialize query message".to_owned() })
    );
    assert_eq!(
        multi_query(&queries(), &vec![HostReply::Failed { reason: "down".to_owned() }]),
        Err(StdError::GenericErr { msg: "down".to_owned() })
    );
    assert_eq!(
        multi_query(&vec![], &vec![]),
        Ok(Progress::Ready(MultiQueryResponse { responses: vec![] }))
    );
}
