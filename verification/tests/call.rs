use cosmwasm_std::{BankMsg, Binary, Coin, CosmosMsg, Empty, QueryRequest, Uint128, WasmMsg, WasmQuery};
use multicall::error::{ContractError, StdError};
use multicall::host::{self, HostReply, HostRequest, Progress, ReplyOn, SubMsg};
use multicall::msg::{Call, CallAction, MsgReplyId, ProtoMessageType, ReplaceInfo, SerializableJson};
use multicall::storage::{IbcTransferReplyState, Storage};
use multicall::value::Value;
use osmosis_std::types::ibc::applications::transfer::v1::MsgTransfer;
use prost::Message;
use std::collections::BTreeMap;

fn to_tree(value: &serde_cw_value::Value) -> Value {
    match value {
        serde_cw_value::Value::Bool(v) => Value::Bool(*v),
        serde_cw_value::Value::U8(v) => Value::U8(*v),
        serde_cw_value::Value::U16(v) => Value::U16(*v),
        serde_cw_value::Value::U32(v) => Value::U32(*v),
        serde_cw_value::Value::U64(v) => Value::U64(*v),
        serde_cw_value::Value::I8(v) => Value::I8(*v),
        serde_cw_value::Value::I16(v) => Value::I16(*v),
        serde_cw_value::Value::I32(v) => Value::I32(*v),
        serde_cw_value::Value::I64(v) => Value::I64(*v),
        serde_cw_value::Value::Char(v) => Value::Char(*v),
        serde_cw_value::Value::String(v) => Value::String(v.clone()),
        serde_cw_value::Value::Unit => Value::Unit,
        serde_cw_value::Value::Option(v) => {
            Value::Option(v.as_ref().map(|inner| Box::new(to_tree(inner))))
        }
        serde_cw_value::Value::Newtype(v) => Value::Newtype(Box::new(to_tree(v))),
        serde_cw_value::Value::Seq(v) => Value::Sequence(v.iter().map(to_tree).collect()),
        serde_cw_value::Value::Map(v) => {
            Value::Mapping(v.iter().map(|(k, x)| (to_tree(k), to_tree(x))).collect())
        }
        serde_cw_value::Value::Bytes(v) => Value::Bytes(v.clone()),
    }
}

fn from_tree(value: &Value) -> serde_cw_value::Value {
    match value {
        Value::Bool(v) => serde_cw_value::Value::Bool(*v),
        Value::U8(v) => serde_cw_value::Value::U8(*v),
        Value::U16(v) => serde_cw_value::Value::U16(*v),
        Value::U32(v) => serde_cw_value::Value::U32(*v),
        Value::U64(v) => serde_cw_value::Value::U64(*v),
        Value::I8(v) => serde_cw_value::Value::I8(*v),
        Value::I16(v) => serde_cw_value::Value::I16(*v),
        Value::I32(v) => serde_cw_value::Value::I32(*v),
        Value::I64(v) => serde_cw_value::Value::I64(*v),
        Value::Char(v) => serde_cw_value::Value::Char(*v),
        Value::String(v) => serde_cw_value::Value::String(v.clone()),
        Value::Unit => serde_cw_value::Value::Unit,
        Value::Option(v) => {
            serde_cw_value::Value::Option(v.as_ref().map(|inner| Box::new(from_tree(inner))))
        }
        Value::Newtype(v) => serde_cw_value::Value::Newtype(Box::new(from_tree(v))),
        Value::Sequence(v) => serde_cw_value::Value::Seq(v.iter().map(from_tree).collect()),
        Value::Mapping(v) => serde_cw_value::Value::Map(
            v.iter().map(|(k, x)| (from_tree(k), from_tree(x))).collect::<BTreeMap<_, _>>(),
        ),
        Value::Bytes(v) => serde_cw_value::Value::Bytes(v.clone()),
    }
}

fn parse(json: &str) -> Value {
    let value: serde_cw_value::Value = serde_json_wasm::from_str(json).unwrap();
    to_tree(&value)
}

fn json(text: &str) -> SerializableJson {
    SerializableJson(parse(text))
}

fn field<'a>(value: &'a serde_cw_value::Value, key: &str) -> Option<&'a serde_cw_value::Value> {
    match value {
        serde_cw_value::Value::Map(map) => map.get(&serde_cw_value::Value::String(key.to_owned())),
        _ => None,
    }
}

fn string_field(value: &serde_cw_value::Value, key: &str) -> Option<String> {
    match field(value, key) {
        Some(serde_cw_value::Value::String(s)) => Some(s.clone()),
        _ => None,
    }
}

fn transfer_from(value: &serde_cw_value::Value) -> Option<MsgTransfer> {
    let token = match field(value, "token") {
        Some(token) => Some(osmosis_std::types::cosmos::base::v1beta1::Coin {
            denom: string_field(token, "denom")?,
            amount: string_field(token, "amount")?,
        }),
        None => None,
    };
    let timeout_timestamp = match field(value, "timeout_timestamp") {
        Some(serde_cw_value::Value::U64(n)) => *n,
        _ => return None,
    };
    Some(MsgTransfer {
        source_port: string_field(value, "source_port")?,
        source_channel: string_field(value, "source_channel")?,
        token,
        sender: string_field(value, "sender")?,
        receiver: string_field(value, "receiver")?,
        timeout_height: None,
        timeout_timestamp,
        memo: string_field(value, "memo")?,
    })
}

/// Answers as the contract's surroundings would: balances of 333 `usquid` and
/// no `uzero`, 1337 at the token contract `cw20`, and a fee query.
fn perform(request: &HostRequest) -> HostReply {
    match request {
        HostRequest::NativeBalance { denom } => match denom.as_str() {
            "usquid" => HostReply::Amount(333),
            "uzero" => HostReply::Amount(0),
            _ => panic!("query not mocked"),
        },
        HostRequest::Cw20Balance { contract } => match contract.as_str() {
            "cw20" => HostReply::Amount(1337),
            _ => panic!("query not mocked"),
        },
        HostRequest::AllBalances => HostReply::Coins(vec![]),
        HostRequest::Query { query_msg } => {
            match from_tree(query_msg).deserialize_into::<QueryRequest<Empty>>() {
                Ok(QueryRequest::Wasm(WasmQuery::Smart { contract_addr, msg })) => {
                    assert_eq!(contract_addr, "fee");
                    assert_eq!(msg, Binary::from(br#"{"fee":{}}"#.to_vec()));
                    HostReply::Response(parse(r#"{"denom": "ufee", "fee": "1312"}"#))
                }
                Ok(_) => panic!("query not mocked"),
                Err(_) => HostReply::Rejected,
            }
        }
        HostRequest::ToBinary { field } => match cosmwasm_std::to_json_vec(&from_tree(field)) {
            Ok(bytes) => HostReply::Binary(bytes),
            Err(e) => HostReply::Failed { reason: e.to_string() },
        },
        HostRequest::ToProtoBinary { field, proto_msg_type } => match proto_msg_type {
            ProtoMessageType::IbcTransfer => match transfer_from(&from_tree(field)) {
                Some(transfer) => HostReply::Binary(transfer.encode_to_vec()),
                None => HostReply::Rejected,
            },
            ProtoMessageType::OsmosisSwapExactAmtIn => HostReply::Rejected,
        },
        HostRequest::IntoCosmosMsg { msg } => match from_tree(msg).deserialize_into::<CosmosMsg>() {
            Ok(_) => HostReply::Accepted,
            Err(_) => HostReply::Rejected,
        },
    }
}

fn convert(
    call: &Call,
    storage: &mut Storage,
    fallback_address: &Option<String>,
) -> Result<SubMsg, ContractError> {
    let mut replies = Vec::new();
    loop {
        match call.try_into_msg(storage, &replies, fallback_address)? {
            Progress::Pending(request) => replies.push(perform(&request)),
            Progress::Ready(sub) => return Ok(sub),
        }
    }
}

fn dispatched(sub: &SubMsg) -> CosmosMsg {
    assert_eq!(sub.reply_on, ReplyOn::Success);
    match &sub.msg {
        host::CosmosMsg::Call(msg) => from_tree(msg).deserialize_into::<CosmosMsg>().unwrap(),
        other => panic!("unexpected {:?}", other),
    }
}

fn bank_send(denom: &str, actions: Vec<CallAction>) -> Call {
    Call {
        msg: json(&format!(
            r#"
        {{
            "bank": {{
              "send": {{
                "to_address": "squid19he7u694v4ekp6gm489e7skyz7lwdzmsjvduvq",
                "amount": [
                  {{
                    "denom": "{}",
                    "amount": "0"
                  }}
                ]
              }}
            }}
          }}
        "#,
            denom
        )),
        actions,
    }
}

fn ibc_template() -> SerializableJson {
    json(
        r#"
        {
            "stargate": {
                "type_url": "/ibc.applications.transfer.v1.MsgTransfer",
                "value": {
                    "source_port": "transfer",
                    "source_channel": "channel-3",
                    "token": {
                        "denom": "usquid",
                        "amount": "111111"
                    },
                    "sender": "osmo1vmpds4p8grwz54dygeljhq9vffssw5caydyj3heqd02f2seckk3smlug7w",
                    "receiver": "axelar15t9awn6jnxheckur5vc6dqv6pqlpph0hw24vwf",
                    "timeout_timestamp": 1693856646000000000,
                    "memo": "{\"ibc_callback\":\"addr0000\"}"
                }
            }
        }
        "#,
    )
}

fn expected_transfer() -> CosmosMsg {
    MsgTransfer {
        source_port: "transfer".to_owned(),
        source_channel: "channel-3".to_owned(),
        token: Some(osmosis_std::types::cosmos::base::v1beta1::Coin {
            denom: "usquid".to_owned(),
            amount: "111111".to_owned(),
        }),
        sender: "osmo1vmpds4p8grwz54dygeljhq9vffssw5caydyj3heqd02f2seckk3smlug7w".to_owned(),
        receiver: "axelar15t9awn6jnxheckur5vc6dqv6pqlpph0hw24vwf".to_owned(),
        timeout_height: None,
        timeout_timestamp: 1693856646000000000,
        memo: "{\"ibc_callback\":\"addr0000\"}".to_owned(),
    }
    .into()
}

#[test]
fn test_call_into_msg() {
    let mut storage = Storage::new();
    let fallback = Some("addr0000".to_owned());

    let bank_send_call = bank_send(
        "usquid",
        vec![CallAction::NativeBalanceFetch {
            denom: "usquid".to_owned(),
            replacer: "/bank/send/amount/0/amount".to_owned(),
        }],
    );

    let bank_send_msg = convert(&bank_send_call, &mut storage, &fallback).unwrap();

    assert_eq!(bank_send_msg.id, MsgReplyId::ProcessCall.repr());
    assert_eq!(
        dispatched(&bank_send_msg),
        CosmosMsg::Bank(BankMsg::Send {
            to_address: "squid19he7u694v4ekp6gm489e7skyz7lwdzmsjvduvq".to_owned(),
            amount: vec![Coin {
                denom: "usquid".to_owned(),
                amount: Uint128::from(333u128),
            }]
        })
    );

    let wasm_call = Call {
        msg: json(
            r#"
        {
            "wasm": {
                "execute": {
                    "contract_addr": "addr0001",
                    "msg": {
                        "on_behalf": "addr0002",
                        "amount": "0"
                    },
                    "funds": [
                        {
                            "denom": "usquid",
                            "amount": "0"
                        }
                    ]
                }
            }
        }
        "#,
        ),
        actions: vec![
            CallAction::Cw20BalanceFetch {
                contract: "cw20".to_owned(),
                replacer: "/wasm/execute/msg/amount".to_owned(),
            },
            CallAction::Cw20BalanceFetch {
                contract: "cw20".to_owned(),
                replacer: "/wasm/execute/funds/0/amount".to_owned(),
            },
            CallAction::FieldToBinary {
                replacer: "/wasm/execute/msg".to_owned(),
            },
        ],
    };

    let wasm_msg = convert(&wasm_call, &mut storage, &fallback).unwrap();

    assert_eq!(wasm_msg.id, MsgReplyId::ProcessCall.repr());
    assert_eq!(
        dispatched(&wasm_msg),
        CosmosMsg::Wasm(WasmMsg::Execute {
            contract_addr: "addr0001".to_owned(),
            msg: Binary::from(br#"{"amount":"1337","on_behalf":"addr0002"}"#.to_vec()),
            funds: vec![Coin {
                denom: "usquid".to_owned(),
                amount: Uint128::from(1337u128),
            }]
        })
    );

    let custom_query_call = bank_send(
        "u",
        vec![CallAction::CustomReplaceQuery {
            query_msg: json(
                r#"
            {
                "wasm": {
                    "smart": {
                        "contract_addr": "fee",
                        "msg": "eyJmZWUiOnt9fQ=="
                    }
                }
            }
            "#,
            ),
            replacers: vec![
                ReplaceInfo {
                    response_pointer: "/denom".to_owned(),
                    replacer: "/bank/send/amount/0/denom".to_owned(),
                },
                ReplaceInfo {
                    response_pointer: "/fee".to_owned(),
                    replacer: "/bank/send/amount/0/amount".to_owned(),
                },
            ],
        }],
    );

    let custom_query_msg = convert(&custom_query_call, &mut storage, &fallback).unwrap();

    assert_eq!(custom_query_msg.id, MsgReplyId::ProcessCall.repr());
    assert_eq!(
        dispatched(&custom_query_msg),
        CosmosMsg::Bank(BankMsg::Send {
            to_address: "squid19he7u694v4ekp6gm489e7skyz7lwdzmsjvduvq".to_owned(),
            amount: vec![Coin {
                denom: "ufee".to_owned(),
                amount: Uint128::from(1312u128),
            }]
        })
    );

    let ibc_call = Call {
        msg: ibc_template(),
        actions: vec![
            CallAction::IbcTracking {
                channel: "channel-3".to_owned(),
                denom: "usquid".to_owned(),
                amount: Some(111111u128),
                amount_pointer: None,
            },
            CallAction::FieldToProtoBinary {
                replacer: "/stargate/value".to_owned(),
                proto_msg_type: ProtoMessageType::IbcTransfer,
            },
        ],
    };

    let ibc_msg = convert(&ibc_call, &mut storage, &Some("addr0004".to_owned())).unwrap();

    assert_eq!(ibc_msg.id, MsgReplyId::IbcTransferTracking.repr());
    assert_eq!(dispatched(&ibc_msg), expected_transfer());

    let ibc_call = Call {
        msg: ibc_template(),
        actions: vec![
            CallAction::IbcTracking {
                channel: "channel-3".to_owned(),
                denom: "usquid".to_owned(),
                amount: None,
                amount_pointer: Some("/stargate/value/token/amount".to_owned()),
            },
            CallAction::FieldToProtoBinary {
                replacer: "/stargate/value".to_owned(),
                proto_msg_type: ProtoMessageType::IbcTransfer,
            },
        ],
    };

    let ibc_msg = convert(&ibc_call, &mut storage, &Some("addr0004".to_owned())).unwrap();

    assert_eq!(ibc_msg.id, MsgReplyId::IbcTransferTracking.repr());
    assert_eq!(dispatched(&ibc_msg), expected_transfer());

    let invalid_replacer_call = bank_send(
        "usquid",
        vec![CallAction::NativeBalanceFetch {
            denom: "usquid".to_owned(),
            replacer: "/bank/send/amount/1/amount".to_owned(),
        }],
    );

    let invalid_replacer_msg_err =
        convert(&invalid_replacer_call, &mut storage, &Some("addr0004".to_owned())).unwrap_err();

    match invalid_replacer_msg_err {
        ContractError::ReplacerFieldNotFound { replacer } => {
            assert_eq!(replacer, "/bank/send/amount/1/amount".to_owned());
        }
        _ => panic!("unexpected error"),
    };

    let zero_balance_call = bank_send(
        "uzero",
        vec![CallAction::NativeBalanceFetch {
            denom: "uzero".to_owned(),
            replacer: "/bank/send/amount/0/amount".to_owned(),
        }],
    );

    let zero_balance_msg_err =
        convert(&zero_balance_call, &mut storage, &Some("addr0004".to_owned())).unwrap_err();

    match zero_balance_msg_err {
        ContractError::ZeroBalanceFetched { token } => {
            assert_eq!(token, "uzero".to_owned());
        }

        _ => panic!("unexpected error"),
    }
}

#[test]
fn a_fetched_balance_is_written_in_decimal() {
    let mut storage = Storage::new();
    let call = Call {
        msg: json(r#"{"amount": "0"}"#),
        actions: vec![CallAction::NativeBalanceFetch {
            denom: "u".to_owned(),
            replacer: "/amount".to_owned(),
        }],
    };
    let step = call.try_into_msg(&mut storage, &vec![], &None);
    assert_eq!(
        step,
        Ok(Progress::Pending(HostRequest::NativeBalance { denom: "u".to_owned() }))
    );
    let step = call.try_into_msg(&mut storage, &vec![HostReply::Amount(333)], &None);
    assert_eq!(
        step,
        Ok(Progress::Pending(HostRequest::IntoCosmosMsg { msg: parse(r#"{"amount": "333"}"#) }))
    );
    let step = call.try_into_msg(
        &mut storage,
        &vec![HostReply::Amount(u128::MAX), HostReply::Accepted],
        &None,
    );
    assert_eq!(
        step,
        Ok(Progress::Ready(SubMsg {
            id: 1,
            msg: host::CosmosMsg::Call(parse(
                r#"{"amount": "340282366920938463463374607431768211455"}"#
            )),
            reply_on: ReplyOn::Success,
        }))
    );
    assert_eq!(storage, Storage::new());
}

#[test]
fn a_message_that_is_no_operation_is_refused() {
    let mut storage = Storage::new();
    let call = Call { msg: json(r#"{"amount": "0"}"#), actions: vec![] };
    assert_eq!(
        call.try_into_msg(&mut storage, &vec![HostReply::Rejected], &None),
        Err(ContractError::SerializationError {})
    );
    assert_eq!(convert(&call, &mut storage, &None), Err(ContractError::SerializationError {}));
}

#[test]
fn a_failed_balance_query_fails_the_call() {
    let mut storage = Storage::new();
    let call = Call {
        msg: json(r#"{"amount": "0"}"#),
        actions: vec![CallAction::NativeBalanceFetch {
            denom: "u".to_owned(),
            replacer: "/amount".to_owned(),
        }],
    };
    assert_eq!(
        call.try_into_msg(
            &mut storage,
            &vec![HostReply::Failed { reason: "no such denom".to_owned() }],
            &None
        ),
        Err(ContractError::Std(StdError::GenericErr { msg: "no such denom".to_owned() }))
    );
    assert_eq!(
        call.try_into_msg(&mut storage, &vec![HostReply::Accepted], &None),
        Err(ContractError::Std(StdError::GenericErr { msg: "".to_owned() }))
    );
}

#[test]
fn a_token_balance_that_cannot_be_had_counts_as_zero() {
    let mut storage = Storage::new();
    let call = Call {
        msg: json(r#"{"amount": "0"}"#),
        actions: vec![CallAction::Cw20BalanceFetch {
            contract: "token".to_owned(),
            replacer: "/amount".to_owned(),
        }],
    };
    assert_eq!(
        call.try_into_msg(&mut storage, &vec![], &None),
        Ok(Progress::Pending(HostRequest::Cw20Balance { contract: "token".to_owned() }))
    );
    for reply in [
        HostReply::Amount(0),
        HostReply::Failed { reason: "no such contract".to_owned() },
        HostReply::Rejected,
    ] {
        assert_eq!(
            call.try_into_msg(&mut storage, &vec![reply], &None),
            Err(ContractError::ZeroBalanceFetched { token: "token".to_owned() })
        );
    }
}

#[test]
fn a_query_copies_all_fields_or_fails() {
    let mut storage = Storage::new();
    let call = |replacers: Vec<(&str, &str)>| Call {
        msg: json(r#"{"a": 1, "b": 2}"#),
        actions: vec![CallAction::CustomReplaceQuery {
            query_msg: json(r#"{"q": true}"#),
            replacers: replacers
                .into_iter()
                .map(|(from, to)| ReplaceInfo {
                    response_pointer: from.to_owned(),
                    replacer: to.to_owned(),
                })
                .collect(),
        }],
    };
    let response = || HostReply::Response(parse(r#"{"x": [7, 8], "y": {"z": "deep"}}"#));
    assert_eq!(
        call(vec![]).try_into_msg(&mut storage, &vec![], &None),
        Ok(Progress::Pending(HostRequest::Query { query_msg: parse(r#"{"q": true}"#) }))
    );
    assert_eq!(
        call(vec![("/x/1", "/a"), ("/y", "/b"), ("/a", "/b")]).try_into_msg(
            &mut storage,
            &vec![response()],
            &None
        ),
        Err(ContractError::ReplacerFieldNotFound { replacer: "/a".to_owned() })
    );
    assert_eq!(
        call(vec![("/x/1", "/a"), ("/y", "/c")]).try_into_msg(
            &mut storage,
            &vec![response()],
            &None
        ),
        Err(ContractError::ReplacerFieldNotFound { replacer: "/c".to_owned() })
    );
    assert_eq!(
        call(vec![("/x/1", "/a"), ("/y", "/b"), ("", "/b/z")]).try_into_msg(
            &mut storage,
            &vec![response()],
            &None
        ),
        Ok(Progress::Pending(HostRequest::IntoCosmosMsg {
            msg: parse(r#"{"a": 8, "b": {"z": {"x": [7, 8], "y": {"z": "deep"}}}}"#)
        }))
    );
    assert_eq!(
        call(vec![("/x", "/a")]).try_into_msg(&mut storage, &vec![HostReply::Rejected], &None),
        Err(ContractError::SerializationError {})
    );
    assert_eq!(
        call(vec![("/x", "/a")]).try_into_msg(
            &mut storage,
            &vec![HostReply::Failed { reason: "down".to_owned() }],
            &None
        ),
        Err(ContractError::Std(StdError::GenericErr { msg: "down".to_owned() }))
    );
}

#[test]
fn tracking_registers_the_transfer() {
    let mut storage = Storage::new();
    let call = Call {
        msg: json(r#"{"token": {"amount": "111111"}, "n": 5}"#),
        actions: vec![CallAction::IbcTracking {
            channel: "channel-3".to_owned(),
            denom: "usquid".to_owned(),
            amount: Some(9),
            amount_pointer: Some("/token/amount".to_owned()),
        }],
    };
    assert_eq!(
        call.try_into_msg(&mut storage, &vec![], &Some("addr0004".to_owned())),
        Ok(Progress::Pending(HostRequest::IntoCosmosMsg {
            msg: parse(r#"{"token": {"amount": "111111"}, "n": 5}"#)
        }))
    );
    assert_eq!(storage, Storage::new());
    let sub = call
        .try_into_msg(&mut storage, &vec![HostReply::Accepted], &Some("addr0004".to_owned()))
        .unwrap();
    match sub {
        Progress::Ready(sub) => assert_eq!(sub.id, 2),
        other => panic!("unexpected {:?}", other),
    }
    assert_eq!(
        storage.ibc_transfer_reply_state,
        Some(IbcTransferReplyState {
            local_fallback_address: "addr0004".to_owned(),
            channel: "channel-3".to_owned(),
            denom: "usquid".to_owned(),
            amount: 111111,
        })
    );
}

#[test]
fn tracking_needs_an_amount_that_is_a_string() {
    let mut storage = Storage::new();
    let call = |pointer: Option<&str>, amount: Option<u128>| Call {
        msg: json(r#"{"token": {"amount": "12x"}, "n": 5, "plus": "+7"}"#),
        actions: vec![CallAction::IbcTracking {
            channel: "channel-3".to_owned(),
            denom: "usquid".to_owned(),
            amount,
            amount_pointer: pointer.map(|p| p.to_owned()),
        }],
    };
    let fallback = Some("addr0004".to_owned());
    let replies = vec![HostReply::Accepted];
    assert_eq!(
        call(Some("/n"), Some(1)).try_into_msg(&mut storage, &replies, &fallback),
        Err(ContractError::InvalidAmountPointer {})
    );
    assert_eq!(
        call(Some("/token"), None).try_into_msg(&mut storage, &replies, &fallback),
        Err(ContractError::InvalidAmountPointer {})
    );
    assert_eq!(
        call(Some("/missing"), Some(1)).try_into_msg(&mut storage, &replies, &fallback),
        Err(ContractError::ReplacerFieldNotFound { replacer: "/missing".to_owned() })
    );
    match call(Some("/token/amount"), None).try_into_msg(&mut storage, &replies, &fallback) {
        Err(ContractError::Std(StdError::GenericErr { msg })) => {
            assert_eq!(msg, "Parsing u128: invalid digit found in string")
        }
        other => panic!("unexpected {:?}", other),
    }
    assert_eq!(
        call(None, None).try_into_msg(&mut storage, &replies, &fallback),
        Err(ContractError::EitherAmountOfPointerMustBeSet {})
    );
    assert_eq!(
        call(None, Some(1)).try_into_msg(&mut storage, &replies, &None),
        Err(ContractError::FallbackAddressMustBeSetForIbcTracking {})
    );
    assert_eq!(storage, Storage::new());
    assert!(call(Some("/plus"), None).try_into_msg(&mut storage, &replies, &fallback).is_ok());
    assert_eq!(storage.ibc_transfer_reply_state.map(|record| record.amount), Some(7));
}

#[test]
fn a_field_is_replaced_by_its_encoding() {
    let mut storage = Storage::new();
    let call = Call {
        msg: json(r#"{"msg": {"k": "v"}}"#),
        actions: vec![CallAction::FieldToBinary { replacer: "/msg".to_owned() }],
    };
    assert_eq!(
        call.try_into_msg(&mut storage, &vec![], &None),
        Ok(Progress::Pending(HostRequest::ToBinary { field: parse(r#"{"k": "v"}"#) }))
    );
    assert_eq!(
        call.try_into_msg(&mut storage, &vec![HostReply::Binary(b"hello".to_vec())], &None),
        Ok(Progress::Pending(HostRequest::IntoCosmosMsg { msg: parse(r#"{"msg": "aGVsbG8="}"#) }))
    );
    assert_eq!(
        call.try_into_msg(
            &mut storage,
            &vec![HostReply::Failed { reason: "too deep".to_owned() }],
            &None
        ),
        Err(ContractError::Std(StdError::GenericErr { msg: "too deep".to_owned() }))
    );
    let missing = Call {
        msg: json(r#"{"msg": {"k": "v"}}"#),
        actions: vec![CallAction::FieldToBinary { replacer: "/other".to_owned() }],
    };
    assert_eq!(
        missing.try_into_msg(&mut storage, &vec![], &None),
        Err(ContractError::ReplacerFieldNotFound { replacer: "/other".to_owned() })
    );
}

#[test]
fn a_field_that_is_no_protocol_message_is_refused() {
    let mut storage = Storage::new();
    let call = Call {
        msg: json(r#"{"value": {"k": "v"}}"#),
        actions: vec![CallAction::FieldToProtoBinary {
            replacer: "/value".to_owned(),
            proto_msg_type: ProtoMessageType::OsmosisSwapExactAmtIn,
        }],
    };
    assert_eq!(
        call.try_into_msg(&mut storage, &vec![], &None),
        Ok(Progress::Pending(HostRequest::ToProtoBinary {
            field: parse(r#"{"k": "v"}"#),
            proto_msg_type: ProtoMessageType::OsmosisSwapExactAmtIn,
        }))
    );
    assert_eq!(
        call.try_into_msg(&mut storage, &vec![HostReply::Rejected], &None),
        Err(ContractError::ProtoSerializationError {})
    );
    assert_eq!(
        call.try_into_msg(&mut storage, &vec![HostReply::Binary(vec![0, 255])], &None),
        Ok(Progress::Pending(HostRequest::IntoCosmosMsg { msg: parse(r#"{"value": "AP8="}"#) }))
    );
}
