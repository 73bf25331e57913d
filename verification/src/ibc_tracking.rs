use crate::error::{ContractError, IbcTrackingError, IbcTrackingErrorView, StdError, StdErrorView};
use crate::host::{CosmosMsg, CosmosMsgView, Reply, ReplyOn, Response, ResponseView, SubMsgResult, SubMsgView};
use crate::msg::{Coin, MsgTransferResponse};
use crate::storage::{
    ledger, record_of, AwaitingIbcTransfer, IbcTransferReplyState, Storage, StorageView,
};
use crate::text::same_text;
use vstd::prelude::*;

verus! {

/// The sequence number that the bytes of a transfer's acceptance hold, if they
/// are such an acceptance.
pub uninterp spec fn transfer_sequence(bytes: Seq<u8>) -> Option<u64>;

/// `Message::decode` of prost, on the transfer module's response type of
/// osmosis_std: the bytes are read as that protocol message, which holds the
/// sequence number of the packet that was sent. Whether they can be read, and
/// as what, depends on the bytes alone.
#[verifier::external_body]
fn decode_transfer_response(bytes: &Vec<u8>) -> (r: Option<MsgTransferResponse>)
    ensures
        match r {
            Some(response) => transfer_sequence(bytes@) == Some(response.sequence),
            None => transfer_sequence(bytes@) is None,
        },
{
    match <osmosis_std::types::ibc::applications::transfer::v1::MsgTransferResponse as prost::Message>::decode(
        bytes.as_slice(),
    ) {
        Ok(response) => Some(MsgTransferResponse { sequence: response.sequence }),
        Err(_) => None,
    }
}

/// The kind under which a missing pending record is reported.
pub open spec fn record_kind() -> Seq<char> {
    "IbcTransferReplyState"@
}

/// Stores the record of the transfer that is being dispatched, in place of any
/// that was pending.
pub fn store_ibc_transfer_reply_state(storage: &mut Storage, data: &IbcTransferReplyState)
    ensures
        final(storage)@ == (StorageView { ibc_transfer_reply_state: Some(data@), ..old(storage)@ }),
{
    storage.ibc_transfer_reply_state = Some(data.duplicate());
}

/// Takes the pending record out of storage; an error, and no change, where
/// none is pending.
pub fn load_ibc_transfer_reply_state(storage: &mut Storage) -> (r: Result<
    IbcTransferReplyState,
    StdError,
>)
    ensures
        match r {
            Ok(record) => {
                &&& old(storage)@.ibc_transfer_reply_state == Some(record@)
                &&& final(storage)@ == (StorageView {
                    ibc_transfer_reply_state: None,
                    ..old(storage)@
                })
            },
            Err(e) => {
                &&& old(storage)@.ibc_transfer_reply_state is None
                &&& e@ == (StdErrorView::NotFound { kind: record_kind() })
                &&& final(storage)@ == old(storage)@
            },
        },
{
    match storage.ibc_transfer_reply_state.take() {
        Some(record) => Ok(record),
        None => Err(StdError::NotFound { kind: "IbcTransferReplyState".to_owned() }),
    }
}

/// Files the record in the ledger under its channel and `sequence`, in place
/// of any that was filed there.
pub fn store_awaiting_ibc_transfer(
    storage: &mut Storage,
    sequence: u64,
    data: &IbcTransferReplyState,
)
    ensures
        final(storage)@ == (StorageView {
            awaiting_ibc_transfers: old(storage)@.awaiting_ibc_transfers.insert(
                (data@.channel, sequence),
                data@,
            ),
            ..old(storage)@
        }),
{
    let ghost before = storage.awaiting_ibc_transfers@;
    let entry = AwaitingIbcTransfer {
        channel: data.channel.clone(),
        sequence,
        data: data.duplicate(),
    };
    storage.awaiting_ibc_transfers.push(entry);
    assert(storage.awaiting_ibc_transfers@.drop_last() =~= before);
}

/// Takes the record that is filed under `channel` and `sequence` out of the
/// ledger, if there is one.
pub fn load_awaiting_ibc_transfer_optional(storage: &mut Storage, channel: &str, sequence: u64) -> (r:
    Option<IbcTransferReplyState>)
    ensures
        record_of(r) == (if old(storage)@.awaiting_ibc_transfers.contains_key((channel@, sequence)) {
            Some(old(storage)@.awaiting_ibc_transfers[(channel@, sequence)])
        } else {
            None
        }),
        final(storage)@ == (StorageView {
            awaiting_ibc_transfers: old(storage)@.awaiting_ibc_transfers.remove((channel@, sequence)),
            ..old(storage)@
        }),
{
    let ghost all = storage.awaiting_ibc_transfers@;
    let ghost key = (channel@, sequence);
    let mut rest: Vec<AwaitingIbcTransfer> = Vec::new();
    std::mem::swap(&mut rest, &mut storage.awaiting_ibc_transfers);
    let mut kept: Vec<AwaitingIbcTransfer> = Vec::new();
    let mut found: Option<IbcTransferReplyState> = None;
    let ghost mut done: int = 0;
    assert(all.take(0) =~= Seq::<AwaitingIbcTransfer>::empty());
    assert(all.skip(0) =~= all);
    assert(ledger(kept@) =~= ledger(all.take(0)).remove(key));
    while rest.len() > 0
        invariant
            0 <= done <= all.len(),
            key == (channel@, sequence),
            rest@ == all.skip(done),
            ledger(kept@) == ledger(all.take(done)).remove(key),
            record_of(found) == (if ledger(all.take(done)).contains_key(key) {
                Some(ledger(all.take(done))[key])
            } else {
                None
            }),
        decreases rest.len(),
    {
        let ghost pending = rest@;
        let entry = rest.remove(0);
        proof {
            assert(entry == all[done]);
            assert(rest@ =~= all.skip(done + 1));
            assert(all.take(done + 1).drop_last() =~= all.take(done));
            assert(all.take(done + 1).last() == all[done]);
        }
        let ghost sofar = ledger(all.take(done));
        let ghost entry_key = (entry.channel@, entry.sequence);
        if entry.sequence == sequence && same_text(entry.channel.as_str(), channel) {
            assert(sofar.insert(key, entry.data@).remove(key) =~= sofar.remove(key));
            found = Some(entry.data);
        } else {
            assert(entry_key != key);
            let ghost before = kept@;
            let ghost entry_view = entry.data@;
            kept.push(entry);
            assert(kept@.drop_last() =~= before);
            assert(sofar.remove(key).insert(entry_key, entry_view) =~= sofar.insert(
                entry_key,
                entry_view,
            ).remove(key));
        }
        proof {
            done = done + 1;
        }
    }
    assert(all.take(all.len() as int) =~= all);
    storage.awaiting_ibc_transfers = kept;
    found
}

/// The message with which a completion signal without data is refused.
pub open spec fn reply_failed() -> Seq<char> {
    "Reply failed"@
}

/// The message with which data that is no acceptance is refused.
pub open spec fn undecodable_response() -> Seq<char> {
    "Failed to decode ibc transfer response"@
}

/// What the second phase of registration makes of storage, given how the
/// transfer's dispatch ended: the pending record moves into the ledger under
/// its channel and the sequence number that the transfer was given.
///
/// A signal of failure, a signal without data, data that is no acceptance and
/// the absence of a pending record are errors.
pub open spec fn promotion(storage: StorageView, result: SubMsgResult) -> Result<
    StorageView,
    IbcTrackingErrorView,
> {
    match result {
        SubMsgResult::Success { data: Some(bytes) } => match transfer_sequence(bytes@) {
            Some(sequence) => match storage.ibc_transfer_reply_state {
                Some(record) => Ok(
                    StorageView {
                        ibc_transfer_reply_state: None,
                        awaiting_ibc_transfers: storage.awaiting_ibc_transfers.insert(
                            (record.channel, sequence),
                            record,
                        ),
                        ..storage
                    },
                ),
                None => Err(IbcTrackingErrorView::Std(StdErrorView::NotFound { kind: record_kind() })),
            },
            None => Err(IbcTrackingErrorView::FailedIBCTransfer { msg: undecodable_response() }),
        },
        _ => Err(IbcTrackingErrorView::FailedIBCTransfer { msg: reply_failed() }),
    }
}

/// The second phase of registration: the completion signal of the transfer's
/// dispatch is read for the sequence number that the transfer was given, and
/// the pending record moves into the ledger. An error changes nothing.
pub fn handle_ibc_transfer_reply(storage: &mut Storage, reply: Reply) -> (r: Result<
    Response,
    IbcTrackingError,
>)
    ensures
        match promotion(old(storage)@, reply.result) {
            Ok(next) => {
                &&& r matches Ok(response)
                &&& response@ == (ResponseView { messages: Seq::empty(), attributes: Seq::empty() })
                &&& final(storage)@ == next
            },
            Err(e) => {
                &&& r matches Err(err)
                &&& err@ == e
                &&& final(storage)@ == old(storage)@
            },
        },
{
    let bytes = match reply.result {
        SubMsgResult::Success { data: Some(bytes) } => bytes,
        _ => {
            return Err(IbcTrackingError::FailedIBCTransfer { msg: "Reply failed".to_owned() });
        },
    };
    let response = match decode_transfer_response(&bytes) {
        Some(response) => response,
        None => {
            return Err(
                IbcTrackingError::FailedIBCTransfer {
                    msg: "Failed to decode ibc transfer response".to_owned(),
                },
            );
        },
    };
    let record = match load_ibc_transfer_reply_state(storage) {
        Ok(record) => record,
        Err(e) => {
            return Err(IbcTrackingError::Std(e));
        },
    };
    store_awaiting_ibc_transfer(storage, response.sequence, &record);
    Ok(Response::new())
}

/// What resolving the transfer under `channel` and `sequence` answers where
/// its funds are to be returned: nothing where no record is filed there, else
/// one transfer of the recorded amount to the recorded fallback address.
pub open spec fn refund(storage: StorageView, channel: Seq<char>, sequence: u64) -> ResponseView {
    if storage.awaiting_ibc_transfers.contains_key((channel, sequence)) {
        let record = storage.awaiting_ibc_transfers[(channel, sequence)];
        ResponseView {
            messages: seq![
                SubMsgView {
                    id: 0,
                    msg: CosmosMsgView::BankSend {
                        to_address: record.local_fallback_address,
                        amount: seq![(record.denom, record.amount)],
                    },
                    reply_on: ReplyOn::Never,
                },
            ],
            attributes: Seq::empty(),
        }
    } else {
        ResponseView { messages: Seq::empty(), attributes: Seq::empty() }
    }
}

fn send_funds_to_fallback_address(storage: &mut Storage, source_channel: &str, sequence: u64) -> (r:
    Result<Response, ContractError>)
    ensures
        r matches Ok(response) && response@ == refund(old(storage)@, source_channel@, sequence),
        final(storage)@ == (StorageView {
            awaiting_ibc_transfers: old(storage)@.awaiting_ibc_transfers.remove(
                (source_channel@, sequence),
            ),
            ..old(storage)@
        }),
{
    match load_awaiting_ibc_transfer_optional(storage, source_channel, sequence) {
        None => Ok(Response::new()),
        Some(record) => {
            let mut amount: Vec<Coin> = Vec::new();
            amount.push(Coin { denom: record.denom, amount: record.amount });
            let msg = CosmosMsg::BankSend { to_address: record.local_fallback_address, amount };
            assert(msg@ == (CosmosMsgView::BankSend {
                to_address: record.local_fallback_address@,
                amount: seq![(record.denom@, record.amount)],
            })) by {
                assert(crate::msg::coin_views(amount@) =~= seq![(record.denom@, record.amount)]);
            }
            let response = Response::new().add_message(msg);
            assert(response@.messages =~= refund(old(storage)@, source_channel@, sequence).messages);
            Ok(response)
        },
    }
}

/// Resolves a transfer on its acknowledgement. The record under `channel` and
/// `sequence` leaves the ledger; where the transfer failed, its funds go to
/// the recorded fallback address. Where no record is filed, nothing happens.
pub fn receive_ack(storage: &mut Storage, source_channel: &str, sequence: u64, success: bool) -> (r:
    Result<Response, ContractError>)
    ensures
        r matches Ok(response) && response@ == (if success {
            ResponseView { messages: Seq::empty(), attributes: Seq::empty() }
        } else {
            refund(old(storage)@, source_channel@, sequence)
        }),
        final(storage)@ == (StorageView {
            awaiting_ibc_transfers: old(storage)@.awaiting_ibc_transfers.remove(
                (source_channel@, sequence),
            ),
            ..old(storage)@
        }),
{
    if success {
        let _ = load_awaiting_ibc_transfer_optional(storage, source_channel, sequence);
        return Ok(Response::new());
    }
    send_funds_to_fallback_address(storage, source_channel, sequence)
}

/// Resolves a transfer on its timeout: its record leaves the ledger and its
/// funds go to the recorded fallback address. Where no record is filed,
/// nothing happens.
pub fn receive_timeout(storage: &mut Storage, source_channel: &str, sequence: u64) -> (r: Result<
    Response,
    ContractError,
>)
    ensures
        r matches Ok(response) && response@ == refund(old(storage)@, source_channel@, sequence),
        final(storage)@ == (StorageView {
            awaiting_ibc_transfers: old(storage)@.awaiting_ibc_transfers.remove(
                (source_channel@, sequence),
            ),
            ..old(storage)@
        }),
{
    send_funds_to_fallback_address(storage, source_channel, sequence)
}

/// Resolving a transfer of which the ledger holds no record changes nothing
/// and answers nothing.
pub proof fn lemma_unknown_transfer(storage: StorageView, channel: Seq<char>, sequence: u64)
    requires
        !storage.awaiting_ibc_transfers.contains_key((channel, sequence)),
    ensures
        storage.awaiting_ibc_transfers.remove((channel, sequence)) == storage.awaiting_ibc_transfers,
        refund(storage, channel, sequence) == (ResponseView {
            messages: Seq::empty(),
            attributes: Seq::empty(),
        }),
{
    assert(storage.awaiting_ibc_transfers.remove((channel, sequence))
        =~= storage.awaiting_ibc_transfers);
}

} // verus!
