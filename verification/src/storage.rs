use crate::state::{MulticallState, MulticallStateView};
use vstd::prelude::*;

verus! {

/// The record of one outbound transfer that is tracked: where recovered funds
/// go, and what was sent through which channel.
#[derive(Debug, PartialEq, Eq)]
pub struct IbcTransferReplyState {
    pub local_fallback_address: String,
    pub channel: String,
    pub denom: String,
    pub amount: u128,
}

pub struct IbcTransferReplyStateView {
    pub local_fallback_address: Seq<char>,
    pub channel: Seq<char>,
    pub denom: Seq<char>,
    pub amount: u128,
}

impl View for IbcTransferReplyState {
    type V = IbcTransferReplyStateView;

    open spec fn view(&self) -> IbcTransferReplyStateView {
        IbcTransferReplyStateView {
            local_fallback_address: self.local_fallback_address@,
            channel: self.channel@,
            denom: self.denom@,
            amount: self.amount,
        }
    }
}

impl IbcTransferReplyState {
    /// A copy with the same view.
    pub fn duplicate(&self) -> (copy: IbcTransferReplyState)
        ensures
            copy@ == self@,
    {
        IbcTransferReplyState {
            local_fallback_address: self.local_fallback_address.clone(),
            channel: self.channel.clone(),
            denom: self.denom.clone(),
            amount: self.amount,
        }
    }
}

/// The view of a record that may be absent.
pub open spec fn record_of(record: Option<IbcTransferReplyState>) -> Option<
    IbcTransferReplyStateView,
> {
    match record {
        Some(record) => Some(record@),
        None => None,
    }
}

/// The view of a batch that may be absent.
pub open spec fn batch_of(state: Option<MulticallState>) -> Option<MulticallStateView> {
    match state {
        Some(state) => Some(state@),
        None => None,
    }
}

/// One entry of the ledger of transfers that await their acknowledgement.
#[derive(Debug, PartialEq, Eq)]
pub struct AwaitingIbcTransfer {
    pub channel: String,
    pub sequence: u64,
    pub data: IbcTransferReplyState,
}

/// The ledger that a list of entries stands for: each entry is filed under its
/// channel and sequence number, a later entry in place of an earlier one with
/// the same key.
pub open spec fn ledger(entries: Seq<AwaitingIbcTransfer>) -> Map<
    (Seq<char>, u64),
    IbcTransferReplyStateView,
>
    decreases entries.len(),
{
    if entries.len() == 0 {
        Map::empty()
    } else {
        ledger(entries.drop_last()).insert(
            (entries.last().channel@, entries.last().sequence),
            entries.last().data@,
        )
    }
}

/// What the contract keeps between one entry and the next: the active batch,
/// whose presence is the lock; the record of a transfer that was dispatched
/// and whose sequence number is not known yet; and the ledger of transfers
/// that await their acknowledgement.
#[derive(Debug, PartialEq, Eq)]
pub struct Storage {
    pub multicall_state: Option<MulticallState>,
    pub ibc_transfer_reply_state: Option<IbcTransferReplyState>,
    pub awaiting_ibc_transfers: Vec<AwaitingIbcTransfer>,
}

pub struct StorageView {
    pub multicall_state: Option<MulticallStateView>,
    pub ibc_transfer_reply_state: Option<IbcTransferReplyStateView>,
    pub awaiting_ibc_transfers: Map<(Seq<char>, u64), IbcTransferReplyStateView>,
}

impl View for Storage {
    type V = StorageView;

    open spec fn view(&self) -> StorageView {
        StorageView {
            multicall_state: batch_of(self.multicall_state),
            ibc_transfer_reply_state: record_of(self.ibc_transfer_reply_state),
            awaiting_ibc_transfers: ledger(self.awaiting_ibc_transfers@),
        }
    }
}

impl Storage {
    /// Storage that holds nothing.
    pub fn new() -> (storage: Storage)
        ensures
            storage@ == (StorageView {
                multicall_state: None,
                ibc_transfer_reply_state: None,
                awaiting_ibc_transfers: Map::empty(),
            }),
    {
        Storage {
            multicall_state: None,
            ibc_transfer_reply_state: None,
            awaiting_ibc_transfers: Vec::new(),
        }
    }
}

} // verus!
