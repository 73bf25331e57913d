use vstd::prelude::*;

verus! {

/// What the platform's own operations report.
#[derive(Debug, PartialEq, Eq)]
pub enum StdError {
    /// A record of the named kind was asked for and is not stored.
    NotFound { kind: String },
    /// Any other failure, with its message.
    GenericErr { msg: String },
}

pub enum StdErrorView {
    NotFound { kind: Seq<char> },
    GenericErr { msg: Seq<char> },
}

impl View for StdError {
    type V = StdErrorView;

    open spec fn view(&self) -> StdErrorView {
        match self {
            StdError::NotFound { kind } => StdErrorView::NotFound { kind: kind@ },
            StdError::GenericErr { msg } => StdErrorView::GenericErr { msg: msg@ },
        }
    }
}

/// Errors of the transfer tracking ledger.
#[derive(Debug, PartialEq, Eq)]
pub enum IbcTrackingError {
    Std(StdError),
    /// The transfer was not accepted, or its acceptance could not be read.
    FailedIBCTransfer { msg: String },
}

pub enum IbcTrackingErrorView {
    Std(StdErrorView),
    FailedIBCTransfer { msg: Seq<char> },
}

impl View for IbcTrackingError {
    type V = IbcTrackingErrorView;

    open spec fn view(&self) -> IbcTrackingErrorView {
        match self {
            IbcTrackingError::Std(e) => IbcTrackingErrorView::Std(e@),
            IbcTrackingError::FailedIBCTransfer { msg } => IbcTrackingErrorView::FailedIBCTransfer {
                msg: msg@,
            },
        }
    }
}

/// Errors of the multicall contract.
#[derive(Debug, PartialEq, Eq)]
pub enum ContractError {
    Std(StdError),
    IbcTrackingError(IbcTrackingError),
    /// The edited message is no dispatchable operation, or a query descriptor
    /// is no query.
    SerializationError {  },
    /// A field could not be encoded as a protocol message.
    ProtoSerializationError {  },
    /// A pointer is empty or does not start with `/`.
    InvalidReplacer {  },
    /// A transfer tracking action names neither an amount nor a pointer to one.
    EitherAmountOfPointerMustBeSet {  },
    /// A completion signal came under a tag that the contract does not use.
    InvalidReplyId {  },
    /// A batch is already active.
    ContractLocked { msg: String },
    EmptyCallsList {  },
    FallbackAddressMustBeSetForIbcTracking {  },
    InvalidCallActionArgument { msg: String },
    CanBeCalledOnlyByContractItself {  },
    /// A balance was fetched and is zero.
    ZeroBalanceFetched { token: String },
    /// A pointer addresses nothing.
    ReplacerFieldNotFound { replacer: String },
    /// The amount pointer addresses a node that is no string.
    InvalidAmountPointer {  },
    /// The supervision layer was signalled a success.
    ErrorReplyExpected {  },
    /// Nothing was left to recover; `origin_err` is the failure that led here.
    RecoveryError { msg: String, origin_err: String },
}

pub enum ContractErrorView {
    Std(StdErrorView),
    IbcTrackingError(IbcTrackingErrorView),
    SerializationError,
    ProtoSerializationError,
    InvalidReplacer,
    EitherAmountOfPointerMustBeSet,
    InvalidReplyId,
    ContractLocked { msg: Seq<char> },
    EmptyCallsList,
    FallbackAddressMustBeSetForIbcTracking,
    InvalidCallActionArgument { msg: Seq<char> },
    CanBeCalledOnlyByContractItself,
    ZeroBalanceFetched { token: Seq<char> },
    ReplacerFieldNotFound { replacer: Seq<char> },
    InvalidAmountPointer,
    ErrorReplyExpected,
    RecoveryError { msg: Seq<char>, origin_err: Seq<char> },
}

impl View for ContractError {
    type V = ContractErrorView;

    open spec fn view(&self) -> ContractErrorView {
        match self {
            ContractError::Std(e) => ContractErrorView::Std(e@),
            ContractError::IbcTrackingError(e) => ContractErrorView::IbcTrackingError(e@),
            ContractError::SerializationError {  } => ContractErrorView::SerializationError,
            ContractError::ProtoSerializationError {  } => ContractErrorView::ProtoSerializationError,
            ContractError::InvalidReplacer {  } => ContractErrorView::InvalidReplacer,
            ContractError::EitherAmountOfPointerMustBeSet {  } =>
                ContractErrorView::EitherAmountOfPointerMustBeSet,
            ContractError::InvalidReplyId {  } => ContractErrorView::InvalidReplyId,
            ContractError::ContractLocked { msg } => ContractErrorView::ContractLocked { msg: msg@ },
            ContractError::EmptyCallsList {  } => ContractErrorView::EmptyCallsList,
            ContractError::FallbackAddressMustBeSetForIbcTracking {  } =>
                ContractErrorView::FallbackAddressMustBeSetForIbcTracking,
            ContractError::InvalidCallActionArgument { msg } =>
                ContractErrorView::InvalidCallActionArgument { msg: msg@ },
            ContractError::CanBeCalledOnlyByContractItself {  } =>
                ContractErrorView::CanBeCalledOnlyByContractItself,
            ContractError::ZeroBalanceFetched { token } => ContractErrorView::ZeroBalanceFetched {
                token: token@,
            },
            ContractError::ReplacerFieldNotFound { replacer } =>
                ContractErrorView::ReplacerFieldNotFound { replacer: replacer@ },
            ContractError::InvalidAmountPointer {  } => ContractErrorView::InvalidAmountPointer,
            ContractError::ErrorReplyExpected {  } => ContractErrorView::ErrorReplyExpected,
            ContractError::RecoveryError { msg, origin_err } => ContractErrorView::RecoveryError {
                msg: msg@,
                origin_err: origin_err@,
            },
        }
    }
}

} // verus!
