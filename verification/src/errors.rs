//! Errors that the competition logic answers a refused request with.
use vstd::prelude::*;

verus! {

/// The class of a refusal, as a gRPC status code names it.
#[derive(Clone, Copy, Debug, PartialEq, Eq, Structural)]
pub enum Code {
    InvalidArgument,
    Internal,
    Cancelled,
    DataLoss,
    FailedPrecondition,
    NotFound,
    PermissionDenied,
    Unauthenticated,
    AlreadyExists,
    Unimplemented,
}

/// Every way in which the competition logic refuses a request.
#[derive(Clone, Copy, Debug, PartialEq, Eq, Structural)]
pub enum CompError {
    InvalidMarkType,
    QueueNotFound,
    VotingBlocked,
    InvalidActionId,
    VotingFull,
    MarkGroupMissing,
    VoteRejected,
    VotingInProgress,
    DataCorrupted,
    QueueEmpty,
    InvalidVerdict,
    NoActiveAction,
    InvalidQueueId,
    NominationQueueMissing,
    ActiveActionMissing,
    ActiveActionMismatch,
    NotFinished,
    ActionsNotFinished,
    NoMessageData,
    MessageNotFound,
    NoMessageInRequest,
    NotRunnedYet,
    Waiting,
    AlreadyCompleted,
    StatusUnknown,
    InvalidStatus,
    AlreadyRunned,
    PermissionDenied,
    NotStarted,
    StateNotStarted,
    UnableToVerify,
    UnexpectedVerifiedMessage,
    UnsupportedMessage,
    SchemeMismatch,
    StateNotFound,
    PoolBroken,
    HistoryFull,
    CompNotFound,
}

/// The text that refusal `e` is reported with.
pub open spec fn message_text(e: CompError) -> Seq<char> {
    match e {
        CompError::InvalidMarkType => "Invalid judgement mark type name"@,
        CompError::QueueNotFound => "Queue not found"@,
        CompError::VotingBlocked => "Voting is blocked at the moment!"@,
        CompError::InvalidActionId => "Invalid action Id"@,
        CompError::VotingFull => "Voting is full"@,
        CompError::MarkGroupMissing => "REPORT THIS: mark type is correct, but state is not created!"@,
        CompError::VoteRejected => "Invalid action Id or Voting is closed"@,
        CompError::VotingInProgress => "Voting is in progress!"@,
        CompError::DataCorrupted => "Database data is corrupted"@,
        CompError::QueueEmpty => "Queue is empty!"@,
        CompError::InvalidVerdict => "Invalid Verdict!"@,
        CompError::NoActiveAction => "No active action"@,
        CompError::InvalidQueueId => "invalid queue id"@,
        CompError::NominationQueueMissing => "Report this error! unable to get nomination queue!"@,
        CompError::ActiveActionMissing => "Report this error! Unable to get queue to check active action"@,
        CompError::ActiveActionMismatch => "Report this error! active action is not first in nomination inner queue!"@,
        CompError::NotFinished => "Not finished by Supervisor!"@,
        CompError::ActionsNotFinished => "Some actions are not finished yet"@,
        CompError::NoMessageData => "No message data"@,
        CompError::MessageNotFound => "Not found message error"@,
        CompError::NoMessageInRequest => "no message in request"@,
        CompError::NotRunnedYet => "Not runned yet!"@,
        CompError::Waiting => "Waiting.."@,
        CompError::AlreadyCompleted => "Competition already completed"@,
        CompError::StatusUnknown => "Competition status unknown"@,
        CompError::InvalidStatus => "Invalid Competition status"@,
        CompError::AlreadyRunned => "Already runned"@,
        CompError::PermissionDenied => "Permission denied!"@,
        CompError::NotStarted => "Not started"@,
        CompError::StateNotStarted => "Not started competition state control!"@,
        CompError::UnableToVerify => "Unable to verify"@,
        CompError::UnexpectedVerifiedMessage => "REPORT THIS ERROR: Competition Handler Err"@,
        CompError::UnsupportedMessage => "This kind of message is not accepted from clients"@,
        CompError::SchemeMismatch => "Database error, incompatible enum interpretation!"@,
        CompError::StateNotFound => "Comp State not found"@,
        CompError::PoolBroken => "Pool broken!"@,
        CompError::HistoryFull => "Message history is full"@,
        CompError::CompNotFound => "Comp not found"@,
    }
}

impl CompError {
    pub open spec fn spec_code(self) -> Code {
        match self {
            CompError::InvalidMarkType => Code::InvalidArgument,
            CompError::QueueNotFound => Code::InvalidArgument,
            CompError::VotingBlocked => Code::Internal,
            CompError::InvalidActionId => Code::InvalidArgument,
            CompError::VotingFull => Code::Internal,
            CompError::MarkGroupMissing => Code::Internal,
            CompError::VoteRejected => Code::InvalidArgument,
            CompError::VotingInProgress => Code::InvalidArgument,
            CompError::DataCorrupted => Code::DataLoss,
            CompError::QueueEmpty => Code::Cancelled,
            CompError::InvalidVerdict => Code::InvalidArgument,
            CompError::NoActiveAction => Code::Internal,
            CompError::InvalidQueueId => Code::InvalidArgument,
            CompError::NominationQueueMissing => Code::Internal,
            CompError::ActiveActionMissing => Code::Internal,
            CompError::ActiveActionMismatch => Code::Internal,
            CompError::NotFinished => Code::Internal,
            CompError::ActionsNotFinished => Code::FailedPrecondition,
            CompError::NoMessageData => Code::InvalidArgument,
            CompError::MessageNotFound => Code::NotFound,
            CompError::NoMessageInRequest => Code::InvalidArgument,
            CompError::NotRunnedYet => Code::Internal,
            CompError::Waiting => Code::Internal,
            CompError::AlreadyCompleted => Code::Internal,
            CompError::StatusUnknown => Code::Internal,
            CompError::InvalidStatus => Code::Internal,
            CompError::AlreadyRunned => Code::AlreadyExists,
            CompError::PermissionDenied => Code::PermissionDenied,
            CompError::NotStarted => Code::NotFound,
            CompError::StateNotStarted => Code::NotFound,
            CompError::UnableToVerify => Code::InvalidArgument,
            CompError::UnexpectedVerifiedMessage => Code::Internal,
            CompError::UnsupportedMessage => Code::Unimplemented,
            CompError::SchemeMismatch => Code::Internal,
            CompError::StateNotFound => Code::NotFound,
            CompError::PoolBroken => Code::Internal,
            CompError::HistoryFull => Code::Internal,
            CompError::CompNotFound => Code::NotFound,
        }
    }

    /// The status code that the refusal is reported with.
    pub fn code(&self) -> (r: Code)
        ensures
            r == self.spec_code(),
    {
        match self {
            CompError::InvalidMarkType => Code::InvalidArgument,
            CompError::QueueNotFound => Code::InvalidArgument,
            CompError::VotingBlocked => Code::Internal,
            CompError::InvalidActionId => Code::InvalidArgument,
            CompError::VotingFull => Code::Internal,
            CompError::MarkGroupMissing => Code::Internal,
            CompError::VoteRejected => Code::InvalidArgument,
            CompError::VotingInProgress => Code::InvalidArgument,
            CompError::DataCorrupted => Code::DataLoss,
            CompError::QueueEmpty => Code::Cancelled,
            CompError::InvalidVerdict => Code::InvalidArgument,
            CompError::NoActiveAction => Code::Internal,
            CompError::InvalidQueueId => Code::InvalidArgument,
            CompError::NominationQueueMissing => Code::Internal,
            CompError::ActiveActionMissing => Code::Internal,
            CompError::ActiveActionMismatch => Code::Internal,
            CompError::NotFinished => Code::Internal,
            CompError::ActionsNotFinished => Code::FailedPrecondition,
            CompError::NoMessageData => Code::InvalidArgument,
            CompError::MessageNotFound => Code::NotFound,
            CompError::NoMessageInRequest => Code::InvalidArgument,
            CompError::NotRunnedYet => Code::Internal,
            CompError::Waiting => Code::Internal,
            CompError::AlreadyCompleted => Code::Internal,
            CompError::StatusUnknown => Code::Internal,
            CompError::InvalidStatus => Code::Internal,
            CompError::AlreadyRunned => Code::AlreadyExists,
            CompError::PermissionDenied => Code::PermissionDenied,
            CompError::NotStarted => Code::NotFound,
            CompError::StateNotStarted => Code::NotFound,
            CompError::UnableToVerify => Code::InvalidArgument,
            CompError::UnexpectedVerifiedMessage => Code::Internal,
            CompError::UnsupportedMessage => Code::Unimplemented,
            CompError::SchemeMismatch => Code::Internal,
            CompError::StateNotFound => Code::NotFound,
            CompError::PoolBroken => Code::Internal,
            CompError::HistoryFull => Code::Internal,
            CompError::CompNotFound => Code::NotFound,
        }
    }

    /// The human readable text that the refusal is reported with.
    pub fn message(&self) -> (r: &'static str)
        ensures
            r@ == message_text(*self),
    {
        match self {
            CompError::InvalidMarkType => "Invalid judgement mark type name",
            CompError::QueueNotFound => "Queue not found",
            CompError::VotingBlocked => "Voting is blocked at the moment!",
            CompError::InvalidActionId => "Invalid action Id",
            CompError::VotingFull => "Voting is full",
            CompError::MarkGroupMissing => "REPORT THIS: mark type is correct, but state is not created!",
            CompError::VoteRejected => "Invalid action Id or Voting is closed",
            CompError::VotingInProgress => "Voting is in progress!",
            CompError::DataCorrupted => "Database data is corrupted",
            CompError::QueueEmpty => "Queue is empty!",
            CompError::InvalidVerdict => "Invalid Verdict!",
            CompError::NoActiveAction => "No active action",
            CompError::InvalidQueueId => "invalid queue id",
            CompError::NominationQueueMissing => "Report this error! unable to get nomination queue!",
            CompError::ActiveActionMissing => "Report this error! Unable to get queue to check active action",
            CompError::ActiveActionMismatch => "Report this error! active action is not first in nomination inner queue!",
            CompError::NotFinished => "Not finished by Supervisor!",
            CompError::ActionsNotFinished => "Some actions are not finished yet",
            CompError::NoMessageData => "No message data",
            CompError::MessageNotFound => "Not found message error",
            CompError::NoMessageInRequest => "no message in request",
            CompError::NotRunnedYet => "Not runned yet!",
            CompError::Waiting => "Waiting..",
            CompError::AlreadyCompleted => "Competition already completed",
            CompError::StatusUnknown => "Competition status unknown",
            CompError::InvalidStatus => "Invalid Competition status",
            CompError::AlreadyRunned => "Already runned",
            CompError::PermissionDenied => "Permission denied!",
            CompError::NotStarted => "Not started",
            CompError::StateNotStarted => "Not started competition state control!",
            CompError::UnableToVerify => "Unable to verify",
            CompError::UnexpectedVerifiedMessage => "REPORT THIS ERROR: Competition Handler Err",
            CompError::UnsupportedMessage => "This kind of message is not accepted from clients",
            CompError::SchemeMismatch => "Database error, incompatible enum interpretation!",
            CompError::StateNotFound => "Comp State not found",
            CompError::PoolBroken => "Pool broken!",
            CompError::HistoryFull => "Message history is full",
            CompError::CompNotFound => "Comp not found",
        }
    }
}

} // verus!
