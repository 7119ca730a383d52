//! Error kinds reported by the controller and by the request boundary.

use vstd::prelude::*;

verus! {

/// Failures of the identifier controller.
#[derive(Debug, Clone, PartialEq, Eq)]
pub enum ControllerError {
    /// Neither the local cache nor any directory holds a location for this
    /// witness.
    MissingIp(String),
    /// The requested witness threshold exceeds the prospective witness count,
    /// or the old threshold cannot be carried over to the new witness list.
    ThresholdViolation,
    /// A rotation was asked for before the identifier was incepted.
    NoPriorState,
    /// Every witness that should have been reached failed to answer.
    PeerUnavailable,
    /// The event log refused a receipt that a witness returned.
    ReceiptRejected,
    /// The bootstrap configuration lists fewer witnesses than its threshold.
    NotEnoughWitnesses,
    /// A witness was configured without a location.
    NoLocationSet,
}

/// The mathematical value of a [`ControllerError`].
pub enum ControllerErrorView {
    MissingIp(Seq<char>),
    ThresholdViolation,
    NoPriorState,
    PeerUnavailable,
    ReceiptRejected,
    NotEnoughWitnesses,
    NoLocationSet,
}

impl View for ControllerError {
    type V = ControllerErrorView;

    open spec fn view(&self) -> ControllerErrorView {
        match *self {
            ControllerError::MissingIp(witness) => ControllerErrorView::MissingIp(witness@),
            ControllerError::ThresholdViolation => ControllerErrorView::ThresholdViolation,
            ControllerError::NoPriorState => ControllerErrorView::NoPriorState,
            ControllerError::PeerUnavailable => ControllerErrorView::PeerUnavailable,
            ControllerError::ReceiptRejected => ControllerErrorView::ReceiptRejected,
            ControllerError::NotEnoughWitnesses => ControllerErrorView::NotEnoughWitnesses,
            ControllerError::NoLocationSet => ControllerErrorView::NoLocationSet,
        }
    }
}

impl ControllerError {
    /// The description of this failure.
    pub open spec fn message(&self) -> Seq<char> {
        match *self {
            ControllerError::MissingIp(witness) => "No location found for witness "@ + witness@,
            ControllerError::ThresholdViolation => "Improper threshold"@,
            ControllerError::NoPriorState => "There's no state in database"@,
            ControllerError::PeerUnavailable => "Publishing event to witness failed"@,
            ControllerError::ReceiptRejected => "Processing witness receipts failed"@,
            ControllerError::NotEnoughWitnesses => "Not enough witnesses provided"@,
            ControllerError::NoLocationSet => "No location set"@,
        }
    }

    /// Writes the description of this failure.
    pub fn describe(&self) -> (text: String)
        ensures
            text@ == self.message(),
    {
        match self {
            ControllerError::MissingIp(witness) => {
                let mut text = String::from_str("No location found for witness ");
                text.append(witness.as_str());
                text
            },
            ControllerError::ThresholdViolation => String::from_str("Improper threshold"),
            ControllerError::NoPriorState => String::from_str("There's no state in database"),
            ControllerError::PeerUnavailable => String::from_str(
                "Publishing event to witness failed",
            ),
            ControllerError::ReceiptRejected => String::from_str(
                "Processing witness receipts failed",
            ),
            ControllerError::NotEnoughWitnesses => String::from_str(
                "Not enough witnesses provided",
            ),
            ControllerError::NoLocationSet => String::from_str("No location set"),
        }
    }

    /// The same failure once more.
    pub fn duplicate(&self) -> (copy: ControllerError)
        ensures
            copy == *self,
    {
        match self {
            ControllerError::MissingIp(witness) => ControllerError::MissingIp(witness.clone()),
            ControllerError::ThresholdViolation => ControllerError::ThresholdViolation,
            ControllerError::NoPriorState => ControllerError::NoPriorState,
            ControllerError::PeerUnavailable => ControllerError::PeerUnavailable,
            ControllerError::ReceiptRejected => ControllerError::ReceiptRejected,
            ControllerError::NotEnoughWitnesses => ControllerError::NotEnoughWitnesses,
            ControllerError::NoLocationSet => ControllerError::NoLocationSet,
        }
    }
}

/// Failures that a request can end in.
#[derive(Debug, Clone, PartialEq, Eq)]
pub enum ApiError {
    SigningError,
    InvalidAttestation,
    VerificationFailed,
    UnknownIssuer,
    SomeError(String),
}

impl ApiError {
    /// The description of this failure: the name of its kind, and for
    /// [`ApiError::SomeError`] what it carries.
    pub open spec fn message(&self) -> Seq<char> {
        match *self {
            ApiError::SigningError => "SigningError"@,
            ApiError::InvalidAttestation => "InvalidAttestation"@,
            ApiError::VerificationFailed => "VerificationFailed"@,
            ApiError::UnknownIssuer => "UnknownIssuer"@,
            ApiError::SomeError(text) => "SomeError: "@ + text@,
        }
    }

    /// Writes the description of this failure.
    pub fn describe(&self) -> (text: String)
        ensures
            text@ == self.message(),
    {
        match self {
            ApiError::SigningError => String::from_str("SigningError"),
            ApiError::InvalidAttestation => String::from_str("InvalidAttestation"),
            ApiError::VerificationFailed => String::from_str("VerificationFailed"),
            ApiError::UnknownIssuer => String::from_str("UnknownIssuer"),
            ApiError::SomeError(inner) => {
                let mut text = String::from_str("SomeError: ");
                text.append(inner.as_str());
                text
            },
        }
    }

    /// Every failure is answered with this status.
    pub fn status_code(&self) -> (code: u16)
        ensures
            code == 500,
    {
        500
    }
}

} // verus!
