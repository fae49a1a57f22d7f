//! The data model: request statuses and the bridge request record.

use vstd::prelude::*;

verus! {

/// Lifecycle stage of a bridge request, together with the payload that the
/// stage carries.  `Doing`, `Error` and `Done` remember the destination-chain
/// transaction hash the operator recorded; `Error` additionally carries the
/// operator's error message.
#[derive(Debug)]
pub enum RequestStatus {
    Created,
    Doing { to_txn_hash: String },
    Error { to_txn_hash: String, error: String },
    Done { to_txn_hash: String },
}

/// Mathematical model of a [`RequestStatus`]: the same variants over
/// character sequences.
#[verifier::ext_equal]
pub enum StatusView {
    Created,
    Doing { to_txn_hash: Seq<char> },
    Error { to_txn_hash: Seq<char>, error: Seq<char> },
    Done { to_txn_hash: Seq<char> },
}

impl View for RequestStatus {
    type V = StatusView;

    open spec fn view(&self) -> StatusView {
        match self {
            RequestStatus::Created => StatusView::Created,
            RequestStatus::Doing { to_txn_hash } => StatusView::Doing {
                to_txn_hash: to_txn_hash@,
            },
            RequestStatus::Error { to_txn_hash, error } => StatusView::Error {
                to_txn_hash: to_txn_hash@,
                error: error@,
            },
            RequestStatus::Done { to_txn_hash } => StatusView::Done { to_txn_hash: to_txn_hash@ },
        }
    }
}

/// A terminal status permits no further transition; the slot it occupies can
/// only be superseded by a brand-new request.
pub open spec fn is_terminal(s: StatusView) -> bool {
    s is Error || s is Done
}

/// One bridge transfer request.  At most one exists per requester at a time.
#[derive(Debug)]
pub struct BridgeRequest {
    /// Destination chain identifier, caller-supplied and opaque.
    pub to_blockchain: String,
    /// Destination token identifier, caller-supplied and opaque.
    pub to_token: String,
    /// Destination address, caller-supplied and opaque; format validation is
    /// an external concern.
    pub to_address: String,
    /// When present, the transfer would be funded by a fungible token; that
    /// path is unimplemented and creation rejects it.
    pub from_token_address: Option<String>,
    /// Decimal-string representation of the transferred native value in its
    /// smallest unit.
    pub from_amount_atom: String,
    /// Current lifecycle stage.
    pub status: RequestStatus,
}

/// The view of an optional string.
pub open spec fn opt_view(o: Option<String>) -> Option<Seq<char>> {
    match o {
        Option::None => Option::None,
        Option::Some(s) => Option::Some(s@),
    }
}

/// Mathematical model of a [`BridgeRequest`].
#[verifier::ext_equal]
pub struct RequestView {
    pub to_blockchain: Seq<char>,
    pub to_token: Seq<char>,
    pub to_address: Seq<char>,
    pub from_token_address: Option<Seq<char>>,
    pub from_amount_atom: Seq<char>,
    pub status: StatusView,
}

impl View for BridgeRequest {
    type V = RequestView;

    open spec fn view(&self) -> RequestView {
        RequestView {
            to_blockchain: self.to_blockchain@,
            to_token: self.to_token@,
            to_address: self.to_address@,
            from_token_address: opt_view(self.from_token_address),
            from_amount_atom: self.from_amount_atom@,
            status: self.status@,
        }
    }
}

} // verus!
