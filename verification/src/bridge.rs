//! The lifecycle controller: the operations that enforce the state machine's
//! transition rules and authorization policy over the request store.
//!
//! Each mutating operation authenticates the caller, loads the existing
//! record, validates the transition, and either writes the updated record
//! back or fails before any write.

use vstd::prelude::*;

use crate::amount::{dec_str, to_decimal_string};
use crate::errors::{ConstructError, CreateError, StatusTag, TransitionError};
use crate::ident::{is_valid_identity, validate_identity};
use crate::model::{is_terminal, opt_view, BridgeRequest, RequestStatus, RequestView, StatusView};
use crate::store::RequestStore;

verus! {

/// Mathematical model of the whole instance: the fixed operator identity and
/// the per-requester record mapping.
#[verifier::ext_equal]
pub struct BridgeView {
    pub operator: Seq<char>,
    pub requests: Map<Seq<char>, RequestView>,
}

/// The record a fresh creation stores: the caller-supplied fields, the
/// formatted attached value, and status `Created`.
pub open spec fn new_request(
    to_blockchain: Seq<char>,
    to_token: Seq<char>,
    to_address: Seq<char>,
    attached_value: u128,
) -> RequestView {
    RequestView {
        to_blockchain,
        to_token,
        to_address,
        from_token_address: Option::None,
        from_amount_atom: dec_str(attached_value as nat),
        status: StatusView::Created,
    }
}

/// What `construct` decides from the operator identity and whether instance
/// state already exists.
pub open spec fn spec_construct(operator: Seq<char>, state_exists: bool) -> Result<
    BridgeView,
    ConstructError,
> {
    if !is_valid_identity(operator) {
        Result::Err(ConstructError::InvalidOwner)
    } else if state_exists {
        Result::Err(ConstructError::AlreadyInitialized)
    } else {
        Result::Ok(BridgeView { operator, requests: Map::empty() })
    }
}

/// Creation is blocked while the caller's existing record is non-terminal.
pub open spec fn create_blocked(s: BridgeView, caller: Seq<char>) -> bool {
    s.requests.contains_key(caller) && !is_terminal(s.requests[caller].status)
}

/// What `create_request` does to the state and returns.
pub open spec fn spec_create_request(
    s: BridgeView,
    caller: Seq<char>,
    to_blockchain: Seq<char>,
    to_token: Seq<char>,
    to_address: Seq<char>,
    from_token_address: Option<Seq<char>>,
    attached_value: u128,
) -> (BridgeView, Result<(), CreateError>) {
    if from_token_address is Some {
        (s, Result::Err(CreateError::NotImplemented))
    } else if create_blocked(s, caller) {
        (s, Result::Err(CreateError::UnfinishedRequestExists))
    } else {
        (
            BridgeView {
                operator: s.operator,
                requests: s.requests.insert(
                    caller,
                    new_request(to_blockchain, to_token, to_address, attached_value),
                ),
            },
            Result::Ok(()),
        )
    }
}

/// What `mark_doing` does to the state and returns.
pub open spec fn spec_mark_doing(
    s: BridgeView,
    caller: Seq<char>,
    requester: Seq<char>,
    to_txn_hash: Seq<char>,
) -> (BridgeView, Result<(), TransitionError>) {
    if caller != s.operator {
        (s, Result::Err(TransitionError::NotOwner))
    } else if !s.requests.contains_key(requester) {
        (s, Result::Err(TransitionError::RequestNotFound))
    } else {
        match s.requests[requester].status {
            StatusView::Created => (
                BridgeView {
                    operator: s.operator,
                    requests: s.requests.insert(
                        requester,
                        RequestView {
                            status: StatusView::Doing { to_txn_hash },
                            ..s.requests[requester]
                        },
                    ),
                },
                Result::Ok(()),
            ),
            StatusView::Doing { .. } => (
                s,
                Result::Err(TransitionError::InvalidTransition { expected: StatusTag::Created }),
            ),
            StatusView::Error { .. } => (
                s,
                Result::Err(TransitionError::InvalidTransition { expected: StatusTag::Created }),
            ),
            StatusView::Done { .. } => (
                s,
                Result::Err(TransitionError::InvalidTransition { expected: StatusTag::Created }),
            ),
        }
    }
}

/// What `mark_done` does to the state and returns.
pub open spec fn spec_mark_done(s: BridgeView, caller: Seq<char>, requester: Seq<char>) -> (
    BridgeView,
    Result<(), TransitionError>,
) {
    if caller != s.operator {
        (s, Result::Err(TransitionError::NotOwner))
    } else if !s.requests.contains_key(requester) {
        (s, Result::Err(TransitionError::RequestNotFound))
    } else {
        match s.requests[requester].status {
            StatusView::Doing { to_txn_hash } => (
                BridgeView {
                    operator: s.operator,
                    requests: s.requests.insert(
                        requester,
                        RequestView {
                            status: StatusView::Done { to_txn_hash },
                            ..s.requests[requester]
                        },
                    ),
                },
                Result::Ok(()),
            ),
            StatusView::Created => (
                s,
                Result::Err(TransitionError::InvalidTransition { expected: StatusTag::Doing }),
            ),
            StatusView::Error { .. } => (
                s,
                Result::Err(TransitionError::InvalidTransition { expected: StatusTag::Doing }),
            ),
            StatusView::Done { .. } => (
                s,
                Result::Err(TransitionError::InvalidTransition { expected: StatusTag::Doing }),
            ),
        }
    }
}

/// What `mark_error` does to the state and returns.
pub open spec fn spec_mark_error(
    s: BridgeView,
    caller: Seq<char>,
    requester: Seq<char>,
    error_message: Seq<char>,
) -> (BridgeView, Result<(), TransitionError>) {
    if caller != s.operator {
        (s, Result::Err(TransitionError::NotOwner))
    } else if !s.requests.contains_key(requester) {
        (s, Result::Err(TransitionError::RequestNotFound))
    } else {
        match s.requests[requester].status {
            StatusView::Doing { to_txn_hash } => (
                BridgeView {
                    operator: s.operator,
                    requests: s.requests.insert(
                        requester,
                        RequestView {
                            status: StatusView::Error { to_txn_hash, error: error_message },
                            ..s.requests[requester]
                        },
                    ),
                },
                Result::Ok(()),
            ),
            StatusView::Created => (
                s,
                Result::Err(TransitionError::InvalidTransition { expected: StatusTag::Doing }),
            ),
            StatusView::Error { .. } => (
                s,
                Result::Err(TransitionError::InvalidTransition { expected: StatusTag::Doing }),
            ),
            StatusView::Done { .. } => (
                s,
                Result::Err(TransitionError::InvalidTransition { expected: StatusTag::Doing }),
            ),
        }
    }
}

/// One bridge instance: the fixed operator identity and the request store.
pub struct HalfmoonCrossBridge {
    operator: String,
    store: RequestStore,
}

impl View for HalfmoonCrossBridge {
    type V = BridgeView;

    closed spec fn view(&self) -> BridgeView {
        BridgeView { operator: self.operator@, requests: self.store@ }
    }
}

impl HalfmoonCrossBridge {
    /// Well-formedness of the representation: one store slot per requester.
    pub closed spec fn wf(&self) -> bool {
        self.store.wf()
    }

    /// One-time setup fixing the operator identity for the instance's
    /// lifetime.  `state_exists` is the host's answer to whether instance
    /// state was already constructed.
    pub fn construct(operator_identity: String, state_exists: bool) -> (r: Result<
        HalfmoonCrossBridge,
        ConstructError,
    >)
        ensures
            match r {
                Result::Ok(b) => b.wf() && spec_construct(operator_identity@, state_exists)
                    == Result::<BridgeView, ConstructError>::Ok(b@),
                Result::Err(e) => spec_construct(operator_identity@, state_exists)
                    == Result::<BridgeView, ConstructError>::Err(e),
            },
    {
        if !validate_identity(operator_identity.as_str()) {
            return Result::Err(ConstructError::InvalidOwner);
        }
        if state_exists {
            return Result::Err(ConstructError::AlreadyInitialized);
        }
        let b = HalfmoonCrossBridge { operator: operator_identity, store: RequestStore::new() };
        proof {
            assert(b@ =~= BridgeView { operator: b.operator@, requests: Map::empty() });
        }
        Result::Ok(b)
    }

    /// Creates a fresh request for the caller, on the caller's own behalf.
    /// Token-funded transfers are unimplemented; a caller whose existing
    /// record is still non-terminal is refused; otherwise the new record
    /// overwrites any prior terminal one.
    ///
    /// On failure nothing is written; what then happens to an already
    /// attached value (kept or refunded) is a policy of the hosting layer,
    /// which supplies `attached_value`, not of this library.
    pub fn create_request(
        &mut self,
        caller: String,
        to_blockchain: String,
        to_token: String,
        to_address: String,
        from_token_address: Option<String>,
        attached_value: u128,
    ) -> (r: Result<(), CreateError>)
        requires
            old(self).wf(),
        ensures
            final(self).wf(),
            (final(self)@, r) == spec_create_request(
                old(self)@,
                caller@,
                to_blockchain@,
                to_token@,
                to_address@,
                opt_view(from_token_address),
                attached_value,
            ),
    {
        if from_token_address.is_some() {
            return Result::Err(CreateError::NotImplemented);
        }
        let blocked: bool = match self.store.get(&caller) {
            Option::Some(req) => match &req.status {
                RequestStatus::Created => true,
                RequestStatus::Doing { .. } => true,
                RequestStatus::Error { .. } => false,
                RequestStatus::Done { .. } => false,
            },
            Option::None => false,
        };
        if blocked {
            return Result::Err(CreateError::UnfinishedRequestExists);
        }
        let record = BridgeRequest {
            to_blockchain,
            to_token,
            to_address,
            from_token_address: Option::None,
            from_amount_atom: to_decimal_string(attached_value),
            status: RequestStatus::Created,
        };
        self.store.put(caller, record);
        proof {
            assert(self@ =~= spec_create_request(
                old(self)@,
                caller@,
                to_blockchain@,
                to_token@,
                to_address@,
                opt_view(from_token_address),
                attached_value,
            ).0);
        }
        Result::Ok(())
    }

    /// Records the destination-chain transaction hash for a freshly created
    /// request, moving it from `Created` to `Doing`.  Operator only.
    pub fn mark_doing(&mut self, caller: String, requester: String, to_txn_hash: String) -> (r:
        Result<(), TransitionError>)
        requires
            old(self).wf(),
        ensures
            final(self).wf(),
            (final(self)@, r) == spec_mark_doing(old(self)@, caller@, requester@, to_txn_hash@),
    {
        if !(caller == self.operator) {
            return Result::Err(TransitionError::NotOwner);
        }
        let updated: BridgeRequest = match self.store.get(&requester) {
            Option::None => {
                return Result::Err(TransitionError::RequestNotFound);
            },
            Option::Some(req) => match &req.status {
                RequestStatus::Created => BridgeRequest {
                    to_blockchain: req.to_blockchain.clone(),
                    to_token: req.to_token.clone(),
                    to_address: req.to_address.clone(),
                    from_token_address: clone_opt(&req.from_token_address),
                    from_amount_atom: req.from_amount_atom.clone(),
                    status: RequestStatus::Doing { to_txn_hash },
                },
                RequestStatus::Doing { .. } => {
                    return Result::Err(
                        TransitionError::InvalidTransition { expected: StatusTag::Created },
                    );
                },
                RequestStatus::Error { .. } => {
                    return Result::Err(
                        TransitionError::InvalidTransition { expected: StatusTag::Created },
                    );
                },
                RequestStatus::Done { .. } => {
                    return Result::Err(
                        TransitionError::InvalidTransition { expected: StatusTag::Created },
                    );
                },
            },
        };
        self.store.put(requester, updated);
        proof {
            assert(self@ =~= spec_mark_doing(old(self)@, caller@, requester@, to_txn_hash@).0);
        }
        Result::Ok(())
    }

    /// Records successful completion for a request in `Doing`, carrying the
    /// hash over unchanged.  Operator only.
    pub fn mark_done(&mut self, caller: String, requester: String) -> (r: Result<
        (),
        TransitionError,
    >)
        requires
            old(self).wf(),
        ensures
            final(self).wf(),
            (final(self)@, r) == spec_mark_done(old(self)@, caller@, requester@),
    {
        if !(caller == self.operator) {
            return Result::Err(TransitionError::NotOwner);
        }
        let updated: BridgeRequest = match self.store.get(&requester) {
            Option::None => {
                return Result::Err(TransitionError::RequestNotFound);
            },
            Option::Some(req) => match &req.status {
                RequestStatus::Doing { to_txn_hash } => BridgeRequest {
                    to_blockchain: req.to_blockchain.clone(),
                    to_token: req.to_token.clone(),
                    to_address: req.to_address.clone(),
                    from_token_address: clone_opt(&req.from_token_address),
                    from_amount_atom: req.from_amount_atom.clone(),
                    status: RequestStatus::Done { to_txn_hash: to_txn_hash.clone() },
                },
                RequestStatus::Created => {
                    return Result::Err(
                        TransitionError::InvalidTransition { expected: StatusTag::Doing },
                    );
                },
                RequestStatus::Error { .. } => {
                    return Result::Err(
                        TransitionError::InvalidTransition { expected: StatusTag::Doing },
                    );
                },
                RequestStatus::Done { .. } => {
                    return Result::Err(
                        TransitionError::InvalidTransition { expected: StatusTag::Doing },
                    );
                },
            },
        };
        self.store.put(requester, updated);
        proof {
            assert(self@ =~= spec_mark_done(old(self)@, caller@, requester@).0);
        }
        Result::Ok(())
    }

    /// Records a processing failure for a request in `Doing`, carrying the
    /// hash over and storing the error message.  Operator only.
    pub fn mark_error(&mut self, caller: String, requester: String, error_message: String) -> (r:
        Result<(), TransitionError>)
        requires
            old(self).wf(),
        ensures
            final(self).wf(),
            (final(self)@, r) == spec_mark_error(old(self)@, caller@, requester@, error_message@),
    {
        if !(caller == self.operator) {
            return Result::Err(TransitionError::NotOwner);
        }
        let updated: BridgeRequest = match self.store.get(&requester) {
            Option::None => {
                return Result::Err(TransitionError::RequestNotFound);
            },
            Option::Some(req) => match &req.status {
                RequestStatus::Doing { to_txn_hash } => BridgeRequest {
                    to_blockchain: req.to_blockchain.clone(),
                    to_token: req.to_token.clone(),
                    to_address: req.to_address.clone(),
                    from_token_address: clone_opt(&req.from_token_address),
                    from_amount_atom: req.from_amount_atom.clone(),
                    status: RequestStatus::Error {
                        to_txn_hash: to_txn_hash.clone(),
                        error: error_message,
                    },
                },
                RequestStatus::Created => {
                    return Result::Err(
                        TransitionError::InvalidTransition { expected: StatusTag::Doing },
                    );
                },
                RequestStatus::Error { .. } => {
                    return Result::Err(
                        TransitionError::InvalidTransition { expected: StatusTag::Doing },
                    );
                },
                RequestStatus::Done { .. } => {
                    return Result::Err(
                        TransitionError::InvalidTransition { expected: StatusTag::Doing },
                    );
                },
            },
        };
        self.store.put(requester, updated);
        proof {
            assert(self@ =~= spec_mark_error(old(self)@, caller@, requester@, error_message@).0);
        }
        Result::Ok(())
    }

    /// Pure read of the record stored for a requester; open to any caller.
    pub fn query(&self, requester: &String) -> (r: Option<&BridgeRequest>)
        requires
            self.wf(),
        ensures
            match r {
                Option::Some(req) => self@.requests.contains_key(requester@)
                    && self@.requests[requester@] == req@,
                Option::None => !self@.requests.contains_key(requester@),
            },
    {
        self.store.get(requester)
    }
}

/// Clones an optional string field.
fn clone_opt(o: &Option<String>) -> (r: Option<String>)
    ensures
        opt_view(r) == opt_view(*o),
{
    match o {
        Option::None => Option::None,
        Option::Some(s) => Option::Some(s.clone()),
    }
}

} // verus!
