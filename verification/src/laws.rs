//! The guarantees the lifecycle controller gives, stated over the transition
//! model that the controller's contracts pin its operations to.

use vstd::prelude::*;

use crate::bridge::{
    create_blocked, spec_create_request, spec_mark_doing, spec_mark_done, spec_mark_error,
    BridgeView,
};
use crate::errors::{CreateError, StatusTag, TransitionError};
use crate::model::is_terminal;

verus! {

/// Transition totality: for a stored record, `mark_doing` succeeds exactly
/// from `Created`, and `mark_done` / `mark_error` succeed exactly from
/// `Doing`; every refused transition reports the expected prior status and
/// leaves the state untouched.
pub proof fn lemma_transition_totality(
    s: BridgeView,
    requester: Seq<char>,
    to_txn_hash: Seq<char>,
    error_message: Seq<char>,
)
    requires
        s.requests.contains_key(requester),
    ensures
        spec_mark_doing(s, s.operator, requester, to_txn_hash).1 is Ok <==> s.requests[requester].status is Created,
        spec_mark_done(s, s.operator, requester).1 is Ok <==> s.requests[requester].status is Doing,
        spec_mark_error(s, s.operator, requester, error_message).1 is Ok <==> s.requests[requester].status is Doing,
        spec_mark_doing(s, s.operator, requester, to_txn_hash).1 is Err ==> spec_mark_doing(
            s,
            s.operator,
            requester,
            to_txn_hash,
        ) == (
            s,
            Result::<(), TransitionError>::Err(
                TransitionError::InvalidTransition { expected: StatusTag::Created },
            ),
        ),
        spec_mark_done(s, s.operator, requester).1 is Err ==> spec_mark_done(
            s,
            s.operator,
            requester,
        ) == (
            s,
            Result::<(), TransitionError>::Err(
                TransitionError::InvalidTransition { expected: StatusTag::Doing },
            ),
        ),
        spec_mark_error(s, s.operator, requester, error_message).1 is Err ==> spec_mark_error(
            s,
            s.operator,
            requester,
            error_message,
        ) == (
            s,
            Result::<(), TransitionError>::Err(
                TransitionError::InvalidTransition { expected: StatusTag::Doing },
            ),
        ),
{
}

/// Authorization: a caller other than the fixed operator is turned away from
/// every mutating operator operation with `NotOwner`, and the stored mapping
/// is identical before and after the call.
pub proof fn lemma_authorization(
    s: BridgeView,
    caller: Seq<char>,
    requester: Seq<char>,
    to_txn_hash: Seq<char>,
    error_message: Seq<char>,
)
    requires
        caller != s.operator,
    ensures
        spec_mark_doing(s, caller, requester, to_txn_hash) == (
            s,
            Result::<(), TransitionError>::Err(TransitionError::NotOwner),
        ),
        spec_mark_done(s, caller, requester) == (
            s,
            Result::<(), TransitionError>::Err(TransitionError::NotOwner),
        ),
        spec_mark_error(s, caller, requester, error_message) == (
            s,
            Result::<(), TransitionError>::Err(TransitionError::NotOwner),
        ),
{
}

/// Creation gate: creating fails with `UnfinishedRequestExists` exactly when
/// the caller's stored record is non-terminal (`Created` or `Doing`), and
/// succeeds — overwriting the slot — when the caller has no record or a
/// terminal one.
pub proof fn lemma_creation_gate(
    s: BridgeView,
    caller: Seq<char>,
    to_blockchain: Seq<char>,
    to_token: Seq<char>,
    to_address: Seq<char>,
    attached_value: u128,
)
    ensures
        ({
            let (s2, r) = spec_create_request(
                s,
                caller,
                to_blockchain,
                to_token,
                to_address,
                Option::None,
                attached_value,
            );
            &&& r == Result::<(), CreateError>::Err(CreateError::UnfinishedRequestExists) <==> (
            s.requests.contains_key(caller) && !is_terminal(s.requests[caller].status))
            &&& r is Err ==> s2 == s
            &&& r is Ok <==> (!s.requests.contains_key(caller) || is_terminal(
                s.requests[caller].status,
            ))
            &&& r is Ok ==> s2.requests.contains_key(caller) && s2.requests[caller].status is Created
                && (forall|other: Seq<char>|
                other != caller ==> (s2.requests.contains_key(other)
                    <==> s.requests.contains_key(other)) && (s.requests.contains_key(other)
                    ==> s2.requests[other] == s.requests[other]))
        }),
{
}

/// A single live request per requester, over time: a requester's record is
/// non-terminal only between a successful creation and the first successful
/// terminal transition for it.  Stepwise: no operation other than a
/// successful `create_request` by the requester itself makes or keeps the
/// requester's record non-terminal once it is terminal, and no operation
/// other than the three marks and the requester's own create touches the
/// record at all.
pub proof fn lemma_single_live_request(
    s: BridgeView,
    caller: Seq<char>,
    requester: Seq<char>,
    other: Seq<char>,
    to_blockchain: Seq<char>,
    to_token: Seq<char>,
    to_address: Seq<char>,
    to_txn_hash: Seq<char>,
    error_message: Seq<char>,
    attached_value: u128,
)
    requires
        s.requests.contains_key(requester),
        is_terminal(s.requests[requester].status),
    ensures
        is_terminal(spec_mark_doing(s, caller, requester, to_txn_hash).0.requests[requester].status),
        is_terminal(spec_mark_done(s, caller, requester).0.requests[requester].status),
        is_terminal(spec_mark_error(s, caller, requester, error_message).0.requests[requester].status),
        other != requester ==> spec_mark_doing(
            s,
            caller,
            other,
            to_txn_hash,
        ).0.requests.contains_key(requester) && is_terminal(
            spec_mark_doing(s, caller, other, to_txn_hash).0.requests[requester].status,
        ),
        other != requester ==> spec_mark_done(s, caller, other).0.requests.contains_key(requester)
            && is_terminal(spec_mark_done(s, caller, other).0.requests[requester].status),
        other != requester ==> spec_mark_error(
            s,
            caller,
            other,
            error_message,
        ).0.requests.contains_key(requester) && is_terminal(
            spec_mark_error(s, caller, other, error_message).0.requests[requester].status,
        ),
        other != requester ==> spec_create_request(
            s,
            other,
            to_blockchain,
            to_token,
            to_address,
            Option::None,
            attached_value,
        ).0.requests.contains_key(requester) && is_terminal(
            spec_create_request(
                s,
                other,
                to_blockchain,
                to_token,
                to_address,
                Option::None,
                attached_value,
            ).0.requests[requester].status,
        ),
{
}

/// The only way a record leaves a terminal status is the requester's own
/// successful new creation, which starts the next lifecycle at `Created`;
/// and a successful terminal transition indeed leaves the record terminal.
pub proof fn lemma_terminal_until_recreated(
    s: BridgeView,
    caller: Seq<char>,
    requester: Seq<char>,
    to_blockchain: Seq<char>,
    to_token: Seq<char>,
    to_address: Seq<char>,
    to_txn_hash: Seq<char>,
    error_message: Seq<char>,
    attached_value: u128,
)
    ensures
        ({
            let (s2, r) = spec_create_request(
                s,
                requester,
                to_blockchain,
                to_token,
                to_address,
                Option::None,
                attached_value,
            );
            r is Ok ==> s2.requests[requester].status == crate::model::StatusView::Created
        }),
        spec_mark_done(s, caller, requester).1 is Ok ==> is_terminal(
            spec_mark_done(s, caller, requester).0.requests[requester].status,
        ),
        spec_mark_error(s, caller, requester, error_message).1 is Ok ==> is_terminal(
            spec_mark_error(s, caller, requester, error_message).0.requests[requester].status,
        ),
        create_blocked(s, requester) ==> spec_create_request(
            s,
            requester,
            to_blockchain,
            to_token,
            to_address,
            Option::None,
            attached_value,
        ) == (s, Result::<(), CreateError>::Err(CreateError::UnfinishedRequestExists)),
{
}

} // verus!
