//! Taking the token of the deployment. It is set once; the same token may
//! arrive again, a different one may not.

use vstd::prelude::*;
use crate::error::Status;
use crate::state::{AppInitData, AppState, AppStateView};

verus! {

/// The body of a request that brings the token.
#[derive(Debug)]
pub struct TokenPayload {
    pub key: String,
}

/// No token is set, or the one that is set is the one that `payload` brings.
pub open spec fn token_agrees(state: AppStateView, payload: Seq<char>) -> bool {
    state.token matches Some(key) ==> key == payload
}

/// Whether `payload` may be taken: no token is set yet, or it brings the
/// one that is set.
pub fn token_accepts(state: &AppState, payload: &TokenPayload) -> (ok: bool)
    ensures
        ok == token_agrees(state@, payload.key@),
{
    match &state.token {
        Some(data) => data.key == payload.key,
        None => true,
    }
}

/// Whether a token is set already. A payload that brings a different token
/// than the one that is set must not be handed in.
pub fn check_token_exists(state: &AppState, payload: &TokenPayload) -> (exists: bool)
    requires
        token_agrees(state@, payload.key@),
    ensures
        exists == state@.token is Some,
{
    state.token.is_some()
}

/// Sets the token, which must not be set yet: 500 where it is.
pub fn set_depot_key(state: &mut AppState, key: String) -> (set: Result<(), Status>)
    ensures
        match set {
            Ok(_) => old(state)@.token is None && final(state)@ == (AppStateView {
                token: Some(key@),
                ..old(state)@
            }),
            Err(status) => old(state)@.token is Some && status == Status::InternalServerError
                && final(state)@ == old(state)@,
        },
{
    if state.token.is_some() {
        return Err(Status::InternalServerError);
    }
    state.token = Some(AppInitData { key });
    Ok(())
}

/// Takes the token that `payload` brings: sets it where none is set, and
/// answers 200 either way. From here on the token is set.
pub fn set_token(state: &mut AppState, payload: TokenPayload) -> (answer: Result<Status, Status>)
    requires
        token_agrees(old(state)@, payload.key@),
    ensures
        answer == Ok::<Status, Status>(Status::Success),
        final(state)@ == (AppStateView { token: Some(payload.key@), ..old(state)@ }),
{
    if check_token_exists(state, &payload) {
        return Ok(Status::Success);
    }
    match set_depot_key(state, payload.key) {
        Ok(_) => Ok(Status::Success),
        Err(status) => Err(status),
    }
}

} // verus!
