//! The state that every handler shares: the token of the deployment, once
//! it has arrived, and the cache of download contexts.

use vstd::prelude::*;
use crate::cache::{ContextCache, KeyView};
use crate::download::DownloadContextView;

verus! {

/// What the operator hands over to bring the depot into service.
#[derive(Debug)]
pub struct AppInitData {
    pub key: String,
}

/// The state of the process.
pub struct AppState {
    pub token: Option<AppInitData>,
    pub context_cache: ContextCache,
}

/// What an `AppState` stands for in contracts.
pub struct AppStateView {
    pub token: Option<Seq<char>>,
    pub contexts: Map<KeyView, DownloadContextView>,
}

impl View for AppState {
    type V = AppStateView;

    open spec fn view(&self) -> AppStateView {
        AppStateView {
            token: match self.token {
                Some(data) => Some(data.key@),
                None => None,
            },
            contexts: self.context_cache@,
        }
    }
}

impl AppState {
    /// The state at startup: no token, no contexts.
    pub fn new() -> (state: AppState)
        ensures
            state@ == (AppStateView { token: None, contexts: Map::empty() }),
    {
        AppState { token: None, context_cache: ContextCache::new() }
    }

    /// Whether the token has arrived.
    pub fn initialized(&self) -> (yes: bool)
        ensures
            yes == self@.token is Some,
    {
        self.token.is_some()
    }
}

} // verus!
