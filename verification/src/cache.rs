//! The context cache: one download context per game and version, kept while
//! it is used and dropped once it has lain idle for the time to live.

use vstd::prelude::*;
use dashmap::DashMap;
use crate::download::{DownloadContext, DownloadContextView};

verus! {

/// How long a context may lie idle, in seconds.
pub const CONTEXT_TTL: u64 = 600;

/// How long the sweep rests between two walks, in seconds.
pub const SWEEP_INTERVAL: u64 = 60;

/// `dashmap::DashMap`, a hash map split into shards that lock one by one.
#[verifier::external_type_specification]
#[verifier::external_body]
#[verifier::reject_recursive_types(K)]
#[verifier::reject_recursive_types(V)]
#[verifier::reject_recursive_types(S)]
pub struct ExDashMap<K, V, S>(DashMap<K, V, S>);

/// The map that the cache keeps its contexts in, by game and version.
pub type ContextMap = DashMap<(String, String), DownloadContext>;

/// A game's id and a version's name, as contracts see them.
pub type KeyView = (Seq<char>, Seq<char>);

/// What the map holds: the context filed under each pair of game and version.
pub uninterp spec fn cache_contents(cache: ContextMap) -> Map<
    KeyView,
    DownloadContext,
>;

/// A key as contracts see it.
pub open spec fn key_view(key: (String, String)) -> KeyView {
    (key.0@, key.1@)
}

/// Calls `DashMap::new`. The claim: the new map holds nothing.
#[verifier::external_body]
fn cache_new() -> (made: ContextMap)
    ensures
        forall|key: KeyView| !cache_contents(made).contains_key(key),
{
    DashMap::new()
}

/// Calls `DashMap::contains_key`. The claim: it says whether something is
/// filed under the key.
#[verifier::external_body]
fn cache_contains(cache: &ContextMap, game: &str, version: &str) -> (held:
    bool)
    ensures
        held == cache_contents(*cache).contains_key((game@, version@)),
{
    cache.contains_key(&(game.to_owned(), version.to_owned()))
}

/// Calls `DashMap::insert` on a map that nobody else can reach. The claim:
/// afterwards the map holds `context` under the key and is otherwise as
/// before.
#[verifier::external_body]
fn cache_insert(
    cache: &mut ContextMap,
    game: String,
    version: String,
    context: DownloadContext,
)
    ensures
        cache_contents(*final(cache)) == cache_contents(*old(cache)).insert(
            (game@, version@),
            context,
        ),
{
    cache.insert((game, version), context);
}

/// Calls `DashMap::remove` on a map that nobody else can reach. The claim:
/// it hands out what was filed under the key, if anything was, and afterwards
/// the map holds nothing under the key and is otherwise as before.
#[verifier::external_body]
fn cache_remove(cache: &mut ContextMap, game: &str, version: &str) -> (removed:
    Option<DownloadContext>)
    ensures
        cache_contents(*final(cache)) == cache_contents(*old(cache)).remove((game@, version@)),
        removed == (if cache_contents(*old(cache)).contains_key((game@, version@)) {
            Some(cache_contents(*old(cache))[(game@, version@)])
        } else {
            None
        }),
{
    cache.remove(&(game.to_owned(), version.to_owned())).map(|entry| entry.1)
}

/// Calls `DashMap::iter` and copies each entry's key. The claim: the keys
/// handed out are those under which something is filed, in no stated order.
#[verifier::external_body]
fn cache_keys(cache: &ContextMap) -> (keys: Vec<(String, String)>)
    ensures
        forall|i: int| 0 <= i < keys@.len() ==> cache_contents(*cache).contains_key(#[trigger] key_view(keys@[i])),
        forall|key: KeyView| #[trigger]
            cache_contents(*cache).contains_key(key) ==> exists|i: int|
                0 <= i < keys@.len() && key_view(keys@[i]) == key,
{
    cache.iter().map(|entry| entry.key().clone()).collect()
}

/// Whether a context last used at `last_access` has lain idle for the time
/// to live at `now`.
pub open spec fn expired(last_access: u64, now: u64) -> bool {
    now - last_access >= CONTEXT_TTL
}

/// Whether a context last used at `last_access` has lain idle for the time
/// to live at `now`.
pub fn is_expired(last_access: u64, now: u64) -> (gone: bool)
    ensures
        gone == expired(last_access, now),
{
    now >= last_access && now - last_access >= CONTEXT_TTL
}

/// The views of the contexts of a table, key by key.
pub open spec fn context_views(contents: Map<KeyView, DownloadContext>) -> Map<
    KeyView,
    DownloadContextView,
> {
    Map::new(|key: KeyView| contents.contains_key(key), |key: KeyView| contents[key]@)
}

/// What is left of a table after a sweep at `now`: the contexts that have
/// not lain idle for the time to live, unchanged.
pub open spec fn swept(contents: Map<KeyView, DownloadContextView>, now: u64) -> Map<
    KeyView,
    DownloadContextView,
> {
    Map::new(
        |key: KeyView| contents.contains_key(key) && !expired(contents[key].last_access, now),
        |key: KeyView| contents[key],
    )
}

/// The cache of download contexts.
pub struct ContextCache {
    entries: ContextMap,
}

impl View for ContextCache {
    type V = Map<KeyView, DownloadContextView>;

    closed spec fn view(&self) -> Map<KeyView, DownloadContextView> {
        context_views(cache_contents(self.entries))
    }
}

impl ContextCache {
    /// An empty cache.
    pub fn new() -> (cache: ContextCache)
        ensures
            cache@ == Map::<KeyView, DownloadContextView>::empty(),
    {
        let cache = ContextCache { entries: cache_new() };
        proof {
            assert(cache@ =~= Map::<KeyView, DownloadContextView>::empty());
        }
        cache
    }

    /// Whether a context is filed under the game and version.
    pub fn contains(&self, game: &str, version: &str) -> (held: bool)
        ensures
            held == self@.contains_key((game@, version@)),
    {
        cache_contains(&self.entries, game, version)
    }

    /// Files `context` under the game and version, in place of what was there.
    pub fn insert(&mut self, game: String, version: String, context: DownloadContext)
        ensures
            final(self)@ == old(self)@.insert((game@, version@), context@),
    {
        cache_insert(&mut self.entries, game, version, context);
        proof {
            assert(self@ =~= old(self)@.insert((game@, version@), context@));
        }
    }

    /// Takes the context filed under the game and version out of the cache.
    pub fn take(&mut self, game: &str, version: &str) -> (taken: Option<DownloadContext>)
        ensures
            final(self)@ == old(self)@.remove((game@, version@)),
            taken is Some == old(self)@.contains_key((game@, version@)),
            taken matches Some(context) ==> context@ == old(self)@[(game@, version@)],
    {
        let taken = cache_remove(&mut self.entries, game, version);
        proof {
            assert(self@ =~= old(self)@.remove((game@, version@)));
        }
        taken
    }

    /// Drops the context filed under the game and version, if there is one.
    pub fn invalidate(&mut self, game: &str, version: &str)
        ensures
            final(self)@ == old(self)@.remove((game@, version@)),
    {
        let _ = self.take(game, version);
    }

    /// Looks the game and version up and, on a hit, records the use at `now`.
    pub fn lookup(&mut self, game: &str, version: &str, now: u64) -> (hit: bool)
        ensures
            hit == old(self)@.contains_key((game@, version@)),
            final(self)@ == (if hit {
                old(self)@.insert(
                    (game@, version@),
                    DownloadContextView { last_access: now, ..old(self)@[(game@, version@)] },
                )
            } else {
                old(self)@
            }),
    {
        match self.take(game, version) {
            Some(context) => {
                let mut context = context;
                context.reset_last_access(now);
                self.insert(game.to_owned(), version.to_owned(), context);
                proof {
                    assert(self@ =~= old(self)@.insert(
                        (game@, version@),
                        DownloadContextView { last_access: now, ..old(self)@[(game@, version@)] },
                    ));
                }
                true
            },
            None => {
                proof {
                    assert(self@ =~= old(self)@);
                }
                false
            },
        }
    }

    /// Walks the cache and drops every context that has lain idle for the
    /// time to live at `now`.
    pub fn sweep(&mut self, now: u64)
        ensures
            final(self)@ == swept(old(self)@, now),
    {
        let keys = cache_keys(&self.entries);
        let ghost before = self@;
        let mut i: usize = 0;
        while i < keys.len()
            invariant
                i <= keys.len(),
                forall|key: KeyView| #[trigger]
                    before.contains_key(key) ==> exists|j: int|
                        0 <= j < keys@.len() && key_view(keys@[j]) == key,
                forall|key: KeyView| #[trigger]
                    self@.contains_key(key) <==> before.contains_key(key) && !(expired(
                        before[key].last_access,
                        now,
                    ) && exists|j: int| 0 <= j < i && key_view(keys@[j]) == key),
                forall|key: KeyView| #[trigger] self@.contains_key(key) ==> self@[key] == before[key],
            decreases keys.len() - i,
        {
            let ghost held = self@;
            let ghost this = key_view(keys@[i as int]);
            match self.take(keys[i].0.as_str(), keys[i].1.as_str()) {
                Some(context) => {
                    if !is_expired(context.last_access(), now) {
                        self.insert(keys[i].0.clone(), keys[i].1.clone(), context);
                        proof {
                            assert(self@ =~= held);
                        }
                    }
                },
                None => {},
            }
            proof {
                assert forall|key: KeyView| #[trigger]
                    self@.contains_key(key) <==> before.contains_key(key) && !(expired(
                        before[key].last_access,
                        now,
                    ) && exists|j: int| 0 <= j < i + 1 && key_view(keys@[j]) == key) by {
                    if key == this {
                        assert(key_view(keys@[i as int]) == key);
                    } else {
                        if exists|j: int| 0 <= j < i + 1 && key_view(keys@[j]) == key {
                            let j = choose|j: int| 0 <= j < i + 1 && key_view(keys@[j]) == key;
                            assert(j < i);
                        }
                    }
                }
            }
            i += 1;
        }
        proof {
            assert(self@ =~= swept(before, now));
        }
    }
}

/// After the time to live without a use, a sweep drops the context, so the
/// next request finds it missing; a context used more recently stays as it is.
pub proof fn law_sweep_evicts_idle(contexts: Map<KeyView, DownloadContextView>, key: KeyView, now: u64)
    requires
        contexts.contains_key(key),
    ensures
        now - contexts[key].last_access >= CONTEXT_TTL ==> !swept(contexts, now).contains_key(key),
        now - contexts[key].last_access < CONTEXT_TTL ==> swept(contexts, now).contains_key(key)
            && swept(contexts, now)[key] == contexts[key],
{
}

} // verus!
