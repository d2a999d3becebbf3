//! The small handlers: health, invalidation, the speed test and the listing
//! of what the depot offers.

use vstd::prelude::*;
use crate::error::{ErrorOption, Status};
use crate::remote::{SkeletonGame, SkeletonVersion};
use crate::state::{AppState, AppStateView};
use vstd::string::StringExecFns;

verus! {

/// 200 once the token is set, 503 before.
pub open spec fn health(state: AppStateView) -> Status {
    if state.token is Some {
        Status::Success
    } else {
        Status::ServiceUnavailable
    }
}

/// Answers a health check.
pub fn healthcheck(state: &AppState) -> (status: Status)
    ensures
        status == health(state@),
{
    if !state.initialized() {
        return Status::ServiceUnavailable;
    }
    Status::Success
}

/// The body of a request to invalidate one context.
#[derive(Debug)]
pub struct InvalidateBody {
    pub game: String,
    pub version: String,
}

/// Drops the context of the game and version that `payload` names; does
/// nothing where there is none. Answers 200.
pub fn invalidate(state: &mut AppState, payload: &InvalidateBody) -> (status: Status)
    ensures
        status == Status::Success,
        final(state)@ == (AppStateView {
            contexts: old(state)@.contexts.remove((payload.game@, payload.version@)),
            ..old(state)@
        }),
{
    state.context_cache.invalidate(payload.game.as_str(), payload.version.as_str());
    Status::Success
}

/// How many bytes the speed test sends.
pub const SPEEDTEST_LENGTH: usize = 52428800;

/// How many bytes the speed test hands out at most in one read.
pub const SPEEDTEST_BLOCK: usize = 1024;

/// A source of zero bytes that runs dry after `SPEEDTEST_LENGTH` of them.
pub struct SpeedtestStream {
    remaining: usize,
}

impl SpeedtestStream {
    /// How many bytes are still to come.
    pub closed spec fn remaining(&self) -> nat {
        self.remaining as nat
    }

    /// A source with all its bytes still to come.
    pub fn new() -> (stream: SpeedtestStream)
        ensures
            stream.remaining() == SPEEDTEST_LENGTH,
    {
        SpeedtestStream { remaining: 1024 * 1024 * 50 }
    }

    /// How many bytes are still to come: at the start, the length of the body.
    pub fn content_length(&self) -> (length: usize)
        ensures
            length == self.remaining(),
    {
        self.remaining
    }

    /// Takes the next read, for a buffer with room for `room` bytes. Returns
    /// how many zero bytes to put there: a block, or less where the buffer or
    /// what is still to come is smaller.
    pub fn poll_read(&mut self, room: usize) -> (amount: usize)
        ensures
            amount == spec_read_amount(old(self).remaining(), room as nat),
            final(self).remaining() == old(self).remaining() - amount,
    {
        let mut amount: usize = SPEEDTEST_BLOCK;
        if room < amount {
            amount = room;
        }
        if self.remaining < amount {
            amount = self.remaining;
        }
        self.remaining = self.remaining - amount;
        amount
    }
}

/// The least of a block, the room in the buffer, and what is still to come.
pub open spec fn spec_read_amount(remaining: nat, room: nat) -> nat {
    if remaining <= room && remaining <= SPEEDTEST_BLOCK {
        remaining
    } else if room <= SPEEDTEST_BLOCK {
        room
    } else {
        SPEEDTEST_BLOCK as nat
    }
}

/// What is still to come after a run of reads into buffers with the given
/// room.
pub open spec fn spec_drained(remaining: nat, rooms: Seq<nat>) -> nat
    decreases rooms.len(),
{
    if rooms.len() == 0 {
        remaining
    } else {
        let before = spec_drained(remaining, rooms.drop_last());
        (before - spec_read_amount(before, rooms.last())) as nat
    }
}

/// What a run of reads has handed out, all told.
pub open spec fn spec_emitted(remaining: nat, rooms: Seq<nat>) -> nat
    decreases rooms.len(),
{
    if rooms.len() == 0 {
        0
    } else {
        let before = spec_drained(remaining, rooms.drop_last());
        spec_emitted(remaining, rooms.drop_last()) + spec_read_amount(before, rooms.last())
    }
}

/// The speed test sends exactly its length: whatever the buffers, what has
/// been handed out and what is still to come add up to where the source
/// started; no read hands out more than a block; and a read into a buffer
/// with room hands out something while anything is still to come.
pub proof fn law_speedtest_sends_its_length(remaining: nat, rooms: Seq<nat>)
    ensures
        spec_emitted(remaining, rooms) + spec_drained(remaining, rooms) == remaining,
        forall|left: nat, room: nat| #[trigger]
            spec_read_amount(left, room) <= SPEEDTEST_BLOCK && spec_read_amount(left, room)
                <= left && spec_read_amount(left, room) <= room,
        forall|left: nat, room: nat|
            left > 0 && room > 0 ==> #[trigger] spec_read_amount(left, room) > 0,
    decreases rooms.len(),
{
    if rooms.len() > 0 {
        law_speedtest_sends_its_length(remaining, rooms.drop_last());
    }
}

/// Starts a speed test: the source, and the length to announce for it.
pub fn speedtest() -> (started: (SpeedtestStream, usize))
    ensures
        started.0.remaining() == SPEEDTEST_LENGTH,
        started.1 == SPEEDTEST_LENGTH,
{
    let stream = SpeedtestStream::new();
    let length = stream.content_length();
    (stream, length)
}

/// One version in the listing.
#[derive(Debug)]
pub struct GameData {
    pub version_id: String,
    pub compression: String,
}

/// What a `GameData` stands for in contracts.
pub struct GameDataView {
    pub version_id: Seq<char>,
    pub compression: Seq<char>,
}

impl View for GameData {
    type V = GameDataView;

    open spec fn view(&self) -> GameDataView {
        GameDataView { version_id: self.version_id@, compression: self.compression@ }
    }
}

/// The views of a run of listed versions.
pub open spec fn game_data_views(versions: Seq<GameData>) -> Seq<GameDataView> {
    Seq::new(versions.len(), |i: int| versions[i]@)
}

/// The listed versions of a game: each of its versions, uncompressed.
pub open spec fn listed_versions(versions: Seq<SkeletonVersion>) -> Seq<GameDataView> {
    Seq::new(
        versions.len(),
        |i: int| GameDataView { version_id: versions[i].version_id@, compression: "none"@ },
    )
}

/// The entries of a listing as contracts see them.
pub open spec fn listing_view(entries: Seq<(String, Vec<GameData>)>) -> Seq<
    (Seq<char>, Seq<GameDataView>),
> {
    Seq::new(entries.len(), |i: int| (entries[i].0@, game_data_views(entries[i].1@)))
}

/// The listing of `games`: one entry per game, in order, under the game's id.
pub open spec fn listing_of(games: Seq<SkeletonGame>) -> Seq<(Seq<char>, Seq<GameDataView>)> {
    Seq::new(games.len(), |i: int| (games[i].id@, listed_versions(games[i].versions@)))
}

/// Lists the versions of one game.
fn list_versions(versions: &Vec<SkeletonVersion>) -> (listed: Vec<GameData>)
    ensures
        game_data_views(listed@) == listed_versions(versions@),
{
    let mut listed: Vec<GameData> = Vec::new();
    let mut i: usize = 0;
    while i < versions.len()
        invariant
            i <= versions.len(),
            listed@.len() == i,
            forall|j: int| 0 <= j < i ==> (#[trigger] listed@[j])@ == listed_versions(versions@)[j],
        decreases versions.len() - i,
    {
        listed.push(
            GameData {
                version_id: versions[i].version_id.clone(),
                compression: String::from_str("none"),
            },
        );
        i += 1;
    }
    proof {
        assert(game_data_views(listed@) =~= listed_versions(versions@));
    }
    listed
}

/// The table that a run of entries stands for: entry by entry, a later
/// entry replacing an earlier one under the same id.
pub open spec fn listing_table(entries: Seq<(Seq<char>, Seq<GameDataView>)>) -> Map<
    Seq<char>,
    Seq<GameDataView>,
>
    decreases entries.len(),
{
    if entries.len() == 0 {
        Map::empty()
    } else {
        listing_table(entries.drop_last()).insert(entries.last().0, entries.last().1)
    }
}

/// No id occurs twice.
pub open spec fn distinct_ids(entries: Seq<(Seq<char>, Seq<GameDataView>)>) -> bool {
    forall|i: int, j: int|
        0 <= i < j < entries.len() ==> (#[trigger] entries[i]).0 != (#[trigger] entries[j]).0
}

/// Adding an entry files it in the table.
pub proof fn lemma_listing_table_push(
    entries: Seq<(Seq<char>, Seq<GameDataView>)>,
    entry: (Seq<char>, Seq<GameDataView>),
)
    ensures
        listing_table(entries.push(entry)) == listing_table(entries).insert(entry.0, entry.1),
{
    assert(entries.push(entry).drop_last() =~= entries);
}

/// In a run without repeated ids, putting an entry in the place of the one
/// with its id files it in the table, and no id is repeated afterwards.
pub proof fn lemma_listing_table_replace(
    entries: Seq<(Seq<char>, Seq<GameDataView>)>,
    at: int,
    entry: (Seq<char>, Seq<GameDataView>),
)
    requires
        distinct_ids(entries),
        0 <= at < entries.len(),
        entries[at].0 == entry.0,
    ensures
        listing_table(entries.update(at, entry)) == listing_table(entries).insert(
            entry.0,
            entry.1,
        ),
        distinct_ids(entries.update(at, entry)),
    decreases entries.len(),
{
    let replaced = entries.update(at, entry);
    let front = entries.drop_last();
    let last = entries.last();
    assert forall|i: int, j: int| 0 <= i < j < replaced.len() implies (#[trigger] replaced[i]).0 != (
    #[trigger] replaced[j]).0 by {
        assert(entries[i].0 != entries[j].0);
    }
    if at == entries.len() - 1 {
        assert(replaced.drop_last() =~= front);
        assert(listing_table(replaced) =~= listing_table(entries).insert(entry.0, entry.1));
    } else {
        assert forall|i: int, j: int| 0 <= i < j < front.len() implies (#[trigger] front[i]).0 != (
        #[trigger] front[j]).0 by {
            assert(entries[i].0 != entries[j].0);
        }
        lemma_listing_table_replace(front, at, entry);
        assert(replaced.drop_last() =~= front.update(at, entry));
        assert(replaced.last() == last);
        assert(entries[at].0 != entries[entries.len() - 1].0);
        assert(listing_table(replaced) =~= listing_table(entries).insert(entry.0, entry.1));
    }
}

/// Answers the request for the listing: 503 until the token is set; the
/// status of the error where the games could not be fetched; else the table
/// of the games, one entry per id. Where a game occurs twice among those
/// fetched, the later one counts.
pub fn manifest(state: &AppState, fetched: Result<Vec<SkeletonGame>, ErrorOption>) -> (outcome: Result<
    Vec<(String, Vec<GameData>)>,
    Status,
>)
    ensures
        match outcome {
            Ok(entries) => {
                &&& state@.token is Some
                &&& fetched is Ok
                &&& distinct_ids(listing_view(entries@))
                &&& listing_table(listing_view(entries@)) == listing_table(
                    listing_of(fetched->Ok_0@),
                )
            },
            Err(status) => status == (if state@.token is None {
                Status::ServiceUnavailable
            } else {
                fetched->Err_0.spec_status()
            }) && (state@.token is None || fetched is Err),
        },
{
    if !state.initialized() {
        return Err(Status::ServiceUnavailable);
    }
    let games = match fetched {
        Ok(games) => games,
        Err(error) => {
            return Err(error.status());
        },
    };
    let ghost all = listing_of(games@);
    let mut entries: Vec<(String, Vec<GameData>)> = Vec::new();
    let mut i: usize = 0;
    proof {
        assert(listing_view(entries@) =~= all.take(0));
    }
    while i < games.len()
        invariant
            i <= games.len(),
            all == listing_of(games@),
            distinct_ids(listing_view(entries@)),
            listing_table(listing_view(entries@)) == listing_table(all.take(i as int)),
        decreases games.len() - i,
    {
        let ghost before = listing_view(entries@);
        let listed = list_versions(&games[i].versions);
        let ghost entry = (games@[i as int].id@, game_data_views(listed@));
        proof {
            assert(all.take(i + 1) =~= all.take(i as int).push(all[i as int]));
            assert(all[i as int] == entry);
            lemma_listing_table_push(all.take(i as int), entry);
        }
        let mut at: usize = 0;
        while at < entries.len() && !(entries[at].0 == games[i].id)
            invariant
                at <= entries.len(),
                i < games.len(),
                before == listing_view(entries@),
                forall|k: int| 0 <= k < at ==> (#[trigger] before[k]).0 != games@[i as int].id@,
            decreases entries.len() - at,
        {
            proof {
                assert(before[at as int].0 == entries@[at as int].0@);
            }
            at += 1;
        }
        if at < entries.len() {
            proof {
                assert(before[at as int].0 == entries@[at as int].0@);
                lemma_listing_table_replace(before, at as int, entry);
            }
            entries.set(at, (games[i].id.clone(), listed));
            proof {
                assert(listing_view(entries@) =~= before.update(at as int, entry));
            }
        } else {
            entries.push((games[i].id.clone(), listed));
            proof {
                assert(listing_view(entries@) =~= before.push(entry));
                lemma_listing_table_push(before, entry);
                assert forall|a: int, b: int|
                    0 <= a < b < listing_view(entries@).len() implies (#[trigger] listing_view(
                    entries@,
                )[a]).0 != (#[trigger] listing_view(entries@)[b]).0 by {
                    if b < before.len() {
                        assert(before[a].0 != before[b].0);
                    } else {
                        assert(before[a].0 != entry.0);
                    }
                }
            }
        }
        i += 1;
    }
    proof {
        assert(all.take(i as int) =~= all);
    }
    Ok(entries)
}

/// Until the token is set a health check answers 503; once a token has been
/// taken it answers 200, and taking the token again, or invalidating a
/// context, leaves it at 200.
pub proof fn law_health_follows_token(before: AppStateView, after: AppStateView, key: Seq<char>)
    requires
        after == (AppStateView { token: Some(key), ..before }),
    ensures
        before.token is None ==> health(before) == Status::ServiceUnavailable,
        health(after) == Status::Success,
        forall|contexts: Map<crate::cache::KeyView, crate::download::DownloadContextView>|
            health(AppStateView { contexts, ..after }) == Status::Success,
{
}

} // verus!
