use torrential::download::DownloadContext;
use torrential::error::{ErrorOption, Status};
use torrential::handlers::{
    healthcheck, invalidate, manifest, speedtest, InvalidateBody, SpeedtestStream,
    SPEEDTEST_BLOCK, SPEEDTEST_LENGTH,
};
use torrential::manifest::Manifest;
use torrential::remote::{SkeletonGame, SkeletonVersion};
use torrential::state::{AppInitData, AppState};
use torrential::token::{check_token_exists, set_depot_key, set_token, token_accepts, TokenPayload};

fn payload(key: &str) -> TokenPayload {
    TokenPayload { key: key.to_string() }
}

#[test]
fn health_is_503_until_the_token_is_set_and_200_after() {
    let mut state = AppState::new();
    assert_eq!(healthcheck(&state), Status::ServiceUnavailable);
    assert_eq!(healthcheck(&state).code(), 503);
    assert_eq!(set_token(&mut state, payload("SECRET-REDACTED")), Ok(Status::Success));
    assert_eq!(healthcheck(&state), Status::Success);
    assert_eq!(healthcheck(&state).code(), 200);
    invalidate(&mut state, &InvalidateBody { game: "g".to_string(), version: "v".to_string() });
    assert_eq!(healthcheck(&state), Status::Success);
}

#[test]
fn the_same_token_may_arrive_again() {
    let mut state = AppState::new();
    assert!(token_accepts(&state, &payload("a")));
    assert!(!check_token_exists(&state, &payload("a")));
    assert_eq!(set_token(&mut state, payload("a")), Ok(Status::Success));
    assert!(token_accepts(&state, &payload("a")));
    assert!(check_token_exists(&state, &payload("a")));
    assert_eq!(set_token(&mut state, payload("a")), Ok(Status::Success));
    assert_eq!(state.token.as_ref().map(|data| data.key.as_str()), Some("a"));
}

#[test]
fn a_different_token_is_not_accepted() {
    let mut state = AppState::new();
    set_token(&mut state, payload("a")).unwrap();
    assert!(!token_accepts(&state, &payload("b")));
    assert!(!token_accepts(&state, &payload("")));
}

#[test]
fn the_key_is_set_once() {
    let mut state = AppState::new();
    assert_eq!(set_depot_key(&mut state, "k1".to_string()), Ok(()));
    assert_eq!(set_depot_key(&mut state, "k2".to_string()), Err(Status::InternalServerError));
    assert_eq!(set_depot_key(&mut state, "k1".to_string()), Err(Status::InternalServerError));
    assert_eq!(state.token.as_ref().map(|data| data.key.as_str()), Some("k1"));
    assert!(state.initialized());
}

#[test]
fn invalidate_drops_the_named_context_only() {
    let mut state = AppState {
        token: Some(AppInitData { key: "k".to_string() }),
        context_cache: torrential::cache::ContextCache::new(),
    };
    for version in ["v1", "v2"] {
        state.context_cache.insert(
            "g1".to_string(),
            version.to_string(),
            DownloadContext::new(Manifest::new("2".to_string(), 0, [0; 16]), Vec::new(), 0),
        );
    }
    let body = InvalidateBody { game: "g1".to_string(), version: "v1".to_string() };
    assert_eq!(invalidate(&mut state, &body), Status::Success);
    assert!(!state.context_cache.contains("g1", "v1"));
    assert!(state.context_cache.contains("g1", "v2"));
    assert_eq!(invalidate(&mut state, &body), Status::Success);
    assert!(state.initialized());
}

#[test]
fn the_speed_test_sends_fifty_mebibytes() {
    assert_eq!(SPEEDTEST_LENGTH, 52428800);
    assert_eq!(SPEEDTEST_BLOCK, 1024);
    let (mut stream, length) = speedtest();
    assert_eq!(length, 52428800);
    assert_eq!(stream.content_length(), 52428800);
    let mut total: usize = 0;
    let mut reads: usize = 0;
    loop {
        let amount = stream.poll_read(8192);
        if amount == 0 {
            break;
        }
        assert_eq!(amount, 1024);
        total += amount;
        reads += 1;
    }
    assert_eq!(total, 52428800);
    assert_eq!(reads, 51200);
    assert_eq!(stream.content_length(), 0);
    assert_eq!(stream.poll_read(8192), 0);
}

#[test]
fn the_speed_test_fits_small_buffers_and_ends_exactly() {
    let mut stream = SpeedtestStream::new();
    assert_eq!(stream.poll_read(0), 0);
    assert_eq!(stream.poll_read(100), 100);
    assert_eq!(stream.poll_read(1024), 1024);
    assert_eq!(stream.content_length(), 52428800 - 1124);
    let mut total: usize = 1124;
    loop {
        let amount = stream.poll_read(1000);
        if amount == 0 {
            break;
        }
        total += amount;
    }
    assert_eq!(total, 52428800);
}

fn games() -> Vec<SkeletonGame> {
    vec![
        SkeletonGame {
            id: "g1".to_string(),
            versions: vec![
                SkeletonVersion { version_id: "v1".to_string() },
                SkeletonVersion { version_id: "v2".to_string() },
            ],
        },
        SkeletonGame { id: "g2".to_string(), versions: Vec::new() },
    ]
}

#[test]
fn the_listing_names_each_version_uncompressed() {
    let mut state = AppState::new();
    set_token(&mut state, payload("k")).unwrap();
    let listing = manifest(&state, Ok(games())).unwrap();
    assert_eq!(listing.len(), 2);
    assert_eq!(listing[0].0, "g1");
    assert_eq!(listing[0].1.len(), 2);
    assert_eq!(listing[0].1[0].version_id, "v1");
    assert_eq!(listing[0].1[0].compression, "none");
    assert_eq!(listing[0].1[1].version_id, "v2");
    assert_eq!(listing[0].1[1].compression, "none");
    assert_eq!(listing[1].0, "g2");
    assert_eq!(listing[1].1.len(), 0);
}

#[test]
fn the_listing_is_503_without_a_token() {
    let state = AppState::new();
    assert_eq!(manifest(&state, Ok(games())).unwrap_err(), Status::ServiceUnavailable);
    assert_eq!(
        manifest(&state, Err(ErrorOption::Failure("x".to_string()))).unwrap_err(),
        Status::ServiceUnavailable
    );
}

#[test]
fn the_listing_is_500_when_the_games_cannot_be_fetched() {
    let mut state = AppState::new();
    set_token(&mut state, payload("k")).unwrap();
    assert_eq!(
        manifest(&state, Err(ErrorOption::Failure("upstream down".to_string()))).unwrap_err(),
        Status::InternalServerError
    );
    assert_eq!(
        manifest(&state, Err(ErrorOption::Status(Status::NotFound))).unwrap_err(),
        Status::NotFound
    );
}

#[test]
fn statuses_have_their_codes() {
    assert_eq!(Status::Success.code(), 200);
    assert_eq!(Status::NotFound.code(), 404);
    assert_eq!(Status::InternalServerError.code(), 500);
    assert_eq!(Status::ServiceUnavailable.code(), 503);
    assert_eq!(Status::InsufficientStorage.code(), 507);
    assert!(Status::Success.is_success());
    assert!(!Status::NotFound.is_success());
}

#[test]
fn a_failure_is_500_and_a_status_is_itself() {
    assert_eq!(ErrorOption::from_failure("boom".to_string()).status(), Status::InternalServerError);
    assert_eq!(ErrorOption::from_status(Status::NotFound).status(), Status::NotFound);
    assert_eq!(
        ErrorOption::from_status(Status::InsufficientStorage).status(),
        Status::InsufficientStorage
    );
}

#[test]
fn a_game_listed_twice_counts_once_with_its_later_versions() {
    let mut state = AppState::new();
    set_token(&mut state, payload("k")).unwrap();
    let mut fetched = games();
    fetched.push(SkeletonGame {
        id: "g1".to_string(),
        versions: vec![SkeletonVersion { version_id: "v9".to_string() }],
    });
    fetched.push(SkeletonGame { id: "g3".to_string(), versions: Vec::new() });
    let listing = manifest(&state, Ok(fetched)).unwrap();
    assert_eq!(listing.len(), 3);
    let mut ids: Vec<&str> = listing.iter().map(|entry| entry.0.as_str()).collect();
    ids.sort();
    assert_eq!(ids, vec!["g1", "g2", "g3"]);
    let g1 = listing.iter().find(|entry| entry.0 == "g1").unwrap();
    assert_eq!(g1.1.len(), 1);
    assert_eq!(g1.1[0].version_id, "v9");
    assert_eq!(g1.1[0].compression, "none");
}

#[test]
fn no_games_give_an_empty_listing() {
    let mut state = AppState::new();
    set_token(&mut state, payload("k")).unwrap();
    assert_eq!(manifest(&state, Ok(Vec::new())).unwrap().len(), 0);
}
