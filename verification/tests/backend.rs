use playa::backend::{
    Action, Backend, Input, Session, SpotifyAlbum, SpotifyArtist, SpotifyCurrentlyPlaying, SpotifyTrackItem,
    CURRENTLY_PLAYING_API,
};
use playa::events::Event;
use playa::http::{is_success, Reply};
use playa::lyrics::parse_lrc;
use playa::token::{login_request, refresh_request, token_from_refresh, RefreshResponse, SavedToken};

fn token(access: &str, refresh: &str) -> SavedToken {
    SavedToken { access_token: access.to_string(), refresh_token: refresh.to_string() }
}

fn session() -> Session {
    Session { token: token("A", "R"), current_track_id: "old".to_string() }
}

fn track(id: Option<&str>) -> SpotifyTrackItem {
    SpotifyTrackItem {
        id: id.map(|s| s.to_string()),
        name: "Song".to_string(),
        duration_ms: 0x1_0000_0000 + 215_999,
        artists: vec![
            SpotifyArtist { name: "One".to_string() },
            SpotifyArtist { name: "Two".to_string() },
        ],
        album: Some(SpotifyAlbum { name: "Album".to_string() }),
    }
}

fn body(item: Option<SpotifyTrackItem>) -> Input {
    Input::Body(Some(SpotifyCurrentlyPlaying { is_playing: true, progress_ms: Some(42), item }))
}

/// A short text for each action.
fn names(actions: &Vec<Action>) -> Vec<String> {
    actions
        .iter()
        .map(|a| match a {
            Action::LoadToken => "load".to_string(),
            Action::Refresh(t) => format!("refresh {}", t),
            Action::Login => "login".to_string(),
            Action::SaveToken(t) => format!("save {} {}", t.access_token, t.refresh_token),
            Action::StartSync => "sync".to_string(),
            Action::Poll(t) => format!("poll {}", t),
            Action::ReadBody => "read".to_string(),
            Action::SetPlaying { playing, position_ms } => format!("set {} {}", playing, position_ms),
            Action::Emit(Event::State { playing, position_ms }) => format!("state {} {}", playing, position_ms),
            Action::Emit(Event::Track { title, artist, album, track_id, duration_ms }) => {
                format!("track {}/{}/{}/{}/{}", title, artist, album, track_id, duration_ms)
            }
            Action::Emit(Event::Lyrics { lines, sync_type }) => format!("lyrics {} {}", lines.len(), sync_type),
            Action::Emit(Event::NoLyrics) => "no lyrics".to_string(),
            Action::Emit(Event::Line { .. }) => "line".to_string(),
            Action::FetchLyrics { title, artist, duration_secs } => {
                format!("fetch {}/{}/{}", title, artist, duration_secs)
            }
            Action::SetLyrics(lyrics) => format!("show {:?}", lyrics.as_ref().map(|l| l[0].text.clone())),
        })
        .collect()
}

#[test]
fn a_saved_token_is_renewed() {
    let (m, a) = Backend::new();
    assert_eq!(names(&a), vec!["load"]);
    let (m, a) = m.step(Input::TokenLoaded(Some(token("a", "r"))));
    assert_eq!(names(&a), vec!["refresh r"]);
    let (m, a) = m.step(Input::Refreshed(Some(token("b", "s"))));
    assert_eq!(names(&a), vec!["save b s", "sync", "poll b"]);
    match m {
        Backend::Polling(s) => assert_eq!((s.token.access_token.as_str(), s.current_track_id.as_str()), ("b", "")),
        _ => panic!("not polling"),
    }
}

#[test]
fn without_a_token_there_is_a_login() {
    let (m, _) = Backend::new();
    let (m, a) = m.step(Input::TokenLoaded(None));
    assert_eq!(names(&a), vec!["login"]);
    let (_, a) = m.step(Input::LoggedIn(Some(token("b", "s"))));
    assert_eq!(names(&a), vec!["save b s", "sync", "poll b"]);
    let (m, a) = Backend::StartupRefresh.step(Input::Refreshed(None));
    assert_eq!(names(&a), vec!["login"]);
    let (m, a) = m.step(Input::LoggedIn(None));
    assert!(a.is_empty());
    assert!(matches!(m, Backend::Stopped));
    let (m, a) = m.step(Input::Polled(Some(200)));
    assert!(a.is_empty());
    assert!(matches!(m, Backend::Stopped));
}

#[test]
fn answers_of_the_player() {
    for status in [None, Some(204), Some(199), Some(300), Some(403), Some(429), Some(500)].iter() {
        let (m, a) = Backend::Polling(session()).step(Input::Polled(*status));
        assert_eq!(names(&a), vec!["poll A"]);
        assert!(matches!(m, Backend::Polling(_)));
    }
    let (m, a) = Backend::Polling(session()).step(Input::Polled(Some(200)));
    assert_eq!(names(&a), vec!["read"]);
    let (m, a) = m.step(Input::Body(None));
    assert_eq!(names(&a), vec!["poll A"]);
    assert!(matches!(m, Backend::Polling(_)));
}

#[test]
fn a_token_that_has_run_out_is_renewed() {
    let (m, a) = Backend::Polling(session()).step(Input::Polled(Some(401)));
    assert_eq!(names(&a), vec!["refresh R"]);
    let (m, a) = m.step(Input::Refreshed(Some(token("B", "S"))));
    assert_eq!(names(&a), vec!["save B S", "poll B"]);
    match m {
        Backend::Polling(s) => assert_eq!((s.token.refresh_token.as_str(), s.current_track_id.as_str()), ("S", "old")),
        _ => panic!("not polling"),
    }
    let (_, a) = Backend::Refreshing(session()).step(Input::Refreshed(None));
    assert_eq!(names(&a), vec!["poll A"]);
}

#[test]
fn another_track_is_announced_once() {
    let (m, a) = Backend::ReadingBody(session()).step(body(Some(track(Some("new")))));
    assert_eq!(
        names(&a),
        vec!["set true 42", "state true 42", "track Song/One/Album/new/215999", "fetch Song/One/4295183"]
    );
    let lyrics = parse_lrc("[00:01.00]a\n[00:02.00]b");
    let (m, a) = m.step(Input::Lyrics(Some(lyrics)));
    assert_eq!(names(&a), vec!["lyrics 2 line", "show Some(\"a\")", "poll A"]);
    let (m, _) = m.step(Input::Polled(Some(200)));
    let (_, a) = m.step(body(Some(track(Some("new")))));
    assert_eq!(names(&a), vec!["set true 42", "state true 42", "poll A"]);
}

#[test]
fn a_track_without_a_name_is_not_announced() {
    for item in vec![None, Some(track(None)), Some(track(Some(""))), Some(track(Some("old")))] {
        let (m, a) = Backend::ReadingBody(session()).step(body(item));
        assert_eq!(names(&a), vec!["set true 42", "state true 42", "poll A"]);
        assert!(matches!(m, Backend::Polling(_)));
    }
}

#[test]
fn what_the_player_leaves_out() {
    let mut item = track(Some("new"));
    item.artists = vec![];
    item.album = None;
    let said = SpotifyCurrentlyPlaying { is_playing: false, progress_ms: None, item: Some(item) };
    let (m, a) = Backend::ReadingBody(session()).step(Input::Body(Some(said)));
    assert_eq!(names(&a), vec!["set false 0", "state false 0", "track Song///new/215999", "fetch Song//4295183"]);
    let (_, a) = m.step(Input::Lyrics(None));
    assert_eq!(names(&a), vec!["no lyrics", "show None", "poll A"]);
}

#[test]
fn an_input_out_of_turn_changes_nothing() {
    let (m, a) = Backend::Polling(session()).step(Input::Lyrics(None));
    assert!(a.is_empty());
    assert!(matches!(m, Backend::Polling(_)));
}

#[test]
fn statuses_of_success() {
    assert!(!is_success(199));
    assert!(is_success(200));
    assert!(is_success(299));
    assert!(!is_success(300));
    assert_eq!(CURRENTLY_PLAYING_API, "https://api.spotify.com/v1/me/player/currently-playing");
}

#[test]
fn renewals() {
    let r = refresh_request("R");
    assert_eq!(r.url, "https://accounts.spotify.com/api/token");
    assert_eq!(
        r.form,
        vec![
            ("grant_type".to_string(), "refresh_token".to_string()),
            ("refresh_token".to_string(), "R".to_string()),
            ("client_id".to_string(), "a141922c57214d0b8dc977df36d1c494".to_string()),
        ]
    );
    let given = |refresh: Option<&str>| {
        Some(RefreshResponse { access_token: "B".to_string(), refresh_token: refresh.map(|s| s.to_string()) })
    };
    let t = token_from_refresh(Reply::Answer { status: 200, body: given(Some("S")) }, "R").unwrap();
    assert_eq!((t.access_token.as_str(), t.refresh_token.as_str()), ("B", "S"));
    let t = token_from_refresh(Reply::Answer { status: 200, body: given(None) }, "R").unwrap();
    assert_eq!((t.access_token.as_str(), t.refresh_token.as_str()), ("B", "R"));
    assert!(token_from_refresh(Reply::Answer { status: 400, body: given(None) }, "R").is_none());
    assert!(token_from_refresh(Reply::Answer { status: 200, body: None }, "R").is_none());
    assert!(token_from_refresh(Reply::NoAnswer, "R").is_none());
}

#[test]
fn the_login_asks_for_what_is_playing() {
    let r = login_request();
    assert_eq!(r.client_id, "a141922c57214d0b8dc977df36d1c494");
    assert_eq!(r.redirect_uri, "http://127.0.0.1:8898/login");
    assert_eq!(r.scopes, vec!["streaming", "user-read-currently-playing", "user-read-playback-state"]);
}
