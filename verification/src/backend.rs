//! Following the player: a machine that is told what came back from the network
//! and says what to do next.
//!
//! The machine first obtains a token, by renewing a saved one or by a login.
//! From then on it polls the player, announces another track when it starts and
//! fetches its lyrics, and renews the token when it has run out.

use vstd::prelude::*;

use crate::events::{
    clone_lines, lines_view, lyrics_view, Event, EventView, LyricLine, LyricLineView,
};
use crate::http::{is_success, success_status};
use crate::token::{SavedToken, SavedTokenView};

verus! {

/// Where the player is polled.
pub const CURRENTLY_PLAYING_API: &'static str =
    "https://api.spotify.com/v1/me/player/currently-playing";

/// What the player says of itself.
pub struct SpotifyCurrentlyPlaying {
    pub is_playing: bool,
    pub progress_ms: Option<u64>,
    pub item: Option<SpotifyTrackItem>,
}

/// The track that plays.
pub struct SpotifyTrackItem {
    pub id: Option<String>,
    pub name: String,
    pub duration_ms: u64,
    pub artists: Vec<SpotifyArtist>,
    pub album: Option<SpotifyAlbum>,
}

pub struct SpotifyArtist {
    pub name: String,
}

pub struct SpotifyAlbum {
    pub name: String,
}

impl SpotifyCurrentlyPlaying {
    /// Where the player is: at the start where it does not say.
    pub open spec fn position_ms(&self) -> u64 {
        match self.progress_ms {
            Some(p) => p,
            None => 0,
        }
    }
}

impl SpotifyTrackItem {
    /// The name of the track at the service, or nothing where it has none.
    pub open spec fn track_id(&self) -> Seq<char> {
        match self.id {
            Some(id) => id@,
            None => Seq::empty(),
        }
    }

    /// The first artist, if any.
    pub open spec fn artist(&self) -> Seq<char> {
        if self.artists@.len() > 0 {
            self.artists@[0].name@
        } else {
            Seq::empty()
        }
    }

    /// The album, if any.
    pub open spec fn album_name(&self) -> Seq<char> {
        match self.album {
            Some(album) => album.name@,
            None => Seq::empty(),
        }
    }

    /// The announcement of the track. Its length is told modulo 2^32.
    pub open spec fn announcement(&self) -> EventView {
        EventView::Track {
            title: self.name@,
            artist: self.artist(),
            album: self.album_name(),
            track_id: self.track_id(),
            duration_ms: (self.duration_ms as int % 0x1_0000_0000) as u32,
        }
    }
}

/// A session at the player: its tokens, and the track that was last announced.
pub struct Session {
    pub token: SavedToken,
    pub current_track_id: String,
}

#[verifier::ext_equal]
pub struct SessionView {
    pub token: SavedTokenView,
    pub current_track_id: Seq<char>,
}

impl View for Session {
    type V = SessionView;

    open spec fn view(&self) -> SessionView {
        SessionView { token: self.token@, current_track_id: self.current_track_id@ }
    }
}

/// What the machine waits for.
pub enum Backend {
    /// The tokens of the last run.
    LoadingToken,
    /// The renewal of those tokens.
    StartupRefresh,
    /// A login.
    LoggingIn,
    /// The status of an answer of the player.
    Polling(Session),
    /// The body of that answer.
    ReadingBody(Session),
    /// The renewal of tokens that have run out.
    Refreshing(Session),
    /// The lyrics of a track that has started.
    FetchingLyrics(Session),
    /// Nothing more: there was no login.
    Stopped,
}

#[verifier::ext_equal]
pub enum BackendView {
    LoadingToken,
    StartupRefresh,
    LoggingIn,
    Polling(SessionView),
    ReadingBody(SessionView),
    Refreshing(SessionView),
    FetchingLyrics(SessionView),
    Stopped,
}

impl View for Backend {
    type V = BackendView;

    open spec fn view(&self) -> BackendView {
        match *self {
            Backend::LoadingToken => BackendView::LoadingToken,
            Backend::StartupRefresh => BackendView::StartupRefresh,
            Backend::LoggingIn => BackendView::LoggingIn,
            Backend::Polling(s) => BackendView::Polling(s@),
            Backend::ReadingBody(s) => BackendView::ReadingBody(s@),
            Backend::Refreshing(s) => BackendView::Refreshing(s@),
            Backend::FetchingLyrics(s) => BackendView::FetchingLyrics(s@),
            Backend::Stopped => BackendView::Stopped,
        }
    }
}

/// What the machine is told.
pub enum Input {
    /// The tokens that were saved, if any.
    TokenLoaded(Option<SavedToken>),
    /// The renewed tokens, if the renewal worked.
    Refreshed(Option<SavedToken>),
    /// The tokens of a login, if it worked.
    LoggedIn(Option<SavedToken>),
    /// The status of the player's answer, if it answered.
    Polled(Option<u16>),
    /// The body of the player's answer, if it could be understood.
    Body(Option<SpotifyCurrentlyPlaying>),
    /// The lyrics, if there are any.
    Lyrics(Option<Vec<LyricLine>>),
}

/// What is to be done, in order. The last action of a step is the one whose
/// outcome the machine is told next.
pub enum Action {
    /// Read the saved tokens.
    LoadToken,
    /// Renew the tokens by this refresh token.
    Refresh(String),
    /// Log in through the browser.
    Login,
    /// Save the tokens.
    SaveToken(SavedToken),
    /// Start to display lyrics.
    StartSync,
    /// Wait for the next poll, and ask the player by this access token.
    Poll(String),
    /// Read the body of the player's answer.
    ReadBody,
    /// Tell the display whether the player plays and where it is.
    SetPlaying { playing: bool, position_ms: u64 },
    /// Send an event to the overlay.
    Emit(Event),
    /// Ask the lyrics service.
    FetchLyrics { title: String, artist: String, duration_secs: u64 },
    /// Give the display its lyrics.
    SetLyrics(Option<Vec<LyricLine>>),
}

#[verifier::ext_equal]
pub enum ActionView {
    LoadToken,
    Refresh(Seq<char>),
    Login,
    SaveToken(SavedTokenView),
    StartSync,
    Poll(Seq<char>),
    ReadBody,
    SetPlaying { playing: bool, position_ms: u64 },
    Emit(EventView),
    FetchLyrics { title: Seq<char>, artist: Seq<char>, duration_secs: u64 },
    SetLyrics(Option<Seq<LyricLineView>>),
}

impl View for Action {
    type V = ActionView;

    open spec fn view(&self) -> ActionView {
        match *self {
            Action::LoadToken => ActionView::LoadToken,
            Action::Refresh(t) => ActionView::Refresh(t@),
            Action::Login => ActionView::Login,
            Action::SaveToken(t) => ActionView::SaveToken(t@),
            Action::StartSync => ActionView::StartSync,
            Action::Poll(t) => ActionView::Poll(t@),
            Action::ReadBody => ActionView::ReadBody,
            Action::SetPlaying { playing, position_ms } => ActionView::SetPlaying {
                playing,
                position_ms,
            },
            Action::Emit(event) => ActionView::Emit(event@),
            Action::FetchLyrics { title, artist, duration_secs } => ActionView::FetchLyrics {
                title: title@,
                artist: artist@,
                duration_secs,
            },
            Action::SetLyrics(lyrics) => ActionView::SetLyrics(lyrics_view(lyrics)),
        }
    }
}

/// The views of a sequence of actions.
pub open spec fn actions_view(actions: Seq<Action>) -> Seq<ActionView> {
    actions.map_values(|a: Action| a@)
}

/// A step: the machine after it, and what is to be done.
pub type Step = (BackendView, Seq<ActionView>);

/// The first session, with tokens that were just obtained.
pub open spec fn started(token: SavedTokenView) -> Step {
    (
        BackendView::Polling(SessionView { token, current_track_id: Seq::empty() }),
        seq![
            ActionView::SaveToken(token),
            ActionView::StartSync,
            ActionView::Poll(token.access_token),
        ],
    )
}

/// Nothing came of it: the player is polled again.
pub open spec fn polled_again(session: SessionView) -> Step {
    (BackendView::Polling(session), seq![ActionView::Poll(session.token.access_token)])
}

/// The player's answer has come.
pub open spec fn on_status(session: SessionView, status: Option<u16>) -> Step {
    match status {
        Some(code) => if code == 401 {
            (
                BackendView::Refreshing(session),
                seq![ActionView::Refresh(session.token.refresh_token)],
            )
        } else if code == 204 || !success_status(code) {
            polled_again(session)
        } else {
            (BackendView::ReadingBody(session), seq![ActionView::ReadBody])
        },
        None => polled_again(session),
    }
}

/// Tokens that have run out have been renewed, or not.
pub open spec fn on_renewal(session: SessionView, token: Option<SavedTokenView>) -> Step {
    match token {
        Some(token) => (
            BackendView::Polling(SessionView { token, ..session }),
            seq![ActionView::SaveToken(token), ActionView::Poll(token.access_token)],
        ),
        None => polled_again(session),
    }
}

/// The track that a body starts: one that has a name at the service, other than
/// that of the track that was last announced.
pub open spec fn starts_track(session: SessionView, body: SpotifyCurrentlyPlaying) -> bool {
    body.item matches Some(item) && item.track_id().len() > 0 && item.track_id()
        != session.current_track_id
}

/// The player has said what plays.
pub open spec fn on_body(session: SessionView, body: SpotifyCurrentlyPlaying) -> Step {
    let state = seq![
        ActionView::SetPlaying { playing: body.is_playing, position_ms: body.position_ms() },
        ActionView::Emit(
            EventView::State { playing: body.is_playing, position_ms: body.position_ms() },
        ),
    ];
    if starts_track(session, body) {
        let item = body.item->0;
        (
            BackendView::FetchingLyrics(
                SessionView { current_track_id: item.track_id(), ..session },
            ),
            state + seq![
                ActionView::Emit(item.announcement()),
                ActionView::FetchLyrics {
                    title: item.name@,
                    artist: item.artist(),
                    duration_secs: item.duration_ms / 1000,
                },
            ],
        )
    } else {
        (
            BackendView::Polling(session),
            state + seq![ActionView::Poll(session.token.access_token)],
        )
    }
}

/// The lyrics service has answered.
pub open spec fn on_lyrics(session: SessionView, lyrics: Option<Seq<LyricLineView>>) -> Step {
    let event = match lyrics {
        Some(lines) => EventView::Lyrics { lines, sync_type: "line"@ },
        None => EventView::NoLyrics,
    };
    (
        BackendView::Polling(session),
        seq![
            ActionView::Emit(event),
            ActionView::SetLyrics(lyrics),
            ActionView::Poll(session.token.access_token),
        ],
    )
}

/// The view of tokens that may be absent.
pub open spec fn token_view(token: Option<SavedToken>) -> Option<SavedTokenView> {
    match token {
        Some(t) => Some(t@),
        None => None,
    }
}

/// The step that an input leads to. An input that the machine does not wait for
/// leads to none.
pub open spec fn stepped(machine: BackendView, input: Input) -> Step {
    match (machine, input) {
        (BackendView::LoadingToken, Input::TokenLoaded(token)) => match token {
            Some(t) => (
                BackendView::StartupRefresh,
                seq![ActionView::Refresh(t.refresh_token@)],
            ),
            None => (BackendView::LoggingIn, seq![ActionView::Login]),
        },
        (BackendView::StartupRefresh, Input::Refreshed(token)) => match token {
            Some(t) => started(t@),
            None => (BackendView::LoggingIn, seq![ActionView::Login]),
        },
        (BackendView::LoggingIn, Input::LoggedIn(token)) => match token {
            Some(t) => started(t@),
            None => (BackendView::Stopped, Seq::empty()),
        },
        (BackendView::Polling(s), Input::Polled(status)) => on_status(s, status),
        (BackendView::Refreshing(s), Input::Refreshed(token)) => on_renewal(s, token_view(token)),
        (BackendView::ReadingBody(s), Input::Body(body)) => match body {
            Some(b) => on_body(s, b),
            None => polled_again(s),
        },
        (BackendView::FetchingLyrics(s), Input::Lyrics(lyrics)) => on_lyrics(
            s,
            lyrics_view(lyrics),
        ),
        _ => (machine, Seq::empty()),
    }
}

/// A list of one action.
fn one(action: Action) -> (r: Vec<Action>)
    ensures
        actions_view(r@) == seq![action@],
{
    let mut r: Vec<Action> = Vec::new();
    r.push(action);
    assert(actions_view(r@) =~= seq![action@]);
    r
}

fn start(token: SavedToken) -> (r: (Backend, Vec<Action>))
    ensures
        (r.0@, actions_view(r.1@)) == started(token@),
{
    let access: String = token.access_token.clone();
    let mut actions: Vec<Action> = Vec::new();
    actions.push(Action::SaveToken(token.clone()));
    actions.push(Action::StartSync);
    actions.push(Action::Poll(access));
    assert(actions_view(actions@) =~= started(token@).1);
    (Backend::Polling(Session { token, current_track_id: String::new() }), actions)
}

fn poll_again(session: Session) -> (r: (Backend, Vec<Action>))
    ensures
        (r.0@, actions_view(r.1@)) == polled_again(session@),
{
    let actions: Vec<Action> = one(Action::Poll(session.token.access_token.clone()));
    (Backend::Polling(session), actions)
}

fn take_status(session: Session, status: Option<u16>) -> (r: (Backend, Vec<Action>))
    ensures
        (r.0@, actions_view(r.1@)) == on_status(session@, status),
{
    match status {
        Some(code) => if code == 401 {
            let actions: Vec<Action> = one(Action::Refresh(session.token.refresh_token.clone()));
            (Backend::Refreshing(session), actions)
        } else if code == 204 || !is_success(code) {
            poll_again(session)
        } else {
            (Backend::ReadingBody(session), one(Action::ReadBody))
        },
        None => poll_again(session),
    }
}

fn take_renewal(session: Session, token: Option<SavedToken>) -> (r: (Backend, Vec<Action>))
    ensures
        (r.0@, actions_view(r.1@)) == on_renewal(session@, token_view(token)),
{
    match token {
        Some(token) => {
            let access: String = token.access_token.clone();
            let mut actions: Vec<Action> = Vec::new();
            actions.push(Action::SaveToken(token.clone()));
            actions.push(Action::Poll(access));
            assert(actions_view(actions@) =~= on_renewal(session@, Some(token@)).1);
            (
                Backend::Polling(Session { token, current_track_id: session.current_track_id }),
                actions,
            )
        },
        None => poll_again(session),
    }
}

/// The name of the first artist.
fn first_artist(artists: &Vec<SpotifyArtist>) -> (r: String)
    ensures
        r@ == (if artists@.len() > 0 {
            artists@[0].name@
        } else {
            Seq::empty()
        }),
{
    if artists.len() > 0 {
        artists[0].name.clone()
    } else {
        String::new()
    }
}

fn take_body(session: Session, body: SpotifyCurrentlyPlaying) -> (r: (Backend, Vec<Action>))
    ensures
        (r.0@, actions_view(r.1@)) == on_body(session@, body),
{
    let playing: bool = body.is_playing;
    let position_ms: u64 = match body.progress_ms {
        Some(p) => p,
        None => 0,
    };
    let mut actions: Vec<Action> = Vec::new();
    actions.push(Action::SetPlaying { playing, position_ms });
    actions.push(Action::Emit(Event::State { playing, position_ms }));
    let access: String = session.token.access_token.clone();
    match body.item {
        Some(item) => {
            let track_id: String = match &item.id {
                Some(id) => id.clone(),
                None => String::new(),
            };
            let same: bool = track_id == session.current_track_id;
            if !same && !track_id.as_str().is_empty() {
                let artist: String = first_artist(&item.artists);
                let album: String = match &item.album {
                    Some(album) => album.name.clone(),
                    None => String::new(),
                };
                let duration: u64 = item.duration_ms % 0x1_0000_0000;
                actions.push(
                    Action::Emit(
                        Event::Track {
                            title: item.name.clone(),
                            artist: artist.clone(),
                            album,
                            track_id: track_id.clone(),
                            duration_ms: duration as u32,
                        },
                    ),
                );
                actions.push(
                    Action::FetchLyrics {
                        title: item.name.clone(),
                        artist,
                        duration_secs: item.duration_ms / 1000,
                    },
                );
                assert(actions_view(actions@) =~= on_body(session@, body).1);
                return (
                    Backend::FetchingLyrics(
                        Session { token: session.token, current_track_id: track_id },
                    ),
                    actions,
                );
            }
        },
        None => {},
    }
    actions.push(Action::Poll(access));
    assert(actions_view(actions@) =~= on_body(session@, body).1);
    (Backend::Polling(session), actions)
}

fn take_lyrics(session: Session, lyrics: Option<Vec<LyricLine>>) -> (r: (Backend, Vec<Action>))
    ensures
        (r.0@, actions_view(r.1@)) == on_lyrics(session@, lyrics_view(lyrics)),
{
    let access: String = session.token.access_token.clone();
    let event: Event = match &lyrics {
        Some(lines) => Event::Lyrics { lines: clone_lines(lines), sync_type: "line".to_owned() },
        None => Event::NoLyrics,
    };
    let mut actions: Vec<Action> = Vec::new();
    actions.push(Action::Emit(event));
    actions.push(Action::SetLyrics(lyrics));
    actions.push(Action::Poll(access));
    assert(actions_view(actions@) =~= on_lyrics(session@, lyrics_view(lyrics)).1);
    (Backend::Polling(session), actions)
}

impl Backend {
    /// The machine at the start, and what is to be done first.
    pub fn new() -> (r: (Backend, Vec<Action>))
        ensures
            r.0@ == BackendView::LoadingToken,
            actions_view(r.1@) == seq![ActionView::LoadToken],
    {
        (Backend::LoadingToken, one(Action::LoadToken))
    }

    /// Takes an input: the machine after it, and what is to be done.
    pub fn step(self, input: Input) -> (r: (Backend, Vec<Action>))
        ensures
            (r.0@, actions_view(r.1@)) == stepped(self@, input),
    {
        match (self, input) {
            (Backend::LoadingToken, Input::TokenLoaded(token)) => match token {
                Some(t) => (Backend::StartupRefresh, one(Action::Refresh(t.refresh_token))),
                None => (Backend::LoggingIn, one(Action::Login)),
            },
            (Backend::StartupRefresh, Input::Refreshed(token)) => match token {
                Some(t) => start(t),
                None => (Backend::LoggingIn, one(Action::Login)),
            },
            (Backend::LoggingIn, Input::LoggedIn(token)) => match token {
                Some(t) => start(t),
                None => {
                    let actions: Vec<Action> = Vec::new();
                    assert(actions_view(actions@) =~= Seq::empty());
                    (Backend::Stopped, actions)
                },
            },
            (Backend::Polling(s), Input::Polled(status)) => take_status(s, status),
            (Backend::Refreshing(s), Input::Refreshed(token)) => take_renewal(s, token),
            (Backend::ReadingBody(s), Input::Body(body)) => match body {
                Some(b) => take_body(s, b),
                None => poll_again(s),
            },
            (Backend::FetchingLyrics(s), Input::Lyrics(lyrics)) => take_lyrics(s, lyrics),
            (machine, _) => {
                let actions: Vec<Action> = Vec::new();
                assert(actions_view(actions@) =~= Seq::empty());
                (machine, actions)
            },
        }
    }
}

/// The machine waits for an input of this kind.
pub open spec fn expects(machine: BackendView, input: Input) -> bool {
    match (machine, input) {
        (BackendView::LoadingToken, Input::TokenLoaded(_)) => true,
        (BackendView::StartupRefresh, Input::Refreshed(_)) => true,
        (BackendView::LoggingIn, Input::LoggedIn(_)) => true,
        (BackendView::Polling(_), Input::Polled(_)) => true,
        (BackendView::ReadingBody(_), Input::Body(_)) => true,
        (BackendView::Refreshing(_), Input::Refreshed(_)) => true,
        (BackendView::FetchingLyrics(_), Input::Lyrics(_)) => true,
        _ => false,
    }
}

/// The action brings an input.
pub open spec fn asks(action: ActionView) -> bool {
    match action {
        ActionView::LoadToken => true,
        ActionView::Refresh(_) => true,
        ActionView::Login => true,
        ActionView::Poll(_) => true,
        ActionView::ReadBody => true,
        ActionView::FetchLyrics { .. } => true,
        _ => false,
    }
}

/// The action brings the input that the machine waits for, and is done with the
/// tokens of its session.
pub open spec fn serves(action: ActionView, machine: BackendView) -> bool {
    match (machine, action) {
        (BackendView::LoadingToken, ActionView::LoadToken) => true,
        (BackendView::StartupRefresh, ActionView::Refresh(_)) => true,
        (BackendView::LoggingIn, ActionView::Login) => true,
        (BackendView::Polling(s), ActionView::Poll(t)) => t == s.token.access_token,
        (BackendView::ReadingBody(_), ActionView::ReadBody) => true,
        (BackendView::Refreshing(s), ActionView::Refresh(t)) => t == s.token.refresh_token,
        (BackendView::FetchingLyrics(_), ActionView::FetchLyrics { .. }) => true,
        _ => false,
    }
}

/// The session of a machine that has one.
pub open spec fn session_of(machine: BackendView) -> Option<SessionView> {
    match machine {
        BackendView::Polling(s) => Some(s),
        BackendView::ReadingBody(s) => Some(s),
        BackendView::Refreshing(s) => Some(s),
        BackendView::FetchingLyrics(s) => Some(s),
        _ => None,
    }
}

/// The machine does not stall: each input that it waits for leads to actions of
/// which the last, and no other, brings the input that it waits for next; or
/// else it stops, which it does only where a login has failed.
pub proof fn law_machine_goes_on(machine: BackendView, input: Input)
    requires
        expects(machine, input),
    ensures
        ({
            let (next, actions) = stepped(machine, input);
            if next is Stopped {
                actions.len() == 0 && machine is LoggingIn && input == Input::LoggedIn(None)
            } else {
                &&& actions.len() > 0
                &&& serves(actions.last(), next)
                &&& forall|k: int| 0 <= k < actions.len() - 1 ==> !asks(#[trigger] actions[k])
            }
        }),
{
}

/// An input that the machine does not wait for changes nothing, and a machine
/// that has stopped waits for none.
pub proof fn law_other_inputs_are_ignored(machine: BackendView, input: Input)
    requires
        machine is Stopped || !expects(machine, input),
    ensures
        stepped(machine, input) == (machine, Seq::<ActionView>::empty()),
{
}

/// Tokens that come into use are saved, and only those.
pub proof fn law_tokens_in_use_are_saved(machine: BackendView, input: Input)
    ensures
        ({
            let (next, actions) = stepped(machine, input);
            &&& session_of(next) matches Some(s) ==> {
                ||| session_of(machine) matches Some(was) && was.token == s.token
                ||| actions.contains(ActionView::SaveToken(s.token))
            }
            &&& forall|t: SavedTokenView| #[trigger]
                actions.contains(ActionView::SaveToken(t)) ==> (session_of(next) matches Some(s)
                    && s.token == t)
        }),
{
    let (next, actions) = stepped(machine, input);
    match (machine, input) {
        (BackendView::StartupRefresh, Input::Refreshed(Some(t))) => {
            assert(actions[0] == ActionView::SaveToken(t@));
        },
        (BackendView::LoggingIn, Input::LoggedIn(Some(t))) => {
            assert(actions[0] == ActionView::SaveToken(t@));
        },
        (BackendView::Refreshing(_), Input::Refreshed(Some(t))) => {
            assert(actions[0] == ActionView::SaveToken(t@));
        },
        _ => {},
    }
}

/// The action announces the track of that name.
pub open spec fn announces(action: ActionView, id: Seq<char>) -> bool {
    action matches ActionView::Emit(EventView::Track { track_id, .. }) && track_id == id
}

/// Another track becomes current exactly when it is announced: a step of a
/// session changes the current track to the one that it announces, which has a
/// name, and keeps it where it announces none.
pub proof fn law_track_is_announced(machine: BackendView, input: Input)
    requires
        session_of(machine) is Some,
    ensures
        ({
            let (next, actions) = stepped(machine, input);
            let was = session_of(machine)->0;
            let is = session_of(next)->0;
            &&& session_of(next) is Some
            &&& was.current_track_id != is.current_track_id ==> is.current_track_id.len() > 0
                && exists|k: int|
                0 <= k < actions.len() && #[trigger] announces(actions[k], is.current_track_id)
            &&& forall|k: int, id: Seq<char>|
                0 <= k < actions.len() && #[trigger] announces(actions[k], id) ==> id
                    == is.current_track_id && id != was.current_track_id
        }),
{
    let (next, actions) = stepped(machine, input);
    match (machine, input) {
        (BackendView::ReadingBody(s), Input::Body(Some(body))) => {
            if starts_track(s, body) {
                assert(announces(actions[2], body.item->0.track_id()));
            }
        },
        _ => {},
    }
}

/// A track is announced once: where the player says the same again, the state is
/// told and the player is polled, and that is all.
pub proof fn law_track_is_announced_once(session: SessionView, body: SpotifyCurrentlyPlaying)
    ensures
        ({
            let after = session_of(on_body(session, body).0)->0;
            let (next, actions) = on_body(after, body);
            &&& next == BackendView::Polling(after)
            &&& actions == seq![
                ActionView::SetPlaying {
                    playing: body.is_playing,
                    position_ms: body.position_ms(),
                },
                ActionView::Emit(
                    EventView::State { playing: body.is_playing, position_ms: body.position_ms() },
                ),
                ActionView::Poll(after.token.access_token),
            ]
        }),
{
}

/// The display and the overlay are given the same lyrics.
pub proof fn law_display_and_overlay_agree(machine: BackendView, input: Input)
    ensures
        ({
            let actions = stepped(machine, input).1;
            forall|lyrics: Option<Seq<LyricLineView>>| #[trigger]
                actions.contains(ActionView::SetLyrics(lyrics)) ==> match lyrics {
                    Some(lines) => actions.contains(
                        ActionView::Emit(EventView::Lyrics { lines, sync_type: "line"@ }),
                    ),
                    None => actions.contains(ActionView::Emit(EventView::NoLyrics)),
                }
        }),
{
    match (machine, input) {
        (BackendView::FetchingLyrics(s), Input::Lyrics(lyrics)) => {
            let actions = on_lyrics(s, lyrics_view(lyrics)).1;
            assert(actions[0] is Emit);
            assert(actions.contains(actions[0]));
        },
        _ => {},
    }
}

/// The tokens that are saved after `actions`, where `saved` were before.
pub open spec fn saved_after(
    saved: Option<SavedTokenView>,
    actions: Seq<ActionView>,
) -> Option<SavedTokenView>
    decreases actions.len(),
{
    if actions.len() == 0 {
        saved
    } else {
        match actions.last() {
            ActionView::SaveToken(t) => Some(t),
            _ => saved_after(saved, actions.drop_last()),
        }
    }
}

/// A run from the start, with the tokens `saved` by the last one: the machine
/// after these inputs, and the tokens that are saved by then.
pub open spec fn followed(saved: Option<SavedTokenView>, inputs: Seq<Input>) -> (
    BackendView,
    Option<SavedTokenView>,
)
    decreases inputs.len(),
{
    if inputs.len() == 0 {
        (BackendView::LoadingToken, saved)
    } else {
        let (machine, kept) = followed(saved, inputs.drop_last());
        let (next, actions) = stepped(machine, inputs.last());
        (next, saved_after(kept, actions))
    }
}

/// At every point of a run, the tokens of the session are the ones that are
/// saved.
pub proof fn law_saved_tokens_are_current(saved: Option<SavedTokenView>, inputs: Seq<Input>)
    ensures
        session_of(followed(saved, inputs).0) matches Some(s) ==> followed(saved, inputs).1 == Some(
            s.token,
        ),
    decreases inputs.len(),
{
    if inputs.len() > 0 {
        law_saved_tokens_are_current(saved, inputs.drop_last());
        let (machine, kept) = followed(saved, inputs.drop_last());
        let (next, actions) = stepped(machine, inputs.last());
        reveal_with_fuel(saved_after, 5);
        if actions.len() > 0 {
            let a1 = actions.drop_last();
            if a1.len() > 0 {
                let a2 = a1.drop_last();
                if a2.len() > 0 {
                    let a3 = a2.drop_last();
                    assert(a3.len() <= 1);
                }
            }
        }
    }
}

/// A track with a name at the service is the current one once the player has said
/// that it plays. Where it was not before, also where no track was, it is
/// announced under its name, title, first artist and album, and then its lyrics
/// are asked for by its title, its first artist and its length in whole seconds,
/// which is the last thing done. Where it was, neither happens.
pub proof fn law_playing_track_becomes_current(
    session: SessionView,
    body: SpotifyCurrentlyPlaying,
    item: SpotifyTrackItem,
    id: String,
)
    requires
        body.item == Some(item),
        item.id == Some(id),
        id@.len() > 0,
    ensures
        ({
            let (next, actions) = stepped(
                BackendView::ReadingBody(session),
                Input::Body(Some(body)),
            );
            if id@ != session.current_track_id {
                &&& next == BackendView::FetchingLyrics(
                    SessionView { token: session.token, current_track_id: id@ },
                )
                &&& actions.len() == 4
                &&& actions[2] matches ActionView::Emit(
                    EventView::Track { title, artist, album, track_id, duration_ms },
                ) && {
                    &&& track_id == id@
                    &&& title == item.name@
                    &&& item.artists@.len() > 0 ==> artist == item.artists@[0].name@
                    &&& item.artists@.len() == 0 ==> artist.len() == 0
                    &&& item.album matches Some(a) ==> album == a.name@
                    &&& item.album is None ==> album.len() == 0
                    &&& item.duration_ms <= u32::MAX ==> duration_ms == item.duration_ms
                    &&& (item.duration_ms - duration_ms) % 0x1_0000_0000 == 0
                }
                &&& actions[3] matches ActionView::FetchLyrics { title, artist, duration_secs } && {
                    &&& title == item.name@
                    &&& item.artists@.len() > 0 ==> artist == item.artists@[0].name@
                    &&& item.artists@.len() == 0 ==> artist.len() == 0
                    &&& duration_secs * 1000 <= item.duration_ms < duration_secs * 1000 + 1000
                }
            } else {
                &&& next == BackendView::Polling(session)
                &&& actions.len() == 3
                &&& actions[2] == ActionView::Poll(session.token.access_token)
            }
        }),
{
}

/// Where the player names no track, or one without a name at the service, the
/// current track stays, and the player is polled again.
pub proof fn law_nameless_track_changes_nothing(
    session: SessionView,
    body: SpotifyCurrentlyPlaying,
)
    requires
        body.item matches Some(item) ==> (item.id matches Some(id) ==> id@.len() == 0),
    ensures
        ({
            let (next, actions) = stepped(
                BackendView::ReadingBody(session),
                Input::Body(Some(body)),
            );
            &&& next == BackendView::Polling(session)
            &&& actions.len() == 3
            &&& actions[2] == ActionView::Poll(session.token.access_token)
        }),
{
}

/// Whenever the player has said what it does, the display and then the overlay
/// are told at once, before anything else: whether it plays and where it is, or
/// that it is at the start where it does not say.
pub proof fn law_state_is_told_first(session: SessionView, body: SpotifyCurrentlyPlaying)
    ensures
        ({
            let actions = stepped(
                BackendView::ReadingBody(session),
                Input::Body(Some(body)),
            ).1;
            &&& actions.len() >= 3
            &&& actions[0] matches ActionView::SetPlaying { playing, position_ms } && {
                &&& playing == body.is_playing
                &&& body.progress_ms matches Some(p) ==> position_ms == p
                &&& body.progress_ms is None ==> position_ms == 0
            }
            &&& actions[1] matches ActionView::Emit(EventView::State { playing, position_ms }) && {
                &&& playing == body.is_playing
                &&& body.progress_ms matches Some(p) ==> position_ms == p
                &&& body.progress_ms is None ==> position_ms == 0
            }
        }),
{
}

/// What the status of the player's answer leads to: the tokens have run out and
/// are renewed by the refresh token of the session at 401; the body is read at
/// every other code of success than 204; and at any other code, or without an
/// answer, the player is polled again. The session stays as it is.
pub proof fn law_status_decides(session: SessionView, status: Option<u16>)
    ensures
        ({
            let (next, actions) = stepped(BackendView::Polling(session), Input::Polled(status));
            let again = (
                BackendView::Polling(session),
                seq![ActionView::Poll(session.token.access_token)],
            );
            &&& status == Some(401u16) ==> next == BackendView::Refreshing(session) && actions
                == seq![ActionView::Refresh(session.token.refresh_token)]
            &&& status matches Some(code) ==> {
                &&& 200 <= code < 300 && code != 204 ==> next == BackendView::ReadingBody(session)
                    && actions == seq![ActionView::ReadBody]
                &&& code == 204 || ((code < 200 || code >= 300) && code != 401) ==> (next, actions)
                    == again
            }
            &&& status is None ==> (next, actions) == again
        }),
{
}

/// A body that could not be understood, or tokens that could not be renewed, lead
/// to nothing but another poll.
pub proof fn law_failures_are_passed_over(session: SessionView)
    ensures
        stepped(BackendView::ReadingBody(session), Input::Body(None)) == (
            BackendView::Polling(session),
            seq![ActionView::Poll(session.token.access_token)],
        ),
        stepped(BackendView::Refreshing(session), Input::Refreshed(None)) == (
            BackendView::Polling(session),
            seq![ActionView::Poll(session.token.access_token)],
        ),
{
}

/// Tokens that were renewed are saved, and then used for the next poll; the
/// current track stays.
pub proof fn law_renewed_tokens_are_used(session: SessionView, token: SavedToken)
    ensures
        ({
            let (next, actions) = stepped(
                BackendView::Refreshing(session),
                Input::Refreshed(Some(token)),
            );
            &&& next == BackendView::Polling(
                SessionView { token: token@, current_track_id: session.current_track_id },
            )
            &&& actions == seq![
                ActionView::SaveToken(token@),
                ActionView::Poll(token.access_token@),
            ]
        }),
{
}

/// A run begins with the saved tokens: they are renewed where there are some, and
/// else, or where that fails, there is a login. Tokens that come of either are
/// saved, the display is started and the player is polled, with no track current.
/// A login that fails ends the run.
pub proof fn law_run_begins_with_a_token(saved: SavedToken, token: SavedToken)
    ensures
        stepped(BackendView::LoadingToken, Input::TokenLoaded(Some(saved))) == (
            BackendView::StartupRefresh,
            seq![ActionView::Refresh(saved.refresh_token@)],
        ),
        stepped(BackendView::LoadingToken, Input::TokenLoaded(None)) == (
            BackendView::LoggingIn,
            seq![ActionView::Login],
        ),
        stepped(BackendView::StartupRefresh, Input::Refreshed(None)) == (
            BackendView::LoggingIn,
            seq![ActionView::Login],
        ),
        stepped(BackendView::LoggingIn, Input::LoggedIn(None)) == (
            BackendView::Stopped,
            Seq::<ActionView>::empty(),
        ),
        stepped(BackendView::StartupRefresh, Input::Refreshed(Some(token))) == stepped(
            BackendView::LoggingIn,
            Input::LoggedIn(Some(token)),
        ),
        ({
            let (next, actions) = stepped(
                BackendView::LoggingIn,
                Input::LoggedIn(Some(token)),
            );
            &&& next matches BackendView::Polling(s) && s.token == token@
                && s.current_track_id.len() == 0
            &&& actions == seq![
                ActionView::SaveToken(token@),
                ActionView::StartSync,
                ActionView::Poll(token.access_token@),
            ]
        }),
{
}

/// Lyrics that were found are told to the overlay and given to the display, line
/// by line the same; where there are none, the overlay is told so and the display
/// has none. Then the player is polled, and the session stays as it is.
pub proof fn law_fetched_lyrics_are_shown(session: SessionView, lyrics: Option<Vec<LyricLine>>)
    ensures
        ({
            let (next, actions) = stepped(
                BackendView::FetchingLyrics(session),
                Input::Lyrics(lyrics),
            );
            &&& next == BackendView::Polling(session)
            &&& actions.len() == 3
            &&& lyrics is None ==> actions[0] == ActionView::Emit(EventView::NoLyrics)
                && actions[1] == ActionView::SetLyrics(None)
            &&& lyrics matches Some(found) ==> {
                &&& actions[0] matches ActionView::Emit(EventView::Lyrics { lines, sync_type }) && {
                    &&& sync_type == "line"@
                    &&& lines.len() == found@.len()
                    &&& forall|i: int| 0 <= i < lines.len() ==> #[trigger] lines[i] == found@[i]@
                }
                &&& actions[1] matches ActionView::SetLyrics(Some(lines)) && {
                    &&& lines.len() == found@.len()
                    &&& forall|i: int| 0 <= i < lines.len() ==> #[trigger] lines[i] == found@[i]@
                }
            }
            &&& actions[2] == ActionView::Poll(session.token.access_token)
        }),
{
}

/// A session, a machine and the actions of a step are seen as what they are.
pub proof fn law_machine_views(session: Session, machine: Backend, actions: Seq<Action>)
    ensures
        session@.token == session.token@,
        session@.current_track_id == session.current_track_id@,
        match machine {
            Backend::LoadingToken => machine@ is LoadingToken,
            Backend::StartupRefresh => machine@ is StartupRefresh,
            Backend::LoggingIn => machine@ is LoggingIn,
            Backend::Polling(s) => machine@ == BackendView::Polling(s@),
            Backend::ReadingBody(s) => machine@ == BackendView::ReadingBody(s@),
            Backend::Refreshing(s) => machine@ == BackendView::Refreshing(s@),
            Backend::FetchingLyrics(s) => machine@ == BackendView::FetchingLyrics(s@),
            Backend::Stopped => machine@ is Stopped,
        },
        actions_view(actions).len() == actions.len(),
        forall|i: int|
            0 <= i < actions.len() ==> {
                let seen = #[trigger] actions_view(actions)[i];
                match actions[i] {
                    Action::LoadToken => seen is LoadToken,
                    Action::Refresh(t) => seen == ActionView::Refresh(t@),
                    Action::Login => seen is Login,
                    Action::SaveToken(t) => seen == ActionView::SaveToken(t@),
                    Action::StartSync => seen is StartSync,
                    Action::Poll(t) => seen == ActionView::Poll(t@),
                    Action::ReadBody => seen is ReadBody,
                    Action::SetPlaying { playing, position_ms } => seen == (
                    ActionView::SetPlaying { playing, position_ms }),
                    Action::Emit(event) => seen == ActionView::Emit(event@),
                    Action::FetchLyrics { title, artist, duration_secs } => seen == (
                    ActionView::FetchLyrics { title: title@, artist: artist@, duration_secs }),
                    Action::SetLyrics(Some(lines)) => seen == ActionView::SetLyrics(
                        Some(lines_view(lines@)),
                    ),
                    Action::SetLyrics(None) => seen == ActionView::SetLyrics(None),
                }
            },
{
}

} // verus!
