use playa::events::{Event, LyricLine};
use playa::lyrics::parse_lrc;
use playa::sync::{find_current_line, PlaybackState, SyncEngine, Tick};
use tokio::time::{Duration, Instant};

fn at(start_ms: u64, end_ms: u64) -> LyricLine {
    LyricLine { text: format!("line {}", start_ms), start_ms, end_ms, words: vec![] }
}

#[test]
fn current_lines_of_a_song() {
    let lines = parse_lrc("[00:01.00]a\n[00:03.00]b\n[00:07.00]c");
    assert_eq!(find_current_line(&lines, 0), None);
    assert_eq!(find_current_line(&lines, 999), None);
    assert_eq!(find_current_line(&lines, 1_000), Some(0));
    assert_eq!(find_current_line(&lines, 2_999), Some(0));
    assert_eq!(find_current_line(&lines, 3_000), Some(1));
    assert_eq!(find_current_line(&lines, 7_000), Some(2));
    assert_eq!(find_current_line(&lines, 12_000), Some(2));
    assert_eq!(find_current_line(&lines, 12_001), None);
    assert_eq!(find_current_line(&[], 5), None);
}

#[test]
fn a_line_that_has_ended_is_not_current() {
    let lines = vec![at(10, 20), at(30, 40)];
    assert_eq!(find_current_line(&lines, 20), Some(0));
    assert_eq!(find_current_line(&lines, 21), None);
    assert_eq!(find_current_line(&lines, 30), Some(1));
    let backwards = vec![at(10, 5)];
    assert_eq!(find_current_line(&backwards, 10), Some(0));
    assert_eq!(find_current_line(&backwards, 11), None);
}

#[test]
fn lines_are_searched_as_std_searches() {
    let mut seed: u64 = 7;
    for round in 0..4_000u64 {
        let mut lines = Vec::new();
        for _ in 0..round % 17 {
            seed = seed.wrapping_mul(6364136223846793005).wrapping_add(1442695040888963407);
            let start = (seed >> 33) % 12;
            lines.push(at(start, start + (seed >> 50) % 4));
        }
        if round % 2 == 0 {
            lines.sort_by_key(|l| l.start_ms);
        }
        for t in 0..16u64 {
            let expected = match lines.binary_search_by(|l| l.start_ms.cmp(&t)) {
                Ok(i) => Some(i),
                Err(0) => None,
                Err(i) if t <= lines[i - 1].end_ms => Some(i - 1),
                Err(_) => None,
            };
            assert_eq!(find_current_line(&lines, t), expected);
        }
    }
}

#[test]
fn a_player_moves_on_while_it_plays() {
    let mut state = PlaybackState::new();
    assert!(!state.is_playing);
    assert_eq!(state.current_position_ms(), Some(0));
    let now = Instant::now();
    state.set_playing_at(now, true, 1_500);
    assert_eq!(state.anchor_time, now);
    assert_eq!(state.position_after(0), 1_500);
    assert_eq!(state.position_after(250), 1_750);
    state.set_playing_at(now, false, 1_500);
    assert_eq!(state.position_after(250), 1_500);
    state.update_position_at(now, 9);
    assert!(!state.is_playing);
    assert_eq!(state.current_position_ms(), Some(9));
}

#[test]
fn the_clock_is_read() {
    let ago = Instant::now().checked_sub(Duration::from_secs(10)).unwrap();
    let state = PlaybackState { is_playing: true, anchor_time: ago, anchor_position_ms: 5 };
    let p = state.current_position_ms().unwrap();
    assert!(p >= 10_005 && p < 70_005);
    let mut state = state;
    state.update_position(5);
    assert!(state.is_playing);
    assert!(state.anchor_time > ago);
    assert!(state.current_position_ms().unwrap() < 10_005);
    state.set_playing(false, 77);
    assert_eq!(state.current_position_ms(), Some(77));
}

#[test]
fn a_position_out_of_range() {
    let ago = Instant::now().checked_sub(Duration::from_secs(1)).unwrap();
    let mut state = PlaybackState { is_playing: true, anchor_time: ago, anchor_position_ms: u64::MAX - 10 };
    assert_eq!(state.current_position_ms(), None);
    let engine = SyncEngine { playback: state, lyrics: None };
    assert!(matches!(engine.tick(&mut None), Tick::OutOfRange));
    state = engine.playback;
    state.is_playing = false;
    assert_eq!(state.current_position_ms(), Some(u64::MAX - 10));
}

fn info(event: Option<Event>) -> (String, u64, Option<(String, u64)>, u64) {
    match event {
        Some(Event::Line { current, next, position_ms }) => {
            (current.text, current.start_ms, next.map(|n| (n.text, n.start_ms)), position_ms)
        }
        _ => panic!("no line"),
    }
}

#[test]
fn ticks_announce_each_line_once() {
    let now = Instant::now();
    let mut engine = SyncEngine::new_at(now);
    let mut announced = None;
    assert!(engine.tick_at(&mut announced, 1_000).is_none());
    engine.set_lyrics(Some(parse_lrc("[00:01.00]a\n[00:03.00]b")));
    assert!(engine.tick_at(&mut announced, 1_000).is_none());
    engine.playback.set_playing_at(now, true, 0);
    assert!(engine.tick_at(&mut announced, 500).is_none());
    assert_eq!(
        info(engine.tick_at(&mut announced, 1_000)),
        ("a".to_string(), 1_000, Some(("b".to_string(), 3_000)), 1_000)
    );
    assert_eq!(announced, Some(0));
    assert!(engine.tick_at(&mut announced, 1_000).is_none());
    assert!(engine.tick_at(&mut announced, 2_000).is_none());
    assert_eq!(info(engine.tick_at(&mut announced, 4_000)), ("b".to_string(), 3_000, None, 4_000));
    assert_eq!(announced, Some(1));
    assert_eq!(info(engine.tick_at(&mut announced, 9_000)), (String::new(), 0, None, 9_000));
    assert_eq!(announced, None);
    engine.set_lyrics(None);
    assert!(engine.tick_at(&mut announced, 1_000).is_none());
}

#[test]
fn a_tick_reads_the_clock() {
    let mut engine = SyncEngine::new();
    engine.set_lyrics(Some(parse_lrc("[00:01.00]a\n[01:40.00]b")));
    let mut announced = None;
    assert!(matches!(engine.tick(&mut announced), Tick::Done(None)));
    engine.playback.set_playing(true, 2_000);
    match engine.tick(&mut announced) {
        Tick::Done(event) => assert_eq!(info(event).0, "a"),
        Tick::OutOfRange => panic!("out of range"),
    }
    assert_eq!(announced, Some(0));
}

#[test]
fn copies_of_events_say_the_same() {
    let events = vec![
        Event::Lyrics { lines: vec![at(1, 2)], sync_type: "line".to_string() },
        Event::State { playing: true, position_ms: 3 },
        Event::NoLyrics,
    ];
    for e in events.iter() {
        assert_eq!(format!("{:?}", e.clone()), format!("{:?}", e));
    }
}

#[test]
fn a_position_at_a_reading_of_the_clock() {
    let anchor = Instant::now();
    let later = anchor.checked_add(Duration::from_micros(2_345_678)).unwrap();
    let mut state = PlaybackState::new_at(anchor);
    state.set_playing_at(anchor, true, 100);
    assert_eq!(state.position_at(anchor), Some(100));
    assert_eq!(state.position_at(later), Some(2_445));
    let back = PlaybackState { is_playing: true, anchor_time: later, anchor_position_ms: 100 };
    assert_eq!(back.position_at(anchor), Some(100));
    state.set_playing_at(anchor, false, 100);
    assert_eq!(state.position_at(later), Some(100));
    state.set_playing_at(anchor, true, u64::MAX - 2_345);
    assert_eq!(state.position_at(later), Some(u64::MAX));
    state.set_playing_at(anchor, true, u64::MAX - 2_344);
    assert_eq!(state.position_at(later), None);
}

#[test]
fn a_position_after_a_time() {
    let mut state = PlaybackState::new();
    state.set_playing(true, 7);
    assert_eq!(state.checked_position_after(0), Some(7));
    assert_eq!(state.checked_position_after(u64::MAX as u128 - 7), Some(u64::MAX));
    assert_eq!(state.checked_position_after(u64::MAX as u128 - 6), None);
    assert_eq!(state.checked_position_after(u64::MAX as u128 + 1), Some(7));
    state.set_playing(false, u64::MAX);
    assert_eq!(state.checked_position_after(u128::MAX), Some(u64::MAX));
}

#[test]
fn a_tick_at_a_reading_of_the_clock() {
    let anchor = Instant::now();
    let later = anchor.checked_add(Duration::from_millis(1_200)).unwrap();
    let mut engine = SyncEngine::new_at(anchor);
    engine.set_lyrics(Some(parse_lrc("[00:01.00]a\n[00:03.00]b")));
    engine.playback.set_playing_at(anchor, true, 0);
    let mut announced = None;
    assert!(matches!(engine.tick_when(&mut announced, anchor), Tick::Done(None)));
    match engine.tick_when(&mut announced, later) {
        Tick::Done(event) => {
            assert_eq!(info(event), ("a".to_string(), 1_000, Some(("b".to_string(), 3_000)), 1_200))
        }
        Tick::OutOfRange => panic!("out of range"),
    }
    engine.playback.set_playing_at(anchor, true, u64::MAX);
    assert!(matches!(engine.tick_when(&mut announced, later), Tick::OutOfRange));
    assert_eq!(announced, Some(0));
}

#[test]
fn later_readings_give_no_smaller_positions() {
    let anchor = Instant::now();
    for playing in [true, false].iter() {
        let mut state = PlaybackState::new_at(anchor);
        state.set_playing_at(anchor, *playing, 500);
        let mut last = 500;
        for micros in [0u64, 1, 999, 1_000, 1_999, 2_000, 77_777, 5_000_000].iter() {
            let p = state.position_at(anchor.checked_add(Duration::from_micros(*micros)).unwrap()).unwrap();
            assert!(p >= last);
            assert_eq!(p, if *playing { 500 + micros / 1_000 } else { 500 });
            last = p;
        }
    }
    let mut state = PlaybackState::new();
    state.set_playing(true, 500);
    let first = state.current_position_ms().unwrap();
    let second = state.current_position_ms().unwrap();
    assert!(500 <= first && first <= second);
}
