use playa::events::LyricLine;
use playa::http::Reply;
use playa::lyrics::{
    lyrics_from_reply, lyrics_request, parse_lrc, parse_timestamp, read_timestamp, try_parse_lrc, FetchedLyrics,
    LrclibResponse, Timestamp,
};

fn lines(lrc: &str) -> Vec<(String, u64, u64)> {
    summary(parse_lrc(lrc))
}

fn summary(lines: Vec<LyricLine>) -> Vec<(String, u64, u64)> {
    lines
        .into_iter()
        .map(|l| {
            assert!(l.words.is_empty());
            (l.text, l.start_ms, l.end_ms)
        })
        .collect()
}

fn line(text: &str, start: u64, end: u64) -> (String, u64, u64) {
    (text.to_string(), start, end)
}

#[test]
fn timestamps_name_milliseconds() {
    assert_eq!(parse_timestamp("01:02.50"), Some(62_500));
    assert_eq!(parse_timestamp("00:05"), Some(5_000));
    assert_eq!(parse_timestamp("1:2.5"), Some(62_500));
    assert_eq!(parse_timestamp("00:00.05"), Some(50));
    assert_eq!(parse_timestamp("00:00.123"), Some(123));
    assert_eq!(parse_timestamp("00:00.1239"), Some(123));
    assert_eq!(parse_timestamp("00:00.123\u{e9}"), Some(123));
    assert_eq!(parse_timestamp("00:01.5.7"), Some(1_500));
    assert_eq!(parse_timestamp("+1:+2.+5"), Some(62_050));
    assert_eq!(parse_timestamp("100:99"), Some(6_099_000));
}

#[test]
fn other_texts_are_no_timestamps() {
    for ts in ["", ":", "12", "1:2:3", "a:1", "1:b", "1:-1", "1:.5", ":5", "1 :2", "1:2.x", "1:2.-5", "1:2.\u{e9}", "ar:Name"].iter() {
        assert_eq!(parse_timestamp(ts), None, "{}", ts);
        assert!(matches!(read_timestamp(ts.as_bytes()), Timestamp::Malformed));
    }
}

#[test]
fn timestamps_that_cannot_be_read() {
    for ts in ["00:12.", "00:12..5", "00:00.12\u{e9}", "00:00.\u{1f600}", "999999999999999999:00", "0:18446744073709551615"].iter() {
        assert!(matches!(read_timestamp(ts.as_bytes()), Timestamp::Unreadable), "{}", ts);
    }
    assert!(matches!(read_timestamp(b"x:12."), Timestamp::Malformed));
    assert!(matches!(read_timestamp(b"00:12.5"), Timestamp::At(12_500)));
}

#[test]
fn a_file_gives_its_timed_lines() {
    let lrc = "[ar:Someone]\r\n[ti:Song]\r\n\r\n[00:01.00] First \r\n[00:03.50]Second\r\nno brackets\r\n[00:05\r\n[00:06.00]\r\n  [00:10.00] Third [x]\r\n";
    assert_eq!(
        lines(lrc),
        vec![line("First", 1_000, 3_500), line("Second", 3_500, 10_000), line("Third [x]", 10_000, 15_000)]
    );
}

#[test]
fn only_the_first_bracket_is_a_timestamp() {
    assert_eq!(lines("[00:01.00][00:02.00]again"), vec![line("[00:02.00]again", 1_000, 6_000)]);
    assert_eq!(lines("\u{3000}[00:01.00]\u{3000}x\u{3000}"), vec![line("x", 1_000, 6_000)]);
    assert_eq!(lines("x[00:01.00]y"), vec![]);
    assert_eq!(lines(""), vec![]);
    assert_eq!(lines("\n\n"), vec![]);
    assert_eq!(lines("[]x"), vec![]);
}

#[test]
fn lines_out_of_order_stay_where_they_are() {
    assert_eq!(lines("[00:10.00]a\n[00:05.00]b"), vec![line("a", 10_000, 5_000), line("b", 5_000, 10_000)]);
}

#[test]
fn files_that_cannot_be_read() {
    assert!(try_parse_lrc("[00:01.00]a\n[00:12.]b").is_none());
    assert!(try_parse_lrc("[00:12.]").unwrap().is_empty());
    assert!(try_parse_lrc("[0:18446744073709551.615]a").is_none());
    assert_eq!(
        summary(try_parse_lrc("[0:18446744073709551.615]a\n[0:1]b").unwrap()),
        vec![line("a", 18446744073709551615, 1_000), line("b", 1_000, 6_000)]
    );
    assert_eq!(
        summary(try_parse_lrc("[0:18446744073709546.615]a").unwrap()),
        vec![line("a", 18446744073709546615, 18446744073709551615)]
    );
}

#[test]
fn joined_files_give_the_lines_of_both() {
    let first = "[00:01.00]a\nskip";
    let second = "[00:02.00]b";
    let both = format!("{}\n{}", first, second);
    assert_eq!(lines(&both), vec![line("a", 1_000, 2_000), line("b", 2_000, 7_000)]);
}

/// A timestamp by the string functions of std; the inner `None` is one that
/// cannot be read.
fn timestamp_by_std(ts: &str) -> Option<Option<u64>> {
    let parts: Vec<&str> = ts.split(':').collect();
    if parts.len() != 2 {
        return Some(None);
    }
    let seconds: Vec<&str> = parts[1].split('.').collect();
    let (m, s) = match (parts[0].parse::<u64>(), seconds[0].parse::<u64>()) {
        (Ok(m), Ok(s)) => (m, s),
        _ => return Some(None),
    };
    let mut ms = 0;
    if seconds.len() > 1 {
        let frac = seconds[1];
        let digits = match frac.len() {
            1..=3 => frac,
            _ => frac.get(..3)?,
        };
        ms = match digits.parse::<u64>() {
            Ok(v) => v * [1, 100, 10, 1][if frac.len() > 3 { 3 } else { frac.len() }],
            Err(_) => return Some(None),
        };
    }
    let total = m.checked_mul(60_000)?.checked_add(s.checked_mul(1_000)?)?.checked_add(ms)?;
    Some(Some(total))
}

/// An LRC file by the string functions of std.
fn lrc_by_std(lrc: &str) -> Option<Vec<(String, u64, u64)>> {
    let mut found: Vec<(String, u64)> = Vec::new();
    for l in lrc.lines() {
        let l = l.trim();
        if let (true, Some(close)) = (l.starts_with('['), l.find(']')) {
            let text = l[close + 1..].trim();
            if !text.is_empty() {
                if let Some(ms) = timestamp_by_std(&l[1..close])? {
                    found.push((text.to_string(), ms));
                }
            }
        }
    }
    let mut all = Vec::new();
    for i in 0..found.len() {
        let end = if i + 1 < found.len() { found[i + 1].1 } else { found[i].1.checked_add(5000)? };
        all.push((found[i].0.clone(), found[i].1, end));
    }
    Some(all)
}

#[test]
fn files_are_read_as_std_would_split_them() {
    let pieces = [
        "[", "]", ":", ".", "0", "1", "27", "+", "-", "\n", "\r\n", "\r", " ", "\u{3000}", "a", "\u{e9}", "\u{20ac}",
        "\u{1f600}", "[00:01.00]x", "[1:2.34]", "[00:0", "18446744073709551615", "[3:4.5", "]t\n", "\u{85}",
    ];
    let mut seed: u64 = 1;
    let mut readable = 0;
    for _ in 0..40_000 {
        let mut text = String::new();
        seed = seed.wrapping_mul(6364136223846793005).wrapping_add(1442695040888963407);
        let n = 1 + (seed >> 33) % 12;
        for _ in 0..n {
            seed = seed.wrapping_mul(6364136223846793005).wrapping_add(1442695040888963407);
            text.push_str(pieces[((seed >> 33) % pieces.len() as u64) as usize]);
        }
        let got = try_parse_lrc(&text).map(summary);
        if got.as_ref().map_or(false, |l| !l.is_empty()) {
            readable += 1;
        }
        assert_eq!(got, lrc_by_std(&text), "{:?}", text);
        if let Some(expected) = timestamp_by_std(&text) {
            assert_eq!(parse_timestamp(&text), expected, "{:?}", text);
        } else {
            assert!(matches!(read_timestamp(text.as_bytes()), Timestamp::Unreadable));
        }
    }
    assert!(readable > 1_000);
}

#[test]
fn the_service_is_asked_for_a_track() {
    let r = lyrics_request("Title & more", "Artist", 215);
    assert_eq!(r.url, "https://lrclib.net/api/get");
    assert_eq!(r.user_agent, "Playa/0.1.0");
    assert_eq!(
        r.query,
        vec![
            ("track_name".to_string(), "Title & more".to_string()),
            ("artist_name".to_string(), "Artist".to_string()),
            ("duration".to_string(), "215".to_string()),
        ]
    );
}

fn answer(status: u16, lrc: Option<&str>) -> Reply<LrclibResponse> {
    Reply::Answer { status, body: Some(LrclibResponse { synced_lyrics: lrc.map(|s| s.to_string()) }) }
}

#[test]
fn replies_of_the_service() {
    match lyrics_from_reply(answer(200, Some("[00:01.00]a"))) {
        FetchedLyrics::Lines(l) => assert_eq!(summary(l), vec![line("a", 1_000, 6_000)]),
        _ => panic!("no lines"),
    }
    assert!(matches!(lyrics_from_reply(answer(404, Some("[00:01.00]a"))), FetchedLyrics::Absent));
    assert!(matches!(lyrics_from_reply(answer(299, Some("[00:01.00]a"))), FetchedLyrics::Lines(_)));
    assert!(matches!(lyrics_from_reply(answer(300, Some("[00:01.00]a"))), FetchedLyrics::Absent));
    assert!(matches!(lyrics_from_reply(answer(200, None)), FetchedLyrics::Absent));
    assert!(matches!(lyrics_from_reply(answer(200, Some("no lines"))), FetchedLyrics::Absent));
    assert!(matches!(lyrics_from_reply(answer(200, Some("[00:01.]a"))), FetchedLyrics::Unreadable));
    assert!(matches!(lyrics_from_reply(Reply::NoAnswer), FetchedLyrics::Absent));
    assert!(matches!(lyrics_from_reply(Reply::Answer { status: 200, body: None }), FetchedLyrics::Absent));
}

#[test]
fn line_breaks_and_blanks_change_nothing() {
    let plain = "[00:01.00]a\nskip\n\n[00:02.50]b c\n[00:04.00]d";
    let expected = lines(plain);
    assert_eq!(expected.len(), 3);
    assert_eq!(lines(&plain.replace("\n", "\r\n")), expected);
    let margins = [(" \t", "\u{3000} "), ("", "\r"), ("\u{a0}", ""), ("\t\t\t", " "), ("", "")];
    let spaced: Vec<String> =
        plain.split('\n').zip(margins.iter()).map(|(l, m)| format!("{}{}{}", m.0, l, m.1)).collect();
    assert_eq!(spaced.len(), 5);
    assert_eq!(lines(&spaced.join("\n")), expected);
    for (text, _, _) in expected {
        assert!(!text.contains('\n'));
    }
}

#[test]
fn printed_lyrics_read_back() {
    let times = [0u64, 7, 60, 999, 1_000, 59_999, 60_000, 3_599_999, 6_000_000, u64::MAX - 5000];
    let mut file = String::new();
    for t in times.iter() {
        let stamp = format!("{}:{}.{:03}", t / 60_000, t / 1_000 % 60, t % 1_000);
        assert_eq!(parse_timestamp(&stamp), Some(*t));
        file.push_str(&format!("[{}]at {}\n", stamp, t));
    }
    let got = lines(&file);
    assert_eq!(got.len(), times.len());
    for i in 0..times.len() {
        assert_eq!((got[i].0.clone(), got[i].1), (format!("at {}", times[i]), times[i]));
    }
}

#[test]
fn a_zero_behind_the_fraction_changes_no_time() {
    for ts in ["0:1.5", "0:1.50", "0:1.500", "0:1.5009", "0:1.+5", "0:1.25.7"].iter() {
        assert_eq!(parse_timestamp(&format!("{}0", ts)), parse_timestamp(ts));
    }
    assert_eq!(parse_timestamp("0:1.+"), None);
    assert_eq!(parse_timestamp("0:1.+0"), Some(1_000));
}
