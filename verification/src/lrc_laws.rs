//! What leaves the lyrics of an LRC file the same: how its lines are broken and
//! indented, and printing them again.

use vstd::prelude::*;
use vstd::utf8::encode_utf8;

use crate::lyrics::{
    clock_reading, fraction, fraction_ms, lemma_timed_text, lemma_times_in_range,
    line_parts, line_readable, lines_readable, lrc_lines, lrc_readable, timed_line, timed_lines,
    timestamp_ms, timestamp_readable, TimedText,
};
use crate::text::{
    after, before, decimal_digits, digit_char, digits_value, first_index, is_blank, is_digit,
    is_white_space, law_blanks_around_are_dropped, law_trailing_space_is_dropped,
    lemma_ascii_bytes, lemma_decimal_bytes, lemma_first_index, lemma_first_index_bounds,
    lemma_trimmed_whole, trimmed, unsigned_digits, unsigned_value,
};

verus! {

/// The file with each line break as a carriage return and a line feed.
pub open spec fn with_crlf(lrc: Seq<char>) -> Seq<char>
    decreases lrc.len(),
{
    if lrc.contains('\n') {
        proof {
            lemma_first_index_bounds(lrc, '\n');
        }
        before(lrc, '\n') + seq!['\r', '\n'] + with_crlf(after(lrc, '\n'))
    } else {
        lrc
    }
}

/// What stands before a line and behind it.
pub struct Margin {
    pub lead: Seq<char>,
    pub trail: Seq<char>,
}

/// How many lines a file has.
pub open spec fn line_count(lrc: Seq<char>) -> nat
    decreases lrc.len(),
{
    if lrc.contains('\n') {
        proof {
            lemma_first_index_bounds(lrc, '\n');
        }
        1 + line_count(after(lrc, '\n'))
    } else {
        1
    }
}

/// The file with a margin round each line: the first margin round the first
/// line, and so on.
pub open spec fn with_margins(lrc: Seq<char>, margins: Seq<Margin>) -> Seq<char>
    decreases lrc.len(),
{
    if lrc.contains('\n') {
        proof {
            lemma_first_index_bounds(lrc, '\n');
        }
        margins[0].lead + before(lrc, '\n') + margins[0].trail + seq!['\n'] + with_margins(
            after(lrc, '\n'),
            margins.drop_first(),
        )
    } else {
        margins[0].lead + lrc + margins[0].trail
    }
}

/// A margin of white space without a line break.
pub open spec fn is_blank_margin(margin: Margin) -> bool {
    &&& is_blank(margin.lead)
    &&& is_blank(margin.trail)
    &&& !margin.lead.contains('\n')
    &&& !margin.trail.contains('\n')
}

/// A line that is broken, and what follows it, are read one after the other.
proof fn lemma_first_line(line: Seq<char>, rest: Seq<char>)
    requires
        !line.contains('\n'),
    ensures
        timed_lines(line + seq!['\n'] + rest) == timed_line(line) + timed_lines(rest),
        lines_readable(line + seq!['\n'] + rest) == (line_readable(line) && lines_readable(rest)),
{
    let all = line + seq!['\n'] + rest;
    let n = line.len() as int;
    assert(all[n] == '\n');
    assert forall|j: int| 0 <= j < n implies all[j] != '\n' by {
        assert(all[j] == line[j]);
        assert(line.contains(line[j]));
    }
    lemma_first_index(all, '\n', n);
    assert(before(all, '\n') =~= line);
    assert(after(all, '\n') =~= rest);
}

/// What stands before the first line break holds none.
proof fn lemma_before_is_unbroken(lrc: Seq<char>)
    ensures
        !before(lrc, '\n').contains('\n'),
        !lrc.contains('\n') ==> before(lrc, '\n') == lrc,
{
    lemma_first_index_bounds(lrc, '\n');
    assert(!lrc.contains('\n') ==> before(lrc, '\n') =~= lrc);
}

/// A file with carriage returns before its line feeds has the same lyrics, and
/// can be read where the other can.
pub proof fn law_crlf_is_a_line_break(lrc: Seq<char>)
    ensures
        timed_lines(with_crlf(lrc)) == timed_lines(lrc),
        lrc_readable(with_crlf(lrc)) == lrc_readable(lrc),
        lrc_lines(with_crlf(lrc)) == lrc_lines(lrc),
        lines_readable(with_crlf(lrc)) == lines_readable(lrc),
    decreases lrc.len(),
{
    if lrc.contains('\n') {
        lemma_first_index_bounds(lrc, '\n');
        lemma_before_is_unbroken(lrc);
        let line = before(lrc, '\n');
        let rest = with_crlf(after(lrc, '\n'));
        law_crlf_is_a_line_break(after(lrc, '\n'));
        law_trailing_space_is_dropped(line, '\r');
        assert(with_crlf(lrc) =~= line.push('\r') + seq!['\n'] + rest);
        lemma_first_line(line.push('\r'), rest);
    }
}

/// Blanks before and behind the lines of a file, other ones round each line,
/// leave its lyrics the same, and it can be read where the file without them
/// can.
pub proof fn law_blanks_around_lines_are_dropped(lrc: Seq<char>, margins: Seq<Margin>)
    requires
        margins.len() == line_count(lrc),
        forall|i: int| 0 <= i < margins.len() ==> is_blank_margin(#[trigger] margins[i]),
    ensures
        timed_lines(with_margins(lrc, margins)) == timed_lines(lrc),
        lrc_readable(with_margins(lrc, margins)) == lrc_readable(lrc),
        lrc_lines(with_margins(lrc, margins)) == lrc_lines(lrc),
        lines_readable(with_margins(lrc, margins)) == lines_readable(lrc),
    decreases lrc.len(),
{
    lemma_first_index_bounds(lrc, '\n');
    lemma_before_is_unbroken(lrc);
    assert(is_blank_margin(margins[0]));
    let lead = margins[0].lead;
    let trail = margins[0].trail;
    let line = before(lrc, '\n');
    let padded = lead + line + trail;
    law_blanks_around_are_dropped(lead, line, trail);
    assert forall|j: int| 0 <= j < padded.len() implies padded[j] != '\n' by {
        if j < lead.len() {
            assert(lead.contains(lead[j]));
        } else if j < lead.len() + line.len() {
            assert(line.contains(line[j - lead.len()]));
        } else {
            assert(trail.contains(trail[j - lead.len() - line.len()]));
        }
    }
    if lrc.contains('\n') {
        let rest = margins.drop_first();
        assert forall|i: int| 0 <= i < rest.len() implies is_blank_margin(#[trigger] rest[i]) by {
            assert(rest[i] == margins[i + 1]);
        }
        law_blanks_around_lines_are_dropped(after(lrc, '\n'), rest);
        lemma_first_line(padded, with_margins(after(lrc, '\n'), rest));
    }
}

/// A time in the form of a timestamp: minutes, seconds and thousandths.
pub open spec fn printed_stamp(ms: nat) -> Seq<char> {
    decimal_digits(ms / 60_000) + seq![':'] + decimal_digits(ms / 1_000 % 60) + seq![
        '.',
        digit_char(ms / 100 % 10),
        digit_char(ms / 10 % 10),
        digit_char(ms % 10),
    ]
}

/// A timed text as a line of an LRC file.
pub open spec fn printed_line(line: TimedText) -> Seq<char> {
    seq!['['] + printed_stamp(line.start_ms) + seq![']'] + line.text
}

/// Timed texts as an LRC file.
pub open spec fn printed(timed: Seq<TimedText>) -> Seq<char>
    decreases timed.len(),
{
    if timed.len() == 0 {
        Seq::empty()
    } else {
        printed_line(timed[0]) + seq!['\n'] + printed(timed.drop_first())
    }
}

/// A timed text that a line can hold: its time is below 2^64 milliseconds, and
/// its text begins and ends with something else than white space and holds no
/// line break.
pub open spec fn printable(line: TimedText) -> bool {
    &&& line.start_ms <= u64::MAX
    &&& line.text.len() > 0
    &&& !is_white_space(line.text[0])
    &&& !is_white_space(line.text.last())
    &&& !line.text.contains('\n')
}

/// Three digits read back as the number that they write.
proof fn lemma_three_digits(b: Seq<u8>, h: nat, t: nat, o: nat)
    requires
        h < 10,
        t < 10,
        o < 10,
        b == seq![(0x30 + h) as u8, (0x30 + t) as u8, (0x30 + o) as u8],
    ensures
        unsigned_value(b) == Some(h * 100 + t * 10 + o),
{
    assert(unsigned_digits(b) == b);
    let b1 = b.drop_last();
    let b2 = b1.drop_last();
    let b3 = b2.drop_last();
    assert(digits_value(b3) == 0);
    assert(digits_value(b2) == h);
    assert(digits_value(b1) == h * 10 + t);
    assert(digits_value(b) == h * 100 + t * 10 + o);
    assert forall|i: int| 0 <= i < b.len() implies is_digit(#[trigger] b[i]) by {}
}

/// The last three digits of a number.
proof fn lemma_last_digits(n: nat)
    ensures
        (n / 100 % 10) * 100 + (n / 10 % 10) * 10 + n % 10 == n % 1000,
{
    let q = n / 1000;
    let k = n % 1000;
    assert(n == q * 1000 + k);
    assert(n / 100 == q * 10 + k / 100);
    assert(n / 10 == q * 100 + k / 10);
    assert(n / 100 % 10 == k / 100);
    assert(n / 10 % 10 == k / 10 % 10);
    assert(n % 10 == k % 10);
}

/// A time that is printed as a timestamp reads back as itself.
pub proof fn law_timestamp_reads_back(ms: u64)
    ensures
        timestamp_ms(encode_utf8(printed_stamp(ms as nat))) == Some(ms as nat),
        timestamp_readable(encode_utf8(printed_stamp(ms as nat))),
{
    let st = printed_stamp(ms as nat);
    let m = decimal_digits(ms as nat / 60_000);
    let s = decimal_digits(ms as nat / 1_000 % 60);
    lemma_decimal_bytes((ms / 60_000) as u64);
    lemma_decimal_bytes((ms / 1_000 % 60) as u64);
    lemma_stamp_chars(ms as nat);
    lemma_ascii_bytes(st);
    let b = encode_utf8(st);
    let colon = m.len() as int;
    lemma_first_index(b, 0x3au8, colon);
    lemma_first_index_bounds(b, 0x3au8);
    assert(before(b, 0x3au8) =~= Seq::new(m.len(), |i: int| m[i] as u8));
    let sec = after(b, 0x3au8);
    assert(sec.len() == s.len() + 4);
    assert forall|i: int| 0 <= i < s.len() implies sec[i] == s[i] as u8 by {}
    assert(sec[s.len() as int] == 0x2e);
    lemma_first_index(sec, 0x2eu8, s.len() as int);
    lemma_first_index_bounds(sec, 0x2eu8);
    assert forall|i: int| 0 <= i < sec.len() implies sec[i] != 0x3au8 by {
        assert(sec[i] == st[colon + 1 + i] as u8);
    }
    lemma_first_index_bounds(sec, 0x3au8);
    assert(before(sec, 0x2eu8) =~= Seq::new(s.len(), |i: int| s[i] as u8));
    let frac = after(sec, 0x2eu8);
    assert(frac.len() == 3);
    lemma_first_index(frac, 0x2eu8, 3);
    assert(before(frac, 0x2eu8) =~= frac);
    let (h, t, o) = (ms as nat / 100 % 10, ms as nat / 10 % 10, ms as nat % 10);
    assert(frac =~= seq![(0x30 + h) as u8, (0x30 + t) as u8, (0x30 + o) as u8]);
    lemma_three_digits(frac, h, t, o);
    lemma_last_digits(ms as nat);
    assert(fraction(sec) == Some(frac));
}

/// A printed timestamp holds digits, one colon and one point.
proof fn lemma_stamp_chars(ms: nat)
    requires
        ms <= u64::MAX,
    ensures
        forall|i: int|
            0 <= i < printed_stamp(ms).len() ==> {
                let c = #[trigger] printed_stamp(ms)[i];
                '0' <= c <= '9' || c == ':' || c == '.'
            },
        forall|i: int|
            decimal_digits(ms / 60_000).len() < i < printed_stamp(ms).len()
                ==> #[trigger] printed_stamp(ms)[i] != ':',
{
    lemma_decimal_bytes((ms / 60_000) as u64);
    lemma_decimal_bytes((ms / 1_000 % 60) as u64);
    let m = decimal_digits(ms / 60_000);
    let s = decimal_digits(ms / 1_000 % 60);
    let st = printed_stamp(ms);
    assert forall|i: int| 0 <= i < st.len() implies {
        let c = #[trigger] st[i];
        &&& '0' <= c <= '9' || c == ':' || c == '.'
        &&& i > m.len() ==> c != ':'
    } by {
        if i < m.len() {
            assert(st[i] == m[i]);
        } else if m.len() < i < m.len() + 1 + s.len() {
            assert(st[i] == s[i - m.len() - 1]);
        }
    }
}

/// A line that is printed gives the timed text that it was printed from.
proof fn lemma_printed_line(x: TimedText)
    requires
        printable(x),
    ensures
        !printed_line(x).contains('\n'),
        timed_line(printed_line(x)) == seq![x],
        line_readable(printed_line(x)),
{
    let st = printed_stamp(x.start_ms);
    let line = printed_line(x);
    lemma_stamp_chars(x.start_ms);
    law_timestamp_reads_back(x.start_ms as u64);
    assert forall|j: int| 0 <= j < line.len() implies line[j] != '\n' by {
        if 1 <= j <= st.len() {
            assert(line[j] == st[j - 1]);
        } else if j >= st.len() + 2 {
            assert(x.text.contains(x.text[j - st.len() - 2]));
        }
    }
    assert(line.last() == x.text.last());
    lemma_trimmed_whole(line);
    let close = st.len() as int + 1;
    assert(line[close] == ']');
    assert forall|j: int| 0 <= j < close implies line[j] != ']' by {
        if 1 <= j {
            assert(line[j] == st[j - 1]);
        }
    }
    lemma_first_index(line, ']', close);
    lemma_first_index_bounds(line, ']');
    assert(after(line, ']') =~= x.text);
    lemma_trimmed_whole(x.text);
    assert(before(line, ']').drop_first() =~= st);
    assert(line_parts(line) == Some((st, x.text)));
    assert(timed_line(line) =~= seq![x]);
}

/// Timed texts that are printed as an LRC file read back as themselves, and the
/// file has no line that cannot be read.
pub proof fn law_printed_lyrics_read_back(timed: Seq<TimedText>)
    requires
        forall|i: int| 0 <= i < timed.len() ==> printable(#[trigger] timed[i]),
    ensures
        timed_lines(printed(timed)) == timed,
        lines_readable(printed(timed)),
    decreases timed.len(),
{
    if timed.len() == 0 {
        let none = Seq::<char>::empty();
        assert(trimmed(none) == none);
        assert(timed_lines(none) =~= timed);
    } else {
        let rest = timed.drop_first();
        assert forall|i: int| 0 <= i < rest.len() implies printable(#[trigger] rest[i]) by {
            assert(rest[i] == timed[i + 1]);
        }
        lemma_printed_line(timed[0]);
        law_printed_lyrics_read_back(rest);
        lemma_first_line(printed_line(timed[0]), printed(rest));
        assert(seq![timed[0]] + rest =~= timed);
    }
}

/// A file that is printed from the lyrics of another has the same lyrics.
pub proof fn law_printing_keeps_the_lyrics(lrc: Seq<char>)
    requires
        lrc_readable(lrc),
    ensures
        lrc_readable(printed(timed_lines(lrc))),
        lrc_lines(printed(timed_lines(lrc))) == lrc_lines(lrc),
{
    let timed = timed_lines(lrc);
    assert forall|i: int| 0 <= i < timed.len() implies printable(#[trigger] timed[i]) by {
        lemma_timed_text(lrc, i);
        lemma_times_in_range(lrc, i);
    }
    law_printed_lyrics_read_back(timed);
}

/// A zero behind the fraction of a timestamp changes no time.
pub proof fn law_trailing_zero_changes_no_time(ts: Seq<u8>)
    requires
        timestamp_ms(ts) is Some,
        clock_reading(ts) matches Some((_, _, Some(_))),
    ensures
        timestamp_ms(ts.push(0x30)) == timestamp_ms(ts),
{
    let ts0 = ts.push(0x30);
    lemma_push_keeps_first(ts, 0x3au8, 0x30u8);
    let sec = after(ts, 0x3au8);
    let sec0 = after(ts0, 0x3au8);
    assert(sec0 =~= sec.push(0x30));
    lemma_first_index_bounds(sec, 0x3au8);
    lemma_first_index_bounds(sec0, 0x3au8);
    assert forall|j: int| 0 <= j < sec0.len() implies sec0[j] != 0x3au8 by {
        if j < sec.len() {
            assert(sec.contains(sec[j]));
        }
    }
    lemma_push_keeps_first(sec, 0x2eu8, 0x30u8);
    let tail = after(sec, 0x2eu8);
    assert(after(sec0, 0x2eu8) =~= tail.push(0x30));
    let frac = before(tail, 0x2eu8);
    lemma_first_index_bounds(tail, 0x2eu8);
    if tail.contains(0x2eu8) {
        lemma_push_keeps_first(tail, 0x2eu8, 0x30u8);
    } else {
        let tail0 = tail.push(0x30);
        assert forall|j: int| 0 <= j < tail0.len() implies tail0[j] != 0x2eu8 by {
            if j < tail.len() {
                assert(tail.contains(tail[j]));
            }
        }
        lemma_first_index(tail0, 0x2eu8, tail0.len() as int);
        assert(frac =~= tail);
        assert(before(tail0, 0x2eu8) =~= frac.push(0x30));
        lemma_zero_behind_fraction(frac);
    }
}

/// A byte that is appended stands behind the first `x` where there is one.
proof fn lemma_push_keeps_first(s: Seq<u8>, x: u8, y: u8)
    requires
        s.contains(x),
    ensures
        s.push(y).contains(x),
        before(s.push(y), x) == before(s, x),
        after(s.push(y), x) == after(s, x).push(y),
{
    let t = s.push(y);
    lemma_first_index_bounds(s, x);
    let k = first_index(s, x);
    assert(t[k] == x);
    lemma_first_index(t, x, k);
    assert(before(t, x) =~= before(s, x));
    assert(after(t, x) =~= after(s, x).push(y));
}

proof fn lemma_zero_behind_fraction(frac: Seq<u8>)
    requires
        fraction_ms(frac) is Some,
    ensures
        fraction_ms(frac.push(0x30)) == fraction_ms(frac),
{
    let f0 = frac.push(0x30);
    if frac.len() >= 3 {
        assert(frac.len() == 3 ==> f0.take(3) =~= frac);
        assert(frac.len() > 3 ==> f0.take(3) =~= frac.take(3));
    } else {
        let d = unsigned_digits(frac);
        let d0 = unsigned_digits(f0);
        assert(d0 =~= d.push(0x30));
        assert(d0.drop_last() =~= d);
        assert(digits_value(d0) == digits_value(d) * 10);
        assert forall|i: int| 0 <= i < d0.len() implies is_digit(#[trigger] d0[i]) by {
            if i < d.len() {
                assert(is_digit(d[i]));
            }
        }
        crate::lyrics::lemma_short_value(frac);
    }
}

} // verus!
