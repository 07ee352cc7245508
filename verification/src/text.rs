//! Characters, bytes and decimal numbers.

use vstd::prelude::*;
use vstd::utf8::{encode_utf8, is_ascii_chars, is_ascii_chars_encode_utf8};

verus! {

/// Trusted: `String::push` of std appends the character to the end of the
/// string and changes nothing before it.
pub assume_specification[ String::push ](s: &mut String, ch: char)
    ensures
        final(s)@ == old(s)@.push(ch),
;

/// The first place at which `x` stands in `s`, or the length of `s`.
pub open spec fn first_index<A>(s: Seq<A>, x: A) -> int
    decreases s.len(),
{
    if s.len() == 0 || s[0] == x {
        0
    } else {
        1 + first_index(s.drop_first(), x)
    }
}

/// What stands in `s` before the first `x`: all of `s` where there is none.
pub open spec fn before<A>(s: Seq<A>, x: A) -> Seq<A> {
    s.take(first_index(s, x))
}

/// What stands in `s` behind the first `x`: nothing where there is none.
pub open spec fn after<A>(s: Seq<A>, x: A) -> Seq<A> {
    if first_index(s, x) < s.len() {
        s.skip(first_index(s, x) + 1)
    } else {
        Seq::empty()
    }
}

/// `first_index` is the only place with these properties.
pub proof fn lemma_first_index<A>(s: Seq<A>, x: A, k: int)
    requires
        0 <= k <= s.len(),
        forall|j: int| 0 <= j < k ==> s[j] != x,
        k < s.len() ==> s[k] == x,
    ensures
        first_index(s, x) == k,
    decreases k,
{
    if k > 0 {
        let t = s.drop_first();
        assert forall|j: int| 0 <= j < k - 1 implies t[j] != x by {
            assert(t[j] == s[j + 1]);
        }
        lemma_first_index(t, x, k - 1);
    }
}

/// `first_index` finds `x` where `s` holds it, and nothing equal stands before.
pub proof fn lemma_first_index_bounds<A>(s: Seq<A>, x: A)
    ensures
        0 <= first_index(s, x) <= s.len(),
        forall|j: int| 0 <= j < first_index(s, x) ==> s[j] != x,
        first_index(s, x) < s.len() ==> s[first_index(s, x)] == x,
        first_index(s, x) < s.len() <==> s.contains(x),
    decreases s.len(),
{
    if s.len() > 0 && s[0] != x {
        let t = s.drop_first();
        lemma_first_index_bounds(t, x);
        let k = first_index(s, x);
        assert forall|j: int| 0 <= j < k implies s[j] != x by {
            if j > 0 {
                assert(s[j] == t[j - 1]);
            }
        }
        if k < s.len() {
            assert(s[k] == t[k - 1]);
        }
        if s.contains(x) {
            let j = s.index_of(x);
            assert(t[j - 1] == x);
        }
    }
}

/// Where the first `x` stands in `s`, or the length of `s`.
pub fn find_char(s: &[char], x: char) -> (k: usize)
    ensures
        k == first_index(s@, x),
        k <= s.len(),
{
    let mut k: usize = 0;
    while k < s.len() && s[k] != x
        invariant
            k <= s.len(),
            forall|j: int| 0 <= j < k ==> s@[j] != x,
        decreases s.len() - k,
    {
        k = k + 1;
    }
    proof {
        lemma_first_index(s@, x, k as int);
    }
    k
}

/// Where the first `x` stands in `s`, or the length of `s`.
pub fn find_byte(s: &[u8], x: u8) -> (k: usize)
    ensures
        k == first_index(s@, x),
        k <= s.len(),
{
    let mut k: usize = 0;
    while k < s.len() && s[k] != x
        invariant
            k <= s.len(),
            forall|j: int| 0 <= j < k ==> s@[j] != x,
        decreases s.len() - k,
    {
        k = k + 1;
    }
    proof {
        lemma_first_index(s@, x, k as int);
    }
    k
}

/// The characters of the Unicode property White_Space.
pub open spec fn is_white_space(c: char) -> bool {
    let u = c as u32;
    ||| 0x09 <= u <= 0x0d
    ||| u == 0x20
    ||| u == 0x85
    ||| u == 0xa0
    ||| u == 0x1680
    ||| 0x2000 <= u <= 0x200a
    ||| u == 0x2028
    ||| u == 0x2029
    ||| u == 0x202f
    ||| u == 0x205f
    ||| u == 0x3000
}

/// Whether `c` has the Unicode property White_Space.
pub fn white_space(c: char) -> (r: bool)
    ensures
        r == is_white_space(c),
{
    let u: u32 = c as u32;
    (0x09 <= u && u <= 0x0d) || u == 0x20 || u == 0x85 || u == 0xa0 || u == 0x1680 || (0x2000 <= u
        && u <= 0x200a) || u == 0x2028 || u == 0x2029 || u == 0x202f || u == 0x205f || u == 0x3000
}

/// `s` without the white space at its start.
pub open spec fn trim_start(s: Seq<char>) -> Seq<char>
    decreases s.len(),
{
    if s.len() > 0 && is_white_space(s[0]) {
        trim_start(s.drop_first())
    } else {
        s
    }
}

/// `s` without the white space at its end.
pub open spec fn trim_end(s: Seq<char>) -> Seq<char>
    decreases s.len(),
{
    if s.len() > 0 && is_white_space(s.last()) {
        trim_end(s.drop_last())
    } else {
        s
    }
}

/// `s` without the white space at either end.
pub open spec fn trimmed(s: Seq<char>) -> Seq<char> {
    trim_end(trim_start(s))
}

/// `s` without the white space at either end.
pub fn trim(s: &[char]) -> (r: &[char])
    ensures
        r@ == trimmed(s@),
{
    let n: usize = s.len();
    let mut i: usize = 0;
    assert(s@.skip(0) =~= s@);
    while i < n && white_space(s[i])
        invariant
            n == s@.len(),
            i <= n,
            trim_start(s@) == trim_start(s@.skip(i as int)),
        decreases n - i,
    {
        assert(s@.skip(i as int).drop_first() =~= s@.skip(i + 1));
        i = i + 1;
    }
    assert(trim_start(s@) == s@.skip(i as int));
    let mut k: usize = n;
    assert(s@.subrange(i as int, n as int) =~= s@.skip(i as int));
    while i < k && white_space(s[k - 1])
        invariant
            n == s@.len(),
            i <= k <= n,
            trimmed(s@) == trim_end(s@.subrange(i as int, k as int)),
        decreases k,
    {
        assert(s@.subrange(i as int, k as int).drop_last() =~= s@.subrange(i as int, k - 1));
        k = k - 1;
    }
    vstd::slice::slice_subrange(s, i, k)
}

/// The string of the characters of `s`.
pub fn string_of(s: &[char]) -> (r: String)
    ensures
        r@ == s@,
{
    let mut r: String = String::new();
    let mut i: usize = 0;
    while i < s.len()
        invariant
            i <= s.len(),
            r@ == s@.take(i as int),
        decreases s.len() - i,
    {
        r.push(s[i]);
        i = i + 1;
        assert(s@.take(i as int) =~= s@.take(i - 1).push(s@[i - 1]));
    }
    assert(s@.take(i as int) =~= s@);
    r
}

/// The characters of `s`.
pub fn chars_of(s: &str) -> (r: Vec<char>)
    ensures
        r@ == s@,
{
    let mut r: Vec<char> = Vec::new();
    for c in it: s.chars()
        invariant
            r@ == it.seq().take(it.index()),
            it.seq() == s@,
    {
        r.push(c);
    }
    r
}

/// Whether `b` is an ASCII digit.
pub open spec fn is_digit(b: u8) -> bool {
    0x30 <= b <= 0x39
}

/// The number that the digits `d` write in base ten.
pub open spec fn digits_value(d: Seq<u8>) -> nat
    decreases d.len(),
{
    if d.len() == 0 {
        0
    } else {
        digits_value(d.drop_last()) * 10 + (d.last() - 0x30) as nat
    }
}

/// The digits of a decimal number: what follows a leading `+`.
pub open spec fn unsigned_digits(b: Seq<u8>) -> Seq<u8> {
    if b.len() > 0 && b[0] == 0x2b {
        b.drop_first()
    } else {
        b
    }
}

/// The number that `b` writes: an optional `+`, then digits and at least one,
/// for a number below 2^64. `None` where `b` is anything else.
pub open spec fn unsigned_value(b: Seq<u8>) -> Option<nat> {
    let d = unsigned_digits(b);
    if d.len() > 0 && (forall|i: int| 0 <= i < d.len() ==> is_digit(#[trigger] d[i]))
        && digits_value(d) <= u64::MAX {
        Some(digits_value(d))
    } else {
        None
    }
}

proof fn lemma_digits_value_prefix(d: Seq<u8>, k: int)
    requires
        0 <= k <= d.len(),
        forall|i: int| 0 <= i < d.len() ==> is_digit(#[trigger] d[i]),
    ensures
        digits_value(d.take(k)) <= digits_value(d),
    decreases d.len(),
{
    if k < d.len() {
        let t = d.drop_last();
        assert(t.take(k) =~= d.take(k));
        lemma_digits_value_prefix(t, k);
    } else {
        assert(d.take(k) =~= d);
    }
}

/// Reads a decimal number below 2^64.
pub fn parse_unsigned(b: &[u8]) -> (r: Option<u64>)
    ensures
        match r {
            Some(v) => unsigned_value(b@) == Some(v as nat),
            None => unsigned_value(b@) is None,
        },
{
    let from: usize = if b.len() > 0 && b[0] == 0x2b {
        1
    } else {
        0
    };
    let d: &[u8] = vstd::slice::slice_subrange(b, from, b.len());
    assert(d@ =~= unsigned_digits(b@));
    if d.len() == 0 {
        return None;
    }
    let mut v: u64 = 0;
    let mut i: usize = 0;
    while i < d.len()
        invariant
            d@ == unsigned_digits(b@),
            i <= d.len(),
            forall|j: int| 0 <= j < i ==> is_digit(#[trigger] d@[j]),
            v == digits_value(d@.take(i as int)),
        decreases d.len() - i,
    {
        let c: u8 = d[i];
        if c < 0x30 || c > 0x39 {
            assert(!is_digit(d@[i as int]));
            return None;
        }
        let digit: u64 = (c - 0x30) as u64;
        let ghost next = d@.take(i + 1);
        assert(next.drop_last() =~= d@.take(i as int));
        assert(digits_value(next) == v * 10 + digit);
        if v > (u64::MAX - digit) / 10 {
            proof {
                if forall|j: int| 0 <= j < d@.len() ==> is_digit(#[trigger] d@[j]) {
                    lemma_digits_value_prefix(d@, i + 1);
                }
            }
            return None;
        }
        v = v * 10 + digit;
        i = i + 1;
    }
    assert(d@.take(i as int) =~= d@);
    Some(v)
}

/// The character of a digit below ten.
pub open spec fn digit_char(d: nat) -> char {
    (0x30 + d) as u8 as char
}

/// `n` in base ten, without leading zeros.
pub open spec fn decimal_digits(n: nat) -> Seq<char>
    decreases n,
{
    if n < 10 {
        seq![digit_char(n)]
    } else {
        decimal_digits(n / 10).push(digit_char(n % 10))
    }
}

/// Appends `n` in base ten to `out`.
fn push_decimal(out: &mut String, n: u64)
    ensures
        final(out)@ == old(out)@ + decimal_digits(n as nat),
    decreases n,
{
    if n >= 10 {
        push_decimal(out, n / 10);
    }
    out.push((0x30u8 + (n % 10) as u8) as char);
    assert(out@ =~= old(out)@ + decimal_digits(n as nat));
}

/// `n` in base ten.
pub fn decimal(n: u64) -> (r: String)
    ensures
        r@ == decimal_digits(n as nat),
{
    let mut r: String = String::new();
    push_decimal(&mut r, n);
    assert(r@ =~= decimal_digits(n as nat));
    r
}

/// What is left between the ends begins and ends with something else than
/// white space.
pub proof fn law_trimmed_ends(s: Seq<char>)
    ensures
        trimmed(s).len() > 0 ==> !is_white_space(trimmed(s)[0]) && !is_white_space(
            trimmed(s).last(),
        ),
{
    lemma_trim_start_first(s);
    lemma_trim_end_prefix(trim_start(s));
}

proof fn lemma_trim_start_first(s: Seq<char>)
    ensures
        trim_start(s).len() > 0 ==> !is_white_space(trim_start(s)[0]),
    decreases s.len(),
{
    if s.len() > 0 && is_white_space(s[0]) {
        lemma_trim_start_first(s.drop_first());
    }
}

proof fn lemma_trim_end_prefix(s: Seq<char>)
    ensures
        trim_end(s).len() <= s.len(),
        trim_end(s).len() > 0 ==> trim_end(s)[0] == s[0] && !is_white_space(trim_end(s).last()),
    decreases s.len(),
{
    if s.len() > 0 && is_white_space(s.last()) {
        lemma_trim_end_prefix(s.drop_last());
    }
}

/// Trimming brings in no character.
pub proof fn lemma_trimmed_within(s: Seq<char>, c: char)
    ensures
        trimmed(s).contains(c) ==> s.contains(c),
{
    lemma_trim_start_within(s, c);
    lemma_trim_end_within(trim_start(s), c);
}

proof fn lemma_trim_start_within(s: Seq<char>, c: char)
    ensures
        trim_start(s).contains(c) ==> s.contains(c),
    decreases s.len(),
{
    if s.len() > 0 && is_white_space(s[0]) {
        let t = s.drop_first();
        lemma_trim_start_within(t, c);
        if t.contains(c) {
            assert(s[t.index_of(c) + 1] == c);
        }
    }
}

proof fn lemma_trim_end_within(s: Seq<char>, c: char)
    ensures
        trim_end(s).contains(c) ==> s.contains(c),
    decreases s.len(),
{
    if s.len() > 0 && is_white_space(s.last()) {
        let t = s.drop_last();
        lemma_trim_end_within(t, c);
        if t.contains(c) {
            assert(s[t.index_of(c)] == c);
        }
    }
}

/// All of `s` is white space.
pub open spec fn is_blank(s: Seq<char>) -> bool {
    forall|i: int| 0 <= i < s.len() ==> is_white_space(#[trigger] s[i])
}

/// Blanks before and behind a text are of no account.
pub proof fn law_blanks_around_are_dropped(lead: Seq<char>, s: Seq<char>, trail: Seq<char>)
    requires
        is_blank(lead),
        is_blank(trail),
    ensures
        trimmed(lead + s + trail) == trimmed(s),
    decreases lead.len() + trail.len(),
{
    let all = lead + s + trail;
    if lead.len() > 0 {
        assert(is_white_space(lead[0]));
        let rest = lead.drop_first();
        assert(all.drop_first() =~= rest + s + trail);
        assert forall|i: int| 0 <= i < rest.len() implies is_white_space(#[trigger] rest[i]) by {
            assert(rest[i] == lead[i + 1]);
        }
        law_blanks_around_are_dropped(rest, s, trail);
    } else if trail.len() > 0 {
        assert(is_white_space(trail.last()));
        let rest = trail.drop_last();
        assert(all =~= (lead + s + rest).push(trail.last()));
        assert forall|i: int| 0 <= i < rest.len() implies is_white_space(#[trigger] rest[i]) by {
            assert(rest[i] == trail[i]);
        }
        law_trailing_space_is_dropped(lead + s + rest, trail.last());
        law_blanks_around_are_dropped(lead, s, rest);
    } else {
        assert(all =~= s);
    }
}

/// A text that begins and ends with something else than white space is left as
/// it is.
pub proof fn lemma_trimmed_whole(s: Seq<char>)
    requires
        s.len() > 0,
        !is_white_space(s[0]),
        !is_white_space(s.last()),
    ensures
        trimmed(s) == s,
{
}

/// White space at the end of a text is of no account.
pub proof fn law_trailing_space_is_dropped(s: Seq<char>, c: char)
    requires
        is_white_space(c),
    ensures
        trimmed(s.push(c)) == trimmed(s),
    decreases s.len(),
{
    let t = s.push(c);
    if s.len() == 0 {
        assert(t.drop_first() =~= s);
    } else if is_white_space(s[0]) {
        assert(t.drop_first() =~= s.drop_first().push(c));
        law_trailing_space_is_dropped(s.drop_first(), c);
    } else {
        assert(t.drop_last() =~= s);
    }
}

proof fn lemma_decimal_digits(n: nat)
    ensures
        decimal_digits(n).len() > 0,
        forall|i: int|
            0 <= i < decimal_digits(n).len() ==> '0' <= #[trigger] decimal_digits(n)[i] <= '9',
        digits_value(Seq::new(decimal_digits(n).len(), |i: int| decimal_digits(n)[i] as u8)) == n,
    decreases n,
{
    let d = decimal_digits(n);
    let b = Seq::new(d.len(), |i: int| d[i] as u8);
    if n < 10 {
        assert(b.drop_last() =~= Seq::empty());
        assert(digits_value(b.drop_last()) == 0);
    } else {
        lemma_decimal_digits(n / 10);
        let p = decimal_digits(n / 10);
        assert(b.drop_last() =~= Seq::new(p.len(), |i: int| p[i] as u8));
    }
}

/// Characters of which each is an ASCII one are encoded byte by byte.
pub proof fn lemma_ascii_bytes(s: Seq<char>)
    requires
        forall|i: int| 0 <= i < s.len() ==> '\0' <= #[trigger] s[i] <= '\u{7f}',
    ensures
        encode_utf8(s) == Seq::new(s.len(), |i: int| s[i] as u8),
{
    assert(is_ascii_chars(s));
    is_ascii_chars_encode_utf8(s);
    assert(encode_utf8(s) =~= Seq::new(s.len(), |i: int| s[i] as u8));
}

/// The bytes of a number that is written in base ten are digits, and read back
/// as the number.
pub proof fn lemma_decimal_bytes(n: u64)
    ensures
        decimal_digits(n as nat).len() > 0,
        forall|i: int|
            0 <= i < decimal_digits(n as nat).len() ==> '0' <= #[trigger] decimal_digits(
                n as nat,
            )[i] <= '9',
        unsigned_value(
            Seq::new(decimal_digits(n as nat).len(), |i: int| decimal_digits(n as nat)[i] as u8),
        ) == Some(n as nat),
{
    lemma_decimal_digits(n as nat);
}

/// A number that is written in base ten reads back as itself.
pub proof fn law_decimal_reads_back(n: u64)
    ensures
        unsigned_value(encode_utf8(decimal_digits(n as nat))) == Some(n as nat),
{
    lemma_decimal_bytes(n);
    lemma_ascii_bytes(decimal_digits(n as nat));
}

/// A sequence that holds `x` is what stands before the first `x`, that `x`, and
/// what stands behind it; nothing before it is an `x`. One that holds none stands
/// before it whole.
pub proof fn law_cut_at_the_first<A>(s: Seq<A>, x: A)
    ensures
        !before(s, x).contains(x),
        s.contains(x) ==> s == before(s, x) + seq![x] + after(s, x),
        !s.contains(x) ==> before(s, x) == s && after(s, x).len() == 0,
{
    lemma_first_index_bounds(s, x);
    if s.contains(x) {
        assert(s =~= before(s, x) + seq![x] + after(s, x));
    } else {
        assert(before(s, x) =~= s);
    }
}

/// Two parts of which the first holds no `x`, with an `x` between them, are what
/// stands before and behind the first `x`.
pub proof fn lemma_joined_parts<A>(left: Seq<A>, x: A, right: Seq<A>)
    requires
        !left.contains(x),
    ensures
        (left + seq![x] + right).contains(x),
        before(left + seq![x] + right, x) == left,
        after(left + seq![x] + right, x) == right,
{
    let all = left + seq![x] + right;
    let n = left.len() as int;
    assert(all[n] == x);
    assert forall|j: int| 0 <= j < n implies all[j] != x by {
        assert(all[j] == left[j]);
        assert(left.contains(left[j]));
    }
    lemma_first_index(all, x, n);
    assert(before(all, x) =~= left);
    assert(after(all, x) =~= right);
}

/// A character is white space when it is a tab, a line feed, a vertical tab, a
/// form feed, a carriage return, a space or one of the nineteen others of the
/// property.
pub proof fn law_white_space_characters(c: char)
    ensures
        is_white_space(c) <==> seq![
            '\t',
            '\n',
            '\u{b}',
            '\u{c}',
            '\r',
            ' ',
            '\u{85}',
            '\u{a0}',
            '\u{1680}',
            '\u{2000}',
            '\u{2001}',
            '\u{2002}',
            '\u{2003}',
            '\u{2004}',
            '\u{2005}',
            '\u{2006}',
            '\u{2007}',
            '\u{2008}',
            '\u{2009}',
            '\u{200a}',
            '\u{2028}',
            '\u{2029}',
            '\u{202f}',
            '\u{205f}',
            '\u{3000}',
        ].contains(c),
{
    let all = seq![
        '\t',
        '\n',
        '\u{b}',
        '\u{c}',
        '\r',
        ' ',
        '\u{85}',
        '\u{a0}',
        '\u{1680}',
        '\u{2000}',
        '\u{2001}',
        '\u{2002}',
        '\u{2003}',
        '\u{2004}',
        '\u{2005}',
        '\u{2006}',
        '\u{2007}',
        '\u{2008}',
        '\u{2009}',
        '\u{200a}',
        '\u{2028}',
        '\u{2029}',
        '\u{202f}',
        '\u{205f}',
        '\u{3000}',
    ];
    assert(all.len() == 25);
    if is_white_space(c) {
        let u = c as u32;
        let k: int = if u <= 0x0d {
            u - 0x09
        } else if u == 0x20 {
            5
        } else if u == 0x85 {
            6
        } else if u == 0xa0 {
            7
        } else if u == 0x1680 {
            8
        } else if u <= 0x200a {
            9 + (u - 0x2000)
        } else if u == 0x2028 {
            20
        } else if u == 0x2029 {
            21
        } else if u == 0x202f {
            22
        } else if u == 0x205f {
            23
        } else {
            24
        };
        assert(all[k] == c);
    }
}

/// A text is what is left of it between the ends, with white space before and
/// behind.
pub proof fn law_trimmed_is_the_middle(s: Seq<char>)
    ensures
        exists|lead: Seq<char>, trail: Seq<char>|
            #![trigger is_blank(lead), is_blank(trail)]
            is_blank(lead) && is_blank(trail) && s == lead + trimmed(s) + trail,
{
    let lead = lemma_trim_start_rest(s);
    let trail = lemma_trim_end_rest(trim_start(s));
    assert(s =~= lead + trimmed(s) + trail);
    assert(is_blank(lead) && is_blank(trail));
}

proof fn lemma_trim_start_rest(s: Seq<char>) -> (lead: Seq<char>)
    ensures
        is_blank(lead),
        s == lead + trim_start(s),
    decreases s.len(),
{
    if s.len() > 0 && is_white_space(s[0]) {
        let rest = lemma_trim_start_rest(s.drop_first());
        let lead = seq![s[0]] + rest;
        assert(s =~= seq![s[0]] + (rest + trim_start(s))) by {
            assert(s =~= seq![s[0]] + s.drop_first());
        }
        assert(s =~= lead + trim_start(s));
        lead
    } else {
        assert(s =~= Seq::<char>::empty() + s);
        Seq::empty()
    }
}

proof fn lemma_trim_end_rest(s: Seq<char>) -> (trail: Seq<char>)
    ensures
        is_blank(trail),
        s == trim_end(s) + trail,
    decreases s.len(),
{
    if s.len() > 0 && is_white_space(s.last()) {
        let rest = lemma_trim_end_rest(s.drop_last());
        let trail = rest.push(s.last());
        assert(s =~= (trim_end(s) + rest).push(s.last())) by {
            assert(s =~= s.drop_last().push(s.last()));
        }
        assert(s =~= trim_end(s) + trail);
        trail
    } else {
        assert(s =~= s + Seq::<char>::empty());
        Seq::empty()
    }
}

/// All of `d` are digits.
pub open spec fn all_digits(d: Seq<u8>) -> bool {
    forall|i: int| 0 <= i < d.len() ==> 0x30 <= #[trigger] d[i] <= 0x39
}

/// A digit behind a number multiplies it by ten and adds itself; no digits are
/// zero.
pub proof fn law_digits_count_in_tens(d: Seq<u8>, digit: u8)
    requires
        0x30 <= digit <= 0x39,
    ensures
        digits_value(Seq::empty()) == 0,
        digits_value(d.push(digit)) == digits_value(d) * 10 + (digit - 0x30),
{
    assert(d.push(digit).drop_last() =~= d);
}

/// A zero before a number does not change it.
pub proof fn law_leading_zero_changes_no_number(d: Seq<u8>)
    ensures
        digits_value(seq![0x30u8] + d) == digits_value(d),
    decreases d.len(),
{
    let z = seq![0x30u8] + d;
    if d.len() == 0 {
        assert(z.drop_last() =~= d);
    } else {
        assert(z.drop_last() =~= seq![0x30u8] + d.drop_last());
        law_leading_zero_changes_no_number(d.drop_last());
    }
}

/// Digits, at least one, are read as the number that they write where it is below
/// 2^64, with or without a plus before them; nothing else is read.
pub proof fn law_digits_are_read(b: Seq<u8>)
    ensures
        all_digits(b) && b.len() > 0 ==> unsigned_value(b) == (if digits_value(b) <= u64::MAX {
            Some(digits_value(b))
        } else {
            None
        }),
        all_digits(b) && b.len() > 0 ==> unsigned_value(seq![0x2bu8] + b) == unsigned_value(b),
        b.len() == 0 ==> unsigned_value(b) is None,
        b.len() > 0 && b[0] != 0x2b && !all_digits(b) ==> unsigned_value(b) is None,
        b.len() > 0 && b[0] == 0x2b && (b.len() == 1 || !all_digits(b.drop_first()))
            ==> unsigned_value(b) is None,
{
    let plus = seq![0x2bu8] + b;
    assert(plus.drop_first() =~= b);
    if all_digits(b) && b.len() > 0 {
        assert(b[0] != 0x2b);
        assert forall|i: int| 0 <= i < b.len() implies is_digit(#[trigger] b[i]) by {}
    }
    let d = unsigned_digits(b);
    if unsigned_value(b) is Some {
        assert forall|i: int| 0 <= i < d.len() implies 0x30 <= #[trigger] d[i] <= 0x39 by {
            assert(is_digit(d[i]));
        }
    }
}

/// A zero before the digits of a number does not change what is read.
pub proof fn law_leading_zero_is_read_over(b: Seq<u8>)
    requires
        all_digits(b),
        b.len() > 0,
    ensures
        unsigned_value(seq![0x30u8] + b) == unsigned_value(b),
{
    let z = seq![0x30u8] + b;
    assert forall|i: int| 0 <= i < z.len() implies 0x30 <= #[trigger] z[i] <= 0x39 by {
        if i > 0 {
            assert(z[i] == b[i - 1]);
        }
    }
    law_digits_are_read(b);
    law_digits_are_read(z);
    law_leading_zero_changes_no_number(b);
}

/// A number is written without a leading zero, but for zero itself, which is one
/// digit.
pub proof fn law_decimal_has_no_leading_zero(n: nat)
    ensures
        decimal_digits(n).len() > 0,
        n > 0 ==> decimal_digits(n)[0] != '0',
        n == 0 ==> decimal_digits(n) == seq!['0'],
    decreases n,
{
    if n >= 10 {
        law_decimal_has_no_leading_zero(n / 10);
    }
}

} // verus!
