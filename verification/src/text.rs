//! Text helpers shared by the panes: decimal numbers, truncation with an
//! ellipsis, and the duration formats shown in the track table and the stats.

use vstd::prelude::*;

verus! {

/// The decimal digits of `n`, most significant first, without leading zeros
/// ("0" for zero).
pub open spec fn decimal(n: nat) -> Seq<char>
    decreases n,
{
    if n < 10 {
        seq![digit_char(n)]
    } else {
        decimal(n / 10).push(digit_char(n % 10))
    }
}

/// The ASCII digit for `d` (expected `d < 10`).
pub open spec fn digit_char(d: nat) -> char {
    ((48 + d) as u8) as char
}

/// `decimal(n)` left-padded with zeros to at least `width` characters.
pub open spec fn zero_padded(n: nat, width: nat) -> Seq<char> {
    let d = decimal(n);
    if d.len() >= width {
        d
    } else {
        Seq::new((width - d.len()) as nat, |i: int| '0') + d
    }
}

/// Appends `c` to `s` (std's `String::push`).
#[verifier::external_body]
pub(crate) fn string_push(s: &mut String, c: char)
    ensures
        final(s)@ == old(s)@.push(c),
{
    s.push(c);
}

fn digit(d: u64) -> (c: char)
    requires
        d < 10,
    ensures
        c == digit_char(d as nat),
{
    let b: u8 = 48u8 + (d as u8);
    b as char
}

/// Appends the decimal digits of `n` to `out`.
pub fn push_decimal(out: &mut String, n: u64)
    ensures
        final(out)@ == old(out)@ + decimal(n as nat),
    decreases n,
{
    if n < 10 {
        string_push(out, digit(n));
        assert(decimal(n as nat) =~= seq![digit_char(n as nat)]);
    } else {
        push_decimal(out, n / 10);
        string_push(out, digit(n % 10));
        assert(decimal(n as nat) == decimal((n / 10) as nat).push(digit_char((n % 10) as nat)));
    }
}

/// The decimal representation of `n` as a new string.
pub fn decimal_string(n: u64) -> (s: String)
    ensures
        s@ == decimal(n as nat),
{
    let mut s = String::new();
    push_decimal(&mut s, n);
    assert(s@ =~= decimal(n as nat));
    s
}

proof fn lemma_decimal_len_one(n: nat)
    requires
        n < 10,
    ensures
        decimal(n).len() == 1,
{
}

proof fn lemma_decimal_len_two(n: nat)
    requires
        10 <= n < 100,
    ensures
        decimal(n).len() == 2,
{
    assert(decimal(n / 10).len() == 1);
}

/// Appends `n` (below 100) as exactly two digits.
fn push_two_digits(out: &mut String, n: u64)
    requires
        n < 100,
    ensures
        final(out)@ == old(out)@ + zero_padded(n as nat, 2),
{
    if n < 10 {
        proof { lemma_decimal_len_one(n as nat); }
        string_push(out, '0');
        push_decimal(out, n);
        assert(zero_padded(n as nat, 2) =~= seq!['0'] + decimal(n as nat));
    } else {
        proof { lemma_decimal_len_two(n as nat); }
        push_decimal(out, n);
    }
}

/// What a track-length cell shows for `ms` milliseconds: whole minutes, a
/// colon, and the remaining whole seconds on two digits ("3:07").
pub open spec fn clock_text(ms: nat) -> Seq<char> {
    let s = ms / 1000;
    decimal(s / 60) + seq![':'] + zero_padded(s % 60, 2)
}

/// Formats a duration in milliseconds as `m:ss`.
pub fn fmt_ms(ms: u32) -> (s: String)
    ensures
        s@ == clock_text(ms as nat),
{
    let secs: u64 = (ms / 1000) as u64;
    let mut out = String::new();
    push_decimal(&mut out, secs / 60);
    string_push(&mut out, ':');
    push_two_digits(&mut out, secs % 60);
    assert(out@ =~= clock_text(ms as nat));
    out
}

/// Formats a duration of `ms` milliseconds (any length) as `m:ss`.
pub fn format_clock(ms: u64) -> (s: String)
    ensures
        s@ == clock_text(ms as nat),
{
    let secs: u64 = ms / 1000;
    let mut out = String::new();
    push_decimal(&mut out, secs / 60);
    string_push(&mut out, ':');
    push_two_digits(&mut out, secs % 60);
    assert(out@ =~= clock_text(ms as nat));
    out
}

/// `n` blanks.
pub open spec fn spaces(n: nat) -> Seq<char> {
    Seq::new(n, |i: int| ' ')
}

/// `s` preceded by blanks up to `width` characters (unchanged when at
/// least that long), as `{:>width}` writes it.
pub open spec fn padded_left(s: Seq<char>, width: nat) -> Seq<char> {
    if s.len() >= width { s } else { spaces((width - s.len()) as nat) + s }
}

/// `s` followed by blanks up to `width` characters (unchanged when at least
/// that long), as `{:<width}` writes it.
pub open spec fn padded_right(s: Seq<char>, width: nat) -> Seq<char> {
    if s.len() >= width { s } else { s + spaces((width - s.len()) as nat) }
}

fn push_spaces(out: &mut String, n: usize)
    ensures
        final(out)@ == old(out)@ + spaces(n as nat),
{
    let mut i: usize = 0;
    while i < n
        invariant
            i <= n,
            out@ == old(out)@ + spaces(i as nat),
        decreases n - i,
    {
        string_push(out, ' ');
        i = i + 1;
        assert(out@ =~= old(out)@ + spaces(i as nat));
    }
}

/// `n` in decimal, right-aligned in `width` characters.
pub fn right_aligned(n: u64, width: usize) -> (s: String)
    ensures
        s@ == padded_left(decimal(n as nat), width as nat),
{
    let digits = decimal_string(n);
    let len = digits.as_str().unicode_len();
    let mut out = String::new();
    if len < width {
        push_spaces(&mut out, width - len);
    }
    out.append(digits.as_str());
    assert(out@ =~= padded_left(decimal(n as nat), width as nat));
    out
}

/// `text` left-aligned in `width` characters.
pub fn left_aligned(text: &str, width: usize) -> (s: String)
    ensures
        s@ == padded_right(text@, width as nat),
{
    let len = text.unicode_len();
    let mut out = text.to_owned();
    if len < width {
        push_spaces(&mut out, width - len);
    }
    assert(out@ =~= padded_right(text@, width as nat));
    out
}

/// What the listening-time line shows for `ms` milliseconds: whole days,
/// then the hours and minutes left over ("2d 5h 13m").
pub open spec fn days_hours_minutes_text(ms: nat) -> Seq<char> {
    let s = ms / 1000;
    decimal(s / 86400) + seq!['d', ' '] + decimal((s % 86400) / 3600) + seq!['h', ' ']
        + decimal((s % 3600) / 60) + seq!['m']
}

/// Formats a total duration in milliseconds as `{days}d {hours}h {minutes}m`.
pub fn format_duration(ms: u64) -> (s: String)
    ensures
        s@ == days_hours_minutes_text(ms as nat),
{
    let secs = ms / 1000;
    let mut out = String::new();
    push_decimal(&mut out, secs / 86400);
    string_push(&mut out, 'd');
    string_push(&mut out, ' ');
    push_decimal(&mut out, (secs % 86400) / 3600);
    string_push(&mut out, 'h');
    string_push(&mut out, ' ');
    push_decimal(&mut out, (secs % 3600) / 60);
    string_push(&mut out, 'm');
    assert(out@ =~= days_hours_minutes_text(ms as nat));
    out
}

/// `s` cut to at most `max` characters: unchanged when it fits, otherwise its
/// first `max - 1` characters followed by an ellipsis; empty when `max` is 0.
pub open spec fn truncated(s: Seq<char>, max: nat) -> Seq<char> {
    if max == 0 {
        Seq::empty()
    } else if s.len() <= max {
        s
    } else {
        s.take(max - 1).push('…')
    }
}

/// Truncates `s` to at most `max` characters, marking a cut with `…`.
pub fn trunc(s: &str, max: usize) -> (r: String)
    ensures
        r@ == truncated(s@, max as nat),
        r@.len() <= max,
{
    if max == 0 {
        return String::new();
    }
    let n = s.unicode_len();
    if n <= max {
        return s.to_owned();
    }
    let head = s.substring_char(0, max - 1);
    let mut r = head.to_owned();
    string_push(&mut r, '…');
    assert(r@ =~= truncated(s@, max as nat));
    r
}

/// `s` without its last character (unchanged when empty), as a backspace
/// leaves a typed filter.
pub fn without_last_char(s: &str) -> (r: String)
    ensures
        r@ == if s@.len() > 0 { s@.drop_last() } else { s@ },
{
    let n = s.unicode_len();
    if n == 0 {
        return s.to_owned();
    }
    let head = s.substring_char(0, n - 1);
    let r = head.to_owned();
    assert(r@ =~= s@.drop_last());
    r
}

} // verus!

verus! {

/// Whether `needle` occurs as a contiguous run of characters in `hay`
/// (the empty text occurs everywhere).
pub open spec fn contains_text(hay: Seq<char>, needle: Seq<char>) -> bool {
    exists|i: int|
        0 <= i && i + needle.len() <= hay.len() && #[trigger] hay.subrange(i, i + needle.len())
            == needle
}

/// Whether `needle` occurs in `hay`.
pub fn text_contains(hay: &str, needle: &str) -> (r: bool)
    ensures
        r == contains_text(hay@, needle@),
{
    let h = hay.unicode_len();
    let n = needle.unicode_len();
    if n > h {
        assert forall|i: int| 0 <= i && i + needle@.len() <= hay@.len() implies #[trigger] hay@.subrange(i, i + needle@.len()) != needle@ by {}
        return false;
    }
    let mut i: usize = 0;
    while i <= h - n
        invariant
            h == hay@.len(),
            n == needle@.len(),
            n <= h,
            i <= h - n + 1,
            forall|k: int| 0 <= k < i ==> #[trigger] hay@.subrange(k, k + n) != needle@,
        decreases h - n + 1 - i,
    {
        let mut j: usize = 0;
        let mut same = true;
        while j < n && same
            invariant
                h == hay@.len(),
                n == needle@.len(),
                i + n <= h,
                j <= n,
                same ==> forall|m: int| 0 <= m < j ==> hay@[i + m] == needle@[m],
                !same ==> j < n && hay@[i + j] != needle@[j as int],
            decreases n - j + if same { 1int } else { 0int },
        {
            if hay.get_char(i + j) != needle.get_char(j) {
                same = false;
            } else {
                j = j + 1;
            }
        }
        if same {
            assert(hay@.subrange(i as int, i + n) =~= needle@);
            return true;
        }
        assert(hay@.subrange(i as int, i + n)[j as int] != needle@[j as int]);
        i = i + 1;
    }
    false
}

/// The lower-case form of a text as `str::to_lowercase` computes it from
/// the Unicode case tables.
pub uninterp spec fn lowercase_of(s: Seq<char>) -> Seq<char>;

/// The lower-case form of `s` (std's `str::to_lowercase`).
#[verifier::external_body]
pub(crate) fn to_lowercase(s: &str) -> (r: String)
    ensures
        r@ == lowercase_of(s@),
{
    s.to_lowercase()
}

/// Whether two texts are equal.
pub fn text_eq(a: &str, b: &str) -> (r: bool)
    ensures
        r == (a@ == b@),
{
    let n = a.unicode_len();
    if n != b.unicode_len() {
        return false;
    }
    let mut i: usize = 0;
    while i < n
        invariant
            n == a@.len(),
            n == b@.len(),
            i <= n,
            forall|k: int| 0 <= k < i ==> a@[k] == b@[k],
        decreases n - i,
    {
        if a.get_char(i) != b.get_char(i) {
            return false;
        }
        i = i + 1;
    }
    assert(a@ =~= b@);
    true
}

} // verus!

verus! {

/// Unicode white space, as `char::is_whitespace` defines it.
pub open spec fn is_white(c: char) -> bool {
    let u = c as u32;
    ||| 0x09 <= u <= 0x0d
    ||| u == 0x20
    ||| u == 0x85
    ||| u == 0xa0
    ||| u == 0x1680
    ||| 0x2000 <= u <= 0x200a
    ||| u == 0x2028
    ||| u == 0x2029
    ||| u == 0x202f
    ||| u == 0x205f
    ||| u == 0x3000
}

/// Whether `c` is white space.
pub fn is_whitespace(c: char) -> (r: bool)
    ensures
        r == is_white(c),
{
    let u = c as u32;
    (0x09 <= u && u <= 0x0d) || u == 0x20 || u == 0x85 || u == 0xa0 || u == 0x1680 || (0x2000 <= u
        && u <= 0x200a) || u == 0x2028 || u == 0x2029 || u == 0x202f || u == 0x205f || u == 0x3000
}

/// Whether `s` is empty or only white space (what `str::trim` would empty).
pub fn is_blank(s: &str) -> (r: bool)
    ensures
        r == forall|i: int| 0 <= i < s@.len() ==> is_white(#[trigger] s@[i]),
{
    let n = s.unicode_len();
    let mut i: usize = 0;
    while i < n
        invariant
            n == s@.len(),
            i <= n,
            forall|k: int| 0 <= k < i ==> is_white(#[trigger] s@[k]),
        decreases n - i,
    {
        if !is_whitespace(s.get_char(i)) {
            return false;
        }
        i = i + 1;
    }
    true
}

/// `word` stands in `text` at position `i` as a whole white-space separated
/// word.
pub open spec fn word_at(text: Seq<char>, word: Seq<char>, i: int) -> bool {
    &&& 0 <= i
    &&& i + word.len() <= text.len()
    &&& text.subrange(i, i + word.len()) == word
    &&& (i == 0 || is_white(text[i - 1]))
    &&& (i + word.len() == text.len() || is_white(text[i + word.len()]))
}

/// Whether `word` is one of the white-space separated words of `text`.
pub open spec fn has_word(text: Seq<char>, word: Seq<char>) -> bool {
    exists|i: int| word_at(text, word, i)
}

/// Whether `word` is one of the white-space separated words of `text`.
pub fn contains_word(text: &str, word: &str) -> (r: bool)
    ensures
        r == has_word(text@, word@),
{
    let t = text.unicode_len();
    let w = word.unicode_len();
    if w > t {
        assert(!has_word(text@, word@));
        return false;
    }
    let last = t - w;
    let mut i: usize = 0;
    loop
        invariant
            t == text@.len(),
            w == word@.len(),
            w <= t,
            last == t - w,
            i <= last,
            forall|k: int| 0 <= k < i ==> !word_at(text@, word@, k),
        ensures
            forall|k: int| 0 <= k <= last ==> !word_at(text@, word@, k),
        decreases last - i,
    {
        let mut j: usize = 0;
        let mut same = true;
        while j < w && same
            invariant
                t == text@.len(),
                w == word@.len(),
                i + w <= t,
                j <= w,
                same ==> forall|m: int| 0 <= m < j ==> text@[i + m] == word@[m],
                !same ==> j < w && text@[i + j] != word@[j as int],
            decreases w - j + if same { 1int } else { 0int },
        {
            if text.get_char(i + j) != word.get_char(j) {
                same = false;
            } else {
                j = j + 1;
            }
        }
        if same {
            assert(text@.subrange(i as int, i + w) =~= word@);
            let left = i == 0 || is_whitespace(text.get_char(i - 1));
            let right = i + w == t || is_whitespace(text.get_char(i + w));
            if left && right {
                assert(word_at(text@, word@, i as int));
                return true;
            }
        } else {
            assert(text@.subrange(i as int, i + w)[j as int] != word@[j as int]);
        }
        if i == last {
            break;
        }
        i = i + 1;
    }
    false
}

} // verus!
