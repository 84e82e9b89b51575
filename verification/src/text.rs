//! Character-level text handling shared by every page: the glyph-safe
//! rewrite of free text, full-width punctuation folding, character-count
//! clipping, decimal formatting and small string builders.
use vstd::prelude::*;

verus! {

// ── Building blocks ────────────────────────────────────────────────────────

/// The characters of `s`, in order.
pub fn chars_of(s: &str) -> (v: Vec<char>)
    ensures
        v@ == s@,
{
    broadcast use vstd::string::group_string_axioms;

    let mut v: Vec<char> = Vec::new();
    for c in it: s.chars()
        invariant
            it.seq() == s@,
            v@ == it.seq().take(it.index()),
    {
        v.push(c);
    }
    v
}

/// Appends the characters of `s` to `v`.
pub fn push_str(v: &mut Vec<char>, s: &str)
    ensures
        final(v)@ == old(v)@ + s@,
{
    let cs = chars_of(s);
    let ghost start = v@;
    let n = cs.len();
    for i in 0..n
        invariant
            n == cs@.len(),
            cs@ == s@,
            v@ == start + cs@.take(i as int),
    {
        v.push(cs[i]);
        assert(cs@.take(i + 1) == cs@.take(i as int).push(cs@[i as int]));
    }
    assert(cs@.take(n as int) == cs@);
}

/// Turns a character vector into a `String` (std's `String::from_iter`).
#[verifier::external_body]
pub fn string_from_chars(v: Vec<char>) -> (s: String)
    ensures
        s@ == v@,
{
    String::from_iter(v)
}

/// A `String` holding exactly the characters of `s`.
pub fn owned(s: &str) -> (r: String)
    ensures
        r@ == s@,
{
    string_from_chars(chars_of(s))
}

// ── Decimal numbers ────────────────────────────────────────────────────────

/// The ASCII digit for `d` (`0 <= d < 10`).
pub open spec fn digit_char(d: int) -> char {
    if d == 0 {
        '0'
    } else if d == 1 {
        '1'
    } else if d == 2 {
        '2'
    } else if d == 3 {
        '3'
    } else if d == 4 {
        '4'
    } else if d == 5 {
        '5'
    } else if d == 6 {
        '6'
    } else if d == 7 {
        '7'
    } else if d == 8 {
        '8'
    } else {
        '9'
    }
}

/// Base-ten digits of `n`, most significant first, no leading zeros
/// (`0` is the single digit `0`).
pub open spec fn decimal(n: nat) -> Seq<char>
    decreases n,
{
    if n < 10 {
        seq![digit_char(n as int)]
    } else {
        decimal(n / 10).push(digit_char((n % 10) as int))
    }
}

/// `n` written with exactly two digits (`n < 100`), zero-padded.
pub open spec fn two_digits(n: nat) -> Seq<char> {
    seq![digit_char((n / 10) as int), digit_char((n % 10) as int)]
}

fn digit(d: u64) -> (c: char)
    requires
        d < 10,
    ensures
        c == digit_char(d as int),
{
    match d {
        0 => '0',
        1 => '1',
        2 => '2',
        3 => '3',
        4 => '4',
        5 => '5',
        6 => '6',
        7 => '7',
        8 => '8',
        _ => '9',
    }
}

/// Appends the decimal digits of `n`.
pub fn push_decimal(v: &mut Vec<char>, n: u64)
    ensures
        final(v)@ == old(v)@ + decimal(n as nat),
    decreases n,
{
    if n >= 10 {
        push_decimal(v, n / 10);
    }
    v.push(digit(n % 10));
}

/// Appends `n` as two zero-padded digits.
pub fn push_two_digits(v: &mut Vec<char>, n: u64)
    requires
        n < 100,
    ensures
        final(v)@ == old(v)@ + two_digits(n as nat),
{
    v.push(digit(n / 10));
    v.push(digit(n % 10));
}

/// Every character of a decimal rendering is an ASCII digit.
pub proof fn lemma_decimal_is_digits(n: nat)
    ensures
        decimal(n).len() >= 1,
        forall|i: int| 0 <= i < decimal(n).len() ==> is_ascii_digit(#[trigger] decimal(n)[i]),
    decreases n,
{
    if n >= 10 {
        lemma_decimal_is_digits(n / 10);
    }
}

pub open spec fn is_ascii_digit(c: char) -> bool {
    '0' <= c <= '9'
}

// ── Case-insensitive comparison ────────────────────────────────────────────

/// ASCII lower-casing of one character (non-letters unchanged).
pub open spec fn ascii_lower(c: char) -> char {
    if 'A' <= c <= 'Z' {
        ((c as u32) + 32) as char
    } else {
        c
    }
}

/// ASCII upper-casing of one character (non-letters unchanged).
pub open spec fn ascii_upper(c: char) -> char {
    if 'a' <= c <= 'z' {
        ((c as u32) - 32) as char
    } else {
        c
    }
}

/// `a` and `b` are equal once ASCII letters are compared case-insensitively.
pub open spec fn eq_ignore_ascii_case_spec(a: Seq<char>, b: Seq<char>) -> bool {
    &&& a.len() == b.len()
    &&& forall|i: int| 0 <= i < a.len() ==> ascii_lower(#[trigger] a[i]) == ascii_lower(b[i])
}

fn lower_char(c: char) -> (r: char)
    ensures
        r == ascii_lower(c),
{
    if 'A' <= c && c <= 'Z' {
        let u: u32 = (c as u32) + 32;
        // the result is a lowercase ASCII letter, a valid scalar value
        
        char_from_ascii(u)
    } else {
        c
    }
}

fn upper_char(c: char) -> (r: char)
    ensures
        r == ascii_upper(c),
{
    if 'a' <= c && c <= 'z' {
        let u: u32 = (c as u32) - 32;
        
        char_from_ascii(u)
    } else {
        c
    }
}

/// The character with ASCII code `u` (`u < 128`).
fn char_from_ascii(u: u32) -> (c: char)
    requires
        u < 128,
    ensures
        c == u as char,
{
    let b: u8 = u as u8;
    assert(b == u) by (bit_vector)
        requires
            u < 128,
            b == u as u8,
    ;
    b as char
}

/// ASCII case-insensitive equality of two strings (std's `eq_ignore_ascii_case`).
pub fn eq_ignore_ascii_case(a: &str, b: &str) -> (r: bool)
    ensures
        r == eq_ignore_ascii_case_spec(a@, b@),
{
    let x = chars_of(a);
    let y = chars_of(b);
    if x.len() != y.len() {
        return false;
    }
    let n = x.len();
    for i in 0..n
        invariant
            n == x@.len(),
            n == y@.len(),
            x@ == a@,
            y@ == b@,
            forall|j: int| 0 <= j < i ==> ascii_lower(#[trigger] x@[j]) == ascii_lower(y@[j]),
    {
        if lower_char(x[i]) != lower_char(y[i]) {
            return false;
        }
    }
    true
}

// ── Glyph-safe rewrite ─────────────────────────────────────────────────────

/// The ASCII characters the panel font can draw: the capitals
/// `ABCDEFGIMNOPRSUW`, the small letters `h k s`, the ten digits and
/// space `! % + . / : ?`.
pub open spec fn in_display_alphabet(c: char) -> bool {
    ||| c == 'A' || c == 'B' || c == 'C' || c == 'D' || c == 'E' || c == 'F' || c == 'G'
    ||| c == 'I' || c == 'M' || c == 'N' || c == 'O' || c == 'P' || c == 'R' || c == 'S'
    ||| c == 'U' || c == 'W'
    ||| c == 'h' || c == 'k' || c == 's'
    ||| is_ascii_digit(c)
    ||| c == ' ' || c == '!' || c == '%' || c == '+' || c == '.' || c == '/' || c == ':'
    ||| c == '?'
}

pub open spec fn is_ascii_char(c: char) -> bool {
    (c as u32) < 128
}

/// The short dash that stands for `_` on screen.
pub const SHORT_DASH: char = '\u{2013}';

/// How one character is shown: non-ASCII passes through; ASCII the font
/// can draw stays; `_` becomes a short dash; a small letter whose capital
/// the font can draw becomes that capital; any other ASCII becomes `?`.
pub open spec fn safe_char(c: char) -> char {
    if !is_ascii_char(c) {
        c
    } else if in_display_alphabet(c) {
        c
    } else if c == '_' {
        SHORT_DASH
    } else if 'a' <= c <= 'z' && in_display_alphabet(ascii_upper(c)) {
        ascii_upper(c)
    } else {
        '?'
    }
}

fn in_alphabet(c: char) -> (r: bool)
    ensures
        r == in_display_alphabet(c),
{
    match c {
        'A' | 'B' | 'C' | 'D' | 'E' | 'F' | 'G' | 'I' | 'M' | 'N' | 'O' | 'P' | 'R' | 'S' | 'U'
        | 'W' | 'h' | 'k' | 's' | ' ' | '!' | '%' | '+' | '.' | '/' | ':' | '?' => true,
        _ => '0' <= c && c <= '9',
    }
}

/// One character, rewritten for the panel font (see [`safe_char`]).
pub fn safe_char_exec(c: char) -> (r: char)
    ensures
        r == safe_char(c),
{
    if (c as u32) >= 128 {
        c
    } else if in_alphabet(c) {
        c
    } else if c == '_' {
        SHORT_DASH
    } else if 'a' <= c && c <= 'z' && in_alphabet(upper_char(c)) {
        upper_char(c)
    } else {
        '?'
    }
}

/// Text rewritten character by character for the panel font.
pub open spec fn display_safe_spec(s: Seq<char>) -> Seq<char> {
    s.map_values(|c: char| safe_char(c))
}

/// Appends `s` rewritten for the panel font.
pub fn push_display_safe(v: &mut Vec<char>, s: &str)
    ensures
        final(v)@ == old(v)@ + display_safe_spec(s@),
{
    let cs = chars_of(s);
    push_display_safe_chars(v, &cs);
}

/// Appends the characters `cs` rewritten for the panel font.
pub fn push_display_safe_chars(v: &mut Vec<char>, cs: &Vec<char>)
    ensures
        final(v)@ == old(v)@ + display_safe_spec(cs@),
{
    let ghost start = v@;
    let n = cs.len();
    for i in 0..n
        invariant
            n == cs@.len(),
            v@ == start + display_safe_spec(cs@.take(i as int)),
    {
        v.push(safe_char_exec(cs[i]));
        assert(display_safe_spec(cs@.take(i + 1)) == display_safe_spec(cs@.take(i as int)).push(
            safe_char(cs@[i as int]),
        ));
    }
    assert(cs@.take(n as int) == cs@);
}

/// Free text rewritten for the panel font: ASCII the font cannot draw is
/// replaced (see [`safe_char`]), everything else passes through.
pub fn display_safe(s: &str) -> (r: String)
    ensures
        r@ == display_safe_spec(s@),
{
    let mut v: Vec<char> = Vec::new();
    push_display_safe(&mut v, s);
    string_from_chars(v)
}

/// ASCII never survives the rewrite unless the font can draw it.
pub proof fn lemma_display_safe_ascii_in_alphabet(s: Seq<char>, i: int)
    requires
        0 <= i < s.len(),
        is_ascii_char(display_safe_spec(s)[i]),
    ensures
        in_display_alphabet(display_safe_spec(s)[i]),
{
    let c = s[i];
    if is_ascii_char(c) && !in_display_alphabet(c) && c != '_' {
        if 'a' <= c <= 'z' && in_display_alphabet(ascii_upper(c)) {
        }
    }
}

/// The rewrite is idempotent: text already rewritten for the font is left
/// as it is.
pub proof fn lemma_display_safe_idempotent(s: Seq<char>)
    ensures
        display_safe_spec(display_safe_spec(s)) == display_safe_spec(s),
{
    let t = display_safe_spec(s);
    assert forall|i: int| 0 <= i < t.len() implies safe_char(#[trigger] t[i]) == t[i] by {
        let c = s[i];
        if is_ascii_char(c) && !in_display_alphabet(c) && c != '_' {
            if 'a' <= c <= 'z' && in_display_alphabet(ascii_upper(c)) {
            }
        }
    }
    assert(display_safe_spec(t) =~= t);
}

// ── Full-width punctuation ─────────────────────────────────────────────────

/// The six full-width marks the font lacks, folded to drawable stand-ins:
/// `，；（）` to `·`, `：` to `:`, `、` to `/`; any other character unchanged.
pub open spec fn fold_punct(c: char) -> char {
    let u = c as u32;
    if u == 0xFF0C || u == 0xFF1B || u == 0xFF08 || u == 0xFF09 {
        '\u{00B7}'
    } else if u == 0xFF1A {
        ':'
    } else if u == 0x3001 {
        '/'
    } else {
        c
    }
}

/// One character with the missing full-width punctuation folded.
pub fn fold_fullwidth_punct(c: char) -> (r: char)
    ensures
        r == fold_punct(c),
{
    let u: u32 = c as u32;
    if u == 0xFF0C || u == 0xFF1B || u == 0xFF08 || u == 0xFF09 {
        '\u{00B7}'
    } else if u == 0xFF1A {
        ':'
    } else if u == 0x3001 {
        '/'
    } else {
        c
    }
}

/// Free text for the screen: punctuation folded first, then the glyph-safe rewrite.
pub open spec fn free_text_safe_spec(s: Seq<char>) -> Seq<char> {
    s.map_values(|c: char| safe_char(fold_punct(c)))
}

/// Appends free text prepared for the screen.
pub fn push_free_text_safe(v: &mut Vec<char>, s: &str)
    ensures
        final(v)@ == old(v)@ + free_text_safe_spec(s@),
{
    let cs = chars_of(s);
    push_free_text_chars(v, &cs);
}

/// Appends free text (given as characters) prepared for the screen.
pub fn push_free_text_chars(v: &mut Vec<char>, cs: &Vec<char>)
    ensures
        final(v)@ == old(v)@ + free_text_safe_spec(cs@),
{
    let ghost start = v@;
    let n = cs.len();
    for i in 0..n
        invariant
            n == cs@.len(),
            v@ == start + free_text_safe_spec(cs@.take(i as int)),
    {
        v.push(safe_char_exec(fold_fullwidth_punct(cs[i])));
        assert(free_text_safe_spec(cs@.take(i + 1)) == free_text_safe_spec(
            cs@.take(i as int),
        ).push(safe_char(fold_punct(cs@[i as int]))));
    }
    assert(cs@.take(n as int) == cs@);
}

/// Free text (an operator name, a failure reason) prepared for the screen.
pub fn free_text_safe(text: &str) -> (r: String)
    ensures
        r@ == free_text_safe_spec(text@),
{
    let mut v: Vec<char> = Vec::new();
    push_free_text_safe(&mut v, text);
    string_from_chars(v)
}

/// Prepared free text holds no ASCII the font cannot draw either.
pub proof fn lemma_free_text_safe_ascii_in_alphabet(s: Seq<char>, i: int)
    requires
        0 <= i < s.len(),
        is_ascii_char(free_text_safe_spec(s)[i]),
    ensures
        in_display_alphabet(free_text_safe_spec(s)[i]),
{
    let c = fold_punct(s[i]);
    if is_ascii_char(c) && !in_display_alphabet(c) && c != '_' {
        if 'a' <= c <= 'z' && in_display_alphabet(ascii_upper(c)) {
        }
    }
}

// ── Whitespace trimming ────────────────────────────────────────────────────

/// Unicode `White_Space` (what std's `char::is_whitespace` accepts).
pub open spec fn is_space(c: char) -> bool {
    let u = c as u32;
    ||| 0x09 <= u <= 0x0D
    ||| u == 0x20 || u == 0x85 || u == 0xA0 || u == 0x1680
    ||| 0x2000 <= u <= 0x200A
    ||| u == 0x2028 || u == 0x2029 || u == 0x202F || u == 0x205F || u == 0x3000
}

fn is_space_exec(c: char) -> (r: bool)
    ensures
        r == is_space(c),
{
    let u: u32 = c as u32;
    (0x09 <= u && u <= 0x0D) || u == 0x20 || u == 0x85 || u == 0xA0 || u == 0x1680 || (0x2000 <= u
        && u <= 0x200A) || u == 0x2028 || u == 0x2029 || u == 0x202F || u == 0x205F || u == 0x3000
}

/// The bounds `(lo, hi)` of `s` without leading and trailing white space:
/// `s[lo..hi]` has no white space at either end, and everything cut is white space.
pub open spec fn is_trim_of(s: Seq<char>, lo: int, hi: int) -> bool {
    &&& 0 <= lo <= hi <= s.len()
    &&& forall|i: int| 0 <= i < lo ==> is_space(#[trigger] s[i])
    &&& forall|i: int| hi <= i < s.len() ==> is_space(#[trigger] s[i])
    &&& lo < hi ==> !is_space(s[lo]) && !is_space(s[hi - 1])
}

/// `s` with leading and trailing white space removed (std's `str::trim`).
pub open spec fn trim_spec(s: Seq<char>) -> Seq<char> {
    let (lo, hi) = choose|lo: int, hi: int| is_trim_of(s, lo, hi);
    s.subrange(lo, hi)
}

/// The trimmed range is unique, so [`trim_spec`] is determined.
pub proof fn lemma_trim_unique(s: Seq<char>, lo1: int, hi1: int, lo2: int, hi2: int)
    requires
        is_trim_of(s, lo1, hi1),
        is_trim_of(s, lo2, hi2),
    ensures
        s.subrange(lo1, hi1) == s.subrange(lo2, hi2),
{
    if lo1 < hi1 && lo2 < hi2 {
        if lo1 < lo2 {
            assert(is_space(s[lo1]));
        }
        if lo2 < lo1 {
            assert(is_space(s[lo2]));
        }
        if hi1 < hi2 {
            assert(is_space(s[hi2 - 1]));
        }
        if hi2 < hi1 {
            assert(is_space(s[hi1 - 1]));
        }
    } else if lo1 < hi1 {
        // the second range is empty: every character is white space
        assert(is_space(s[lo1]));
    } else if lo2 < hi2 {
        assert(is_space(s[lo2]));
    }
}

/// The characters of `s` without leading and trailing white space.
pub fn trim_chars(s: &str) -> (r: Vec<char>)
    ensures
        r@ == trim_spec(s@),
{
    let cs = chars_of(s);
    let n = cs.len();
    let mut lo: usize = 0;
    while lo < n && is_space_exec(cs[lo])
        invariant
            n == cs@.len(),
            lo <= n,
            forall|i: int| 0 <= i < lo ==> is_space(#[trigger] cs@[i]),
        decreases n - lo,
    {
        lo = lo + 1;
    }
    let mut hi: usize = n;
    while hi > lo && is_space_exec(cs[hi - 1])
        invariant
            n == cs@.len(),
            lo <= hi <= n,
            forall|i: int| hi <= i < n ==> is_space(#[trigger] cs@[i]),
        decreases hi,
    {
        hi = hi - 1;
    }
    let mut out: Vec<char> = Vec::new();
    let mut k: usize = lo;
    while k < hi
        invariant
            n == cs@.len(),
            lo <= k <= hi <= n,
            out@ == cs@.subrange(lo as int, k as int),
        decreases hi - k,
    {
        out.push(cs[k]);
        assert(cs@.subrange(lo as int, k + 1) == cs@.subrange(lo as int, k as int).push(
            cs@[k as int],
        ));
        k = k + 1;
    }
    proof {
        let s_ = s@;
        assert(cs@ == s_);
        assert(is_trim_of(s_, lo as int, hi as int));
        let (l2, h2) = choose|l: int, h: int| is_trim_of(s_, l, h);
        lemma_trim_unique(s_, lo as int, hi as int, l2, h2);
    }
    out
}

// ── Clipping by character count ────────────────────────────────────────────

/// The truncation marker.
pub const TEXT_ELLIPSIS: &'static str = "...";

/// `s` cut to at most `max` characters, keeping the head: unchanged when it
/// fits; else the head plus `...` when `max > 3`; else just the first `max`.
pub open spec fn clip_spec(s: Seq<char>, max: nat) -> Seq<char> {
    if s.len() <= max {
        s
    } else if max <= 3 {
        s.take(max as int)
    } else {
        s.take(max - 3) + seq!['.', '.', '.']
    }
}

/// `s` cut to at most `max` characters, keeping the tail (the mirror of [`clip_spec`]).
pub open spec fn clip_tail_spec(s: Seq<char>, max: nat) -> Seq<char> {
    if s.len() <= max {
        s
    } else if max <= 3 {
        s.skip(s.len() - max)
    } else {
        seq!['.', '.', '.'] + s.skip(s.len() - (max - 3))
    }
}

/// A clipped text never exceeds its limit.
pub proof fn lemma_clip_within_limit(s: Seq<char>, max: nat)
    ensures
        clip_spec(s, max).len() <= max,
        clip_tail_spec(s, max).len() <= max,
        s.len() <= max ==> clip_spec(s, max) == s && clip_tail_spec(s, max) == s,
{
}

fn dots() -> (v: Vec<char>)
    ensures
        v@ == seq!['.', '.', '.'],
{
    let mut v: Vec<char> = Vec::new();
    v.push('.');
    v.push('.');
    v.push('.');
    v
}

/// Clips a character vector (see [`clip_spec`]).
pub fn clip_chars(cs: &Vec<char>, max: usize) -> (r: Vec<char>)
    ensures
        r@ == clip_spec(cs@, max as nat),
{
    let n = cs.len();
    if n <= max {
        return cs.clone();
    }
    let keep: usize = if max <= 3 { max } else { max - 3 };
    let mut out: Vec<char> = Vec::new();
    for i in 0..keep
        invariant
            keep <= max < n == cs@.len(),
            out@ == cs@.take(i as int),
    {
        out.push(cs[i]);
        assert(cs@.take(i + 1) == cs@.take(i as int).push(cs@[i as int]));
    }
    if max > 3 {
        out.push('.');
        out.push('.');
        out.push('.');
        assert(out@ == cs@.take(keep as int) + seq!['.', '.', '.']);
    }
    out
}

/// Clips a character vector keeping its tail (see [`clip_tail_spec`]).
pub fn clip_tail_chars(cs: &Vec<char>, max: usize) -> (r: Vec<char>)
    ensures
        r@ == clip_tail_spec(cs@, max as nat),
{
    let n = cs.len();
    if n <= max {
        return cs.clone();
    }
    let keep: usize = if max <= 3 { max } else { max - 3 };
    let mut out: Vec<char> = if max > 3 { dots() } else { Vec::new() };
    let ghost head = out@;
    let start = n - keep;
    for i in start..n
        invariant
            start == n - keep,
            n == cs@.len(),
            out@ == head + cs@.subrange(start as int, i as int),
    {
        out.push(cs[i]);
        assert(cs@.subrange(start as int, i + 1) == cs@.subrange(start as int, i as int).push(
            cs@[i as int],
        ));
    }
    assert(cs@.subrange(start as int, n as int) == cs@.skip(start as int));
    out
}

/// `text` cut to at most `max_chars` characters, keeping its head.
pub fn clip(text: &str, max_chars: usize) -> (r: String)
    ensures
        r@ == clip_spec(text@, max_chars as nat),
{
    string_from_chars(clip_chars(&chars_of(text), max_chars))
}

/// `text` cut to at most `max_chars` characters, keeping its tail.
pub fn clip_tail(text: &str, max_chars: usize) -> (r: String)
    ensures
        r@ == clip_tail_spec(text@, max_chars as nat),
{
    string_from_chars(clip_tail_chars(&chars_of(text), max_chars))
}

// ── Joining ────────────────────────────────────────────────────────────────

/// `parts` joined with `sep` between neighbours (empty for no parts).
pub open spec fn seq_join(parts: Seq<Seq<char>>, sep: Seq<char>) -> Seq<char>
    decreases parts.len(),
{
    if parts.len() == 0 {
        Seq::empty()
    } else if parts.len() == 1 {
        parts[0]
    } else {
        seq_join(parts.drop_last(), sep) + sep + parts.last()
    }
}

/// Joining one more part appends the separator and that part.
pub proof fn lemma_join_push(parts: Seq<Seq<char>>, sep: Seq<char>, p: Seq<char>)
    requires
        parts.len() >= 1,
    ensures
        seq_join(parts.push(p), sep) == seq_join(parts, sep) + sep + p,
{
    assert(parts.push(p).drop_last() == parts);
}

// ── Equality and signed numbers ────────────────────────────────────────────

/// Exact string equality.
pub fn str_eq(a: &str, b: &str) -> (r: bool)
    ensures
        r == (a@ == b@),
{
    let x = chars_of(a);
    let y = chars_of(b);
    if x.len() != y.len() {
        return false;
    }
    let n = x.len();
    for i in 0..n
        invariant
            n == x@.len(),
            n == y@.len(),
            x@ == a@,
            y@ == b@,
            forall|j: int| 0 <= j < i ==> #[trigger] x@[j] == y@[j],
    {
        if x[i] != y[i] {
            return false;
        }
    }
    assert(x@ =~= y@);
    true
}

/// The minus sign used on screen (U+2212; the font has no ASCII `-`).
pub const MINUS: char = '\u{2212}';

/// An integer in decimal, negative values led by [`MINUS`].
pub open spec fn int_text(i: int) -> Seq<char> {
    if i < 0 {
        seq![MINUS] + decimal((-i) as nat)
    } else {
        decimal(i as nat)
    }
}

/// Appends an integer in decimal (see [`int_text`]).
pub fn push_int(v: &mut Vec<char>, i: i64)
    ensures
        final(v)@ == old(v)@ + int_text(i as int),
{
    if i < 0 {
        let m: i64 = -(i + 1);
        let a: u64 = (m as u64) + 1;
        v.push(MINUS);
        let ghost mid = v@;
        push_decimal(v, a);
        assert(v@ == old(v)@ + (seq![MINUS] + decimal(a as nat)));
    } else {
        push_decimal(v, i as u64);
    }
}

} // verus!
