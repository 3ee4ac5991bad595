//! Character-level text handling: the Unicode predicates taken from std,
//! string building, and the tokenizer that every later stage relies on.
use vstd::prelude::*;

verus! {

// ---------------------------------------------------------------------------
// Unicode facts taken from std
// ---------------------------------------------------------------------------

/// Whether `c` has the Unicode `Alphabetic` or `Numeric` property, as
/// `char::is_alphanumeric` decides it.
pub uninterp spec fn spec_is_alphanumeric(c: char) -> bool;

/// The lowercase form of a whole string, as `str::to_lowercase` maps it
/// (Unicode `Lowercase` mapping, including the context-dependent final sigma).
pub uninterp spec fn spec_to_lowercase(s: Seq<char>) -> Seq<char>;

/// Whether `c` is an ASCII character.
pub open spec fn is_ascii_char(c: char) -> bool {
    (c as u32) < 0x80
}

/// Whether `c` is an ASCII letter or digit.
pub open spec fn is_ascii_alnum(c: char) -> bool {
    let n = c as u32;
    (0x30 <= n <= 0x39) || (0x41 <= n <= 0x5a) || (0x61 <= n <= 0x7a)
}

/// Whether `c` is alphanumeric: among ASCII characters the letters and
/// digits, beyond ASCII as `char::is_alphanumeric` decides it.
pub open spec fn alphanumeric(c: char) -> bool {
    if is_ascii_char(c) {
        is_ascii_alnum(c)
    } else {
        spec_is_alphanumeric(c)
    }
}

/// Whether every character of `s` is ASCII.
pub open spec fn is_ascii_text(s: Seq<char>) -> bool {
    forall|i: int| 0 <= i < s.len() ==> is_ascii_char(#[trigger] s[i])
}

/// `c` with an ASCII capital letter made small.
pub open spec fn ascii_lower_char(c: char) -> char {
    if 0x41 <= (c as u32) <= 0x5a {
        ((c as u32) + 0x20) as char
    } else {
        c
    }
}

/// Each ASCII capital letter of `s` made small.
pub open spec fn ascii_lowercase(s: Seq<char>) -> Seq<char> {
    s.map_values(|c: char| ascii_lower_char(c))
}

/// The lowercase form of a string: on ASCII text each capital letter made
/// small, beyond ASCII as `str::to_lowercase` maps it.
pub open spec fn lowercase(s: Seq<char>) -> Seq<char> {
    if is_ascii_text(s) {
        ascii_lowercase(s)
    } else {
        spec_to_lowercase(s)
    }
}

/// Calls `char::is_alphanumeric`. On ASCII the result is stated: the
/// letters and digits. Beyond ASCII the contract only ties the result to the
/// name `spec_is_alphanumeric`; the Unicode tables behind it are not stated.
#[verifier::external_body]
pub(crate) fn is_alphanumeric(c: char) -> (r: bool)
    ensures
        r == (if is_ascii_char(c) {
            is_ascii_alnum(c)
        } else {
            spec_is_alphanumeric(c)
        }),
{
    c.is_alphanumeric()
}

/// Whether `c` has the Unicode `White_Space` property, which is what
/// `char::is_whitespace` decides: tab to carriage return, space, next line,
/// no-break space, ogham space mark, the spaces from en quad to hair space,
/// line and paragraph separators, narrow no-break space, medium mathematical
/// space and ideographic space.
pub open spec fn spec_is_whitespace(c: char) -> bool {
    let n = c as u32;
    ||| 0x09 <= n <= 0x0d
    ||| n == 0x20
    ||| n == 0x85
    ||| n == 0xa0
    ||| n == 0x1680
    ||| 0x2000 <= n <= 0x200a
    ||| n == 0x2028
    ||| n == 0x2029
    ||| n == 0x202f
    ||| n == 0x205f
    ||| n == 0x3000
}

/// Whether `c` is a Unicode whitespace character.
pub fn is_whitespace(c: char) -> (r: bool)
    ensures
        r == spec_is_whitespace(c),
{
    let n = c as u32;
    (0x09 <= n && n <= 0x0d) || n == 0x20 || n == 0x85 || n == 0xa0 || n == 0x1680 || (0x2000 <= n
        && n <= 0x200a) || n == 0x2028 || n == 0x2029 || n == 0x202f || n == 0x205f || n == 0x3000
}

/// Calls `str::to_lowercase`. On ASCII text the result is stated: each
/// capital letter made small. Beyond ASCII the result is the named mapping of
/// the argument; the Unicode case tables are not stated.
#[verifier::external_body]
pub(crate) fn to_lowercase(s: &str) -> (r: String)
    ensures
        r@ == (if is_ascii_text(s@) {
            ascii_lowercase(s@)
        } else {
            spec_to_lowercase(s@)
        }),
{
    s.to_lowercase()
}

/// Calls `String::push`, which appends one character.
#[verifier::external_body]
pub(crate) fn push_char(s: &mut String, c: char)
    ensures
        final(s)@ == old(s)@.push(c),
{
    s.push(c)
}

// ---------------------------------------------------------------------------
// Basic string building
// ---------------------------------------------------------------------------

/// The characters of a string slice, in order.
pub fn chars_of(s: &str) -> (out: Vec<char>)
    ensures
        out@ == s@,
{
    let mut out: Vec<char> = Vec::new();
    for c in it: s.chars()
        invariant
            out@ == it.seq().take(it.index() as int),
    {
        out.push(c);
    }
    out
}

/// A string made of the given characters.
pub fn string_of(chars: &Vec<char>) -> (out: String)
    ensures
        out@ == chars@,
{
    let mut out = String::new();
    let mut i: usize = 0;
    while i < chars.len()
        invariant
            i <= chars.len(),
            out@ == chars@.take(i as int),
        decreases chars.len() - i,
    {
        push_char(&mut out, chars[i]);
        i += 1;
        assert(out@ =~= chars@.take(i as int));
    }
    assert(chars@.take(chars.len() as int) =~= chars@);
    out
}

/// A copy of a string slice.
pub fn own(s: &str) -> (out: String)
    ensures
        out@ == s@,
{
    s.to_owned()
}

/// A copy of a list of strings.
pub fn clone_strings(v: &Vec<String>) -> (out: Vec<String>)
    ensures
        out@ == v@,
{
    let mut out: Vec<String> = Vec::new();
    let mut i: usize = 0;
    while i < v.len()
        invariant
            i <= v@.len(),
            out@ == v@.take(i as int),
        decreases v@.len() - i,
    {
        out.push(v[i].clone());
        i += 1;
        assert(out@ =~= v@.take(i as int));
    }
    assert(v@.take(v@.len() as int) =~= v@);
    out
}

/// Whether a string reads exactly as a string slice.
pub fn same_text(a: &String, b: &str) -> (r: bool)
    ensures
        r == (a@ == b@),
{
    *a == own(b)
}

/// Appends `tail` to `s`.
pub fn push_str(s: &mut String, tail: &str)
    ensures
        final(s)@ == old(s)@ + tail@,
{
    let cs = chars_of(tail);
    let ghost start = s@;
    let mut i: usize = 0;
    while i < cs.len()
        invariant
            i <= cs.len(),
            cs@ == tail@,
            s@ == start + cs@.take(i as int),
        decreases cs.len() - i,
    {
        push_char(s, cs[i]);
        i += 1;
        assert(s@ =~= start + cs@.take(i as int));
    }
    assert(cs@.take(cs.len() as int) =~= cs@);
}

/// The concatenation of two strings.
pub fn concat(a: &str, b: &str) -> (out: String)
    ensures
        out@ == a@ + b@,
{
    let mut out = own(a);
    push_str(&mut out, b);
    out
}

// ---------------------------------------------------------------------------
// Tokenizer
// ---------------------------------------------------------------------------

/// The pieces that splitting `s` at every character that is not
/// alphanumeric yields, empty pieces included (as `str::split` yields them):
/// one more piece than there are separators.
pub open spec fn word_runs(s: Seq<char>) -> Seq<Seq<char>>
    decreases s.len(),
{
    if s.len() == 0 {
        seq![Seq::empty()]
    } else {
        let p = word_runs(s.drop_last());
        if alphanumeric(s.last()) {
            p.update(p.len() - 1, p.last().push(s.last()))
        } else {
            p.push(Seq::empty())
        }
    }
}

/// Whether the UTF-8 encoding of `w` is longer than one byte: two or more
/// characters, or one character outside ASCII.
pub open spec fn longer_than_one_byte(w: Seq<char>) -> bool {
    w.len() > 1 || (w.len() == 1 && (w[0] as u32) >= 0x80)
}

/// The tokens that a sequence of pieces gives: every piece longer than one
/// byte, lowercased, in order.
pub open spec fn tokens_of_runs(runs: Seq<Seq<char>>) -> Seq<Seq<char>>
    decreases runs.len(),
{
    if runs.len() == 0 {
        Seq::empty()
    } else {
        let rest = tokens_of_runs(runs.drop_last());
        if longer_than_one_byte(runs.last()) {
            rest.push(lowercase(runs.last()))
        } else {
            rest
        }
    }
}

/// The tokens of a text: its maximal alphanumeric runs whose UTF-8 encoding
/// is longer than one byte, each lowercased.
pub open spec fn spec_tokenize(s: Seq<char>) -> Seq<Seq<char>> {
    tokens_of_runs(word_runs(s))
}

fn keeps_token(w: &Vec<char>) -> (r: bool)
    ensures
        r == longer_than_one_byte(w@),
{
    w.len() > 1 || (w.len() == 1 && (w[0] as u32) >= 0x80)
}

/// Splits `text` into lowercase alphanumeric tokens, dropping those of a
/// single byte.
pub fn tokenize(text: &str) -> (out: Vec<String>)
    ensures
        out.deep_view() == spec_tokenize(text@),
{
    let cs = chars_of(text);
    let mut out: Vec<String> = Vec::new();
    let mut cur: Vec<char> = Vec::new();
    let mut i: usize = 0;
    proof {
        assert(cs@.take(0) =~= Seq::<char>::empty());
    }
    while i < cs.len()
        invariant
            i <= cs.len(),
            cs@ == text@,
            word_runs(cs@.take(i as int)).len() >= 1,
            word_runs(cs@.take(i as int)).last() == cur@,
            tokens_of_runs(word_runs(cs@.take(i as int)).drop_last()) == out.deep_view(),
        decreases cs.len() - i,
    {
        let c = cs[i];
        let ghost prev = word_runs(cs@.take(i as int));
        assert(cs@.take(i + 1).drop_last() =~= cs@.take(i as int));
        if is_alphanumeric(c) {
            cur.push(c);
            proof {
                let next = word_runs(cs@.take(i + 1));
                assert(next.drop_last() =~= prev.drop_last());
            }
        } else {
            if keeps_token(&cur) {
                let s = string_of(&cur);
                let t = to_lowercase(s.as_str());
                out.push(t);
            }
            proof {
                let next = word_runs(cs@.take(i + 1));
                assert(next.drop_last() =~= prev);
                assert(prev.drop_last().push(prev.last()) =~= prev);
                assert(out.deep_view() =~= tokens_of_runs(next.drop_last()));
            }
            cur = Vec::new();
        }
        i += 1;
    }
    assert(cs@.take(cs.len() as int) =~= cs@);
    let ghost runs = word_runs(cs@);
    if keeps_token(&cur) {
        let s = string_of(&cur);
        let t = to_lowercase(s.as_str());
        out.push(t);
    }
    proof {
        assert(runs.drop_last().push(runs.last()) =~= runs);
        assert(out.deep_view() =~= tokens_of_runs(runs));
    }
    out
}

// ---------------------------------------------------------------------------
// Whitespace words
// ---------------------------------------------------------------------------

/// The pieces that splitting `s` at every whitespace character yields,
/// empty pieces included.
pub open spec fn space_runs(s: Seq<char>) -> Seq<Seq<char>>
    decreases s.len(),
{
    if s.len() == 0 {
        seq![Seq::empty()]
    } else {
        let p = space_runs(s.drop_last());
        if spec_is_whitespace(s.last()) {
            p.push(Seq::empty())
        } else {
            p.update(p.len() - 1, p.last().push(s.last()))
        }
    }
}

/// The non-empty pieces of a sequence of pieces, in order.
pub open spec fn non_empty_runs(runs: Seq<Seq<char>>) -> Seq<Seq<char>>
    decreases runs.len(),
{
    if runs.len() == 0 {
        Seq::empty()
    } else {
        let rest = non_empty_runs(runs.drop_last());
        if runs.last().len() > 0 {
            rest.push(runs.last())
        } else {
            rest
        }
    }
}

/// The whitespace-separated words of a text, as `str::split_whitespace`
/// yields them.
pub open spec fn spec_words(s: Seq<char>) -> Seq<Seq<char>> {
    non_empty_runs(space_runs(s))
}

/// The whitespace-separated words of a text.
pub fn words(text: &str) -> (out: Vec<String>)
    ensures
        out.deep_view() == spec_words(text@),
{
    let cs = chars_of(text);
    let mut out: Vec<String> = Vec::new();
    let mut cur: Vec<char> = Vec::new();
    let mut i: usize = 0;
    proof {
        assert(cs@.take(0) =~= Seq::<char>::empty());
    }
    while i < cs.len()
        invariant
            i <= cs.len(),
            cs@ == text@,
            space_runs(cs@.take(i as int)).len() >= 1,
            space_runs(cs@.take(i as int)).last() == cur@,
            non_empty_runs(space_runs(cs@.take(i as int)).drop_last()) == out.deep_view(),
        decreases cs.len() - i,
    {
        let c = cs[i];
        let ghost prev = space_runs(cs@.take(i as int));
        assert(cs@.take(i + 1).drop_last() =~= cs@.take(i as int));
        if !is_whitespace(c) {
            cur.push(c);
            proof {
                let next = space_runs(cs@.take(i + 1));
                assert(next.drop_last() =~= prev.drop_last());
            }
        } else {
            if cur.len() > 0 {
                let s = string_of(&cur);
                out.push(s);
            }
            proof {
                let next = space_runs(cs@.take(i + 1));
                assert(next.drop_last() =~= prev);
                assert(prev.drop_last().push(prev.last()) =~= prev);
                assert(out.deep_view() =~= non_empty_runs(next.drop_last()));
            }
            cur = Vec::new();
        }
        i += 1;
    }
    assert(cs@.take(cs.len() as int) =~= cs@);
    let ghost runs = space_runs(cs@);
    if cur.len() > 0 {
        let s = string_of(&cur);
        out.push(s);
    }
    proof {
        assert(runs.drop_last().push(runs.last()) =~= runs);
        assert(out.deep_view() =~= non_empty_runs(runs));
    }
    out
}

// ---------------------------------------------------------------------------
// Joining
// ---------------------------------------------------------------------------

/// The pieces joined with `sep` between each two neighbours.
pub open spec fn spec_join(parts: Seq<Seq<char>>, sep: Seq<char>) -> Seq<char>
    decreases parts.len(),
{
    if parts.len() == 0 {
        Seq::empty()
    } else if parts.len() == 1 {
        parts[0]
    } else {
        spec_join(parts.drop_last(), sep) + sep + parts.last()
    }
}

/// The strings joined with `sep` between each two neighbours.
pub fn join(parts: &Vec<String>, sep: &str) -> (out: String)
    ensures
        out@ == spec_join(parts.deep_view(), sep@),
{
    let mut out = String::new();
    let mut i: usize = 0;
    while i < parts.len()
        invariant
            i <= parts.len(),
            out@ == spec_join(parts.deep_view().take(i as int), sep@),
        decreases parts.len() - i,
    {
        let ghost before = out@;
        if i > 0 {
            push_str(&mut out, sep);
        }
        push_str(&mut out, parts[i].as_str());
        proof {
            let t = parts.deep_view().take(i + 1);
            assert(t.drop_last() =~= parts.deep_view().take(i as int));
            if i == 0 {
                assert(out@ =~= t[0]);
            } else {
                assert(out@ =~= spec_join(t.drop_last(), sep@) + sep@ + t.last());
            }
        }
        i += 1;
    }
    assert(parts.deep_view().take(parts.len() as int) =~= parts.deep_view());
    out
}

/// The words of a text, at most `count` of them, joined by single spaces.
pub open spec fn spec_first_words(s: Seq<char>, count: nat) -> Seq<char> {
    let ws = spec_words(s);
    spec_join(if count < ws.len() { ws.take(count as int) } else { ws }, " "@)
}

/// The first `count` whitespace-separated words of `text`, joined by single
/// spaces.
pub fn first_words(text: &str, count: usize) -> (out: String)
    ensures
        out@ == spec_first_words(text@, count as nat),
{
    let mut ws = words(text);
    let ghost all = ws.deep_view();
    if count < ws.len() {
        ws.truncate(count);
        assert(ws.deep_view() =~= all.take(count as int));
    }
    join(&ws, " ")
}

// ---------------------------------------------------------------------------
// Decimal numerals
// ---------------------------------------------------------------------------

/// The decimal digit character for `d < 10`.
pub open spec fn digit_char(d: nat) -> char {
    (48 + d) as char
}

/// The decimal numeral of `n`, without leading zeros.
pub open spec fn spec_decimal(n: nat) -> Seq<char>
    decreases n,
{
    if n < 10 {
        seq![digit_char(n)]
    } else {
        spec_decimal(n / 10).push(digit_char(n % 10))
    }
}

fn digit(d: usize) -> (c: char)
    requires
        d < 10,
    ensures
        c == digit_char(d as nat),
{
    let b: u8 = 48u8 + (d as u8);
    b as char
}

/// The decimal numeral of `n`.
pub fn decimal(n: usize) -> (out: String)
    ensures
        out@ == spec_decimal(n as nat),
    decreases n,
{
    if n < 10 {
        let mut s = String::new();
        push_char(&mut s, digit(n));
        assert(s@ =~= seq![digit_char(n as nat)]);
        s
    } else {
        let mut s = decimal(n / 10);
        push_char(&mut s, digit(n % 10));
        s
    }
}

// ---------------------------------------------------------------------------
// Trimming
// ---------------------------------------------------------------------------

/// `s` without its leading whitespace.
pub open spec fn trim_start(s: Seq<char>) -> Seq<char>
    decreases s.len(),
{
    if s.len() > 0 && spec_is_whitespace(s[0]) {
        trim_start(s.drop_first())
    } else {
        s
    }
}

/// `s` without its trailing whitespace.
pub open spec fn trim_end(s: Seq<char>) -> Seq<char>
    decreases s.len(),
{
    if s.len() > 0 && spec_is_whitespace(s.last()) {
        trim_end(s.drop_last())
    } else {
        s
    }
}

/// `s` without leading and trailing whitespace, as `str::trim` gives it.
pub open spec fn spec_trim(s: Seq<char>) -> Seq<char> {
    trim_end(trim_start(s))
}

proof fn lemma_trim_start_at(s: Seq<char>, a: int)
    requires
        0 <= a <= s.len(),
        forall|j: int| 0 <= j < a ==> spec_is_whitespace(s[j]),
        a == s.len() || !spec_is_whitespace(s[a]),
    ensures
        trim_start(s) == s.subrange(a, s.len() as int),
    decreases a,
{
    if a == 0 {
        assert(s.subrange(0, s.len() as int) =~= s);
    } else {
        lemma_trim_start_at(s.drop_first(), a - 1);
        assert(s.drop_first().subrange(a - 1, s.len() - 1) =~= s.subrange(a, s.len() as int));
    }
}

proof fn lemma_trim_end_at(s: Seq<char>, b: int)
    requires
        0 <= b <= s.len(),
        forall|j: int| b <= j < s.len() ==> spec_is_whitespace(s[j]),
        b == 0 || !spec_is_whitespace(s[b - 1]),
    ensures
        trim_end(s) == s.subrange(0, b),
    decreases s.len() - b,
{
    if b == s.len() {
        assert(s.subrange(0, b) =~= s);
    } else {
        lemma_trim_end_at(s.drop_last(), b);
        assert(s.drop_last().subrange(0, b) =~= s.subrange(0, b));
    }
}

/// The characters without leading and trailing whitespace.
pub fn trim_chars(cs: &Vec<char>) -> (out: Vec<char>)
    ensures
        out@ == spec_trim(cs@),
{
    let n = cs.len();
    let mut a: usize = 0;
    while a < n && is_whitespace(cs[a])
        invariant
            a <= n,
            n == cs.len(),
            forall|j: int| 0 <= j < a ==> spec_is_whitespace(cs@[j]),
        decreases n - a,
    {
        a += 1;
    }
    proof {
        lemma_trim_start_at(cs@, a as int);
    }
    let ghost t = cs@.subrange(a as int, n as int);
    let mut b: usize = n;
    while b > a && is_whitespace(cs[b - 1])
        invariant
            a <= b <= n,
            n == cs.len(),
            forall|j: int| b <= j < n ==> spec_is_whitespace(cs@[j]),
        decreases b - a,
    {
        b -= 1;
    }
    proof {
        assert forall|j: int| b - a <= j < t.len() implies spec_is_whitespace(t[j]) by {
            assert(t[j] == cs@[a + j]);
        }
        if b > a {
            assert(t[b - a - 1] == cs@[b - 1]);
        }
        lemma_trim_end_at(t, b - a);
        assert(t.subrange(0, b - a) =~= cs@.subrange(a as int, b as int));
    }
    let mut out: Vec<char> = Vec::new();
    let mut i: usize = a;
    while i < b
        invariant
            a <= i <= b <= n,
            n == cs.len(),
            out@ == cs@.subrange(a as int, i as int),
        decreases b - i,
    {
        out.push(cs[i]);
        i += 1;
        assert(out@ =~= cs@.subrange(a as int, i as int));
    }
    out
}

/// A string without leading and trailing whitespace.
pub fn trim(s: &str) -> (out: String)
    ensures
        out@ == spec_trim(s@),
{
    let cs = chars_of(s);
    let t = trim_chars(&cs);
    string_of(&t)
}

// ---------------------------------------------------------------------------
// Substrings
// ---------------------------------------------------------------------------

/// Whether `needle` occurs in `hay` starting at position `i`.
pub open spec fn occurs_at(hay: Seq<char>, needle: Seq<char>, i: int) -> bool {
    0 <= i && i + needle.len() <= hay.len() && hay.subrange(i, i + needle.len()) == needle
}

/// Whether `needle` occurs in `hay`, as `str::contains` decides it.
pub open spec fn spec_contains(hay: Seq<char>, needle: Seq<char>) -> bool {
    exists|i: int| occurs_at(hay, needle, i)
}

fn matches_at(hay: &Vec<char>, needle: &Vec<char>, i: usize) -> (r: bool)
    requires
        i + needle.len() <= hay.len(),
    ensures
        r == occurs_at(hay@, needle@, i as int),
{
    let mut j: usize = 0;
    while j < needle.len()
        invariant
            j <= needle.len(),
            i + needle.len() <= hay.len(),
            forall|k: int| 0 <= k < j ==> hay@[i + k] == needle@[k],
        decreases needle.len() - j,
    {
        if hay[i + j] != needle[j] {
            assert(hay@.subrange(i as int, i + needle.len())[j as int] != needle@[j as int]);
            return false;
        }
        j += 1;
    }
    assert(hay@.subrange(i as int, i + needle.len()) =~= needle@);
    true
}

/// Whether `needle` occurs in `hay`.
pub fn contains_chars(hay: &Vec<char>, needle: &Vec<char>) -> (r: bool)
    ensures
        r == spec_contains(hay@, needle@),
{
    if needle.len() == 0 {
        assert(hay@.subrange(0, 0) =~= needle@);
        assert(occurs_at(hay@, needle@, 0));
        return true;
    }
    if needle.len() > hay.len() {
        return false;
    }
    let last = hay.len() - needle.len();
    let mut i: usize = 0;
    while i <= last
        invariant
            needle.len() >= 1,
            last + needle.len() == hay.len(),
            forall|k: int| 0 <= k < i ==> !occurs_at(hay@, needle@, k),
        decreases last + 1 - i,
    {
        if matches_at(hay, needle, i) {
            return true;
        }
        i += 1;
    }
    false
}

/// Whether `needle` occurs in `hay`.
pub fn contains(hay: &str, needle: &str) -> (r: bool)
    ensures
        r == spec_contains(hay@, needle@),
{
    let h = chars_of(hay);
    let n = chars_of(needle);
    contains_chars(&h, &n)
}

/// Whether `s` begins with `prefix`.
pub fn starts_with(s: &str, prefix: &str) -> (r: bool)
    ensures
        r == (prefix@.len() <= s@.len() && s@.subrange(0, prefix@.len() as int) == prefix@),
{
    let h = chars_of(s);
    let n = chars_of(prefix);
    if n.len() > h.len() {
        return false;
    }
    matches_at(&h, &n, 0)
}

// ---------------------------------------------------------------------------
// Lines
// ---------------------------------------------------------------------------

/// The pieces that splitting `s` at every `'\n'` yields, empty pieces
/// included.
pub open spec fn newline_runs(s: Seq<char>) -> Seq<Seq<char>>
    decreases s.len(),
{
    if s.len() == 0 {
        seq![Seq::empty()]
    } else {
        let p = newline_runs(s.drop_last());
        if s.last() == '\n' {
            p.push(Seq::empty())
        } else {
            p.update(p.len() - 1, p.last().push(s.last()))
        }
    }
}

/// A terminated line without the `'\r'` of a `"\r\n"` ending.
pub open spec fn strip_cr(w: Seq<char>) -> Seq<char> {
    if w.len() > 0 && w.last() == '\r' {
        w.drop_last()
    } else {
        w
    }
}

/// The lines of a text, as `str::lines` yields them: split at `"\n"` or
/// `"\r\n"`, terminators removed, and no empty line after a final
/// terminator.
pub open spec fn spec_lines(s: Seq<char>) -> Seq<Seq<char>> {
    let p = newline_runs(s);
    p.drop_last().map_values(|w: Seq<char>| strip_cr(w)) + (if p.last().len() == 0 {
        Seq::empty()
    } else {
        seq![p.last()]
    })
}

fn strip_cr_chars(w: Vec<char>) -> (out: Vec<char>)
    ensures
        out@ == strip_cr(w@),
{
    let mut w = w;
    if w.len() > 0 && w[w.len() - 1] == '\r' {
        w.pop();
    }
    w
}

/// The lines of a text.
pub fn lines(text: &str) -> (out: Vec<String>)
    ensures
        out.deep_view() == spec_lines(text@),
{
    let cs = chars_of(text);
    let mut out: Vec<String> = Vec::new();
    let mut cur: Vec<char> = Vec::new();
    let mut i: usize = 0;
    proof {
        assert(cs@.take(0) =~= Seq::<char>::empty());
    }
    while i < cs.len()
        invariant
            i <= cs.len(),
            cs@ == text@,
            newline_runs(cs@.take(i as int)).len() >= 1,
            newline_runs(cs@.take(i as int)).last() == cur@,
            newline_runs(cs@.take(i as int)).drop_last().map_values(|w: Seq<char>| strip_cr(w))
                == out.deep_view(),
        decreases cs.len() - i,
    {
        let c = cs[i];
        let ghost prev = newline_runs(cs@.take(i as int));
        assert(cs@.take(i + 1).drop_last() =~= cs@.take(i as int));
        if c != '\n' {
            cur.push(c);
            proof {
                let next = newline_runs(cs@.take(i + 1));
                assert(next.drop_last() =~= prev.drop_last());
            }
        } else {
            let line = strip_cr_chars(cur);
            let ghost old_out = out.deep_view();
            out.push(string_of(&line));
            proof {
                let next = newline_runs(cs@.take(i + 1));
                assert(next.drop_last() =~= prev);
                assert(out.deep_view() =~= old_out.push(strip_cr(prev.last())));
                assert(prev.drop_last().push(prev.last()) =~= prev);
                assert forall|k: int| 0 <= k < prev.len() implies out.deep_view()[k] == strip_cr(prev[k]) by {
                    if k < prev.len() - 1 {
                        assert(prev.drop_last()[k] == prev[k]);
                    }
                }
                assert(out.deep_view() =~= next.drop_last().map_values(|w: Seq<char>| strip_cr(w)));
            }
            cur = Vec::new();
        }
        i += 1;
    }
    assert(cs@.take(cs.len() as int) =~= cs@);
    if cur.len() > 0 {
        out.push(string_of(&cur));
    }
    proof {
        let p = newline_runs(cs@);
        assert(out.deep_view() =~= spec_lines(text@));
    }
    out
}

} // verus!
