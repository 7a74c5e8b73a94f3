//! Character-level text helpers shared by the rest of the library.
//!
//! Strings are reasoned about through their view, the sequence of `char`s
//! they hold. The helpers here build `String`s one character at a time and
//! state their result as an exact function of the input sequences.
use vstd::prelude::*;
use vstd::seq_lib::lemma_flatten_concat;

verus! {

broadcast use vstd::string::group_string_axioms;

// ───────────────────────── whitespace and trimming ─────────────────────────

/// Whether `c` has the Unicode `White_Space` property: tab, line feed,
/// vertical tab, form feed, carriage return, space, next line, no-break space,
/// ogham space mark, the spaces U+2000 to U+200A, line and paragraph
/// separators, narrow no-break space, medium mathematical space and
/// ideographic space.
pub open spec fn unicode_white_space(c: char) -> bool {
    ||| ('\u{9}' <= c && c <= '\u{D}')
    ||| c == ' '
    ||| c == '\u{85}'
    ||| c == '\u{A0}'
    ||| c == '\u{1680}'
    ||| ('\u{2000}' <= c && c <= '\u{200A}')
    ||| c == '\u{2028}'
    ||| c == '\u{2029}'
    ||| c == '\u{202F}'
    ||| c == '\u{205F}'
    ||| c == '\u{3000}'
}

/// Calls `char::is_whitespace`, which std documents as the Unicode
/// `White_Space` property; the contract lists the characters that have it.
#[verifier::external_body]
fn char_is_whitespace(c: char) -> (r: bool)
    ensures
        r == unicode_white_space(c),
{
    c.is_whitespace()
}

/// Drops leading whitespace.
pub open spec fn trim_start_spec(s: Seq<char>) -> Seq<char>
    decreases s.len(),
{
    if s.len() > 0 && unicode_white_space(s[0]) {
        trim_start_spec(s.drop_first())
    } else {
        s
    }
}

/// Drops trailing whitespace.
pub open spec fn trim_end_spec(s: Seq<char>) -> Seq<char>
    decreases s.len(),
{
    if s.len() > 0 && unicode_white_space(s.last()) {
        trim_end_spec(s.drop_last())
    } else {
        s
    }
}

/// `s` without leading and trailing whitespace (what `str::trim` gives).
pub open spec fn trimmed(s: Seq<char>) -> Seq<char> {
    trim_end_spec(trim_start_spec(s))
}

/// A sequence is blank when nothing is left of it after trimming.
pub open spec fn is_blank(s: Seq<char>) -> bool {
    trimmed(s).len() == 0
}

proof fn lemma_trim_start_skip(s: Seq<char>, i: int)
    requires
        0 <= i <= s.len(),
        forall|k: int| 0 <= k < i ==> unicode_white_space(#[trigger] s[k]),
        i == s.len() || !unicode_white_space(s[i]),
    ensures
        trim_start_spec(s) == s.skip(i),
    decreases i,
{
    if i > 0 {
        let t = s.drop_first();
        assert forall|k: int| 0 <= k < i - 1 implies unicode_white_space(#[trigger] t[k]) by {
            assert(t[k] == s[k + 1]);
        }
        if i - 1 < t.len() {
            assert(t[i - 1] == s[i]);
        }
        lemma_trim_start_skip(t, i - 1);
        assert(t.skip(i - 1) =~= s.skip(i));
    } else {
        assert(s.skip(0) =~= s);
    }
}

proof fn lemma_trim_end_take(s: Seq<char>, j: int)
    requires
        0 <= j <= s.len(),
        forall|k: int| j <= k < s.len() ==> unicode_white_space(#[trigger] s[k]),
        j == 0 || !unicode_white_space(s[j - 1]),
    ensures
        trim_end_spec(s) == s.take(j),
    decreases s.len() - j,
{
    if j < s.len() {
        let t = s.drop_last();
        assert forall|k: int| j <= k < t.len() implies unicode_white_space(#[trigger] t[k]) by {
            assert(t[k] == s[k]);
        }
        if j > 0 {
            assert(t[j - 1] == s[j - 1]);
        }
        lemma_trim_end_take(t, j);
        assert(t.take(j) =~= s.take(j));
    } else {
        assert(s.take(j) =~= s);
    }
}

/// Every character of `s` is whitespace.
pub open spec fn all_white_space(s: Seq<char>) -> bool {
    forall|i: int| 0 <= i < s.len() ==> unicode_white_space(#[trigger] s[i])
}

proof fn lemma_trim_start_white(b: Seq<char>)
    requires
        all_white_space(b),
    ensures
        trim_start_spec(b).len() == 0,
    decreases b.len(),
{
    if b.len() > 0 {
        assert(all_white_space(b.drop_first())) by {
            assert forall|i: int| 0 <= i < b.drop_first().len() implies unicode_white_space(#[trigger] b.drop_first()[i]) by {
                assert(b.drop_first()[i] == b[i + 1]);
            }
        }
        lemma_trim_start_white(b.drop_first());
    }
}

proof fn lemma_trim_start_prefix(a: Seq<char>, q: Seq<char>)
    requires
        all_white_space(a),
    ensures
        trim_start_spec(a + q) == trim_start_spec(q),
    decreases a.len(),
{
    if a.len() > 0 {
        assert((a + q)[0] == a[0]);
        assert((a + q).drop_first() =~= a.drop_first() + q);
        assert(all_white_space(a.drop_first())) by {
            assert forall|i: int| 0 <= i < a.drop_first().len() implies unicode_white_space(#[trigger] a.drop_first()[i]) by {
                assert(a.drop_first()[i] == a[i + 1]);
            }
        }
        lemma_trim_start_prefix(a.drop_first(), q);
    } else {
        assert(a + q =~= q);
    }
}

proof fn lemma_trim_end_suffix(x: Seq<char>, b: Seq<char>)
    requires
        all_white_space(b),
    ensures
        trim_end_spec(x + b) == trim_end_spec(x),
    decreases b.len(),
{
    if b.len() > 0 {
        assert((x + b).last() == b.last());
        assert((x + b).drop_last() =~= x + b.drop_last());
        assert(all_white_space(b.drop_last())) by {
            assert forall|i: int| 0 <= i < b.drop_last().len() implies unicode_white_space(#[trigger] b.drop_last()[i]) by {
                assert(b.drop_last()[i] == b[i]);
            }
        }
        lemma_trim_end_suffix(x, b.drop_last());
    } else {
        assert(x + b =~= x);
    }
}

proof fn lemma_trimmed_suffix(p: Seq<char>, b: Seq<char>)
    requires
        all_white_space(b),
    ensures
        trim_end_spec(trim_start_spec(p + b)) == trim_end_spec(trim_start_spec(p)),
    decreases p.len(),
{
    if p.len() == 0 {
        assert(p + b =~= b);
        lemma_trim_start_white(b);
    } else if unicode_white_space(p[0]) {
        assert((p + b)[0] == p[0]);
        assert((p + b).drop_first() =~= p.drop_first() + b);
        lemma_trimmed_suffix(p.drop_first(), b);
    } else {
        assert((p + b)[0] == p[0]);
        lemma_trim_end_suffix(p, b);
    }
}

proof fn lemma_trim_end_is_prefix(x: Seq<char>)
    ensures
        trim_end_spec(x).len() <= x.len(),
        trim_end_spec(x) == x.take(trim_end_spec(x).len() as int),
        trim_end_spec(x).len() > 0 ==> !unicode_white_space(trim_end_spec(x).last()),
    decreases x.len(),
{
    if x.len() > 0 && unicode_white_space(x.last()) {
        lemma_trim_end_is_prefix(x.drop_last());
        let t = trim_end_spec(x.drop_last());
        assert(x.drop_last().take(t.len() as int) =~= x.take(t.len() as int));
    } else {
        assert(x.take(x.len() as int) =~= x);
    }
}

proof fn lemma_trim_start_first(x: Seq<char>)
    ensures
        trim_start_spec(x).len() > 0 ==> !unicode_white_space(trim_start_spec(x)[0]),
    decreases x.len(),
{
    if x.len() > 0 && unicode_white_space(x[0]) {
        lemma_trim_start_first(x.drop_first());
    }
}

/// Whitespace added before or after a text does not change what trimming
/// leaves, and trimming twice is trimming once: a tool path is checked the
/// same way however it is padded.
pub proof fn law_trim_ignores_padding(p: Seq<char>, a: Seq<char>, b: Seq<char>)
    requires
        all_white_space(a),
        all_white_space(b),
    ensures
        trimmed(a + p + b) == trimmed(p),
        trimmed(trimmed(p)) == trimmed(p),
{
    assert(a + p + b =~= a + (p + b));
    lemma_trim_start_prefix(a, p + b);
    lemma_trimmed_suffix(p, b);
    let s1 = trim_start_spec(p);
    let t = trim_end_spec(s1);
    lemma_trim_start_first(p);
    lemma_trim_end_is_prefix(s1);
    if t.len() > 0 {
        assert(t[0] == s1[0]);
        assert(trim_start_spec(t) == t);
        assert(trim_end_spec(t) == t);
    } else {
        assert(trim_start_spec(t) == t);
    }
}

// ───────────────────────── building strings ─────────────────────────

/// Appends one character (calls `String::push`).
#[verifier::external_body]
fn push_char(s: &mut String, c: char)
    ensures
        final(s)@ == old(s)@.push(c),
{
    s.push(c);
}

/// The characters of `s`, in order.
pub fn chars_of(s: &str) -> (r: Vec<char>)
    ensures
        r@ == s@,
{
    let mut v: Vec<char> = Vec::new();
    for c in it: s.chars()
        invariant
            it.seq() == s@,
            v@ == it.seq().take(it.index() as int),
    {
        v.push(c);
    }
    assert(v@ =~= s@);
    v
}

/// A `String` holding `cs[from..to]`.
pub fn string_from_range(cs: &Vec<char>, from: usize, to: usize) -> (r: String)
    requires
        from <= to <= cs.len(),
    ensures
        r@ == cs@.subrange(from as int, to as int),
{
    let mut out = String::new();
    let mut i = from;
    while i < to
        invariant
            from <= i <= to <= cs.len(),
            out@ == cs@.subrange(from as int, i as int),
        decreases to - i,
    {
        push_char(&mut out, cs[i]);
        i = i + 1;
        assert(out@ =~= cs@.subrange(from as int, i as int));
    }
    out
}

/// A `String` holding all of `cs`.
pub fn string_from_chars(cs: &Vec<char>) -> (r: String)
    ensures
        r@ == cs@,
{
    let r = string_from_range(cs, 0, cs.len());
    assert(cs@.subrange(0, cs@.len() as int) =~= cs@);
    r
}

/// `a` followed by `b`, as a new `String`.
pub fn concatenate(a: &str, b: &str) -> (r: String)
    ensures
        r@ == a@ + b@,
{
    let mut out = String::from_str(a);
    out.append(b);
    out
}

/// `s` with leading and trailing whitespace removed.
pub fn trim(s: &str) -> (r: String)
    ensures
        r@ == trimmed(s@),
{
    let cs = chars_of(s);
    let n = cs.len();
    let mut i: usize = 0;
    while i < n && char_is_whitespace(cs[i])
        invariant
            n == cs@.len(),
            i <= n,
            forall|k: int| 0 <= k < i ==> unicode_white_space(#[trigger] cs@[k]),
        decreases n - i,
    {
        i = i + 1;
    }
    proof {
        lemma_trim_start_skip(cs@, i as int);
    }
    let mut j: usize = n;
    while j > i && char_is_whitespace(cs[j - 1])
        invariant
            n == cs@.len(),
            i <= j <= n,
            forall|k: int| j <= k < n ==> unicode_white_space(#[trigger] cs@[k]),
        decreases j,
    {
        j = j - 1;
    }
    proof {
        let t = cs@.skip(i as int);
        assert forall|k: int| j - i <= k < t.len() implies unicode_white_space(#[trigger] t[k]) by {
            assert(t[k] == cs@[k + i]);
        }
        if j > i {
            assert(t[j - i - 1] == cs@[j - 1]);
        }
        lemma_trim_end_take(t, j - i);
        assert(t.take(j - i) =~= cs@.subrange(i as int, j as int));
    }
    string_from_range(&cs, i, j)
}

/// Whether nothing but whitespace is in `s`.
pub fn blank(s: &str) -> (r: bool)
    ensures
        r == is_blank(s@),
{
    let t = trim(s);
    t.as_str().unicode_len() == 0
}

// ───────────────────────── searching and replacing ─────────────────────────

/// Whether `pat` occurs in `s` starting at index `i`.
pub open spec fn occurs_at(s: Seq<char>, i: int, pat: Seq<char>) -> bool {
    0 <= i && i + pat.len() <= s.len() && s.subrange(i, i + pat.len()) == pat
}

fn matches_at(s: &Vec<char>, i: usize, pat: &Vec<char>) -> (r: bool)
    requires
        i <= s.len(),
    ensures
        r == occurs_at(s@, i as int, pat@),
{
    if pat.len() > s.len() - i {
        return false;
    }
    let mut k: usize = 0;
    while k < pat.len()
        invariant
            i + pat.len() <= s.len(),
            k <= pat.len(),
            forall|m: int| 0 <= m < k ==> s@[i + m] == pat@[m],
        decreases pat.len() - k,
    {
        if s[i + k] != pat[k] {
            assert(s@.subrange(i as int, i + pat.len())[k as int] != pat@[k as int]);
            return false;
        }
        k = k + 1;
    }
    assert(s@.subrange(i as int, i + pat.len()) =~= pat@);
    true
}

/// Every occurrence of `from` in `s`, read left to right without overlap,
/// replaced by `to` (what `str::replace` does for a non-empty pattern).
pub open spec fn replace_all_spec(s: Seq<char>, from: Seq<char>, to: Seq<char>) -> Seq<char>
    decreases s.len(),
{
    if s.len() == 0 || from.len() == 0 {
        s
    } else if occurs_at(s, 0, from) {
        to + replace_all_spec(s.skip(from.len() as int), from, to)
    } else {
        seq![s[0]] + replace_all_spec(s.drop_first(), from, to)
    }
}

/// `s` with each occurrence of the non-empty pattern `from` replaced by `to`.
pub fn replace_all(s: &str, from: &str, to: &str) -> (r: String)
    requires
        from@.len() > 0,
    ensures
        r@ == replace_all_spec(s@, from@, to@),
{
    let cs = chars_of(s);
    let pat = chars_of(from);
    let n = cs.len();
    let mut out = String::new();
    let mut i: usize = 0;
    assert(cs@.skip(0) =~= cs@);
    assert(out@ + replace_all_spec(cs@, pat@, to@) =~= replace_all_spec(cs@, pat@, to@));
    while i < n
        invariant
            n == cs@.len(),
            pat@ == from@,
            pat@.len() > 0,
            i <= n,
            replace_all_spec(cs@, pat@, to@) == out@ + replace_all_spec(cs@.skip(i as int), pat@, to@),
        decreases n - i,
    {
        let ghost rest = cs@.skip(i as int);
        if matches_at(&cs, i, &pat) {
            proof {
                assert(rest.subrange(0, pat@.len() as int) =~= cs@.subrange(i as int, i + pat@.len()));
                assert(rest.skip(pat@.len() as int) =~= cs@.skip(i + pat@.len()));
            }
            out.append(to);
            i = i + pat.len();
        } else {
            proof {
                if occurs_at(rest, 0, pat@) {
                    assert(rest.subrange(0, pat@.len() as int) =~= cs@.subrange(i as int, i + pat@.len()));
                }
                assert(rest.drop_first() =~= cs@.skip(i + 1));
                assert(rest[0] == cs@[i as int]);
            }
            push_char(&mut out, cs[i]);
            i = i + 1;
        }
        assert(replace_all_spec(cs@, pat@, to@) =~= out@ + replace_all_spec(cs@.skip(i as int), pat@, to@));
    }
    assert(cs@.skip(n as int) =~= Seq::<char>::empty());
    out
}

/// Whether `c` occurs in `s`.
pub fn has_char(s: &str, c: char) -> (r: bool)
    ensures
        r == s@.contains(c),
{
    let cs = chars_of(s);
    let mut i: usize = 0;
    while i < cs.len()
        invariant
            cs@ == s@,
            i <= cs.len(),
            forall|k: int| 0 <= k < i ==> cs@[k] != c,
        decreases cs.len() - i,
    {
        if cs[i] == c {
            assert(s@[i as int] == c);
            return true;
        }
        i = i + 1;
    }
    false
}

// ───────────────────────── case mapping ─────────────────────────

/// ASCII upper-case letters mapped to lower case, every other character kept.
pub open spec fn ascii_lower_char(c: char) -> char {
    if 'A' <= c && c <= 'Z' {
        ((c as u32) + 32) as char
    } else {
        c
    }
}

pub open spec fn ascii_lower(s: Seq<char>) -> Seq<char> {
    s.map_values(|c: char| ascii_lower_char(c))
}

/// `s` with ASCII letters lower-cased (what `str::to_ascii_lowercase` gives).
pub fn to_ascii_lowercase(s: &str) -> (r: String)
    ensures
        r@ == ascii_lower(s@),
{
    let cs = chars_of(s);
    let mut out = String::new();
    let mut i: usize = 0;
    while i < cs.len()
        invariant
            cs@ == s@,
            i <= cs.len(),
            out@ == ascii_lower(cs@.take(i as int)),
        decreases cs.len() - i,
    {
        let c = cs[i];
        let d = if 'A' <= c && c <= 'Z' {
            ((c as u8) + 32) as char
        } else {
            c
        };
        push_char(&mut out, d);
        proof {
            assert(cs@.take(i + 1) =~= cs@.take(i as int).push(c));
        }
        i = i + 1;
        assert(out@ =~= ascii_lower(cs@.take(i as int)));
    }
    assert(cs@.take(cs.len() as int) =~= cs@);
    out
}

/// What `str::to_lowercase` gives for `s` (the Unicode lower-case mapping).
pub uninterp spec fn unicode_lowercase(s: Seq<char>) -> Seq<char>;

/// Calls `str::to_lowercase`. The contract names its result and claims nothing
/// more: that it depends on `s` alone.
#[verifier::external_body]
pub(crate) fn to_lowercase(s: &str) -> (r: String)
    ensures
        r@ == unicode_lowercase(s@),
{
    s.to_lowercase()
}

/// `s` with every `from` character replaced by `to`.
pub open spec fn replace_char_spec(s: Seq<char>, from: char, to: char) -> Seq<char> {
    s.map_values(|c: char| if c == from { to } else { c })
}

pub fn replace_char(s: &str, from: char, to: char) -> (r: String)
    ensures
        r@ == replace_char_spec(s@, from, to),
{
    let cs = chars_of(s);
    let mut out = String::new();
    let mut i: usize = 0;
    while i < cs.len()
        invariant
            cs@ == s@,
            i <= cs.len(),
            out@ == replace_char_spec(cs@.take(i as int), from, to),
        decreases cs.len() - i,
    {
        let c = cs[i];
        push_char(&mut out, if c == from { to } else { c });
        proof {
            assert(cs@.take(i + 1) =~= cs@.take(i as int).push(c));
        }
        i = i + 1;
        assert(out@ =~= replace_char_spec(cs@.take(i as int), from, to));
    }
    assert(cs@.take(cs.len() as int) =~= cs@);
    out
}

// ───────────────────────── decimal numbers ─────────────────────────

/// The ASCII digit for `d` (`d < 10`).
pub open spec fn digit_char(d: nat) -> char {
    if d == 0 { '0' } else if d == 1 { '1' } else if d == 2 { '2' } else if d == 3 { '3' }
    else if d == 4 { '4' } else if d == 5 { '5' } else if d == 6 { '6' } else if d == 7 { '7' }
    else if d == 8 { '8' } else { '9' }
}

/// The value of an ASCII digit (0 for any other character).
pub open spec fn digit_value(c: char) -> int {
    if c == '1' { 1 } else if c == '2' { 2 } else if c == '3' { 3 } else if c == '4' { 4 }
    else if c == '5' { 5 } else if c == '6' { 6 } else if c == '7' { 7 } else if c == '8' { 8 }
    else if c == '9' { 9 } else { 0 }
}

/// The decimal representation of `n`, without leading zeros.
pub open spec fn decimal(n: nat) -> Seq<char>
    decreases n,
{
    if n < 10 {
        seq![digit_char(n)]
    } else {
        decimal(n / 10).push(digit_char(n % 10))
    }
}

/// `k` copies of `'0'`.
pub open spec fn zeros(k: nat) -> Seq<char> {
    Seq::new(k, |i: int| '0')
}

/// `n` in decimal, left-padded with zeros to at least `width` characters
/// (what `format!("{:0width$}", n)` writes).
pub open spec fn zero_padded(n: nat, width: nat) -> Seq<char> {
    let d = decimal(n);
    if d.len() < width {
        zeros((width - d.len()) as nat) + d
    } else {
        d
    }
}

/// The number that a sequence of ASCII digits spells.
pub open spec fn digits_value(s: Seq<char>) -> int
    decreases s.len(),
{
    if s.len() == 0 {
        0
    } else {
        digits_value(s.drop_last()) * 10 + digit_value(s.last())
    }
}

proof fn lemma_decimal_value(n: nat)
    ensures
        digits_value(decimal(n)) == n,
        decimal(n).len() >= 1,
    decreases n,
{
    if n < 10 {
        let d = decimal(n);
        assert(d.drop_last() =~= Seq::<char>::empty());
        assert(digit_value(digit_char(n)) == n);
        assert(digits_value(d) == digits_value(d.drop_last()) * 10 + digit_value(d.last()));
    } else {
        lemma_decimal_value(n / 10);
        let d = decimal(n);
        assert(d.drop_last() =~= decimal(n / 10));
        assert(d.last() == digit_char(n % 10));
        assert(digit_value(digit_char(n % 10)) == n % 10);
        assert(digits_value(d) == digits_value(d.drop_last()) * 10 + digit_value(d.last()));
        assert((n / 10) * 10 + n % 10 == n);
    }
}

proof fn lemma_zeros_value(k: nat, s: Seq<char>)
    ensures
        digits_value(zeros(k) + s) == digits_value(s),
    decreases s.len() + k,
{
    if s.len() == 0 {
        if k > 0 {
            assert((zeros(k) + s).drop_last() =~= zeros((k - 1) as nat) + s);
            lemma_zeros_value((k - 1) as nat, s);
        } else {
            assert(zeros(k) + s =~= s);
        }
    } else {
        assert((zeros(k) + s).drop_last() =~= zeros(k) + s.drop_last());
        lemma_zeros_value(k, s.drop_last());
    }
}

/// A zero-padded decimal spells back the number it was made from.
pub proof fn lemma_zero_padded_value(n: nat, width: nat)
    ensures
        digits_value(zero_padded(n, width)) == n,
        zero_padded(n, width).len() >= width,
{
    lemma_decimal_value(n);
    let d = decimal(n);
    if d.len() < width {
        lemma_zeros_value((width - d.len()) as nat, d);
    }
}

/// Different numbers give different zero-padded texts.
pub proof fn lemma_zero_padded_injective(m: nat, n: nat, width: nat)
    requires
        zero_padded(m, width) == zero_padded(n, width),
    ensures
        m == n,
{
    lemma_zero_padded_value(m, width);
    lemma_zero_padded_value(n, width);
}

fn push_decimal(n: u32, out: &mut Vec<char>)
    ensures
        final(out)@ == old(out)@ + decimal(n as nat),
    decreases n,
{
    if n >= 10 {
        push_decimal(n / 10, out);
    }
    let d: u32 = n % 10;
    let c = match d {
        0 => '0',
        1 => '1',
        2 => '2',
        3 => '3',
        4 => '4',
        5 => '5',
        6 => '6',
        7 => '7',
        8 => '8',
        _ => '9',
    };
    out.push(c);
    proof {
        assert(c == digit_char((n % 10) as nat));
        if n >= 10 {
            assert(decimal(n as nat) == decimal((n / 10) as nat).push(digit_char((n % 10) as nat)));
        } else {
            assert(n % 10 == n);
        }
    }
    assert(final(out)@ =~= old(out)@ + decimal(n as nat));
}

/// `n` in decimal, zero-padded to at least `width` digits.
pub fn zero_pad(n: u32, width: usize) -> (r: String)
    ensures
        r@ == zero_padded(n as nat, width as nat),
{
    let mut digits: Vec<char> = Vec::new();
    push_decimal(n, &mut digits);
    assert(digits@ =~= decimal(n as nat));
    let mut out: Vec<char> = Vec::new();
    if digits.len() < width {
        let mut k: usize = 0;
        while k < width - digits.len()
            invariant
                digits.len() < width,
                k <= width - digits.len(),
                out@ == zeros(k as nat),
            decreases width - digits.len() - k,
        {
            out.push('0');
            k = k + 1;
            assert(out@ =~= zeros(k as nat));
        }
    }
    let mut i: usize = 0;
    let ghost prefix = out@;
    while i < digits.len()
        invariant
            i <= digits.len(),
            out@ == prefix + digits@.take(i as int),
        decreases digits.len() - i,
    {
        out.push(digits[i]);
        i = i + 1;
        assert(out@ =~= prefix + digits@.take(i as int));
    }
    assert(digits@.take(digits.len() as int) =~= digits@);
    assert(out@ =~= zero_padded(n as nat, width as nat));
    string_from_chars(&out)
}

// ───────────────────────── splitting ─────────────────────────

/// Words of `s` (maximal runs of non-whitespace characters), given that the
/// word being read so far is `cur`.
pub open spec fn words_from(s: Seq<char>, cur: Seq<char>) -> Seq<Seq<char>>
    decreases s.len(),
{
    if s.len() == 0 {
        if cur.len() > 0 {
            seq![cur]
        } else {
            seq![]
        }
    } else if unicode_white_space(s[0]) {
        (if cur.len() > 0 {
            seq![cur]
        } else {
            seq![]
        }) + words_from(s.drop_first(), seq![])
    } else {
        words_from(s.drop_first(), cur.push(s[0]))
    }
}

/// The whitespace-separated words of `s` (what `str::split_whitespace` yields).
pub open spec fn words(s: Seq<char>) -> Seq<Seq<char>> {
    words_from(s, seq![])
}

/// The characters of `s` that are not whitespace, in order.
pub open spec fn non_white_chars(s: Seq<char>) -> Seq<char>
    decreases s.len(),
{
    if s.len() == 0 {
        seq![]
    } else if unicode_white_space(s[0]) {
        non_white_chars(s.drop_first())
    } else {
        seq![s[0]] + non_white_chars(s.drop_first())
    }
}

/// No character of `s` is whitespace.
pub open spec fn no_white_space(s: Seq<char>) -> bool {
    forall|i: int| 0 <= i < s.len() ==> !unicode_white_space(#[trigger] s[i])
}

proof fn lemma_words_from_parts(s: Seq<char>, cur: Seq<char>)
    requires
        no_white_space(cur),
    ensures
        words_from(s, cur).flatten() == cur + non_white_chars(s),
        forall|k: int|
            0 <= k < words_from(s, cur).len() ==> (#[trigger] words_from(s, cur)[k]).len() > 0
                && no_white_space(words_from(s, cur)[k]),
        no_white_space(s) && cur.len() + s.len() > 0 ==> words_from(s, cur) == seq![cur + s],
    decreases s.len(),
{
    let w = words_from(s, cur);
    if s.len() == 0 {
        assert(cur + s =~= cur);
        if cur.len() > 0 {
            seq![cur].lemma_flatten_one_element();
        }
        assert(w.flatten() =~= cur + non_white_chars(s));
    } else if unicode_white_space(s[0]) {
        let rest = s.drop_first();
        lemma_words_from_parts(rest, seq![]);
        let head: Seq<Seq<char>> = if cur.len() > 0 {
            seq![cur]
        } else {
            seq![]
        };
        lemma_flatten_concat(head, words_from(rest, seq![]));
        if cur.len() > 0 {
            seq![cur].lemma_flatten_one_element();
        }
        assert(head.flatten() =~= cur);
        assert(seq![] + non_white_chars(rest) =~= non_white_chars(rest));
        assert(w == head + words_from(rest, seq![]));
        assert forall|k: int| 0 <= k < w.len() implies (#[trigger] w[k]).len() > 0 && no_white_space(w[k]) by {
            if k >= head.len() {
                assert(w[k] == words_from(rest, seq![])[k - head.len()]);
            }
        }
        assert(!no_white_space(s)) by {
            assert(unicode_white_space(s[0]));
        }
    } else {
        let rest = s.drop_first();
        let c2 = cur.push(s[0]);
        assert(no_white_space(c2)) by {
            assert forall|i: int| 0 <= i < c2.len() implies !unicode_white_space(#[trigger] c2[i]) by {
                if i < cur.len() {
                    assert(c2[i] == cur[i]);
                }
            }
        }
        lemma_words_from_parts(rest, c2);
        assert(c2 + non_white_chars(rest) =~= cur + non_white_chars(s));
        assert(c2 + rest =~= cur + s);
        if no_white_space(s) {
            assert(no_white_space(rest)) by {
                assert forall|i: int| 0 <= i < rest.len() implies !unicode_white_space(#[trigger] rest[i]) by {
                    assert(rest[i] == s[i + 1]);
                }
            }
        }
    }
}

/// Words are split at whitespace only: each word is a non-empty run of
/// characters that are not whitespace, the words joined together give every
/// character of `s` that is not whitespace, in order, and a non-empty text
/// without whitespace is one word, itself.
pub proof fn law_words_split_at_white_space_only(s: Seq<char>)
    ensures
        words(s).flatten() == non_white_chars(s),
        forall|k: int| 0 <= k < words(s).len() ==> (#[trigger] words(s)[k]).len() > 0 && no_white_space(words(s)[k]),
        no_white_space(s) && s.len() > 0 ==> words(s) == seq![s],
{
    lemma_words_from_parts(s, seq![]);
    assert(Seq::<char>::empty() + non_white_chars(s) =~= non_white_chars(s));
    assert(Seq::<char>::empty() + s =~= s);
}

/// The views of a sequence of strings.
pub open spec fn views(v: Seq<String>) -> Seq<Seq<char>> {
    v.map_values(|w: String| w@)
}

/// The whitespace-separated words of `s`.
pub fn split_whitespace(s: &str) -> (r: Vec<String>)
    ensures
        views(r@) == words(s@),
        views(r@).flatten() == non_white_chars(s@),
        forall|k: int| 0 <= k < r.len() ==> (#[trigger] r@[k]@).len() > 0 && no_white_space(r@[k]@),
        no_white_space(s@) && s@.len() > 0 ==> views(r@) == seq![s@],
{
    proof {
        law_words_split_at_white_space_only(s@);
    }
    let cs = chars_of(s);
    let mut out: Vec<String> = Vec::new();
    let mut cur: Vec<char> = Vec::new();
    let mut i: usize = 0;
    assert(cs@.skip(0) =~= cs@);
    assert(views(out@) + words_from(cs@, cur@) =~= words(s@));
    while i < cs.len()
        invariant
            cs@ == s@,
            i <= cs.len(),
            views(out@) + words_from(cs@.skip(i as int), cur@) == words(s@),
        decreases cs.len() - i,
    {
        let ghost rest = cs@.skip(i as int);
        let ghost old_out = out@;
        let c = cs[i];
        assert(rest[0] == c);
        assert(rest.drop_first() =~= cs@.skip(i + 1));
        if char_is_whitespace(c) {
            if cur.len() > 0 {
                let w = string_from_chars(&cur);
                out.push(w);
                assert(views(out@) =~= views(old_out) + seq![cur@]);
            }
            cur = Vec::new();
        } else {
            cur.push(c);
        }
        i = i + 1;
        assert(views(out@) + words_from(cs@.skip(i as int), cur@) =~= words(s@));
    }
    let ghost old_out = out@;
    if cur.len() > 0 {
        let w = string_from_chars(&cur);
        out.push(w);
        assert(views(out@) =~= views(old_out) + seq![cur@]);
    }
    assert(cs@.skip(cs.len() as int) =~= Seq::<char>::empty());
    assert(views(out@) =~= words(s@));
    assert forall|k: int| 0 <= k < out.len() implies (#[trigger] out@[k]@).len() > 0 && no_white_space(
        out@[k]@,
    ) by {
        assert(views(out@)[k] == out@[k]@);
    }
    out
}

/// The part of `s` before the first `sep` (all of `s` when there is none):
/// the first item of `str::split(sep)`.
pub open spec fn before_first(s: Seq<char>, sep: char) -> Seq<char>
    decreases s.len(),
{
    if s.len() == 0 || s[0] == sep {
        seq![]
    } else {
        seq![s[0]] + before_first(s.drop_first(), sep)
    }
}

pub fn prefix_before(s: &str, sep: char) -> (r: String)
    ensures
        r@ == before_first(s@, sep),
{
    let cs = chars_of(s);
    let mut i: usize = 0;
    assert(cs@.skip(0) =~= cs@);
    assert(cs@.take(0) + before_first(cs@, sep) =~= before_first(cs@, sep));
    while i < cs.len() && cs[i] != sep
        invariant
            cs@ == s@,
            i <= cs.len(),
            before_first(cs@, sep) == cs@.take(i as int) + before_first(cs@.skip(i as int), sep),
        decreases cs.len() - i,
    {
        proof {
            let rest = cs@.skip(i as int);
            assert(rest[0] == cs@[i as int]);
            assert(rest.drop_first() =~= cs@.skip(i + 1));
            assert(cs@.take(i + 1) =~= cs@.take(i as int).push(cs@[i as int]));
            assert(cs@.take(i as int) + before_first(rest, sep) =~= cs@.take(i + 1) + before_first(cs@.skip(i + 1), sep));
        }
        i = i + 1;
    }
    proof {
        let rest = cs@.skip(i as int);
        if i < cs.len() {
            assert(rest[0] == sep);
        }
        assert(cs@.take(i as int) + before_first(rest, sep) =~= cs@.subrange(0, i as int));
    }
    string_from_range(&cs, 0, i)
}

// ───────────────────────── comparing ─────────────────────────

/// Whether `a` and `b` hold the same characters.
pub fn same_text(a: &str, b: &str) -> (r: bool)
    ensures
        r == (a@ == b@),
{
    let x = chars_of(a);
    let y = chars_of(b);
    if x.len() != y.len() {
        return false;
    }
    let mut i: usize = 0;
    while i < x.len()
        invariant
            x@ == a@,
            y@ == b@,
            x.len() == y.len(),
            i <= x.len(),
            forall|k: int| 0 <= k < i ==> x@[k] == y@[k],
        decreases x.len() - i,
    {
        if x[i] != y[i] {
            return false;
        }
        i = i + 1;
    }
    assert(x@ =~= y@);
    true
}

// ───────────────────────── UTF-16 ─────────────────────────

/// The UTF-16 code units of one character: itself below U+10000, otherwise a
/// surrogate pair.
pub open spec fn utf16_of_char(c: char) -> Seq<u16> {
    let v = c as u32;
    if v < 0x10000 {
        seq![v as u16]
    } else {
        let w = (v - 0x10000) as u32;
        seq![(0xD800 + w / 0x400) as u16, (0xDC00 + w % 0x400) as u16]
    }
}

/// The UTF-16 code units of a character sequence.
pub open spec fn utf16_of(s: Seq<char>) -> Seq<u16>
    decreases s.len(),
{
    if s.len() == 0 {
        seq![]
    } else {
        utf16_of(s.drop_last()) + utf16_of_char(s.last())
    }
}

/// `s` in UTF-16 followed by a terminating 0, as Windows APIs take text.
pub fn to_wide(s: &str) -> (r: Vec<u16>)
    ensures
        r@ == utf16_of(s@).push(0u16),
{
    let cs = chars_of(s);
    let mut out: Vec<u16> = Vec::new();
    let mut i: usize = 0;
    while i < cs.len()
        invariant
            cs@ == s@,
            i <= cs.len(),
            out@ == utf16_of(cs@.take(i as int)),
        decreases cs.len() - i,
    {
        let c = cs[i];
        let v = c as u32;
        let ghost before = out@;
        if v < 0x10000 {
            out.push(v as u16);
        } else {
            let w = v - 0x10000;
            out.push((0xD800 + w / 0x400) as u16);
            out.push((0xDC00 + w % 0x400) as u16);
        }
        proof {
            let t = cs@.take(i + 1);
            assert(t.drop_last() =~= cs@.take(i as int));
            assert(t.last() == c);
            assert(out@ =~= before + utf16_of_char(c));
        }
        i = i + 1;
    }
    assert(cs@.take(cs.len() as int) =~= cs@);
    out.push(0);
    out
}

} // verus!
