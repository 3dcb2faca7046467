//! Text: decimal numbers, white space, splitting.
//!
//! Contracts speak of a string as the sequence of its characters.
use vstd::prelude::*;
use vstd::string::*;

use crate::seqs;

verus! {

// ── Decimal numbers ──────────────────────────────────────────────────────
/// The character of one decimal digit.
pub open spec fn digit_char(d: nat) -> char {
    (48 + d) as char
}

/// `n` written in decimal, without leading zeros.
pub open spec fn dec(n: nat) -> Seq<char>
    decreases n,
{
    if n < 10 {
        seq![digit_char(n)]
    } else {
        dec(n / 10).push(digit_char(n % 10))
    }
}

fn digit_text(d: u64) -> (r: &'static str)
    requires
        d < 10,
    ensures
        r@ == seq![digit_char(d as nat)],
{
    proof {
        reveal_strlit("0");
        reveal_strlit("1");
        reveal_strlit("2");
        reveal_strlit("3");
        reveal_strlit("4");
        reveal_strlit("5");
        reveal_strlit("6");
        reveal_strlit("7");
        reveal_strlit("8");
        reveal_strlit("9");
    }
    if d == 0 {
        "0"
    } else if d == 1 {
        "1"
    } else if d == 2 {
        "2"
    } else if d == 3 {
        "3"
    } else if d == 4 {
        "4"
    } else if d == 5 {
        "5"
    } else if d == 6 {
        "6"
    } else if d == 7 {
        "7"
    } else if d == 8 {
        "8"
    } else {
        "9"
    }
}

/// Writes `n` in decimal.
pub fn dec_text(n: u64) -> (r: String)
    ensures
        r@ == dec(n as nat),
    decreases n,
{
    if n < 10 {
        digit_text(n).to_owned()
    } else {
        let mut s = dec_text(n / 10);
        s.append(digit_text(n % 10));
        proof {
            assert(dec(n as nat) =~= dec((n / 10) as nat) + seq![digit_char((n % 10) as nat)]);
        }
        s
    }
}

/// Different numbers are written differently.
pub proof fn lemma_dec_injective(a: nat, b: nat)
    requires
        dec(a) == dec(b),
    ensures
        a == b,
    decreases a,
{
    lemma_dec_len(a);
    lemma_dec_len(b);
    if a >= 10 && b >= 10 {
        assert(dec(a).drop_last() =~= dec(a / 10));
        assert(dec(b).drop_last() =~= dec(b / 10));
        assert(dec(a).last() == digit_char(a % 10));
        assert(dec(b).last() == digit_char(b % 10));
        lemma_dec_injective(a / 10, b / 10);
    } else {
        assert(dec(a)[0] == dec(b)[0]);
        assert(dec(a).last() == dec(b).last());
    }
}

/// A number has one digit exactly where it is below ten.
proof fn lemma_dec_len(n: nat)
    ensures
        n < 10 ==> dec(n).len() == 1 && dec(n)[0] == digit_char(n),
        n >= 10 ==> dec(n).len() >= 2,
    decreases n,
{
    if n >= 10 {
        lemma_dec_len(n / 10);
    }
}

/// `true` or `false`, spelled out.
pub open spec fn bool_chars(b: bool) -> Seq<char> {
    if b {
        "true"@
    } else {
        "false"@
    }
}

/// Writes a truth value.
pub fn bool_text(b: bool) -> (r: String)
    ensures
        r@ == bool_chars(b),
{
    if b {
        "true".to_owned()
    } else {
        "false".to_owned()
    }
}

// ── Comparing and joining ────────────────────────────────────────────────
/// Whether two strings hold the same characters.
pub fn same_text(a: &str, b: &str) -> (r: bool)
    ensures
        r == (a@ == b@),
{
    a.to_owned() == b.to_owned()
}

/// `a` followed by `b`.
pub fn join2(a: &str, b: &str) -> (r: String)
    ensures
        r@ == a@ + b@,
{
    let mut s = a.to_owned();
    s.append(b);
    s
}

/// `a`, `b` and `c` in a row.
pub fn join3(a: &str, b: &str, c: &str) -> (r: String)
    ensures
        r@ == a@ + b@ + c@,
{
    let mut s = a.to_owned();
    s.append(b);
    s.append(c);
    s
}

/// The strings of `parts` with `sep` between each two of them.
pub open spec fn joined(parts: Seq<Seq<char>>, sep: Seq<char>) -> Seq<char>
    decreases parts.len(),
{
    if parts.len() == 0 {
        Seq::empty()
    } else if parts.len() == 1 {
        parts[0]
    } else {
        joined(parts.drop_last(), sep) + sep + parts.last()
    }
}

/// Joins strings with a separator.
pub fn join_all(parts: &Vec<String>, sep: &str) -> (r: String)
    ensures
        r@ == joined(parts.deep_view(), sep@),
{
    let mut out = String::new();
    let mut i: usize = 0;
    let ghost all = parts.deep_view();
    while i < parts.len()
        invariant
            0 <= i <= parts.len(),
            all == parts.deep_view(),
            out@ == joined(all.take(i as int), sep@),
        decreases parts.len() - i,
    {
        proof {
            assert(all.take(i + 1).drop_last() =~= all.take(i as int));
            assert(all.take(i + 1).last() == parts[i as int]@);
        }
        if i > 0 {
            out.append(sep);
        }
        let ghost before = out@;
        out.append(parts[i].as_str());
        proof {
            if i == 0 {
                assert(out@ =~= all.take(1)[0]);
            }
        }
        i += 1;
    }
    proof {
        assert(all.take(parts.len() as int) =~= all);
    }
    out
}

/// A copy of a list of strings.
pub fn copy_texts(v: &Vec<String>) -> (r: Vec<String>)
    ensures
        r.deep_view() == v.deep_view(),
{
    let mut out: Vec<String> = Vec::new();
    let mut i: usize = 0;
    while i < v.len()
        invariant
            0 <= i <= v.len(),
            out.len() == i,
            forall|j: int| 0 <= j < i ==> (#[trigger] out[j])@ == v[j]@,
        decreases v.len() - i,
    {
        out.push(v[i].clone());
        i += 1;
    }
    assert(out.deep_view() =~= v.deep_view());
    out
}

/// A copy of an optional string.
pub fn copy_opt(o: &Option<String>) -> (r: Option<String>)
    ensures
        r.deep_view() == o.deep_view(),
{
    match o {
        Some(s) => Some(s.clone()),
        None => None,
    }
}

// ── Searching ────────────────────────────────────────────────────────────
/// Selects the characters equal to `c`.
pub open spec fn is_char(c: char) -> spec_fn(char) -> bool {
    |x: char| x == c
}

/// Finds the first occurrence of `c`.
pub fn find_char(s: &str, c: char) -> (r: Option<usize>)
    ensures
        match r {
            Some(i) => seqs::position(s@, is_char(c)) == Some(i as int) && i < s@.len(),
            None => seqs::position(s@, is_char(c)) is None,
        },
{
    let n: usize = s.unicode_len();
    let mut i: usize = 0;
    while i < n
        invariant
            0 <= i <= n,
            n == s@.len(),
            forall|j: int| 0 <= j < i ==> (#[trigger] s@[j]) != c,
        decreases n - i,
    {
        if s.get_char(i) == c {
            proof {
                seqs::lemma_position_is(s@, is_char(c), i as int);
            }
            return Some(i);
        }
        i += 1;
    }
    proof {
        seqs::lemma_position_none(s@, is_char(c));
    }
    None
}

/// What stands before the first `c`; all of `s` where there is none.
pub open spec fn before(s: Seq<char>, c: char) -> Seq<char> {
    match seqs::position(s, is_char(c)) {
        Some(i) => s.take(i),
        None => s,
    }
}

/// What stands behind the first `c`; nothing where there is none.
pub open spec fn after(s: Seq<char>, c: char) -> Seq<char> {
    match seqs::position(s, is_char(c)) {
        Some(i) => s.skip(i + 1),
        None => Seq::empty(),
    }
}

/// The part of `s` before the first `c`.
pub fn text_before<'a>(s: &'a str, c: char) -> (r: &'a str)
    ensures
        r@ == before(s@, c),
{
    match find_char(s, c) {
        Some(i) => {
            let r = s.substring_char(0, i);
            assert(r@ =~= s@.take(i as int));
            r
        },
        None => s,
    }
}

/// The part of `s` behind the first `c`.
pub fn text_after<'a>(s: &'a str, c: char) -> (r: &'a str)
    ensures
        r@ == after(s@, c),
{
    let n: usize = s.unicode_len();
    match find_char(s, c) {
        Some(i) => {
            let r = s.substring_char(i + 1, n);
            assert(r@ =~= s@.skip(i + 1));
            r
        },
        None => {
            let r = s.substring_char(n, n);
            assert(r@ =~= Seq::<char>::empty());
            r
        },
    }
}

/// Whether `s` begins with `p`.
pub fn begins_with(s: &str, p: &str) -> (r: bool)
    ensures
        r == p@.is_prefix_of(s@),
{
    let n: usize = s.unicode_len();
    let m: usize = p.unicode_len();
    if m > n {
        return false;
    }
    let h = s.substring_char(0, m);
    assert(h@ =~= s@.take(m as int));
    proof {
        if p@ == h@ {
            assert(p@ =~= s@.subrange(0, p@.len() as int));
        }
        if p@.is_prefix_of(s@) {
            assert(p@ =~= h@);
        }
    }
    same_text(p, h)
}

// ── White space ──────────────────────────────────────────────────────────
/// The characters with the Unicode property `White_Space`.
pub open spec fn is_white(c: char) -> bool {
    let n = c as int;
    ||| 0x09 <= n <= 0x0d
    ||| n == 0x20
    ||| n == 0x85
    ||| n == 0xa0
    ||| n == 0x1680
    ||| 0x2000 <= n <= 0x200a
    ||| n == 0x2028
    ||| n == 0x2029
    ||| n == 0x202f
    ||| n == 0x205f
    ||| n == 0x3000
}

pub fn white(c: char) -> (r: bool)
    ensures
        r == is_white(c),
{
    let n: u32 = c as u32;
    (0x09 <= n && n <= 0x0d) || n == 0x20 || n == 0x85 || n == 0xa0 || n == 0x1680 || (0x2000 <= n
        && n <= 0x200a) || n == 0x2028 || n == 0x2029 || n == 0x202f || n == 0x205f || n == 0x3000
}

/// `s` without its leading white space.
pub open spec fn trim_start(s: Seq<char>) -> Seq<char>
    decreases s.len(),
{
    if s.len() > 0 && is_white(s[0]) {
        trim_start(s.skip(1))
    } else {
        s
    }
}

/// `s` without its trailing white space.
pub open spec fn trim_end(s: Seq<char>) -> Seq<char>
    decreases s.len(),
{
    if s.len() > 0 && is_white(s.last()) {
        trim_end(s.drop_last())
    } else {
        s
    }
}

/// `s` without leading and trailing white space.
pub open spec fn trimmed(s: Seq<char>) -> Seq<char> {
    trim_end(trim_start(s))
}

proof fn lemma_trim_start(s: Seq<char>, i: int)
    requires
        0 <= i <= s.len(),
        forall|j: int| 0 <= j < i ==> is_white(#[trigger] s[j]),
        i == s.len() || !is_white(s[i]),
    ensures
        trim_start(s) == s.skip(i),
    decreases i,
{
    if i == 0 {
        assert(s.skip(0) =~= s);
    } else {
        assert(is_white(s[0]));
        assert forall|j: int| 0 <= j < i - 1 implies is_white(#[trigger] s.skip(1)[j]) by {
            assert(s.skip(1)[j] == s[j + 1]);
        }
        lemma_trim_start(s.skip(1), i - 1);
        assert(s.skip(1).skip(i - 1) =~= s.skip(i));
    }
}

proof fn lemma_trim_end(s: Seq<char>, i: int)
    requires
        0 <= i <= s.len(),
        forall|j: int| i <= j < s.len() ==> is_white(#[trigger] s[j]),
        i == 0 || !is_white(s[i - 1]),
    ensures
        trim_end(s) == s.take(i),
    decreases s.len() - i,
{
    if i == s.len() {
        assert(s.take(i) =~= s);
    } else {
        assert(is_white(s.last()));
        lemma_trim_end(s.drop_last(), i);
        assert(s.drop_last().take(i) =~= s.take(i));
    }
}

/// Trims white space at both ends.
pub fn trim<'a>(s: &'a str) -> (r: &'a str)
    ensures
        r@ == trimmed(s@),
{
    let n: usize = s.unicode_len();
    let mut i: usize = 0;
    while i < n && white(s.get_char(i))
        invariant
            0 <= i <= n,
            n == s@.len(),
            forall|j: int| 0 <= j < i ==> is_white(#[trigger] s@[j]),
        decreases n - i,
    {
        i += 1;
    }
    let mut k: usize = n;
    while i < k && white(s.get_char(k - 1))
        invariant
            0 <= i <= k <= n,
            n == s@.len(),
            forall|j: int| k <= j < n ==> is_white(#[trigger] s@[j]),
        decreases k,
    {
        k -= 1;
    }
    proof {
        lemma_trim_start(s@, i as int);
        let t = s@.skip(i as int);
        assert forall|j: int| k - i <= j < t.len() implies is_white(#[trigger] t[j]) by {
            assert(t[j] == s@[j + i]);
        }
        lemma_trim_end(t, k - i);
        assert(t.take(k - i) =~= s@.subrange(i as int, k as int));
    }
    s.substring_char(i, k)
}

/// The length of the leading run of characters that are not white space.
pub open spec fn word_len(s: Seq<char>) -> int
    decreases s.len(),
{
    if s.len() > 0 && !is_white(s[0]) {
        1 + word_len(s.skip(1))
    } else {
        0
    }
}

proof fn lemma_word_len(s: Seq<char>, i: int)
    requires
        0 <= i <= s.len(),
        forall|j: int| 0 <= j < i ==> !is_white(#[trigger] s[j]),
        i == s.len() || is_white(s[i]),
    ensures
        word_len(s) == i,
    decreases i,
{
    if i > 0 {
        assert(!is_white(s[0]));
        assert forall|j: int| 0 <= j < i - 1 implies !is_white(#[trigger] s.skip(1)[j]) by {
            assert(s.skip(1)[j] == s[j + 1]);
        }
        lemma_word_len(s.skip(1), i - 1);
    }
}

pub proof fn lemma_trim_start_shorter(s: Seq<char>)
    ensures
        trim_start(s).len() <= s.len(),
        trim_start(s).len() > 0 ==> !is_white(trim_start(s)[0]),
    decreases s.len(),
{
    if s.len() > 0 && is_white(s[0]) {
        lemma_trim_start_shorter(s.skip(1));
    }
}

pub proof fn lemma_word_len_bounds(s: Seq<char>)
    ensures
        0 <= word_len(s) <= s.len(),
        s.len() > 0 && !is_white(s[0]) ==> word_len(s) > 0,
    decreases s.len(),
{
    if s.len() > 0 && !is_white(s[0]) {
        lemma_word_len_bounds(s.skip(1));
    }
}

/// The maximal runs of `s` without white space, in order.
pub open spec fn words(s: Seq<char>) -> Seq<Seq<char>>
    decreases s.len(),
{
    let t = trim_start(s);
    if t.len() == 0 {
        Seq::empty()
    } else {
        proof {
            lemma_trim_start_shorter(s);
            lemma_word_len_bounds(t);
        }
        seq![t.take(word_len(t))] + words(t.skip(word_len(t)))
    }
}

/// Splits a string at white space.
pub fn split_words(s: &str) -> (r: Vec<String>)
    ensures
        r.deep_view() == words(s@),
{
    let n: usize = s.unicode_len();
    let mut out: Vec<String> = Vec::new();
    let mut i: usize = 0;
    assert(s@.skip(0) =~= s@);
    assert(out.deep_view() =~= Seq::<Seq<char>>::empty());
    assert(out.deep_view() + words(s@) =~= words(s@));
    while i < n
        invariant
            0 <= i <= n,
            n == s@.len(),
            out.deep_view() + words(s@.skip(i as int)) == words(s@),
        decreases n - i,
    {
        let ghost rest = s@.skip(i as int);
        let ghost from = i as int;
        while i < n && white(s.get_char(i))
            invariant
                from <= i <= n,
                0 <= from,
                n == s@.len(),
                forall|j: int| from <= j < i ==> is_white(#[trigger] s@[j]),
            decreases n - i,
        {
            i += 1;
        }
        let start: usize = i;
        while i < n && !white(s.get_char(i))
            invariant
                start <= i <= n,
                n == s@.len(),
                forall|j: int| start <= j < i ==> !is_white(#[trigger] s@[j]),
            decreases n - i,
        {
            i += 1;
        }
        proof {
            assert forall|j: int| 0 <= j < start - from implies is_white(#[trigger] rest[j]) by {
                assert(rest[j] == s@[from + j]);
            }
            lemma_trim_start(rest, start - from);
            let t = rest.skip(start - from);
            assert(t =~= s@.skip(start as int));
            assert forall|j: int| 0 <= j < i - start implies !is_white(#[trigger] t[j]) by {
                assert(t[j] == s@[start + j]);
            }
            lemma_word_len(t, i - start);
            assert(t.skip(i - start) =~= s@.skip(i as int));
            assert(t.take(i - start) =~= s@.subrange(start as int, i as int));
        }
        if start < n {
            let w = s.substring_char(start, i).to_owned();
            let ghost old_view = out.deep_view();
            out.push(w);
            proof {
                assert(out.deep_view() =~= old_view.push(w@));
                assert(out.deep_view() + words(s@.skip(i as int)) =~= old_view + (seq![w@]
                    + words(s@.skip(i as int))));
            }
        }
    }
    proof {
        assert(s@.skip(i as int) =~= Seq::<char>::empty());
        assert(words(Seq::<char>::empty()) =~= Seq::<Seq<char>>::empty());
        assert(out.deep_view() + words(s@.skip(i as int)) =~= out.deep_view());
    }
    out
}

/// The pieces of `s` between the occurrences of `c`.
pub open spec fn pieces(s: Seq<char>, c: char) -> Seq<Seq<char>>
    decreases s.len(),
{
    match seqs::position(s, is_char(c)) {
        Some(i) => if 0 <= i < s.len() {
            seq![s.take(i)] + pieces(s.skip(i + 1), c)
        } else {
            seq![s]
        },
        None => seq![s],
    }
}

/// Splits a string at every `c` and trims each piece.
pub fn split_trimmed(s: &str, c: char) -> (r: Vec<String>)
    ensures
        r.deep_view() == pieces(s@, c).map_values(|p: Seq<char>| trimmed(p)),
{
    let mut out: Vec<String> = Vec::new();
    let mut rest: &str = s;
    let ghost f = |p: Seq<char>| trimmed(p);
    assert(out.deep_view() + pieces(s@, c).map_values(f) =~= pieces(s@, c).map_values(f));
    loop
        invariant
            f == (|p: Seq<char>| trimmed(p)),
            out.deep_view() + pieces(rest@, c).map_values(f) == pieces(s@, c).map_values(f),
        decreases rest@.len(),
    {
        let ghost old_view = out.deep_view();
        match find_char(rest, c) {
            Some(i) => {
                let n: usize = rest.unicode_len();
                let head = rest.substring_char(0, i);
                let tail = rest.substring_char(i + 1, n);
                let w = trim(head).to_owned();
                out.push(w);
                proof {
                    assert(head@ =~= rest@.take(i as int));
                    assert(tail@ =~= rest@.skip(i + 1));
                    assert(out.deep_view() =~= old_view.push(f(head@)));
                    assert(out.deep_view() + pieces(tail@, c).map_values(f) =~= old_view + pieces(
                        rest@,
                        c,
                    ).map_values(f));
                }
                rest = tail;
            },
            None => {
                let w = trim(rest).to_owned();
                out.push(w);
                proof {
                    assert(out.deep_view() =~= old_view + pieces(rest@, c).map_values(f));
                }
                return out;
            },
        }
    }
}

// ── Quoting ──────────────────────────────────────────────────────────────
/// What the standard library's debug formatting makes of a string: the
/// characters in double quotes, with escapes.
pub uninterp spec fn debug_chars(s: Seq<char>) -> Seq<char>;

/// Quotes a string for a message. Calls the standard library's `{:?}`
/// formatting of `str`; the contract only names what that returns.
#[verifier::external_body]
pub(crate) fn debug_text(s: &str) -> (r: String)
    ensures
        r@ == debug_chars(s@),
{
    format!("{:?}", s)
}

// ── Laws ─────────────────────────────────────────────────────────────────
/// A text that holds a character is parted at its first occurrence; one that
/// does not is all in front.
pub proof fn law_text_is_parted(s: Seq<char>, c: char)
    ensures
        !before(s, c).contains(c),
        s.contains(c) ==> s == before(s, c) + seq![c] + after(s, c),
        !s.contains(c) ==> before(s, c) == s && after(s, c).len() == 0,
{
    let p = is_char(c);
    seqs::lemma_position(s, p);
    if s.contains(c) {
        let k = choose|k: int| 0 <= k < s.len() && s[k] == c;
        assert(p(s[k]));
        let i = seqs::position(s, p)->0;
        assert(s =~= before(s, c) + seq![c] + after(s, c));
        assert forall|j: int| 0 <= j < i implies #[trigger] before(s, c)[j] != c by {
            assert(!p(s[j]));
        }
    } else if seqs::position(s, p) is Some {
        let i = seqs::position(s, p)->0;
        assert(s[i] == c);
    }
}

/// Where the first part does not hold the character, a text that was put
/// together from two is parted into them.
pub proof fn law_parts_are_found_again(a: Seq<char>, c: char, b: Seq<char>)
    requires
        !a.contains(c),
    ensures
        before(a + seq![c] + b, c) == a,
        after(a + seq![c] + b, c) == b,
{
    let s = a + seq![c] + b;
    let p = is_char(c);
    assert forall|j: int| 0 <= j < a.len() implies !p(#[trigger] s[j]) by {
        assert(a[j] == s[j]);
        assert(a.contains(a[j]));
    }
    assert(s[a.len() as int] == c);
    seqs::lemma_position_is(s, p, a.len() as int);
    assert(before(s, c) =~= a);
    assert(after(s, c) =~= b);
}

/// A text without the white space around it neither begins nor ends with white
/// space, and nothing else was taken away.
pub proof fn law_trimmed_text(s: Seq<char>)
    ensures
        trimmed(s).len() > 0 ==> !is_white(trimmed(s)[0]) && !is_white(trimmed(s).last()),
        exists|i: int, j: int| #[trigger] is_core(s, i, j) && trimmed(s) == s.subrange(i, j),
        s.len() > 0 && !is_white(s[0]) && !is_white(s.last()) ==> trimmed(s) == s,
{
    let i = lemma_trim_start_at(s);
    let t = trim_start(s);
    let j = lemma_trim_end_at(t);
    assert(trimmed(s) =~= s.subrange(i, i + j));
    assert forall|k: int| i + j <= k < s.len() implies is_white(#[trigger] s[k]) by {
        assert(is_white(t[k - i]));
    }
    assert(is_core(s, i, i + j));
}

/// What is left of a text has no white space at its ends.
pub proof fn lemma_trimmed_ends(s: Seq<char>)
    ensures
        trimmed(s).len() > 0 ==> !is_white(trimmed(s)[0]) && !is_white(trimmed(s).last()),
{
    law_trimmed_text(s);
}

/// Whether everything in front of `i` and from `j` on is white space.
pub open spec fn is_core(s: Seq<char>, i: int, j: int) -> bool {
    &&& 0 <= i <= j <= s.len()
    &&& forall|k: int| 0 <= k < i ==> is_white(#[trigger] s[k])
    &&& forall|k: int| j <= k < s.len() ==> is_white(#[trigger] s[k])
}

proof fn lemma_trim_start_at(s: Seq<char>) -> (i: int)
    ensures
        0 <= i <= s.len(),
        trim_start(s) == s.skip(i),
        forall|k: int| 0 <= k < i ==> is_white(#[trigger] s[k]),
        i < s.len() ==> !is_white(s[i]),
    decreases s.len(),
{
    if s.len() > 0 && is_white(s[0]) {
        let r = s.skip(1);
        let k = lemma_trim_start_at(r);
        assert(r.skip(k) =~= s.skip(k + 1));
        assert forall|m: int| 0 <= m < k + 1 implies is_white(#[trigger] s[m]) by {
            if m > 0 {
                assert(is_white(r[m - 1]));
            }
        }
        k + 1
    } else {
        assert(s.skip(0) =~= s);
        0
    }
}

proof fn lemma_trim_end_at(s: Seq<char>) -> (j: int)
    ensures
        0 <= j <= s.len(),
        trim_end(s) == s.take(j),
        forall|k: int| j <= k < s.len() ==> is_white(#[trigger] s[k]),
        j > 0 ==> !is_white(s[j - 1]),
    decreases s.len(),
{
    if s.len() > 0 && is_white(s.last()) {
        let r = s.drop_last();
        let j = lemma_trim_end_at(r);
        assert(r.take(j) =~= s.take(j));
        assert forall|k: int| j <= k < s.len() implies is_white(#[trigger] s[k]) by {
            if k < r.len() {
                assert(is_white(r[k]));
            }
        }
        j
    } else {
        assert(s.take(s.len() as int) =~= s);
        s.len() as int
    }
}

/// A text is split at every occurrence of a character, and nowhere else.
pub proof fn law_pieces(a: Seq<char>, c: char, b: Seq<char>)
    requires
        !a.contains(c),
    ensures
        pieces(a, c) == seq![a],
        pieces(a + seq![c] + b, c) == seq![a] + pieces(b, c),
{
    let p = is_char(c);
    let s = a + seq![c] + b;
    seqs::lemma_position(a, p);
    if seqs::position(a, p) is Some {
        let i = seqs::position(a, p)->0;
        assert(a[i] == c);
        assert(a.contains(a[i]));
    }
    assert forall|j: int| 0 <= j < a.len() implies !p(#[trigger] s[j]) by {
        assert(a[j] == s[j]);
        assert(a.contains(a[j]));
    }
    assert(s[a.len() as int] == c);
    seqs::lemma_position_is(s, p, a.len() as int);
    assert(s.take(a.len() as int) =~= a);
    assert(s.skip(a.len() as int + 1) =~= b);
}

/// The words of a text are parted by white space, however much of it.
pub proof fn law_words(w: Seq<char>, c: char, rest: Seq<char>)
    requires
        is_white(c),
        forall|i: int| 0 <= i < w.len() ==> !is_white(#[trigger] w[i]),
    ensures
        words(Seq::empty()).len() == 0,
        words(seq![c] + rest) == words(rest),
        w.len() > 0 ==> words(w) == seq![w],
        w.len() > 0 ==> words(w + seq![c] + rest) == seq![w] + words(rest),
{
    let s = seq![c] + rest;
    assert(s.skip(1) =~= rest);
    assert(trim_start(s) == trim_start(rest));
    lemma_words_trimmed(s);
    lemma_words_trimmed(rest);
    if w.len() > 0 {
        lemma_word_len(w, w.len() as int);
        assert(w.take(w.len() as int) =~= w);
        assert(w.skip(w.len() as int) =~= Seq::<char>::empty());
        assert(!is_white(w[0]));
        assert(trim_start(w) == w);
        assert(words(Seq::empty()) =~= Seq::<Seq<char>>::empty());
        assert(words(w) =~= seq![w]);
        let t = w + seq![c] + rest;
        assert(t[0] == w[0]);
        assert forall|j: int| 0 <= j < w.len() implies !is_white(#[trigger] t[j]) by {
            assert(t[j] == w[j]);
        }
        assert(t[w.len() as int] == c);
        lemma_word_len(t, w.len() as int);
        assert(t.take(w.len() as int) =~= w);
        assert(t.skip(w.len() as int) =~= s);
    }
}

proof fn lemma_words_trimmed(s: Seq<char>)
    ensures
        words(s) == words(trim_start(s)),
{
    lemma_trim_start_shorter(s);
    assert(trim_start(trim_start(s)) == trim_start(s));
}

/// A number of more than one digit ends with its last digit, and begins with
/// the number without it.
pub proof fn law_digits(a: nat, d: nat)
    requires
        d < 10,
    ensures
        dec(d) == seq![digit_char(d)],
        a > 0 ==> dec(a * 10 + d) == dec(a).push(digit_char(d)),
{
}

/// Texts are joined with the separator between each two.
pub proof fn law_joined(parts: Seq<Seq<char>>, sep: Seq<char>, last: Seq<char>)
    ensures
        joined(Seq::empty(), sep).len() == 0,
        joined(seq![last], sep) == last,
        parts.len() > 0 ==> joined(parts.push(last), sep) == joined(parts, sep) + sep + last,
{
    assert(parts.push(last).drop_last() =~= parts);
}

/// White space is what Unicode calls so: of the first 128 characters the space,
/// the tabulator and the four line breaks; and no letter, digit or mark.
pub proof fn law_white_space(c: char)
    ensures
        (c as u32) < 0x80 ==> (is_white(c) <==> c == ' ' || c == '\t' || c == '\n' || c == '\r' || c
            as u32 == 0x0b || c as u32 == 0x0c),
        (c as u32) >= 0x80 ==> (is_white(c) <==> c as u32 == 0x85 || c as u32 == 0xa0 || c as u32
            == 0x1680 || 0x2000 <= c as u32 <= 0x200a || c as u32 == 0x2028 || c as u32 == 0x2029
            || c as u32 == 0x202f || c as u32 == 0x205f || c as u32 == 0x3000),
{
}

} // verus!
