//! Character-level text handling shared by every screen's logic: trimming,
//! splitting, searching, and writing numbers in decimal. Strings are reasoned
//! about through their views, sequences of `char`.

use vstd::prelude::*;

verus! {

// ── What std's Unicode tables decide ────────────────────────────────────

/// Whether `c` carries the Unicode `White_Space` property: the ASCII tab,
/// line feed, vertical tab, form feed, carriage return and space, next
/// line, no-break space, the Ogham space mark, the spaces from en quad to
/// hair space, the line and paragraph separators, the narrow no-break
/// space, the medium mathematical space and the ideographic space.
pub open spec fn is_white_space(c: char) -> bool {
    ||| '\u{9}' <= c <= '\u{d}'
    ||| c == ' '
    ||| c == '\u{85}'
    ||| c == '\u{a0}'
    ||| c == '\u{1680}'
    ||| '\u{2000}' <= c <= '\u{200a}'
    ||| c == '\u{2028}'
    ||| c == '\u{2029}'
    ||| c == '\u{202f}'
    ||| c == '\u{205f}'
    ||| c == '\u{3000}'
}

/// Calls `char::is_whitespace`, which reports whether `c` has the Unicode
/// `White_Space` property.
#[verifier::external_body]
pub(crate) fn char_is_whitespace(c: char) -> (r: bool)
    ensures
        r == is_white_space(c),
{
    c.is_whitespace()
}

/// The lowercase mapping `str::to_lowercase` applies to a whole string
/// (Unicode's `Lowercase_Mapping`, with the final-sigma rule).
pub uninterp spec fn lowercase_of(s: Seq<char>) -> Seq<char>;

/// Whether `c` is an ASCII character.
pub open spec fn is_ascii_char(c: char) -> bool {
    c <= '\u{7f}'
}

/// Whether every character of `s` is ASCII.
pub open spec fn all_ascii(s: Seq<char>) -> bool {
    forall|i: int| 0 <= i < s.len() ==> is_ascii_char(#[trigger] s[i])
}

/// `c` with an ASCII capital letter turned into its small letter.
pub open spec fn ascii_lower(c: char) -> char {
    if 'A' <= c <= 'Z' {
        ((c as u32) + 32) as char
    } else {
        c
    }
}

/// `s` with each ASCII capital letter turned into its small letter.
pub open spec fn ascii_lowered(s: Seq<char>) -> Seq<char> {
    s.map_values(|c: char| ascii_lower(c))
}

/// Calls `str::to_lowercase`: the result is named as a function of the text
/// alone, and on ASCII text, which Unicode lowercases letter by letter, it
/// is that text with its capitals made small. Of other text nothing more
/// is claimed.
#[verifier::external_body]
pub(crate) fn str_to_lowercase(s: &str) -> (r: String)
    ensures
        r@ == lowercase_of(s@),
        all_ascii(s@) ==> r@ == ascii_lowered(s@),
{
    s.to_lowercase()
}

/// Calls `String::push`, which appends one character.
#[verifier::external_body]
pub(crate) fn push_char(s: &mut String, c: char)
    ensures
        final(s)@ == old(s)@.push(c),
{
    s.push(c)
}

// ── Specifications ──────────────────────────────────────────────────────

/// `s` with its leading whitespace removed.
pub open spec fn trim_start(s: Seq<char>) -> Seq<char>
    decreases s.len(),
{
    if s.len() > 0 && is_white_space(s[0]) {
        trim_start(s.drop_first())
    } else {
        s
    }
}

/// `s` with its trailing whitespace removed.
pub open spec fn trim_end(s: Seq<char>) -> Seq<char>
    decreases s.len(),
{
    if s.len() > 0 && is_white_space(s.last()) {
        trim_end(s.drop_last())
    } else {
        s
    }
}

/// `s` with whitespace removed from both ends, as `str::trim` gives it.
pub open spec fn trimmed(s: Seq<char>) -> Seq<char> {
    trim_end(trim_start(s))
}

/// Whether `s` is blank: nothing but whitespace, or nothing at all.
pub open spec fn is_blank(s: Seq<char>) -> bool {
    trimmed(s).len() == 0
}

/// The pieces of `s` between occurrences of `sep`, as `str::split` yields
/// them: always at least one piece, empty ones included.
pub open spec fn split_on(s: Seq<char>, sep: char) -> Seq<Seq<char>>
    decreases s.len(),
{
    if s.len() == 0 {
        seq![Seq::<char>::empty()]
    } else {
        let rest = split_on(s.drop_last(), sep);
        if s.last() == sep {
            rest.push(Seq::<char>::empty())
        } else {
            rest.update(rest.len() - 1, rest.last().push(s.last()))
        }
    }
}

/// `parts` joined with `sep` between each two, as `[T]::join` gives it.
pub open spec fn join_with(parts: Seq<Seq<char>>, sep: Seq<char>) -> Seq<char>
    decreases parts.len(),
{
    if parts.len() == 0 {
        Seq::empty()
    } else if parts.len() == 1 {
        parts[0]
    } else {
        join_with(parts.drop_last(), sep) + sep + parts.last()
    }
}

/// Where `c` first occurs in `s`, if it does.
pub open spec fn find_char(s: Seq<char>, c: char) -> Option<int>
    decreases s.len(),
{
    if s.len() == 0 {
        None
    } else {
        match find_char(s.drop_last(), c) {
            Some(i) => Some(i),
            None => if s.last() == c {
                Some(s.len() - 1)
            } else {
                None
            },
        }
    }
}

/// The views of a vector of character vectors.
pub open spec fn views(vs: Seq<Vec<char>>) -> Seq<Seq<char>> {
    vs.map_values(|v: Vec<char>| v@)
}

/// The digit character for `d`, which must be below ten.
pub open spec fn digit(d: nat) -> char
    recommends
        d < 10,
{
    (('0' as u32) + d) as char
}

/// `n` written in decimal, as `Display` writes an unsigned integer.
pub open spec fn decimal(n: nat) -> Seq<char>
    decreases n,
{
    if n < 10 {
        seq![digit(n)]
    } else {
        decimal(n / 10).push(digit(n % 10))
    }
}

/// `n` written in decimal with a leading `-` when negative, as `Display`
/// writes a signed integer.
pub open spec fn signed_decimal(n: int) -> Seq<char> {
    if n < 0 {
        seq!['-'] + decimal((-n) as nat)
    } else {
        decimal(n as nat)
    }
}

/// `n` as `{:02}` writes it: zero-padded to two characters, the sign
/// counting towards the width.
pub open spec fn two_digits(n: int) -> Seq<char> {
    if 0 <= n < 10 {
        seq!['0', digit(n as nat)]
    } else {
        signed_decimal(n)
    }
}

// ── Lemmas ──────────────────────────────────────────────────────────────

proof fn lemma_trim_start_at(s: Seq<char>, a: int)
    requires
        0 <= a <= s.len(),
        forall|i: int| 0 <= i < a ==> is_white_space(#[trigger] s[i]),
        a == s.len() || !is_white_space(s[a]),
    ensures
        trim_start(s) == s.subrange(a, s.len() as int),
    decreases a,
{
    if a == 0 {
        assert(s.subrange(0, s.len() as int) =~= s);
    } else {
        let t = s.drop_first();
        assert forall|i: int| 0 <= i < a - 1 implies is_white_space(#[trigger] t[i]) by {
            assert(t[i] == s[i + 1]);
        }
        lemma_trim_start_at(t, a - 1);
        assert(t.subrange(a - 1, t.len() as int) =~= s.subrange(a, s.len() as int));
    }
}

proof fn lemma_trim_end_at(s: Seq<char>, b: int)
    requires
        0 <= b <= s.len(),
        forall|i: int| b <= i < s.len() ==> is_white_space(#[trigger] s[i]),
        b == 0 || !is_white_space(s[b - 1]),
    ensures
        trim_end(s) == s.subrange(0, b),
    decreases s.len() - b,
{
    if b == s.len() {
        assert(s.subrange(0, b) =~= s);
    } else {
        let t = s.drop_last();
        assert forall|i: int| b <= i < t.len() implies is_white_space(#[trigger] t[i]) by {
            assert(t[i] == s[i]);
        }
        lemma_trim_end_at(t, b);
        assert(t.subrange(0, b) =~= s.subrange(0, b));
    }
}

// ── Executable helpers ──────────────────────────────────────────────────

/// The characters of `s`, in order.
pub fn chars_of(s: &str) -> (v: Vec<char>)
    ensures
        v@ == s@,
{
    let mut v: Vec<char> = Vec::new();
    for c in it: s.chars()
        invariant
            v@ == it.seq().take(it.index() as int),
            it.seq() == s@,
    {
        v.push(c);
    }
    v
}

/// A `String` holding exactly `cs`.
pub fn string_of(cs: &[char]) -> (r: String)
    ensures
        r@ == cs@,
{
    let mut r = String::new();
    let mut i: usize = 0;
    while i < cs.len()
        invariant
            i <= cs.len(),
            r@ == cs@.take(i as int),
        decreases cs.len() - i,
    {
        push_char(&mut r, cs[i]);
        i = i + 1;
        assert(r@ == cs@.take(i as int));
    }
    assert(cs@.take(cs.len() as int) == cs@);
    r
}

/// `cs[from..to]`, as a new vector.
pub fn sub_chars(cs: &[char], from: usize, to: usize) -> (r: Vec<char>)
    requires
        from <= to <= cs.len(),
    ensures
        r@ == cs@.subrange(from as int, to as int),
{
    let mut r: Vec<char> = Vec::new();
    let mut i = from;
    while i < to
        invariant
            from <= i <= to <= cs.len(),
            r@ == cs@.subrange(from as int, i as int),
        decreases to - i,
    {
        r.push(cs[i]);
        i = i + 1;
        assert(r@ =~= cs@.subrange(from as int, i as int));
    }
    r
}

/// Where the trimmed part of `cs` starts and ends.
pub fn trim_range(cs: &[char]) -> (r: (usize, usize))
    ensures
        r.0 <= r.1 <= cs.len(),
        cs@.subrange(r.0 as int, r.1 as int) == trimmed(cs@),
{
    let mut a: usize = 0;
    while a < cs.len() && char_is_whitespace(cs[a])
        invariant
            a <= cs.len(),
            forall|i: int| 0 <= i < a ==> is_white_space(#[trigger] cs@[i]),
        decreases cs.len() - a,
    {
        a = a + 1;
    }
    let mut b: usize = cs.len();
    while b > a && char_is_whitespace(cs[b - 1])
        invariant
            a <= b <= cs.len(),
            forall|i: int| b <= i < cs.len() ==> is_white_space(#[trigger] cs@[i]),
        decreases b - a,
    {
        b = b - 1;
    }
    proof {
        let s = cs@;
        lemma_trim_start_at(s, a as int);
        let t = s.subrange(a as int, s.len() as int);
        assert forall|i: int| b - a <= i < t.len() implies is_white_space(#[trigger] t[i]) by {
            assert(t[i] == s[i + a]);
        }
        if b > a {
            assert(t[b - a - 1] == s[b - 1]);
        }
        lemma_trim_end_at(t, b - a);
        assert(t.subrange(0, b - a) =~= s.subrange(a as int, b as int));
    }
    (a, b)
}

/// `cs` with whitespace removed from both ends.
pub fn trim_chars(cs: &[char]) -> (r: Vec<char>)
    ensures
        r@ == trimmed(cs@),
{
    let (a, b) = trim_range(cs);
    sub_chars(cs, a, b)
}

/// `s` with whitespace removed from both ends, as an owned string.
pub fn trim_str(s: &str) -> (r: String)
    ensures
        r@ == trimmed(s@),
{
    let cs = chars_of(s);
    let t = trim_chars(cs.as_slice());
    string_of(t.as_slice())
}

/// Whether `s` is nothing but whitespace, or nothing at all.
pub fn str_is_blank(s: &str) -> (r: bool)
    ensures
        r == is_blank(s@),
{
    let cs = chars_of(s);
    let (a, b) = trim_range(cs.as_slice());
    a == b
}

/// Whether `c` occurs in `cs`.
pub fn contains_char(cs: &[char], c: char) -> (r: bool)
    ensures
        r == cs@.contains(c),
{
    let mut i: usize = 0;
    while i < cs.len()
        invariant
            i <= cs.len(),
            forall|j: int| 0 <= j < i ==> cs@[j] != c,
        decreases cs.len() - i,
    {
        if cs[i] == c {
            assert(cs@[i as int] == c);
            return true;
        }
        i = i + 1;
    }
    false
}

/// Whether `s` begins with `prefix`.
pub fn starts_with(s: &[char], prefix: &[char]) -> (r: bool)
    ensures
        r == (prefix@.len() <= s@.len() && s@.subrange(0, prefix@.len() as int) == prefix@),
{
    if prefix.len() > s.len() {
        return false;
    }
    let mut i: usize = 0;
    while i < prefix.len()
        invariant
            prefix.len() <= s.len(),
            i <= prefix.len(),
            forall|j: int| 0 <= j < i ==> s@[j] == prefix@[j],
        decreases prefix.len() - i,
    {
        if s[i] != prefix[i] {
            assert(s@.subrange(0, prefix@.len() as int)[i as int] != prefix@[i as int]);
            return false;
        }
        i = i + 1;
    }
    assert(s@.subrange(0, prefix@.len() as int) =~= prefix@);
    true
}

/// Appends `cs` to `s`.
pub(crate) fn push_chars(s: &mut String, cs: &[char])
    ensures
        final(s)@ == old(s)@ + cs@,
{
    let ghost start = s@;
    let mut i: usize = 0;
    while i < cs.len()
        invariant
            i <= cs.len(),
            s@ == start + cs@.take(i as int),
        decreases cs.len() - i,
    {
        push_char(s, cs[i]);
        i = i + 1;
        assert(s@ =~= start + cs@.take(i as int));
    }
    assert(cs@.take(cs.len() as int) =~= cs@);
}

/// Appends `t` to `s`.
pub fn push_str(s: &mut String, t: &str)
    ensures
        final(s)@ == old(s)@ + t@,
{
    let cs = chars_of(t);
    push_chars(s, cs.as_slice());
}

/// `n` written in decimal.
pub fn decimal_string(n: u64) -> (r: String)
    ensures
        r@ == decimal(n as nat),
{
    if n == 0 {
        let mut r = String::new();
        push_char(&mut r, '0');
        assert(r@ =~= decimal(0));
        return r;
    }
    // Digits are produced least significant first, then reversed.
    let mut digits: Vec<char> = Vec::new();
    let mut m = n;
    while m > 0
        invariant
            m <= n,
            m > 0 ==> decimal(n as nat) == decimal(m as nat) + digits@.reverse(),
            m == 0 ==> decimal(n as nat) == digits@.reverse(),
        decreases m,
    {
        let c = char_for_digit(m % 10);
        proof {
            lemma_decimal_step(m as nat, digits@);
        }
        digits.push(c);
        m = m / 10;
    }
    let mut r = String::new();
    let mut i = digits.len();
    while i > 0
        invariant
            i <= digits.len(),
            r@ == digits@.subrange(i as int, digits.len() as int).reverse(),
        decreases i,
    {
        i = i - 1;
        push_char(&mut r, digits[i]);
        assert(r@ =~= digits@.subrange(i as int, digits.len() as int).reverse());
    }
    assert(digits@.subrange(0, digits.len() as int) =~= digits@);
    r
}

proof fn lemma_decimal_step(m: nat, digits: Seq<char>)
    requires
        m > 0,
    ensures
        m / 10 > 0 ==> decimal(m) + digits.reverse() == decimal(m / 10) + digits.push(
            digit(m % 10),
        ).reverse(),
        m / 10 == 0 ==> decimal(m) + digits.reverse() == digits.push(digit(m % 10)).reverse(),
{
    let d = digits.push(digit(m % 10)).reverse();
    assert(d =~= seq![digit(m % 10)] + digits.reverse());
    if m < 10 {
        assert(decimal(m) =~= seq![digit(m)]);
        assert(decimal(m) + digits.reverse() =~= d);
    } else {
        assert(decimal(m) == decimal(m / 10).push(digit(m % 10)));
        assert(decimal(m / 10).push(digit(m % 10)) + digits.reverse() =~= decimal(m / 10) + d);
    }
}

/// The character for a digit below ten.
pub fn char_for_digit(d: u64) -> (c: char)
    requires
        d < 10,
    ensures
        c == digit(d as nat),
{
    match d {
        0 => '0',
        1 => '1',
        2 => '2',
        3 => '3',
        4 => '4',
        5 => '5',
        6 => '6',
        7 => '7',
        8 => '8',
        _ => '9',
    }
}

/// `n` written in decimal, with a `-` when negative.
pub fn signed_decimal_string(n: i64) -> (r: String)
    ensures
        r@ == signed_decimal(n as int),
{
    if n < 0 {
        let magnitude: u64 = (0i128 - (n as i128)) as u64;
        let mut r = String::new();
        push_char(&mut r, '-');
        let digits = decimal_string(magnitude);
        push_str(&mut r, digits.as_str());
        assert(r@ =~= seq!['-'] + decimal((-n) as nat));
        r
    } else {
        decimal_string(n as u64)
    }
}

/// `n` zero-padded to two characters, as `{:02}` writes it.
pub fn two_digit_string(n: i64) -> (r: String)
    ensures
        r@ == two_digits(n as int),
{
    if 0 <= n && n < 10 {
        let mut r = String::new();
        push_char(&mut r, '0');
        push_char(&mut r, char_for_digit(n as u64));
        assert(r@ =~= seq!['0', digit(n as nat)]);
        r
    } else {
        signed_decimal_string(n)
    }
}

} // verus!

verus! {

/// How `{:?}` renders a string: quoted, with `str::escape_debug`'s escapes.
pub uninterp spec fn debug_quoted(s: Seq<char>) -> Seq<char>;

/// Writes `s` with `{:?}`; the contract names the result as a function of the
/// text alone and claims nothing more of it.
#[verifier::external_body]
pub(crate) fn debug_string(s: &str) -> (r: String)
    ensures
        r@ == debug_quoted(s@),
{
    format!("{s:?}")
}

/// Whether `a` and `b` hold the same characters.
pub fn chars_eq(a: &[char], b: &[char]) -> (r: bool)
    ensures
        r == (a@ == b@),
{
    if a.len() != b.len() {
        return false;
    }
    let mut i: usize = 0;
    while i < a.len()
        invariant
            a.len() == b.len(),
            i <= a.len(),
            forall|j: int| 0 <= j < i ==> a@[j] == b@[j],
        decreases a.len() - i,
    {
        if a[i] != b[i] {
            return false;
        }
        i = i + 1;
    }
    assert(a@ =~= b@);
    true
}

/// Whether `a` and `b` are the same text.
pub fn str_eq(a: &str, b: &str) -> (r: bool)
    ensures
        r == (a@ == b@),
{
    let x = chars_of(a);
    let y = chars_of(b);
    chars_eq(x.as_slice(), y.as_slice())
}

/// An owned copy of `s`.
pub fn owned(s: &str) -> (r: String)
    ensures
        r@ == s@,
{
    s.to_string()
}

/// The texts of a list of strings.
pub open spec fn texts(list: Seq<String>) -> Seq<Seq<char>> {
    list.map_values(|s: String| s@)
}

/// Pushing `x` adds exactly `x` to what a sequence holds.
pub proof fn lemma_contains_push<A>(s: Seq<A>, x: A, t: A)
    ensures
        s.push(x).contains(t) <==> (s.contains(t) || t == x),
{
    if s.contains(t) {
        let k = choose|k: int| 0 <= k < s.len() && s[k] == t;
        assert(s.push(x)[k] == t);
    }
    if t == x {
        assert(s.push(x)[s.len() as int] == t);
    }
    if s.push(x).contains(t) {
        let k = choose|k: int| 0 <= k < s.push(x).len() && s.push(x)[k] == t;
        if k < s.len() {
            assert(s[k] == t);
        }
    }
}

/// The test that keeps every text but `t`.
pub open spec fn other_than(t: Seq<char>) -> spec_fn(Seq<char>) -> bool {
    |x: Seq<char>| x != t
}

/// Taking every copy of `t` out of a sequence leaves exactly what it held
/// besides `t`.
pub proof fn lemma_filter_other_than(s: Seq<Seq<char>>, t: Seq<char>, x: Seq<char>)
    ensures
        s.filter(other_than(t)).contains(x) <==> (s.contains(x) && x != t),
    decreases s.len(),
{
    if s.len() > 0 {
        let init = s.drop_last();
        assert(s =~= init.push(s.last()));
        lemma_filter_other_than(init, t, x);
        init.lemma_filter_push(s.last(), other_than(t));
        lemma_contains_push(init, s.last(), x);
        lemma_contains_push(init.filter(other_than(t)), s.last(), x);
    } else {
        assert(s.filter(other_than(t)) =~= s);
    }
}

/// Make `t` present in `list` or absent from it: present, it is added at
/// the end unless it is there already; absent, every copy of it is taken
/// out and the rest keep their order.
pub fn set_presence(list: &mut Vec<String>, t: &str, present: bool)
    ensures
        present ==> texts(final(list)@) == if texts(old(list)@).contains(t@) {
            texts(old(list)@)
        } else {
            texts(old(list)@).push(t@)
        },
        !present ==> texts(final(list)@) == texts(old(list)@).filter(other_than(t@)),
{
    let ghost before = texts(list@);
    if present {
        if !list_contains(list.as_slice(), t) {
            list.push(owned(t));
            assert(texts(list@) =~= before.push(t@));
        }
    } else {
        let mut kept: Vec<String> = Vec::new();
        let mut i: usize = 0;
        while i < list.len()
            invariant
                i <= list.len(),
                texts(list@) == before,
                texts(kept@) == before.take(i as int).filter(other_than(t@)),
            decreases list.len() - i,
        {
            proof {
                assert(before.take(i + 1) =~= before.take(i as int).push(before[i as int]));
                before.take(i as int).lemma_filter_push(before[i as int], other_than(t@));
            }
            if !str_eq(list[i].as_str(), t) {
                let ghost prev = texts(kept@);
                kept.push(owned(list[i].as_str()));
                assert(texts(kept@) =~= prev.push(before[i as int]));
            }
            i = i + 1;
        }
        assert(before.take(i as int) =~= before);
        *list = kept;
    }
}

/// Whether `list` holds the text `s`.
pub fn list_contains(list: &[String], s: &str) -> (r: bool)
    ensures
        r == texts(list@).contains(s@),
{
    let mut i: usize = 0;
    while i < list.len()
        invariant
            i <= list.len(),
            forall|j: int| 0 <= j < i ==> list@[j]@ != s@,
        decreases list.len() - i,
    {
        if str_eq(list[i].as_str(), s) {
            assert(texts(list@)[i as int] == s@);
            return true;
        }
        i = i + 1;
    }
    assert forall|j: int| 0 <= j < texts(list@).len() implies texts(list@)[j] != s@ by {
        assert(texts(list@)[j] == list@[j]@);
    }
    false
}

} // verus!

verus! {

proof fn lemma_split_len(s: Seq<char>, sep: char)
    ensures
        split_on(s, sep).len() >= 1,
    decreases s.len(),
{
    if s.len() > 0 {
        lemma_split_len(s.drop_last(), sep);
    }
}

/// The pieces of `cs` between occurrences of `sep`.
pub fn split_chars(cs: &[char], sep: char) -> (r: Vec<Vec<char>>)
    ensures
        views(r@) == split_on(cs@, sep),
{
    let mut pieces: Vec<Vec<char>> = Vec::new();
    let mut cur: Vec<char> = Vec::new();
    let mut i: usize = 0;
    assert(cs@.take(0) =~= Seq::<char>::empty());
    assert(views(pieces@).push(cur@) =~= seq![Seq::<char>::empty()]);
    while i < cs.len()
        invariant
            i <= cs.len(),
            views(pieces@).push(cur@) == split_on(cs@.take(i as int), sep),
        decreases cs.len() - i,
    {
        let ghost before = cs@.take(i as int);
        let ghost after = cs@.take(i + 1);
        assert(after.drop_last() =~= before);
        assert(after.last() == cs@[i as int]);
        proof {
            lemma_split_len(before, sep);
        }
        if cs[i] == sep {
            let done = cur;
            pieces.push(done);
            cur = Vec::new();
            assert(views(pieces@).push(cur@) =~= split_on(before, sep).push(Seq::<char>::empty()));
        } else {
            let ghost old_pieces = pieces@;
            let ghost old_cur = cur@;
            cur.push(cs[i]);
            assert(views(pieces@).push(cur@) =~= views(old_pieces).push(old_cur).update(
                views(old_pieces).len() as int,
                old_cur.push(cs@[i as int]),
            ));
        }
        i = i + 1;
    }
    assert(cs@.take(cs.len() as int) =~= cs@);
    pieces.push(cur);
    assert(views(pieces@) =~= split_on(cs@, sep));
    pieces
}

/// `parts` joined with `sep` between each two.
pub fn join_strings(parts: &Vec<String>, sep: &str) -> (r: String)
    ensures
        r@ == join_with(parts@.map_values(|p: String| p@), sep@),
{
    let ghost vs = parts@.map_values(|p: String| p@);
    let mut r = String::new();
    let mut i: usize = 0;
    while i < parts.len()
        invariant
            i <= parts.len(),
            vs == parts@.map_values(|p: String| p@),
            r@ == join_with(vs.take(i as int), sep@),
        decreases parts.len() - i,
    {
        let ghost prefix = vs.take(i + 1);
        assert(prefix.drop_last() =~= vs.take(i as int));
        assert(prefix.last() == parts@[i as int]@);
        if i > 0 {
            push_str(&mut r, sep);
        } else {
            assert(vs.take(0) =~= Seq::<Seq<char>>::empty());
        }
        push_str(&mut r, parts[i].as_str());
        i = i + 1;
        proof {
            if i == 1 {
                assert(r@ =~= prefix[0]);
            }
        }
    }
    assert(vs.take(parts.len() as int) =~= vs);
    r
}

/// Where `c` first occurs in `cs`, if it does.
pub fn find_char_index(cs: &[char], c: char) -> (r: Option<usize>)
    ensures
        match r {
            Some(i) => find_char(cs@, c) == Some(i as int) && i < cs.len() && cs@[i as int] == c,
            None => find_char(cs@, c) is None,
        },
{
    let mut i: usize = 0;
    while i < cs.len()
        invariant
            i <= cs.len(),
            find_char(cs@.take(i as int), c) is None,
        decreases cs.len() - i,
    {
        let ghost next = cs@.take(i + 1);
        assert(next.drop_last() =~= cs@.take(i as int));
        if cs[i] == c {
            proof {
                lemma_find_char_extend(cs@, i as int, c);
            }
            return Some(i);
        }
        i = i + 1;
    }
    assert(cs@.take(cs.len() as int) =~= cs@);
    None
}

/// Once `c` has been found in a prefix, longer prefixes find it there too.
pub proof fn lemma_find_char_extend(s: Seq<char>, i: int, c: char)
    requires
        0 <= i < s.len(),
        find_char(s.take(i), c) is None,
        s[i] == c,
    ensures
        find_char(s, c) == Some(i),
    decreases s.len(),
{
    if s.len() == i + 1 {
        assert(s.drop_last() =~= s.take(i));
    } else {
        assert(s.drop_last().take(i) =~= s.take(i));
        lemma_find_char_extend(s.drop_last(), i, c);
    }
}

/// What `find_char` reports: the first occurrence, or that there is none.
pub proof fn lemma_find_char(s: Seq<char>, c: char)
    ensures
        match find_char(s, c) {
            Some(i) => 0 <= i < s.len() && s[i] == c && forall|j: int| 0 <= j < i ==> s[j] != c,
            None => !s.contains(c),
        },
    decreases s.len(),
{
    if s.len() > 0 {
        lemma_find_char(s.drop_last(), c);
        match find_char(s.drop_last(), c) {
            Some(i) => {
                assert(s[i] == s.drop_last()[i]);
                assert forall|j: int| 0 <= j < i implies s[j] != c by {
                    assert(s[j] == s.drop_last()[j]);
                }
            },
            None => {
                assert forall|j: int| 0 <= j < s.len() - 1 implies s[j] != c by {
                    assert(s[j] == s.drop_last()[j]);
                    assert(!s.drop_last().contains(c));
                }
                if s.last() != c {
                    assert forall|j: int| 0 <= j < s.len() implies s[j] != c by {
                        if j < s.len() - 1 {
                            assert(s[j] == s.drop_last()[j]);
                            assert(!s.drop_last().contains(c));
                        }
                    }
                }
            },
        }
    }
}

/// A prefix that already holds `c` decides where it is first found.
pub proof fn lemma_find_char_prefix(x: Seq<char>, y: Seq<char>, c: char)
    requires
        find_char(x, c) is Some,
    ensures
        find_char(x + y, c) == find_char(x, c),
    decreases y.len(),
{
    if y.len() == 0 {
        assert(x + y =~= x);
    } else {
        lemma_find_char_prefix(x, y.drop_last(), c);
        assert((x + y).drop_last() =~= x + y.drop_last());
    }
}

/// Splitting around one separator splits each side on its own.
pub proof fn lemma_split_concat(x: Seq<char>, y: Seq<char>, sep: char)
    ensures
        split_on(x + seq![sep] + y, sep) == split_on(x, sep) + split_on(y, sep),
    decreases y.len(),
{
    let xs = x + seq![sep];
    if y.len() == 0 {
        assert(xs + y =~= xs);
        assert(xs.drop_last() =~= x);
        assert(split_on(x, sep).push(Seq::<char>::empty()) =~= split_on(x, sep) + split_on(y, sep));
    } else {
        lemma_split_concat(x, y.drop_last(), sep);
        lemma_split_len(y.drop_last(), sep);
        assert((xs + y).drop_last() =~= xs + y.drop_last());
        assert((xs + y).last() == y.last());
        let a = split_on(x, sep);
        let b = split_on(y.drop_last(), sep);
        if y.last() == sep {
            assert((a + b).push(Seq::<char>::empty()) =~= a + b.push(Seq::<char>::empty()));
        } else {
            assert((a + b).update((a + b).len() - 1, (a + b).last().push(y.last())) =~= a + b.update(
                b.len() - 1,
                b.last().push(y.last()),
            ));
        }
    }
}

/// Text without the separator is one piece.
pub proof fn lemma_split_single(y: Seq<char>, sep: char)
    requires
        !y.contains(sep),
    ensures
        split_on(y, sep) == seq![y],
    decreases y.len(),
{
    if y.len() == 0 {
        assert(y =~= Seq::<char>::empty());
    } else {
        assert(!y.drop_last().contains(sep)) by {
            if y.drop_last().contains(sep) {
                let j = choose|j: int| 0 <= j < y.drop_last().len() && y.drop_last()[j] == sep;
                assert(y[j] == sep);
            }
        }
        lemma_split_single(y.drop_last(), sep);
        assert(y.last() != sep) by {
            assert(y[y.len() - 1] == y.last());
        }
        assert(y.drop_last().push(y.last()) =~= y);
        assert(seq![y.drop_last()].update(0, y.drop_last().push(y.last())) =~= seq![y]);
    }
}

/// Joining pieces that hold no separator, then splitting, gives the pieces
/// back.
pub proof fn lemma_split_join(ps: Seq<Seq<char>>, sep: char)
    requires
        ps.len() >= 1,
        forall|i: int| 0 <= i < ps.len() ==> !(#[trigger] ps[i]).contains(sep),
    ensures
        split_on(join_with(ps, seq![sep]), sep) == ps,
    decreases ps.len(),
{
    if ps.len() == 1 {
        lemma_split_single(ps[0], sep);
        assert(seq![ps[0]] =~= ps);
    } else {
        let init = ps.drop_last();
        assert forall|i: int| 0 <= i < init.len() implies !(#[trigger] init[i]).contains(sep) by {
            assert(init[i] == ps[i]);
        }
        lemma_split_join(init, sep);
        lemma_split_concat(join_with(init, seq![sep]), ps.last(), sep);
        assert(ps.last() == ps[ps.len() - 1]);
        lemma_split_single(ps.last(), sep);
        assert(init + seq![ps.last()] =~= ps);
    }
}

} // verus!
