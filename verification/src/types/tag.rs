use vstd::prelude::*;

use crate::text::{
    all_ascii, ascii_lower, ascii_lowered, is_ascii_char, char_is_whitespace, chars_of, contains_char,
    is_white_space, lowercase_of, owned, str_to_lowercase, string_of, trim_chars, trim_end,
    trim_start, trimmed,
};

verus! {

/// A tag the owner can attach to trips to organize them (US-33).
#[derive(Debug, Clone, PartialEq, Eq)]
pub struct Tag {
    pub id: i64,
    pub name: String,
}

/// Whether any character of `s` is whitespace.
pub open spec fn has_white_space(s: Seq<char>) -> bool {
    exists|i: int| 0 <= i < s.len() && is_white_space(#[trigger] s[i])
}

/// What normalizing `raw` gives: the trimmed, lowercased name, or the reason
/// it is refused — empty, whitespace inside it, or a comma.
pub open spec fn tag_name_outcome(raw: Seq<char>) -> Result<Seq<char>, Seq<char>> {
    let t = trimmed(raw);
    if t.len() == 0 {
        Err("tag name cannot be empty"@)
    } else if has_white_space(t) {
        Err("tag name cannot contain spaces"@)
    } else if t.contains(',') {
        Err("tag name cannot contain a comma"@)
    } else {
        Ok(lowercase_of(t))
    }
}

/// Whether `cs` holds a whitespace character.
fn any_white_space(cs: &[char]) -> (r: bool)
    ensures
        r == has_white_space(cs@),
{
    let mut i: usize = 0;
    while i < cs.len()
        invariant
            i <= cs.len(),
            forall|j: int| 0 <= j < i ==> !is_white_space(#[trigger] cs@[j]),
        decreases cs.len() - i,
    {
        if char_is_whitespace(cs[i]) {
            return true;
        }
        i = i + 1;
    }
    false
}

/// What normalizing ASCII text gives: as [`tag_name_outcome`], with the
/// capitals made small letter by letter.
pub open spec fn ascii_tag_name_outcome(raw: Seq<char>) -> Result<Seq<char>, Seq<char>> {
    let t = trimmed(raw);
    if t.len() == 0 {
        Err("tag name cannot be empty"@)
    } else if has_white_space(t) {
        Err("tag name cannot contain spaces"@)
    } else if t.contains(',') {
        Err("tag name cannot contain a comma"@)
    } else {
        Ok(ascii_lowered(t))
    }
}

/// A result of strings as the texts it holds.
pub open spec fn result_text(r: Result<String, String>) -> Result<Seq<char>, Seq<char>> {
    match r {
        Ok(s) => Ok(s@),
        Err(e) => Err(e@),
    }
}

/// Normalize owner-supplied tag text into the canonical stored form: trimmed,
/// lowercased (so "Hiking"/"hiking" collapse to one tag), and rejected if
/// empty, containing whitespace anywhere, or containing a comma — the comma
/// so a multi-tag filter can travel as one comma-separated parameter.
pub fn normalize_tag_name(raw: &str) -> (r: Result<String, String>)
    ensures
        result_text(r) == tag_name_outcome(raw@),
        all_ascii(raw@) ==> result_text(r) == ascii_tag_name_outcome(raw@),
{
    let cs = chars_of(raw);
    let t = trim_chars(cs.as_slice());
    if t.len() == 0 {
        return Err(owned("tag name cannot be empty"));
    }
    if any_white_space(t.as_slice()) {
        return Err(owned("tag name cannot contain spaces"));
    }
    if contains_char(t.as_slice(), ',') {
        return Err(owned("tag name cannot contain a comma"));
    }
    let trimmed_name = string_of(t.as_slice());
    proof {
        if all_ascii(raw@) {
            lemma_trimmed_is_within(raw@);
        }
    }
    Ok(str_to_lowercase(trimmed_name.as_str()))
}

/// Trimming keeps only characters the text already had.
proof fn lemma_trimmed_is_within(s: Seq<char>)
    requires
        all_ascii(s),
    ensures
        all_ascii(trimmed(s)),
{
    lemma_trim_start_within(s);
    lemma_trim_end_within(trim_start(s));
}

proof fn lemma_trim_start_within(s: Seq<char>)
    requires
        all_ascii(s),
    ensures
        all_ascii(trim_start(s)),
    decreases s.len(),
{
    if s.len() > 0 && is_white_space(s[0]) {
        assert(all_ascii(s.drop_first())) by {
            assert forall|i: int| 0 <= i < s.len() - 1 implies is_ascii_char(
                #[trigger] s.drop_first()[i],
            ) by {
                assert(s.drop_first()[i] == s[i + 1]);
            }
        }
        lemma_trim_start_within(s.drop_first());
    }
}

proof fn lemma_trim_end_within(s: Seq<char>)
    requires
        all_ascii(s),
    ensures
        all_ascii(trim_end(s)),
    decreases s.len(),
{
    if s.len() > 0 && is_white_space(s.last()) {
        assert(all_ascii(s.drop_last())) by {
            assert forall|i: int| 0 <= i < s.len() - 1 implies is_ascii_char(
                #[trigger] s.drop_last()[i],
            ) by {
                assert(s.drop_last()[i] == s[i]);
            }
        }
        lemma_trim_end_within(s.drop_last());
    }
}

/// Making a capital small keeps whether a character is whitespace, a comma
/// or ASCII, and a small letter stays as it is.
proof fn lemma_lower_keeps_kind(c: char)
    ensures
        is_white_space(ascii_lower(c)) == is_white_space(c),
        (ascii_lower(c) == ',') == (c == ','),
        is_ascii_char(ascii_lower(c)) == is_ascii_char(c),
        ascii_lower(ascii_lower(c)) == ascii_lower(c),
{
    if 'A' <= c <= 'Z' {
        let u: u32 = ((c as u32) + 32) as u32;
        assert(97 <= u <= 122);
        vstd::utf8::char_u32_cast(ascii_lower(c), u);
        assert(ascii_lower(c) as u32 == u);
    }
}

/// Lowering the capitals and trimming may be done in either order.
proof fn lemma_trim_start_lowered(s: Seq<char>)
    ensures
        trim_start(ascii_lowered(s)) == ascii_lowered(trim_start(s)),
    decreases s.len(),
{
    if s.len() > 0 {
        lemma_lower_keeps_kind(s[0]);
        assert(ascii_lowered(s)[0] == ascii_lower(s[0]));
        if is_white_space(s[0]) {
            assert(ascii_lowered(s).drop_first() =~= ascii_lowered(s.drop_first()));
            lemma_trim_start_lowered(s.drop_first());
        }
    } else {
        assert(ascii_lowered(s).len() == 0);
    }
}

proof fn lemma_trim_end_lowered(s: Seq<char>)
    ensures
        trim_end(ascii_lowered(s)) == ascii_lowered(trim_end(s)),
    decreases s.len(),
{
    if s.len() > 0 {
        lemma_lower_keeps_kind(s.last());
        assert(ascii_lowered(s).last() == ascii_lower(s.last()));
        if is_white_space(s.last()) {
            assert(ascii_lowered(s).drop_last() =~= ascii_lowered(s.drop_last()));
            lemma_trim_end_lowered(s.drop_last());
        }
    } else {
        assert(ascii_lowered(s).len() == 0);
    }
}

/// Lowering the capitals keeps whether a text holds whitespace or a comma.
proof fn lemma_lowered_keeps_kinds(s: Seq<char>)
    ensures
        ascii_lowered(s).len() == s.len(),
        has_white_space(ascii_lowered(s)) == has_white_space(s),
        ascii_lowered(s).contains(',') == s.contains(','),
        all_ascii(s) ==> all_ascii(ascii_lowered(s)),
        ascii_lowered(ascii_lowered(s)) == ascii_lowered(s),
{
    let l = ascii_lowered(s);
    assert forall|i: int| 0 <= i < s.len() implies {
        &&& is_white_space(#[trigger] l[i]) == is_white_space(s[i])
        &&& (l[i] == ',') == (s[i] == ',')
        &&& is_ascii_char(l[i]) == is_ascii_char(s[i])
        &&& ascii_lower(l[i]) == l[i]
    } by {
        lemma_lower_keeps_kind(s[i]);
    }
    if has_white_space(s) {
        let i = choose|i: int| 0 <= i < s.len() && is_white_space(#[trigger] s[i]);
        assert(is_white_space(l[i]));
    }
    if has_white_space(l) {
        let i = choose|i: int| 0 <= i < l.len() && is_white_space(#[trigger] l[i]);
        assert(is_white_space(s[i]));
    }
    if s.contains(',') {
        let i = choose|i: int| 0 <= i < s.len() && s[i] == ',';
        assert(l[i] == ',');
    }
    if l.contains(',') {
        let i = choose|i: int| 0 <= i < l.len() && l[i] == ',';
        assert(s[i] == ',');
    }
    assert(ascii_lowered(l) =~= l);
}

/// Two texts that differ only in the case of their ASCII letters normalize
/// alike: to the same name, or to the same refusal ("Hiking" and "HIKING"
/// are one tag).
pub proof fn lemma_normalizing_ignores_ascii_case(a: Seq<char>, b: Seq<char>)
    requires
        ascii_lowered(a) == ascii_lowered(b),
    ensures
        ascii_tag_name_outcome(a) == ascii_tag_name_outcome(b),
{
    lemma_trim_start_lowered(a);
    lemma_trim_end_lowered(trim_start(a));
    lemma_trim_start_lowered(b);
    lemma_trim_end_lowered(trim_start(b));
    let (ta, tb) = (trimmed(a), trimmed(b));
    assert(ascii_lowered(ta) == ascii_lowered(tb));
    lemma_lowered_keeps_kinds(ta);
    lemma_lowered_keeps_kinds(tb);
}

/// A name that normalizing ASCII text gives is already in canonical form:
/// not empty, with no whitespace and no comma in it, so a comma-separated
/// list of such names splits back into exactly them, and normalizing it
/// again gives it back unchanged.
pub proof fn lemma_a_normalized_name_is_canonical(raw: Seq<char>, name: Seq<char>)
    requires
        all_ascii(raw),
        ascii_tag_name_outcome(raw) == Ok::<Seq<char>, Seq<char>>(name),
    ensures
        name.len() > 0,
        !has_white_space(name),
        !name.contains(','),
        all_ascii(name),
        ascii_tag_name_outcome(name) == Ok::<Seq<char>, Seq<char>>(name),
{
    let t = trimmed(raw);
    lemma_trimmed_is_within(raw);
    lemma_lowered_keeps_kinds(t);
    assert(name == ascii_lowered(t));
    assert(!is_white_space(name[0]));
    assert(trim_start(name) == name);
    assert(!is_white_space(name.last()));
    assert(trim_end(name) == name);
}

} // verus!
