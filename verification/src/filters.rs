//! The trip-list filter state (US-13/US-32) and the query string it becomes
//! for `GET /api/trips` — the same string the SPA carries in
//! its own URL (US-52), so a filtered list is bookmarkable.

use vstd::prelude::*;
use vstd::utf8::*;

use crate::text::{
    other_than, set_presence, texts,
    chars_eq, chars_of, find_char, find_char_index, is_blank, lemma_find_char, lemma_find_char_prefix,
    lemma_split_join, join_strings, join_with, owned,
    push_char, push_str, split_chars, split_on, str_is_blank, string_of, sub_chars, trim_str, trimmed,
    views,
};
use crate::types::activity_type::{
    activity_named, activity_wire, lemma_activity_round_trip, ActivityType,
};
use crate::types::trip_kind::{kind_named, kind_wire, lemma_kind_round_trip, TripKind};

verus! {

/// Everything the list screen can narrow itself by. Every text field is kept
/// as the raw string the input holds: blank means "don't filter on this
/// dimension".
#[derive(Clone, Debug, PartialEq)]
pub struct Filters {
    /// Which tab is showing (US-32).
    pub kind: TripKind,
    pub q: String,
    pub activity: Option<ActivityType>,
    pub from: String,
    pub to: String,
    /// Kilometres.
    pub min_dist: String,
    pub max_dist: String,
    /// Chosen tag names (US-38): only trips carrying all of them are listed.
    pub tags: Vec<String>,
    /// The region rectangle (US-14/US-52) as the API's own parameter,
    /// `minLon,minLat,maxLon,maxLat`; blank means no region chosen.
    pub bbox: String,
}

/// The filters as values.
pub struct FiltersView {
    pub kind: TripKind,
    pub q: Seq<char>,
    pub activity: Option<ActivityType>,
    pub from: Seq<char>,
    pub to: Seq<char>,
    pub min_dist: Seq<char>,
    pub max_dist: Seq<char>,
    pub tags: Seq<Seq<char>>,
    pub bbox: Seq<char>,
}

impl View for Filters {
    type V = FiltersView;

    open spec fn view(&self) -> FiltersView {
        FiltersView {
            kind: self.kind,
            q: self.q@,
            activity: self.activity,
            from: self.from@,
            to: self.to@,
            min_dist: self.min_dist@,
            max_dist: self.max_dist@,
            tags: self.tags@.map_values(|t: String| t@),
            bbox: self.bbox@,
        }
    }
}

/// The unfiltered recorded tab.
pub open spec fn default_view() -> FiltersView {
    FiltersView {
        kind: TripKind::Recorded,
        q: Seq::empty(),
        activity: None,
        from: Seq::empty(),
        to: Seq::empty(),
        min_dist: Seq::empty(),
        max_dist: Seq::empty(),
        tags: Seq::empty(),
        bbox: Seq::empty(),
    }
}

// ── Percent-encoding ────────────────────────────────────────────────────

/// The bytes a value may keep as they are: letters, digits, `-_.~`.
pub open spec fn unreserved(b: u8) -> bool {
    (65 <= b <= 90) || (97 <= b <= 122) || (48 <= b <= 57) || b == 45 || b == 95 || b == 46 || b
        == 126
}

/// The upper-case hexadecimal digit for `n`, which must be below sixteen.
pub open spec fn hex_char(n: u8) -> char {
    if n < 10 {
        ((48 + n) as u8) as char
    } else {
        ((55 + n) as u8) as char
    }
}

/// How one byte of a value is written in the query.
pub open spec fn encode_byte(b: u8) -> Seq<char> {
    if unreserved(b) {
        seq![b as char]
    } else if b == 32 {
        seq!['+']
    } else {
        seq!['%', hex_char(b / 16), hex_char(b % 16)]
    }
}

/// How a run of bytes is written in the query.
pub open spec fn encode_bytes(bs: Seq<u8>) -> Seq<char>
    decreases bs.len(),
{
    if bs.len() == 0 {
        Seq::empty()
    } else {
        encode_bytes(bs.drop_last()) + encode_byte(bs.last())
    }
}

/// How a value is written in the query: its UTF-8 bytes, percent-encoded.
pub open spec fn encode_value(v: Seq<char>) -> Seq<char> {
    encode_bytes(encode_utf8(v))
}

/// The value of a hexadecimal digit byte, if it is one.
pub open spec fn hex_value(b: u8) -> Option<u8> {
    if 48 <= b <= 57 {
        Some((b - 48) as u8)
    } else if 97 <= b <= 102 {
        Some((b - 97 + 10) as u8)
    } else if 65 <= b <= 70 {
        Some((b - 65 + 10) as u8)
    } else {
        None
    }
}

/// The bytes an encoded run of bytes stands for: `+` is a space, `%` and two
/// hex digits a byte, and anything else — a `%` that starts no escape
/// included — itself.
pub open spec fn decode_bytes(bs: Seq<u8>) -> Seq<u8>
    decreases bs.len(),
{
    if bs.len() == 0 {
        Seq::empty()
    } else if bs[0] == 43 {
        seq![32u8] + decode_bytes(bs.drop_first())
    } else if bs[0] == 37 && bs.len() > 2 && hex_value(bs[1]) is Some && hex_value(bs[2]) is Some {
        seq![(hex_value(bs[1]).unwrap() * 16 + hex_value(bs[2]).unwrap()) as u8] + decode_bytes(
            bs.subrange(3, bs.len() as int),
        )
    } else {
        seq![bs[0]] + decode_bytes(bs.drop_first())
    }
}

/// What `String::from_utf8_lossy` makes of a run of bytes that is not valid
/// UTF-8: the text with each invalid sequence replaced by U+FFFD.
pub uninterp spec fn utf8_lossy(bytes: Seq<u8>) -> Seq<char>;

/// The text a run of bytes reads as: the characters valid UTF-8 encodes, or
/// the replacement-marked text of anything else.
pub open spec fn lossy_text(bytes: Seq<u8>) -> Seq<char> {
    if valid_utf8(bytes) {
        decode_utf8(bytes)
    } else {
        utf8_lossy(bytes)
    }
}

/// Calls `String::from_utf8_lossy`. Valid UTF-8 comes back as the text it
/// encodes, as the documentation states; what it makes of invalid input is
/// named and claimed nothing more of.
#[verifier::external_body]
fn from_utf8_lossy(bytes: &[u8]) -> (r: String)
    ensures
        valid_utf8(bytes@) ==> r@ == decode_utf8(bytes@),
        !valid_utf8(bytes@) ==> r@ == utf8_lossy(bytes@),
{
    String::from_utf8_lossy(bytes).into_owned()
}

/// What a value read out of the query stands for.
pub open spec fn decode_value(v: Seq<char>) -> Seq<char> {
    lossy_text(decode_bytes(encode_utf8(v)))
}

/// The value of a hex digit byte.
pub fn hex(byte: u8) -> (r: Option<u8>)
    ensures
        r == hex_value(byte),
{
    if 48 <= byte && byte <= 57 {
        Some(byte - 48)
    } else if 97 <= byte && byte <= 102 {
        Some(byte - 97 + 10)
    } else if 65 <= byte && byte <= 70 {
        Some(byte - 65 + 10)
    } else {
        None
    }
}

fn hex_digit(n: u8) -> (c: char)
    requires
        n < 16,
    ensures
        c == hex_char(n),
{
    if n < 10 {
        (48 + n) as char
    } else {
        (55 + n) as char
    }
}

proof fn lemma_encode_bytes_concat(a: Seq<u8>, b: Seq<u8>)
    ensures
        encode_bytes(a + b) == encode_bytes(a) + encode_bytes(b),
    decreases b.len(),
{
    if b.len() == 0 {
        assert(a + b =~= a);
        assert(encode_bytes(b) =~= Seq::<char>::empty());
        assert(encode_bytes(a) + encode_bytes(b) =~= encode_bytes(a));
    } else {
        lemma_encode_bytes_concat(a, b.drop_last());
        assert((a + b).drop_last() =~= a + b.drop_last());
        assert((a + b).last() == b.last());
        assert(encode_bytes(a) + encode_bytes(b) =~= encode_bytes(a) + encode_bytes(b.drop_last())
            + encode_byte(b.last()));
    }
}

/// Percent-encode a query-parameter value. Only the characters that would
/// otherwise break the query string are escaped.
pub fn encode(value: &str) -> (r: String)
    ensures
        r@ == encode_value(value@),
{
    let bytes = value.as_bytes();
    let mut r = String::new();
    let mut i: usize = 0;
    while i < bytes.len()
        invariant
            i <= bytes.len(),
            bytes@ == encode_utf8(value@),
            r@ == encode_bytes(bytes@.take(i as int)),
        decreases bytes.len() - i,
    {
        let b = bytes[i];
        let ghost before = r@;
        assert(bytes@.take(i + 1).drop_last() =~= bytes@.take(i as int));
        if (65 <= b && b <= 90) || (97 <= b && b <= 122) || (48 <= b && b <= 57) || b == 45 || b
            == 95 || b == 46 || b == 126 {
            push_char(&mut r, b as char);
        } else if b == 32 {
            push_char(&mut r, '+');
        } else {
            push_char(&mut r, '%');
            push_char(&mut r, hex_digit(b / 16));
            push_char(&mut r, hex_digit(b % 16));
        }
        assert(r@ =~= before + encode_byte(b));
        i = i + 1;
    }
    assert(bytes@.take(bytes.len() as int) =~= bytes@);
    r
}

/// Undo [`encode`].
pub fn decode(value: &str) -> (r: String)
    ensures
        r@ == decode_value(value@),
{
    let bytes = value.as_bytes();
    let mut out: Vec<u8> = Vec::new();
    let mut i: usize = 0;
    assert(bytes@.subrange(0, bytes@.len() as int) =~= bytes@);
    assert(out@ + decode_bytes(bytes@) =~= decode_bytes(bytes@));
    while i < bytes.len()
        invariant
            i <= bytes.len(),
            bytes@ == encode_utf8(value@),
            out@ + decode_bytes(bytes@.subrange(i as int, bytes@.len() as int)) == decode_bytes(
                bytes@,
            ),
        decreases bytes.len() - i,
    {
        let ghost rest = bytes@.subrange(i as int, bytes@.len() as int);
        let ghost old_out = out@;
        if bytes[i] == 43 {
            out.push(32);
            i = i + 1;
            assert(rest.drop_first() =~= bytes@.subrange(i as int, bytes@.len() as int));
            assert(out@ + decode_bytes(bytes@.subrange(i as int, bytes@.len() as int)) =~= old_out
                + decode_bytes(rest));
        } else if bytes[i] == 37 && bytes.len() - i > 2 {
            match (hex(bytes[i + 1]), hex(bytes[i + 2])) {
                (Some(hi), Some(lo)) => {
                    assert(hi < 16 && lo < 16);
                    out.push(hi * 16 + lo);
                    i = i + 3;
                    assert(rest.subrange(3, rest.len() as int) =~= bytes@.subrange(
                        i as int,
                        bytes@.len() as int,
                    ));
                    assert(out@ + decode_bytes(bytes@.subrange(i as int, bytes@.len() as int))
                        =~= old_out + decode_bytes(rest));
                },
                _ => {
                    out.push(37);
                    i = i + 1;
                    assert(rest.drop_first() =~= bytes@.subrange(i as int, bytes@.len() as int));
                    assert(out@ + decode_bytes(bytes@.subrange(i as int, bytes@.len() as int))
                        =~= old_out + decode_bytes(rest));
                },
            }
        } else {
            out.push(bytes[i]);
            i = i + 1;
            assert(rest.drop_first() =~= bytes@.subrange(i as int, bytes@.len() as int));
            assert(out@ + decode_bytes(bytes@.subrange(i as int, bytes@.len() as int)) =~= old_out
                + decode_bytes(rest));
        }
    }
    assert(decode_bytes(bytes@.subrange(i as int, bytes@.len() as int)) =~= Seq::<u8>::empty());
    assert(out@ =~= decode_bytes(bytes@));
    from_utf8_lossy(out.as_slice())
}

/// The bytes of a run of ASCII characters.
pub open spec fn ascii_of(cs: Seq<char>) -> Seq<u8> {
    Seq::new(cs.len(), |i: int| cs[i] as u8)
}

proof fn lemma_encode_byte_ascii(b: u8)
    ensures
        is_ascii_chars(encode_byte(b)),
        unreserved(b) ==> ascii_of(encode_byte(b)) == seq![b],
        !unreserved(b) && b == 32 ==> ascii_of(encode_byte(b)) == seq![43u8],
        !unreserved(b) && b != 32 ==> ascii_of(encode_byte(b)) == seq![
            37u8,
            hex_char(b / 16) as u8,
            hex_char(b % 16) as u8,
        ],
{
    let e = encode_byte(b);
    if unreserved(b) {
        assert(ascii_of(e) =~= seq![b]);
    } else if b == 32 {
        assert(ascii_of(e) =~= seq![43u8]);
    } else {
        assert(ascii_of(e) =~= seq![37u8, hex_char(b / 16) as u8, hex_char(b % 16) as u8]);
    }
}

proof fn lemma_encode_bytes_ascii(bs: Seq<u8>)
    ensures
        is_ascii_chars(encode_bytes(bs)),
    decreases bs.len(),
{
    if bs.len() > 0 {
        lemma_encode_bytes_ascii(bs.drop_last());
        lemma_encode_byte_ascii(bs.last());
        let a = encode_bytes(bs.drop_last());
        let b = encode_byte(bs.last());
        assert forall|i| 0 <= i < (a + b).len() implies '\0' <= #[trigger] (a + b)[i] <= '\u{7f}' by {
            if i < a.len() {
                assert((a + b)[i] == a[i]);
            } else {
                assert((a + b)[i] == b[i - a.len()]);
            }
        }
    }
}

proof fn lemma_hex_round_trip(n: u8)
    requires
        n < 16,
    ensures
        hex_value(hex_char(n) as u8) == Some(n),
{
}

proof fn lemma_decode_encode(bs: Seq<u8>)
    ensures
        decode_bytes(ascii_of(encode_bytes(bs))) == bs,
    decreases bs.len(),
{
    if bs.len() == 0 {
        assert(ascii_of(encode_bytes(bs)) =~= Seq::<u8>::empty());
    } else {
        let b = bs[0];
        let rest = bs.drop_first();
        assert(bs =~= seq![b] + rest);
        lemma_encode_bytes_concat(seq![b], rest);
        assert(seq![b].drop_last() =~= Seq::<u8>::empty());
        assert(seq![b].last() == b);
        assert(encode_bytes(Seq::<u8>::empty()) == Seq::<char>::empty());
        assert(encode_bytes(seq![b]) == encode_bytes(Seq::<u8>::empty()) + encode_byte(b));
        assert(encode_bytes(seq![b]) =~= encode_byte(b));
        let r = ascii_of(encode_bytes(rest));
        assert(ascii_of(encode_bytes(bs)) =~= ascii_of(encode_byte(b)) + r);
        lemma_encode_byte_ascii(b);
        lemma_decode_encode(rest);
        let whole = ascii_of(encode_byte(b)) + r;
        if unreserved(b) {
            assert(whole.drop_first() =~= r);
        } else if b == 32 {
            assert(whole.drop_first() =~= r);
        } else {
            lemma_hex_round_trip(b / 16);
            lemma_hex_round_trip(b % 16);
            assert(whole.subrange(3, whole.len() as int) =~= r);
            assert(((b / 16) * 16 + b % 16) as u8 == b);
        }
        assert(decode_bytes(whole) =~= seq![b] + rest);
    }
}

/// A value read back out of the query is the value that was written in.
pub proof fn lemma_value_round_trip(v: Seq<char>)
    ensures
        decode_value(encode_value(v)) == v,
{
    let bs = encode_utf8(v);
    let e = encode_bytes(bs);
    lemma_encode_bytes_ascii(bs);
    is_ascii_chars_encode_utf8(e);
    assert(encode_utf8(e) =~= ascii_of(e));
    lemma_decode_encode(bs);
    encode_utf8_valid_utf8(v);
    encode_utf8_decode_utf8(v);
}


// ── The query string ────────────────────────────────────────────────────

/// One `name=value` parameter, the value percent-encoded.
pub open spec fn param(name: Seq<char>, value: Seq<char>) -> Seq<char> {
    name + "="@ + encode_value(value)
}

/// The parameter for a text field: left out when blank, trimmed otherwise.
pub open spec fn text_param(name: Seq<char>, value: Seq<char>) -> Seq<Seq<char>> {
    if trimmed(value).len() == 0 {
        Seq::empty()
    } else {
        seq![param(name, trimmed(value))]
    }
}

/// The parameters that describe `f`, in the order they are written: the
/// tab, the activity, the text fields, then the tags as one comma-separated
/// parameter.
pub open spec fn query_parts(f: FiltersView) -> Seq<Seq<char>> {
    seq![param("kind"@, kind_wire(f.kind))] + (match f.activity {
        Some(a) => seq![param("activity"@, activity_wire(a))],
        None => Seq::empty(),
    }) + text_param("q"@, f.q) + text_param("from"@, f.from) + text_param("to"@, f.to)
        + text_param("min_dist"@, f.min_dist) + text_param("max_dist"@, f.max_dist) + text_param(
        "bbox"@,
        f.bbox,
    ) + (if f.tags.len() > 0 {
        seq![param("tags"@, join_with(f.tags, ","@))]
    } else {
        Seq::empty()
    })
}

/// The query string for `f`, without a leading `?`.
pub open spec fn query_of(f: FiltersView) -> Seq<char> {
    join_with(query_parts(f), "&"@)
}

/// The non-empty pieces, in order.
pub open spec fn non_empty(ps: Seq<Seq<char>>) -> Seq<Seq<char>>
    decreases ps.len(),
{
    if ps.len() == 0 {
        Seq::empty()
    } else if ps.last().len() > 0 {
        non_empty(ps.drop_last()).push(ps.last())
    } else {
        non_empty(ps.drop_last())
    }
}

/// The kind named, or the default tab when none is.
pub open spec fn kind_or_recorded(k: Option<TripKind>) -> TripKind {
    match k {
        Some(k) => k,
        None => TripKind::Recorded,
    }
}

/// `f` with the parameter `name` set to `value`, as reading it back applies
/// it; a name it does not know leaves `f` as it was.
#[verifier::opaque]
pub open spec fn assign(f: FiltersView, name: Seq<char>, value: Seq<char>) -> FiltersView {
    if name == "kind"@ {
        FiltersView {
kind: kind_or_recorded(kind_named(value)), ..f }
    } else if name == "activity"@ {
        FiltersView { activity: activity_named(value), ..f }
    } else if name == "q"@ {
        FiltersView { q: value, ..f }
    } else if name == "from"@ {
        FiltersView { from: value, ..f }
    } else if name == "to"@ {
        FiltersView { to: value, ..f }
    } else if name == "min_dist"@ {
        FiltersView { min_dist: value, ..f }
    } else if name == "max_dist"@ {
        FiltersView { max_dist: value, ..f }
    } else if name == "bbox"@ {
        FiltersView { bbox: value, ..f }
    } else if name == "tags"@ {
        FiltersView { tags: non_empty(split_on(value, ',')), ..f }
    } else {
        f
    }
}

/// `f` with one `&`-separated part of a query applied: an empty part, or
/// one without `=`, changes nothing.
pub open spec fn apply_part(f: FiltersView, part: Seq<char>) -> FiltersView {
    if part.len() == 0 {
        f
    } else {
        match find_char(part, '=') {
            None => f,
            Some(i) => assign(f, part.take(i), decode_value(part.skip(i + 1))),
        }
    }
}

/// `f` with every part applied, in order.
pub open spec fn apply_parts(f: FiltersView, parts: Seq<Seq<char>>) -> FiltersView
    decreases parts.len(),
{
    if parts.len() == 0 {
        f
    } else {
        apply_part(apply_parts(f, parts.drop_last()), parts.last())
    }
}

/// The filters a query string describes.
pub open spec fn query_filters(query: Seq<char>) -> FiltersView {
    apply_parts(default_view(), split_on(query, '&'))
}

/// `s` with each `%` written as `%25`.
pub open spec fn escape_percents(s: Seq<char>) -> Seq<char>
    decreases s.len(),
{
    if s.len() == 0 {
        Seq::empty()
    } else {
        escape_percents(s.drop_last()) + if s.last() == '%' {
            "%25"@
        } else {
            seq![s.last()]
        }
    }
}

/// Whether anything beyond the tab narrows the list.
pub open spec fn narrows(f: FiltersView) -> bool {
    f.activity is Some || f.tags.len() > 0 || !is_blank(f.q) || !is_blank(f.from) || !is_blank(
        f.to,
    ) || !is_blank(f.min_dist) || !is_blank(f.max_dist) || !is_blank(f.bbox)
}

/// `name=value`, the value percent-encoded.
fn param_string(name: &str, value: &str) -> (r: String)
    ensures
        r@ == param(name@, value@),
{
    let mut r = owned(name);
    push_str(&mut r, "=");
    let encoded = encode(value);
    push_str(&mut r, encoded.as_str());
    r
}

/// Appends the parameter for a text field, unless it is blank.
fn push_text_param(parts: &mut Vec<String>, name: &str, value: &str)
    ensures
        final(parts)@.map_values(|p: String| p@) == old(parts)@.map_values(|p: String| p@)
            + text_param(name@, value@),
{
    let t = trim_str(value);
    let ghost before = parts@.map_values(|p: String| p@);
    if !t.as_str().is_empty() {
        let p = param_string(name, t.as_str());
        parts.push(p);
        assert(parts@.map_values(|p: String| p@) =~= before + text_param(name@, value@));
    } else {
        assert(before + text_param(name@, value@) =~= before);
    }
}

/// Whether `name` is the text `lit`.
fn name_is(name: &[char], lit: &str) -> (r: bool)
    ensures
        r == (name@ == lit@),
{
    let l = chars_of(lit);
    chars_eq(name, l.as_slice())
}

/// The non-empty pieces of `ps`, as strings.
fn non_empty_strings(ps: &Vec<Vec<char>>) -> (r: Vec<String>)
    ensures
        r@.map_values(|t: String| t@) == non_empty(views(ps@)),
{
    let mut r: Vec<String> = Vec::new();
    let mut i: usize = 0;
    while i < ps.len()
        invariant
            i <= ps.len(),
            r@.map_values(|t: String| t@) == non_empty(views(ps@).take(i as int)),
        decreases ps.len() - i,
    {
        let ghost before = r@.map_values(|t: String| t@);
        let ghost next = views(ps@).take(i + 1);
        assert(next.drop_last() =~= views(ps@).take(i as int));
        assert(next.last() == ps@[i as int]@);
        if ps[i].len() > 0 {
            let s = string_of(ps[i].as_slice());
            r.push(s);
            assert(r@.map_values(|t: String| t@) =~= before.push(ps@[i as int]@));
        }
        i = i + 1;
    }
    assert(views(ps@).take(ps.len() as int) =~= views(ps@));
    r
}

impl Default for Filters {
    fn default() -> (r: Self)
        ensures
            r@ == default_view(),
    {
        let r = Filters {
            kind: TripKind::Recorded,
            q: String::new(),
            activity: None,
            from: String::new(),
            to: String::new(),
            min_dist: String::new(),
            max_dist: String::new(),
            tags: Vec::new(),
            bbox: String::new(),
        };
        assert(r@.tags =~= Seq::<Seq<char>>::empty());
        r
    }
}

impl Filters {
    /// The query string for `GET /api/trips`, without a leading `?`. Blank
    /// fields are left out entirely rather than sent empty.
    pub fn to_query(&self) -> (r: String)
        ensures
            r@ == query_of(self@),
    {
        let mut parts: Vec<String> = Vec::new();
        let p = param_string("kind", self.kind.as_str());
        parts.push(p);
        let ghost mut expected: Seq<Seq<char>> = seq![param("kind"@, kind_wire(self.kind))];
        assert(parts@.map_values(|p: String| p@) =~= expected);
        match self.activity {
            Some(activity) => {
                let p = param_string("activity", activity.as_str());
                parts.push(p);
            },
            None => {},
        }
        proof {
            expected = expected + (match self.activity {
                Some(a) => seq![param("activity"@, activity_wire(a))],
                None => Seq::empty(),
            });
        }
        assert(parts@.map_values(|p: String| p@) =~= expected);
        push_text_param(&mut parts, "q", self.q.as_str());
        push_text_param(&mut parts, "from", self.from.as_str());
        push_text_param(&mut parts, "to", self.to.as_str());
        push_text_param(&mut parts, "min_dist", self.min_dist.as_str());
        push_text_param(&mut parts, "max_dist", self.max_dist.as_str());
        push_text_param(&mut parts, "bbox", self.bbox.as_str());
        let ghost before_tags = parts@.map_values(|p: String| p@);
        if self.tags.len() > 0 {
            // One comma-separated parameter (US-38): unambiguous because a
            // tag name can never contain a comma (US-33).
            let joined = join_strings(&self.tags, ",");
            let p = param_string("tags", joined.as_str());
            parts.push(p);
            assert(parts@.map_values(|p: String| p@) =~= before_tags.push(
                param("tags"@, join_with(self@.tags, ","@)),
            ));
        }
        assert(parts@.map_values(|p: String| p@) =~= query_parts(self@));
        join_strings(&parts, "&")
    }

    /// Read filters back out of a query string (no leading `?`). Anything
    /// unparseable is simply not applied: a hand-edited or truncated URL
    /// yields a working list rather than an error page.
    pub fn from_query(query: &str) -> (r: Self)
        ensures
            r@ == query_filters(query@),
    {
        let mut filters = Filters::default();
        let cs = chars_of(query);
        let parts = split_chars(cs.as_slice(), '&');
        let ghost pv = views(parts@);
        let mut i: usize = 0;
        assert(pv.take(0) =~= Seq::<Seq<char>>::empty());
        while i < parts.len()
            invariant
                i <= parts.len(),
                pv == views(parts@),
                pv == split_on(cs@, '&'),
                cs@ == query@,
                filters@ == apply_parts(default_view(), pv.take(i as int)),
            decreases parts.len() - i,
        {
            let part = &parts[i];
            let ghost next = pv.take(i + 1);
            assert(next.drop_last() =~= pv.take(i as int));
            assert(next.last() == part@);
            let ghost g = filters@;
            if part.len() > 0 {
                match find_char_index(part.as_slice(), '=') {
                    None => {},
                    Some(at) => {
                        let name = sub_chars(part.as_slice(), 0, at);
                        let raw = sub_chars(part.as_slice(), at + 1, part.len());
                        let raw = string_of(raw.as_slice());
                        let value = decode(raw.as_str());
                        assert(name@ =~= part@.take(at as int));
                        assert(raw@ =~= part@.skip(at + 1));
                        if name_is(name.as_slice(), "kind") {
                            filters.kind = match TripKind::parse(value.as_str()) {
                                Some(k) => k,
                                None => TripKind::Recorded,
                            };
                        } else if name_is(name.as_slice(), "activity") {
                            filters.activity = ActivityType::parse(value.as_str());
                        } else if name_is(name.as_slice(), "q") {
                            filters.q = value;
                        } else if name_is(name.as_slice(), "from") {
                            filters.from = value;
                        } else if name_is(name.as_slice(), "to") {
                            filters.to = value;
                        } else if name_is(name.as_slice(), "min_dist") {
                            filters.min_dist = value;
                        } else if name_is(name.as_slice(), "max_dist") {
                            filters.max_dist = value;
                        } else if name_is(name.as_slice(), "bbox") {
                            filters.bbox = value;
                        } else if name_is(name.as_slice(), "tags") {
                            let vcs = chars_of(value.as_str());
                            let pieces = split_chars(vcs.as_slice(), ',');
                            filters.tags = non_empty_strings(&pieces);
                        }
                        proof {
                            reveal(assign);
                        }
                        assert(filters@ == assign(g, part@.take(at as int), decode_value(
                            part@.skip(at + 1),
                        )));
                    },
                }
            }
            assert(filters@ == apply_part(g, part@));
            i = i + 1;
        }
        assert(pv.take(parts.len() as int) =~= pv);
        filters
    }

    /// The query as it goes into the app's own URL (US-52): the router
    /// percent-decodes the whole query string before handing it back, so
    /// each `%` the query already holds is escaped once more.
    pub fn to_url_query(&self) -> (r: String)
        ensures
            r@ == escape_percents(query_of(self@)),
    {
        let q = self.to_query();
        let cs = chars_of(q.as_str());
        let mut out = String::new();
        let mut i: usize = 0;
        while i < cs.len()
            invariant
                i <= cs.len(),
                out@ == escape_percents(cs@.take(i as int)),
            decreases cs.len() - i,
        {
            assert(cs@.take(i + 1).drop_last() =~= cs@.take(i as int));
            assert(cs@.take(i + 1).last() == cs@[i as int]);
            if cs[i] == '%' {
                push_str(&mut out, "%25");
            } else {
                push_char(&mut out, cs[i]);
            }
            i = i + 1;
        }
        assert(cs@.take(i as int) =~= cs@);
        out
    }

    /// A tag ticked or unticked in the tag filter (US-38): ticked, it is
    /// chosen — added at the end unless it was already; unticked, it is no
    /// longer chosen at all. Nothing else changes.
    pub fn set_tag(&mut self, name: &str, chosen: bool)
        ensures
            chosen ==> final(self)@.tags == if old(self)@.tags.contains(name@) {
                old(self)@.tags
            } else {
                old(self)@.tags.push(name@)
            },
            !chosen ==> final(self)@.tags == old(self)@.tags.filter(other_than(name@)),
            final(self)@ == (FiltersView { tags: final(self)@.tags, ..old(self)@ }),
    {
        assert(old(self)@.tags =~= texts(old(self).tags@));
        set_presence(&mut self.tags, name, chosen);
        assert(self@.tags =~= texts(self.tags@));
    }

    /// Whether anything beyond the tab itself is narrowing the list — the
    /// list uses it to tell "nothing imported yet" from "nothing matches".
    /// A chosen region counts (US-14).
    pub fn any_set(&self) -> (r: bool)
        ensures
            r == narrows(self@),
    {
        self.activity.is_some() || self.tags.len() > 0 || !str_is_blank(self.q.as_str())
            || !str_is_blank(self.from.as_str()) || !str_is_blank(self.to.as_str())
            || !str_is_blank(self.min_dist.as_str()) || !str_is_blank(self.max_dist.as_str())
            || !str_is_blank(self.bbox.as_str())
    }
}

// ── Reading a query back ────────────────────────────────────────────────

/// What a filter must be for its query to read back as itself: text fields
/// already trimmed (the query trims them), and tags that are non-empty and
/// hold no comma (US-33 guarantees both of every stored tag).
pub open spec fn round_trips(f: FiltersView) -> bool {
    &&& trimmed(f.q) == f.q
    &&& trimmed(f.from) == f.from
    &&& trimmed(f.to) == f.to
    &&& trimmed(f.min_dist) == f.min_dist
    &&& trimmed(f.max_dist) == f.max_dist
    &&& trimmed(f.bbox) == f.bbox
    &&& forall|i: int|
        0 <= i < f.tags.len() ==> (#[trigger] f.tags[i]).len() > 0 && !f.tags[i].contains(',')
}

proof fn lemma_encoded_plain(bs: Seq<u8>)
    ensures
        !encode_bytes(bs).contains('&'),
        !encode_bytes(bs).contains('='),
    decreases bs.len(),
{
    if bs.len() > 0 {
        lemma_encoded_plain(bs.drop_last());
        let a = encode_bytes(bs.drop_last());
        let b = encode_byte(bs.last());
        let x = bs.last();
        assert(hex_char(x / 16) != '&' && hex_char(x / 16) != '=');
        assert(hex_char(x % 16) != '&' && hex_char(x % 16) != '=');
        assert forall|i: int| 0 <= i < (a + b).len() implies (a + b)[i] != '&' && (a + b)[i]
            != '=' by {
            if i < a.len() {
                assert((a + b)[i] == a[i]);
            } else {
                assert((a + b)[i] == b[i - a.len()]);
            }
        }
    }
}

proof fn lemma_param_shape(name: Seq<char>, v: Seq<char>)
    requires
        !name.contains('&'),
        !name.contains('='),
    ensures
        param(name, v).len() > 0,
        !param(name, v).contains('&'),
        find_char(param(name, v), '=') == Some(name.len() as int),
        param(name, v).take(name.len() as int) == name,
        param(name, v).skip(name.len() as int + 1) == encode_value(v),
{
    let e = encode_value(v);
    lemma_encoded_plain(encode_utf8(v));
    let p = param(name, v);
    reveal_strlit("=");
    assert(p =~= name + seq!['='] + e);
    assert forall|i: int| 0 <= i < p.len() implies p[i] != '&' by {
        if i < name.len() {
            assert(p[i] == name[i]);
        } else if i > name.len() {
            assert(p[i] == e[i - name.len() - 1]);
        }
    }
    lemma_find_char(name, '=');
    assert(find_char(name + seq!['='], '=') == Some(name.len() as int)) by {
        assert((name + seq!['=']).drop_last() =~= name);
    }
    lemma_find_char_prefix(name + seq!['='], e, '=');
    assert(name + seq!['='] + e =~= p);
    assert(p.take(name.len() as int) =~= name);
    assert(p.skip(name.len() as int + 1) =~= e);
}

proof fn lemma_apply_parts_concat(f: FiltersView, a: Seq<Seq<char>>, b: Seq<Seq<char>>)
    ensures
        apply_parts(f, a + b) == apply_parts(apply_parts(f, a), b),
    decreases b.len(),
{
    if b.len() == 0 {
        assert(a + b =~= a);
    } else {
        lemma_apply_parts_concat(f, a, b.drop_last());
        assert((a + b).drop_last() =~= a + b.drop_last());
        assert((a + b).last() == b.last());
    }
}

proof fn lemma_apply_one(g: FiltersView, name: Seq<char>, v: Seq<char>)
    requires
        !name.contains('&'),
        !name.contains('='),
    ensures
        apply_parts(g, seq![param(name, v)]) == assign(g, name, v),
{
    lemma_param_shape(name, v);
    lemma_value_round_trip(v);
    let p = param(name, v);
    assert(seq![p].drop_last() =~= Seq::<Seq<char>>::empty());
    assert(seq![p].last() == p);
    assert(apply_parts(g, Seq::<Seq<char>>::empty()) == g);
    assert(apply_parts(g, seq![p]) == apply_part(g, p));
    assert(apply_part(g, p) == assign(g, p.take(name.len() as int), decode_value(
        p.skip(name.len() as int + 1),
    )));
}

proof fn lemma_non_empty_all(ps: Seq<Seq<char>>)
    requires
        forall|i: int| 0 <= i < ps.len() ==> (#[trigger] ps[i]).len() > 0,
    ensures
        non_empty(ps) == ps,
    decreases ps.len(),
{
    if ps.len() > 0 {
        let init = ps.drop_last();
        assert forall|i: int| 0 <= i < init.len() implies (#[trigger] init[i]).len() > 0 by {
            assert(init[i] == ps[i]);
        }
        lemma_non_empty_all(init);
        assert(ps.last() == ps[ps.len() - 1]);
        assert(init.push(ps.last()) =~= ps);
    }
}

proof fn lemma_text_step(g: FiltersView, name: Seq<char>, v: Seq<char>)
    requires
        !name.contains('&'),
        !name.contains('='),
    ensures
        apply_parts(g, text_param(name, v)) == (if trimmed(v).len() == 0 {
            g
        } else {
            assign(g, name, trimmed(v))
        }),
{
    if trimmed(v).len() != 0 {
        lemma_apply_one(g, name, trimmed(v));
    }
}

proof fn lemma_parts_plain(f: FiltersView)
    ensures
        query_parts(f).len() >= 1,
        forall|i: int|
            0 <= i < query_parts(f).len() ==> !(#[trigger] query_parts(f)[i]).contains('&'),
{
    reveal_strlit("kind");
    reveal_strlit("activity");
    reveal_strlit("q");
    reveal_strlit("from");
    reveal_strlit("to");
    reveal_strlit("min_dist");
    reveal_strlit("max_dist");
    reveal_strlit("bbox");
    reveal_strlit("tags");
    let ps = query_parts(f);
    assert forall|i: int| 0 <= i < ps.len() implies !(#[trigger] ps[i]).contains('&') by {
        let p = ps[i];
        // Every part is some name's parameter.
        assert(exists|name: Seq<char>, v: Seq<char>|
            p == param(name, v) && !name.contains('&') && !name.contains('=')) by {
            lemma_part_is_param(f, i);
        }
        let (name, v) = choose|name: Seq<char>, v: Seq<char>|
            p == param(name, v) && !name.contains('&') && !name.contains('=');
        lemma_param_shape(name, v);
    }
}

/// The names the query writes; none holds `&` or `=`.
pub open spec fn param_name(name: Seq<char>) -> bool {
    name == "kind"@ || name == "activity"@ || name == "q"@ || name == "from"@ || name == "to"@
        || name == "min_dist"@ || name == "max_dist"@ || name == "bbox"@ || name == "tags"@
}

proof fn lemma_param_names_plain(name: Seq<char>)
    requires
        param_name(name),
    ensures
        !name.contains('&'),
        !name.contains('='),
{
    reveal_strlit("kind");
    reveal_strlit("activity");
    reveal_strlit("q");
    reveal_strlit("from");
    reveal_strlit("to");
    reveal_strlit("min_dist");
    reveal_strlit("max_dist");
    reveal_strlit("bbox");
    reveal_strlit("tags");
}

proof fn lemma_part_is_param(f: FiltersView, i: int)
    requires
        0 <= i < query_parts(f).len(),
    ensures
        exists|name: Seq<char>, v: Seq<char>|
            query_parts(f)[i] == param(name, v) && !name.contains('&') && !name.contains('='),
{
    let ps = query_parts(f);
    let p = ps[i];
    assert(exists|name: Seq<char>, v: Seq<char>| p == param(name, v) && param_name(name));
    let (name, v) = choose|name: Seq<char>, v: Seq<char>| p == param(name, v) && param_name(name);
    lemma_param_names_plain(name);
}

proof fn lemma_assign_names(g: FiltersView, v: Seq<char>)
    ensures
        assign(g, "kind"@, v) == (FiltersView { kind: kind_or_recorded(kind_named(v)), ..g }),
        assign(g, "activity"@, v) == (FiltersView { activity: activity_named(v), ..g }),
        assign(g, "q"@, v) == (FiltersView { q: v, ..g }),
        assign(g, "from"@, v) == (FiltersView { from: v, ..g }),
        assign(g, "to"@, v) == (FiltersView { to: v, ..g }),
        assign(g, "min_dist"@, v) == (FiltersView { min_dist: v, ..g }),
        assign(g, "max_dist"@, v) == (FiltersView { max_dist: v, ..g }),
        assign(g, "bbox"@, v) == (FiltersView { bbox: v, ..g }),
        assign(g, "tags"@, v) == (FiltersView { tags: non_empty(split_on(v, ',')), ..g }),
{
    reveal(assign);
    reveal_strlit("kind");
    reveal_strlit("activity");
    reveal_strlit("q");
    reveal_strlit("from");
    reveal_strlit("to");
    reveal_strlit("min_dist");
    reveal_strlit("max_dist");
    reveal_strlit("bbox");
    reveal_strlit("tags");
    assert("activity"@.len() != "kind"@.len());
    assert("q"@.len() != "kind"@.len());
    assert("q"@.len() != "activity"@.len());
    assert("from"@[0] != "kind"@[0]);
    assert("from"@.len() != "activity"@.len());
    assert("from"@.len() != "q"@.len());
    assert("to"@.len() != "kind"@.len());
    assert("to"@.len() != "activity"@.len());
    assert("to"@.len() != "q"@.len());
    assert("to"@.len() != "from"@.len());
    assert("min_dist"@.len() != "kind"@.len());
    assert("min_dist"@[0] != "activity"@[0]);
    assert("min_dist"@.len() != "q"@.len());
    assert("min_dist"@.len() != "from"@.len());
    assert("min_dist"@.len() != "to"@.len());
    assert("max_dist"@.len() != "kind"@.len());
    assert("max_dist"@[0] != "activity"@[0]);
    assert("max_dist"@.len() != "q"@.len());
    assert("max_dist"@.len() != "from"@.len());
    assert("max_dist"@.len() != "to"@.len());
    assert("max_dist"@[1] != "min_dist"@[1]);
    assert("bbox"@[0] != "kind"@[0]);
    assert("bbox"@.len() != "activity"@.len());
    assert("bbox"@.len() != "q"@.len());
    assert("bbox"@[0] != "from"@[0]);
    assert("bbox"@.len() != "to"@.len());
    assert("bbox"@.len() != "min_dist"@.len());
    assert("bbox"@.len() != "max_dist"@.len());
    assert("tags"@[0] != "kind"@[0]);
    assert("tags"@.len() != "activity"@.len());
    assert("tags"@.len() != "q"@.len());
    assert("tags"@[0] != "from"@[0]);
    assert("tags"@.len() != "to"@.len());
    assert("tags"@.len() != "min_dist"@.len());
    assert("tags"@.len() != "max_dist"@.len());
    assert("tags"@[0] != "bbox"@[0]);
}

proof fn lemma_query_splits(f: FiltersView)
    ensures
        split_on(query_of(f), '&') == query_parts(f),
{
    reveal_strlit("&");
    lemma_parts_plain(f);
    assert("&"@ =~= seq!['&']);
    lemma_split_join(query_parts(f), '&');
}

proof fn lemma_text_field(g: FiltersView, name: Seq<char>, v: Seq<char>)
    requires
        param_name(name),
        trimmed(v) == v,
    ensures
        apply_parts(g, text_param(name, v)) == (if v.len() == 0 {
            g
        } else {
            assign(g, name, v)
        }),
{
    lemma_param_names_plain(name);
    lemma_text_step(g, name, v);
}

#[verifier::rlimit(60)]
proof fn lemma_parts_apply(f: FiltersView)
    requires
        round_trips(f),
    ensures
        apply_parts(default_view(), query_parts(f)) == f,
{
    let s1 = seq![param("kind"@, kind_wire(f.kind))];
    let s2 = match f.activity {
        Some(a) => seq![param("activity"@, activity_wire(a))],
        None => Seq::<Seq<char>>::empty(),
    };
    let s3 = text_param("q"@, f.q);
    let s4 = text_param("from"@, f.from);
    let s5 = text_param("to"@, f.to);
    let s6 = text_param("min_dist"@, f.min_dist);
    let s7 = text_param("max_dist"@, f.max_dist);
    let s8 = text_param("bbox"@, f.bbox);
    let s9 = if f.tags.len() > 0 {
        seq![param("tags"@, join_with(f.tags, ","@))]
    } else {
        Seq::<Seq<char>>::empty()
    };
    assert(s1 + s2 + s3 + s4 + s5 + s6 + s7 + s8 + s9 =~= query_parts(f));
    let d = default_view();
    lemma_apply_parts_concat(d, s1 + s2 + s3 + s4 + s5 + s6 + s7 + s8, s9);
    lemma_apply_parts_concat(d, s1 + s2 + s3 + s4 + s5 + s6 + s7, s8);
    lemma_apply_parts_concat(d, s1 + s2 + s3 + s4 + s5 + s6, s7);
    lemma_apply_parts_concat(d, s1 + s2 + s3 + s4 + s5, s6);
    lemma_apply_parts_concat(d, s1 + s2 + s3 + s4, s5);
    lemma_apply_parts_concat(d, s1 + s2 + s3, s4);
    lemma_apply_parts_concat(d, s1 + s2, s3);
    lemma_apply_parts_concat(d, s1, s2);

    assert(param_name("kind"@));
    lemma_param_names_plain("kind"@);
    lemma_apply_one(d, "kind"@, kind_wire(f.kind));
    lemma_kind_round_trip(f.kind);
    lemma_assign_names(d, kind_wire(f.kind));
    let g1 = apply_parts(d, s1);
    assert(g1 == FiltersView { kind: f.kind, ..d });

    let g2 = apply_parts(g1, s2);
    match f.activity {
        Some(a) => {
            assert(param_name("activity"@));
            lemma_param_names_plain("activity"@);
            lemma_apply_one(g1, "activity"@, activity_wire(a));
            lemma_activity_round_trip(a);
            lemma_assign_names(g1, activity_wire(a));
        },
        None => {
            assert(s2 =~= Seq::<Seq<char>>::empty());
        },
    }
    assert(g2 == FiltersView { kind: f.kind, activity: f.activity, ..d });

    assert(param_name("q"@));
    lemma_text_field(g2, "q"@, f.q);
    lemma_assign_names(g2, f.q);
    if f.q.len() == 0 {
        assert(f.q =~= Seq::<char>::empty());
    }
    let g3 = apply_parts(g2, s3);
    assert(g3 == FiltersView { q: f.q, ..g2 });

    assert(param_name("from"@));
    lemma_text_field(g3, "from"@, f.from);
    lemma_assign_names(g3, f.from);
    if f.from.len() == 0 {
        assert(f.from =~= Seq::<char>::empty());
    }
    let g4 = apply_parts(g3, s4);
    assert(g4 == FiltersView { from: f.from, ..g3 });

    assert(param_name("to"@));
    lemma_text_field(g4, "to"@, f.to);
    lemma_assign_names(g4, f.to);
    if f.to.len() == 0 {
        assert(f.to =~= Seq::<char>::empty());
    }
    let g5 = apply_parts(g4, s5);
    assert(g5 == FiltersView { to: f.to, ..g4 });

    assert(param_name("min_dist"@));
    lemma_text_field(g5, "min_dist"@, f.min_dist);
    lemma_assign_names(g5, f.min_dist);
    if f.min_dist.len() == 0 {
        assert(f.min_dist =~= Seq::<char>::empty());
    }
    let g6 = apply_parts(g5, s6);
    assert(g6 == FiltersView { min_dist: f.min_dist, ..g5 });

    assert(param_name("max_dist"@));
    lemma_text_field(g6, "max_dist"@, f.max_dist);
    lemma_assign_names(g6, f.max_dist);
    if f.max_dist.len() == 0 {
        assert(f.max_dist =~= Seq::<char>::empty());
    }
    let g7 = apply_parts(g6, s7);
    assert(g7 == FiltersView { max_dist: f.max_dist, ..g6 });

    assert(param_name("bbox"@));
    lemma_text_field(g7, "bbox"@, f.bbox);
    lemma_assign_names(g7, f.bbox);
    if f.bbox.len() == 0 {
        assert(f.bbox =~= Seq::<char>::empty());
    }
    let g8 = apply_parts(g7, s8);
    assert(g8 == FiltersView { bbox: f.bbox, ..g7 });

    let g9 = apply_parts(g8, s9);
    if f.tags.len() > 0 {
        assert(param_name("tags"@));
        lemma_param_names_plain("tags"@);
        lemma_apply_one(g8, "tags"@, join_with(f.tags, ","@));
        lemma_assign_names(g8, join_with(f.tags, ","@));
        reveal_strlit(",");
        assert(","@ =~= seq![',']);
        lemma_split_join(f.tags, ',');
        lemma_non_empty_all(f.tags);
        assert(g9 == FiltersView { tags: f.tags, ..g8 });
    } else {
        assert(f.tags =~= Seq::<Seq<char>>::empty());
        assert(s9 =~= Seq::<Seq<char>>::empty());
    }
    assert(g9 == f);
}

/// A filtered list survives a round trip through its own query string
/// (US-52): reading back what [`Filters::to_query`] writes gives the same
/// filters, so a filtered list is bookmarkable and survives a reload. Holds
/// for every filter whose text fields are already trimmed and whose tags are
/// non-empty and comma-free.
pub proof fn lemma_query_round_trip(f: FiltersView)
    requires
        round_trips(f),
    ensures
        query_filters(query_of(f)) == f,
{
    lemma_query_splits(f);
    lemma_parts_apply(f);
}

/// The query of a filter that asks for its tab alone: `kind=` and the tab.
pub open spec fn tab_query(kind: TripKind) -> Seq<char> {
    param("kind"@, kind_wire(kind))
}

/// Joining pieces gives at least the first, and the separator too when
/// there is more than one.
proof fn lemma_join_with_len(ps: Seq<Seq<char>>, sep: Seq<char>)
    requires
        ps.len() >= 1,
    ensures
        join_with(ps, sep).len() >= ps[0].len() + if ps.len() >= 2 {
            sep.len()
        } else {
            0
        },
    decreases ps.len(),
{
    if ps.len() >= 2 {
        lemma_join_with_len(ps.drop_last(), sep);
        assert(ps.drop_last()[0] == ps[0]);
    }
}

/// Something beyond the tab narrows the list exactly when the query asks
/// for more than the tab: the list's "nothing matches" and the query it
/// sends never disagree.
pub proof fn lemma_narrowing_shows_in_the_query(f: FiltersView)
    ensures
        narrows(f) <==> query_of(f) != tab_query(f.kind),
{
    let ps = query_parts(f);
    let first = seq![tab_query(f.kind)];
    if narrows(f) {
        assert(ps.len() >= 2);
        lemma_join_with_len(ps, "&"@);
        reveal_strlit("&");
        assert(ps[0] == tab_query(f.kind));
    } else {
        assert(ps =~= first);
        assert(join_with(first, "&"@) == first[0]);
    }
}

} // verus!
