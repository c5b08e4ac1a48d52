//! Where the API lives. On the web the app is served by the very server it
//! talks to, so an empty base URL is right and there is nothing to
//! configure; elsewhere the base URL is something the owner must supply.

use vstd::prelude::*;

use crate::text::{chars_of, is_blank, owned, push_chars, str_is_blank, string_of, trim_chars, trimmed};

verus! {

/// Whether `s` holds `pat` somewhere.
pub open spec fn holds(s: Seq<char>, pat: Seq<char>) -> bool {
    exists|i: int| 0 <= i <= s.len() - pat.len() && #[trigger] s.subrange(i, i + pat.len()) == pat
}

/// `s` without the slashes it ends with.
pub open spec fn without_trailing_slashes(s: Seq<char>) -> Seq<char>
    decreases s.len(),
{
    if s.len() > 0 && s.last() == '/' {
        without_trailing_slashes(s.drop_last())
    } else {
        s
    }
}

/// A hand-typed address, tidied: trimmed, `http://` assumed when no scheme
/// is given, and trailing slashes dropped; nothing typed stays nothing.
pub open spec fn normalized_address(input: Seq<char>) -> Seq<char> {
    let t = trimmed(input);
    if t.len() == 0 {
        Seq::empty()
    } else {
        let with_scheme = if holds(t, "://"@) {
            t
        } else {
            "http://"@ + t
        };
        without_trailing_slashes(with_scheme)
    }
}

/// Whether `cs` holds the scheme separator `://`.
fn holds_scheme_separator(cs: &[char]) -> (r: bool)
    ensures
        r == holds(cs@, "://"@),
{
    proof {
        reveal_strlit("://");
    }
    let ghost sep = "://"@;
    if cs.len() < 3 {
        assert forall|i: int| 0 <= i <= cs@.len() - sep.len() implies #[trigger] cs@.subrange(
            i,
            i + sep.len(),
        ) != sep by {}
        return false;
    }
    let mut i: usize = 0;
    while i < cs.len() - 2
        invariant
            3 <= cs.len(),
            i <= cs.len() - 2,
            sep == seq![':', '/', '/'],
            sep == "://"@,
            forall|j: int| 0 <= j < i ==> #[trigger] cs@.subrange(j, j + 3) != sep,
        decreases cs.len() - i,
    {
        if cs[i] == ':' && cs[i + 1] == '/' && cs[i + 2] == '/' {
            assert(cs@.subrange(i as int, i + 3) =~= sep);
            assert(cs@.subrange(i as int, i as int + "://"@.len()) == "://"@);
            assert(holds(cs@, "://"@));
            return true;
        }
        assert(cs@.subrange(i as int, i + 3)[0] == cs@[i as int]);
        assert(cs@.subrange(i as int, i + 3)[1] == cs@[i + 1]);
        assert(cs@.subrange(i as int, i + 3)[2] == cs@[i + 2]);
        i = i + 1;
    }
    false
}

/// Tidy up a hand-typed address: trim it, assume `http://` when no scheme
/// is given (a LAN address is typed far more often than it is pasted), and
/// drop trailing slashes so joining `/api/…` can't produce a doubled one.
pub fn normalize(input: &str) -> (r: String)
    ensures
        r@ == normalized_address(input@),
{
    let cs = chars_of(input);
    let t = trim_chars(cs.as_slice());
    if t.len() == 0 {
        return String::new();
    }
    let mut with_scheme: Vec<char> = Vec::new();
    if !holds_scheme_separator(t.as_slice()) {
        proof {
            reveal_strlit("http://");
        }
        with_scheme.push('h');
        with_scheme.push('t');
        with_scheme.push('t');
        with_scheme.push('p');
        with_scheme.push(':');
        with_scheme.push('/');
        with_scheme.push('/');
        assert(with_scheme@ =~= "http://"@);
    }
    let ghost prefix = with_scheme@;
    let mut k: usize = 0;
    while k < t.len()
        invariant
            k <= t.len(),
            with_scheme@ == prefix + t@.take(k as int),
        decreases t.len() - k,
    {
        with_scheme.push(t[k]);
        k = k + 1;
        assert(with_scheme@ =~= prefix + t@.take(k as int));
    }
    assert(t@.take(k as int) =~= t@);
    let mut end: usize = with_scheme.len();
    assert(with_scheme@.take(end as int) =~= with_scheme@);
    while end > 0 && with_scheme[end - 1] == '/'
        invariant
            end <= with_scheme.len(),
            without_trailing_slashes(with_scheme@.take(end as int)) == without_trailing_slashes(
                with_scheme@,
            ),
        decreases end,
    {
        assert(with_scheme@.take(end as int).drop_last() =~= with_scheme@.take(end - 1));
        end = end - 1;
    }
    assert(with_scheme@.take(end as int) =~= without_trailing_slashes(with_scheme@));
    let mut out: Vec<char> = Vec::new();
    let mut j: usize = 0;
    while j < end
        invariant
            j <= end <= with_scheme.len(),
            out@ == with_scheme@.take(j as int),
        decreases end - j,
    {
        out.push(with_scheme[j]);
        j = j + 1;
        assert(out@ =~= with_scheme@.take(j as int));
    }
    string_of(out.as_slice())
}

/// A tidied address never ends with a slash, so joining `/api/…` onto it
/// can't produce a doubled one.
pub proof fn lemma_tidied_address_ends_without_a_slash(input: Seq<char>)
    ensures
        normalized_address(input).len() == 0 || normalized_address(input).last() != '/',
{
    let t = trimmed(input);
    if t.len() > 0 {
        let with_scheme = if holds(t, "://"@) {
            t
        } else {
            "http://"@ + t
        };
        lemma_no_trailing_slash(with_scheme);
    }
}

proof fn lemma_no_trailing_slash(s: Seq<char>)
    ensures
        without_trailing_slashes(s).len() == 0 || without_trailing_slashes(s).last() != '/',
    decreases s.len(),
{
    if s.len() > 0 && s.last() == '/' {
        lemma_no_trailing_slash(s.drop_last());
    }
}

/// Whether the app can't work until the owner supplies a base URL: only
/// ever off the web (`on_web` false), where relative URLs have nothing to
/// be relative to, and only while the address is blank.
pub fn needs_configuration(base_url: &str, on_web: bool) -> (r: bool)
    ensures
        r == (!on_web && is_blank(base_url@)),
{
    !on_web && str_is_blank(base_url)
}

/// The base URL to use at launch: whatever was stored, unless it is blank;
/// then, on the web, the page's own origin (`origin`), and elsewhere
/// nothing, for the owner to supply.
pub fn base_url_to_use(stored: &str, origin: Option<&str>) -> (r: String)
    ensures
        !is_blank(stored@) ==> r@ == stored@,
        is_blank(stored@) ==> match origin {
            Some(o) => r@ == o@,
            None => r@.len() == 0,
        },
{
    if !str_is_blank(stored) {
        return owned(stored);
    }
    match origin {
        Some(o) => owned(o),
        None => String::new(),
    }
}

/// What the settings screen does with what was typed: check the tidied
/// address, or say what to enter when nothing was.
#[derive(Debug, Clone, PartialEq)]
pub enum Connect {
    /// Ask the archive at this address for its recorded trips.
    Check(String),
    /// Nothing to check; say this.
    Ask(String),
}

/// "Connect": the address to check, tidied, or a request for one.
pub fn connect(draft: &str) -> (r: Connect)
    ensures
        normalized_address(draft@).len() == 0 ==> (r matches Connect::Ask(m) && m@
            == "Enter the address your Trip Archive is reachable at."@),
        normalized_address(draft@).len() > 0 ==> (r matches Connect::Check(a) && a@
            == normalized_address(draft@)),
{
    let candidate = normalize(draft);
    if chars_of(candidate.as_str()).len() == 0 {
        Connect::Ask(owned("Enter the address your Trip Archive is reachable at."))
    } else {
        Connect::Check(candidate)
    }
}

} // verus!
