//! The trip's own numbers at the top of the detail screen (US-7/US-8): the
//! day the trip started follows its name, unless the name already leads
//! with it (US-62).

use vstd::prelude::*;

verus! {

/// Whether `c` is an ASCII digit.
pub open spec fn ascii_digit(c: char) -> bool {
    '0' <= c && c <= '9'
}

/// Whether a name starts with a `YYYY-MM-DD` date: ten characters, dashes
/// fifth and eighth, digits elsewhere.
pub open spec fn date_led(name: Seq<char>) -> bool {
    &&& name.len() >= 10
    &&& forall|i: int|
        0 <= i < 10 ==> if i == 4 || i == 7 {
            #[trigger] name[i] == '-'
        } else {
            ascii_digit(name[i])
        }
}

/// Whether a name starts with a `YYYY-MM-DD` date — the prefix US-12
/// suggests, and the shape nearly every name in the archive has.
pub fn leads_with_a_date(name: &str) -> (r: bool)
    ensures
        r == date_led(name@),
{
    let cs = crate::text::chars_of(name);
    if cs.len() < 10 {
        return false;
    }
    let mut i: usize = 0;
    while i < 10
        invariant
            i <= 10 <= cs.len(),
            cs@ == name@,
            forall|j: int|
                0 <= j < i ==> if j == 4 || j == 7 {
                    #[trigger] cs@[j] == '-'
                } else {
                    ascii_digit(cs@[j])
                },
        decreases 10 - i,
    {
        let c = cs[i];
        let ok = if i == 4 || i == 7 {
            c == '-'
        } else {
            '0' <= c && c <= '9'
        };
        if !ok {
            assert(!(if i == 4 || i == 7 {
                cs@[i as int] == '-'
            } else {
                ascii_digit(cs@[i as int])
            }));
            assert(!date_led(cs@));
            return false;
        }
        i = i + 1;
    }
    true
}

/// A name leads with a date exactly when its first ten characters are a
/// `YYYY-MM-DD` date: digits from '0' to '9' everywhere but the fifth and
/// eighth characters, which are dashes. A name with a letter, a space or
/// any other character among those digits does not, and keeps its start
/// date beside it.
pub proof fn lemma_a_leading_date_is_digits_and_dashes(name: Seq<char>)
    ensures
        date_led(name) <==> {
            &&& name.len() >= 10
            &&& name[4] == '-'
            &&& name[7] == '-'
            &&& forall|i: int|
                0 <= i < 10 && i != 4 && i != 7 ==> '0' <= #[trigger] name[i] && name[i] <= '9'
        },
{
    if date_led(name) {
        assert(name[4] == '-');
        assert(name[7] == '-');
    }
}

/// The start date shown beside the name: the trip's start date, unless the
/// name already leads with a date or the trip has no start.
pub fn date_beside_name<'a>(name: &str, start_date: Option<&'a str>) -> (r: Option<&'a str>)
    ensures
        r == (if date_led(name@) {
            None
        } else {
            start_date
        }),
{
    if leads_with_a_date(name) {
        None
    } else {
        start_date
    }
}

} // verus!
