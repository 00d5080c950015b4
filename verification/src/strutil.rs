//! Character-level helpers: exact and case-insensitive comparison and
//! substring search, for scheme dispatch and option-key matching.

use vstd::prelude::*;

verus! {

/// An upper-case ASCII letter folded to lower case; anything else kept.
pub open spec fn lower_char(c: char) -> char {
    if 65 <= c as int && c as int <= 90 {
        (((c as u8) + 32) as char)
    } else {
        c
    }
}

/// A lower-case ASCII letter folded to upper case; anything else kept.
pub open spec fn upper_char(c: char) -> char {
    if 97 <= c as int && c as int <= 122 {
        (((c as u8) - 32) as char)
    } else {
        c
    }
}

/// The string with every ASCII letter folded to lower case.
pub open spec fn lower_chars(s: Seq<char>) -> Seq<char> {
    s.map_values(|c: char| lower_char(c))
}

/// The string with every ASCII letter folded to upper case.
pub open spec fn upper_chars(s: Seq<char>) -> Seq<char> {
    s.map_values(|c: char| upper_char(c))
}

/// `n` occurs in `h` as a contiguous run.
pub open spec fn contains_sub(h: Seq<char>, n: Seq<char>) -> bool {
    exists|i: int| 0 <= i <= h.len() - n.len() && #[trigger] h.subrange(i, i + n.len()) == n
}

/// Folds one character to lower case.
fn lower_char_exec(c: char) -> (r: char)
    ensures
        r == lower_char(c),
{
    let v = c as u32;
    if 65 <= v && v <= 90 {
        ((c as u8) + 32) as char
    } else {
        c
    }
}

/// Exact character-wise string equality.
pub fn str_eq(a: &str, b: &str) -> (r: bool)
    ensures
        r == (a@ == b@),
{
    let na = a.unicode_len();
    let nb = b.unicode_len();
    if na != nb {
        return false;
    }
    for i in 0..na
        invariant
            na == a@.len() == b@.len(),
            forall|j: int| 0 <= j < i ==> a@[j] == b@[j],
    {
        if a.get_char(i) != b.get_char(i) {
            return false;
        }
    }
    proof {
        assert(a@ =~= b@);
    }
    true
}

/// String equality up to ASCII case.
pub fn eq_ignore_ascii_case(a: &str, b: &str) -> (r: bool)
    ensures
        r == (lower_chars(a@) == lower_chars(b@)),
{
    let na = a.unicode_len();
    let nb = b.unicode_len();
    if na != nb {
        proof {
            assert(lower_chars(a@).len() == a@.len());
            assert(lower_chars(b@).len() == b@.len());
        }
        return false;
    }
    for i in 0..na
        invariant
            na == a@.len() == b@.len(),
            forall|j: int| 0 <= j < i ==> lower_char(a@[j]) == lower_char(b@[j]),
    {
        if lower_char_exec(a.get_char(i)) != lower_char_exec(b.get_char(i)) {
            proof {
                assert(lower_chars(a@)[i as int] != lower_chars(b@)[i as int]);
            }
            return false;
        }
    }
    proof {
        assert(lower_chars(a@) =~= lower_chars(b@));
    }
    true
}

/// Whether `key` is exactly the upper-case form of `alias`: how an option
/// alias names its environment variable.
pub fn is_upper_of(key: &str, alias: &str) -> (r: bool)
    ensures
        r == (key@ == upper_chars(alias@)),
{
    let nk = key.unicode_len();
    let na = alias.unicode_len();
    if nk != na {
        proof {
            assert(upper_chars(alias@).len() == alias@.len());
        }
        return false;
    }
    for i in 0..nk
        invariant
            nk == key@.len() == alias@.len(),
            forall|j: int| 0 <= j < i ==> key@[j] == upper_char(alias@[j]),
    {
        let c = alias.get_char(i);
        let v = c as u32;
        let folded: char = if 97 <= v && v <= 122 {
            ((c as u8) - 32) as char
        } else {
            c
        };
        if key.get_char(i) != folded {
            proof {
                assert(upper_chars(alias@)[i as int] == upper_char(alias@[i as int]));
            }
            return false;
        }
    }
    proof {
        assert(key@ =~= upper_chars(alias@));
    }
    true
}

/// Substring search.
pub fn contains_str(hay: &str, needle: &str) -> (r: bool)
    ensures
        r == contains_sub(hay@, needle@),
{
    let nh = hay.unicode_len();
    let nn = needle.unicode_len();
    if nn > nh {
        return false;
    }
    if nn == 0 {
        proof {
            assert(hay@.subrange(0, 0 + needle@.len() as int) =~= needle@);
        }
        return true;
    }
    let last = nh - nn;
    for i in 0..(last + 1)
        invariant
            nh == hay@.len(),
            nn == needle@.len(),
            last == nh - nn,
            forall|s: int|
                0 <= s < i ==> #[trigger] hay@.subrange(s, s + needle@.len()) != needle@,
    {
        let mut all = true;
        for j in 0..nn
            invariant
                nh == hay@.len(),
                nn == needle@.len(),
                i + nn <= nh,
                all <==> (forall|t: int| 0 <= t < j ==> hay@[i + t] == needle@[t]),
        {
            if hay.get_char(i + j) != needle.get_char(j) {
                all = false;
            }
        }
        if all {
            proof {
                assert(hay@.subrange(i as int, i + needle@.len()) =~= needle@);
            }
            return true;
        }
        proof {
            let t = choose|t: int| 0 <= t < nn && hay@[i + t] != needle@[t];
            assert(hay@.subrange(i as int, i + needle@.len())[t] == hay@[i + t]);
        }
    }
    false
}

/// The values recognized as "yes": `1`, and `true`, `on`, `yes` or `y` up
/// to ASCII case.
pub open spec fn is_truthy(s: Seq<char>) -> bool {
    ||| s == seq!['1']
    ||| lower_chars(s) == seq!['t', 'r', 'u', 'e']
    ||| lower_chars(s) == seq!['o', 'n']
    ||| lower_chars(s) == seq!['y', 'e', 's']
    ||| lower_chars(s) == seq!['y']
}

/// Whether a configuration value means "yes".
pub fn str_is_truthy(val: &str) -> (r: bool)
    ensures
        r == is_truthy(val@),
{
    proof {
        reveal_strlit("1");
        reveal_strlit("true");
        reveal_strlit("on");
        reveal_strlit("yes");
        reveal_strlit("y");
        assert("1"@ =~= seq!['1']);
        assert(lower_chars("true"@) =~= seq!['t', 'r', 'u', 'e']);
        assert(lower_chars("on"@) =~= seq!['o', 'n']);
        assert(lower_chars("yes"@) =~= seq!['y', 'e', 's']);
        assert(lower_chars("y"@) =~= seq!['y']);
    }
    str_eq(val, "1") || eq_ignore_ascii_case(val, "true") || eq_ignore_ascii_case(val, "on")
        || eq_ignore_ascii_case(val, "yes") || eq_ignore_ascii_case(val, "y")
}

} // verus!
