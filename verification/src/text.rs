//! Character-level helpers over strings: whitespace, trimming, and the
//! character sequence of a string.

use vstd::prelude::*;
use vstd::std_specs::iter::IteratorSpec;

verus! {

/// The Unicode `White_Space` property, as listed in the Unicode Character
/// Database (PropList.txt); `char::is_whitespace` is documented to test it.
pub open spec fn is_white_space(c: char) -> bool {
    let v = c as u32;
    ||| 0x09 <= v <= 0x0D
    ||| v == 0x20
    ||| v == 0x85
    ||| v == 0xA0
    ||| v == 0x1680
    ||| 0x2000 <= v <= 0x200A
    ||| v == 0x2028
    ||| v == 0x2029
    ||| v == 0x202F
    ||| v == 0x205F
    ||| v == 0x3000
}

/// Whether `c` is a whitespace character.
pub fn is_whitespace(c: char) -> (b: bool)
    ensures
        b == is_white_space(c),
{
    let v = c as u32;
    (0x09 <= v && v <= 0x0D) || v == 0x20 || v == 0x85 || v == 0xA0 || v == 0x1680 || (0x2000
        <= v && v <= 0x200A) || v == 0x2028 || v == 0x2029 || v == 0x202F || v == 0x205F || v
        == 0x3000
}

/// The number of whitespace characters at the start of `s`.
pub open spec fn leading_white(s: Seq<char>) -> nat
    decreases s.len(),
{
    if s.len() > 0 && is_white_space(s[0]) {
        1 + leading_white(s.drop_first())
    } else {
        0
    }
}

/// The number of whitespace characters at the end of `s`.
pub open spec fn trailing_white(s: Seq<char>) -> nat
    decreases s.len(),
{
    if s.len() > 0 && is_white_space(s.last()) {
        1 + trailing_white(s.drop_last())
    } else {
        0
    }
}

/// `s` without its leading and trailing whitespace.
pub open spec fn trimmed(s: Seq<char>) -> Seq<char> {
    let i = leading_white(s);
    if i == s.len() {
        Seq::empty()
    } else {
        s.subrange(i as int, s.len() - trailing_white(s))
    }
}

/// The characters of `s`, in order.
pub fn chars_of(s: &str) -> (v: Vec<char>)
    ensures
        v@ == s@,
{
    let n = s.unicode_len();
    let mut v: Vec<char> = Vec::new();
    let mut it = s.chars();
    let mut i: usize = 0;
    proof {
        broadcast use vstd::string::group_string_axioms;
    }
    while i < n
        invariant
            n == s@.len(),
            i <= n,
            v@ == s@.take(i as int),
            it.remaining() == s@.skip(i as int),
            it.obeys_prophetic_iter_laws(),
        decreases n - i,
    {
        let c = it.next();
        proof {
            broadcast use vstd::string::group_string_axioms;
        }
        assert(s@.skip(i as int).len() > 0);
        match c {
            Some(c) => {
                v.push(c);
            },
            None => {},
        }
        assert(s@.take(i + 1) =~= s@.take(i as int).push(s@[i as int]));
        assert(s@.skip(i as int).drop_first() =~= s@.skip(i + 1));
        i = i + 1;
    }
    assert(s@.take(n as int) =~= s@);
    v
}


/// `s` with its leading and trailing whitespace removed.
pub fn trim(s: &str) -> (r: &str)
    ensures
        r@ == trimmed(s@),
{
    let v = chars_of(s);
    let n = v.len();
    let mut i: usize = 0;
    assert(s@.skip(0) =~= s@);
    while i < n && is_whitespace(v[i])
        invariant
            n == s@.len(),
            v@ == s@,
            i <= n,
            leading_white(s@) == i + leading_white(s@.skip(i as int)),
        decreases n - i,
    {
        assert(s@.skip(i as int).drop_first() =~= s@.skip(i + 1));
        i = i + 1;
    }
    if i == n {
        assert(s@.skip(n as int) =~= Seq::<char>::empty());
        return s.substring_char(n, n);
    }
    assert(leading_white(s@.skip(i as int)) == 0);
    let mut j: usize = n;
    assert(s@.take(n as int) =~= s@);
    while j > i + 1 && is_whitespace(v[j - 1])
        invariant
            n == s@.len(),
            v@ == s@,
            i < n,
            i + 1 <= j <= n,
            !is_white_space(s@[i as int]),
            trailing_white(s@) == (n - j) + trailing_white(s@.take(j as int)),
        decreases j,
    {
        assert(s@.take(j as int).drop_last() =~= s@.take(j - 1));
        j = j - 1;
    }
    assert(trailing_white(s@.take(j as int)) == 0);
    s.substring_char(i, j)
}


/// Appends `c` to `s`.
///
/// Trusted: calls `String::push`, which std documents as appending the given
/// char to the end of the string; the contract states exactly that.
#[verifier::external_body]
pub(crate) fn push_char(s: &mut String, c: char)
    ensures
        final(s)@ == old(s)@.push(c),
{
    s.push(c);
}

} // verus!
