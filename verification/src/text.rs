//! Characters of strings: taking them out, putting them back, finding one.

use vstd::prelude::*;
use vstd::std_specs::iter::IteratorSpec;
use vstd::string::*;

verus! {

/// `String::push` appends one character to the end of the string.
pub assume_specification[ String::push ](s: &mut String, ch: char)
    ensures
        final(s)@ == old(s)@.push(ch),
;

/// The characters of `s`, in order.
pub fn chars_of(s: &str) -> (chars: Vec<char>)
    ensures
        chars@ == s@,
{
    broadcast use vstd::string::group_string_axioms;

    let mut rest = s.chars();
    let mut chars: Vec<char> = Vec::new();
    loop
        invariant
            chars@ + IteratorSpec::remaining(&rest) == s@,
            IteratorSpec::decrease(&rest) is Some,
        ensures
            chars@ == s@,
        decreases IteratorSpec::decrease(&rest)->0,
    {
        match rest.next() {
            Some(c) => {
                chars.push(c);
                assert(chars@ + IteratorSpec::remaining(&rest) =~= s@);
            },
            None => {
                assert(chars@ =~= s@);
                break ;
            },
        }
    }
    chars
}

/// Appends `chars[from..to]` to `out`.
pub fn push_range(out: &mut String, chars: &Vec<char>, from: usize, to: usize)
    requires
        from <= to <= chars@.len(),
    ensures
        final(out)@ == old(out)@ + chars@.subrange(from as int, to as int),
{
    let mut i: usize = from;
    while i < to
        invariant
            from <= i <= to <= chars@.len(),
            out@ == old(out)@ + chars@.subrange(from as int, i as int),
        decreases to - i,
    {
        out.push(chars[i]);
        i += 1;
        assert(out@ =~= old(out)@ + chars@.subrange(from as int, i as int));
    }
}

/// Whether `token` stands in `s` at position `i`.
pub open spec fn matches_at(s: Seq<char>, token: Seq<char>, i: int) -> bool {
    0 <= i && i + token.len() <= s.len() && s.subrange(i, i + token.len()) == token
}

/// Whether `token` stands in `s` at position `i`.
pub fn starts_at(s: &Vec<char>, token: &Vec<char>, i: usize) -> (found: bool)
    requires
        i + token@.len() <= s@.len(),
    ensures
        found == matches_at(s@, token@, i as int),
{
    let m: usize = token.len();
    let n: usize = s.len();
    let mut k: usize = 0;
    while k < m
        invariant
            m == token@.len(),
            n == s@.len(),
            i + m <= n,
            k <= m,
            forall|j: int| 0 <= j < k ==> s@[i + j] == token@[j],
        decreases m - k,
    {
        if s[i + k] != token[k] {
            assert(s@.subrange(i as int, i + m)[k as int] == s@[i + k]);
            return false;
        }
        k += 1;
    }
    assert(s@.subrange(i as int, i + m) =~= token@);
    true
}

/// Appends `count` copies of `ch` to `out`.
pub fn push_copies(out: &mut String, ch: char, count: usize)
    ensures
        final(out)@ == old(out)@ + Seq::new(count as nat, |i: int| ch),
{
    let mut i: usize = 0;
    while i < count
        invariant
            i <= count,
            out@ == old(out)@ + Seq::new(i as nat, |j: int| ch),
        decreases count - i,
    {
        out.push(ch);
        i += 1;
        assert(out@ =~= old(out)@ + Seq::new(i as nat, |j: int| ch));
    }
}

/// The index of the first `ch` in `s` at or behind `i`, or the length of `s`
/// where there is none.
pub open spec fn first_from(s: Seq<char>, ch: char, i: int) -> int
    decreases s.len() - i,
{
    if i < 0 || i >= s.len() {
        s.len() as int
    } else if s[i] == ch {
        i
    } else {
        first_from(s, ch, i + 1)
    }
}

/// The first index of `ch` in `chars`, or their number where there is none.
pub fn find_char(chars: &Vec<char>, ch: char) -> (at: usize)
    ensures
        at == first_from(chars@, ch, 0),
        at <= chars@.len(),
        at < chars@.len() ==> chars@[at as int] == ch,
        forall|j: int| 0 <= j < at ==> chars@[j] != ch,
{
    let n: usize = chars.len();
    let mut i: usize = 0;
    while i < n
        invariant
            n == chars@.len(),
            i <= n,
            first_from(chars@, ch, i as int) == first_from(chars@, ch, 0),
            forall|j: int| 0 <= j < i ==> chars@[j] != ch,
        decreases n - i,
    {
        if chars[i] == ch {
            return i;
        }
        i += 1;
    }
    n
}

} // verus!
