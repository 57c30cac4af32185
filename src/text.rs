//! String operations of std that the renderer and the command-line logic rely on,
//! each with the behaviour it is used for.
use std::hash::BuildHasher;
use vstd::prelude::*;

verus! {

/// `p` is a prefix of `s`.
pub open spec fn is_prefix(p: Seq<char>, s: Seq<char>) -> bool {
    p.len() <= s.len() && s.subrange(0, p.len() as int) == p
}

/// `p` occurs somewhere in `s`.
pub open spec fn occurs_in(p: Seq<char>, s: Seq<char>) -> bool {
    exists|i: int| 0 <= i <= s.len() - p.len() && #[trigger] s.subrange(i, i + p.len()) == p
}

/// `s` with every occurrence of `p` replaced by `t`, scanning from the left
/// without overlap; an empty `p` matches before every character and at the end.
pub open spec fn replaced(s: Seq<char>, p: Seq<char>, t: Seq<char>) -> Seq<char>
    decreases s.len(),
{
    if p.len() == 0 {
        if s.len() == 0 {
            t
        } else {
            t + seq![s[0]] + replaced(s.subrange(1, s.len() as int), p, t)
        }
    } else if s.len() < p.len() {
        s
    } else if s.subrange(0, p.len() as int) == p {
        t + replaced(s.subrange(p.len() as int, s.len() as int), p, t)
    } else {
        seq![s[0]] + replaced(s.subrange(1, s.len() as int), p, t)
    }
}

/// Replacing one character by nothing removes every occurrence of it.
pub proof fn lemma_remove_char(s: Seq<char>, c: char)
    ensures
        replaced(s, seq![c], Seq::empty()) == s.filter(|x: char| x != c),
    decreases s.len(),
{
    let pred = |x: char| x != c;
    reveal(Seq::filter);
    if s.len() == 0 {
        assert(s.filter(pred) =~= Seq::<char>::empty());
    } else {
        let rest = s.subrange(1, s.len() as int);
        assert(s =~= seq![s[0]] + rest);
        Seq::filter_distributes_over_add(seq![s[0]], rest, pred);
        lemma_remove_char(rest, c);
        let head = seq![s[0]];
        assert(head.drop_last() =~= Seq::<char>::empty());
        assert(Seq::<char>::empty().filter(pred) =~= Seq::<char>::empty());
        assert(head.last() == s[0]);
        assert(head.drop_last().filter(pred) == Seq::<char>::empty());
        if s[0] == c {
            assert(s.subrange(0, 1) =~= seq![c]);
            assert(head.filter(pred) =~= Seq::<char>::empty());
            assert(Seq::<char>::empty() + rest.filter(pred) =~= rest.filter(pred));
        } else {
            assert(s.subrange(0, 1) != seq![c]) by {
                assert(s.subrange(0, 1)[0] == s[0]);
            }
            assert(head.filter(pred) == Seq::<char>::empty().push(s[0]));
            assert(head.filter(pred) =~= head);
        }
    }
}

/// The decimal digit for `d < 10`.
pub open spec fn digit(d: nat) -> char {
    if d == 0 { '0' }
    else if d == 1 { '1' }
    else if d == 2 { '2' }
    else if d == 3 { '3' }
    else if d == 4 { '4' }
    else if d == 5 { '5' }
    else if d == 6 { '6' }
    else if d == 7 { '7' }
    else if d == 8 { '8' }
    else { '9' }
}

/// The decimal notation of `n`, without sign or leading zeros.
pub open spec fn decimal(n: nat) -> Seq<char>
    decreases n,
{
    if n < 10 {
        seq![digit(n)]
    } else {
        decimal(n / 10).push(digit(n % 10))
    }
}

/// The 64-bit fingerprint that std's default hasher gives a string.
pub uninterp spec fn fingerprint(s: Seq<char>) -> u64;

/// Relies on `BuildHasher::hash_one` with std's `DefaultHasher` built by
/// `BuildHasherDefault`: its keys are fixed, so the value depends on the text alone.
#[verifier::external_body]
pub(crate) fn get_hashed_id(s: &str) -> (r: u64)
    ensures
        r == fingerprint(s@),
{
    std::hash::BuildHasherDefault::<std::collections::hash_map::DefaultHasher>::default().hash_one(s)
}

/// Relies on `u64`'s `to_string`: decimal notation.
#[verifier::external_body]
pub(crate) fn decimal_string(n: u64) -> (r: String)
    ensures
        r@ == decimal(n as nat),
{
    n.to_string()
}

/// Relies on `str::starts_with` with a string pattern.
#[verifier::external_body]
pub(crate) fn starts_with(s: &str, p: &str) -> (r: bool)
    ensures
        r == is_prefix(p@, s@),
{
    s.starts_with(p)
}

/// Relies on `str::contains` with a string pattern.
#[verifier::external_body]
pub(crate) fn contains(s: &str, p: &str) -> (r: bool)
    ensures
        r == occurs_in(p@, s@),
{
    s.contains(p)
}

/// Relies on `str::replace` with a string pattern: all matches, left to right.
#[verifier::external_body]
pub(crate) fn replace_all(s: &str, p: &str, t: &str) -> (r: String)
    ensures
        r@ == replaced(s@, p@, t@),
{
    s.replace(p, t)
}

} // verus!
