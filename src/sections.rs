//! The section map: section titles in order of first appearance, each with its
//! blocks, held in an `indexmap::IndexMap`.
use crate::markup::Block;
use indexmap::IndexMap;
use vstd::prelude::*;

verus! {

#[verifier::external_type_specification]
#[verifier::external_body]
#[verifier::reject_recursive_types(K)]
#[verifier::reject_recursive_types(V)]
#[verifier::reject_recursive_types(S)]
pub struct ExIndexMap<K, V, S>(IndexMap<K, V, S>);

/// Sections in map order: a title and its blocks.
pub type Sections = Seq<(Seq<char>, Seq<Block>)>;

/// What a section map holds, in its order.
pub uninterp spec fn sections_of(m: IndexMap<String, Vec<Block>>) -> Sections;

/// The position of the first section titled `t`, or -1.
pub open spec fn position_of(s: Sections, t: Seq<char>) -> int
    decreases s.len(),
{
    if s.len() == 0 {
        -1
    } else if s[0].0 == t {
        0
    } else {
        let p = position_of(s.subrange(1, s.len() as int), t);
        if p < 0 { -1 } else { p + 1 }
    }
}

/// `s` with a section titled `t`: unchanged if there is one, else an empty one at the end.
pub open spec fn with_section(s: Sections, t: Seq<char>) -> Sections {
    if position_of(s, t) >= 0 {
        s
    } else {
        s.push((t, Seq::empty()))
    }
}

/// `s` with `b` appended to the section titled `t`, which is added at the end if missing.
pub open spec fn with_block(s: Sections, t: Seq<char>, b: Block) -> Sections {
    let p = position_of(s, t);
    if p >= 0 {
        s.update(p, (t, s[p].1.push(b)))
    } else {
        s.push((t, seq![b]))
    }
}

/// Relies on `IndexMap::new`: an empty map.
#[verifier::external_body]
pub(crate) fn new_section_map() -> (m: IndexMap<String, Vec<Block>>)
    ensures
        sections_of(m) == Seq::<(Seq<char>, Seq<Block>)>::empty(),
{
    IndexMap::new()
}

/// Relies on `IndexMap::len`: the number of entries.
#[verifier::external_body]
pub(crate) fn section_count(m: &IndexMap<String, Vec<Block>>) -> (n: usize)
    ensures
        n == sections_of(*m).len(),
{
    m.len()
}

/// Relies on `IndexMap::get_index`: the entry at position `i`, in insertion order.
#[verifier::external_body]
pub(crate) fn section_at(m: &IndexMap<String, Vec<Block>>, i: usize) -> (r: (&String, &Vec<Block>))
    requires
        i < sections_of(*m).len(),
    ensures
        r.0@ == sections_of(*m)[i as int].0,
        r.1@ == sections_of(*m)[i as int].1,
{
    m.get_index(i).unwrap()
}

/// Relies on `IndexMap::entry` and `Entry::or_default`: an existing entry is
/// kept in place, a missing one is added last with an empty value.
#[verifier::external_body]
pub(crate) fn open_section(m: &mut IndexMap<String, Vec<Block>>, title: String)
    ensures
        sections_of(*final(m)) == with_section(sections_of(*old(m)), title@),
{
    m.entry(title).or_default();
}

/// Relies on `IndexMap::entry` and `Entry::or_default`, then `Vec::push` on the
/// value: the block goes last in that entry, which is added last if missing.
#[verifier::external_body]
pub(crate) fn push_to_section(m: &mut IndexMap<String, Vec<Block>>, title: String, b: Block)
    ensures
        sections_of(*final(m)) == with_block(sections_of(*old(m)), title@, b),
{
    m.entry(title).or_default().push(b);
}

} // verus!
