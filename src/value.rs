//! A generic document tree (the shape shared by YAML and JSON documents),
//! its mathematical view, and the lookups that record decoders are built on.
use vstd::prelude::*;

verus! {

/// A document node. Integers that fit 64 bits are held as such; other
/// numbers are kept as their source text so that no precision is lost
/// between reading and writing.
#[derive(Debug, PartialEq)]
pub enum Value {
    Null,
    Bool(bool),
    Int(i64),
    Number(String),
    Text(String),
    List(Vec<Value>),
    Mapping(Vec<(String, Value)>),
}

/// The view of a [`Value`]: the same tree with strings as character sequences.
pub enum Tree {
    Null,
    Bool(bool),
    Int(i64),
    Number(Seq<char>),
    Text(Seq<char>),
    List(Seq<Tree>),
    Mapping(Seq<(Seq<char>, Tree)>),
}

/// An entry of a mapping, as seen in contracts.
pub type Entry = (Seq<char>, Tree);

impl View for Value {
    type V = Tree;

    open spec fn view(&self) -> Tree
        decreases self,
    {
        match self {
            Value::Null => Tree::Null,
            Value::Bool(b) => Tree::Bool(*b),
            Value::Int(i) => Tree::Int(*i),
            Value::Number(n) => Tree::Number(n@),
            Value::Text(s) => Tree::Text(s@),
            Value::List(items) => Tree::List(
                Seq::new(
                    items.len() as nat,
                    |i: int|
                        if 0 <= i < items.len() {
                            items[i].view()
                        } else {
                            Tree::Null
                        },
                ),
            ),
            Value::Mapping(entries) => Tree::Mapping(
                Seq::new(
                    entries.len() as nat,
                    |i: int|
                        (
                            entries[i].0@,
                            if 0 <= i < entries.len() {
                                entries[i].1.view()
                            } else {
                                Tree::Null
                            },
                        ),
                ),
            ),
        }
    }
}

/// The value of the first entry of `m` under key `k`.
pub open spec fn lookup(m: Seq<Entry>, k: Seq<char>) -> Option<Tree>
    decreases m.len(),
{
    if m.len() == 0 {
        None
    } else {
        let earlier = lookup(m.drop_last(), k);
        if earlier is Some {
            earlier
        } else if m.last().0 == k {
            Some(m.last().1)
        } else {
            None
        }
    }
}

/// The entries of `m` whose key is not among `known`, in their order.
pub open spec fn rest(m: Seq<Entry>, known: Seq<Seq<char>>) -> Seq<Entry>
    decreases m.len(),
{
    if m.len() == 0 {
        Seq::empty()
    } else if known.contains(m.last().0) {
        rest(m.drop_last(), known)
    } else {
        rest(m.drop_last(), known).push(m.last())
    }
}

/// The entries for the slots that hold a value, in slot order.
pub open spec fn present(slots: Seq<(Seq<char>, Option<Tree>)>) -> Seq<Entry>
    decreases slots.len(),
{
    if slots.len() == 0 {
        Seq::empty()
    } else if slots.last().1 is Some {
        present(slots.drop_last()).push((slots.last().0, slots.last().1->Some_0))
    } else {
        present(slots.drop_last())
    }
}

/// The keys of a list of slots.
pub open spec fn slot_keys(slots: Seq<(Seq<char>, Option<Tree>)>) -> Seq<Seq<char>> {
    Seq::new(slots.len(), |i: int| slots[i].0)
}

/// The view of a list of string literals.
pub open spec fn keys_view(known: &[&str]) -> Seq<Seq<char>> {
    Seq::new(known@.len(), |i: int| known@[i]@)
}

pub proof fn lemma_lookup_append(a: Seq<Entry>, b: Seq<Entry>, k: Seq<char>)
    ensures
        lookup(a + b, k) == (if lookup(a, k) is Some { lookup(a, k) } else { lookup(b, k) }),
    decreases b.len(),
{
    if b.len() == 0 {
        assert(a + b =~= a);
    } else {
        lemma_lookup_append(a, b.drop_last(), k);
        assert((a + b).drop_last() =~= a + b.drop_last());
    }
}

pub proof fn lemma_rest_append(a: Seq<Entry>, b: Seq<Entry>, known: Seq<Seq<char>>)
    ensures
        rest(a + b, known) == rest(a, known) + rest(b, known),
    decreases b.len(),
{
    if b.len() == 0 {
        assert(a + b =~= a);
        assert(rest(a, known) + rest(b, known) =~= rest(a, known));
    } else {
        lemma_rest_append(a, b.drop_last(), known);
        assert((a + b).drop_last() =~= a + b.drop_last());
        assert((a + b).last() == b.last());
        if !known.contains(b.last().0) {
            assert(rest(a, known) + rest(b.drop_last(), known).push(b.last()) =~= (rest(a, known)
                + rest(b.drop_last(), known)).push(b.last()));
        }
    }
}

/// No entry that `rest` keeps carries a known key.
pub proof fn lemma_rest_unknown(m: Seq<Entry>, known: Seq<Seq<char>>)
    ensures
        forall|i: int| 0 <= i < rest(m, known).len() ==> !known.contains(#[trigger] rest(m, known)[i].0),
    decreases m.len(),
{
    if m.len() > 0 {
        let r = rest(m.drop_last(), known);
        lemma_rest_unknown(m.drop_last(), known);
        if !known.contains(m.last().0) {
            assert forall|i: int| 0 <= i < r.push(m.last()).len() implies !known.contains(
                #[trigger] r.push(m.last())[i].0,
            ) by {
                if i < r.len() {
                    assert(r.push(m.last())[i] == r[i]);
                }
            }
        }
    }
}

/// Filtering by `known` keeps a sequence unchanged when none of its keys is known.
pub proof fn lemma_rest_of_unknown(m: Seq<Entry>, known: Seq<Seq<char>>)
    requires
        forall|i: int| 0 <= i < m.len() ==> !known.contains(#[trigger] m[i].0),
    ensures
        rest(m, known) == m,
    decreases m.len(),
{
    if m.len() > 0 {
        lemma_rest_of_unknown(m.drop_last(), known);
        assert(m.drop_last().push(m.last()) =~= m);
    }
}

pub proof fn lemma_rest_idempotent(m: Seq<Entry>, known: Seq<Seq<char>>)
    ensures
        rest(rest(m, known), known) == rest(m, known),
{
    lemma_rest_unknown(m, known);
    lemma_rest_of_unknown(rest(m, known), known);
}

/// A known key is never found among the entries that `rest` keeps.
pub proof fn lemma_lookup_rest(m: Seq<Entry>, known: Seq<Seq<char>>, k: Seq<char>)
    requires
        known.contains(k),
    ensures
        lookup(rest(m, known), k) is None,
    decreases m.len(),
{
    if m.len() > 0 {
        lemma_lookup_rest(m.drop_last(), known, k);
        if !known.contains(m.last().0) {
            let r = rest(m.drop_last(), known);
            assert(r.push(m.last()).drop_last() =~= r);
        }
    }
}

/// Every key of `present(slots)` is a slot key.
pub proof fn lemma_present_keys(slots: Seq<(Seq<char>, Option<Tree>)>)
    ensures
        forall|i: int| 0 <= i < present(slots).len() ==> slot_keys(slots).contains(
            #[trigger] present(slots)[i].0,
        ),
    decreases slots.len(),
{
    if slots.len() > 0 {
        let s = slots.drop_last();
        lemma_present_keys(s);
        assert forall|i: int| 0 <= i < present(slots).len() implies slot_keys(slots).contains(
            #[trigger] present(slots)[i].0,
        ) by {
            if i < present(s).len() {
                let j = choose|j: int| 0 <= j < slot_keys(s).len() && slot_keys(s)[j] == present(s)[i].0;
                assert(slot_keys(slots)[j] == present(s)[i].0);
            } else {
                assert(slot_keys(slots)[slots.len() - 1] == slots.last().0);
            }
        }
    }
}

/// With distinct slot keys, looking up a slot's key finds that slot's value.
pub proof fn lemma_lookup_present(slots: Seq<(Seq<char>, Option<Tree>)>, i: int)
    requires
        0 <= i < slots.len(),
        slot_keys(slots).no_duplicates(),
    ensures
        lookup(present(slots), slots[i].0) == slots[i].1,
    decreases slots.len(),
{
    let s = slots.drop_last();
    let k = slots[i].0;
    assert(slot_keys(s) =~= slot_keys(slots).drop_last());
    if i < slots.len() - 1 {
        lemma_lookup_present(s, i);
        assert(s[i] == slots[i]);
        assert(slot_keys(slots)[i] != slot_keys(slots)[slots.len() - 1]);
        if slots.last().1 is Some {
            let e = (slots.last().0, slots.last().1->Some_0);
            assert(present(slots) == present(s).push(e));
            assert(present(s).push(e).drop_last() =~= present(s));
        }
    } else {
        lemma_present_keys(s);
        if lookup(present(s), k) is Some {
            lemma_lookup_some(present(s), k);
            let j = choose|j: int| 0 <= j < present(s).len() && present(s)[j].0 == k;
            assert(slot_keys(s).contains(present(s)[j].0));
            let l = choose|l: int| 0 <= l < slot_keys(s).len() && slot_keys(s)[l] == k;
            assert(slot_keys(slots)[l] == slot_keys(slots)[i]);
        }
        if slots.last().1 is Some {
            assert(present(slots).drop_last() =~= present(s));
        }
    }
}

/// A found key is the key of one of the entries.
pub proof fn lemma_lookup_some(m: Seq<Entry>, k: Seq<char>)
    ensures
        lookup(m, k) is Some ==> exists|j: int| 0 <= j < m.len() && #[trigger] m[j].0 == k,
    decreases m.len(),
{
    if m.len() > 0 {
        lemma_lookup_some(m.drop_last(), k);
        if lookup(m.drop_last(), k) is Some {
            let j = choose|j: int| 0 <= j < m.drop_last().len() && #[trigger] m.drop_last()[j].0 == k;
            assert(m[j].0 == k);
        } else if m.last().0 == k {
            assert(m[m.len() - 1].0 == k);
        }
    }
}

/// A record written as its slots followed by extra entries reads back slot by
/// slot, and its extra entries are those that carry no slot key.
pub proof fn lemma_record_read_back(slots: Seq<(Seq<char>, Option<Tree>)>, extra: Seq<Entry>)
    requires
        slot_keys(slots).no_duplicates(),
    ensures
        forall|i: int|
            0 <= i < slots.len() ==> lookup(
                present(slots) + rest(extra, slot_keys(slots)),
                #[trigger] slots[i].0,
            ) == slots[i].1,
        rest(present(slots) + rest(extra, slot_keys(slots)), slot_keys(slots)) == rest(
            extra,
            slot_keys(slots),
        ),
{
    let ks = slot_keys(slots);
    let m = present(slots) + rest(extra, ks);
    assert forall|i: int| 0 <= i < slots.len() implies lookup(m, #[trigger] slots[i].0)
        == slots[i].1 by {
        lemma_lookup_append(present(slots), rest(extra, ks), slots[i].0);
        lemma_lookup_present(slots, i);
        assert(ks[i] == slots[i].0);
        lemma_lookup_rest(extra, ks, slots[i].0);
    }
    lemma_rest_append(present(slots), rest(extra, ks), ks);
    lemma_present_keys(slots);
    lemma_rest_none_known(present(slots), ks);
    lemma_rest_idempotent(extra, ks);
    assert(Seq::<Entry>::empty() + rest(extra, ks) =~= rest(extra, ks));
}

/// Filtering a sequence whose keys are all known leaves nothing.
pub proof fn lemma_rest_none_known(m: Seq<Entry>, known: Seq<Seq<char>>)
    requires
        forall|i: int| 0 <= i < m.len() ==> known.contains(#[trigger] m[i].0),
    ensures
        rest(m, known) == Seq::<Entry>::empty(),
    decreases m.len(),
{
    if m.len() > 0 {
        assert(known.contains(m[m.len() - 1].0));
        lemma_rest_none_known(m.drop_last(), known);
    }
}

} // verus!
