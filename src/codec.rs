//! Reading and writing the fields of a record held in a document mapping.
//!
//! Each kind of field has a reader (from the mapping's entries to the field's
//! value, `None` when the entry has the wrong shape) and a writer (from the
//! value to the optional entry that represents it; `None` means the entry is
//! left out). Absent and null entries read as the empty value of the field.
use vstd::prelude::*;
use crate::value::{Value, Tree, Entry, lookup, rest, keys_view, present};

verus! {

/// Why a document could not be read as a record: the key whose entry has
/// the wrong shape or is missing.
#[derive(Debug, Clone, PartialEq)]
pub struct DecodeError {
    pub field: String,
}

/// The entries of a mapping, as seen in contracts.
pub open spec fn mapping_view(m: &Vec<(String, Value)>) -> Seq<Entry> {
    Seq::new(m.len() as nat, |i: int| (m[i].0@, m[i].1@))
}

/// The items of a list, as seen in contracts.
pub open spec fn items_view(items: &Vec<Value>) -> Seq<Tree> {
    Seq::new(items.len() as nat, |i: int| items[i]@)
}

pub open spec fn texts_view(v: &Vec<String>) -> Seq<Seq<char>> {
    Seq::new(v.len() as nat, |i: int| v[i]@)
}

pub open spec fn pairs_view(v: &Vec<(String, String)>) -> Seq<(Seq<char>, Seq<char>)> {
    Seq::new(v.len() as nat, |i: int| (v[i].0@, v[i].1@))
}

pub open spec fn groups_view(v: &Vec<(String, Vec<String>)>) -> Seq<(Seq<char>, Seq<Seq<char>>)> {
    Seq::new(v.len() as nat, |i: int| (v[i].0@, texts_view(&v[i].1)))
}

pub proof fn lemma_mapping_view(m: &Vec<(String, Value)>)
    ensures
        Value::Mapping(*m)@ == Tree::Mapping(mapping_view(m)),
{
    reveal_with_fuel(<Value as View>::view, 2);
    let v = Value::Mapping(*m);
    assert forall|i: int| 0 <= i < m.len() implies (#[trigger] v@->Mapping_0[i]) == (
        m[i].0@,
        m[i].1@,
    ) by {
        lemma_entry_view(m, i);
    }
    assert(v@->Mapping_0 =~= mapping_view(m));
}

proof fn lemma_entry_view(m: &Vec<(String, Value)>, i: int)
    requires
        0 <= i < m.len(),
    ensures
        Value::Mapping(*m)@->Mapping_0[i] == (m[i].0@, m[i].1@),
{
    reveal_with_fuel(<Value as View>::view, 2);
}

proof fn lemma_item_view(items: &Vec<Value>, i: int)
    requires
        0 <= i < items.len(),
    ensures
        Value::List(*items)@->List_0[i] == items[i]@,
{
    reveal_with_fuel(<Value as View>::view, 2);
}

pub proof fn lemma_list_view(items: &Vec<Value>)
    ensures
        Value::List(*items)@ == Tree::List(items_view(items)),
{
    reveal_with_fuel(<Value as View>::view, 2);
    let v = Value::List(*items);
    let s = items_view(items);
    assert forall|i: int| 0 <= i < items.len() implies (#[trigger] v@->List_0[i]) == items[i]@ by {
        lemma_item_view(items, i);
    }
    assert(v@->List_0 =~= s);
}

// ----- readers -----

/// An entry that is missing or null.
pub open spec fn is_empty_entry(e: Option<Tree>) -> bool {
    e is None || e == Some(Tree::Null)
}

pub open spec fn text_of(t: Tree) -> Option<Seq<char>> {
    match t {
        Tree::Text(s) => Some(s),
        _ => None,
    }
}

/// A required text entry.
pub open spec fn read_text(m: Seq<Entry>, k: Seq<char>) -> Option<Seq<char>> {
    match lookup(m, k) {
        Some(t) => text_of(t),
        None => None,
    }
}

/// An optional text entry.
pub open spec fn read_opt_text(m: Seq<Entry>, k: Seq<char>) -> Option<Option<Seq<char>>> {
    let e = lookup(m, k);
    if is_empty_entry(e) {
        Some(None)
    } else {
        match e->Some_0 {
            Tree::Text(s) => Some(Some(s)),
            _ => None,
        }
    }
}

/// An optional flag entry.
pub open spec fn read_opt_bool(m: Seq<Entry>, k: Seq<char>) -> Option<Option<bool>> {
    let e = lookup(m, k);
    if is_empty_entry(e) {
        Some(None)
    } else {
        match e->Some_0 {
            Tree::Bool(b) => Some(Some(b)),
            _ => None,
        }
    }
}

/// Reads every item with `f`; `None` as soon as one item does not read.
pub open spec fn read_each<A>(items: Seq<Tree>, f: spec_fn(Tree) -> Option<A>) -> Option<Seq<A>>
    decreases items.len(),
{
    if items.len() == 0 {
        Some(Seq::empty())
    } else {
        match (read_each(items.drop_last(), f), f(items.last())) {
            (Some(xs), Some(x)) => Some(xs.push(x)),
            _ => None,
        }
    }
}

/// Reads a text item.
pub open spec fn text_item() -> spec_fn(Tree) -> Option<Seq<char>> {
    |x: Tree| text_of(x)
}

/// Reads a list-of-texts item.
pub open spec fn texts_item() -> spec_fn(Tree) -> Option<Seq<Seq<char>>> {
    |x: Tree| texts_of(x)
}

/// Writes a text item.
pub open spec fn text_node() -> spec_fn(Seq<char>) -> Tree {
    |s: Seq<char>| Tree::Text(s)
}

/// Writes a list-of-texts item.
pub open spec fn texts_node() -> spec_fn(Seq<Seq<char>>) -> Tree {
    |xs: Seq<Seq<char>>| text_list_tree(xs)
}

/// A sequence of texts.
pub open spec fn texts_of(t: Tree) -> Option<Seq<Seq<char>>> {
    match t {
        Tree::List(items) => read_each(items, text_item()),
        _ => None,
    }
}

/// A list entry, each item read with `f`; missing or null reads as empty.
pub open spec fn read_list<A>(m: Seq<Entry>, k: Seq<char>, f: spec_fn(Tree) -> Option<A>) -> Option<
    Seq<A>,
> {
    let e = lookup(m, k);
    if is_empty_entry(e) {
        Some(Seq::empty())
    } else {
        match e->Some_0 {
            Tree::List(items) => read_each(items, f),
            _ => None,
        }
    }
}

/// A list of texts; missing or null reads as empty.
pub open spec fn read_texts(m: Seq<Entry>, k: Seq<char>) -> Option<Seq<Seq<char>>> {
    read_list(m, k, text_item())
}

/// Reads every entry's value with `f`, keeping keys and order.
pub open spec fn read_values<A>(m: Seq<Entry>, f: spec_fn(Tree) -> Option<A>) -> Option<
    Seq<(Seq<char>, A)>,
>
    decreases m.len(),
{
    if m.len() == 0 {
        Some(Seq::empty())
    } else {
        match (read_values(m.drop_last(), f), f(m.last().1)) {
            (Some(xs), Some(x)) => Some(xs.push((m.last().0, x))),
            _ => None,
        }
    }
}

/// A mapping entry, each value read with `f`; missing or null reads as empty.
pub open spec fn read_map<A>(m: Seq<Entry>, k: Seq<char>, f: spec_fn(Tree) -> Option<A>) -> Option<
    Seq<(Seq<char>, A)>,
> {
    let e = lookup(m, k);
    if is_empty_entry(e) {
        Some(Seq::empty())
    } else {
        match e->Some_0 {
            Tree::Mapping(entries) => read_values(entries, f),
            _ => None,
        }
    }
}

/// A nested record that may be left out; missing or null reads as `None`.
pub open spec fn read_opt_record<A>(m: Seq<Entry>, k: Seq<char>, f: spec_fn(Tree) -> Option<A>) -> Option<
    Option<A>,
> {
    let e = lookup(m, k);
    if is_empty_entry(e) {
        Some(None)
    } else {
        match f(e->Some_0) {
            Some(x) => Some(Some(x)),
            None => None,
        }
    }
}

/// A nested record that must be there.
pub open spec fn read_record<A>(m: Seq<Entry>, k: Seq<char>, f: spec_fn(Tree) -> Option<A>) -> Option<A> {
    match lookup(m, k) {
        Some(t) => f(t),
        None => None,
    }
}

// ----- writers -----

pub open spec fn write_opt_text(o: Option<Seq<char>>) -> Option<Tree> {
    match o {
        Some(s) => Some(Tree::Text(s)),
        None => None,
    }
}

pub open spec fn write_opt_bool(o: Option<bool>) -> Option<Tree> {
    match o {
        Some(b) => Some(Tree::Bool(b)),
        None => None,
    }
}

/// A list entry; an empty list is left out.
pub open spec fn write_list<A>(xs: Seq<A>, f: spec_fn(A) -> Tree) -> Option<Tree> {
    if xs.len() == 0 {
        None
    } else {
        Some(Tree::List(xs.map_values(f)))
    }
}

pub open spec fn write_texts(xs: Seq<Seq<char>>) -> Option<Tree> {
    write_list(xs, text_node())
}

/// A mapping entry; an empty mapping is left out.
pub open spec fn write_map<A>(xs: Seq<(Seq<char>, A)>, f: spec_fn(A) -> Tree) -> Option<Tree> {
    if xs.len() == 0 {
        None
    } else {
        Some(Tree::Mapping(xs.map_values(|e: (Seq<char>, A)| (e.0, f(e.1)))))
    }
}

pub open spec fn write_opt_record<A>(o: Option<A>, f: spec_fn(A) -> Tree) -> Option<Tree> {
    match o {
        Some(x) => Some(f(x)),
        None => None,
    }
}

// ----- each reader undoes its writer -----

pub proof fn lemma_read_each_inverse<A>(xs: Seq<A>, f: spec_fn(A) -> Tree, g: spec_fn(Tree) -> Option<A>)
    requires
        forall|i: int| 0 <= i < xs.len() ==> g(#[trigger] f(xs[i])) == Some(xs[i]),
    ensures
        read_each(xs.map_values(f), g) == Some(xs),
    decreases xs.len(),
{
    if xs.len() > 0 {
        let ys = xs.drop_last();
        assert forall|i: int| 0 <= i < ys.len() implies g(#[trigger] f(ys[i])) == Some(ys[i]) by {
            assert(ys[i] == xs[i]);
        }
        lemma_read_each_inverse(ys, f, g);
        assert(xs.map_values(f).drop_last() =~= ys.map_values(f));
        assert(g(f(xs[xs.len() - 1])) == Some(xs[xs.len() - 1]));
        assert(ys.push(xs.last()) =~= xs);
    }
}

pub proof fn lemma_read_values_inverse<A>(
    xs: Seq<(Seq<char>, A)>,
    f: spec_fn(A) -> Tree,
    g: spec_fn(Tree) -> Option<A>,
)
    requires
        forall|i: int| 0 <= i < xs.len() ==> g(#[trigger] f(xs[i].1)) == Some(xs[i].1),
    ensures
        read_values(xs.map_values(|e: (Seq<char>, A)| (e.0, f(e.1))), g) == Some(xs),
    decreases xs.len(),
{
    if xs.len() > 0 {
        let ys = xs.drop_last();
        assert forall|i: int| 0 <= i < ys.len() implies g(#[trigger] f(ys[i].1)) == Some(ys[i].1) by {
            assert(ys[i] == xs[i]);
        }
        lemma_read_values_inverse(ys, f, g);
        assert(xs.map_values(|e: (Seq<char>, A)| (e.0, f(e.1))).drop_last() =~= ys.map_values(
            |e: (Seq<char>, A)| (e.0, f(e.1)),
        ));
        assert(g(f(xs[xs.len() - 1].1)) == Some(xs[xs.len() - 1].1));
        assert(ys.push(xs.last()) =~= xs);
    }
}

/// Reading a list entry written by `write_list` gives the list back.
pub proof fn lemma_list_inverse<A>(
    m: Seq<Entry>,
    k: Seq<char>,
    xs: Seq<A>,
    f: spec_fn(A) -> Tree,
    g: spec_fn(Tree) -> Option<A>,
)
    requires
        lookup(m, k) == write_list(xs, f),
        forall|i: int| 0 <= i < xs.len() ==> g(#[trigger] f(xs[i])) == Some(xs[i]),
    ensures
        read_list(m, k, g) == Some(xs),
{
    if xs.len() == 0 {
        assert(xs =~= Seq::<A>::empty());
    } else {
        lemma_read_each_inverse(xs, f, g);
    }
}

/// Reading a mapping entry written by `write_map` gives the mapping back.
pub proof fn lemma_map_inverse<A>(
    m: Seq<Entry>,
    k: Seq<char>,
    xs: Seq<(Seq<char>, A)>,
    f: spec_fn(A) -> Tree,
    g: spec_fn(Tree) -> Option<A>,
)
    requires
        lookup(m, k) == write_map(xs, f),
        forall|i: int| 0 <= i < xs.len() ==> g(#[trigger] f(xs[i].1)) == Some(xs[i].1),
    ensures
        read_map(m, k, g) == Some(xs),
{
    if xs.len() == 0 {
        assert(xs =~= Seq::<(Seq<char>, A)>::empty());
    } else {
        lemma_read_values_inverse(xs, f, g);
    }
}

pub proof fn lemma_texts_read_back(m: Seq<Entry>, k: Seq<char>, xs: Seq<Seq<char>>)
    requires
        lookup(m, k) == write_texts(xs),
    ensures
        read_texts(m, k) == Some(xs),
{
    lemma_list_inverse(m, k, xs, text_node(), text_item());
}

pub proof fn lemma_text_map_read_back(m: Seq<Entry>, k: Seq<char>, xs: Seq<(Seq<char>, Seq<char>)>)
    requires
        lookup(m, k) == write_map(xs, text_node()),
    ensures
        read_map(m, k, text_item()) == Some(xs),
{
    lemma_map_inverse(m, k, xs, text_node(), text_item());
}

pub proof fn lemma_text_groups_read_back(
    m: Seq<Entry>,
    k: Seq<char>,
    xs: Seq<(Seq<char>, Seq<Seq<char>>)>,
)
    requires
        lookup(m, k) == write_map(xs, texts_node()),
    ensures
        read_map(m, k, texts_item()) == Some(xs),
{
    assert forall|i: int| 0 <= i < xs.len() implies texts_item()(#[trigger] texts_node()(xs[i].1))
        == Some(xs[i].1) by {
        lemma_read_each_inverse(xs[i].1, text_node(), text_item());
    }
    lemma_map_inverse(m, k, xs, texts_node(), texts_item());
}

// ----- executable readers -----

/// A copy of a document node.
pub fn copy_value(v: &Value) -> (r: Value)
    ensures
        r@ == v@,
    decreases v,
{
    match v {
        Value::Null => Value::Null,
        Value::Bool(b) => Value::Bool(*b),
        Value::Int(i) => Value::Int(*i),
        Value::Number(n) => Value::Number(n.clone()),
        Value::Text(s) => Value::Text(s.clone()),
        Value::List(items) => {
            let out = copy_items(items);
            proof {
                lemma_list_view(items);
                lemma_list_view(&out);
            }
            Value::List(out)
        },
        Value::Mapping(entries) => {
            let out = copy_entries(entries);
            proof {
                lemma_mapping_view(entries);
                lemma_mapping_view(&out);
            }
            Value::Mapping(out)
        },
    }
}

/// A copy of the items of a list.
pub fn copy_items(items: &Vec<Value>) -> (r: Vec<Value>)
    ensures
        items_view(&r) == items_view(items),
    decreases items,
{
    let mut out: Vec<Value> = Vec::new();
    let mut i: usize = 0;
    while i < items.len()
        invariant
            i <= items.len(),
            out.len() == i,
            forall|j: int| 0 <= j < i ==> #[trigger] out[j]@ == items[j]@,
        decreases items.len() - i,
    {
        let c = copy_value(&items[i]);
        out.push(c);
        i = i + 1;
    }
    assert(items_view(&out) =~= Seq::new(
        items.len() as nat,
        |j: int| items[j]@,
    ));
    out
}

/// A copy of the entries of a mapping.
pub fn copy_entries(m: &Vec<(String, Value)>) -> (r: Vec<(String, Value)>)
    ensures
        mapping_view(&r) == mapping_view(m),
    decreases m,
{
    let mut out: Vec<(String, Value)> = Vec::new();
    let mut i: usize = 0;
    while i < m.len()
        invariant
            i <= m.len(),
            out.len() == i,
            forall|j: int| 0 <= j < i ==> (#[trigger] out[j]).0@ == m[j].0@ && out[j].1@ == m[j].1@,
        decreases m.len() - i,
    {
        let v = copy_value(&m[i].1);
        out.push((m[i].0.clone(), v));
        i = i + 1;
    }
    assert(mapping_view(&out) =~= mapping_view(m));
    out
}

/// Whether `k` is one of `known`.
pub fn is_known(k: &String, known: &[&str]) -> (r: bool)
    ensures
        r == keys_view(known).contains(k@),
{
    let mut i: usize = 0;
    while i < known.len()
        invariant
            i <= known.len(),
            forall|j: int| 0 <= j < i ==> keys_view(known)[j] != k@,
        decreases known.len() - i,
    {
        let lit = known[i].to_owned();
        if *k == lit {
            assert(keys_view(known)[i as int] == k@);
            return true;
        }
        i = i + 1;
    }
    false
}

/// The first entry of `m` under `key`.
pub fn find<'a>(m: &'a Vec<(String, Value)>, key: &str) -> (r: Option<&'a Value>)
    ensures
        match r {
            Some(v) => lookup(mapping_view(m), key@) == Some(v@),
            None => lookup(mapping_view(m), key@) is None,
        },
{
    let k = key.to_owned();
    let mut i: usize = 0;
    while i < m.len()
        invariant
            i <= m.len(),
            k@ == key@,
            lookup(mapping_view(m).take(i as int), key@) is None,
        decreases m.len() - i,
    {
        proof {
            assert(mapping_view(m).take(i as int + 1).drop_last() =~= mapping_view(m).take(i as int));
        }
        if m[i].0 == k {
            proof {
                lemma_lookup_prefix(mapping_view(m), i as int + 1, key@);
            }
            return Some(&m[i].1);
        }
        i = i + 1;
    }
    assert(mapping_view(m).take(i as int) =~= mapping_view(m));
    None
}

/// Once a key is found in a prefix, it is found at the same entry in the whole.
pub proof fn lemma_lookup_prefix(m: Seq<Entry>, n: int, k: Seq<char>)
    requires
        0 <= n <= m.len(),
        lookup(m.take(n), k) is Some,
    ensures
        lookup(m, k) == lookup(m.take(n), k),
    decreases m.len() - n,
{
    if n < m.len() {
        assert(m.take(n + 1).drop_last() =~= m.take(n));
        lemma_lookup_prefix(m, n + 1, k);
    } else {
        assert(m.take(n) =~= m);
    }
}

/// The entries of `m` whose key is not one of `known`, copied, in order.
pub fn rest_of(m: &Vec<(String, Value)>, known: &[&str]) -> (r: Vec<(String, Value)>)
    ensures
        mapping_view(&r) == rest(mapping_view(m), keys_view(known)),
{
    let ghost ks = keys_view(known);
    let mut out: Vec<(String, Value)> = Vec::new();
    let mut i: usize = 0;
    while i < m.len()
        invariant
            i <= m.len(),
            ks == keys_view(known),
            mapping_view(&out) == rest(mapping_view(m).take(i as int), ks),
        decreases m.len() - i,
    {
        let ghost before = mapping_view(&out);
        proof {
            assert(mapping_view(m).take(i as int + 1).drop_last() =~= mapping_view(m).take(i as int));
        }
        if !is_known(&m[i].0, known) {
            let v = copy_value(&m[i].1);
            out.push((m[i].0.clone(), v));
            assert(mapping_view(&out) =~= before.push((m[i as int].0@, m[i as int].1@)));
        }
        i = i + 1;
    }
    assert(mapping_view(m).take(i as int) =~= mapping_view(m));
    out
}

/// The error for the entry under `key`.
pub fn field_error(key: &str) -> (r: DecodeError) {
    DecodeError { field: key.to_owned() }
}

/// Reads a required text entry.
pub fn get_text(m: &Vec<(String, Value)>, key: &str) -> (r: Result<String, DecodeError>)
    ensures
        match r {
            Ok(s) => read_text(mapping_view(m), key@) == Some(s@),
            Err(_) => read_text(mapping_view(m), key@) is None,
        },
{
    match find(m, key) {
        Some(Value::Text(s)) => Ok(s.clone()),
        _ => Err(field_error(key)),
    }
}

/// Reads an optional text entry.
pub fn get_opt_text(m: &Vec<(String, Value)>, key: &str) -> (r: Result<Option<String>, DecodeError>)
    ensures
        match r {
            Ok(o) => read_opt_text(mapping_view(m), key@) == Some(
                match o {
                    Some(s) => Some(s@),
                    None => None,
                },
            ),
            Err(_) => read_opt_text(mapping_view(m), key@) is None,
        },
{
    match find(m, key) {
        None => Ok(None),
        Some(Value::Null) => Ok(None),
        Some(Value::Text(s)) => Ok(Some(s.clone())),
        _ => Err(field_error(key)),
    }
}

/// Reads an optional flag entry.
pub fn get_opt_bool(m: &Vec<(String, Value)>, key: &str) -> (r: Result<Option<bool>, DecodeError>)
    ensures
        match r {
            Ok(o) => read_opt_bool(mapping_view(m), key@) == Some(o),
            Err(_) => read_opt_bool(mapping_view(m), key@) is None,
        },
{
    match find(m, key) {
        None => Ok(None),
        Some(Value::Null) => Ok(None),
        Some(Value::Bool(b)) => Ok(Some(*b)),
        _ => Err(field_error(key)),
    }
}

/// Reads a list of texts.
pub fn texts_from(items: &Vec<Value>, key: &str) -> (r: Result<Vec<String>, DecodeError>)
    ensures
        match r {
            Ok(v) => read_each(Value::List(*items)@->List_0, text_item()) == Some(
                texts_view(&v),
            ),
            Err(_) => read_each(Value::List(*items)@->List_0, text_item()) is None,
        },
{
    let ghost ts = items_view(items);
    proof {
        lemma_list_view(items);
    }
    let mut out: Vec<String> = Vec::new();
    let mut i: usize = 0;
    while i < items.len()
        invariant
            i <= items.len(),
            ts == items_view(items),
            Value::List(*items)@ == Tree::List(ts),
            read_each(ts.take(i as int), text_item()) == Some(texts_view(&out)),
        decreases items.len() - i,
    {
        proof {
            assert(ts.take(i as int + 1).drop_last() =~= ts.take(i as int));
        }
        match &items[i] {
            Value::Text(s) => {
                let ghost before = texts_view(&out);
                out.push(s.clone());
                assert(texts_view(&out) =~= before.push(s@));
            },
            _ => {
                proof {
                    assert(ts.take(i as int + 1).last() == items[i as int]@);
                    lemma_read_each_none(ts, i as int + 1, text_item());
                }
                return Err(field_error(key));
            },
        }
        i = i + 1;
    }
    assert(ts.take(i as int) =~= ts);
    Ok(out)
}

/// Once a prefix fails to read, the whole fails to read.
pub proof fn lemma_read_each_none<A>(items: Seq<Tree>, n: int, f: spec_fn(Tree) -> Option<A>)
    requires
        0 <= n <= items.len(),
        read_each(items.take(n), f) is None,
    ensures
        read_each(items, f) is None,
    decreases items.len() - n,
{
    if n < items.len() {
        assert(items.take(n + 1).drop_last() =~= items.take(n));
        lemma_read_each_none(items, n + 1, f);
    } else {
        assert(items.take(n) =~= items);
    }
}

/// Once a prefix fails to read, the whole fails to read.
pub proof fn lemma_read_values_none<A>(m: Seq<Entry>, n: int, f: spec_fn(Tree) -> Option<A>)
    requires
        0 <= n <= m.len(),
        read_values(m.take(n), f) is None,
    ensures
        read_values(m, f) is None,
    decreases m.len() - n,
{
    if n < m.len() {
        assert(m.take(n + 1).drop_last() =~= m.take(n));
        lemma_read_values_none(m, n + 1, f);
    } else {
        assert(m.take(n) =~= m);
    }
}

/// Reads a list-of-texts entry; missing or null reads as empty.
pub fn get_texts(m: &Vec<(String, Value)>, key: &str) -> (r: Result<Vec<String>, DecodeError>)
    ensures
        match r {
            Ok(v) => read_texts(mapping_view(m), key@) == Some(texts_view(&v)),
            Err(_) => read_texts(mapping_view(m), key@) is None,
        },
{
    match find(m, key) {
        None => {
            let v: Vec<String> = Vec::new();
            assert(texts_view(&v) =~= Seq::empty());
            Ok(v)
        },
        Some(Value::Null) => {
            let v: Vec<String> = Vec::new();
            assert(texts_view(&v) =~= Seq::empty());
            Ok(v)
        },
        Some(Value::List(items)) => {
            proof {
                lemma_list_view(items);
            }
            texts_from(items, key)
        },
        _ => Err(field_error(key)),
    }
}

/// Reads a mapping-of-texts entry; missing or null reads as empty.
pub fn get_text_map(m: &Vec<(String, Value)>, key: &str) -> (r: Result<Vec<(String, String)>, DecodeError>)
    ensures
        match r {
            Ok(v) => read_map(mapping_view(m), key@, text_item()) == Some(pairs_view(&v)),
            Err(_) => read_map(mapping_view(m), key@, text_item()) is None,
        },
{
    match find(m, key) {
        None => {
            let v: Vec<(String, String)> = Vec::new();
            assert(pairs_view(&v) =~= Seq::empty());
            Ok(v)
        },
        Some(Value::Null) => {
            let v: Vec<(String, String)> = Vec::new();
            assert(pairs_view(&v) =~= Seq::empty());
            Ok(v)
        },
        Some(Value::Mapping(entries)) => {
            proof {
                lemma_mapping_view(entries);
            }
            let ghost es = mapping_view(entries);
            let mut out: Vec<(String, String)> = Vec::new();
            let mut i: usize = 0;
            while i < entries.len()
                invariant
                    i <= entries.len(),
                    es == mapping_view(entries),
                    lookup(mapping_view(m), key@) == Some(Tree::Mapping(es)),
                    read_values(es.take(i as int), text_item()) == Some(pairs_view(&out)),
                decreases entries.len() - i,
            {
                proof {
                    assert(es.take(i as int + 1).drop_last() =~= es.take(i as int));
                }
                match &entries[i].1 {
                    Value::Text(s) => {
                        let ghost before = pairs_view(&out);
                        out.push((entries[i].0.clone(), s.clone()));
                        assert(pairs_view(&out) =~= before.push((entries[i as int].0@, s@)));
                    },
                    _ => {
                        proof {
                            assert(es.take(i as int + 1).last() == (entries[i as int].0@, entries[i as int].1@));
                            lemma_read_values_none(es, i as int + 1, text_item());
                        }
                        return Err(field_error(key));
                    },
                }
                i = i + 1;
            }
            assert(es.take(i as int) =~= es);
            Ok(out)
        },
        _ => Err(field_error(key)),
    }
}

/// Reads a mapping entry whose values are lists of texts; missing or null
/// reads as empty.
pub fn get_text_groups(m: &Vec<(String, Value)>, key: &str) -> (r: Result<
    Vec<(String, Vec<String>)>,
    DecodeError,
>)
    ensures
        match r {
            Ok(v) => read_map(mapping_view(m), key@, texts_item()) == Some(groups_view(&v)),
            Err(_) => read_map(mapping_view(m), key@, texts_item()) is None,
        },
{
    match find(m, key) {
        None => {
            let v: Vec<(String, Vec<String>)> = Vec::new();
            assert(groups_view(&v) =~= Seq::empty());
            Ok(v)
        },
        Some(Value::Null) => {
            let v: Vec<(String, Vec<String>)> = Vec::new();
            assert(groups_view(&v) =~= Seq::empty());
            Ok(v)
        },
        Some(Value::Mapping(entries)) => {
            proof {
                lemma_mapping_view(entries);
            }
            let ghost es = mapping_view(entries);
            let mut out: Vec<(String, Vec<String>)> = Vec::new();
            let mut i: usize = 0;
            while i < entries.len()
                invariant
                    i <= entries.len(),
                    es == mapping_view(entries),
                    lookup(mapping_view(m), key@) == Some(Tree::Mapping(es)),
                    read_values(es.take(i as int), texts_item()) == Some(groups_view(&out)),
                decreases entries.len() - i,
            {
                proof {
                    assert(es.take(i as int + 1).drop_last() =~= es.take(i as int));
                }
                match &entries[i].1 {
                    Value::List(items) => {
                        proof {
                            lemma_list_view(items);
                        }
                        match texts_from(items, key) {
                            Ok(texts) => {
                                let ghost before = groups_view(&out);
                                let ghost tv = texts_view(&texts);
                                out.push((entries[i].0.clone(), texts));
                                assert(groups_view(&out) =~= before.push((entries[i as int].0@, tv)));
                            },
                            Err(e) => {
                                proof {
                                    assert(es.take(i as int + 1).last() == (entries[i as int].0@, entries[i as int].1@));
                                    lemma_read_values_none(es, i as int + 1, texts_item());
                                }
                                return Err(e);
                            },
                        }
                    },
                    _ => {
                        proof {
                            assert(es.take(i as int + 1).last() == (entries[i as int].0@, entries[i as int].1@));
                            lemma_read_values_none(es, i as int + 1, texts_item());
                        }
                        return Err(field_error(key));
                    },
                }
                i = i + 1;
            }
            assert(es.take(i as int) =~= es);
            Ok(out)
        },
        _ => Err(field_error(key)),
    }
}

// ----- executable writers -----

/// Appends an entry.
pub fn put(m: &mut Vec<(String, Value)>, key: &str, v: Value)
    ensures
        mapping_view(final(m)) == mapping_view(old(m)).push((key@, v@)),
{
    m.push((key.to_owned(), v));
    assert(mapping_view(m) =~= mapping_view(old(m)).push((key@, v@)));
}

/// Appends an entry when `v` holds one.
pub fn put_opt(m: &mut Vec<(String, Value)>, key: &str, v: Option<Value>)
    ensures
        mapping_view(final(m)) == match v {
            Some(x) => mapping_view(old(m)).push((key@, x@)),
            None => mapping_view(old(m)),
        },
{
    if let Some(x) = v {
        put(m, key, x);
    }
}

pub open spec fn opt_text_view(o: Option<String>) -> Option<Seq<char>> {
    match o {
        Some(s) => Some(s@),
        None => None,
    }
}

pub open spec fn opt_value_view(o: Option<Value>) -> Option<Tree> {
    match o {
        Some(v) => Some(v@),
        None => None,
    }
}

/// The entry for an optional text.
pub fn opt_text_value(o: &Option<String>) -> (r: Option<Value>)
    ensures
        opt_value_view(r) == write_opt_text(
            match o {
                Some(s) => Some(s@),
                None => None,
            },
        ),
{
    match o {
        Some(s) => Some(Value::Text(s.clone())),
        None => None,
    }
}

/// The entry for an optional flag.
pub fn opt_bool_value(o: Option<bool>) -> (r: Option<Value>)
    ensures
        opt_value_view(r) == write_opt_bool(o),
{
    match o {
        Some(b) => Some(Value::Bool(b)),
        None => None,
    }
}

/// The entry for a list of texts; an empty list gives none.
pub fn texts_value(v: &Vec<String>) -> (r: Option<Value>)
    ensures
        opt_value_view(r) == write_texts(texts_view(v)),
{
    if v.len() == 0 {
        return None;
    }
    let mut out: Vec<Value> = Vec::new();
    let mut i: usize = 0;
    while i < v.len()
        invariant
            i <= v.len(),
            out.len() == i,
            forall|j: int| 0 <= j < i ==> #[trigger] out[j]@ == Tree::Text(v[j]@),
        decreases v.len() - i,
    {
        out.push(Value::Text(v[i].clone()));
        i = i + 1;
    }
    proof {
        lemma_list_view(&out);
        assert(items_view(&out) =~= texts_view(v).map_values(
            text_node(),
        ));
    }
    Some(Value::List(out))
}

/// The entry for a mapping of texts; an empty mapping gives none.
pub fn text_map_value(v: &Vec<(String, String)>) -> (r: Option<Value>)
    ensures
        opt_value_view(r) == write_map(pairs_view(v), text_node()),
{
    if v.len() == 0 {
        return None;
    }
    let mut out: Vec<(String, Value)> = Vec::new();
    let mut i: usize = 0;
    while i < v.len()
        invariant
            i <= v.len(),
            out.len() == i,
            forall|j: int|
                0 <= j < i ==> (#[trigger] out[j]).0@ == v[j].0@ && out[j].1@ == Tree::Text(v[j].1@),
        decreases v.len() - i,
    {
        out.push((v[i].0.clone(), Value::Text(v[i].1.clone())));
        i = i + 1;
    }
    proof {
        lemma_mapping_view(&out);
        assert(mapping_view(&out) =~= pairs_view(v).map_values(
            |e: (Seq<char>, Seq<char>)| (e.0, text_node()(e.1)),
        ));
    }
    Some(Value::Mapping(out))
}

/// The entry for a mapping of text lists; an empty mapping gives none.
pub fn text_groups_value(v: &Vec<(String, Vec<String>)>) -> (r: Option<Value>)
    ensures
        opt_value_view(r) == write_map(groups_view(v), texts_node()),
{
    if v.len() == 0 {
        return None;
    }
    let mut out: Vec<(String, Value)> = Vec::new();
    let mut i: usize = 0;
    while i < v.len()
        invariant
            i <= v.len(),
            out.len() == i,
            forall|j: int|
                0 <= j < i ==> (#[trigger] out[j]).0@ == v[j].0@ && out[j].1@ == text_list_tree(
                    texts_view(&v[j].1),
                ),
        decreases v.len() - i,
    {
        let items = text_list(&v[i].1);
        out.push((v[i].0.clone(), items));
        i = i + 1;
    }
    proof {
        lemma_mapping_view(&out);
        assert(mapping_view(&out) =~= groups_view(v).map_values(
            |e: (Seq<char>, Seq<Seq<char>>)| (e.0, texts_node()(e.1)),
        ));
    }
    Some(Value::Mapping(out))
}

/// A list of texts as a tree, empty or not.
pub open spec fn text_list_tree(xs: Seq<Seq<char>>) -> Tree {
    Tree::List(xs.map_values(text_node()))
}

/// A list of texts as a document node.
pub fn text_list(v: &Vec<String>) -> (r: Value)
    ensures
        r@ == text_list_tree(texts_view(v)),
{
    let mut out: Vec<Value> = Vec::new();
    let mut i: usize = 0;
    while i < v.len()
        invariant
            i <= v.len(),
            out.len() == i,
            forall|j: int| 0 <= j < i ==> #[trigger] out[j]@ == Tree::Text(v[j]@),
        decreases v.len() - i,
    {
        out.push(Value::Text(v[i].clone()));
        i = i + 1;
    }
    proof {
        lemma_list_view(&out);
        assert(items_view(&out) =~= texts_view(v).map_values(
            text_node(),
        ));
    }
    Value::List(out)
}

// ----- records -----

/// A type stored in a document as one node, with a reader and a writer that
/// undo each other on well-formed values.
pub trait Record: Sized + View {
    /// Reads a node; `None` when the node does not have the record's shape.
    spec fn read(t: Tree) -> Option<Self::V>;

    /// Writes a value as a node.
    spec fn write(x: Self::V) -> Tree;

    /// Values that reading can produce.
    spec fn wf(x: Self::V) -> bool;

    proof fn lemma_read_back(x: Self::V)
        requires
            Self::wf(x),
        ensures
            Self::read(Self::write(x)) == Some(x),
    ;

    proof fn lemma_read_wf(t: Tree)
        ensures
            Self::read(t) is Some ==> Self::wf(Self::read(t)->Some_0),
    ;

    fn from_value(v: &Value) -> (r: Result<Self, DecodeError>)
        ensures
            match r {
                Ok(x) => Self::read(v@) == Some(x@),
                Err(_) => Self::read(v@) is None,
            },
    ;

    fn to_value(&self) -> (r: Value)
        ensures
            r@ == Self::write(self@),
    ;
}

pub open spec fn reader<T: Record>() -> spec_fn(Tree) -> Option<T::V> {
    |t: Tree| T::read(t)
}

pub open spec fn writer<T: Record>() -> spec_fn(T::V) -> Tree {
    |x: T::V| T::write(x)
}

pub open spec fn records_view<T: Record>(v: &Vec<T>) -> Seq<T::V> {
    Seq::new(v.len() as nat, |i: int| v[i]@)
}

pub open spec fn all_wf<T: Record>(xs: Seq<T::V>) -> bool {
    forall|i: int| 0 <= i < xs.len() ==> T::wf(#[trigger] xs[i])
}

/// Reading a list entry written from well-formed records gives them back.
pub proof fn lemma_records_read_back<T: Record>(m: Seq<Entry>, k: Seq<char>, xs: Seq<T::V>)
    requires
        lookup(m, k) == write_list(xs, writer::<T>()),
        all_wf::<T>(xs),
    ensures
        read_list(m, k, reader::<T>()) == Some(xs),
{
    assert forall|i: int| 0 <= i < xs.len() implies reader::<T>()(#[trigger] writer::<T>()(xs[i]))
        == Some(xs[i]) by {
        T::lemma_read_back(xs[i]);
    }
    lemma_list_inverse(m, k, xs, writer::<T>(), reader::<T>());
}

/// What reading a list of records produces is well-formed.
pub proof fn lemma_records_wf<T: Record>(items: Seq<Tree>)
    ensures
        read_each(items, reader::<T>()) is Some ==> all_wf::<T>(
            read_each(items, reader::<T>())->Some_0,
        ),
    decreases items.len(),
{
    if items.len() > 0 {
        lemma_records_wf::<T>(items.drop_last());
        T::lemma_read_wf(items.last());
        if read_each(items, reader::<T>()) is Some {
            let xs = read_each(items.drop_last(), reader::<T>())->Some_0;
            let x = T::read(items.last())->Some_0;
            assert forall|i: int| 0 <= i < xs.push(x).len() implies T::wf(#[trigger] xs.push(x)[i]) by {
                if i < xs.len() {
                    assert(xs.push(x)[i] == xs[i]);
                }
            }
        }
    }
}

pub proof fn lemma_records_list_wf<T: Record>(m: Seq<Entry>, k: Seq<char>)
    ensures
        read_list(m, k, reader::<T>()) is Some ==> all_wf::<T>(
            read_list(m, k, reader::<T>())->Some_0,
        ),
{
    let e = lookup(m, k);
    if !is_empty_entry(e) {
        if let Tree::List(items) = e->Some_0 {
            lemma_records_wf::<T>(items);
        }
    }
}

/// Reading an optional record entry written from a well-formed record that
/// is not written as null gives it back.
pub proof fn lemma_opt_record_read_back<T: Record>(m: Seq<Entry>, k: Seq<char>, o: Option<T::V>)
    requires
        lookup(m, k) == write_opt_record(o, writer::<T>()),
        o is Some ==> T::wf(o->Some_0) && T::write(o->Some_0) != Tree::Null,
    ensures
        read_opt_record(m, k, reader::<T>()) == Some(o),
{
    if let Some(x) = o {
        T::lemma_read_back(x);
    }
}

/// Reading a record entry written from a well-formed record gives it back.
pub proof fn lemma_record_entry_read_back<T: Record>(m: Seq<Entry>, k: Seq<char>, x: T::V)
    requires
        lookup(m, k) == Some(T::write(x)),
        T::wf(x),
    ensures
        read_record(m, k, reader::<T>()) == Some(x),
{
    T::lemma_read_back(x);
}

pub proof fn lemma_opt_record_wf<T: Record>(m: Seq<Entry>, k: Seq<char>)
    ensures
        read_opt_record(m, k, reader::<T>()) matches Some(Some(x)) ==> T::wf(x),
{
    let e = lookup(m, k);
    if !is_empty_entry(e) {
        T::lemma_read_wf(e->Some_0);
    }
}

pub proof fn lemma_record_entry_wf<T: Record>(m: Seq<Entry>, k: Seq<char>)
    ensures
        read_record(m, k, reader::<T>()) matches Some(x) ==> T::wf(x),
{
    if let Some(t) = lookup(m, k) {
        T::lemma_read_wf(t);
    }
}

/// A required flag entry.
pub open spec fn read_bool(m: Seq<Entry>, k: Seq<char>) -> Option<bool> {
    match lookup(m, k) {
        Some(Tree::Bool(b)) => Some(b),
        _ => None,
    }
}

/// A required integer entry that fits 32 bits.
pub open spec fn read_i32(m: Seq<Entry>, k: Seq<char>) -> Option<i32> {
    match lookup(m, k) {
        Some(Tree::Int(i)) => if i32::MIN <= i <= i32::MAX {
            Some(i as i32)
        } else {
            None
        },
        _ => None,
    }
}

/// Reads a required flag entry.
pub fn get_bool(m: &Vec<(String, Value)>, key: &str) -> (r: Result<bool, DecodeError>)
    ensures
        match r {
            Ok(b) => read_bool(mapping_view(m), key@) == Some(b),
            Err(_) => read_bool(mapping_view(m), key@) is None,
        },
{
    match find(m, key) {
        Some(Value::Bool(b)) => Ok(*b),
        _ => Err(field_error(key)),
    }
}

/// Reads a required integer entry that fits 32 bits.
pub fn get_i32(m: &Vec<(String, Value)>, key: &str) -> (r: Result<i32, DecodeError>)
    ensures
        match r {
            Ok(i) => read_i32(mapping_view(m), key@) == Some(i),
            Err(_) => read_i32(mapping_view(m), key@) is None,
        },
{
    match find(m, key) {
        Some(Value::Int(i)) => {
            if i32::MIN as i64 <= *i && *i <= i32::MAX as i64 {
                Ok(*i as i32)
            } else {
                Err(field_error(key))
            }
        },
        _ => Err(field_error(key)),
    }
}

/// A type whose values are written as names.
pub trait Named: Sized {
    /// The value a name stands for; `None` for a name of no value.
    spec fn spec_from_name(s: Seq<char>) -> Option<Self>;

    /// The name a value is written as.
    spec fn spec_name(x: Self) -> Seq<char>;

    proof fn lemma_name_read_back(x: Self)
        ensures
            Self::spec_from_name(Self::spec_name(x)) == Some(x),
    ;

    fn from_name(s: &String) -> (r: Option<Self>)
        ensures
            r == Self::spec_from_name(s@),
    ;

    fn name(&self) -> (r: &'static str)
        ensures
            r@ == Self::spec_name(*self),
    ;
}

/// A required entry holding a name.
pub open spec fn read_named<T: Named>(m: Seq<Entry>, k: Seq<char>) -> Option<T> {
    match lookup(m, k) {
        Some(Tree::Text(s)) => T::spec_from_name(s),
        _ => None,
    }
}

pub proof fn lemma_named_read_back<T: Named>(m: Seq<Entry>, k: Seq<char>, x: T)
    requires
        lookup(m, k) == Some(Tree::Text(T::spec_name(x))),
    ensures
        read_named::<T>(m, k) == Some(x),
{
    T::lemma_name_read_back(x);
}

/// Reads a required entry holding a name.
pub fn get_named<T: Named>(m: &Vec<(String, Value)>, key: &str) -> (r: Result<T, DecodeError>)
    ensures
        match r {
            Ok(x) => read_named::<T>(mapping_view(m), key@) == Some(x),
            Err(_) => read_named::<T>(mapping_view(m), key@) is None,
        },
{
    match find(m, key) {
        Some(Value::Text(s)) => match T::from_name(s) {
            Some(x) => Ok(x),
            None => Err(field_error(key)),
        },
        _ => Err(field_error(key)),
    }
}

/// The entry for a name.
pub fn name_value<T: Named>(x: &T) -> (r: Option<Value>)
    ensures
        opt_value_view(r) == Some(Tree::Text(T::spec_name(*x))),
{
    Some(Value::Text(x.name().to_owned()))
}

/// Reads a list of records; missing or null reads as empty.
pub fn get_records<T: Record>(m: &Vec<(String, Value)>, key: &str) -> (r: Result<Vec<T>, DecodeError>)
    ensures
        match r {
            Ok(v) => read_list(mapping_view(m), key@, reader::<T>()) == Some(records_view(&v)),
            Err(_) => read_list(mapping_view(m), key@, reader::<T>()) is None,
        },
{
    match find(m, key) {
        None => {
            let v: Vec<T> = Vec::new();
            assert(records_view(&v) =~= Seq::empty());
            Ok(v)
        },
        Some(Value::Null) => {
            let v: Vec<T> = Vec::new();
            assert(records_view(&v) =~= Seq::empty());
            Ok(v)
        },
        Some(Value::List(items)) => {
            proof {
                lemma_list_view(items);
            }
            let ghost ts = items_view(items);
            let mut out: Vec<T> = Vec::new();
            let mut i: usize = 0;
            while i < items.len()
                invariant
                    i <= items.len(),
                    ts == items_view(items),
                    lookup(mapping_view(m), key@) == Some(Tree::List(ts)),
                    read_each(ts.take(i as int), reader::<T>()) == Some(records_view(&out)),
                decreases items.len() - i,
            {
                proof {
                    assert(ts.take(i as int + 1).drop_last() =~= ts.take(i as int));
                    assert(ts.take(i as int + 1).last() == items[i as int]@);
                }
                match T::from_value(&items[i]) {
                    Ok(x) => {
                        let ghost before = records_view(&out);
                        let ghost xv = x@;
                        out.push(x);
                        assert(records_view(&out) =~= before.push(xv));
                    },
                    Err(e) => {
                        proof {
                            lemma_read_each_none(ts, i as int + 1, reader::<T>());
                        }
                        return Err(e);
                    },
                }
                i = i + 1;
            }
            assert(ts.take(i as int) =~= ts);
            Ok(out)
        },
        _ => Err(field_error(key)),
    }
}

/// The entry for a list of records; an empty list gives none.
pub fn records_value<T: Record>(v: &Vec<T>) -> (r: Option<Value>)
    ensures
        opt_value_view(r) == write_list(records_view(v), writer::<T>()),
{
    if v.len() == 0 {
        return None;
    }
    let mut out: Vec<Value> = Vec::new();
    let mut i: usize = 0;
    while i < v.len()
        invariant
            i <= v.len(),
            out.len() == i,
            forall|j: int| 0 <= j < i ==> #[trigger] out[j]@ == T::write(v[j]@),
        decreases v.len() - i,
    {
        out.push(v[i].to_value());
        i = i + 1;
    }
    proof {
        lemma_list_view(&out);
        assert(items_view(&out) =~= records_view(v).map_values(writer::<T>()));
    }
    Some(Value::List(out))
}

/// The entry for a record that may be left out.
pub fn opt_record_value<T: Record>(o: &Option<T>) -> (r: Option<Value>)
    ensures
        opt_value_view(r) == write_opt_record(
            match o {
                Some(x) => Some(x@),
                None => None,
            },
            writer::<T>(),
        ),
{
    match o {
        Some(x) => Some(x.to_value()),
        None => None,
    }
}

/// Reads a record that may be left out; missing or null reads as `None`.
pub fn get_opt_record<T: Record>(m: &Vec<(String, Value)>, key: &str) -> (r: Result<Option<T>, DecodeError>)
    ensures
        match r {
            Ok(o) => read_opt_record(mapping_view(m), key@, reader::<T>()) == Some(
                match o {
                    Some(x) => Some(x@),
                    None => None,
                },
            ),
            Err(_) => read_opt_record(mapping_view(m), key@, reader::<T>()) is None,
        },
{
    match find(m, key) {
        None => Ok(None),
        Some(Value::Null) => Ok(None),
        Some(v) => {
            let x = T::from_value(v)?;
            Ok(Some(x))
        },
    }
}

/// Reads a record that must be there.
pub fn get_record<T: Record>(m: &Vec<(String, Value)>, key: &str) -> (r: Result<T, DecodeError>)
    ensures
        match r {
            Ok(x) => read_record(mapping_view(m), key@, reader::<T>()) == Some(x@),
            Err(_) => read_record(mapping_view(m), key@, reader::<T>()) is None,
        },
{
    match find(m, key) {
        None => Err(field_error(key)),
        Some(v) => T::from_value(v),
    }
}

/// Appends a slot's entry, if it holds one, tracking the slots written so far.
pub(crate) fn put_slot(
    m: &mut Vec<(String, Value)>,
    slots: Ghost<Seq<(Seq<char>, Option<Tree>)>>,
    key: &str,
    v: Option<Value>,
) -> (r: Ghost<Seq<(Seq<char>, Option<Tree>)>>)
    requires
        mapping_view(old(m)) == present(slots@),
    ensures
        r@ == slots@.push((key@, opt_value_view(v))),
        mapping_view(final(m)) == present(r@),
{
    let ghost s = slots@.push((key@, opt_value_view(v)));
    put_opt(m, key, v);
    proof {
        assert(s.drop_last() =~= slots@);
    }
    Ghost(s)
}

/// Appends a copy of each of `extra`'s entries.
pub fn put_all(m: &mut Vec<(String, Value)>, extra: Vec<(String, Value)>)
    ensures
        mapping_view(final(m)) == mapping_view(old(m)) + mapping_view(&extra),
{
    let mut i: usize = 0;
    while i < extra.len()
        invariant
            i <= extra.len(),
            mapping_view(m) == mapping_view(old(m)) + mapping_view(&extra).take(i as int),
        decreases extra.len() - i,
    {
        let ghost before = mapping_view(m);
        let v = copy_value(&extra[i].1);
        m.push((extra[i].0.clone(), v));
        assert(mapping_view(m) =~= before.push((extra[i as int].0@, extra[i as int].1@)));
        assert(mapping_view(&extra).take(i as int + 1) =~= mapping_view(&extra).take(i as int).push(
            (extra[i as int].0@, extra[i as int].1@),
        ));
        i = i + 1;
    }
    assert(mapping_view(&extra).take(i as int) =~= mapping_view(&extra));
}

} // verus!
