//! The names under which switches are shown.
use indexmap::IndexMap;
use vstd::prelude::*;

verus! {

/// A table that keeps the order of its entries.
#[verifier::external_type_specification]
#[verifier::external_body]
#[verifier::reject_recursive_types(K)]
#[verifier::reject_recursive_types(V)]
#[verifier::reject_recursive_types(S)]
pub struct ExIndexMap<K, V, S>(IndexMap<K, V, S>);

/// The entries of a table in their order.
pub uninterp spec fn table_entries(table: IndexMap<String, String>) -> Seq<(Seq<char>, Seq<char>)>;

/// The value of the first entry with the given key.
pub open spec fn entry_value(entries: Seq<(Seq<char>, Seq<char>)>, key: Seq<char>) -> Option<
    Seq<char>,
>
    decreases entries.len(),
{
    if entries.len() == 0 {
        None
    } else if entries[0].0 == key {
        Some(entries[0].1)
    } else {
        entry_value(entries.skip(1), key)
    }
}

/// `indexmap::IndexMap::get` gives the value of the entry with the given key; no key occurs
/// twice in a table.
#[verifier::external_body]
fn table_get<'a>(table: &'a IndexMap<String, String>, key: &str) -> (r: Option<&'a String>)
    ensures
        match r {
            Some(value) => entry_value(table_entries(*table), key@) == Some(value@),
            None => entry_value(table_entries(*table), key@) is None,
        },
{
    table.get(key)
}

/// The name under which a switch is shown: the one that the table gives it, or its own.
pub open spec fn label_of(pretty_map: Option<IndexMap<String, String>>, name: Seq<char>) -> Seq<
    char,
> {
    match pretty_map {
        Some(table) => match entry_value(table_entries(table), name) {
            Some(label) => label,
            None => name,
        },
        None => name,
    }
}

/// Looks up the name under which a switch is shown.
pub fn pretty_label(pretty_map: &Option<IndexMap<String, String>>, switch_name: &str) -> (r: String)
    ensures
        r@ == label_of(*pretty_map, switch_name@),
{
    match pretty_map {
        Some(table) => match table_get(table, switch_name) {
            Some(label) => label.clone(),
            None => switch_name.to_owned(),
        },
        None => switch_name.to_owned(),
    }
}

/// A table gives a key the value of its first entry with that key, and nothing where it has none.
pub proof fn entries_are_found(entries: Seq<(Seq<char>, Seq<char>)>, key: Seq<char>)
    ensures
        forall|i: int|
            0 <= i < entries.len() && (#[trigger] entries[i]).0 == key && (forall|j: int|
                0 <= j < i ==> (#[trigger] entries[j]).0 != key) ==> entry_value(entries, key)
                == Some(entries[i].1),
        (forall|i: int| 0 <= i < entries.len() ==> (#[trigger] entries[i]).0 != key)
            ==> entry_value(entries, key) is None,
    decreases entries.len(),
{
    if entries.len() > 0 {
        let rest = entries.skip(1);
        entries_are_found(rest, key);
        assert forall|i: int|
            0 <= i < entries.len() && (#[trigger] entries[i]).0 == key && (forall|j: int|
                0 <= j < i ==> (#[trigger] entries[j]).0 != key) implies entry_value(entries, key)
            == Some(entries[i].1) by {
            if i > 0 {
                assert(entries[0].0 != key);
                assert(rest[i - 1] == entries[i]);
                assert forall|j: int| 0 <= j < i - 1 implies (#[trigger] rest[j]).0 != key by {
                    assert(entries[j + 1].0 != key);
                }
            }
        }
        if forall|i: int| 0 <= i < entries.len() ==> (#[trigger] entries[i]).0 != key {
            assert(entries[0].0 != key);
            assert forall|j: int| 0 <= j < rest.len() implies (#[trigger] rest[j]).0 != key by {
                assert(entries[j + 1].0 != key);
            }
        }
    }
}

/// A switch is shown under the name that the table gives it, and under its own name where the
/// table has none for it or there is no table.
pub proof fn labels_come_from_the_table(table: IndexMap<String, String>, name: Seq<char>)
    ensures
        label_of(None, name) == name,
        forall|i: int|
            0 <= i < table_entries(table).len() && (#[trigger] table_entries(table)[i]).0 == name
                && (forall|j: int| 0 <= j < i ==> (#[trigger] table_entries(table)[j]).0 != name)
                ==> label_of(Some(table), name) == table_entries(table)[i].1,
        (forall|i: int|
            0 <= i < table_entries(table).len() ==> (#[trigger] table_entries(table)[i]).0 != name)
            ==> label_of(Some(table), name) == name,
{
    entries_are_found(table_entries(table), name);
}

} // verus!
