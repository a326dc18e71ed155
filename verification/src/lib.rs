//! A bridge between an HTTP interface and Zigbee switches on an MQTT network.
use vstd::prelude::*;

use crate::frontend::filter_texts;
use crate::text::{contains_text, names_differ, texts};

pub mod api;
pub mod assets;
pub mod beelay_core;
pub mod common;
pub mod config;
pub mod frontend;
pub mod json;
pub mod launch;
pub mod laws;
pub mod mqtt_client;
pub mod pretty_names;
pub mod response;
pub mod service;
pub mod text;

verus! {

/// The names of a filter that are in the master list, in the filter's order.
pub open spec fn refined_names(master: Seq<Seq<char>>, names: Seq<Seq<char>>) -> Seq<Seq<char>> {
    names.filter(|name: Seq<char>| master.contains(name))
}

/// The filters with the names that are not in the master list taken out of each.
pub open spec fn refined_filters(
    master: Seq<Seq<char>>,
    filters: Seq<(Seq<char>, Seq<Seq<char>>)>,
) -> Seq<(Seq<char>, Seq<Seq<char>>)> {
    filters.map_values(
        |filter: (Seq<char>, Seq<Seq<char>>)| (filter.0, refined_names(master, filter.1)),
    )
}

/// Takes the names that are not in the master list out of a filter.
fn refine_filter(switch_names: &Vec<String>, proposed_filter: &Vec<String>) -> (r: Vec<String>)
    ensures
        texts(r@) == refined_names(texts(switch_names@), texts(proposed_filter@)),
{
    let ghost names = texts(proposed_filter@);
    let ghost master = texts(switch_names@);
    let ghost known = |name: Seq<char>| master.contains(name);
    let mut filter: Vec<String> = Vec::new();
    proof {
        reveal(Seq::filter);
        assert(texts(filter@) =~= names.take(0).filter(known));
    }
    let mut i: usize = 0;
    while i < proposed_filter.len()
        invariant
            i <= proposed_filter@.len(),
            names == texts(proposed_filter@),
            master == texts(switch_names@),
            known == (|name: Seq<char>| master.contains(name)),
            texts(filter@) == names.take(i as int).filter(known),
        decreases proposed_filter@.len() - i,
    {
        let ghost before = texts(filter@);
        proof {
            reveal(Seq::filter);
            assert(names.take(i + 1).drop_last() =~= names.take(i as int));
            assert(names.take(i + 1).last() == proposed_filter@[i as int]@);
        }
        if contains_text(switch_names.as_slice(), proposed_filter[i].as_str()) {
            filter.push(proposed_filter[i].clone());
            assert(texts(filter@) =~= before.push(names[i as int]));
        }
        i += 1;
    }
    assert(names.take(i as int) =~= names);
    filter
}

/// Takes the names that are not in the master list out of every filter.
pub fn refine_filters(
    switch_names: &Vec<String>,
    proposed_filters: &Vec<(String, Vec<String>)>,
) -> (r: Vec<(String, Vec<String>)>)
    ensures
        filter_texts(r@) == refined_filters(
            texts(switch_names@),
            filter_texts(proposed_filters@),
        ),
        names_differ(filter_texts(proposed_filters@)) ==> names_differ(filter_texts(r@)),
{
    let ghost expected = refined_filters(texts(switch_names@), filter_texts(proposed_filters@));
    let mut filters: Vec<(String, Vec<String>)> = Vec::new();
    assert(filter_texts(filters@) =~= expected.take(0));
    let mut i: usize = 0;
    while i < proposed_filters.len()
        invariant
            i <= proposed_filters@.len(),
            expected == refined_filters(texts(switch_names@), filter_texts(proposed_filters@)),
            filter_texts(filters@) == expected.take(i as int),
        decreases proposed_filters@.len() - i,
    {
        let ghost before = filter_texts(filters@);
        let filter = refine_filter(switch_names, &proposed_filters[i].1);
        filters.push((proposed_filters[i].0.clone(), filter));
        assert(filter_texts(filters@) =~= before.push(expected[i as int]));
        assert(filter_texts(filters@) =~= expected.take(i + 1));
        i += 1;
    }
    assert(expected.take(i as int) =~= expected);
    filters
}

/// A refined filter holds names of the master list alone, all of those that it held before.
pub proof fn refined_names_are_the_known_ones(
    master: Seq<Seq<char>>,
    names: Seq<Seq<char>>,
    name: Seq<char>,
)
    ensures
        refined_names(master, names).contains(name) <==> names.contains(name) && master.contains(
            name,
        ),
    decreases names.len(),
{
    reveal(Seq::filter);
    let kept = refined_names(master, names);
    if names.len() > 0 {
        let rest = names.drop_last();
        let earlier = refined_names(master, rest);
        refined_names_are_the_known_ones(master, rest, name);
        if names.contains(name) {
            let k = choose|k: int| 0 <= k < names.len() && names[k] == name;
            if k < rest.len() {
                assert(rest[k] == name);
            }
        }
        if rest.contains(name) {
            let k = choose|k: int| 0 <= k < rest.len() && rest[k] == name;
            assert(names[k] == name);
        }
        if earlier.contains(name) {
            let k = choose|k: int| 0 <= k < earlier.len() && earlier[k] == name;
            assert(kept[k] == name);
        }
        if kept.contains(name) {
            let k = choose|k: int| 0 <= k < kept.len() && kept[k] == name;
            if k < earlier.len() {
                assert(earlier[k] == name);
            }
        }
        if name == names.last() && master.contains(name) {
            assert(kept[kept.len() - 1] == name);
        }
    }
}

/// A filter all of whose names are in the master list is left as it is.
pub proof fn known_names_are_kept(master: Seq<Seq<char>>, names: Seq<Seq<char>>)
    requires
        forall|i: int| 0 <= i < names.len() ==> master.contains(#[trigger] names[i]),
    ensures
        refined_names(master, names) == names,
    decreases names.len(),
{
    reveal(Seq::filter);
    if names.len() > 0 {
        known_names_are_kept(master, names.drop_last());
        assert(master.contains(names[names.len() - 1]));
        assert(names.drop_last().push(names.last()) =~= names);
    }
}

/// Refining filters a second time changes nothing, and refining keeps the filters' names and
/// their order.
pub proof fn refining_twice_is_refining_once(
    master: Seq<Seq<char>>,
    filters: Seq<(Seq<char>, Seq<Seq<char>>)>,
)
    ensures
        refined_filters(master, refined_filters(master, filters)) == refined_filters(
            master,
            filters,
        ),
        refined_filters(master, filters).len() == filters.len(),
        forall|i: int|
            0 <= i < filters.len() ==> (#[trigger] refined_filters(master, filters)[i]).0
                == filters[i].0,
{
    let once = refined_filters(master, filters);
    assert forall|i: int| 0 <= i < filters.len() implies #[trigger] refined_names(master, once[i].1)
        == once[i].1 by {
        let names = once[i].1;
        assert forall|j: int| 0 <= j < names.len() implies master.contains(#[trigger] names[j]) by {
            refined_names_are_the_known_ones(master, filters[i].1, names[j]);
        }
        known_names_are_kept(master, names);
    }
    assert(refined_filters(master, once) =~= once);
}

/// A filter is refined name by name: each stays where the master list has it and goes where it
/// does not, and the others do not matter.
pub proof fn names_are_refined_one_by_one(
    master: Seq<Seq<char>>,
    a: Seq<Seq<char>>,
    b: Seq<Seq<char>>,
    name: Seq<char>,
)
    ensures
        refined_names(master, a + b) == refined_names(master, a) + refined_names(master, b),
        master.contains(name) ==> refined_names(master, seq![name]) == seq![name],
        !master.contains(name) ==> refined_names(master, seq![name]).len() == 0,
        refined_names(master, Seq::empty()).len() == 0,
{
    let known = |n: Seq<char>| master.contains(n);
    Seq::filter_distributes_over_add(a, b, known);
    reveal_with_fuel(Seq::filter, 2);
    assert(seq![name].drop_last() =~= Seq::empty());
    assert(Seq::<Seq<char>>::empty().push(name) =~= seq![name]);
}

/// Each filter keeps its name and its place, and its names are refined.
pub proof fn filters_are_refined_each(
    master: Seq<Seq<char>>,
    filters: Seq<(Seq<char>, Seq<Seq<char>>)>,
)
    ensures
        refined_filters(master, filters).len() == filters.len(),
        forall|i: int|
            0 <= i < filters.len() ==> #[trigger] refined_filters(master, filters)[i] == (
                filters[i].0,
                refined_names(master, filters[i].1),
            ),
{
}

} // verus!
