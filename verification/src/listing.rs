//! Listings of an attribute map: its entries in some order. Among the
//! listings of a map exactly one ascends by name; it is the canonical one.

use crate::attributes::{entry_views, EntryView, NamedVariable, VariableView};
use crate::names::{
    lemma_name_less_asymmetric, lemma_name_less_irreflexive, lemma_name_less_total,
    lemma_name_less_transitive, name_less, name_precedes,
};
use vstd::prelude::*;
use vstd::utf8::valid_utf8;

verus! {

/// No two entries of the listing have the same name.
pub open spec fn names_distinct(listing: Seq<EntryView>) -> bool {
    forall|i: int, j: int|
        0 <= i < j < listing.len() ==> (#[trigger] listing[i]).name != (#[trigger] listing[j]).name
}

/// The names of the listing ascend strictly.
pub open spec fn ascending(listing: Seq<EntryView>) -> bool {
    forall|i: int, j: int|
        0 <= i < j < listing.len() ==> name_less(
            (#[trigger] listing[i]).name,
            (#[trigger] listing[j]).name,
        )
}

/// `listing` holds each entry of `map` once, in some order, and nothing
/// else.
pub open spec fn lists_map(listing: Seq<EntryView>, map: Map<Seq<u8>, VariableView>) -> bool {
    &&& names_distinct(listing)
    &&& forall|i: int|
        0 <= i < listing.len() ==> map.contains_key((#[trigger] listing[i]).name)
            && map[listing[i].name] == listing[i].variable
    &&& forall|name: Seq<u8>| #[trigger]
        map.contains_key(name) ==> exists|i: int|
            0 <= i < listing.len() && (#[trigger] listing[i]).name == name
}

/// The map that a listing with distinct names stands for.
pub open spec fn listing_map(listing: Seq<EntryView>) -> Map<Seq<u8>, VariableView> {
    Map::new(
        |name: Seq<u8>| exists|i: int| 0 <= i < listing.len() && (#[trigger] listing[i]).name == name,
        |name: Seq<u8>|
            listing[choose|i: int| 0 <= i < listing.len() && (#[trigger] listing[i]).name == name].variable,
    )
}

/// The entries of a map in ascending order of their names. There is one such
/// listing for a finite map, by [`lemma_canonical_listing_unique`].
pub open spec fn canonical_listing(map: Map<Seq<u8>, VariableView>) -> Seq<EntryView> {
    choose|listing: Seq<EntryView>| ascending(listing) && lists_map(listing, map)
}

/// Whether every name of the listing is valid UTF-8.
pub open spec fn names_are_text(listing: Seq<EntryView>) -> bool {
    forall|i: int| 0 <= i < listing.len() ==> valid_utf8((#[trigger] listing[i]).name)
}

/// Names that ascend strictly are distinct.
pub proof fn lemma_ascending_names_distinct(listing: Seq<EntryView>)
    requires
        ascending(listing),
    ensures
        names_distinct(listing),
{
    assert forall|i: int, j: int| 0 <= i < j < listing.len() implies (#[trigger] listing[i]).name
        != (#[trigger] listing[j]).name by {
        lemma_name_less_irreflexive(listing[i].name);
    }
}

/// A listing with distinct names lists the map that it stands for.
pub proof fn lemma_listing_lists_its_map(listing: Seq<EntryView>)
    requires
        names_distinct(listing),
    ensures
        lists_map(listing, listing_map(listing)),
{
    let map = listing_map(listing);
    assert forall|i: int| 0 <= i < listing.len() implies map.contains_key(
        (#[trigger] listing[i]).name,
    ) && map[listing[i].name] == listing[i].variable by {
        let name = listing[i].name;
        let k = choose|k: int| 0 <= k < listing.len() && (#[trigger] listing[k]).name == name;
        assert(k == i);
    }
}

/// A map that a listing lists is the map that the listing stands for.
pub proof fn lemma_listed_map_is_listing_map(
    listing: Seq<EntryView>,
    map: Map<Seq<u8>, VariableView>,
)
    requires
        lists_map(listing, map),
    ensures
        listing_map(listing) == map,
{
    let made = listing_map(listing);
    assert forall|name: Seq<u8>| made.contains_key(name) implies #[trigger] map.contains_key(
        name,
    ) && made[name] == map[name] by {
        let k = choose|k: int| 0 <= k < listing.len() && (#[trigger] listing[k]).name == name;
        assert(map.contains_key(listing[k].name));
    }
    assert forall|name: Seq<u8>| #[trigger] map.contains_key(name) implies made.contains_key(
        name,
    ) by {
        let k = choose|k: int| 0 <= k < listing.len() && (#[trigger] listing[k]).name == name;
    }
    assert(made =~= map);
}

/// Without its last entry, a listing lists the map without that name.
proof fn lemma_drop_last_lists_rest(listing: Seq<EntryView>, map: Map<Seq<u8>, VariableView>)
    requires
        listing.len() > 0,
        lists_map(listing, map),
    ensures
        lists_map(listing.drop_last(), map.remove(listing.last().name)),
{
    let shorter = listing.drop_last();
    let rest = map.remove(listing.last().name);
    assert forall|i: int| 0 <= i < shorter.len() implies rest.contains_key(
        (#[trigger] shorter[i]).name,
    ) && rest[shorter[i].name] == shorter[i].variable by {
        assert(shorter[i] == listing[i]);
        assert(listing[i].name != listing[listing.len() - 1].name);
    }
    assert forall|name: Seq<u8>| #[trigger] rest.contains_key(name) implies exists|i: int|
        0 <= i < shorter.len() && (#[trigger] shorter[i]).name == name by {
        assert(map.contains_key(name));
        let k = choose|k: int| 0 <= k < listing.len() && (#[trigger] listing[k]).name == name;
        assert(shorter[k] == listing[k]);
    }
    assert forall|i: int, j: int| 0 <= i < j < shorter.len() implies (#[trigger] shorter[i]).name
        != (#[trigger] shorter[j]).name by {
        assert(shorter[i] == listing[i] && shorter[j] == listing[j]);
    }
}

/// A map has at most one listing in ascending order of names: the canonical
/// order leaves no choice.
pub proof fn lemma_canonical_listing_unique(
    first: Seq<EntryView>,
    second: Seq<EntryView>,
    map: Map<Seq<u8>, VariableView>,
)
    requires
        ascending(first),
        lists_map(first, map),
        ascending(second),
        lists_map(second, map),
    ensures
        first == second,
    decreases first.len(),
{
    if first.len() == 0 {
        if second.len() > 0 {
            assert(map.contains_key(second[0].name));
        }
        assert(first =~= second);
    } else {
        let last = first.last();
        assert(map.contains_key(last.name));
        let j = choose|j: int| 0 <= j < second.len() && (#[trigger] second[j]).name == last.name;
        let other = second.last();
        assert(map.contains_key(other.name));
        let i = choose|i: int| 0 <= i < first.len() && (#[trigger] first[i]).name == other.name;
        if j < second.len() - 1 {
            assert(name_less(second[j].name, second[second.len() - 1].name));
            if i < first.len() - 1 {
                assert(name_less(first[i].name, first[first.len() - 1].name));
                lemma_name_less_asymmetric(last.name, other.name);
            } else {
                lemma_name_less_irreflexive(last.name);
            }
        } else if i < first.len() - 1 {
            assert(name_less(first[i].name, first[first.len() - 1].name));
            lemma_name_less_irreflexive(last.name);
        }
        assert(last.name == other.name);
        assert(last == other);
        lemma_drop_last_lists_rest(first, map);
        lemma_drop_last_lists_rest(second, map);
        assert(ascending(first.drop_last())) by {
            assert forall|a: int, b: int| 0 <= a < b < first.drop_last().len() implies name_less(
                (#[trigger] first.drop_last()[a]).name,
                (#[trigger] first.drop_last()[b]).name,
            ) by {
                assert(first.drop_last()[a] == first[a] && first.drop_last()[b] == first[b]);
            }
        }
        assert(ascending(second.drop_last())) by {
            assert forall|a: int, b: int| 0 <= a < b < second.drop_last().len() implies name_less(
                (#[trigger] second.drop_last()[a]).name,
                (#[trigger] second.drop_last()[b]).name,
            ) by {
                assert(second.drop_last()[a] == second[a] && second.drop_last()[b] == second[b]);
            }
        }
        lemma_canonical_listing_unique(
            first.drop_last(),
            second.drop_last(),
            map.remove(last.name),
        );
        assert(first =~= first.drop_last().push(last));
        assert(second =~= second.drop_last().push(other));
    }
}

/// A listing in ascending order is the canonical listing of the map that it
/// lists.
pub proof fn lemma_ascending_listing_is_canonical(
    listing: Seq<EntryView>,
    map: Map<Seq<u8>, VariableView>,
)
    requires
        ascending(listing),
        lists_map(listing, map),
    ensures
        canonical_listing(map) == listing,
{
    let chosen = canonical_listing(map);
    assert(ascending(chosen) && lists_map(chosen, map));
    lemma_canonical_listing_unique(chosen, listing, map);
}

/// Two listings with the same entries, each once, list the same maps.
pub proof fn lemma_same_entries_list_same_map(
    first: Seq<EntryView>,
    second: Seq<EntryView>,
    map: Map<Seq<u8>, VariableView>,
)
    requires
        lists_map(first, map),
        names_distinct(second),
        first.to_multiset() == second.to_multiset(),
    ensures
        lists_map(second, map),
{
    assert forall|i: int| 0 <= i < second.len() implies map.contains_key(
        (#[trigger] second[i]).name,
    ) && map[second[i].name] == second[i].variable by {
        assert(second.contains(second[i]));
        vstd::seq_lib::to_multiset_contains(second, second[i]);
        vstd::seq_lib::to_multiset_contains(first, second[i]);
        assert(first.contains(second[i]));
        let k = choose|k: int| 0 <= k < first.len() && first[k] == second[i];
        assert(map.contains_key(first[k].name));
    }
    assert forall|name: Seq<u8>| #[trigger] map.contains_key(name) implies exists|i: int|
        0 <= i < second.len() && (#[trigger] second[i]).name == name by {
        let k = choose|k: int| 0 <= k < first.len() && (#[trigger] first[k]).name == name;
        assert(first.contains(first[k]));
        vstd::seq_lib::to_multiset_contains(first, first[k]);
        vstd::seq_lib::to_multiset_contains(second, first[k]);
        assert(second.contains(first[k]));
        let i = choose|i: int| 0 <= i < second.len() && second[i] == first[k];
        assert(second[i].name == name);
    }
}

/// If every name of one listing is text, so is every name of a listing with
/// the same entries.
pub proof fn lemma_same_entries_same_validity(first: Seq<EntryView>, second: Seq<EntryView>)
    requires
        first.to_multiset() == second.to_multiset(),
        names_are_text(first),
    ensures
        names_are_text(second),
{
    assert forall|i: int| 0 <= i < second.len() implies valid_utf8(
        (#[trigger] second[i]).name,
    ) by {
        assert(second.contains(second[i]));
        vstd::seq_lib::to_multiset_contains(second, second[i]);
        vstd::seq_lib::to_multiset_contains(first, second[i]);
        let k = choose|k: int| 0 <= k < first.len() && first[k] == second[i];
        assert(valid_utf8(first[k].name));
    }
}

/// The entries in ascending order of their names.
pub fn sort_by_name(entries: Vec<NamedVariable>) -> (sorted: Vec<NamedVariable>)
    requires
        names_distinct(entry_views(entries@)),
    ensures
        ascending(entry_views(sorted@)),
        entry_views(sorted@).to_multiset() == entry_views(entries@).to_multiset(),
{
    let ghost given = entry_views(entries@);
    let mut remaining = entries;
    let mut sorted: Vec<NamedVariable> = Vec::new();
    assert(entry_views(sorted@).to_multiset().add(entry_views(remaining@).to_multiset())
        =~= given.to_multiset()) by {
        assert(entry_views(sorted@) =~= Seq::empty());
        entry_views(sorted@).to_multiset_ensures();
    }
    while remaining.len() > 0
        invariant
            names_distinct(entry_views(remaining@)),
            ascending(entry_views(sorted@)),
            forall|i: int, j: int|
                0 <= i < sorted.len() && 0 <= j < remaining.len() ==> name_less(
                    (#[trigger] entry_views(sorted@)[i]).name,
                    (#[trigger] entry_views(remaining@)[j]).name,
                ),
            entry_views(sorted@).to_multiset().add(entry_views(remaining@).to_multiset())
                == given.to_multiset(),
        decreases remaining.len(),
    {
        let least = least_name(&remaining);
        let ghost before_sorted = entry_views(sorted@);
        let ghost before_remaining = entry_views(remaining@);
        let entry = remaining.remove(least);
        sorted.push(entry);
        proof {
            let after_sorted = entry_views(sorted@);
            let after_remaining = entry_views(remaining@);
            let moved = before_remaining[least as int];
            assert(after_sorted =~= before_sorted.push(moved));
            assert(after_remaining =~= before_remaining.remove(least as int));
            vstd::seq_lib::to_multiset_build(before_sorted, moved);
            vstd::seq_lib::to_multiset_remove(before_remaining, least as int);
            assert(before_remaining.contains(moved));
            vstd::seq_lib::to_multiset_contains(before_remaining, moved);
            assert(after_sorted.to_multiset().add(after_remaining.to_multiset())
                =~= before_sorted.to_multiset().add(before_remaining.to_multiset()));
            assert forall|i: int, j: int| 0 <= i < j < after_remaining.len() implies (
            #[trigger] after_remaining[i]).name != (#[trigger] after_remaining[j]).name by {
                let from_i = if i < least { i } else { i + 1 };
                let from_j = if j < least { j } else { j + 1 };
                assert(after_remaining[i] == before_remaining[from_i]);
                assert(after_remaining[j] == before_remaining[from_j]);
            }
            assert forall|i: int, j: int| 0 <= i < j < after_sorted.len() implies name_less(
                (#[trigger] after_sorted[i]).name,
                (#[trigger] after_sorted[j]).name,
            ) by {
                if j < before_sorted.len() {
                    assert(after_sorted[i] == before_sorted[i]);
                    assert(after_sorted[j] == before_sorted[j]);
                } else {
                    assert(after_sorted[i] == before_sorted[i]);
                    assert(after_sorted[j] == before_remaining[least as int]);
                }
            }
            assert forall|i: int, j: int|
                0 <= i < after_sorted.len() && 0 <= j < after_remaining.len() implies name_less(
                (#[trigger] after_sorted[i]).name,
                (#[trigger] after_remaining[j]).name,
            ) by {
                let from_j = if j < least { j } else { j + 1 };
                assert(after_remaining[j] == before_remaining[from_j]);
                if i < before_sorted.len() {
                    assert(after_sorted[i] == before_sorted[i]);
                } else {
                    assert(after_sorted[i] == before_remaining[least as int]);
                }
            }
        }
    }
    assert(entry_views(remaining@) =~= Seq::empty());
    assert(entry_views(sorted@).to_multiset() =~= given.to_multiset()) by {
        entry_views(remaining@).to_multiset_ensures();
    }
    sorted
}

/// The place of the entry whose name comes before every other name.
fn least_name(entries: &Vec<NamedVariable>) -> (least: usize)
    requires
        entries.len() > 0,
        names_distinct(entry_views(entries@)),
    ensures
        least < entries.len(),
        forall|k: int|
            0 <= k < entries.len() && k != least ==> name_less(
                entry_views(entries@)[least as int].name,
                (#[trigger] entry_views(entries@)[k]).name,
            ),
{
    let ghost views = entry_views(entries@);
    let mut least: usize = 0;
    let mut probe: usize = 1;
    while probe < entries.len()
        invariant
            least < probe <= entries.len(),
            views == entry_views(entries@),
            names_distinct(views),
            forall|k: int|
                0 <= k < probe && k != least ==> name_less(
                    views[least as int].name,
                    (#[trigger] views[k]).name,
                ),
        decreases entries.len() - probe,
    {
        let ghost old_least = least as int;
        if name_precedes(entries[probe].name.as_slice(), entries[least].name.as_slice()) {
            proof {
                assert forall|k: int| 0 <= k < probe + 1 && k != probe implies name_less(
                    views[probe as int].name,
                    (#[trigger] views[k]).name,
                ) by {
                    if k != old_least {
                        lemma_name_less_transitive(
                            views[probe as int].name,
                            views[old_least].name,
                            views[k].name,
                        );
                    }
                }
            }
            least = probe;
        } else {
            proof {
                assert(views[old_least].name != views[probe as int].name);
                lemma_name_less_total(views[old_least].name, views[probe as int].name);
            }
        }
        probe += 1;
    }
    least
}

} // verus!
