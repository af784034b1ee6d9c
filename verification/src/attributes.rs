//! The attribute map of a ray-tracing program: its named input variables.
//!
//! The map is a hash map and hands out its entries in no particular order.
//! What is made of it, its canonical text, does not depend on that order.

use crate::canonical_text::{attribute_text, write_listing};
use crate::listing::{
    lemma_ascending_listing_is_canonical, lemma_ascending_names_distinct,
    lemma_listed_map_is_listing_map, lemma_listing_lists_its_map,
    lemma_same_entries_list_same_map, lemma_same_entries_same_validity, listing_map, lists_map,
    names_are_text, names_distinct, sort_by_name,
};
use rustc_hash::FxHashMap;
use vstd::prelude::*;
use vstd::slice::slice_to_vec;
use vstd::utf8::valid_utf8;

verus! {

/// `rustc_hash::FxBuildHasher`, the hasher of an `FxHashMap`; never looked
/// into.
#[verifier::external_type_specification]
#[verifier::external_body]
pub struct ExFxBuildHasher(rustc_hash::FxBuildHasher);

/// What is known of one input variable of a program.
#[derive(Clone, Debug, PartialEq, Eq)]
pub struct Variable {
    pub size: u32,
    pub offset: u32,
    pub default_value: Vec<u8>,
}

pub struct VariableView {
    pub size: u32,
    pub offset: u32,
    pub default_value: Seq<u8>,
}

impl View for Variable {
    type V = VariableView;

    open spec fn view(&self) -> VariableView {
        VariableView {
            size: self.size,
            offset: self.offset,
            default_value: self.default_value@,
        }
    }
}

/// One entry of an attribute map: a variable under its name. The name is a
/// byte string and need not be text.
#[derive(Clone, Debug, PartialEq, Eq)]
pub struct NamedVariable {
    pub name: Vec<u8>,
    pub variable: Variable,
}

pub struct EntryView {
    pub name: Seq<u8>,
    pub variable: VariableView,
}

impl View for NamedVariable {
    type V = EntryView;

    open spec fn view(&self) -> EntryView {
        EntryView { name: self.name@, variable: self.variable@ }
    }
}

impl NamedVariable {
    /// An entry with copies of a name and a variable.
    pub fn copy_of(name: &Vec<u8>, variable: &Variable) -> (entry: NamedVariable)
        ensures
            entry@ == (EntryView { name: name@, variable: variable@ }),
    {
        NamedVariable {
            name: slice_to_vec(name.as_slice()),
            variable: Variable {
                size: variable.size,
                offset: variable.offset,
                default_value: slice_to_vec(variable.default_value.as_slice()),
            },
        }
    }
}

/// The named input variables of a program. The order in which the map hands
/// out its entries means nothing.
pub struct VariablesBlock {
    pub variables: FxHashMap<Vec<u8>, Variable>,
}

/// The views of a sequence of entries.
pub open spec fn entry_views(entries: Seq<NamedVariable>) -> Seq<EntryView> {
    entries.map_values(|entry: NamedVariable| entry@)
}

/// Why an attribute map has no canonical text.
#[derive(Clone, Copy, Debug, PartialEq, Eq, Structural)]
pub enum SerializationFailure {
    /// A name is not valid UTF-8.
    NameNotUtf8,
}

/// What an `FxHashMap` of variables holds: each variable under the bytes of
/// its name.
pub uninterp spec fn attribute_map(variables: FxHashMap<Vec<u8>, Variable>) -> Map<
    Seq<u8>,
    VariableView,
>;

/// Walks the map with `HashMap::iter` and copies each entry. Believed, not
/// proved: every entry of the map comes out once, under its name, and
/// nothing else does. The order in which they come is left open.
#[verifier::external_body]
pub(crate) fn attribute_entries(variables: &FxHashMap<Vec<u8>, Variable>) -> (entries: Vec<
    NamedVariable,
>)
    ensures
        lists_map(entry_views(entries@), attribute_map(*variables)),
{
    variables.iter().map(|(name, variable)| NamedVariable::copy_of(name, variable)).collect()
}

/// The canonical text of the map that the entries stand for: sorted by name,
/// then written. It fails if a name is not text, and only then.
pub fn serialize_entries(entries: Vec<NamedVariable>) -> (text: Result<
    String,
    SerializationFailure,
>)
    requires
        names_distinct(entry_views(entries@)),
    ensures
        text is Ok <==> names_are_text(entry_views(entries@)),
        text matches Ok(written) ==> written@ == attribute_text(
            listing_map(entry_views(entries@)),
        ),
        text matches Err(failure) ==> failure == SerializationFailure::NameNotUtf8,
{
    let ghost given = entry_views(entries@);
    let sorted = sort_by_name(entries);
    proof {
        let ordered = entry_views(sorted@);
        lemma_ascending_names_distinct(ordered);
        lemma_listing_lists_its_map(given);
        lemma_same_entries_list_same_map(given, ordered, listing_map(given));
        lemma_ascending_listing_is_canonical(ordered, listing_map(given));
        if names_are_text(given) {
            lemma_same_entries_same_validity(given, ordered);
        }
        if names_are_text(ordered) {
            lemma_same_entries_same_validity(ordered, given);
        }
    }
    write_listing(&sorted)
}

/// The canonical text of an attribute map. It is the same for every order in
/// which the map hands out its entries. It fails if a name is not text, and
/// only then.
pub fn serialize_variables(variables: &FxHashMap<Vec<u8>, Variable>) -> (text: Result<
    String,
    SerializationFailure,
>)
    ensures
        text is Ok <==> (forall|name: Seq<u8>| #[trigger]
            attribute_map(*variables).contains_key(name) ==> valid_utf8(name)),
        text matches Ok(written) ==> written@ == attribute_text(attribute_map(*variables)),
        text matches Err(failure) ==> failure == SerializationFailure::NameNotUtf8,
{
    let entries = attribute_entries(variables);
    proof {
        let given = entry_views(entries@);
        let map = attribute_map(*variables);
        lemma_listed_map_is_listing_map(given, map);
        if names_are_text(given) {
            assert forall|name: Seq<u8>| #[trigger] map.contains_key(name) implies valid_utf8(
                name,
            ) by {
                let k = choose|k: int| 0 <= k < given.len() && (#[trigger] given[k]).name == name;
            }
        }
    }
    serialize_entries(entries)
}

} // verus!
