//! The canonical text of an attribute map: the entries in ascending order
//! of their names as one compact JSON object.

use crate::attributes::{
    entry_views, EntryView, NamedVariable, SerializationFailure, Variable, VariableView,
};
use crate::json::{
    decimal, json_byte_array, json_quote, json_string, lemma_decimal_injective,
    push_byte_array, push_decimal,
};
use crate::listing::{
    ascending, canonical_listing, lemma_ascending_listing_is_canonical,
    lemma_ascending_names_distinct, lemma_listed_map_is_listing_map,
    lemma_listing_lists_its_map, lemma_same_entries_list_same_map,
    lemma_same_entries_same_validity, listing_map, names_are_text, names_distinct,
};
use crate::names::name_less;
use crate::repository::lemma_change_between;
use vstd::prelude::*;
use vstd::utf8::{decode_utf8, encode_utf8, valid_utf8};

verus! {

/// `core::str::Utf8Error`, carried through and never looked into.
#[verifier::external_type_specification]
#[verifier::external_body]
pub struct ExUtf8Error(core::str::Utf8Error);

/// A variable as a JSON object: size, offset and default value, in this
/// order, the default value as an array of numbers.
pub open spec fn variable_text(variable: VariableView) -> Seq<char> {
    "{\"size\":"@ + decimal(variable.size as nat) + ",\"offset\":"@ + decimal(
        variable.offset as nat,
    ) + ",\"default_value\":"@ + json_byte_array(variable.default_value) + "}"@
}

/// An entry as a member of a JSON object: the name as a string, a colon, the
/// variable.
pub open spec fn entry_text(entry: EntryView) -> Seq<char> {
    json_string(decode_utf8(entry.name)) + seq![':'] + variable_text(entry.variable)
}

/// The entries in the order given, with a comma between neighbours.
pub open spec fn entries_text(listing: Seq<EntryView>) -> Seq<char>
    decreases listing.len(),
{
    if listing.len() == 0 {
        Seq::empty()
    } else if listing.len() == 1 {
        entry_text(listing[0])
    } else {
        entries_text(listing.drop_last()) + seq![','] + entry_text(listing.last())
    }
}

/// The entries in the order given as one JSON object.
pub open spec fn listing_text(listing: Seq<EntryView>) -> Seq<char> {
    seq!['{'] + entries_text(listing) + seq!['}']
}

/// The canonical text of an attribute map: its entries in ascending order of
/// their names as one JSON object.
pub open spec fn attribute_text(map: Map<Seq<u8>, VariableView>) -> Seq<char> {
    listing_text(canonical_listing(map))
}

/// The canonical text does not depend on the order in which the entries of
/// a map are handed out: two listings of the same entries give the same map,
/// the same text, and fail on the same names.
pub proof fn lemma_attribute_text_ignores_order(first: Seq<EntryView>, second: Seq<EntryView>)
    requires
        names_distinct(first),
        names_distinct(second),
        first.to_multiset() == second.to_multiset(),
    ensures
        listing_map(first) == listing_map(second),
        attribute_text(listing_map(first)) == attribute_text(listing_map(second)),
        names_are_text(first) <==> names_are_text(second),
{
    lemma_listing_lists_its_map(first);
    lemma_same_entries_list_same_map(first, second, listing_map(first));
    lemma_listed_map_is_listing_map(second, listing_map(first));
    if names_are_text(first) {
        lemma_same_entries_same_validity(first, second);
    }
    if names_are_text(second) {
        lemma_same_entries_same_validity(second, first);
    }
}

/// An entry with another offset.
pub open spec fn with_offset(entry: EntryView, offset: u32) -> EntryView {
    EntryView {
        name: entry.name,
        variable: VariableView {
            size: entry.variable.size,
            offset,
            default_value: entry.variable.default_value,
        },
    }
}

/// The text of an entry before and behind its offset: they stay when the
/// offset changes.
proof fn lemma_entry_around_offset(entry: EntryView, offset: u32) -> (around: (
    Seq<char>,
    Seq<char>,
))
    ensures
        entry_text(entry) == around.0 + decimal(entry.variable.offset as nat) + around.1,
        entry_text(with_offset(entry, offset)) == around.0 + decimal(offset as nat) + around.1,
{
    let name = json_string(decode_utf8(entry.name)) + seq![':'];
    let size = "{\"size\":"@ + decimal(entry.variable.size as nat) + ",\"offset\":"@;
    let after = ",\"default_value\":"@ + json_byte_array(entry.variable.default_value) + "}"@;
    let before = name + size;
    let was = decimal(entry.variable.offset as nat);
    let is = decimal(offset as nat);
    assert(variable_text(entry.variable) =~= size + was + after);
    assert(variable_text(with_offset(entry, offset).variable) =~= size + is + after);
    assert(name + (size + was + after) =~= before + was + after);
    assert(name + (size + is + after) =~= before + is + after);
    (before, after)
}

/// The text of a listing before and behind the offset of an entry: they stay
/// when the offset changes.
proof fn lemma_text_around_offset(listing: Seq<EntryView>, index: int, offset: u32) -> (around: (
    Seq<char>,
    Seq<char>,
))
    requires
        0 <= index < listing.len(),
    ensures
        entries_text(listing) == around.0 + decimal(listing[index].variable.offset as nat)
            + around.1,
        entries_text(listing.update(index, with_offset(listing[index], offset))) == around.0
            + decimal(offset as nat) + around.1,
    decreases listing.len(),
{
    let entry = listing[index];
    let changed = listing.update(index, with_offset(entry, offset));
    let was = decimal(entry.variable.offset as nat);
    let is = decimal(offset as nat);
    if index == listing.len() - 1 {
        let head = if listing.len() == 1 {
            Seq::<char>::empty()
        } else {
            entries_text(listing.drop_last()) + seq![',']
        };
        assert(changed.drop_last() =~= listing.drop_last());
        let (inner, after) = lemma_entry_around_offset(entry, offset);
        let before = head + inner;
        assert(entries_text(listing) =~= head + entry_text(entry));
        assert(entries_text(changed) =~= head + entry_text(with_offset(entry, offset)));
        assert(head + (inner + was + after) =~= before + was + after);
        assert(head + (inner + is + after) =~= before + is + after);
        (before, after)
    } else {
        let (before, inner) = lemma_text_around_offset(listing.drop_last(), index, offset);
        assert(changed.drop_last() =~= listing.drop_last().update(
            index,
            with_offset(entry, offset),
        ));
        assert(changed.last() == listing.last());
        let rest = seq![','] + entry_text(listing.last());
        let after = inner + rest;
        assert(entries_text(listing) =~= entries_text(listing.drop_last()) + rest);
        assert(entries_text(changed) =~= entries_text(changed.drop_last()) + rest);
        assert((before + was + inner) + rest =~= before + was + after);
        assert((before + is + inner) + rest =~= before + is + after);
        (before, after)
    }
}

/// Another offset for one entry gives another text, whatever the other
/// entries are.
pub proof fn lemma_offset_changes_text(listing: Seq<EntryView>, index: int, offset: u32)
    requires
        0 <= index < listing.len(),
        listing[index].variable.offset != offset,
    ensures
        listing_text(listing) != listing_text(
            listing.update(index, with_offset(listing[index], offset)),
        ),
{
    let changed = listing.update(index, with_offset(listing[index], offset));
    let (before, after) = lemma_text_around_offset(listing, index, offset);
    let was = decimal(listing[index].variable.offset as nat);
    let is = decimal(offset as nat);
    if was == is {
        lemma_decimal_injective(
            listing[index].variable.offset as nat,
            offset as nat,
        );
    }
    lemma_change_between(seq!['{'] + before, was, is, after + seq!['}']);
    assert(listing_text(listing) =~= seq!['{'] + before + was + (after + seq!['}']));
    assert(listing_text(changed) =~= seq!['{'] + before + is + (after + seq!['}']));
}

/// Two attribute maps that differ in the offset of one variable have
/// different canonical texts.
pub proof fn lemma_offset_changes_attribute_text(listing: Seq<EntryView>, index: int, offset: u32)
    requires
        ascending(listing),
        0 <= index < listing.len(),
        listing[index].variable.offset != offset,
    ensures
        attribute_text(listing_map(listing)) != attribute_text(
            listing_map(listing.update(index, with_offset(listing[index], offset))),
        ),
{
    let changed = listing.update(index, with_offset(listing[index], offset));
    assert forall|i: int, j: int| 0 <= i < j < changed.len() implies name_less(
        (#[trigger] changed[i]).name,
        (#[trigger] changed[j]).name,
    ) by {
        assert(changed[i].name == listing[i].name);
        assert(changed[j].name == listing[j].name);
    }
    lemma_ascending_names_distinct(listing);
    lemma_ascending_names_distinct(changed);
    lemma_listing_lists_its_map(listing);
    lemma_listing_lists_its_map(changed);
    lemma_ascending_listing_is_canonical(listing, listing_map(listing));
    lemma_ascending_listing_is_canonical(changed, listing_map(changed));
    lemma_offset_changes_text(listing, index, offset);
}

/// Calls `core::str::from_utf8`. Believed, not proved: it succeeds on valid
/// UTF-8 and on nothing else, and the text that it returns has the given
/// bytes as its UTF-8 form.
#[verifier::external_body]
pub(crate) fn utf8_text(bytes: &[u8]) -> (text: Result<&str, core::str::Utf8Error>)
    ensures
        text is Ok <==> valid_utf8(bytes@),
        text matches Ok(decoded) ==> encode_utf8(decoded@) == bytes@,
{
    core::str::from_utf8(bytes)
}

/// Appends a variable as a JSON object.
pub fn push_variable(out: &mut String, variable: &Variable)
    ensures
        final(out)@ == old(out)@ + variable_text(variable@),
{
    out.append("{\"size\":");
    push_decimal(out, variable.size);
    out.append(",\"offset\":");
    push_decimal(out, variable.offset);
    out.append(",\"default_value\":");
    push_byte_array(out, variable.default_value.as_slice());
    out.append("}");
    assert(out@ =~= old(out)@ + variable_text(variable@));
}

/// The entries in the order given as one JSON object, if every name is text.
pub fn write_listing(listing: &Vec<NamedVariable>) -> (text: Result<String, SerializationFailure>)
    ensures
        text is Ok <==> names_are_text(entry_views(listing@)),
        text matches Ok(written) ==> written@ == listing_text(entry_views(listing@)),
{
    let ghost views = entry_views(listing@);
    let mut out = String::new();
    proof {
        reveal_strlit("{");
        reveal_strlit("}");
    }
    out.append("{");
    let mut index: usize = 0;
    assert(out@ =~= seq!['{'] + entries_text(views.take(0)));
    while index < listing.len()
        invariant
            index <= listing.len(),
            views == entry_views(listing@),
            forall|k: int| 0 <= k < index ==> valid_utf8((#[trigger] views[k]).name),
            out@ == seq!['{'] + entries_text(views.take(index as int)),
        decreases listing.len() - index,
    {
        let entry = &listing[index];
        assert(views[index as int] == entry@);
        let name = match utf8_text(entry.name.as_slice()) {
            Ok(name) => name,
            Err(_) => {
                assert(!valid_utf8(views[index as int].name));
                return Err(SerializationFailure::NameNotUtf8);
            },
        };
        proof {
            vstd::utf8::encode_utf8_decode_utf8(name@);
            assert(name@ == decode_utf8(entry.name@));
        }
        let quoted = match json_quote(name) {
            Ok(quoted) => quoted,
            Err(_) => {
                return Err(SerializationFailure::NameNotUtf8);
            },
        };
        let ghost before = out@;
        if index > 0 {
            proof {
                reveal_strlit(",");
            }
            out.append(",");
        }
        out.append(quoted.as_str());
        proof {
            reveal_strlit(":");
        }
        out.append(":");
        push_variable(&mut out, &entry.variable);
        proof {
            let shorter = views.take(index as int);
            let longer = views.take(index + 1);
            assert(longer.drop_last() =~= shorter);
            assert(longer.last() == views[index as int]);
            let added = entry_text(views[index as int]);
            if index == 0 {
                assert(entries_text(shorter) =~= Seq::empty());
                assert(entries_text(longer) == added);
                assert(out@ =~= before + added);
            } else {
                assert(entries_text(longer) == entries_text(shorter) + seq![','] + added);
                assert(out@ =~= before + seq![','] + added);
            }
            assert(out@ =~= seq!['{'] + entries_text(longer));
        }
        index += 1;
    }
    assert(views.take(index as int) =~= views);
    out.append("}");
    assert(out@ =~= listing_text(views));
    Ok(out)
}

} // verus!
