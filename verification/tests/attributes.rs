use kernel_cache::attributes::{
    serialize_entries, serialize_variables, NamedVariable, SerializationFailure, Variable,
};
use kernel_cache::canonical_text::{push_variable, write_listing};
use kernel_cache::json::{push_byte_array, push_decimal};
use kernel_cache::listing::sort_by_name;
use kernel_cache::names::name_precedes;
use rustc_hash::FxHashMap;

fn variable(size: u32, offset: u32, default_value: &[u8]) -> Variable {
    Variable { size, offset, default_value: default_value.to_vec() }
}

fn entry(name: &[u8], size: u32, offset: u32, default_value: &[u8]) -> NamedVariable {
    NamedVariable { name: name.to_vec(), variable: variable(size, offset, default_value) }
}

fn names(entries: &[NamedVariable]) -> Vec<Vec<u8>> {
    entries.iter().map(|entry| entry.name.clone()).collect()
}

#[test]
fn decimal_has_no_padding() {
    let mut out = String::from(">");
    push_decimal(&mut out, 0);
    out.push(' ');
    push_decimal(&mut out, 7);
    out.push(' ');
    push_decimal(&mut out, 10);
    out.push(' ');
    push_decimal(&mut out, 1203);
    out.push(' ');
    push_decimal(&mut out, u32::MAX);
    assert_eq!(out, ">0 7 10 1203 4294967295");
}

#[test]
fn byte_array_is_a_list_of_numbers() {
    let mut out = String::new();
    push_byte_array(&mut out, &[]);
    push_byte_array(&mut out, &[0]);
    push_byte_array(&mut out, &[1, 20, 255]);
    assert_eq!(out, "[][0][1,20,255]");
}

#[test]
fn byte_array_agrees_with_the_json_crate() {
    let bytes: Vec<u8> = (0..=255).collect();
    let mut out = String::new();
    push_byte_array(&mut out, &bytes);
    assert_eq!(out, serde_json::to_string(&bytes).unwrap());
}

#[test]
fn variable_is_an_object_of_three_fields() {
    let mut out = String::from("=");
    push_variable(&mut out, &variable(12, 4, &[9, 8]));
    assert_eq!(out, "={\"size\":12,\"offset\":4,\"default_value\":[9,8]}");
}

#[test]
fn names_are_ordered_byte_by_byte() {
    assert!(name_precedes(b"a", b"b"));
    assert!(!name_precedes(b"b", b"a"));
    assert!(name_precedes(b"B", b"a"));
    assert!(name_precedes(b"ab", b"ac"));
    assert!(name_precedes(b"ab", b"b"));
    assert!(name_precedes(&[0x7f], &[0x80]));
}

#[test]
fn a_name_precedes_what_it_is_a_prefix_of() {
    assert!(name_precedes(b"", b"a"));
    assert!(name_precedes(b"a", b"ab"));
    assert!(!name_precedes(b"ab", b"a"));
}

#[test]
fn no_name_precedes_itself() {
    assert!(!name_precedes(b"", b""));
    assert!(!name_precedes(b"dir", b"dir"));
}

#[test]
fn name_order_is_the_order_of_byte_strings() {
    let samples: [&[u8]; 7] = [b"", b"a", b"ab", b"b", b"B", &[0xff], &[0x00, 0x01]];
    for first in samples {
        for second in samples {
            assert_eq!(name_precedes(first, second), first < second);
        }
    }
}

#[test]
fn sort_puts_names_in_ascending_order() {
    let sorted = sort_by_name(vec![
        entry(b"origin", 12, 0, &[]),
        entry(b"dir", 12, 12, &[]),
        entry(b"tmax", 4, 28, &[1]),
        entry(b"d", 4, 24, &[]),
    ]);
    assert_eq!(
        names(&sorted),
        vec![b"d".to_vec(), b"dir".to_vec(), b"origin".to_vec(), b"tmax".to_vec()]
    );
    assert_eq!(sorted[3].variable, variable(4, 28, &[1]));
    assert_eq!(sorted[1].variable, variable(12, 12, &[]));
}

#[test]
fn sort_of_nothing_is_nothing() {
    assert!(sort_by_name(Vec::new()).is_empty());
}

#[test]
fn listing_is_written_in_the_order_given() {
    let listing = vec![entry(b"z", 1, 2, &[3]), entry(b"a", 4, 5, &[])];
    assert_eq!(
        write_listing(&listing),
        Ok(String::from(
            "{\"z\":{\"size\":1,\"offset\":2,\"default_value\":[3]},\
             \"a\":{\"size\":4,\"offset\":5,\"default_value\":[]}}"
        ))
    );
}

#[test]
fn empty_map_is_an_empty_object() {
    assert_eq!(serialize_entries(Vec::new()), Ok(String::from("{}")));
    assert_eq!(serialize_variables(&FxHashMap::default()), Ok(String::from("{}")));
}

#[test]
fn single_entry_has_no_comma() {
    let text = serialize_entries(vec![entry(b"origin", 12, 0, &[])]);
    assert_eq!(
        text,
        Ok(String::from("{\"origin\":{\"size\":12,\"offset\":0,\"default_value\":[]}}"))
    );
}

#[test]
fn entries_are_written_by_ascending_name() {
    let text = serialize_entries(vec![entry(b"origin", 12, 0, &[]), entry(b"dir", 12, 12, &[])]);
    assert_eq!(
        text,
        Ok(String::from(
            "{\"dir\":{\"size\":12,\"offset\":12,\"default_value\":[]},\
             \"origin\":{\"size\":12,\"offset\":0,\"default_value\":[]}}"
        ))
    );
}

#[test]
fn listing_order_does_not_reach_the_text() {
    let forward = serialize_entries(vec![
        entry(b"a", 1, 0, &[1]),
        entry(b"b", 2, 4, &[2, 2]),
        entry(b"c", 3, 8, &[]),
    ]);
    let backward = serialize_entries(vec![
        entry(b"c", 3, 8, &[]),
        entry(b"b", 2, 4, &[2, 2]),
        entry(b"a", 1, 0, &[1]),
    ]);
    let mixed = serialize_entries(vec![
        entry(b"b", 2, 4, &[2, 2]),
        entry(b"c", 3, 8, &[]),
        entry(b"a", 1, 0, &[1]),
    ]);
    assert!(forward.is_ok());
    assert_eq!(forward, backward);
    assert_eq!(forward, mixed);
}

#[test]
fn insertion_order_does_not_reach_the_text() {
    let mut forward: FxHashMap<Vec<u8>, Variable> = FxHashMap::default();
    forward.insert(b"origin".to_vec(), variable(12, 0, &[]));
    forward.insert(b"dir".to_vec(), variable(12, 12, &[]));
    let mut backward: FxHashMap<Vec<u8>, Variable> = FxHashMap::default();
    backward.insert(b"dir".to_vec(), variable(12, 12, &[]));
    backward.insert(b"origin".to_vec(), variable(12, 0, &[]));
    let expected = "{\"dir\":{\"size\":12,\"offset\":12,\"default_value\":[]},\
                    \"origin\":{\"size\":12,\"offset\":0,\"default_value\":[]}}";
    assert_eq!(serialize_variables(&forward), Ok(String::from(expected)));
    assert_eq!(serialize_variables(&backward), Ok(String::from(expected)));
}

#[test]
fn many_entries_come_out_sorted_whatever_the_map_does() {
    let mut ascending: FxHashMap<Vec<u8>, Variable> = FxHashMap::default();
    let mut descending: FxHashMap<Vec<u8>, Variable> = FxHashMap::default();
    for number in 0..40u32 {
        let name = format!("var{:02}", number).into_bytes();
        ascending.insert(name, variable(number, 4 * number, &[number as u8]));
    }
    for number in (0..40u32).rev() {
        let name = format!("var{:02}", number).into_bytes();
        descending.insert(name, variable(number, 4 * number, &[number as u8]));
    }
    let text = serialize_variables(&ascending).unwrap();
    assert_eq!(serialize_variables(&descending).unwrap(), text);
    let mut expected = String::from("{");
    for number in 0..40u32 {
        if number > 0 {
            expected.push(',');
        }
        expected.push_str(&format!(
            "\"var{:02}\":{{\"size\":{},\"offset\":{},\"default_value\":[{}]}}",
            number,
            number,
            4 * number,
            number
        ));
    }
    expected.push('}');
    assert_eq!(text, expected);
}

#[test]
fn text_is_json_with_the_fields_of_each_variable() {
    let mut variables: FxHashMap<Vec<u8>, Variable> = FxHashMap::default();
    variables.insert(b"origin".to_vec(), variable(12, 0, &[0, 0, 128, 63]));
    variables.insert(b"dir".to_vec(), variable(12, 12, &[]));
    let text = serialize_variables(&variables).unwrap();
    let parsed: serde_json::Value = serde_json::from_str(&text).unwrap();
    let object = parsed.as_object().unwrap();
    assert_eq!(object.len(), 2);
    assert_eq!(parsed["origin"]["size"].as_u64(), Some(12));
    assert_eq!(parsed["origin"]["offset"].as_u64(), Some(0));
    assert_eq!(parsed["origin"]["default_value"].as_array().unwrap().len(), 4);
    assert_eq!(parsed["origin"]["default_value"][2].as_u64(), Some(128));
    assert_eq!(parsed["dir"]["offset"].as_u64(), Some(12));
    assert_eq!(parsed["dir"]["default_value"].as_array().unwrap().len(), 0);
}

#[test]
fn default_value_is_written_as_numbers() {
    let text = serialize_entries(vec![entry(b"v", 3, 9, &[0, 7, 255])]);
    assert_eq!(
        text,
        Ok(String::from("{\"v\":{\"size\":3,\"offset\":9,\"default_value\":[0,7,255]}}"))
    );
}

#[test]
fn largest_size_and_offset_are_written_in_full() {
    let text = serialize_entries(vec![entry(b"v", u32::MAX, u32::MAX, &[])]);
    assert_eq!(
        text,
        Ok(String::from(
            "{\"v\":{\"size\":4294967295,\"offset\":4294967295,\"default_value\":[]}}"
        ))
    );
}

#[test]
fn names_are_escaped_as_json_strings() {
    let text = serialize_entries(vec![entry(b"a\"b\\c\n\t\r\x08\x0c\x01\x1f /\x7f", 0, 0, &[])]);
    assert_eq!(
        text,
        Ok(String::from(
            "{\"a\\\"b\\\\c\\n\\t\\r\\b\\f\\u0001\\u001f /\u{7f}\":\
             {\"size\":0,\"offset\":0,\"default_value\":[]}}"
        ))
    );
}

#[test]
fn escaped_names_agree_with_the_json_crate() {
    let mut name = String::new();
    for code in 0..0x80u32 {
        name.push(char::from_u32(code).unwrap());
    }
    name.push('\u{e9}');
    name.push('\u{20ac}');
    name.push('\u{1f600}');
    let text = serialize_entries(vec![entry(name.as_bytes(), 1, 2, &[])]).unwrap();
    let expected = format!(
        "{{{}:{{\"size\":1,\"offset\":2,\"default_value\":[]}}}}",
        serde_json::to_string(&name).unwrap()
    );
    assert_eq!(text, expected);
    let parsed: serde_json::Value = serde_json::from_str(&text).unwrap();
    assert!(parsed.as_object().unwrap().contains_key(&name));
}

#[test]
fn names_beyond_ascii_are_kept() {
    let text = serialize_entries(vec![entry("gr\u{f6}\u{df}e".as_bytes(), 4, 0, &[])]);
    assert_eq!(
        text,
        Ok(String::from("{\"gr\u{f6}\u{df}e\":{\"size\":4,\"offset\":0,\"default_value\":[]}}"))
    );
}

#[test]
fn a_name_that_is_not_text_fails_the_whole_map() {
    let text =
        serialize_entries(vec![entry(b"fine", 1, 0, &[]), entry(&[0x66, 0xff, 0x6f], 1, 4, &[])]);
    assert_eq!(text, Err(SerializationFailure::NameNotUtf8));
    let mut variables: FxHashMap<Vec<u8>, Variable> = FxHashMap::default();
    variables.insert(b"fine".to_vec(), variable(1, 0, &[]));
    variables.insert(vec![0xc3], variable(1, 4, &[]));
    assert_eq!(serialize_variables(&variables), Err(SerializationFailure::NameNotUtf8));
}

#[test]
fn a_truncated_or_overlong_name_is_not_text() {
    for name in [vec![0xe2, 0x82], vec![0xc0, 0x80], vec![0xed, 0xa0, 0x80], vec![0x80]] {
        let listing = vec![NamedVariable { name, variable: variable(0, 0, &[]) }];
        assert_eq!(write_listing(&listing), Err(SerializationFailure::NameNotUtf8));
    }
}

#[test]
fn copy_of_an_entry_keeps_name_and_variable() {
    let name = b"origin".to_vec();
    let value = variable(12, 0, &[1, 2]);
    let copy = NamedVariable::copy_of(&name, &value);
    assert_eq!(copy.name, name);
    assert_eq!(copy.variable, value);
}
