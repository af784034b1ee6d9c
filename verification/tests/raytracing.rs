use kernel_cache::attributes::{SerializationFailure, Variable, VariablesBlock};
use kernel_cache::raytracing::{KernelCache, KernelRepository};
use kernel_cache::repository::{EntryLocation, IoFailure, ReadOutcome, WriteRequest};
use rustc_hash::FxHashMap;
use sha2::{Digest, Sha512};
use std::collections::HashMap;
use std::path::PathBuf;

struct ProgramRoot {
    files: HashMap<(String, String), Vec<u8>>,
}

impl ProgramRoot {
    fn empty() -> Self {
        ProgramRoot { files: HashMap::new() }
    }

    fn write(&mut self, request: WriteRequest) {
        let place = (request.location.shard, request.location.file_name);
        self.files.insert(place, request.contents);
    }

    fn read(&self, location: EntryLocation) -> ReadOutcome {
        match self.files.get(&(location.shard, location.file_name)) {
            Some(contents) => ReadOutcome::Found(contents.clone()),
            None => ReadOutcome::NotFound,
        }
    }
}

fn program_cache() -> KernelCache {
    KernelCache::new(PathBuf::from("cache-root"), String::from("0123abcd")).unwrap()
}

fn block(entries: &[(&[u8], u32, u32)]) -> VariablesBlock {
    let mut variables: FxHashMap<Vec<u8>, Variable> = FxHashMap::default();
    for (name, size, offset) in entries {
        variables.insert(
            name.to_vec(),
            Variable { size: *size, offset: *offset, default_value: Vec::new() },
        );
    }
    VariablesBlock { variables }
}

#[test]
fn program_repository_is_always_made() {
    let repository = KernelRepository::new(PathBuf::from("x/y"));
    assert!(repository.is_ok());
    assert_eq!(repository.ok().unwrap().cache_path(), &PathBuf::from("x/y"));
}

#[test]
fn program_cache_is_always_made() {
    let cache = KernelCache::new(PathBuf::from("x/y"), String::from("rev"));
    assert!(cache.is_some());
    assert_eq!(cache.unwrap().cache_path(), &PathBuf::from("x/y"));
}

#[test]
fn auxiliary_joins_name_attributes_and_version() {
    assert_eq!(KernelRepository::auxiliary(b"start", "{TEST}", "1.2"), b"start:{TEST}:1.2");
    assert_eq!(KernelRepository::auxiliary(b"", "", ""), b"::");
    assert_eq!(
        KernelRepository::auxiliary(&[0xff], "\u{e9}", "v"),
        vec![0xff, b':', 0xc3, 0xa9, b':', b'v']
    );
}

#[test]
fn program_repository_hashes_the_auxiliary_as_fifth_field() {
    let mut repository = KernelRepository::new(PathBuf::from("root")).ok().unwrap();
    let location = repository.try_load_program(
        b"start",
        "FFFF",
        "Clang 15",
        "EEEE",
        b"gfx1030",
        "{TEST}",
        "1.2",
    );
    let expected = kernel_cache::repository::KernelRepository::locate(
        "FFFF",
        "Clang 15",
        "EEEE",
        b"gfx1030",
        b"start:{TEST}:1.2",
    );
    assert_eq!(location.file_name, expected.file_name);
    assert_eq!(location.shard, expected.shard);
}

#[test]
fn kernel_insert_select() {
    let mut root = ProgramRoot::empty();
    let mut repository = KernelRepository::new(PathBuf::from("root")).ok().unwrap();
    let input_attributes = "{TEST}";
    let request = repository.save_program(
        b"start",
        "FFFF",
        "Clang 15",
        "EEEE",
        b"gfx1030",
        &[0x11, 0x12, 0x13, 0x14],
        input_attributes,
        "1.2",
    );
    root.write(request);
    let location = repository.try_load_program(
        b"start",
        "FFFF",
        "Clang 15",
        "EEEE",
        b"gfx1030",
        input_attributes,
        "1.2",
    );
    let binary = kernel_cache::repository::KernelRepository::loaded(root.read(location))
        .unwrap()
        .unwrap();
    assert_eq!(binary, vec![0x11, 0x12, 0x13, 0x14]);
}

#[test]
fn source_hash_is_the_sha512_of_the_source() {
    assert_eq!(
        KernelCache::source_hash("..."),
        "3a8fb4b09bfb7b454177b044ed4854f4a2c3c18f5d6ef28be875f58d064ac960\
         7cc8b11dc23e93a7a5f187ac277534e05658add66604b3bc03c6b76f8476925c"
    );
}

#[test]
fn source_hash_agrees_with_the_hashing_crate() {
    let source = ".version 7.0\n.target sm_60\n// gr\u{fc}n\n";
    let mut hasher = Sha512::new();
    hasher.update(source);
    let expected = data_encoding::HEXLOWER.encode(&hasher.finalize()[..]);
    assert_eq!(KernelCache::source_hash(source), expected);
    assert_eq!(KernelCache::source_hash(source).len(), 128);
}

#[test]
fn one_bit_of_source_changes_the_source_hash() {
    assert_ne!(KernelCache::source_hash("ray a"), KernelCache::source_hash("ray c"));
}

#[test]
fn program_location_is_the_repository_location_of_the_program_key() {
    let mut cache = program_cache();
    let attributes = block(&[(b"origin", 12, 0), (b"dir", 12, 12)]);
    let location = cache
        .try_load_program("c17", "2.1", b"gfx1030", b"trace_primary", "...", &attributes)
        .unwrap();
    let text = "{\"dir\":{\"size\":12,\"offset\":12,\"default_value\":[]},\
                \"origin\":{\"size\":12,\"offset\":0,\"default_value\":[]}}";
    let auxiliary = format!("trace_primary:{}:2.1", text);
    let expected = kernel_cache::repository::KernelRepository::locate(
        &KernelCache::source_hash("..."),
        "c17",
        "0123abcd",
        b"gfx1030",
        auxiliary.as_bytes(),
    );
    assert_eq!(location.file_name, expected.file_name);
    assert_eq!(location.shard, expected.shard);
}

#[test]
fn program_saved_is_loaded_with_attributes_in_reverse_order() {
    let mut root = ProgramRoot::empty();
    let mut cache = program_cache();
    let mut saved: FxHashMap<Vec<u8>, Variable> = FxHashMap::default();
    saved.insert(b"origin".to_vec(), Variable { size: 12, offset: 0, default_value: vec![] });
    saved.insert(b"dir".to_vec(), Variable { size: 12, offset: 12, default_value: vec![] });
    let request = cache
        .save_program(
            "c17",
            "2.1",
            b"gfx1030",
            b"trace_primary",
            "...",
            &[0xde, 0xad],
            &VariablesBlock { variables: saved },
        )
        .unwrap();
    root.write(request);
    let mut asked: FxHashMap<Vec<u8>, Variable> = FxHashMap::default();
    asked.insert(b"dir".to_vec(), Variable { size: 12, offset: 12, default_value: vec![] });
    asked.insert(b"origin".to_vec(), Variable { size: 12, offset: 0, default_value: vec![] });
    let asked = VariablesBlock { variables: asked };
    let location = cache
        .try_load_program("c17", "2.1", b"gfx1030", b"trace_primary", "...", &asked)
        .unwrap();
    let (binary, attributes) = KernelCache::loaded(root.read(location), asked).unwrap();
    assert_eq!(binary, vec![0xde, 0xad]);
    assert_eq!(attributes.variables.len(), 2);
    assert_eq!(attributes.variables[&b"dir".to_vec()].offset, 12);
}

#[test]
fn one_offset_changes_the_program_location() {
    let mut cache = program_cache();
    let first = block(&[(b"origin", 12, 0), (b"dir", 12, 12)]);
    let second = block(&[(b"origin", 12, 0), (b"dir", 12, 16)]);
    let here = cache.try_load_program("c", "v", b"d", b"p", "...", &first).unwrap();
    let there = cache.try_load_program("c", "v", b"d", b"p", "...", &second).unwrap();
    assert_ne!(here.file_name, there.file_name);
}

#[test]
fn program_name_version_and_source_reach_the_location() {
    let mut cache = program_cache();
    let attributes = block(&[(b"origin", 12, 0)]);
    let base = cache.try_load_program("c", "v", b"d", b"p", "...", &attributes).unwrap();
    let name = cache.try_load_program("c", "v", b"d", b"q", "...", &attributes).unwrap();
    let version = cache.try_load_program("c", "w", b"d", b"p", "...", &attributes).unwrap();
    let source = cache.try_load_program("c", "v", b"d", b"p", "..", &attributes).unwrap();
    let device = cache.try_load_program("c", "v", b"e", b"p", "...", &attributes).unwrap();
    assert_ne!(base.file_name, name.file_name);
    assert_ne!(base.file_name, version.file_name);
    assert_ne!(base.file_name, source.file_name);
    assert_ne!(base.file_name, device.file_name);
}

#[test]
fn load_with_other_attributes_misses() {
    let mut root = ProgramRoot::empty();
    let mut cache = program_cache();
    let saved = block(&[(b"origin", 12, 0), (b"dir", 12, 12)]);
    root.write(cache.save_program("c", "v", b"d", b"p", "...", &[1], &saved).unwrap());
    let fewer = block(&[(b"origin", 12, 0)]);
    let location = cache.try_load_program("c", "v", b"d", b"p", "...", &fewer).unwrap();
    assert!(KernelCache::loaded(root.read(location), fewer).is_none());
}

#[test]
fn program_load_on_empty_root_misses() {
    let root = ProgramRoot::empty();
    let mut cache = program_cache();
    let attributes = block(&[]);
    let location = cache.try_load_program("c", "v", b"d", b"p", "...", &attributes).unwrap();
    assert!(KernelCache::loaded(root.read(location), attributes).is_none());
}

#[test]
fn failed_program_read_degrades_to_a_miss() {
    assert!(KernelCache::loaded(ReadOutcome::Failed(IoFailure::Other), block(&[])).is_none());
    assert!(KernelCache::loaded(ReadOutcome::NotFound, block(&[])).is_none());
}

#[test]
fn a_name_that_is_not_text_drops_the_save_and_misses_the_load() {
    let mut cache = program_cache();
    let attributes = block(&[(b"origin", 12, 0), (&[0xff, 0xfe], 4, 12)]);
    let saved = cache.save_program("c", "v", b"d", b"p", "...", &[1], &attributes);
    assert_eq!(saved.err(), Some(SerializationFailure::NameNotUtf8));
    let asked = cache.try_load_program("c", "v", b"d", b"p", "...", &attributes);
    assert_eq!(asked.err(), Some(SerializationFailure::NameNotUtf8));
    assert_eq!(
        KernelCache::serialize_input_attributes(&attributes.variables),
        Err(SerializationFailure::NameNotUtf8)
    );
}

#[test]
fn attributes_serialize_to_sorted_json() {
    let attributes = block(&[(b"origin", 12, 0), (b"dir", 12, 12)]);
    assert_eq!(
        KernelCache::serialize_input_attributes(&attributes.variables),
        Ok(String::from(
            "{\"dir\":{\"size\":12,\"offset\":12,\"default_value\":[]},\
             \"origin\":{\"size\":12,\"offset\":0,\"default_value\":[]}}"
        ))
    );
}
