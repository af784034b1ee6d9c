//! The generic repository: from five identifying fields to the place of an
//! entry below the cache root.
//!
//! The repository decides where an entry lives and what a read means. The
//! caller owns the filesystem: it writes what a [`WriteRequest`] names and
//! reports what a read gave as a [`ReadOutcome`].

use crate::digest::{sha256, sha256_digest};
use crate::hex::{
    hex_encode, hex_lower, is_hex_char, lemma_hex_lower_injective, lemma_hex_lower_is_hex,
};
use std::path::PathBuf;
use vstd::prelude::*;
use vstd::slice::slice_to_vec;
use vstd::utf8::encode_utf8;

verus! {

/// `std::path::PathBuf`, carried through and never looked into.
#[verifier::external_type_specification]
#[verifier::external_body]
pub struct ExPathBuf(PathBuf);

/// The byte that separates the fields of a key, an ASCII colon.
pub const SEPARATOR: u8 = 0x3a;

/// The five fields that identify an entry. Two keys with the same fields are
/// the same key.
pub struct CacheKey {
    pub content_hash: Seq<char>,
    pub compiler_version: Seq<char>,
    pub toolchain_build_id: Seq<char>,
    pub device_id: Seq<u8>,
    pub auxiliary: Seq<u8>,
}

/// What is hashed for a key: the fields in order, text as UTF-8, a single
/// separator between neighbours and no length framing.
pub open spec fn key_bytes(key: CacheKey) -> Seq<u8> {
    encode_utf8(key.content_hash) + seq![SEPARATOR] + encode_utf8(key.compiler_version)
        + seq![SEPARATOR] + encode_utf8(key.toolchain_build_id) + seq![SEPARATOR] + key.device_id
        + seq![SEPARATOR] + key.auxiliary
}

/// The file name of an entry: the SHA-256 digest of the key bytes in
/// lowercase hexadecimal.
pub open spec fn entry_name(key: CacheKey) -> Seq<char> {
    hex_lower(sha256_digest(key_bytes(key)))
}

/// Where an entry lives below the cache root: a directory named by the first
/// two characters of the file name, and the file name.
pub struct LocationView {
    pub shard: Seq<char>,
    pub file_name: Seq<char>,
}

impl LocationView {
    /// Both names have the length of their kind and hold nothing but
    /// lowercase hexadecimal digits, so neither leads out of the cache root.
    pub open spec fn is_plain(self) -> bool {
        &&& self.shard.len() == 2
        &&& self.file_name.len() == 64
        &&& forall|i: int| 0 <= i < self.shard.len() ==> is_hex_char(#[trigger] self.shard[i])
        &&& forall|i: int|
            0 <= i < self.file_name.len() ==> is_hex_char(#[trigger] self.file_name[i])
    }
}

/// The place of the entry for `key`.
pub open spec fn location_of(key: CacheKey) -> LocationView {
    LocationView { shard: entry_name(key).subrange(0, 2), file_name: entry_name(key) }
}

/// Equal fields give the same place.
pub proof fn lemma_equal_keys_share_location(first: CacheKey, second: CacheKey)
    requires
        first.content_hash == second.content_hash,
        first.compiler_version == second.compiler_version,
        first.toolchain_build_id == second.toolchain_build_id,
        first.device_id == second.device_id,
        first.auxiliary == second.auxiliary,
    ensures
        key_bytes(first) == key_bytes(second),
        location_of(first) == location_of(second),
{
}

/// The number of fields in which two keys differ.
pub open spec fn differing_fields(first: CacheKey, second: CacheKey) -> int {
    (if first.content_hash == second.content_hash { 0int } else { 1 })
        + (if first.compiler_version == second.compiler_version { 0int } else { 1 })
        + (if first.toolchain_build_id == second.toolchain_build_id { 0int } else { 1 })
        + (if first.device_id == second.device_id { 0int } else { 1 })
        + (if first.auxiliary == second.auxiliary { 0int } else { 1 })
}

/// A change to a single field changes what is hashed. With two or more
/// fields changed this can fail: the fields are not length-framed, so bytes
/// may move across a separator.
pub proof fn lemma_single_field_change_changes_key_bytes(first: CacheKey, second: CacheKey)
    requires
        differing_fields(first, second) == 1,
    ensures
        key_bytes(first) != key_bytes(second),
{
    let sep = seq![SEPARATOR];
    let h1 = encode_utf8(first.content_hash);
    let h2 = encode_utf8(second.content_hash);
    let c1 = encode_utf8(first.compiler_version);
    let c2 = encode_utf8(second.compiler_version);
    let g1 = encode_utf8(first.toolchain_build_id);
    let g2 = encode_utf8(second.toolchain_build_id);
    let d1 = first.device_id;
    let d2 = second.device_id;
    let a1 = first.auxiliary;
    let a2 = second.auxiliary;
    let empty = Seq::<u8>::empty();
    if first.content_hash != second.content_hash {
        lemma_utf8_injective(first.content_hash, second.content_hash);
        let suffix = sep + c1 + sep + g1 + sep + d1 + sep + a1;
        assert(key_bytes(first) =~= empty + h1 + suffix);
        assert(key_bytes(second) =~= empty + h2 + suffix);
        lemma_change_between(empty, h1, h2, suffix);
    } else if first.compiler_version != second.compiler_version {
        lemma_utf8_injective(first.compiler_version, second.compiler_version);
        let prefix = h1 + sep;
        let suffix = sep + g1 + sep + d1 + sep + a1;
        assert(key_bytes(first) =~= prefix + c1 + suffix);
        assert(key_bytes(second) =~= prefix + c2 + suffix);
        lemma_change_between(prefix, c1, c2, suffix);
    } else if first.toolchain_build_id != second.toolchain_build_id {
        lemma_utf8_injective(first.toolchain_build_id, second.toolchain_build_id);
        let prefix = h1 + sep + c1 + sep;
        let suffix = sep + d1 + sep + a1;
        assert(key_bytes(first) =~= prefix + g1 + suffix);
        assert(key_bytes(second) =~= prefix + g2 + suffix);
        lemma_change_between(prefix, g1, g2, suffix);
    } else if first.device_id != second.device_id {
        let prefix = h1 + sep + c1 + sep + g1 + sep;
        let suffix = sep + a1;
        assert(key_bytes(first) =~= prefix + d1 + suffix);
        assert(key_bytes(second) =~= prefix + d2 + suffix);
        lemma_change_between(prefix, d1, d2, suffix);
    } else {
        let prefix = h1 + sep + c1 + sep + g1 + sep + d1 + sep;
        assert(key_bytes(first) =~= prefix + a1 + empty);
        assert(key_bytes(second) =~= prefix + a2 + empty);
        lemma_change_between(prefix, a1, a2, empty);
    }
}

/// Keys whose digests differ live in different files.
pub proof fn lemma_distinct_digests_distinct_locations(first: CacheKey, second: CacheKey)
    requires
        sha256_digest(key_bytes(first)) != sha256_digest(key_bytes(second)),
    ensures
        location_of(first).file_name != location_of(second).file_name,
        location_of(first) != location_of(second),
{
    if entry_name(first) == entry_name(second) {
        lemma_hex_lower_injective(
            sha256_digest(key_bytes(first)),
            sha256_digest(key_bytes(second)),
        );
    }
}

/// Different text has different UTF-8 bytes.
pub proof fn lemma_utf8_injective(first: Seq<char>, second: Seq<char>)
    requires
        first != second,
    ensures
        encode_utf8(first) != encode_utf8(second),
{
    vstd::utf8::encode_utf8_decode_utf8(first);
    vstd::utf8::encode_utf8_decode_utf8(second);
}

/// Replacing the middle of a sequence by something else changes the sequence.
pub proof fn lemma_change_between<A>(prefix: Seq<A>, first: Seq<A>, second: Seq<A>, suffix: Seq<A>)
    requires
        first != second,
    ensures
        prefix + first + suffix != prefix + second + suffix,
{
    let left = prefix + first + suffix;
    let right = prefix + second + suffix;
    if left == right {
        assert(left.len() == right.len());
        assert(first.len() == second.len());
        assert forall|i: int| 0 <= i < first.len() implies first[i] == second[i] by {
            assert(left[prefix.len() + i] == first[i]);
            assert(right[prefix.len() + i] == second[i]);
        }
        assert(first =~= second);
    }
}

/// Where an entry lives below the cache root.
#[derive(Clone, Debug, PartialEq, Eq)]
pub struct EntryLocation {
    pub shard: String,
    pub file_name: String,
}

impl View for EntryLocation {
    type V = LocationView;

    open spec fn view(&self) -> LocationView {
        LocationView { shard: self.shard@, file_name: self.file_name@ }
    }
}

impl EntryLocation {
    /// The place of the entry whose key has this digest: the file is named by
    /// the digest in lowercase hexadecimal, its directory by the first two
    /// characters of that name.
    pub fn for_digest(digest: &[u8; 32]) -> (location: EntryLocation)
        ensures
            location.file_name@ == hex_lower(digest@),
            location.shard@ == hex_lower(digest@).subrange(0, 2),
            location@.is_plain(),
    {
        proof {
            lemma_hex_lower_is_hex(digest@);
        }
        let file_name = hex_encode(digest);
        assert(file_name@.len() == 64);
        let shard = file_name.as_str().substring_char(0, 2).to_owned();
        EntryLocation { shard, file_name }
    }
}

/// A file to create, with everything in it. Its directory is to be created
/// first if it is missing.
#[derive(Clone, Debug, PartialEq, Eq)]
pub struct WriteRequest {
    pub location: EntryLocation,
    pub contents: Vec<u8>,
}

/// Why the filesystem refused an operation.
#[derive(Clone, Copy, Debug, PartialEq, Eq, Structural)]
pub enum IoFailure {
    PermissionDenied,
    IsADirectory,
    InvalidPath,
    Storage,
    Other,
}

/// What reading a location gave.
#[derive(Clone, Debug, PartialEq, Eq)]
pub enum ReadOutcome {
    /// The file was there; these are its bytes.
    Found(Vec<u8>),
    /// No file is there.
    NotFound,
    /// The read failed for another reason.
    Failed(IoFailure),
}

/// What a load returns for each outcome of the read. A missing file is a
/// miss, not an error; every other failure is handed on.
pub open spec fn load_result(outcome: ReadOutcome) -> Result<Option<Vec<u8>>, IoFailure> {
    match outcome {
        ReadOutcome::Found(binary) => Ok(Some(binary)),
        ReadOutcome::NotFound => Ok(None),
        ReadOutcome::Failed(failure) => Err(failure),
    }
}

/// What a load of a specialised cache returns for each outcome of the read:
/// the bytes of the file if it was there, a miss on everything else.
pub open spec fn hit_or_miss(outcome: ReadOutcome) -> Option<Vec<u8>> {
    match load_result(outcome) {
        Ok(binary) => binary,
        Err(_) => None,
    }
}

pub struct KernelRepository {
    cache_path: PathBuf,
}

impl KernelRepository {
    /// The root directory that the repository was made with.
    pub closed spec fn root(&self) -> PathBuf {
        self.cache_path
    }

    pub fn new(cache_path: PathBuf) -> (repository: Self)
        ensures
            repository.root() == cache_path,
    {
        Self { cache_path }
    }

    pub fn cache_path(&self) -> (root: &PathBuf)
        ensures
            *root == self.root(),
    {
        &self.cache_path
    }

    /// What is hashed for the five fields: see [`key_bytes`]. `device` holds
    /// the bytes of the name of the device, without a terminator.
    pub fn key_input(
        hash: &str,
        compiler_version: &str,
        git_hash: &str,
        device: &[u8],
        additional_parameters: &[u8],
    ) -> (input: Vec<u8>)
        ensures
            input@ == key_bytes(
                CacheKey {
                    content_hash: hash@,
                    compiler_version: compiler_version@,
                    toolchain_build_id: git_hash@,
                    device_id: device@,
                    auxiliary: additional_parameters@,
                },
            ),
    {
        let mut input: Vec<u8> = Vec::new();
        input.extend_from_slice(hash.as_bytes());
        input.push(SEPARATOR);
        input.extend_from_slice(compiler_version.as_bytes());
        input.push(SEPARATOR);
        input.extend_from_slice(git_hash.as_bytes());
        input.push(SEPARATOR);
        input.extend_from_slice(device);
        input.push(SEPARATOR);
        input.extend_from_slice(additional_parameters);
        assert(input@ =~= key_bytes(
            CacheKey {
                content_hash: hash@,
                compiler_version: compiler_version@,
                toolchain_build_id: git_hash@,
                device_id: device@,
                auxiliary: additional_parameters@,
            },
        ));
        input
    }

    /// The place of an entry. It depends on the five fields alone, not on the
    /// root and not on what is stored.
    pub fn locate(
        hash: &str,
        compiler_version: &str,
        git_hash: &str,
        device: &[u8],
        additional_parameters: &[u8],
    ) -> (location: EntryLocation)
        ensures
            location@ == location_of(
                CacheKey {
                    content_hash: hash@,
                    compiler_version: compiler_version@,
                    toolchain_build_id: git_hash@,
                    device_id: device@,
                    auxiliary: additional_parameters@,
                },
            ),
            location@.is_plain(),
    {
        let input = Self::key_input(
            hash,
            compiler_version,
            git_hash,
            device,
            additional_parameters,
        );
        let digest = sha256(input.as_slice());
        EntryLocation::for_digest(&digest)
    }

    /// What has to be written to save `binary` under the five fields.
    pub fn save_program(
        &self,
        hash: &str,
        compiler_version: &str,
        git_hash: &str,
        device: &[u8],
        binary: &[u8],
        additional_parameters: &[u8],
    ) -> (request: WriteRequest)
        ensures
            request.location@ == location_of(
                CacheKey {
                    content_hash: hash@,
                    compiler_version: compiler_version@,
                    toolchain_build_id: git_hash@,
                    device_id: device@,
                    auxiliary: additional_parameters@,
                },
            ),
            request.contents@ == binary@,
            request.location@.is_plain(),
    {
        let location = Self::locate(
            hash,
            compiler_version,
            git_hash,
            device,
            additional_parameters,
        );
        WriteRequest { location, contents: slice_to_vec(binary) }
    }

    /// Where the entry for the five fields has to be read from.
    pub fn try_load_program(
        &self,
        hash: &str,
        compiler_version: &str,
        git_hash: &str,
        device: &[u8],
        additional_parameters: &[u8],
    ) -> (location: EntryLocation)
        ensures
            location@ == location_of(
                CacheKey {
                    content_hash: hash@,
                    compiler_version: compiler_version@,
                    toolchain_build_id: git_hash@,
                    device_id: device@,
                    auxiliary: additional_parameters@,
                },
            ),
            location@.is_plain(),
    {
        Self::locate(hash, compiler_version, git_hash, device, additional_parameters)
    }

    /// What a load returns once the read has been made.
    pub fn loaded(outcome: ReadOutcome) -> (result: Result<Option<Vec<u8>>, IoFailure>)
        ensures
            result == load_result(outcome),
    {
        match outcome {
            ReadOutcome::Found(binary) => Ok(Some(binary)),
            ReadOutcome::NotFound => Ok(None),
            ReadOutcome::Failed(failure) => Err(failure),
        }
    }
}

} // verus!
