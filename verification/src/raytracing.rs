//! The cache for ray-tracing programs: keyed by the source of the program,
//! the compiler, the build of the toolchain, the device, the name of the
//! program, its input variables and the version of the runtime library.

use crate::attributes::{
    attribute_map, serialize_variables, SerializationFailure, Variable, VariableView,
    VariablesBlock,
};
use crate::canonical_text::attribute_text;
use crate::digest::{sha512, sha512_digest};
use crate::hex::{hex_lower, hexlower_encode, lemma_hex_lower_injective};
use crate::repository::{
    hit_or_miss, key_bytes, lemma_change_between, lemma_single_field_change_changes_key_bytes,
    lemma_utf8_injective, location_of, CacheKey, EntryLocation, ReadOutcome, WriteRequest,
    SEPARATOR,
};
use rustc_hash::FxHashMap;
use std::path::PathBuf;
use vstd::prelude::*;
use vstd::utf8::{encode_utf8, valid_utf8};

verus! {

/// The auxiliary field of a program: its name, the text of its input
/// variables and the version of the runtime library, with a separator
/// between neighbours.
pub open spec fn program_auxiliary(
    program_name: Seq<u8>,
    input_attributes: Seq<char>,
    hiprt_version: Seq<char>,
) -> Seq<u8> {
    program_name + seq![SEPARATOR] + encode_utf8(input_attributes) + seq![SEPARATOR]
        + encode_utf8(hiprt_version)
}

/// The content hash of a program: the SHA-512 digest of its source in
/// lowercase hexadecimal.
pub open spec fn source_hash_of(ptx: Seq<char>) -> Seq<char> {
    hex_lower(sha512_digest(encode_utf8(ptx)))
}

/// The key of a program whose attribute map has the canonical text
/// `input_attributes`.
pub open spec fn program_key(
    toolchain_build_id: Seq<char>,
    compiler_version: Seq<char>,
    hiprt_version: Seq<char>,
    isa: Seq<u8>,
    program_name: Seq<u8>,
    ptx: Seq<char>,
    input_attributes: Seq<char>,
) -> CacheKey {
    CacheKey {
        content_hash: source_hash_of(ptx),
        compiler_version,
        toolchain_build_id,
        device_id: isa,
        auxiliary: program_auxiliary(program_name, input_attributes, hiprt_version),
    }
}

/// The number of parts in which two auxiliary fields differ.
pub open spec fn differing_parts(
    first_name: Seq<u8>,
    first_attributes: Seq<char>,
    first_version: Seq<char>,
    second_name: Seq<u8>,
    second_attributes: Seq<char>,
    second_version: Seq<char>,
) -> int {
    (if first_name == second_name { 0int } else { 1 })
        + (if first_attributes == second_attributes { 0int } else { 1 })
        + (if first_version == second_version { 0int } else { 1 })
}

/// A change to the name of the program, to the text of its attributes or to
/// the version of the runtime library alone changes the auxiliary field.
pub proof fn lemma_single_part_change_changes_auxiliary(
    first_name: Seq<u8>,
    first_attributes: Seq<char>,
    first_version: Seq<char>,
    second_name: Seq<u8>,
    second_attributes: Seq<char>,
    second_version: Seq<char>,
)
    requires
        differing_parts(
            first_name,
            first_attributes,
            first_version,
            second_name,
            second_attributes,
            second_version,
        ) == 1,
    ensures
        program_auxiliary(first_name, first_attributes, first_version) != program_auxiliary(
            second_name,
            second_attributes,
            second_version,
        ),
{
    let sep = seq![SEPARATOR];
    let empty = Seq::<u8>::empty();
    let a1 = encode_utf8(first_attributes);
    let a2 = encode_utf8(second_attributes);
    let v1 = encode_utf8(first_version);
    let v2 = encode_utf8(second_version);
    let first = program_auxiliary(first_name, first_attributes, first_version);
    let second = program_auxiliary(second_name, second_attributes, second_version);
    if first_name != second_name {
        let suffix = sep + a1 + sep + v1;
        assert(first =~= empty + first_name + suffix);
        assert(second =~= empty + second_name + suffix);
        lemma_change_between(empty, first_name, second_name, suffix);
    } else if first_attributes != second_attributes {
        lemma_utf8_injective(first_attributes, second_attributes);
        let prefix = first_name + sep;
        let suffix = sep + v1;
        assert(first =~= prefix + a1 + suffix);
        assert(second =~= prefix + a2 + suffix);
        lemma_change_between(prefix, a1, a2, suffix);
    } else {
        lemma_utf8_injective(first_version, second_version);
        let prefix = first_name + sep + a1 + sep;
        assert(first =~= prefix + v1 + empty);
        assert(second =~= prefix + v2 + empty);
        lemma_change_between(prefix, v1, v2, empty);
    }
}

/// Two attribute texts for the same program never hash the same key bytes:
/// the text of the attributes reaches the key unchanged.
pub proof fn lemma_attributes_change_key_bytes(
    toolchain_build_id: Seq<char>,
    compiler_version: Seq<char>,
    hiprt_version: Seq<char>,
    isa: Seq<u8>,
    program_name: Seq<u8>,
    ptx: Seq<char>,
    first: Seq<char>,
    second: Seq<char>,
)
    requires
        first != second,
    ensures
        key_bytes(
            program_key(
                toolchain_build_id,
                compiler_version,
                hiprt_version,
                isa,
                program_name,
                ptx,
                first,
            ),
        ) != key_bytes(
            program_key(
                toolchain_build_id,
                compiler_version,
                hiprt_version,
                isa,
                program_name,
                ptx,
                second,
            ),
        ),
{
    lemma_single_part_change_changes_auxiliary(
        program_name,
        first,
        hiprt_version,
        program_name,
        second,
        hiprt_version,
    );
    lemma_single_field_change_changes_key_bytes(
        program_key(
            toolchain_build_id,
            compiler_version,
            hiprt_version,
            isa,
            program_name,
            ptx,
            first,
        ),
        program_key(
            toolchain_build_id,
            compiler_version,
            hiprt_version,
            isa,
            program_name,
            ptx,
            second,
        ),
    );
}

/// Sources whose digests differ never hash the same key bytes: the content
/// hash reaches the key unchanged.
pub proof fn lemma_source_changes_key_bytes(
    toolchain_build_id: Seq<char>,
    compiler_version: Seq<char>,
    hiprt_version: Seq<char>,
    isa: Seq<u8>,
    program_name: Seq<u8>,
    first: Seq<char>,
    second: Seq<char>,
    input_attributes: Seq<char>,
)
    requires
        sha512_digest(encode_utf8(first)) != sha512_digest(encode_utf8(second)),
    ensures
        key_bytes(
            program_key(
                toolchain_build_id,
                compiler_version,
                hiprt_version,
                isa,
                program_name,
                first,
                input_attributes,
            ),
        ) != key_bytes(
            program_key(
                toolchain_build_id,
                compiler_version,
                hiprt_version,
                isa,
                program_name,
                second,
                input_attributes,
            ),
        ),
{
    if source_hash_of(first) == source_hash_of(second) {
        lemma_hex_lower_injective(
            sha512_digest(encode_utf8(first)),
            sha512_digest(encode_utf8(second)),
        );
    }
    lemma_single_field_change_changes_key_bytes(
        program_key(
            toolchain_build_id,
            compiler_version,
            hiprt_version,
            isa,
            program_name,
            first,
            input_attributes,
        ),
        program_key(
            toolchain_build_id,
            compiler_version,
            hiprt_version,
            isa,
            program_name,
            second,
            input_attributes,
        ),
    );
}

/// Whether every name of the map is valid UTF-8, so that the map has a
/// canonical text.
pub open spec fn has_text(map: Map<Seq<u8>, VariableView>) -> bool {
    forall|name: Seq<u8>| #[trigger] map.contains_key(name) ==> valid_utf8(name)
}

/// The generic repository with the auxiliary field of a program.
pub struct KernelRepository(crate::repository::KernelRepository);

impl KernelRepository {
    /// The root directory that the repository was made with.
    pub closed spec fn root(&self) -> PathBuf {
        self.0.root()
    }

    pub fn cache_path(&self) -> (root: &PathBuf)
        ensures
            *root == self.root(),
    {
        self.0.cache_path()
    }

    pub fn new(cache_file: PathBuf) -> (repository: Result<Self, ()>)
        ensures
            repository matches Ok(made) && made.root() == cache_file,
    {
        Ok(Self(crate::repository::KernelRepository::new(cache_file)))
    }

    /// The auxiliary field of a program.
    pub fn auxiliary(program_name: &[u8], input_attributes: &str, hiprt_version: &str) -> (data:
        Vec<u8>)
        ensures
            data@ == program_auxiliary(program_name@, input_attributes@, hiprt_version@),
    {
        let mut data: Vec<u8> = Vec::new();
        data.extend_from_slice(program_name);
        data.push(SEPARATOR);
        data.extend_from_slice(input_attributes.as_bytes());
        data.push(SEPARATOR);
        data.extend_from_slice(hiprt_version.as_bytes());
        assert(data@ =~= program_auxiliary(program_name@, input_attributes@, hiprt_version@));
        data
    }

    /// What has to be written to save `binary` for the program.
    pub fn save_program(
        &mut self,
        program_name: &[u8],
        hash: &str,
        compiler_version: &str,
        git_hash: &str,
        device: &[u8],
        binary: &[u8],
        input_attributes: &str,
        hiprt_version: &str,
    ) -> (request: WriteRequest)
        ensures
            *final(self) == *old(self),
            request.location@ == location_of(
                CacheKey {
                    content_hash: hash@,
                    compiler_version: compiler_version@,
                    toolchain_build_id: git_hash@,
                    device_id: device@,
                    auxiliary: program_auxiliary(
                        program_name@,
                        input_attributes@,
                        hiprt_version@,
                    ),
                },
            ),
            request.contents@ == binary@,
            request.location@.is_plain(),
    {
        let data = Self::auxiliary(program_name, input_attributes, hiprt_version);
        self.0.save_program(hash, compiler_version, git_hash, device, binary, data.as_slice())
    }

    /// Where the entry of the program has to be read from.
    pub fn try_load_program(
        &mut self,
        program_name: &[u8],
        hash: &str,
        compiler_version: &str,
        git_hash: &str,
        device: &[u8],
        input_attributes: &str,
        hiprt_version: &str,
    ) -> (location: EntryLocation)
        ensures
            *final(self) == *old(self),
            location@ == location_of(
                CacheKey {
                    content_hash: hash@,
                    compiler_version: compiler_version@,
                    toolchain_build_id: git_hash@,
                    device_id: device@,
                    auxiliary: program_auxiliary(
                        program_name@,
                        input_attributes@,
                        hiprt_version@,
                    ),
                },
            ),
            location@.is_plain(),
    {
        let data = Self::auxiliary(program_name, input_attributes, hiprt_version);
        self.0.try_load_program(hash, compiler_version, git_hash, device, data.as_slice())
    }
}

pub struct KernelCache {
    repository: KernelRepository,
    toolchain_build_id: String,
}

impl KernelCache {
    /// The root directory of the cache.
    pub closed spec fn root(&self) -> PathBuf {
        self.repository.root()
    }

    /// The identity of the toolchain build, fixed when the cache is made.
    pub closed spec fn build_id(&self) -> Seq<char> {
        self.toolchain_build_id@
    }

    pub fn new(cache_dir: PathBuf, toolchain_build_id: String) -> (cache: Option<Self>)
        ensures
            cache matches Some(made) && made.root() == cache_dir && made.build_id()
                == toolchain_build_id@,
    {
        match KernelRepository::new(cache_dir) {
            Ok(repository) => Some(Self { repository, toolchain_build_id }),
            Err(_) => None,
        }
    }

    pub fn cache_path(&self) -> (root: &PathBuf)
        ensures
            *root == self.root(),
    {
        self.repository.cache_path()
    }

    /// The content hash of the source of a program.
    pub fn source_hash(ptx: &str) -> (hash: String)
        ensures
            hash@ == source_hash_of(ptx@),
    {
        hexlower_encode(&sha512(ptx.as_bytes()))
    }

    /// What has to be written to save `binary` for the program. Where the
    /// attribute map has no canonical text there is nothing to write: the
    /// save is to be dropped.
    pub fn save_program(
        &mut self,
        compiler_version: &str,
        hiprt_version: &str,
        isa: &[u8],
        program_name: &[u8],
        ptx: &str,
        binary: &[u8],
        input_attributes: &VariablesBlock,
    ) -> (request: Result<WriteRequest, SerializationFailure>)
        ensures
            *final(self) == *old(self),
            request is Ok <==> has_text(attribute_map(input_attributes.variables)),
            request matches Err(failure) ==> failure == SerializationFailure::NameNotUtf8,
            request matches Ok(write) ==> write.location@ == location_of(
                program_key(
                    old(self).build_id(),
                    compiler_version@,
                    hiprt_version@,
                    isa@,
                    program_name@,
                    ptx@,
                    attribute_text(attribute_map(input_attributes.variables)),
                ),
            ) && write.contents@ == binary@ && write.location@.is_plain(),
    {
        let hash = Self::source_hash(ptx);
        let attributes = match Self::serialize_input_attributes(&input_attributes.variables) {
            Ok(attributes) => attributes,
            Err(failure) => {
                return Err(failure);
            },
        };
        Ok(
            self.repository.save_program(
                program_name,
                hash.as_str(),
                compiler_version,
                self.toolchain_build_id.as_str(),
                isa,
                binary,
                attributes.as_str(),
                hiprt_version,
            ),
        )
    }

    /// Where the entry of the program has to be read from. Where the
    /// attribute map has no canonical text there is nothing to read: the
    /// load is a miss.
    pub fn try_load_program(
        &mut self,
        compiler_version: &str,
        hiprt_version: &str,
        isa: &[u8],
        program_name: &[u8],
        ptx: &str,
        input_attributes: &VariablesBlock,
    ) -> (location: Result<EntryLocation, SerializationFailure>)
        ensures
            *final(self) == *old(self),
            location is Ok <==> has_text(attribute_map(input_attributes.variables)),
            location matches Err(failure) ==> failure == SerializationFailure::NameNotUtf8,
            location matches Ok(place) ==> place@ == location_of(
                program_key(
                    old(self).build_id(),
                    compiler_version@,
                    hiprt_version@,
                    isa@,
                    program_name@,
                    ptx@,
                    attribute_text(attribute_map(input_attributes.variables)),
                ),
            ) && place@.is_plain(),
    {
        let hash = Self::source_hash(ptx);
        let attributes = match Self::serialize_input_attributes(&input_attributes.variables) {
            Ok(attributes) => attributes,
            Err(failure) => {
                return Err(failure);
            },
        };
        Ok(
            self.repository.try_load_program(
                program_name,
                hash.as_str(),
                compiler_version,
                self.toolchain_build_id.as_str(),
                isa,
                attributes.as_str(),
                hiprt_version,
            ),
        )
    }

    /// What a load returns once the read has been made: the binary together
    /// with the attribute map that the entry was looked up with, and a miss
    /// on everything else. A failed read is a miss here, never an error.
    pub fn loaded(outcome: ReadOutcome, input_attributes: VariablesBlock) -> (program: Option<
        (Vec<u8>, VariablesBlock),
    >)
        ensures
            match hit_or_miss(outcome) {
                Some(binary) => program == Some((binary, input_attributes)),
                None => program is None,
            },
    {
        match crate::repository::KernelRepository::loaded(outcome) {
            Ok(Some(binary)) => Some((binary, input_attributes)),
            Ok(None) => None,
            Err(_) => None,
        }
    }

    /// The canonical text of an attribute map; see [`attribute_text`].
    pub fn serialize_input_attributes(attributes: &FxHashMap<Vec<u8>, Variable>) -> (text: Result<
        String,
        SerializationFailure,
    >)
        ensures
            text is Ok <==> has_text(attribute_map(*attributes)),
            text matches Ok(written) ==> written@ == attribute_text(attribute_map(*attributes)),
            text matches Err(failure) ==> failure == SerializationFailure::NameNotUtf8,
    {
        serialize_variables(attributes)
    }
}

} // verus!
