//! The cache for compiled compute kernels: keyed by the source modules in
//! their order, the compiler, the build of the toolchain, the device and the
//! compilation mode.

use crate::digest::{blake3, blake3_digest};
use crate::hex::{blake3_to_hex, hex_lower, lemma_hex_lower_injective};
use crate::repository::{
    hit_or_miss, key_bytes, lemma_single_field_change_changes_key_bytes, location_of, CacheKey,
    EntryLocation, KernelRepository, ReadOutcome, WriteRequest,
};
use std::path::PathBuf;
use vstd::prelude::*;
use vstd::utf8::encode_utf8;

verus! {

/// How a kernel is compiled. The mode is part of the key, not of the content
/// hash.
#[derive(Clone, Copy, Debug, PartialEq, Eq, Structural)]
pub enum CompilationMode {
    Default,
    FastMath,
}

impl CompilationMode {
    /// The position of the mode in its declaration, from zero.
    pub open spec fn ordinal_spec(self) -> u8 {
        match self {
            CompilationMode::Default => 0,
            CompilationMode::FastMath => 1,
        }
    }

    #[verifier::when_used_as_spec(ordinal_spec)]
    pub fn ordinal(self) -> (byte: u8)
        ensures
            byte == self.ordinal_spec(),
    {
        match self {
            CompilationMode::Default => 0,
            CompilationMode::FastMath => 1,
        }
    }
}

/// The UTF-8 bytes of the modules, one after the other in the given order,
/// with nothing between them.
pub open spec fn module_bytes(modules: Seq<Seq<char>>) -> Seq<u8>
    decreases modules.len(),
{
    if modules.len() == 0 {
        Seq::empty()
    } else {
        module_bytes(modules.drop_last()) + encode_utf8(modules.last())
    }
}

/// The content hash of a list of modules: the BLAKE3 hash of their bytes in
/// order, in lowercase hexadecimal.
pub open spec fn content_hash_of(modules: Seq<Seq<char>>) -> Seq<char> {
    hex_lower(blake3_digest(module_bytes(modules)))
}

/// The text of each module of a slice.
pub open spec fn module_texts(modules: Seq<&str>) -> Seq<Seq<char>> {
    modules.map_values(|module: &str| module@)
}

/// The key of a compiled kernel. The mode is the whole of the auxiliary
/// field, as the one byte of its ordinal.
pub open spec fn kernel_key(
    toolchain_build_id: Seq<char>,
    compiler_version: Seq<char>,
    device: Seq<u8>,
    modules: Seq<Seq<char>>,
    mode: CompilationMode,
) -> CacheKey {
    CacheKey {
        content_hash: content_hash_of(modules),
        compiler_version,
        toolchain_build_id,
        device_id: device,
        auxiliary: seq![mode.ordinal_spec()],
    }
}

/// Two modes for the same modules never hash the same bytes: they give two
/// entries.
pub proof fn lemma_mode_changes_key_bytes(
    toolchain_build_id: Seq<char>,
    compiler_version: Seq<char>,
    device: Seq<u8>,
    modules: Seq<Seq<char>>,
    first: CompilationMode,
    second: CompilationMode,
)
    requires
        first != second,
    ensures
        key_bytes(kernel_key(toolchain_build_id, compiler_version, device, modules, first))
            != key_bytes(
            kernel_key(toolchain_build_id, compiler_version, device, modules, second),
        ),
{
    let a = kernel_key(toolchain_build_id, compiler_version, device, modules, first);
    let b = kernel_key(toolchain_build_id, compiler_version, device, modules, second);
    assert(a.auxiliary[0] != b.auxiliary[0]);
    lemma_single_field_change_changes_key_bytes(a, b);
}

/// Modules whose hashes differ never hash the same key bytes: the content
/// hash reaches the key unchanged.
pub proof fn lemma_content_changes_key_bytes(
    toolchain_build_id: Seq<char>,
    compiler_version: Seq<char>,
    device: Seq<u8>,
    first: Seq<Seq<char>>,
    second: Seq<Seq<char>>,
    mode: CompilationMode,
)
    requires
        blake3_digest(module_bytes(first)) != blake3_digest(module_bytes(second)),
    ensures
        key_bytes(kernel_key(toolchain_build_id, compiler_version, device, first, mode))
            != key_bytes(kernel_key(toolchain_build_id, compiler_version, device, second, mode)),
{
    if content_hash_of(first) == content_hash_of(second) {
        lemma_hex_lower_injective(
            blake3_digest(module_bytes(first)),
            blake3_digest(module_bytes(second)),
        );
    }
    lemma_single_field_change_changes_key_bytes(
        kernel_key(toolchain_build_id, compiler_version, device, first, mode),
        kernel_key(toolchain_build_id, compiler_version, device, second, mode),
    );
}

/// A change of the device alone changes the bytes that are hashed.
pub proof fn lemma_device_changes_key_bytes(
    toolchain_build_id: Seq<char>,
    compiler_version: Seq<char>,
    first: Seq<u8>,
    second: Seq<u8>,
    modules: Seq<Seq<char>>,
    mode: CompilationMode,
)
    requires
        first != second,
    ensures
        key_bytes(kernel_key(toolchain_build_id, compiler_version, first, modules, mode))
            != key_bytes(kernel_key(toolchain_build_id, compiler_version, second, modules, mode)),
{
    lemma_single_field_change_changes_key_bytes(
        kernel_key(toolchain_build_id, compiler_version, first, modules, mode),
        kernel_key(toolchain_build_id, compiler_version, second, modules, mode),
    );
}

pub struct KernelCache {
    repository: KernelRepository,
    toolchain_build_id: String,
}

impl KernelCache {
    /// The root directory of the cache.
    pub closed spec fn root(&self) -> PathBuf {
        self.repository.root()
    }

    /// The identity of the toolchain build, fixed when the cache is made.
    pub closed spec fn build_id(&self) -> Seq<char> {
        self.toolchain_build_id@
    }

    pub fn new(cache_dir: PathBuf, toolchain_build_id: String) -> (cache: Option<Self>)
        ensures
            cache matches Some(made) && made.root() == cache_dir && made.build_id()
                == toolchain_build_id@,
    {
        Some(Self { repository: KernelRepository::new(cache_dir), toolchain_build_id })
    }

    pub fn cache_path(&self) -> (root: &PathBuf)
        ensures
            *root == self.root(),
    {
        self.repository.cache_path()
    }

    /// What is hashed for the modules: see [`module_bytes`].
    pub fn module_input(ptx_modules: &[&str]) -> (input: Vec<u8>)
        ensures
            input@ == module_bytes(module_texts(ptx_modules@)),
    {
        let ghost texts = module_texts(ptx_modules@);
        let mut input: Vec<u8> = Vec::new();
        let mut index: usize = 0;
        while index < ptx_modules.len()
            invariant
                index <= ptx_modules.len(),
                texts == module_texts(ptx_modules@),
                input@ == module_bytes(texts.take(index as int)),
            decreases ptx_modules.len() - index,
        {
            let module: &str = ptx_modules[index];
            input.extend_from_slice(module.as_bytes());
            proof {
                let longer = texts.take(index + 1);
                assert(longer.drop_last() =~= texts.take(index as int));
                assert(longer.last() == module@);
                assert(input@ =~= module_bytes(longer.drop_last()) + encode_utf8(longer.last()));
            }
            index += 1;
        }
        assert(texts.take(index as int) =~= texts);
        input
    }

    /// The content hash of the modules, taken in the order given.
    pub fn content_hash(ptx_modules: &[&str]) -> (hash: String)
        ensures
            hash@ == content_hash_of(module_texts(ptx_modules@)),
    {
        let input = Self::module_input(ptx_modules);
        blake3_to_hex(blake3(input.as_slice()))
    }

    /// What has to be written to save `binary` for these modules. `device`
    /// holds the bytes of the name of the device, without a terminator.
    pub fn save_program(
        &self,
        compiler_version: &str,
        device: &[u8],
        ptx_modules: &[&str],
        compilation_mode: CompilationMode,
        binary: &[u8],
    ) -> (request: WriteRequest)
        ensures
            request.location@ == location_of(
                kernel_key(
                    self.build_id(),
                    compiler_version@,
                    device@,
                    module_texts(ptx_modules@),
                    compilation_mode,
                ),
            ),
            request.contents@ == binary@,
            request.location@.is_plain(),
    {
        let hash = Self::content_hash(ptx_modules);
        let mode: [u8; 1] = [compilation_mode.ordinal()];
        assert(mode@ =~= seq![compilation_mode.ordinal_spec()]);
        self.repository.save_program(
            hash.as_str(),
            compiler_version,
            self.toolchain_build_id.as_str(),
            device,
            binary,
            mode.as_slice(),
        )
    }

    /// Where the entry for these modules has to be read from.
    pub fn try_load_program(
        &self,
        compiler_version: &str,
        device: &[u8],
        ptx_modules: &[&str],
        compilation_mode: CompilationMode,
    ) -> (location: EntryLocation)
        ensures
            location@ == location_of(
                kernel_key(
                    self.build_id(),
                    compiler_version@,
                    device@,
                    module_texts(ptx_modules@),
                    compilation_mode,
                ),
            ),
            location@.is_plain(),
    {
        let hash = Self::content_hash(ptx_modules);
        let mode: [u8; 1] = [compilation_mode.ordinal()];
        assert(mode@ =~= seq![compilation_mode.ordinal_spec()]);
        self.repository.try_load_program(
            hash.as_str(),
            compiler_version,
            self.toolchain_build_id.as_str(),
            device,
            mode.as_slice(),
        )
    }

    /// What a load returns once the read has been made: the binary if the
    /// file was there, and a miss on everything else. A failed read is a miss
    /// here, never an error.
    pub fn loaded(outcome: ReadOutcome) -> (binary: Option<Vec<u8>>)
        ensures
            binary == hit_or_miss(outcome),
    {
        match KernelRepository::loaded(outcome) {
            Ok(binary) => binary,
            Err(_) => None,
        }
    }
}

} // verus!
