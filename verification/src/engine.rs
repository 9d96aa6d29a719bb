use vstd::prelude::*;
use crate::error::HostError;
use crate::linker::{ExportView, ImportView};
use crate::segment::{pages_to_bytes, PAGE_LIMIT, PAGE_SIZE};

verus! {

/// wasmtime's `Engine`: compiles modules and holds the engine-wide
/// configuration. Opaque to the proofs.
#[verifier::external_type_specification]
#[verifier::external_body]
pub struct ExEngine(wasmtime::Engine);

/// wasmtime's `Module`: a validated, compiled module. Opaque to the proofs.
#[verifier::external_type_specification]
#[verifier::external_body]
pub struct ExModule(wasmtime::Module);

/// wasmtime's `SharedMemory`: a handle of a memory that several stores can
/// import. Opaque to the proofs; its bytes can change between any two calls.
#[verifier::external_type_specification]
#[verifier::external_body]
pub struct ExSharedMemory(wasmtime::SharedMemory);

/// wasmtime's `Error`: why the engine refused or stopped. Opaque to the
/// proofs.
#[verifier::external_type_specification]
#[verifier::external_body]
pub struct ExEngineError(wasmtime::Error);

/// The engine-wide switches of an execution context.
#[derive(Clone, Copy, Debug, PartialEq, Eq)]
pub struct EngineSettings {
    /// Guests may use shared memories and atomic instructions.
    pub threads: bool,
    /// Guests may use the bulk memory instructions.
    pub bulk_memory: bool,
    /// Compiled modules carry debug information.
    pub debug_info: bool,
}

/// `Config::new`, `Config::wasm_threads`, `Config::wasm_bulk_memory`,
/// `Config::debug_info`, `Config::memory_reservation` and `Engine::new` of
/// wasmtime: an engine with the three switches set as given, with
/// `reservation` bytes of address space set aside for each memory, and with
/// every other setting at its default. Whether an engine is made is
/// wasmtime's decision, which refuses switches that contradict each other;
/// an engine that is made is built with what was handed over.
#[verifier::external_body]
fn build_engine(settings: EngineSettings, reservation: u64) -> (made: Result<
    wasmtime::Engine,
    wasmtime::Error,
>)
    ensures
        made matches Ok(engine) ==> engine_settings(engine) == settings && engine_reservation(
            engine,
        ) == reservation,
{
    let mut config = wasmtime::Config::new();
    config.wasm_threads(settings.threads);
    config.wasm_bulk_memory(settings.bulk_memory);
    config.debug_info(settings.debug_info);
    config.memory_reservation(reservation);
    wasmtime::Engine::new(&config)
}

/// The switches an engine was built with: those handed to `Config` before
/// `Engine::new` of wasmtime made the engine.
pub uninterp spec fn engine_settings(engine: wasmtime::Engine) -> EngineSettings;

/// The bytes of address space an engine sets aside for each memory: what was
/// handed to `Config::memory_reservation` before `Engine::new` of wasmtime
/// made the engine.
pub uninterp spec fn engine_reservation(engine: wasmtime::Engine) -> u64;

/// The least number of pages of a shared memory: the minimum that
/// `SharedMemory::ty` of wasmtime reports, which is the one the memory was
/// made with.
pub uninterp spec fn shared_minimum(memory: wasmtime::SharedMemory) -> u64;

/// The greatest number of pages of a shared memory: the maximum that
/// `SharedMemory::ty` of wasmtime reports, which is the one the memory was
/// made with. The memory never grows past it.
pub uninterp spec fn shared_maximum(memory: wasmtime::SharedMemory) -> u64;

/// Whether the engine accepts the bytes as a binary module: whether
/// `Module::from_binary` of wasmtime succeeds on them under that engine.
pub uninterp spec fn engine_accepts(engine: wasmtime::Engine, binary: Seq<u8>) -> bool;

/// The imports that the bytes of a binary module declare, in their order,
/// as a module compiled from them under that engine lists them.
pub uninterp spec fn binary_imports(engine: wasmtime::Engine, binary: Seq<u8>) -> Seq<ImportView>;

/// The exports that the bytes of a binary module declare, in their order,
/// as a module compiled from them under that engine lists them.
pub uninterp spec fn binary_exports(engine: wasmtime::Engine, binary: Seq<u8>) -> Seq<ExportView>;

/// What a compiled module declares as its imports, in its own order: the
/// entries that `Module::imports` of wasmtime yields, each with its two
/// names and the shape of its type. A module never changes once it is
/// compiled, so the list depends on the module alone.
pub uninterp spec fn declared_imports(module: wasmtime::Module) -> Seq<ImportView>;

/// What a compiled module declares as its exports, in its own order: the
/// entries that `Module::exports` of wasmtime yields, each with its name and
/// the shape of its type.
pub uninterp spec fn declared_exports(module: wasmtime::Module) -> Seq<ExportView>;

/// `SharedMemory::new` of wasmtime on `MemoryType::shared(minimum, maximum)`.
/// The limits are kept to those for which `MemoryType::shared` does not
/// panic. Whether the memory can be made is the engine's decision; one that
/// is made has the limits it was asked for.
#[verifier::external_body]
fn allocate_shared(engine: &wasmtime::Engine, minimum: u32, maximum: u32) -> (made: Result<
    wasmtime::SharedMemory,
    wasmtime::Error,
>)
    requires
        minimum <= maximum <= 65536,
    ensures
        made matches Ok(memory) ==> shared_minimum(memory) == minimum && shared_maximum(memory)
            == maximum,
{
    wasmtime::SharedMemory::new(engine, wasmtime::MemoryType::shared(minimum, maximum))
}

/// `Module::from_binary` of wasmtime: validates and compiles the bytes of a
/// binary module. Whether it succeeds depends on the engine and the bytes
/// alone, and so does what the module then declares.
#[verifier::external_body]
fn compile_binary(engine: &wasmtime::Engine, bytes: &[u8]) -> (made: Result<
    wasmtime::Module,
    wasmtime::Error,
>)
    ensures
        made is Ok <==> engine_accepts(*engine, bytes@),
        made matches Ok(module) ==> declared_imports(module) == binary_imports(*engine, bytes@)
            && declared_exports(module) == binary_exports(*engine, bytes@),
{
    wasmtime::Module::from_binary(engine, bytes)
}

/// `SharedMemory::size` of wasmtime: the size in pages at the time of the
/// call. Another thread may grow the memory at any moment, so the number is
/// claimed only to lie between the memory's limits: a memory starts at its
/// minimum, only grows, and never passes its maximum.
#[verifier::external_body]
fn shared_pages(memory: &wasmtime::SharedMemory) -> (pages: u64)
    ensures
        shared_minimum(*memory) <= pages <= shared_maximum(*memory),
{
    memory.size()
}

/// `SharedMemory::grow` of wasmtime: on success the size in pages before the
/// growth. Whether the request is granted depends on the size at that
/// moment; a granted request leaves the memory within its maximum.
#[verifier::external_body]
fn grow_shared(memory: &wasmtime::SharedMemory, additional_pages: u64) -> (previous: Result<
    u64,
    wasmtime::Error,
>)
    ensures
        previous matches Ok(pages) ==> shared_minimum(*memory) <= pages && pages
            + additional_pages <= shared_maximum(*memory),
{
    memory.grow(additional_pages)
}

/// The `Display` text of a wasmtime error, for the detail of a report.
#[verifier::external_body]
pub(crate) fn error_text(error: &wasmtime::Error) -> (text: String) {
    format!("{}", error)
}

/// What a growth request made of a shared memory, given what the engine
/// answered: the new size in bytes where the engine granted the request and
/// reported `previous_pages` as the size before it, and a refusal that names
/// the request otherwise.
pub fn growth_outcome(
    previous_pages: Option<u64>,
    observed_pages: u64,
    additional_pages: u32,
    max_pages: u32,
) -> (outcome: Result<u64, HostError>)
    ensures
        match previous_pages {
            Some(previous) if previous + additional_pages <= PAGE_LIMIT => outcome == Ok::<
                u64,
                HostError,
            >((pages_to_bytes(previous + additional_pages)) as u64),
            _ => outcome == Err::<u64, HostError>(
                HostError::CapacityExceeded {
                    current_pages: if observed_pages <= PAGE_LIMIT {
                        observed_pages as u32
                    } else {
                        PAGE_LIMIT
                    },
                    additional_pages,
                    max_pages,
                },
            ),
        },
{
    match previous_pages {
        Some(previous) if additional_pages <= PAGE_LIMIT && previous <= PAGE_LIMIT as u64
            - additional_pages as u64 => { Ok((previous + additional_pages as u64) * PAGE_SIZE) },
        _ => Err(
            HostError::CapacityExceeded {
                current_pages: if observed_pages <= PAGE_LIMIT as u64 {
                    observed_pages as u32
                } else {
                    PAGE_LIMIT
                },
                additional_pages,
                max_pages,
            },
        ),
    }
}

/// A granted growth request never shrinks a memory: the size it leaves is
/// the size before it and the pages asked for.
pub proof fn lemma_granted_growth_never_shrinks(previous: int, additional: int)
    requires
        0 <= previous,
        0 <= additional,
    ensures
        pages_to_bytes(previous) <= pages_to_bytes(previous + additional),
        pages_to_bytes(previous + additional) == pages_to_bytes(previous) + pages_to_bytes(
            additional,
        ),
{
}

/// What a compilation made, given what the engine answered: the module where
/// the engine accepted the bytes, and a `ValidationError` that carries the
/// engine's report where it did not.
pub fn compile_outcome(answer: Result<wasmtime::Module, String>) -> (made: Result<
    wasmtime::Module,
    HostError,
>)
    ensures
        match answer {
            Ok(module) => made == Ok::<wasmtime::Module, HostError>(module),
            Err(report) => made matches Err(HostError::ValidationError { detail }) && detail
                == report,
        },
{
    match answer {
        Ok(module) => Ok(module),
        Err(report) => Err(HostError::ValidationError { detail: report }),
    }
}

/// The size in bytes of a memory of `pages` pages, or `None` for more pages
/// than a 32-bit guest can address.
pub fn size_of_pages(pages: u64) -> (size: Option<u64>)
    ensures
        pages <= PAGE_LIMIT ==> size == Some((pages_to_bytes(pages as int)) as u64),
        pages > PAGE_LIMIT ==> size is None,
{
    if pages <= PAGE_LIMIT as u64 {
        Some(pages * PAGE_SIZE)
    } else {
        None
    }
}

/// The engine of a session together with the one memory that its instances
/// share.
///
/// A context is made once, handed to every compilation and instantiation,
/// and dropped once.
pub struct ExecutionContext {
    engine: wasmtime::Engine,
    memory: wasmtime::SharedMemory,
    initial_pages: u32,
    max_pages: u32,
}

impl ExecutionContext {
    /// The limits that the context reports are those of the memory it holds,
    /// and its engine sets aside address space for the maximum.
    #[verifier::type_invariant]
    spec fn limits_kept(self) -> bool {
        &&& self.initial_pages <= self.max_pages <= PAGE_LIMIT
        &&& shared_minimum(self.memory) == self.initial_pages
        &&& shared_maximum(self.memory) == self.max_pages
        &&& engine_reservation(self.engine) == pages_to_bytes(self.max_pages as int)
    }

    /// The configured maximum of the shared memory, in pages.
    pub closed spec fn max(&self) -> int {
        self.max_pages as int
    }

    /// The size the shared memory was made with, in pages.
    pub closed spec fn initial(&self) -> int {
        self.initial_pages as int
    }

    /// The engine that the context holds.
    pub closed spec fn held_engine(&self) -> wasmtime::Engine {
        self.engine
    }

    /// The handle of the shared memory that the context holds.
    pub closed spec fn held_memory(&self) -> wasmtime::SharedMemory {
        self.memory
    }

    /// Makes an engine with the settings given and a shared memory of
    /// `initial_pages` pages that may grow up to `max_pages` pages. The engine
    /// sets aside address space for that maximum, so that the memory never
    /// moves when it grows.
    ///
    /// Limits that no 32-bit guest can address are refused as
    /// `CapacityExceeded` before the engine is asked for anything. Whether the
    /// engine accepts the settings and can reserve the memory is its own
    /// decision; its refusal is reported as `ValidationError`.
    pub fn new(settings: EngineSettings, initial_pages: u32, max_pages: u32) -> (made: Result<
        ExecutionContext,
        HostError,
    >)
        ensures
            made matches Ok(context) ==> {
                &&& initial_pages <= max_pages <= PAGE_LIMIT
                &&& context.max() == max_pages
                &&& context.initial() == initial_pages
                &&& shared_minimum(context.held_memory()) == initial_pages
                &&& shared_maximum(context.held_memory()) == max_pages
                &&& engine_settings(context.held_engine()) == settings
                &&& engine_reservation(context.held_engine()) == pages_to_bytes(max_pages as int)
            },
            made matches Err(e) ==> {
                if initial_pages <= max_pages <= PAGE_LIMIT {
                    e is ValidationError
                } else {
                    e == (HostError::CapacityExceeded {
                        current_pages: 0,
                        additional_pages: initial_pages,
                        max_pages,
                    })
                }
            },
    {
        if initial_pages > max_pages || max_pages > PAGE_LIMIT {
            return Err(
                HostError::CapacityExceeded {
                    current_pages: 0,
                    additional_pages: initial_pages,
                    max_pages,
                },
            );
        }
        let reservation: u64 = (max_pages as u64) * PAGE_SIZE;
        let engine: wasmtime::Engine = match build_engine(settings, reservation) {
            Ok(engine) => engine,
            Err(e) => { return Err(HostError::ValidationError { detail: error_text(&e) }); },
        };
        match allocate_shared(&engine, initial_pages, max_pages) {
            Ok(memory) => Ok(ExecutionContext { engine, memory, initial_pages, max_pages }),
            Err(e) => Err(HostError::ValidationError { detail: error_text(&e) }),
        }
    }

    /// The engine of the session.
    pub fn engine(&self) -> (engine: &wasmtime::Engine)
        ensures
            *engine == self.held_engine(),
            engine_reservation(*engine) == pages_to_bytes(self.max()),
    {
        proof {
            use_type_invariant(self);
        }
        &self.engine
    }

    /// The memory that the instances of the session share.
    pub fn memory(&self) -> (memory: &wasmtime::SharedMemory)
        ensures
            *memory == self.held_memory(),
            shared_minimum(*memory) == self.initial(),
            shared_maximum(*memory) == self.max(),
    {
        proof {
            use_type_invariant(self);
        }
        &self.memory
    }

    /// The configured maximum of the shared memory, in pages.
    pub fn maximum_pages(&self) -> (count: u32)
        ensures
            count == self.max(),
    {
        self.max_pages
    }

    /// The size the shared memory was made with, in pages.
    pub fn initial_pages(&self) -> (count: u32)
        ensures
            count == self.initial(),
    {
        self.initial_pages
    }

    /// Validates and compiles the bytes of a binary module: all of them,
    /// under the engine of the context. A module is made exactly of the bytes
    /// that the engine accepts, and declares what they declare; bytes that
    /// the engine does not accept are reported as `ValidationError`, with the
    /// engine's own words.
    pub fn compile(&self, bytes: &[u8]) -> (made: Result<wasmtime::Module, HostError>)
        ensures
            made is Ok <==> engine_accepts(self.held_engine(), bytes@),
            made matches Ok(module) ==> declared_imports(module) == binary_imports(
                self.held_engine(),
                bytes@,
            ) && declared_exports(module) == binary_exports(self.held_engine(), bytes@),
            made matches Err(e) ==> e is ValidationError,
    {
        let answer: Result<wasmtime::Module, String> = match compile_binary(&self.engine, bytes) {
            Ok(module) => Ok(module),
            Err(e) => Err(error_text(&e)),
        };
        compile_outcome(answer)
    }

    /// Compiles what a byte source delivered. A module is made exactly where
    /// the source delivered bytes and the engine accepts them. Where the
    /// source failed, its report is handed on unchanged as `IoError` and the
    /// engine is not asked.
    pub fn compile_source(&self, source: Result<Vec<u8>, String>) -> (made: Result<
        wasmtime::Module,
        HostError,
    >)
        ensures
            match source {
                Ok(bytes) => {
                    &&& made is Ok <==> engine_accepts(self.held_engine(), bytes@)
                    &&& made matches Ok(module) ==> declared_imports(module) == binary_imports(
                        self.held_engine(),
                        bytes@,
                    ) && declared_exports(module) == binary_exports(self.held_engine(), bytes@)
                    &&& made matches Err(e) ==> e is ValidationError
                },
                Err(report) => made matches Err(HostError::IoError { detail }) && detail == report,
            },
    {
        match source {
            Ok(bytes) => self.compile(bytes.as_slice()),
            Err(report) => Err(HostError::IoError { detail: report }),
        }
    }

    /// Asks the engine to grow the shared memory by `additional_pages` pages
    /// and returns the new size in bytes, which is within the configured
    /// maximum. The engine serialises growth and decides alone, by the size
    /// at that moment, whether the request fits: what is returned is
    /// `growth_outcome` of its answer.
    pub fn grow(&self, additional_pages: u32) -> (grown: Result<u64, HostError>)
        ensures
            grown matches Ok(size) ==> pages_to_bytes(self.initial() + additional_pages) <= size
                <= pages_to_bytes(self.max()) && size % PAGE_SIZE == 0,
            grown matches Err(e) ==> e == (HostError::CapacityExceeded {
                current_pages: e->CapacityExceeded_current_pages,
                additional_pages,
                max_pages: self.max() as u32,
            }),
    {
        proof {
            use_type_invariant(self);
        }
        let answer: Option<u64> = match grow_shared(&self.memory, additional_pages as u64) {
            Ok(previous) => Some(previous),
            Err(_) => None,
        };
        let observed: u64 = shared_pages(&self.memory);
        growth_outcome(answer, observed, additional_pages, self.max_pages)
    }

    /// The size of the shared memory in bytes, as the engine reports it now:
    /// a whole number of pages, no less than the memory was made with and
    /// within the configured maximum.
    pub fn current_size(&self) -> (size: Option<u64>)
        ensures
            size matches Some(bytes) && pages_to_bytes(self.initial()) <= bytes <= pages_to_bytes(
                self.max(),
            ) && bytes % PAGE_SIZE == 0,
    {
        proof {
            use_type_invariant(self);
        }
        size_of_pages(shared_pages(&self.memory))
    }
}

} // verus!
