use vstd::prelude::*;
use core::marker::PhantomData;
use crate::engine::{
    declared_exports, declared_imports, error_text, shared_maximum, shared_minimum, ExecutionContext,
};
use crate::error::HostError;
use crate::lifecycle::{callable, next_state, step, InstanceEvent, InstanceState};
use crate::linker::{
    all_bound, bound_before, export_views, import_views, lemma_bound_by_view, lookup,
    reports_unbound, Export, Import, ImportLinker, ImportView, Shape, ShapeView,
};
use crate::signature::{
    check_export, requested, Native, Signature, SignatureShape, Value, ValueKind,
};

verus! {

/// wasmtime's `Store`: owns the instances made in it and the host state they
/// reach. Opaque to the proofs.
#[verifier::external_type_specification]
#[verifier::external_body]
#[verifier::reject_recursive_types(T)]
pub struct ExStore<T: 'static>(wasmtime::Store<T>);

/// wasmtime's `Linker`: the names that imports are resolved against. Opaque
/// to the proofs.
#[verifier::external_type_specification]
#[verifier::external_body]
#[verifier::reject_recursive_types(T)]
pub struct ExLinker<T>(wasmtime::Linker<T>);

/// wasmtime's `Func`: a function owned by a store. Opaque to the proofs.
#[verifier::external_type_specification]
#[verifier::external_body]
pub struct ExFunc(wasmtime::Func);

/// wasmtime's `FuncType`: the declared type of a function. Opaque to the
/// proofs.
#[verifier::external_type_specification]
#[verifier::external_body]
pub struct ExFuncType(wasmtime::FuncType);

/// wasmtime's `ValType`: the declared type of one value. Opaque to the
/// proofs.
#[verifier::external_type_specification]
#[verifier::external_body]
pub struct ExValType(wasmtime::ValType);

/// wasmtime's `ExternType`: the declared type of an import or an export.
/// Opaque to the proofs.
#[verifier::external_type_specification]
#[verifier::external_body]
pub struct ExExternType(wasmtime::ExternType);

/// wasmtime's `Val`: one value passed to or returned by a function. Opaque
/// to the proofs.
#[verifier::external_type_specification]
#[verifier::external_body]
pub struct ExVal(wasmtime::Val);

/// wasmtime-wasi's `WasiP1Ctx`: the state of the compatibility layer. It is
/// only carried through to the host functions that use it.
#[verifier::external_type_specification]
#[verifier::external_body]
pub struct ExWasiP1Ctx(wasmtime_wasi::preview1::WasiP1Ctx);

/// What every host function of a sandbox can reach: the memory that the
/// instances share and the state of the compatibility layer. The layer serves
/// guests only once it is bound.
pub struct HostState {
    memory: wasmtime::SharedMemory,
    wasi: wasmtime_wasi::preview1::WasiP1Ctx,
}

impl HostState {
    /// The handle of the shared memory that the state holds.
    pub closed spec fn held_memory(&self) -> wasmtime::SharedMemory {
        self.memory
    }

    /// The state of the compatibility layer that the state holds.
    pub closed spec fn held_wasi(&self) -> wasmtime_wasi::preview1::WasiP1Ctx {
        self.wasi
    }

    /// The memory that the instances share.
    pub fn memory(&self) -> (memory: &wasmtime::SharedMemory)
        ensures
            *memory == self.held_memory(),
    {
        &self.memory
    }

    /// The state of the compatibility layer. What the caller leaves there is
    /// what the state holds afterwards; the memory is not touched.
    pub fn wasi(&mut self) -> (wasi: &mut wasmtime_wasi::preview1::WasiP1Ctx)
        ensures
            *wasi == old(self).held_wasi(),
            final(self).held_wasi() == *final(wasi),
            final(self).held_memory() == old(self).held_memory(),
    {
        &mut self.wasi
    }
}

/// `Clone::clone` of wasmtime's `SharedMemory`: another handle of the same
/// memory, with the same limits.
#[verifier::external_body]
fn share(memory: &wasmtime::SharedMemory) -> (shared: wasmtime::SharedMemory)
    ensures
        shared_minimum(shared) == shared_minimum(*memory),
        shared_maximum(shared) == shared_maximum(*memory),
{
    memory.clone()
}

/// Whether the engine's linker holds something under the two-part name:
/// whether a definition under that name by `Linker::define` or
/// `Linker::func_wrap` of wasmtime would be refused as taken.
pub uninterp spec fn engine_holds(
    linker: wasmtime::Linker<HostState>,
    namespace: Seq<char>,
    name: Seq<char>,
) -> bool;

/// The signature of the function that the engine's linker holds under the
/// two-part name, as `Linker::get`, `Extern::into_func` and `Func::ty` of
/// wasmtime give it; `None` where the linker holds nothing under the name,
/// or something that is no function.
pub uninterp spec fn linked_signature(
    linker: wasmtime::Linker<HostState>,
    module_name: Seq<char>,
    name: Seq<char>,
) -> Option<SignatureShape>;

/// `Store::new` of wasmtime.
#[verifier::external_body]
fn new_store(engine: &wasmtime::Engine, state: HostState) -> (store: wasmtime::Store<HostState>) {
    wasmtime::Store::new(engine, state)
}

/// `Linker::new` of wasmtime: a linker that holds nothing.
#[verifier::external_body]
fn new_linker(engine: &wasmtime::Engine) -> (linker: wasmtime::Linker<HostState>)
    ensures
        forall|namespace: Seq<char>, name: Seq<char>| !#[trigger] engine_holds(linker, namespace, name),
        forall|namespace: Seq<char>, name: Seq<char>|
            #[trigger] linked_signature(linker, namespace, name) is None,
{
    wasmtime::Linker::new(engine)
}

/// `Linker::define` of wasmtime on the shared memory of the store's state.
/// It fails exactly where the name is taken, and then changes nothing;
/// afterwards the name is held, and no other name is gained or lost.
#[verifier::external_body]
fn define_memory(
    linker: &mut wasmtime::Linker<HostState>,
    store: &wasmtime::Store<HostState>,
    namespace: &str,
    name: &str,
) -> (defined: Result<(), wasmtime::Error>)
    ensures
        defined is Ok <==> !engine_holds(*old(linker), namespace@, name@),
        forall|other: Seq<char>, field: Seq<char>|
            #[trigger] engine_holds(*final(linker), other, field) == (engine_holds(
                *old(linker),
                other,
                field,
            ) || (other == namespace@ && field == name@)),
{
    linker.define(store, namespace, name, store.data().memory.clone()).map(|_| ())
}

/// `Linker::func_wrap` of wasmtime on a function of two 32-bit integers and
/// no result, which hands the host state and the two integers to `handler`.
/// It fails exactly where the name is taken, and then changes nothing;
/// afterwards the name is held, and no other name is gained or lost.
#[verifier::external_body]
fn define_print<F: Fn(&HostState, u32, u32) + Send + Sync + 'static>(
    linker: &mut wasmtime::Linker<HostState>,
    namespace: &str,
    name: &str,
    handler: F,
) -> (defined: Result<(), wasmtime::Error>)
    ensures
        defined is Ok <==> !engine_holds(*old(linker), namespace@, name@),
        forall|other: Seq<char>, field: Seq<char>|
            #[trigger] engine_holds(*final(linker), other, field) == (engine_holds(
                *old(linker),
                other,
                field,
            ) || (other == namespace@ && field == name@)),
{
    linker.func_wrap(
        namespace,
        name,
        move |caller: wasmtime::Caller<'_, HostState>, address: u32, length: u32|
            handler(caller.data(), address, length),
    ).map(|_| ())
}

/// `preview1::add_to_linker_sync` of wasmtime-wasi, which serves the guest
/// from the compatibility layer of the host state. Nothing is claimed of the
/// outcome; wasmtime refuses names that are taken.
#[verifier::external_body]
fn define_wasi(linker: &mut wasmtime::Linker<HostState>) -> (defined: Result<
    (),
    wasmtime::Error,
>) {
    wasmtime_wasi::preview1::add_to_linker_sync(linker, |state: &mut HostState| &mut state.wasi)
}

/// `Linker::module` of wasmtime: instantiates the module and registers its
/// exports under `module_name`. It panics where linker and store belong to
/// different engines, or where the linker holds what another store owns;
/// `Sandbox` makes both from one engine, keeps both to itself and never puts
/// them to work with another. Nothing is claimed of the outcome.
#[verifier::external_body]
fn link_module(
    linker: &mut wasmtime::Linker<HostState>,
    store: &mut wasmtime::Store<HostState>,
    module_name: &str,
    module: &wasmtime::Module,
) -> (linked: Result<(), wasmtime::Error>) {
    linker.module(store, module_name, module).map(|_| ())
}

/// Tells the variants of wasmtime's `ValType` apart.
#[verifier::external_body]
fn kind_of(ty: wasmtime::ValType) -> (kind: ValueKind) {
    match ty {
        wasmtime::ValType::I32 => ValueKind::I32,
        wasmtime::ValType::I64 => ValueKind::I64,
        wasmtime::ValType::F32 => ValueKind::F32,
        wasmtime::ValType::F64 => ValueKind::F64,
        wasmtime::ValType::V128 => ValueKind::V128,
        wasmtime::ValType::Ref(_) => ValueKind::Ref,
    }
}

/// `FuncType::params` and `FuncType::results` of wasmtime, kind by kind.
#[verifier::external_body]
fn signature_from(ty: &wasmtime::FuncType) -> (signature: Signature) {
    Signature { params: ty.params().map(kind_of).collect(), results: ty.results().map(kind_of).collect() }
}

/// `Linker::get`, `Extern::into_func` and `Func::ty` of wasmtime: the
/// function that the linker holds under the two-part name, with its
/// signature, if there is one. `Linker::get` panics where linker and store
/// belong to different engines, and `Func::ty` where the store does not own
/// the function; `Sandbox` makes linker and store from one engine and keeps
/// both to itself.
#[verifier::external_body]
fn find_export(
    linker: &wasmtime::Linker<HostState>,
    store: &mut wasmtime::Store<HostState>,
    module_name: &str,
    name: &str,
) -> (found: Option<(wasmtime::Func, Signature)>)
    ensures
        match found {
            Some(pair) => linked_signature(*linker, module_name@, name@) == Some(pair.1@),
            None => linked_signature(*linker, module_name@, name@) is None,
        },
{
    let function = linker.get(&mut *store, module_name, name).and_then(|item| item.into_func());
    function.map(|function| (function, signature_from(&function.ty(&*store))))
}

/// Tells the variants of wasmtime's `ExternType` apart, with the limits of a
/// memory as `MemoryType::minimum`, `maximum` and `is_shared` give them.
#[verifier::external_body]
fn shape_from(ty: wasmtime::ExternType) -> (shape: Shape) {
    match ty {
        wasmtime::ExternType::Func(function) => Shape::Function(signature_from(&function)),
        wasmtime::ExternType::Memory(memory) => Shape::Memory {
            minimum: memory.minimum(),
            maximum: memory.maximum(),
            shared: memory.is_shared(),
        },
        wasmtime::ExternType::Global(_) => Shape::Other,
        wasmtime::ExternType::Table(_) => Shape::Other,
        wasmtime::ExternType::Tag(_) => Shape::Other,
    }
}

/// `Module::imports` of wasmtime, in the order the module declares them:
/// the list is the one that `declared_imports` names.
#[verifier::external_body]
fn module_imports(module: &wasmtime::Module) -> (imports: Vec<Import>)
    ensures
        import_views(imports@) == declared_imports(*module),
{
    module.imports().map(
        |import|
            Import {
                namespace: import.module().to_string(),
                name: import.name().to_string(),
                shape: shape_from(import.ty()),
            },
    ).collect()
}

/// `Module::exports` of wasmtime, in the order the module declares them:
/// the list is the one that `declared_exports` names.
#[verifier::external_body]
fn module_exports(module: &wasmtime::Module) -> (exports: Vec<Export>)
    ensures
        export_views(exports@) == declared_exports(*module),
{
    module.exports().map(
        |export| Export { name: export.name().to_string(), shape: shape_from(export.ty()) },
    ).collect()
}

/// The wasmtime `Val` of a value.
#[verifier::external_body]
fn to_val(value: &Value) -> (val: wasmtime::Val) {
    match value {
        Value::I32(v) => wasmtime::Val::I32(*v),
        Value::I64(v) => wasmtime::Val::I64(*v),
        Value::F32(bits) => wasmtime::Val::F32(*bits),
        Value::F64(bits) => wasmtime::Val::F64(*bits),
    }
}

/// The value of a wasmtime `Val`, or `None` for a vector or a reference.
#[verifier::external_body]
fn from_val(val: &wasmtime::Val) -> (value: Option<Value>) {
    match val {
        wasmtime::Val::I32(v) => Some(Value::I32(*v)),
        wasmtime::Val::I64(v) => Some(Value::I64(*v)),
        wasmtime::Val::F32(bits) => Some(Value::F32(*bits)),
        wasmtime::Val::F64(bits) => Some(Value::F64(*bits)),
        wasmtime::Val::V128(_) => None,
        wasmtime::Val::FuncRef(_) => None,
        wasmtime::Val::ExternRef(_) => None,
        wasmtime::Val::AnyRef(_) => None,
        wasmtime::Val::ExnRef(_) => None,
    }
}

/// `Func::call` of wasmtime with room for `result_count` results. It panics
/// where the store does not own the function or is asynchronous; `Sandbox`
/// keeps each function beside the store it came from and makes no
/// asynchronous store. Nothing is claimed of the outcome: the guest decides
/// it.
#[verifier::external_body]
fn invoke(
    function: &wasmtime::Func,
    store: &mut wasmtime::Store<HostState>,
    arguments: &Vec<Value>,
    result_count: usize,
) -> (answer: Result<Vec<Option<Value>>, wasmtime::Error>) {
    let arguments: Vec<wasmtime::Val> = arguments.iter().map(to_val).collect();
    let mut results: Vec<wasmtime::Val> = vec![wasmtime::Val::I32(0); result_count];
    function.call(store, &arguments, &mut results).map(|_| results.iter().map(from_val).collect())
}

/// The imports that a compiled module declares, in its own order.
pub fn imports_of(module: &wasmtime::Module) -> (imports: Vec<Import>)
    ensures
        import_views(imports@) == declared_imports(*module),
{
    module_imports(module)
}

/// The exports that a compiled module declares, in its own order.
pub fn exports_of(module: &wasmtime::Module) -> (exports: Vec<Export>)
    ensures
        export_views(exports@) == declared_exports(*module),
{
    module_exports(module)
}

/// The values of a call's results, if each of them is a number.
pub open spec fn all_numbers(results: Seq<Option<Value>>) -> Option<Seq<Value>> {
    if forall|i: int| 0 <= i < results.len() ==> (#[trigger] results[i]) is Some {
        Some(Seq::new(results.len(), |i: int| results[i]->0))
    } else {
        None
    }
}

/// Keeps the values of a call's results, if each of them is a number.
pub fn numbers_of(results: &Vec<Option<Value>>) -> (values: Option<Vec<Value>>)
    ensures
        match values {
            Some(kept) => all_numbers(results@) == Some(kept@),
            None => all_numbers(results@) is None,
        },
{
    let mut kept: Vec<Value> = Vec::new();
    let mut i: usize = 0;
    while i < results.len()
        invariant
            i <= results@.len(),
            kept@.len() == i,
            forall|k: int| 0 <= k < i ==> #[trigger] results@[k] == Some(kept@[k]),
        decreases results@.len() - i,
    {
        match results[i] {
            Some(value) => kept.push(value),
            None => {
                assert(!(results@[i as int] is Some));
                return None;
            },
        }
        i += 1;
    }
    assert(kept@ =~= Seq::new(results@.len(), |i: int| results@[i]->0));
    Some(kept)
}

/// What a call with a result of type `Ret` made, given what the engine
/// answered: the host value where the engine returned values of the kinds of
/// `Ret`, a `SignatureMismatch` where it returned others, and a `Trap` that
/// carries the engine's report where the call did not complete.
pub fn call_outcome<Ret: Native>(answer: Result<Vec<Option<Value>>, String>, name: &str) -> (outcome:
    Result<Ret, HostError>)
    ensures
        match answer {
            Ok(results) => match all_numbers(results@) {
                Some(values) => match Ret::parse(values) {
                    Some(value) => outcome == Ok::<Ret, HostError>(value),
                    None => outcome matches Err(HostError::SignatureMismatch { name: refused })
                        && refused@ == name@,
                },
                None => outcome matches Err(HostError::SignatureMismatch { name: refused })
                    && refused@ == name@,
            },
            Err(report) => outcome matches Err(HostError::Trap { detail }) && detail == report,
        },
{
    match answer {
        Ok(results) => {
            let parsed: Option<Ret> = match numbers_of(&results) {
                Some(values) => Ret::from_values(&values),
                None => None,
            };
            match parsed {
                Some(value) => Ok(value),
                None => Err(HostError::SignatureMismatch { name: name.to_owned() }),
            }
        },
        Err(report) => Err(HostError::Trap { detail: report }),
    }
}

/// The right to call one export of a sandbox with arguments of type `Args`
/// for a result of type `Ret`. Only `Sandbox::get_export` makes one, once the
/// export's signature has been checked against the two types.
pub struct TypedHandle<Args, Ret> {
    slot: usize,
    name: String,
    marker: PhantomData<(Args, Ret)>,
}

impl<Args, Ret> TypedHandle<Args, Ret> {
    /// The place of the export among those its sandbox has acquired.
    pub closed spec fn slot(&self) -> int {
        self.slot as int
    }

    /// The name under which the export was acquired.
    pub closed spec fn label(&self) -> Seq<char> {
        self.name@
    }

    /// The name under which the export was acquired.
    pub fn name(&self) -> (name: &str)
        ensures
            name@ == self.label(),
    {
        self.name.as_str()
    }
}

/// One store and one linker of the engine, the instances made in them and
/// the exports acquired from those instances.
///
/// Two sandboxes of one execution context are separate: each has its own
/// instances with their own globals and tables. They meet only in the memory
/// that both bind.
pub struct Sandbox {
    store: wasmtime::Store<HostState>,
    linker: wasmtime::Linker<HostState>,
    offered: ImportLinker,
    names: Vec<String>,
    states: Vec<InstanceState>,
    functions: Vec<wasmtime::Func>,
    declared: Vec<Signature>,
    labels: Vec<String>,
    owners: Vec<usize>,
    minimum_pages: u32,
    maximum_pages: u32,
}

/// Whether `index` is the latest instance registered under `name`.
pub open spec fn is_latest_named(names: Seq<String>, index: int, name: Seq<char>) -> bool {
    &&& 0 <= index < names.len()
    &&& names[index]@ == name
    &&& forall|j: int| index < j < names.len() ==> (#[trigger] names[j])@ != name
}

/// Whether some instance is registered under `name`.
pub open spec fn has_named(names: Seq<String>, name: Seq<char>) -> bool {
    exists|i: int| 0 <= i < names.len() && (#[trigger] names[i])@ == name
}

/// Whether the latest instance registered under `name` is dropped.
pub open spec fn latest_dropped(names: Seq<String>, states: Seq<InstanceState>, name: Seq<char>) -> bool {
    exists|i: int| #[trigger] is_latest_named(names, i, name) && i < states.len() && states[i] is Dropped
}

/// Whether the error names the export `name` as not found.
pub open spec fn not_found(e: HostError, name: Seq<char>) -> bool {
    e matches HostError::ExportNotFound { name: missing } && missing@ == name
}

/// Whether the error is a link error under these two names.
pub open spec fn link_error_at(e: HostError, first: Seq<char>, second: Seq<char>) -> bool {
    e matches HostError::LinkError { namespace, name, detail } && namespace@ == first && name@
        == second
}

/// The shape of the function that prints guest text: the address and the
/// length of the text, and no result.
pub open spec fn print_shape() -> ShapeView {
    ShapeView::Function(
        crate::signature::SignatureShape {
            params: seq![ValueKind::I32, ValueKind::I32],
            results: Seq::empty(),
        },
    )
}

/// The namespace of the compatibility layer.
pub open spec fn layer_namespace() -> Seq<char> {
    "wasi_snapshot_preview1"@
}

/// What is registered under a two-part name once those of `imports` that lie
/// in the layer's namespace have been offered, first to last, on top of
/// `definitions`.
pub open spec fn offered_with_layer(
    definitions: Seq<crate::linker::Definition>,
    imports: Seq<ImportView>,
    namespace: Seq<char>,
    name: Seq<char>,
) -> Option<ShapeView>
    decreases imports.len(),
{
    if imports.len() == 0 {
        lookup(definitions, namespace, name)
    } else if imports.last().namespace == layer_namespace() && imports.last().namespace == namespace
        && imports.last().name == name {
        Some(imports.last().shape)
    } else {
        offered_with_layer(definitions, imports.drop_last(), namespace, name)
    }
}

/// Finds the latest instance registered under `name`.
pub fn find_latest(names: &Vec<String>, name: &str) -> (found: Option<usize>)
    ensures
        match found {
            Some(index) => is_latest_named(names@, index as int, name@),
            None => !has_named(names@, name@),
        },
{
    let wanted: String = name.to_owned();
    let mut remaining: usize = names.len();
    while remaining > 0
        invariant
            remaining <= names@.len(),
            wanted@ == name@,
            forall|j: int| remaining <= j < names@.len() ==> (#[trigger] names@[j])@ != name@,
        decreases remaining,
    {
        if names[remaining - 1] == wanted {
            return Some(remaining - 1);
        }
        remaining -= 1;
    }
    None
}

impl Sandbox {
    /// What the host has registered, by two-part name.
    pub closed spec fn offered(&self) -> ImportLinker {
        self.offered
    }

    /// The signatures of the exports acquired so far, by slot.
    pub closed spec fn acquired(&self) -> Seq<Signature> {
        self.declared@
    }

    /// The names under which the exports were acquired, by slot.
    pub closed spec fn labels(&self) -> Seq<String> {
        self.labels@
    }

    /// The instance that each acquired export belongs to, by slot.
    pub closed spec fn owners(&self) -> Seq<usize> {
        self.owners@
    }

    /// The names under which the instances were registered, oldest first.
    pub closed spec fn names(&self) -> Seq<String> {
        self.names@
    }

    /// Where each instance stands, in the order of `names`.
    pub closed spec fn states(&self) -> Seq<InstanceState> {
        self.states@
    }

    /// The engine's linker that the sandbox holds.
    pub closed spec fn held_linker(&self) -> wasmtime::Linker<HostState> {
        self.linker
    }

    /// The shape under which the shared memory is bound: the limits the
    /// execution context was made with.
    pub closed spec fn memory_shape(&self) -> ShapeView {
        ShapeView::Memory {
            minimum: self.minimum_pages as u64,
            maximum: Some(self.maximum_pages as u64),
            shared: true,
        }
    }

    /// Whether the sandbox holds, in the handle's slot, an export acquired
    /// under the handle's name.
    pub open spec fn holds<Args, Ret>(&self, handle: &TypedHandle<Args, Ret>) -> bool {
        &&& 0 <= handle.slot() < self.labels().len()
        &&& self.labels()[handle.slot()]@ == handle.label()
    }

    /// Every instance has a name and a state and no call is in flight; every
    /// acquired export has a signature and a name and belongs to one of the
    /// instances.
    pub closed spec fn well_formed(&self) -> bool {
        &&& self.names@.len() == self.states@.len()
        &&& self.functions@.len() == self.declared@.len()
        &&& self.owners@.len() == self.declared@.len()
        &&& self.labels@.len() == self.declared@.len()
        &&& forall|slot: int|
            0 <= slot < self.owners@.len() ==> (#[trigger] self.owners@[slot]) < self.states@.len()
        &&& forall|i: int|
            0 <= i < self.states@.len() ==> {
                ||| (#[trigger] self.states@[i]) is Instantiated
                ||| self.states@[i] is Trapped
                ||| self.states@[i] is Dropped
            }
    }

    /// What stays as it was when nothing is registered and no instance is
    /// made or dropped.
    pub open spec fn same_setup(&self, before: &Sandbox) -> bool {
        &&& self.offered() == before.offered()
        &&& self.memory_shape() == before.memory_shape()
        &&& self.names() == before.names()
    }

    /// What stays as it was when no export is acquired.
    pub open spec fn same_exports(&self, before: &Sandbox) -> bool {
        &&& self.acquired() == before.acquired()
        &&& self.labels() == before.labels()
        &&& self.owners() == before.owners()
    }

    /// Makes a sandbox in the execution context, with the state of the
    /// compatibility layer that its host functions are to reach. Nothing is
    /// registered in it yet, it has no instance and no export is acquired.
    pub fn new(context: &ExecutionContext, wasi: wasmtime_wasi::preview1::WasiP1Ctx) -> (made:
        Sandbox)
        ensures
            made.well_formed(),
            made.offered()@.len() == 0,
            made.acquired().len() == 0,
            made.labels().len() == 0,
            made.names().len() == 0,
            made.states().len() == 0,
            forall|namespace: Seq<char>, name: Seq<char>|
                !#[trigger] engine_holds(made.held_linker(), namespace, name),
            forall|namespace: Seq<char>, name: Seq<char>|
                #[trigger] linked_signature(made.held_linker(), namespace, name) is None,
            made.memory_shape() == (ShapeView::Memory {
                minimum: context.initial() as u64,
                maximum: Some(context.max() as u64),
                shared: true,
            }),
    {
        let state = HostState { memory: share(context.memory()), wasi };
        let store = new_store(context.engine(), state);
        let linker = new_linker(context.engine());
        Sandbox {
            store,
            linker,
            offered: ImportLinker::new(),
            names: Vec::new(),
            states: Vec::new(),
            functions: Vec::new(),
            declared: Vec::new(),
            labels: Vec::new(),
            owners: Vec::new(),
            minimum_pages: context.initial_pages(),
            maximum_pages: context.maximum_pages(),
        }
    }

    /// Registers what the host provides under a two-part name, so that
    /// imports of that name are checked against `shape`. The engine is not
    /// told: a module is instantiated only if the engine, too, knows the
    /// name.
    pub fn offer(&mut self, namespace: &str, name: &str, shape: Shape)
        requires
            old(self).well_formed(),
        ensures
            final(self).well_formed(),
            final(self).same_exports(old(self)),
            final(self).names() == old(self).names(),
            final(self).states() == old(self).states(),
            final(self).memory_shape() == old(self).memory_shape(),
            final(self).held_linker() == old(self).held_linker(),
            lookup(final(self).offered()@, namespace@, name@) == Some(shape@),
            forall|other_namespace: Seq<char>, other_name: Seq<char>|
                !(other_namespace == namespace@ && other_name == name@) ==> #[trigger] lookup(
                    final(self).offered()@,
                    other_namespace,
                    other_name,
                ) == lookup(old(self).offered()@, other_namespace, other_name),
    {
        self.offered.define(namespace, name, shape);
    }

    /// Binds the shared memory of the execution context under a two-part
    /// name, with the limits the context was made with. The engine refuses a
    /// name that is taken; then nothing is registered.
    pub fn bind_memory(&mut self, namespace: &str, name: &str) -> (bound: Result<(), HostError>)
        requires
            old(self).well_formed(),
        ensures
            final(self).well_formed(),
            final(self).same_exports(old(self)),
            final(self).names() == old(self).names(),
            final(self).states() == old(self).states(),
            final(self).memory_shape() == old(self).memory_shape(),
            bound is Ok <==> !engine_holds(old(self).held_linker(), namespace@, name@),
            forall|other: Seq<char>, field: Seq<char>|
                #[trigger] engine_holds(final(self).held_linker(), other, field) == (engine_holds(
                    old(self).held_linker(),
                    other,
                    field,
                ) || (other == namespace@ && field == name@)),
            bound is Ok ==> {
                &&& lookup(final(self).offered()@, namespace@, name@) == Some(
                    old(self).memory_shape(),
                )
                &&& forall|other_namespace: Seq<char>, other_name: Seq<char>|
                    !(other_namespace == namespace@ && other_name == name@) ==> #[trigger] lookup(
                        final(self).offered()@,
                        other_namespace,
                        other_name,
                    ) == lookup(old(self).offered()@, other_namespace, other_name)
            },
            bound matches Err(e) ==> link_error_at(e, namespace@, name@) && final(self).offered()
                == old(self).offered(),
    {
        match define_memory(&mut self.linker, &self.store, namespace, name) {
            Ok(_) => {
                let shape = Shape::Memory {
                    minimum: self.minimum_pages as u64,
                    maximum: Some(self.maximum_pages as u64),
                    shared: true,
                };
                self.offered.define(namespace, name, shape);
                Ok(())
            },
            Err(e) => Err(
                HostError::LinkError {
                    namespace: namespace.to_owned(),
                    name: name.to_owned(),
                    detail: error_text(&e),
                },
            ),
        }
    }

    /// Binds the function through which guests print text, under a two-part
    /// name: a function of the address and the length of the text. Each time
    /// a guest calls it, `handler` is given the host state and the two
    /// numbers. The engine refuses a name that is taken; then nothing is
    /// registered.
    pub fn bind_print<F: Fn(&HostState, u32, u32) + Send + Sync + 'static>(
        &mut self,
        namespace: &str,
        name: &str,
        handler: F,
    ) -> (bound: Result<(), HostError>)
        requires
            old(self).well_formed(),
            forall|state: &HostState, address: u32, length: u32|
                handler.requires((state, address, length)),
        ensures
            final(self).well_formed(),
            final(self).same_exports(old(self)),
            final(self).names() == old(self).names(),
            final(self).states() == old(self).states(),
            final(self).memory_shape() == old(self).memory_shape(),
            bound is Ok <==> !engine_holds(old(self).held_linker(), namespace@, name@),
            forall|other: Seq<char>, field: Seq<char>|
                #[trigger] engine_holds(final(self).held_linker(), other, field) == (engine_holds(
                    old(self).held_linker(),
                    other,
                    field,
                ) || (other == namespace@ && field == name@)),
            bound is Ok ==> {
                &&& lookup(final(self).offered()@, namespace@, name@) == Some(print_shape())
                &&& forall|other_namespace: Seq<char>, other_name: Seq<char>|
                    !(other_namespace == namespace@ && other_name == name@) ==> #[trigger] lookup(
                        final(self).offered()@,
                        other_namespace,
                        other_name,
                    ) == lookup(old(self).offered()@, other_namespace, other_name)
            },
            bound matches Err(e) ==> link_error_at(e, namespace@, name@) && final(self).offered()
                == old(self).offered(),
    {
        match define_print(&mut self.linker, namespace, name, handler) {
            Ok(_) => {
                let mut params: Vec<ValueKind> = Vec::new();
                params.push(ValueKind::I32);
                params.push(ValueKind::I32);
                let shape = Shape::Function(Signature { params, results: Vec::new() });
                assert(shape@ =~= print_shape()) by {
                    assert(params@ =~= seq![ValueKind::I32, ValueKind::I32]);
                }
                self.offered.define(namespace, name, shape);
                Ok(())
            },
            Err(e) => Err(
                HostError::LinkError {
                    namespace: namespace.to_owned(),
                    name: name.to_owned(),
                    detail: error_text(&e),
                },
            ),
        }
    }

    /// Puts the compatibility layer into the engine's linker, to serve
    /// guests from the state the sandbox was made with. The layer's
    /// functions are many and the layer alone knows them: what a module
    /// imports of them is registered with `offer`. The engine refuses the
    /// layer where one of its names is taken.
    pub fn bind_wasi(&mut self) -> (bound: Result<(), HostError>)
        requires
            old(self).well_formed(),
        ensures
            final(self).well_formed(),
            final(self).same_exports(old(self)),
            final(self).same_setup(old(self)),
            final(self).states() == old(self).states(),
            bound matches Err(e) ==> link_error_at(e, layer_namespace(), ""@),
    {
        match define_wasi(&mut self.linker) {
            Ok(_) => Ok(()),
            Err(e) => Err(
                HostError::LinkError {
                    namespace: "wasi_snapshot_preview1".to_owned(),
                    name: "".to_owned(),
                    detail: error_text(&e),
                },
            ),
        }
    }

    /// Instantiates a module and registers its exports under `module_name`.
    ///
    /// The imports of the module are first held against what is registered:
    /// the module is handed to the engine only if every import is bound to
    /// exactly what it declares, and the first that is not is reported by
    /// name. No instance exists after a failure.
    pub fn instantiate(&mut self, module_name: &str, module: &wasmtime::Module) -> (made: Result<
        (),
        HostError,
    >)
        requires
            old(self).well_formed(),
        ensures
            final(self).well_formed(),
            final(self).same_exports(old(self)),
            final(self).offered() == old(self).offered(),
            final(self).memory_shape() == old(self).memory_shape(),
            match made {
                Ok(_) => {
                    &&& all_bound(old(self).offered()@, declared_imports(*module))
                    &&& final(self).names().len() == old(self).names().len() + 1
                    &&& final(self).names().drop_last() == old(self).names()
                    &&& final(self).names().last()@ == module_name@
                    &&& final(self).states() == old(self).states().push(InstanceState::Instantiated)
                },
                Err(e) => {
                    &&& final(self).names() == old(self).names()
                    &&& final(self).states() == old(self).states()
                    &&& if all_bound(old(self).offered()@, declared_imports(*module)) {
                        link_error_at(e, module_name@, ""@)
                    } else {
                        &&& reports_unbound(e, old(self).offered()@, declared_imports(*module))
                        &&& final(self).held_linker() == old(self).held_linker()
                    }
                },
            },
    {
        let imports: Vec<Import> = module_imports(module);
        proof {
            lemma_bound_by_view(self.offered()@, imports@);
        }
        self.instantiate_checked(module_name, module, &imports)
    }

    /// Instantiates a module whose imports are `imports`. The engine is asked
    /// only where every import is bound to exactly what it declares;
    /// otherwise the first import that is not is reported by name. Where the
    /// engine refuses, the report is under the module's name. A module
    /// reaches the state `Instantiated` through `Linked`, or no state at all.
    pub fn instantiate_checked(
        &mut self,
        module_name: &str,
        module: &wasmtime::Module,
        imports: &Vec<Import>,
    ) -> (made: Result<(), HostError>)
        requires
            old(self).well_formed(),
        ensures
            final(self).well_formed(),
            final(self).same_exports(old(self)),
            final(self).offered() == old(self).offered(),
            final(self).memory_shape() == old(self).memory_shape(),
            match made {
                Ok(_) => {
                    &&& bound_before(old(self).offered()@, imports@, imports@.len() as int)
                    &&& final(self).names().len() == old(self).names().len() + 1
                    &&& final(self).names().drop_last() == old(self).names()
                    &&& final(self).names().last()@ == module_name@
                    &&& final(self).states() == old(self).states().push(InstanceState::Instantiated)
                },
                Err(e) => {
                    &&& final(self).names() == old(self).names()
                    &&& final(self).states() == old(self).states()
                    &&& if bound_before(old(self).offered()@, imports@, imports@.len() as int) {
                        link_error_at(e, module_name@, ""@)
                    } else {
                        &&& reports_unbound(e, old(self).offered()@, import_views(imports@))
                        &&& final(self).held_linker() == old(self).held_linker()
                    }
                },
            },
    {
        match self.offered.check(imports) {
            Ok(_) => {},
            Err(e) => { return Err(e); },
        }
        let linked: Option<InstanceState> = step(InstanceState::Compiled, InstanceEvent::Link);
        match link_module(&mut self.linker, &mut self.store, module_name, module) {
            Ok(_) => {
                let reached: InstanceState = match linked {
                    Some(state) => match step(state, InstanceEvent::Instantiate) {
                        Some(next) => next,
                        None => InstanceState::Instantiated,
                    },
                    None => InstanceState::Instantiated,
                };
                self.names.push(module_name.to_owned());
                self.states.push(reached);
                assert(self.names@.drop_last() =~= old(self).names@);
                Ok(())
            },
            Err(e) => Err(
                HostError::LinkError {
                    namespace: module_name.to_owned(),
                    name: "".to_owned(),
                    detail: error_text(&e),
                },
            ),
        }
    }

    /// Where the latest instance registered under `module_name` stands, or
    /// `None` where there is none.
    pub fn state_of(&self, module_name: &str) -> (state: Option<InstanceState>)
        requires
            self.well_formed(),
        ensures
            match state {
                Some(found) => exists|i: int|
                    #[trigger] is_latest_named(self.names(), i, module_name@) && self.states()[i]
                        == found,
                None => !has_named(self.names(), module_name@),
            },
    {
        match find_latest(&self.names, module_name) {
            Some(index) => {
                assert(is_latest_named(self.names(), index as int, module_name@));
                Some(self.states[index])
            },
            None => None,
        }
    }

    /// Drops the latest instance registered under `module_name`: none of its
    /// exports is called any more. Returns whether there was such an
    /// instance still to drop.
    pub fn drop_instance(&mut self, module_name: &str) -> (dropped: bool)
        requires
            old(self).well_formed(),
        ensures
            final(self).well_formed(),
            final(self).same_setup(old(self)),
            final(self).same_exports(old(self)),
            final(self).held_linker() == old(self).held_linker(),
            final(self).states().len() == old(self).states().len(),
            dropped ==> exists|i: int|
                #[trigger] is_latest_named(old(self).names(), i, module_name@) && next_state(
                    old(self).states()[i],
                    InstanceEvent::Drop,
                ) == Some(InstanceState::Dropped) && final(self).states() == old(
                    self,
                ).states().update(i, InstanceState::Dropped),
            !dropped ==> final(self).states() == old(self).states(),
            !dropped ==> !has_named(old(self).names(), module_name@) || latest_dropped(
                old(self).names(),
                old(self).states(),
                module_name@,
            ),
    {
        let index: usize = match find_latest(&self.names, module_name) {
            Some(index) => index,
            None => { return false; },
        };
        assert(is_latest_named(self.names(), index as int, module_name@));
        match step(self.states[index], InstanceEvent::Drop) {
            Some(next) => {
                self.states.set(index, next);
                assert(is_latest_named(old(self).names(), index as int, module_name@));
                true
            },
            None => {
                assert(self.states()[index as int] is Dropped);
                false
            },
        }
    }

    /// Registers, of the imports given, those that the compatibility layer
    /// serves: each import in the layer's namespace is offered with the shape
    /// it declares. Imports of other namespaces are left to what the host
    /// registers itself.
    pub fn offer_layer(&mut self, imports: &Vec<Import>)
        requires
            old(self).well_formed(),
        ensures
            final(self).well_formed(),
            final(self).same_exports(old(self)),
            final(self).names() == old(self).names(),
            final(self).states() == old(self).states(),
            final(self).memory_shape() == old(self).memory_shape(),
            final(self).held_linker() == old(self).held_linker(),
            forall|namespace: Seq<char>, name: Seq<char>|
                #[trigger] lookup(final(self).offered()@, namespace, name) == offered_with_layer(
                    old(self).offered()@,
                    import_views(imports@),
                    namespace,
                    name,
                ),
    {
        let layer: String = "wasi_snapshot_preview1".to_owned();
        let ghost views = import_views(imports@);
        let mut index: usize = 0;
        assert(views.take(0) =~= Seq::<ImportView>::empty());
        while index < imports.len()
            invariant
                index <= imports@.len(),
                views == import_views(imports@),
                layer@ == layer_namespace(),
                self.well_formed(),
                self.same_exports(old(self)),
                self.names() == old(self).names(),
                self.states() == old(self).states(),
                self.memory_shape() == old(self).memory_shape(),
                self.held_linker() == old(self).held_linker(),
                forall|namespace: Seq<char>, name: Seq<char>|
                    #[trigger] lookup(self.offered()@, namespace, name) == offered_with_layer(
                        old(self).offered()@,
                        views.take(index as int),
                        namespace,
                        name,
                    ),
            decreases imports@.len() - index,
        {
            let import: &Import = &imports[index];
            let ghost before = self.offered()@;
            proof {
                assert(views.take(index + 1).last() == import@);
                assert(views.take(index + 1).drop_last() =~= views.take(index as int));
            }
            if import.namespace == layer {
                self.offered.define(
                    import.namespace.as_str(),
                    import.name.as_str(),
                    import.shape.duplicate(),
                );
            }
            index += 1;
        }
        assert(views.take(imports@.len() as int) =~= views);
    }

    /// Acquires the function that the latest instance registered as
    /// `module_name` exports as `name`, for calls with arguments of type
    /// `Args` and a result of type `Ret`. The signature is checked here,
    /// once. Where no instance is registered under `module_name`, or the
    /// latest one is dropped, nothing is exported and the engine is not
    /// asked. Otherwise a handle is given exactly where the engine's linker
    /// holds, under the two names, a function of the signature that the two
    /// types stand for.
    pub fn get_export<Args: Native, Ret: Native>(&mut self, module_name: &str, name: &str) -> (got:
        Result<TypedHandle<Args, Ret>, HostError>)
        requires
            old(self).well_formed(),
        ensures
            final(self).well_formed(),
            final(self).same_setup(old(self)),
            final(self).states() == old(self).states(),
            final(self).held_linker() == old(self).held_linker(),
            !has_named(old(self).names(), module_name@) ==> (got matches Err(e) && not_found(
                e,
                name@,
            )),
            latest_dropped(old(self).names(), old(self).states(), module_name@) ==> (got matches Err(
                e,
            ) && not_found(e, name@)),
            has_named(old(self).names(), module_name@) && !latest_dropped(
                old(self).names(),
                old(self).states(),
                module_name@,
            ) ==> match linked_signature(old(self).held_linker(), module_name@, name@) {
                None => got matches Err(e) && not_found(e, name@),
                Some(declared) => if declared == requested::<Args, Ret>() {
                    got is Ok
                } else {
                    got matches Err(HostError::SignatureMismatch { name: refused }) && refused@
                        == name@
                },
            },
            match got {
                Ok(handle) => {
                    &&& handle.slot() == old(self).acquired().len()
                    &&& handle.label() == name@
                    &&& final(self).holds(&handle)
                    &&& final(self).acquired().len() == old(self).acquired().len() + 1
                    &&& final(self).acquired()[handle.slot()]@ == requested::<Args, Ret>()
                    &&& final(self).acquired().drop_last() == old(self).acquired()
                    &&& final(self).labels().drop_last() == old(self).labels()
                    &&& final(self).owners().drop_last() == old(self).owners()
                    &&& is_latest_named(
                        old(self).names(),
                        final(self).owners()[handle.slot()] as int,
                        module_name@,
                    )
                    &&& !(old(self).states()[final(self).owners()[handle.slot()] as int]
                        is Dropped)
                },
                Err(e) => {
                    &&& final(self).same_exports(old(self))
                    &&& not_found(e, name@) || (e matches HostError::SignatureMismatch {
                        name: refused,
                    } && refused@ == name@)
                },
            },
    {
        let owner: usize = match find_latest(&self.names, module_name) {
            Some(index) => index,
            None => { return Err(HostError::ExportNotFound { name: name.to_owned() }); },
        };
        assert(is_latest_named(self.names(), owner as int, module_name@));
        assert forall|i: int| #[trigger]
            is_latest_named(self.names(), i, module_name@) implies i == owner by {
            if i < owner {
                assert(self.names()[owner as int]@ == module_name@);
            }
            if owner < i {
                assert(self.names()[i]@ == module_name@);
            }
        }
        if !callable(self.states[owner]) {
            assert(self.states()[owner as int] is Dropped);
            return Err(HostError::ExportNotFound { name: name.to_owned() });
        }
        let found: Option<(wasmtime::Func, Signature)> = find_export(
            &self.linker,
            &mut self.store,
            module_name,
            name,
        );
        match found {
            None => match check_export::<Args, Ret>(None, name) {
                Ok(_) => Err(HostError::ExportNotFound { name: name.to_owned() }),
                Err(e) => Err(e),
            },
            Some(pair) => {
                let (function, signature) = pair;
                match check_export::<Args, Ret>(Some(&signature), name) {
                    Ok(_) => {
                        let slot: usize = self.functions.len();
                        self.functions.push(function);
                        self.declared.push(signature);
                        self.labels.push(name.to_owned());
                        self.owners.push(owner);
                        assert(self.declared@.drop_last() =~= old(self).declared@);
                        assert(self.labels@.drop_last() =~= old(self).labels@);
                        assert(self.owners@.drop_last() =~= old(self).owners@);
                        Ok(TypedHandle { slot, name: name.to_owned(), marker: PhantomData })
                    },
                    Err(e) => Err(e),
                }
            },
        }
    }

    /// Calls the export behind `handle`.
    ///
    /// The handle is honoured where the sandbox holds, in the handle's slot,
    /// an export acquired under the handle's name and with the signature that
    /// the handle's types stand for, and the instance of that export is not
    /// dropped. A handle that another sandbox gave out is honoured, too,
    /// where all of that fits. Otherwise the guest does not run and no state
    /// changes: the export is reported as not found, or, where only the
    /// signature differs, as mismatched. The engine is asked for the
    /// export's signature once, when the handle is acquired; here the handle
    /// is held against what the sandbox recorded then.
    ///
    /// Whatever stops the call is reported as `Trap` and leaves the instance
    /// `Trapped`, from where it can be called again; a call that returns
    /// leaves it `Instantiated`.
    pub fn call<Args: Native, Ret: Native>(&mut self, handle: &TypedHandle<Args, Ret>, arguments: Args) -> (
    returned: Result<Ret, HostError>)
        requires
            old(self).well_formed(),
        ensures
            final(self).well_formed(),
            final(self).same_setup(old(self)),
            final(self).same_exports(old(self)),
            final(self).held_linker() == old(self).held_linker(),
            final(self).states().len() == old(self).states().len(),
            !old(self).holds(handle) ==> (returned matches Err(e) && not_found(e, handle.label()))
                && final(self).states() == old(self).states(),
            old(self).holds(handle) && old(self).acquired()[handle.slot()]@ != requested::<
                Args,
                Ret,
            >() ==> (returned matches Err(HostError::SignatureMismatch { name: refused }) && refused@
                == handle.label()) && final(self).states() == old(self).states(),
            old(self).holds(handle) && old(self).acquired()[handle.slot()]@ == requested::<
                Args,
                Ret,
            >() ==> {
                let owner = old(self).owners()[handle.slot()] as int;
                if old(self).states()[owner] is Dropped {
                    &&& returned matches Err(e) && not_found(e, handle.label())
                    &&& final(self).states() == old(self).states()
                } else {
                    &&& returned matches Err(e) ==> e is Trap || e is SignatureMismatch
                    &&& final(self).states() == old(self).states().update(
                        owner,
                        if returned matches Err(HostError::Trap { .. }) {
                            InstanceState::Trapped
                        } else {
                            InstanceState::Instantiated
                        },
                    )
                }
            },
    {
        if handle.slot >= self.functions.len() {
            return Err(HostError::ExportNotFound { name: handle.name.clone() });
        }
        if self.labels[handle.slot] != handle.name {
            return Err(HostError::ExportNotFound { name: handle.name.clone() });
        }
        match check_export::<Args, Ret>(Some(&self.declared[handle.slot]), handle.name.as_str()) {
            Ok(_) => {},
            Err(e) => { return Err(e); },
        }
        let owner: usize = self.owners[handle.slot];
        let running: InstanceState = match step(self.states[owner], InstanceEvent::Call) {
            Some(state) => state,
            None => { return Err(HostError::ExportNotFound { name: handle.name.clone() }); },
        };
        let values: Vec<Value> = arguments.to_values();
        let kinds: Vec<ValueKind> = Ret::value_kinds();
        let answer: Result<Vec<Option<Value>>, String> = match invoke(
            &self.functions[handle.slot],
            &mut self.store,
            &values,
            kinds.len(),
        ) {
            Ok(results) => Ok(results),
            Err(e) => Err(error_text(&e)),
        };
        let event: InstanceEvent = match answer {
            Ok(_) => InstanceEvent::Return,
            Err(_) => InstanceEvent::Trap,
        };
        match step(running, event) {
            Some(after) => { self.states.set(owner, after); },
            None => {},
        }
        call_outcome::<Ret>(answer, handle.name.as_str())
    }
}

} // verus!
