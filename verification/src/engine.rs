//! The calls into the `wasmtime` engine. Nothing here is proved, and nothing
//! is claimed of what a guest module answers: that depends on the module.
use vstd::prelude::*;
use wasmtime::{Engine, Instance, Linker, Module, Store, Val};
use wasmtime_wasi::preview1::WasiP1Ctx;
use wasmtime_wasi::WasiCtxBuilder;

verus! {

/// `wasmtime::Engine`, carried through as it is.
#[verifier::external_type_specification]
#[verifier::external_body]
pub struct ExEngine(Engine);

/// `wasmtime::Module`, carried through as it is.
#[verifier::external_type_specification]
#[verifier::external_body]
pub struct ExModule(Module);

/// `wasmtime::Instance`, carried through as it is.
#[verifier::external_type_specification]
#[verifier::external_body]
pub struct ExInstance(Instance);

/// `wasmtime_wasi::preview1::WasiP1Ctx`, carried through as it is.
#[verifier::external_type_specification]
#[verifier::external_body]
pub struct ExWasiP1Ctx(WasiP1Ctx);

/// `wasmtime::Store`, carried through as it is.
#[verifier::external_type_specification]
#[verifier::external_body]
#[verifier::reject_recursive_types(T)]
pub struct ExStore<T: 'static>(Store<T>);

/// `wasmtime::Error`, which the library maps to a fault.
#[verifier::external_type_specification]
#[verifier::external_body]
pub struct ExEngineError(wasmtime::Error);

/// A module instance in the engine, with the store that owns it.
pub struct WasmGuest {
    store: Store<WasiP1Ctx>,
    instance: Instance,
}

/// Whether the engine is configured for asynchronous calls, as
/// `Engine::is_async` tells.
pub uninterp spec fn runs_async(engine: Engine) -> bool;

/// `Engine::is_async`: whether the engine is configured for asynchronous
/// calls. Such an engine refuses the synchronous calls that this library
/// makes.
#[verifier::external_body]
pub(crate) fn engine_is_async(engine: &Engine) -> (asynchronous: bool)
    ensures
        asynchronous == runs_async(*engine),
{
    engine.is_async()
}

/// A fresh instance of `module`: a `Linker` with the system interface added,
/// a `Store` whose context inherits the process's standard streams and has
/// `arguments` as the guest's arguments, then `Linker::module` and
/// `Linker::instantiate`. The engine must not be configured for asynchronous
/// calls: instantiation asserts that.
#[verifier::external_body]
pub(crate) fn instantiate(engine: &Engine, module: &Module, arguments: &Vec<String>) -> (r: Result<
    WasmGuest,
    wasmtime::Error,
>)
    requires
        !runs_async(*engine),
{
    let mut linker: Linker<WasiP1Ctx> = Linker::new(engine);
    wasmtime_wasi::preview1::add_to_linker_sync(&mut linker, |context| context)?;
    let context = WasiCtxBuilder::new().inherit_stdio().args(arguments).build_p1();
    let mut store = Store::new(engine, context);
    linker.module(&mut store, "", module)?;
    let instance = linker.instantiate(&mut store, module)?;
    Ok(WasmGuest { store, instance })
}

/// `Instance::get_func` by name, then `Func::call` with the arguments as
/// 32-bit integers and room for one result, which must be one too.
#[verifier::external_body]
pub(crate) fn call_export(guest: &mut WasmGuest, name: &str, args: &Vec<u32>) -> (r: Result<
    u32,
    wasmtime::Error,
>) {
    let export = guest.instance.get_func(&mut guest.store, name);
    let func = export.ok_or_else(|| wasmtime::Error::msg("no such exported function"))?;
    let params: Vec<Val> = args.iter().map(|word| Val::I32(*word as i32)).collect();
    let mut results = [Val::I32(0)];
    func.call(&mut guest.store, &params, &mut results)?;
    let word = results[0].i32().ok_or_else(|| wasmtime::Error::msg("no 32-bit result"))?;
    Ok(word as u32)
}

/// `Instance::get_memory` of the export `memory`, then `Memory::read`, which
/// fills the whole buffer or fails.
#[verifier::external_body]
pub(crate) fn read_memory(guest: &mut WasmGuest, offset: u32, len: u32) -> (r: Result<
    Vec<u8>,
    wasmtime::Error,
>)
    ensures
        r is Ok ==> r->Ok_0@.len() == len,
{
    let export = guest.instance.get_memory(&mut guest.store, "memory");
    let memory = export.ok_or_else(|| wasmtime::Error::msg("no exported memory"))?;
    let mut buffer = vec![0u8; len as usize];
    memory.read(&guest.store, offset as usize, &mut buffer)?;
    Ok(buffer)
}

/// `Instance::get_memory` of the export `memory`, then `Memory::write`.
#[verifier::external_body]
pub(crate) fn write_memory(guest: &mut WasmGuest, offset: u32, bytes: &[u8]) -> (r: Result<
    (),
    wasmtime::Error,
>) {
    let export = guest.instance.get_memory(&mut guest.store, "memory");
    let memory = export.ok_or_else(|| wasmtime::Error::msg("no exported memory"))?;
    memory.write(&mut guest.store, offset as usize, bytes)?;
    Ok(())
}

} // verus!
