//! Running the XM transform module with wasmer.
//!
//! The module exports a stack-pointer function `a`, an allocator `c`, the transform `g`
//! and a memory `i`. The calling protocol lives in `decrypt_chunk_native`; each wasmer
//! operation it needs is a small trusted wrapper below. The memory's bytes are modelled,
//! and every handle is tied to the store it belongs to. What a call of an exported function
//! computes is not stated: its outcome depends on the instance's whole state (its globals
//! and tables as well as its memory), NaN bit patterns may differ between machines (wasmer
//! does not canonicalise NaNs by default), and growing memory depends on what the host can
//! allocate.
use vstd::prelude::*;
use vstd::utf8::{decode_utf8, valid_utf8};
use wasmer::sys::{BaseTunables, NativeEngineExt};
use wasmer::{Engine, Function, Imports, Instance, Memory, Module, Pages, Store, Value};
use wasmer_compiler_cranelift::Cranelift;
use crate::codec::utf8_string;
use crate::text::{concat_of, sub_of, chars_of, string_of, starts_with};
use crate::{XmError, XmErrorView};

verus! {

#[verifier::external_type_specification]
#[verifier::external_body]
pub struct ExWasmStore(Store);

#[verifier::external_type_specification]
#[verifier::external_body]
pub struct ExWasmModule(Module);

#[verifier::external_type_specification]
#[verifier::external_body]
pub struct ExWasmInstance(Instance);

#[verifier::external_type_specification]
#[verifier::external_body]
pub struct ExWasmFunction(Function);

#[verifier::external_type_specification]
#[verifier::external_body]
pub struct ExWasmMemory(Memory);

/// `Store::new` over a Cranelift engine whose tunables give every linear memory the
/// bounds-checked ("dynamic") style: memories reserve only the pages in use plus a 64 KiB
/// guard instead of the default 6 GiB of address space, which a process may not be
/// allowed to reserve (with the default tunables, instantiating then fails). Only where
/// memory is placed changes; what the module computes does not.
#[verifier::external_body]
fn new_store() -> Store {
    let mut engine: Engine = Cranelift::new().into();
    engine.set_tunables(BaseTunables {
        static_memory_bound: Pages(0),
        static_memory_offset_guard_size: 0,
        dynamic_memory_offset_guard_size: 0x1_0000,
    });
    Store::new(engine)
}

/// `Module::from_binary`: compiles a module; on failure, the compile error's text.
#[verifier::external_body]
fn compile_module(store: &Store, bytes: &[u8]) -> Result<Module, String> {
    Module::from_binary(store, bytes).map_err(|e| e.to_string())
}

/// The identity of a store's objects (wasmer's `StoreId`): every function or memory handle
/// carries the identity of the store it was made in, and wasmer panics when a handle is
/// used with another store.
pub uninterp spec fn wasm_store_id(store: Store) -> nat;

/// The identity of the store an instance (and so each of its exports) belongs to.
pub uninterp spec fn wasm_instance_store(instance: Instance) -> nat;

/// The identity of the store a function handle belongs to.
pub uninterp spec fn wasm_function_store(f: Function) -> nat;

/// The identity of the store a memory handle belongs to.
pub uninterp spec fn wasm_memory_store(memory: Memory) -> nat;

/// `Instance::new` with no imports: the instance and its exports belong to `store`, whose
/// identity does not change; on failure, the instantiation error's text.
#[verifier::external_body]
fn instantiate(store: &mut Store, module: &Module) -> (r: Result<Instance, String>)
    ensures
        wasm_store_id(*final(store)) == wasm_store_id(*old(store)),
        r matches Ok(i) ==> wasm_instance_store(i) == wasm_store_id(*old(store)),
{
    Instance::new(store, module, &Imports::new()).map_err(|e| e.to_string())
}

/// `instance.exports.get_function(name)`, cloned: a handle of the instance's store; on
/// failure, the export error's text.
#[verifier::external_body]
fn exported_function(instance: &Instance, name: &str) -> (r: Result<Function, String>)
    ensures
        r matches Ok(f) ==> wasm_function_store(f) == wasm_instance_store(*instance),
{
    instance.exports.get_function(name).map(|f| f.clone()).map_err(|e| e.to_string())
}

/// `instance.exports.get_memory(name)`, cloned: a handle of the instance's store; on
/// failure, the export error's text.
#[verifier::external_body]
fn exported_memory(instance: &Instance, name: &str) -> (r: Result<Memory, String>)
    ensures
        r matches Ok(m) ==> wasm_memory_store(m) == wasm_instance_store(*instance),
{
    instance.exports.get_memory(name).map(|m| m.clone()).map_err(|e| e.to_string())
}

/// `Function::call` with the arguments as `i32` values, on a function of `store` (another
/// store's function panics); each returned value as its `i32` (`None` for a value of
/// another type); on failure, the runtime error's text. The store keeps its identity.
#[verifier::external_body]
fn call_function(store: &mut Store, f: &Function, args: &[i32]) -> (r: Result<Vec<Option<i32>>, String>)
    requires
        wasm_function_store(*f) == wasm_store_id(*old(store)),
    ensures
        wasm_store_id(*final(store)) == wasm_store_id(*old(store)),
{
    let params: Vec<Value> = args.iter().map(|a| Value::I32(*a)).collect();
    f.call(store, &params).map(|rs| rs.iter().map(|v| v.i32()).collect()).map_err(|e| e.to_string())
}

/// The bytes of the linear memory `memory` as the store holds them.
pub uninterp spec fn wasm_memory_bytes(store: Store, memory: Memory) -> Seq<u8>;

/// `MemoryView::write_u8` on a view of a memory of `store` (another store's memory
/// panics): within the memory's bytes it sets the byte at `offset`; past them it fails with
/// the access error's text and changes nothing. The store keeps its identity.
#[verifier::external_body]
fn memory_write_u8(store: &mut Store, memory: &Memory, offset: u64, byte: u8) -> (r: Result<(), String>)
    requires
        wasm_memory_store(*memory) == wasm_store_id(*old(store)),
    ensures
        wasm_store_id(*final(store)) == wasm_store_id(*old(store)),
        ({
            let m = wasm_memory_bytes(*old(store), *memory);
            match r {
                Ok(_) => offset < m.len() <= usize::MAX && wasm_memory_bytes(*final(store), *memory)
                    == m.update(offset as int, byte),
                Err(_) => offset >= m.len() && wasm_memory_bytes(*final(store), *memory) == m,
            }
        }),
{
    memory.view(&*store).write_u8(offset, byte).map_err(|e| e.to_string())
}

/// `MemoryView::read` of `len` bytes at `offset` of a memory of `store` (another store's
/// memory panics): the source fills the whole buffer with the bytes there, or fails (with
/// the access error's text) when they pass the end.
#[verifier::external_body]
fn memory_read(store: &Store, memory: &Memory, offset: u64, len: usize) -> (r: Result<Vec<u8>, String>)
    requires
        wasm_memory_store(*memory) == wasm_store_id(*store),
    ensures
        ({
            let m = wasm_memory_bytes(*store, *memory);
            match r {
                Ok(v) => offset + len <= m.len() <= usize::MAX && v@ == m.subrange(
                    offset as int,
                    offset + len,
                ),
                Err(_) => offset + len > m.len(),
            }
        }),
{
    let mut buf = vec![0u8; len];
    memory.view(store).read(offset, &mut buf).map(|_| buf).map_err(|e| e.to_string())
}

/// `MemoryView::copy_to_vec` on a memory of `store` (another store's memory panics): all
/// the memory's bytes. The source copies in chunks that all lie within the memory, so it
/// does not fail.
#[verifier::external_body]
fn memory_contents(store: &Store, memory: &Memory) -> (r: Result<Vec<u8>, String>)
    requires
        wasm_memory_store(*memory) == wasm_store_id(*store),
    ensures
        r is Ok,
        r matches Ok(v) ==> v@ == wasm_memory_bytes(*store, *memory),
{
    memory.view(store).copy_to_vec().map_err(|e| e.to_string())
}

/// A `WasmError` whose message is `lead` followed by `detail`.
fn wasm_error(lead: &str, detail: &str) -> (e: XmError)
    ensures
        e@ == XmErrorView::WasmError(lead@ + detail@),
        starts_with(lead@ + detail@, lead@),
{
    assert((lead@ + detail@).subrange(0, lead@.len() as int) =~= lead@);
    let l = chars_of(lead);
    let d = chars_of(detail);
    XmError::WasmError(string_of(&concat_of(&l, &d)))
}

/// The first value a call returned, as an `i32`.
fn first_i32(values: &Vec<Option<i32>>) -> (r: Option<i32>)
    ensures
        r == (if values.len() > 0 { values@[0] } else { None::<i32> }),
{
    if values.len() == 0 {
        None
    } else {
        values[0]
    }
}

/// The unsigned value of four bytes read little-endian.
pub open spec fn le_u32_value(b: Seq<u8>) -> int {
    b[0] + 256 * b[1] + 65536 * b[2] + 16777216 * b[3]
}

/// The two's-complement `i32` reading of a 32-bit unsigned value.
pub open spec fn as_signed32(v: int) -> int {
    if v < 0x8000_0000 { v } else { v - 0x1_0000_0000 }
}

/// A little-endian `i32` from four bytes.
fn le_i32(b: &Vec<u8>) -> (r: i32)
    requires
        b.len() == 4,
    ensures
        r as int == as_signed32(le_u32_value(b@)),
{
    let b0 = b[0];
    let b1 = b[1];
    let b2 = b[2];
    let b3 = b[3];
    let v: u32 = (b0 as u32) | ((b1 as u32) << 8u32) | ((b2 as u32) << 16u32) | ((
    b3 as u32) << 24u32);
    assert(v == b0 + 256 * b1 + 65536 * b2 + 16777216 * b3) by (bit_vector)
        requires
            v == (b0 as u32) | ((b1 as u32) << 8u32) | ((b2 as u32) << 16u32) | ((b3 as u32)
                << 24u32),
    ;
    #[verifier::truncate]
    let r: i32 = v as i32;
    assert(r == (if v < 0x8000_0000u32 { v as int } else { v - 0x1_0000_0000int })) by (bit_vector)
        requires
            r == v as i32,
    ;
    r
}

/// `m` with the bytes from `at` on replaced by `data`.
pub open spec fn placed(m: Seq<u8>, at: int, data: Seq<u8>) -> Seq<u8> {
    m.subrange(0, at) + data + m.subrange(at + data.len(), m.len() as int)
}

/// `n` bytes written from the (sign-extended) offset `at` fit in a memory of `len` bytes.
pub open spec fn fits_at(len: nat, at: i32, n: nat) -> bool {
    n == 0 || (at as u64) + n <= len
}

/// `m` with `data` written from the (sign-extended) offset `at`; nothing for no data.
pub open spec fn placed_at(m: Seq<u8>, at: i32, data: Seq<u8>) -> Seq<u8> {
    if data.len() == 0 {
        m
    } else {
        placed(m, (at as u64) as int, data)
    }
}

/// Writes `data` into the memory starting at the (sign-extended) `offset`: on success the
/// memory holds `data` there and is otherwise as it was.
fn write_bytes(store: &mut Store, memory: &Memory, offset: i32, data: &[u8], what: &str) -> (r: Result<(), XmError>)
    requires
        wasm_memory_store(*memory) == wasm_store_id(*old(store)),
    ensures
        wasm_store_id(*final(store)) == wasm_store_id(*old(store)),
        r is Ok <==> fits_at(wasm_memory_bytes(*old(store), *memory).len(), offset, data@.len()),
        r is Ok ==> wasm_memory_bytes(*final(store), *memory) == placed_at(
            wasm_memory_bytes(*old(store), *memory),
            offset,
            data@,
        ),
        r matches Err(e) ==> e@ matches XmErrorView::WasmError(m) && starts_with(m, what@),
{
    let ghost m0 = wasm_memory_bytes(*store, *memory);
    #[verifier::truncate]
    let base: u64 = offset as u64;
    let mut i: usize = 0;
    while i < data.len()
        invariant
            i <= data.len(),
            base == (offset as u64),
            wasm_memory_store(*memory) == wasm_store_id(*store),
            wasm_store_id(*store) == wasm_store_id(*old(store)),
            m0 == wasm_memory_bytes(*old(store), *memory),
            i > 0 ==> base + i <= m0.len() && m0.len() <= usize::MAX,
            wasm_memory_bytes(*store, *memory) == if i == 0 {
                m0
            } else {
                placed(m0, base as int, data@.subrange(0, i as int))
            },
        decreases data.len() - i,
    {
        let at: u64 = if i == 0 {
            base
        } else {
            base + i as u64
        };
        let ghost before = wasm_memory_bytes(*store, *memory);
        match memory_write_u8(store, memory, at, data[i]) {
            Ok(()) => {},
            Err(e) => {
                assert(before.len() == m0.len());
                return Err(wasm_error(what, e.as_str()));
            },
        }
        proof {
            let post = data@.subrange(0, i + 1);
            assert(before.len() == m0.len());
            assert(placed(m0, base as int, post) =~= before.update(at as int, data@[i as int]));
        }
        i += 1;
    }
    proof {
        if data.len() > 0 {
            assert(data@.subrange(0, data.len() as int) =~= data@);
        }
    }
    Ok(())
}

/// Calls `c` (the module's allocator) for `len` bytes and returns the offset it gives.
fn allocate(store: &mut Store, func_c: &Function, len: usize, what: &str, none_msg: &str) -> (r: Result<i32, XmError>)
    requires
        wasm_function_store(*func_c) == wasm_store_id(*old(store)),
    ensures
        wasm_store_id(*final(store)) == wasm_store_id(*old(store)),
        r matches Err(e) ==> e@ == XmErrorView::WasmError(none_msg@) || (e@ matches XmErrorView::WasmError(
            m,
        ) && starts_with(m, what@)),
{
    #[verifier::truncate]
    let n: i32 = len as i32;
    let results = match call_function(store, func_c, &[n]) {
        Ok(v) => v,
        Err(e) => return Err(wasm_error(what, e.as_str())),
    };
    match first_i32(&results) {
        Some(off) => Ok(off),
        None => Err(XmError::WasmError(String::from_str(none_msg))),
    }
}

/// A record of the call of the transform `g`: the text and the track id it was handed,
/// the arguments it was called with, and the module's memory just before and just after
/// the call.
pub struct TransformCall {
    pub text: Seq<u8>,
    pub track: Seq<u8>,
    pub args: Seq<i32>,
    pub before: Seq<u8>,
    pub after: Seq<u8>,
}

/// `m` holds `text` written at `a`, then `track` written at `b`, over the memory as the
/// allocator left it, both within its bytes.
pub open spec fn staged(m: Seq<u8>, a: i32, text: Seq<u8>, b: i32, track: Seq<u8>) -> bool {
    exists|m0: Seq<u8>|
        fits_at(m0.len(), a, text.len()) && fits_at(m0.len(), b, track.len()) && #[trigger] placed_at(
            placed_at(m0, a, text),
            b,
            track,
        ) == m
}

/// The call was made as the protocol says: `g(sp, a, text_len, b, track_len)` on a memory
/// holding the text at `a` and the track id at `b`.
pub open spec fn call_well_formed(c: TransformCall) -> bool {
    &&& c.args.len() == 5
    &&& c.args[2] == c.text.len() as i32
    &&& c.args[4] == c.track.len() as i32
    &&& staged(c.before, c.args[1], c.text, c.args[3], c.track)
}

/// What reading the result from the memory `m` after the call gives, with the stack
/// pointer `sp`: the pointer and the length at `sp`, then those bytes as UTF-8.
pub open spec fn read_outcome(m: Seq<u8>, sp: i32, t: Result<Seq<char>, XmErrorView>) -> bool {
    let b = (sp as u64) as int;
    if b + 4 > m.len() {
        wasm_error_led_by(t, "Failed to read result pointer: "@)
    } else if b + 8 > m.len() {
        wasm_error_led_by(t, "Failed to read result length: "@)
    } else {
        transform_result_outcome(m, word_at(m, b), word_at(m, b + 4), t)
    }
}

/// What `decrypt_chunk_native` promises of its outcome `t` for `text` and `track`, with the
/// record `call` of the transform's call: without a call, a failure of the set-up (a
/// `WasmError`); with one, a call made as the protocol says on this text and track id,
/// and `t` is what the memory after it gives.
pub open spec fn native_outcome(
    text: Seq<u8>,
    track: Seq<u8>,
    call: Option<TransformCall>,
    t: Result<Seq<char>, XmErrorView>,
) -> bool {
    match call {
        None => t matches Err(e) && e is WasmError,
        Some(c) => c.text == text && c.track == track && call_well_formed(c) && read_outcome(
            c.after,
            c.args[0],
            t,
        ),
    }
}

/// Runs the XM transform module on the AES-decrypted text and the track id, and returns
/// the transformed text, with a record of the transform's call.
///
/// Protocol: `a(-16)` gives a stack pointer; `c(n)` allocates `n` bytes twice, for the
/// text and the track id, which are written into memory `i`; `g(sp, text, text_len,
/// track, track_len)` runs the transform and leaves the result's pointer and length as
/// two little-endian `i32` at `sp`; the result is those bytes of memory, which must be
/// UTF-8. A failure before `g` has run (no module, no export, a failed call of `a` or `c`,
/// inputs that do not fit in memory) is a `WasmError` and leaves no record; so is a
/// failed call of `g`.
pub fn decrypt_chunk_native(decrypted: &[u8], track_id: &[u8], xm_module: &[u8]) -> (r: (
    Result<String, XmError>,
    Ghost<Option<TransformCall>>,
))
    ensures
        native_outcome(decrypted@, track_id@, r.1@, crate::xm::text_result_view(r.0)),
{
    let mut store = new_store();
    let module = match compile_module(&store, xm_module) {
        Ok(m) => m,
        Err(e) => return (Err(wasm_error("Failed to load WASM module: ", e.as_str())), Ghost(None)),
    };
    let instance = match instantiate(&mut store, &module) {
        Ok(i) => i,
        Err(e) => return (Err(wasm_error("Failed to instantiate WASM: ", e.as_str())), Ghost(None)),
    };
    let func_a = match exported_function(&instance, "a") {
        Ok(f) => f,
        Err(e) => return (Err(wasm_error("Function 'a' not found: ", e.as_str())), Ghost(None)),
    };
    let sp_results = match call_function(&mut store, &func_a, &[-16i32]) {
        Ok(v) => v,
        Err(e) => return (Err(wasm_error("Failed to call function 'a': ", e.as_str())), Ghost(None)),
    };
    let stack_pointer = match first_i32(&sp_results) {
        Some(sp) => sp,
        None => return (Err(XmError::WasmError(String::from_str("stack_pointer is None"))), Ghost(None)),
    };
    let func_c = match exported_function(&instance, "c") {
        Ok(f) => f,
        Err(e) => return (Err(wasm_error("Function 'c' not found: ", e.as_str())), Ghost(None)),
    };
    let de_data_offset = match allocate(
        &mut store,
        &func_c,
        decrypted.len(),
        "Failed to allocate de_data: ",
        "de_data_offset is None",
    ) {
        Ok(o) => o,
        Err(e) => return (Err(e), Ghost(None)),
    };
    let track_id_offset = match allocate(
        &mut store,
        &func_c,
        track_id.len(),
        "Failed to allocate track_id: ",
        "track_id_offset is None",
    ) {
        Ok(o) => o,
        Err(e) => return (Err(e), Ghost(None)),
    };
    let memory_i = match exported_memory(&instance, "i") {
        Ok(m) => m,
        Err(e) => return (Err(wasm_error("Memory 'i' not found: ", e.as_str())), Ghost(None)),
    };
    let ghost m0 = wasm_memory_bytes(store, memory_i);
    match stage_transform_input(&mut store, &memory_i, de_data_offset, decrypted, track_id_offset, track_id) {
        Ok(()) => {},
        Err(e) => return (Err(e), Ghost(None)),
    }
    let ghost before = wasm_memory_bytes(store, memory_i);
    let func_g = match exported_function(&instance, "g") {
        Ok(f) => f,
        Err(e) => return (Err(wasm_error("Function 'g' not found: ", e.as_str())), Ghost(None)),
    };
    #[verifier::truncate]
    let de_len: i32 = decrypted.len() as i32;
    #[verifier::truncate]
    let track_len: i32 = track_id.len() as i32;
    let args: Vec<i32> = vec![stack_pointer, de_data_offset, de_len, track_id_offset, track_len];
    match call_function(&mut store, &func_g, args.as_slice()) {
        Ok(_) => {},
        Err(e) => return (Err(wasm_error("Failed to call function 'g': ", e.as_str())), Ghost(None)),
    }
    let ghost after = wasm_memory_bytes(store, memory_i);
    let r = read_transform_result(&store, &memory_i, stack_pointer);
    let ghost call = TransformCall { text: decrypted@, track: track_id@, args: args@, before, after };
    proof {
        assert(placed_at(placed_at(m0, de_data_offset, decrypted@), track_id_offset, track_id@) == before);
        assert(staged(before, de_data_offset, decrypted@, track_id_offset, track_id@));
    }
    (r, Ghost(Some(call)))
}

/// Places the AES-decrypted text and the track id into the module's memory at the offsets
/// its allocator gave: it succeeds exactly when both fit in the memory, and then the memory
/// holds the text from `text_offset`, then the track id from `track_offset` written over it.
fn stage_transform_input(
    store: &mut Store,
    memory: &Memory,
    text_offset: i32,
    text: &[u8],
    track_offset: i32,
    track: &[u8],
) -> (r: Result<(), XmError>)
    requires
        wasm_memory_store(*memory) == wasm_store_id(*old(store)),
    ensures
        wasm_store_id(*final(store)) == wasm_store_id(*old(store)),
        r is Ok <==> fits_at(wasm_memory_bytes(*old(store), *memory).len(), text_offset, text@.len())
            && fits_at(wasm_memory_bytes(*old(store), *memory).len(), track_offset, track@.len()),
        r is Ok ==> wasm_memory_bytes(*final(store), *memory) == placed_at(
            placed_at(wasm_memory_bytes(*old(store), *memory), text_offset, text@),
            track_offset,
            track@,
        ),
        r matches Err(e) ==> e@ matches XmErrorView::WasmError(m) && (starts_with(
            m,
            "Failed to write de_data: "@,
        ) || starts_with(m, "Failed to write track_id: "@)),
{
    let ghost m0 = wasm_memory_bytes(*store, *memory);
    write_bytes(store, memory, text_offset, text, "Failed to write de_data: ")?;
    assert(wasm_memory_bytes(*store, *memory).len() == m0.len());
    write_bytes(store, memory, track_offset, track, "Failed to write track_id: ")?;
    Ok(())
}

/// The little-endian `i32` in the four bytes of `m` from `at`.
pub open spec fn word_at(m: Seq<u8>, at: int) -> i32 {
    as_signed32(le_u32_value(m.subrange(at, at + 4))) as i32
}

/// What the transform's result is, given the memory `mem` and the pointer and length it
/// left: the bytes `mem[pointer..pointer + length]` (both taken as `usize`) decoded as
/// UTF-8; a range past the memory is a `WasmError`, bytes that are not UTF-8 a
/// `DecryptionError` starting with `Invalid UTF-8 in result: `.
pub open spec fn transform_result_outcome(mem: Seq<u8>, pointer: i32, length: i32, r: Result<Seq<char>, XmErrorView>) -> bool {
    let s = (pointer as usize) as int;
    let c = (length as usize) as int;
    if s + c > mem.len() {
        r == Err::<Seq<char>, XmErrorView>(XmErrorView::WasmError("Result range is out of memory bounds"@))
    } else if valid_utf8(mem.subrange(s, s + c)) {
        r == Ok::<Seq<char>, XmErrorView>(decode_utf8(mem.subrange(s, s + c)))
    } else {
        r matches Err(x) && x matches XmErrorView::DecryptionError(m) && starts_with(
            m,
            "Invalid UTF-8 in result: "@,
        )
    }
}

/// A `WasmError` whose message starts with `lead`.
pub open spec fn wasm_error_led_by(r: Result<Seq<char>, XmErrorView>, lead: Seq<char>) -> bool {
    r matches Err(x) && x matches XmErrorView::WasmError(m) && starts_with(m, lead)
}

/// The transform's result from the memory after `g` ran: the pointer and the length it
/// left at `sp`, then those bytes of memory as UTF-8. Reading the two words fails when they
/// pass the end of the memory.
fn read_transform_result(store: &Store, memory: &Memory, sp: i32) -> (r: Result<String, XmError>)
    requires
        wasm_memory_store(*memory) == wasm_store_id(*store),
    ensures
        ({
            let m = wasm_memory_bytes(*store, *memory);
            let b = (sp as u64) as int;
            let t = crate::xm::text_result_view(r);
            if b + 4 > m.len() {
                wasm_error_led_by(t, "Failed to read result pointer: "@)
            } else if b + 8 > m.len() {
                wasm_error_led_by(t, "Failed to read result length: "@)
            } else {
                transform_result_outcome(m, word_at(m, b), word_at(m, b + 4), t)
            }
        }),
{
    #[verifier::truncate]
    let at: u64 = sp as u64;
    let ptr_bytes = match memory_read(store, memory, at, 4) {
        Ok(b) => b,
        Err(e) => return Err(wasm_error("Failed to read result pointer: ", e.as_str())),
    };
    let result_pointer = le_i32(&ptr_bytes);
    let len_bytes = match memory_read(store, memory, at + 4, 4) {
        Ok(b) => b,
        Err(e) => return Err(wasm_error("Failed to read result length: ", e.as_str())),
    };
    let result_length = le_i32(&len_bytes);
    let mem = match memory_contents(store, memory) {
        Ok(m) => m,
        Err(e) => return Err(wasm_error("Failed to copy memory: ", e.as_str())),
    };
    transform_result(&mem, result_pointer, result_length)
}

/// The transform's result from a copy of the memory and the pointer and length it left.
pub fn transform_result(mem: &[u8], result_pointer: i32, result_length: i32) -> (r: Result<String, XmError>)
    ensures
        transform_result_outcome(mem@, result_pointer, result_length, crate::xm::text_result_view(r)),
{
    #[verifier::truncate]
    let start: usize = result_pointer as usize;
    #[verifier::truncate]
    let count: usize = result_length as usize;
    let total: usize = mem.len();
    let end: usize = match start.checked_add(count) {
        Some(e) => e,
        None => {
            assert(mem@.len() == total);
            return Err(XmError::WasmError(String::from_str("Result range is out of memory bounds")));
        },
    };
    if end > mem.len() {
        return Err(XmError::WasmError(String::from_str("Result range is out of memory bounds")));
    }
    let result = sub_of(mem, start, end);
    match utf8_string(result) {
        Ok(s) => Ok(s),
        Err(e) => {
            let lead = chars_of("Invalid UTF-8 in result: ");
            let d = chars_of(e.as_str());
            proof {
                assert((lead@ + d@).subrange(0, lead@.len() as int) =~= lead@);
            }
            Err(XmError::DecryptionError(string_of(&concat_of(&lead, &d))))
        },
    }
}

} // verus!
