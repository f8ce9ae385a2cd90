//! Zero-copy typed-array fast path for the WASM↔JS bridge.
//!
//! A WASM-targeted function that takes or returns typed numeric arrays
//! (`f64[]`, `i32[]`) can skip JSON serialisation: the raw buffer is copied
//! through `WebAssembly.Memory` and only a pointer and a length cross.
//!
//! | Condition | Result |
//! |-----------|--------|
//! | Only scalars | `Scalar` |
//! | Some numeric array, no other object | `ZeroCopy` |
//! | Some other heap object | `Serialised` |

use vstd::prelude::*;
use crate::ir::ir::IrType;
use crate::text::{string_of, push_str, u64_to_string, nat_digits};

verus! {

/// The transfer strategy for one bridge call.
#[derive(Debug, Clone, Copy, PartialEq, Eq, Structural)]
pub enum TransferMode {
    /// No heap data: scalars pass in registers.
    Scalar,
    /// Every array goes through linear memory.
    ZeroCopy,
    /// Some heap object needs serialising.
    Serialised,
}

/// A reference to an array of `f64`, `i32` or `i64`.
pub open spec fn is_numeric_array_spec(t: IrType) -> bool {
    match t {
        IrType::Ref(inner) => *inner is F64 || *inner is I32 || *inner is I64,
        _ => false,
    }
}

/// A heap object that is not a numeric array.
pub open spec fn is_object_spec(t: IrType) -> bool {
    t is Ref && !is_numeric_array_spec(t)
}

/// The transfer mode for the given parameter and return types.
pub open spec fn classify_spec(params: Seq<IrType>, ret: IrType) -> TransferMode {
    if is_object_spec(ret) || exists|i: int| 0 <= i < params.len() && is_object_spec(#[trigger] params[i]) {
        TransferMode::Serialised
    } else if is_numeric_array_spec(ret) || exists|i: int|
        0 <= i < params.len() && is_numeric_array_spec(#[trigger] params[i]) {
        TransferMode::ZeroCopy
    } else {
        TransferMode::Scalar
    }
}

fn is_numeric_array(ty: &IrType) -> (b: bool)
    ensures
        b == is_numeric_array_spec(*ty),
{
    match ty {
        IrType::Ref(inner) => match &**inner {
            IrType::F64 | IrType::I32 | IrType::I64 => true,
            _ => false,
        },
        _ => false,
    }
}

fn is_object(ty: &IrType) -> (b: bool)
    ensures
        b == is_object_spec(*ty),
{
    match ty {
        IrType::Ref(_) => !is_numeric_array(ty),
        _ => false,
    }
}

/// Classifies the transfer mode for a function's parameter and return types.
pub fn classify(params: &[IrType], ret: &IrType) -> (m: TransferMode)
    ensures
        m == classify_spec(params@, *ret),
{
    let mut any_array = is_numeric_array(ret);
    let mut any_object = is_object(ret);
    let mut i: usize = 0;
    while i < params.len()
        invariant
            i <= params@.len(),
            any_array == (is_numeric_array_spec(*ret) || exists|k: int| 0 <= k < i && is_numeric_array_spec(#[trigger] params@[k])),
            any_object == (is_object_spec(*ret) || exists|k: int| 0 <= k < i && is_object_spec(#[trigger] params@[k])),
        decreases params.len() - i,
    {
        if is_numeric_array(&params[i]) {
            any_array = true;
        }
        if is_object(&params[i]) {
            any_object = true;
        }
        i = i + 1;
    }
    if any_object {
        TransferMode::Serialised
    } else if any_array {
        TransferMode::ZeroCopy
    } else {
        TransferMode::Scalar
    }
}

/// The JS that copies the typed array `p` into WASM memory `m` under the
/// names `v_len`, `v_ptr`, `v_view` (with `v` the pointer variable and `e`
/// the element size).
pub open spec fn zerocopy_write_text(p: Seq<char>, m: Seq<char>, v: Seq<char>, e: Seq<char>) -> Seq<char> {
    "// Zero-copy: write "@ + p + " into WASM linear memory\nconst "@ + v + "_len   = "@ + p + ".length * "@
        + e + ";\nconst "@ + v + "_ptr   = selvr_vm.selvr_alloc("@ + v + "_len);\nconst "@ + v
        + "_view  = new Uint8Array("@ + m + ".buffer, "@ + v + "_ptr, "@ + v + "_len);\n"@ + v
        + "_view.set(new Uint8Array("@ + p + ".buffer, "@ + p + ".byteOffset, "@ + v + "_len));\n"@
}

/// The JS snippet that performs a zero-copy array transfer into WASM
/// memory.  `param_name` holds the `Float64Array` / `Int32Array`,
/// `wasm_mem` the `WebAssembly.Memory`.
pub fn emit_zerocopy_write(param_name: &str, wasm_mem: &str, ptr_var: &str, elem_size: usize) -> (s: String)
    ensures
        s@ == zerocopy_write_text(param_name@, wasm_mem@, ptr_var@, nat_digits(elem_size as nat)),
{
    let e = u64_to_string(elem_size as u64);
    let mut out = string_of("// Zero-copy: write ");
    push_str(&mut out, param_name);
    push_str(&mut out, " into WASM linear memory\nconst ");
    push_str(&mut out, ptr_var);
    push_str(&mut out, "_len   = ");
    push_str(&mut out, param_name);
    push_str(&mut out, ".length * ");
    push_str(&mut out, e.as_str());
    push_str(&mut out, ";\nconst ");
    push_str(&mut out, ptr_var);
    push_str(&mut out, "_ptr   = selvr_vm.selvr_alloc(");
    push_str(&mut out, ptr_var);
    push_str(&mut out, "_len);\nconst ");
    push_str(&mut out, ptr_var);
    push_str(&mut out, "_view  = new Uint8Array(");
    push_str(&mut out, wasm_mem);
    push_str(&mut out, ".buffer, ");
    push_str(&mut out, ptr_var);
    push_str(&mut out, "_ptr, ");
    push_str(&mut out, ptr_var);
    push_str(&mut out, "_len);\n");
    push_str(&mut out, ptr_var);
    push_str(&mut out, "_view.set(new Uint8Array(");
    push_str(&mut out, param_name);
    push_str(&mut out, ".buffer, ");
    push_str(&mut out, param_name);
    push_str(&mut out, ".byteOffset, ");
    push_str(&mut out, ptr_var);
    push_str(&mut out, "_len));\n");
    out
}

/// The JS that reads a `t` result of `l` elements at `p` back out of WASM
/// memory `m` and frees it.
pub open spec fn zerocopy_read_text(p: Seq<char>, l: Seq<char>, m: Seq<char>, t: Seq<char>) -> Seq<char> {
    "// Zero-copy: read result back from WASM linear memory\nconst _result_view = new "@ + t + "("@ + m
        + ".buffer, "@ + p + ", "@ + l
        + ");\nconst _result      = _result_view.slice(); // copy out before selvr_free\nselvr_vm.selvr_free("@
        + p + ", "@ + l + " * "@ + t + ".BYTES_PER_ELEMENT);\n"@
}

/// The JS snippet that reads a zero-copy result back from WASM memory;
/// `ty` is `Float64Array` or `Int32Array`.
pub fn emit_zerocopy_read(ptr_var: &str, len_var: &str, wasm_mem: &str, ty: &str) -> (s: String)
    ensures
        s@ == zerocopy_read_text(ptr_var@, len_var@, wasm_mem@, ty@),
{
    let mut out = string_of("// Zero-copy: read result back from WASM linear memory\nconst _result_view = new ");
    push_str(&mut out, ty);
    push_str(&mut out, "(");
    push_str(&mut out, wasm_mem);
    push_str(&mut out, ".buffer, ");
    push_str(&mut out, ptr_var);
    push_str(&mut out, ", ");
    push_str(&mut out, len_var);
    push_str(&mut out, ");\nconst _result      = _result_view.slice(); // copy out before selvr_free\nselvr_vm.selvr_free(");
    push_str(&mut out, ptr_var);
    push_str(&mut out, ", ");
    push_str(&mut out, len_var);
    push_str(&mut out, " * ");
    push_str(&mut out, ty);
    push_str(&mut out, ".BYTES_PER_ELEMENT);\n");
    out
}

} // verus!
