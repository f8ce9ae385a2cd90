use selvr::token::Span;
use selvr::typeck::borrow::OwnershipCtx;
use selvr::bridge::codegen::BridgeEmitter;
use selvr::bridge::zerocopy::{classify, emit_zerocopy_read, emit_zerocopy_write, TransferMode};
use selvr::bytecode::emit::emit_module;
use selvr::bytecode::encode::{decode, encode, DecodeError};
use selvr::bytecode::module::{BcFn, BytecodeModule, ConstPool, ConstValue};
use selvr::bytecode::opcode::Op;
use selvr::bytecode::opt::optimise;
use selvr::ir::ir::{IrType, Target};
use selvr::ir::lower::{lower_module, module_lowerable};
use selvr::lexer::Lexer;
use selvr::parser::Parser;
use selvr::target::infer::infer_targets;
use selvr::target::propagate::propagate_targets;
use selvr::typeck::ty::Ty;

fn parse(src: &str) -> selvr::ast::Module {
    let (tokens, _) = Lexer::new(src, 0).tokenize();
    Parser::new(tokens, 0).parse().0
}

fn fold_f64(a: u64, b: u64, op: Option<Op>) -> Option<u64> {
    let (x, y) = (f64::from_bits(a), f64::from_bits(b));
    match op {
        Some(Op::Add) => Some((x + y).to_bits()),
        Some(Op::Sub) => Some((x - y).to_bits()),
        Some(Op::Mul) => Some((x * y).to_bits()),
        Some(Op::Div) if y != 0.0 => Some((x / y).to_bits()),
        _ => None,
    }
}

fn float_bits(text: &str) -> u64 {
    text.parse::<f64>().unwrap_or(0.0).to_bits()
}

const NUMERIC: &str = "fn fact(n: i32): i32 {\n    let result: i32 = 1;\n    let i: i32 = 1;\n    while i <= n {\n        result = result * i;\n        i = i + 1;\n    }\n    return result;\n}\n\nfn greet(name: string): string {\n    return name;\n}\n";

#[test]
fn opcode_bytes_round_trip() {
    for b in 0u8..=255 {
        if let Some(op) = Op::from_u8(b) {
            assert_eq!(op.to_u8(), b);
        }
    }
    assert_eq!(Op::from_u8(Op::Nop.to_u8()), Some(Op::Nop));
    assert_eq!(Op::PushI32.imm_bytes(), 4);
}

#[test]
fn interning_is_idempotent() {
    let mut pool = ConstPool::new();
    let a = pool.intern_str("hello");
    let b = pool.intern_name("world");
    assert_eq!(pool.intern_str("hello"), a);
    assert_ne!(a, b);
    assert_eq!(pool.get(a), Some(&ConstValue::Str("hello".to_string())));
    assert_eq!(pool.get(99), None);
}

#[test]
fn encode_then_decode() {
    let mut m = BytecodeModule::new("main.self");
    let idx = m.const_pool.intern_name("main");
    m.fns.push(BcFn {
        name_idx: idx,
        param_count: 2,
        local_count: 3,
        code: vec![Op::PushUnit.to_u8(), Op::ReturnVoid.to_u8()],
        is_export: true,
        is_async: false,
    });
    let bytes = encode(&m).unwrap();
    assert_eq!(&bytes[0..6], &[0x53, 0x45, 0x4C, 0x56, 0x52, 0x01]);
    let back = decode(&bytes).unwrap();
    assert_eq!(back.source, "main.self");
    assert_eq!(back.fns.len(), 1);
    assert_eq!(back.fns[0].code, m.fns[0].code);
    assert_eq!((back.fns[0].param_count, back.fns[0].local_count), (2, 3));
    assert!(back.fns[0].is_export && !back.fns[0].is_async);
    assert!(back.find_fn("main").is_some());
    assert!(back.find_fn("other").is_none());
}

#[test]
fn decode_rejects_bad_input() {
    assert!(matches!(decode(&[0x53, 0x45]), Err(DecodeError::UnexpectedEof)));
    assert!(matches!(decode(b"NOTSELVR"), Err(DecodeError::BadMagic)));
    assert!(matches!(
        decode(&[0x53, 0x45, 0x4C, 0x56, 0x52, 0x01, 9, 9]),
        Err(DecodeError::UnsupportedVersion(9, 9))
    ));
}

#[test]
fn optimiser_folds_and_drops_dead_code() {
    let mut m = BytecodeModule::new("t.self");
    let p = Op::PushI32.to_u8();
    m.fns.push(BcFn {
        name_idx: 0,
        param_count: 0,
        local_count: 0,
        code: vec![p, 1, 0, 0, 0, p, 2, 0, 0, 0, Op::Add.to_u8(), Op::Nop.to_u8(), Op::Return.to_u8(), p, 9, 0, 0, 0],
        is_export: false,
        is_async: false,
    });
    optimise(&mut m, &fold_f64);
    assert_eq!(m.fns[0].code, vec![p, 3, 0, 0, 0, Op::Return.to_u8()]);
}

#[test]
fn lowering_and_targeting() {
    let module = parse(NUMERIC);
    assert!(module_lowerable(&module));
    let mut ir = lower_module(&module);
    assert_eq!(ir.name, "main");
    assert_eq!(ir.fns.len(), 2);
    let mut map = infer_targets(&mut ir);
    let _ = propagate_targets(&mut ir, &mut map);
    let dot = map.get("fact").unwrap();
    let greet = map.get("greet").unwrap();
    assert!(dot.score > greet.score);
    assert_eq!(greet.target, Target::Js);
    let (w, j, a) = map.summary();
    assert_eq!(w + j + a, 2);
    assert!(map.explain().starts_with("=== Selvr targeting report ===\n\n"));
    assert!(map.to_json().starts_with("{\n  \"summary\":{\"wasm\":"));
    let bridge = BridgeEmitter::new(&ir, &map).emit();
    assert!(bridge.report.contains("greet"));
    let bc = emit_module(&ir, "main.self", &float_bits);
    assert_eq!(bc.fns.len(), 2);
    let bytes = encode(&bc).unwrap();
    assert_eq!(decode(&bytes).unwrap().fns.len(), 2);
}

#[test]
fn transfer_modes() {
    let arr = IrType::Ref(Box::new(IrType::F64));
    let obj = IrType::Ref(Box::new(IrType::Str));
    assert_eq!(classify(&[IrType::I32, IrType::F64], &IrType::Bool), TransferMode::Scalar);
    assert_eq!(classify(&[IrType::Ref(Box::new(IrType::I32))], &IrType::Void), TransferMode::ZeroCopy);
    assert_eq!(classify(&[IrType::I32], &arr), TransferMode::ZeroCopy);
    assert_eq!(classify(&[arr, obj], &IrType::Void), TransferMode::Serialised);
}

#[test]
fn zero_copy_snippets() {
    let w = emit_zerocopy_write("xs", "mem", "p", 8);
    assert_eq!(
        w,
        "// Zero-copy: write xs into WASM linear memory\nconst p_len   = xs.length * 8;\nconst p_ptr   = selvr_vm.selvr_alloc(p_len);\nconst p_view  = new Uint8Array(mem.buffer, p_ptr, p_len);\np_view.set(new Uint8Array(xs.buffer, xs.byteOffset, p_len));\n"
    );
    let r = emit_zerocopy_read("ptr", "n", "mem", "Float64Array");
    assert!(r.starts_with("// Zero-copy: read result back from WASM linear memory\nconst _result_view = new Float64Array(mem.buffer, ptr, n);\n"));
}

#[test]
fn type_display() {
    assert_eq!(Ty::I32.display(), "i32");
    assert_eq!(Ty::Tuple(vec![Ty::I32, Ty::Bool]).display(), "(i32, bool)");
    assert_eq!(Ty::App { ctor: "Option".to_string(), args: vec![Ty::Str] }.display(), "Option<str>");
}

#[test]
fn move_in_one_branch_is_a_move_after_merge() {
    let sp = Span { start: 4, end: 5, file_id: 0 };
    let mut ctx = OwnershipCtx::new();
    ctx.declare("s".to_string(), Ty::Str, false);
    ctx.declare("n".to_string(), Ty::I32, false);
    let mut then_ctx = OwnershipCtx::new();
    then_ctx.declare("s".to_string(), Ty::Str, false);
    then_ctx.mark_moved("s", sp);
    let mut else_ctx = OwnershipCtx::new();
    else_ctx.declare("s".to_string(), Ty::Str, false);
    ctx.merge_branch(&then_ctx, &else_ctx);
    assert!(ctx.errors.is_empty());
    ctx.check_use("n", sp);
    assert!(ctx.errors.is_empty());
    ctx.check_use("s", sp);
    assert_eq!(ctx.errors.len(), 1);
}

#[test]
fn dce_keeps_jump_targets() {
    let mut m = BytecodeModule::new("t.self");
    let j = Op::Jump.to_u8();
    let p = Op::PushI32.to_u8();
    // A jump to the very next instruction: the return it lands on stays.
    m.fns.push(BcFn {
        name_idx: 0,
        param_count: 0,
        local_count: 0,
        code: vec![j, 0, 0, 0, 0, Op::ReturnVoid.to_u8()],
        is_export: false,
        is_async: false,
    });
    // Code after the last return that no jump lands on goes.
    m.fns.push(BcFn {
        name_idx: 0,
        param_count: 0,
        local_count: 0,
        code: vec![j, 0, 0, 0, 0, Op::ReturnVoid.to_u8(), p, 1, 0, 0, 0],
        is_export: false,
        is_async: false,
    });
    optimise(&mut m, &fold_f64);
    assert_eq!(m.fns[0].code, vec![j, 0, 0, 0, 0, Op::ReturnVoid.to_u8()]);
    assert_eq!(m.fns[1].code, vec![j, 0, 0, 0, 0, Op::ReturnVoid.to_u8()]);
}

#[test]
fn push_none_and_unit_take_no_immediate() {
    assert_eq!(Op::PushNone.imm_bytes(), 0);
    assert_eq!(Op::PushUnit.imm_bytes(), 0);
    assert_eq!(Op::PushStr.imm_bytes(), 2);
}
