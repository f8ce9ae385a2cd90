//! Bridge JavaScript generation.

use vstd::prelude::*;
use crate::ir::ir::{IrModule, IrFn, Target};
use crate::target::target::{TargetMap, FnTarget, FnTargetV, count_target, json_entries, json_report, entries_wf};
use crate::text::{string_of, push_str, u64_to_string, i64_to_string, nat_digits, int_str};

verus! {

/// The three text artefacts of the bridge.
#[derive(Debug)]
pub struct BridgeOutput {
    /// JS wrappers for the WASM-targeted functions.
    pub js: String,
    /// The unified loader script.
    pub loader: String,
    /// A JSON report of every function's target decision.
    pub report: String,
}

impl Default for BridgeOutput {
    fn default() -> (o: BridgeOutput)
        ensures
            o.js@ == Seq::<char>::empty(),
            o.loader@ == Seq::<char>::empty(),
            o.report@ == Seq::<char>::empty(),
    {
        BridgeOutput { js: String::new(), loader: String::new(), report: String::new() }
    }
}

/// Emits the bridge artefacts of a module from its targeting map.
pub struct BridgeEmitter<'a> {
    pub module: &'a IrModule,
    pub map: &'a TargetMap,
}

/// The record in `es` keyed `n`, if any.
pub open spec fn lookup(es: Seq<(Seq<char>, FnTargetV)>, n: Seq<char>) -> Option<FnTargetV> {
    if exists|i: int| 0 <= i < es.len() && (#[trigger] es[i]).0 == n {
        Some(es[choose|i: int| 0 <= i < es.len() && (#[trigger] es[i]).0 == n].1)
    } else {
        None
    }
}

/// `p0, p1, ...` for `n` parameters.
pub open spec fn param_list(n: nat) -> Seq<char>
    decreases n,
{
    if n == 0 {
        seq![]
    } else if n == 1 {
        "p"@ + nat_digits(0)
    } else {
        param_list((n - 1) as nat) + ", p"@ + nat_digits((n - 1) as nat)
    }
}

/// One comment line per parameter.
pub open spec fn param_notes(n: nat) -> Seq<char>
    decreases n,
{
    if n == 0 {
        seq![]
    } else {
        param_notes((n - 1) as nat) + "  // p"@ + nat_digits((n - 1) as nat)
            + ": zero-copy if Float64Array / Int32Array\n"@
    }
}

/// The JS wrapper of a WASM-targeted function.
pub open spec fn wrapper_text(name: Seq<char>, n: nat, score: int) -> Seq<char> {
    "/** WASM-targeted \u{2014} auto-routed by Selvr compiler (score: "@ + int_str(score) + "). */\n"@
        + "export async function "@ + name + "("@ + param_list(n) + ") {\n"@ + param_notes(n)
        + "  const _args = JSON.stringify(["@ + param_list(n) + "]);\n"@
        + "  const _result = selvr_vm.selvr_call(\""@ + name + "\", _args);\n"@
        + "  return JSON.parse(_result);\n"@ + "}\n\n"@
}

/// The wrappers of the first `k` functions that the map sends to WASM.
pub open spec fn wrappers(fs: Seq<IrFn>, es: Seq<(Seq<char>, FnTargetV)>, k: int) -> Seq<char>
    decreases k,
{
    if k <= 0 {
        seq![]
    } else {
        wrappers(fs, es, k - 1) + match lookup(es, fs[k - 1].name@) {
            Some(r) => if r.target == Target::Wasm {
                wrapper_text(fs[k - 1].name@, fs[k - 1].params@.len(), r.score as int)
            } else {
                seq![]
            },
            None => seq![],
        }
    }
}

pub open spec fn js_header() -> Seq<char> {
    "// Selvr bridge \u{2014} auto-generated, do not edit\n// JS wrappers for WASM-targeted exports\n\nimport { selvr_vm } from './app.loader.js';\n\n"@
}

/// The exported functions among the first `k` that the map sends to `t`,
/// each as `    "name"`, joined by `,\n`.
pub open spec fn export_list(fs: Seq<IrFn>, es: Seq<(Seq<char>, FnTargetV)>, t: Target, k: int) -> Seq<char>
    decreases k,
{
    if k <= 0 {
        seq![]
    } else {
        let rest = export_list(fs, es, t, k - 1);
        let f = fs[k - 1];
        if f.is_export && (lookup(es, f.name@) matches Some(r) && r.target == t) {
            if rest.len() == 0 {
                "    \""@ + f.name@ + "\""@
            } else {
                rest + ",\n    \""@ + f.name@ + "\""@
            }
        } else {
            rest
        }
    }
}

pub open spec fn loader_head() -> Seq<char> {
    "/**\n * Selvr Loader — auto-generated.\n *\n * Bootstraps the WASM runtime and wires it to the JS bridge.\n * Usage:\n *   <script type=\"module\" src=\"app.loader.js\"></script>\n *\n * Then: await Selvr.call(\"yourFunction\", arg1, arg2);\n */\nimport * as selvr_bridge from './app.bridge.js';\n\nlet selvr_vm = null;\n\nexport async function load(wasmUrl = './app.wasm') {\n  const { instance } = await WebAssembly.instantiateStreaming(fetch(wasmUrl), {\n    // JS import stubs (JS-targeted fns called from WASM).\n    js: Object.fromEntries(\n      Object.entries(selvr_bridge).map(([k, v]) => [k, v])\n    ),\n    env: { memory: new WebAssembly.Memory({ initial: 16 }) },\n  });\n  selvr_vm = instance.exports;\n  return instance;\n}\n\nexport async function call(name, ...args) {\n  if (!selvr_vm) throw new Error('[Selvr] call() before load()');\n  const argsJson = JSON.stringify(args);\n  const result   = selvr_vm.selvr_call\n    ? selvr_vm.selvr_call(name, argsJson)\n    : selvr_bridge[name]?.(...args);\n  try { return JSON.parse(result); } catch { return result; }\n}\n\n// WASM-targeted exports (routed through VM):\n// "@
}

pub open spec fn loader_middle() -> Seq<char> {
    "\n\n// JS-targeted exports (called directly):\n// "@
}

pub open spec fn loader_tail() -> Seq<char> {
    "\n\nexport const Selvr = { load, call, vm: () => selvr_vm };\nexport { selvr_vm };\n\nif (typeof window !== 'undefined') {\n  window.Selvr = Selvr;\n  document.dispatchEvent(new CustomEvent('selvr:ready', { detail: Selvr }));\n}\n"@
}

/// The loader script around the two export lists.
pub open spec fn loader_text(wasm: Seq<char>, js: Seq<char>) -> Seq<char> {
    loader_head() + wasm + loader_middle() + js + loader_tail()
}

/// A key's record, when the keys are distinct.
pub proof fn lemma_lookup(es: Seq<(Seq<char>, FnTargetV)>, i: int)
    requires
        entries_wf(es),
        0 <= i < es.len(),
    ensures
        lookup(es, es[i].0) == Some(es[i].1),
{
    let k = choose|k: int| 0 <= k < es.len() && (#[trigger] es[k]).0 == es[i].0;
    assert(k == i);
}

fn find<'m>(map: &'m TargetMap, name: &str) -> (r: Option<&'m FnTarget>)
    requires
        map.wf(),
    ensures
        match r {
            Some(rec) => lookup(map.entries(), name@) == Some(rec@),
            None => lookup(map.entries(), name@) is None,
        },
{
    let r = map.get(name);
    proof {
        if let Some(rec) = r {
            let i = choose|i: int| 0 <= i < map.entries().len() && map.entries()[i].0 == name@ && rec@ == map.entries()[i].1;
            lemma_lookup(map.entries(), i);
        }
    }
    r
}

fn loader_head_text() -> (s: &'static str)
    ensures
        s@ == loader_head(),
{
    "/**\n * Selvr Loader — auto-generated.\n *\n * Bootstraps the WASM runtime and wires it to the JS bridge.\n * Usage:\n *   <script type=\"module\" src=\"app.loader.js\"></script>\n *\n * Then: await Selvr.call(\"yourFunction\", arg1, arg2);\n */\nimport * as selvr_bridge from './app.bridge.js';\n\nlet selvr_vm = null;\n\nexport async function load(wasmUrl = './app.wasm') {\n  const { instance } = await WebAssembly.instantiateStreaming(fetch(wasmUrl), {\n    // JS import stubs (JS-targeted fns called from WASM).\n    js: Object.fromEntries(\n      Object.entries(selvr_bridge).map(([k, v]) => [k, v])\n    ),\n    env: { memory: new WebAssembly.Memory({ initial: 16 }) },\n  });\n  selvr_vm = instance.exports;\n  return instance;\n}\n\nexport async function call(name, ...args) {\n  if (!selvr_vm) throw new Error('[Selvr] call() before load()');\n  const argsJson = JSON.stringify(args);\n  const result   = selvr_vm.selvr_call\n    ? selvr_vm.selvr_call(name, argsJson)\n    : selvr_bridge[name]?.(...args);\n  try { return JSON.parse(result); } catch { return result; }\n}\n\n// WASM-targeted exports (routed through VM):\n// "
}

fn loader_middle_text() -> (s: &'static str)
    ensures
        s@ == loader_middle(),
{
    "\n\n// JS-targeted exports (called directly):\n// "
}

fn loader_tail_text() -> (s: &'static str)
    ensures
        s@ == loader_tail(),
{
    "\n\nexport const Selvr = { load, call, vm: () => selvr_vm };\nexport { selvr_vm };\n\nif (typeof window !== 'undefined') {\n  window.Selvr = Selvr;\n  document.dispatchEvent(new CustomEvent('selvr:ready', { detail: Selvr }));\n}\n"
}

impl<'a> BridgeEmitter<'a> {
    pub fn new(module: &'a IrModule, map: &'a TargetMap) -> (e: BridgeEmitter<'a>)
        ensures
            e.module == module,
            e.map == map,
    {
        BridgeEmitter { module, map }
    }
}

impl<'a> BridgeEmitter<'a> {
    /// All bridge artefacts.
    pub fn emit(&self) -> (out: BridgeOutput)
        requires
            self.map.wf(),
        ensures
            out.js@ == js_header() + wrappers(self.module.fns@, self.map.entries(), self.module.fns@.len() as int),
            out.loader@ == loader_text(
                export_list(self.module.fns@, self.map.entries(), Target::Wasm, self.module.fns@.len() as int),
                export_list(self.module.fns@, self.map.entries(), Target::Js, self.module.fns@.len() as int),
            ),
            out.report@ == json_report(
                count_target(self.map.entries(), Target::Wasm),
                count_target(self.map.entries(), Target::Js),
                json_entries("  "@, self.map.entries(), true),
            ),
    {
        let mut out = BridgeOutput::default();
        out.js = self.emit_js();
        out.loader = self.emit_loader();
        out.report = self.emit_report();
        out
    }

    fn emit_js(&self) -> (js: String)
        requires
            self.map.wf(),
        ensures
            js@ == js_header() + wrappers(self.module.fns@, self.map.entries(), self.module.fns@.len() as int),
    {
        let mut js = string_of(
            "// Selvr bridge \u{2014} auto-generated, do not edit\n// JS wrappers for WASM-targeted exports\n\nimport { selvr_vm } from './app.loader.js';\n\n",
        );
        let ghost fs = self.module.fns@;
        let ghost es = self.map.entries();
        let ghost head = js@;
        assert(head == js_header());
        let mut k: usize = 0;
        while k < self.module.fns.len()
            invariant
                self.map.wf(),
                fs == self.module.fns@,
                es == self.map.entries(),
                k <= fs.len(),
                js@ == head + wrappers(fs, es, k as int),
            decreases self.module.fns.len() - k,
        {
            let f = &self.module.fns[k];
            match find(self.map, f.name.as_str()) {
                Some(rec) => {
                    if rec.target == Target::Wasm {
                        self.emit_wasm_wrapper(&mut js, f, rec.score);
                    }
                },
                None => {},
            }
            k = k + 1;
        }
        js
    }

    /// A JS wrapper that serialises the arguments, calls `selvr_vm`, and
    /// parses the result.
    fn emit_wasm_wrapper(&self, js: &mut String, f: &IrFn, score: i32)
        ensures
            final(js)@ == old(js)@ + wrapper_text(f.name@, f.params@.len(), score as int),
    {
        let n = f.params.len();
        let mut params = String::new();
        let mut notes = String::new();
        let mut i: usize = 0;
        while i < n
            invariant
                n == f.params@.len(),
                i <= n,
                params@ == param_list(i as nat),
                notes@ == param_notes(i as nat),
            decreases n - i,
        {
            let digits = u64_to_string(i as u64);
            if i > 0 {
                push_str(&mut params, ", p");
            } else {
                push_str(&mut params, "p");
            }
            push_str(&mut params, digits.as_str());
            push_str(&mut notes, "  // p");
            push_str(&mut notes, digits.as_str());
            push_str(&mut notes, ": zero-copy if Float64Array / Int32Array\n");
            proof {
                if i == 0 {
                    assert(params@ =~= "p"@ + nat_digits(0));
                }
            }
            i = i + 1;
        }
        push_str(js, "/** WASM-targeted \u{2014} auto-routed by Selvr compiler (score: ");
        push_str(js, i64_to_string(score as i64).as_str());
        push_str(js, "). */\n");
        push_str(js, "export async function ");
        push_str(js, f.name.as_str());
        push_str(js, "(");
        push_str(js, params.as_str());
        push_str(js, ") {\n");
        push_str(js, notes.as_str());
        push_str(js, "  const _args = JSON.stringify([");
        push_str(js, params.as_str());
        push_str(js, "]);\n");
        push_str(js, "  const _result = selvr_vm.selvr_call(\"");
        push_str(js, f.name.as_str());
        push_str(js, "\", _args);\n");
        push_str(js, "  return JSON.parse(_result);\n");
        push_str(js, "}\n\n");
    }

    /// The exported functions the map sends to `t`, one per line.
    fn export_names(&self, t: Target) -> (s: String)
        requires
            self.map.wf(),
        ensures
            s@ == export_list(self.module.fns@, self.map.entries(), t, self.module.fns@.len() as int),
    {
        let ghost fs = self.module.fns@;
        let ghost es = self.map.entries();
        let mut out = String::new();
        let mut k: usize = 0;
        while k < self.module.fns.len()
            invariant
                self.map.wf(),
                fs == self.module.fns@,
                es == self.map.entries(),
                k <= fs.len(),
                out@ == export_list(fs, es, t, k as int),
            decreases self.module.fns.len() - k,
        {
            let f = &self.module.fns[k];
            let hit = match find(self.map, f.name.as_str()) {
                Some(rec) => rec.target == t,
                None => false,
            };
            let ghost before = out@;
            if f.is_export && hit {
                if !out.as_str().is_empty() {
                    push_str(&mut out, ",\n");
                }
                assert(out@ == before || (before.len() > 0 && out@ == before + ",\n"@));
                push_str(&mut out, "    \"");
                push_str(&mut out, f.name.as_str());
                push_str(&mut out, "\"");
                proof {
                    if before.len() == 0 {
                        assert(out@ =~= "    \""@ + f.name@ + "\""@);
                    } else {
                        assert(out@ =~= before + ",\n    \""@ + f.name@ + "\""@) by {
                            reveal_strlit(",\n");
                            reveal_strlit("    \"");
                            reveal_strlit(",\n    \"");
                        }
                    }
                }
            }
            k = k + 1;
        }
        out
    }

    /// The unified loader script.
    fn emit_loader(&self) -> (s: String)
        requires
            self.map.wf(),
        ensures
            s@ == loader_text(
                export_list(self.module.fns@, self.map.entries(), Target::Wasm, self.module.fns@.len() as int),
                export_list(self.module.fns@, self.map.entries(), Target::Js, self.module.fns@.len() as int),
            ),
    {
        let wasm_list = self.export_names(Target::Wasm);
        let js_list = self.export_names(Target::Js);
        let mut out = string_of(loader_head_text());
        push_str(&mut out, wasm_list.as_str());
        push_str(&mut out, loader_middle_text());
        push_str(&mut out, js_list.as_str());
        push_str(&mut out, loader_tail_text());
        out
    }

    /// The JSON report of every function's target decision.
    fn emit_report(&self) -> (s: String)
        ensures
            s@ == json_report(
                count_target(self.map.entries(), Target::Wasm),
                count_target(self.map.entries(), Target::Js),
                json_entries("  "@, self.map.entries(), true),
            ),
    {
        let (w, j, _a) = self.map.summary();
        let mut out = string_of("{\n  \"summary\":{\"wasm\":");
        push_str(&mut out, u64_to_string(w as u64).as_str());
        push_str(&mut out, ",\"js\":");
        push_str(&mut out, u64_to_string(j as u64).as_str());
        push_str(&mut out, "},\n  \"functions\":[\n");
        self.map.json_records(&mut out, "  ", true);
        push_str(&mut out, "\n  ]\n}");
        out
    }
}

} // verus!
