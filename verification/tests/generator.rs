use spectest_gen::commands::{CmdKind, InvokeAction, ScriptCommand};
use spectest_gen::controller::{index_content, is_stale, plan_regens, should_write_index, ScriptStatus};
use spectest_gen::gen::generate_script;
use spectest_gen::harness::{create_instance, start_module_1, start_module_2};
use spectest_gen::text::{push_bytes, push_dec, push_escaped, push_int, push_quoted};
use spectest_gen::values::{rust_literal, rust_type_name, LitValue};

const BANNER: &str = "// Rust test file autogenerated with cargo build (src/build_spectests.rs).\n// Please do NOT modify it by hand, as it will be reseted on next build.\n";

fn header_for(filename: &str) -> String {
    let mut s = String::new();
    s.push_str(BANNER);
    s.push_str("// Test based on spectests/");
    s.push_str(filename);
    s.push_str("\nuse crate::webassembly::{instantiate, compile, ImportObject, ResultObject, VmCtx, Export};\nuse super::_common::spectest_importobject;\nuse wabt::wat2wasm;\n\n");
    s
}

#[test]
fn type_mapper_names() {
    assert_eq!(rust_type_name(&LitValue::I32(0)), "i32");
    assert_eq!(rust_type_name(&LitValue::I64(0)), "i64");
    assert_eq!(rust_type_name(&LitValue::F32(String::from("0.0"))), "f32");
    assert_eq!(rust_type_name(&LitValue::F64(String::from("0.0"))), "f64");
}

#[test]
fn type_mapper_literals() {
    assert_eq!(rust_literal(&LitValue::I32(25)), "25 as i32");
    assert_eq!(rust_literal(&LitValue::I32(-7)), "-7 as i32");
    assert_eq!(rust_literal(&LitValue::I32(i32::MIN)), "-2147483648 as i32");
    assert_eq!(
        rust_literal(&LitValue::I64(i64::MIN)),
        "-9223372036854775808 as i64"
    );
    assert_eq!(
        rust_literal(&LitValue::I64(7034535277573963776)),
        "7034535277573963776 as i64"
    );
    assert_eq!(rust_literal(&LitValue::F32(String::from("0.5"))), "0.5 as f32");
    assert_eq!(
        rust_literal(&LitValue::F64(String::from("-1.25"))),
        "-1.25 as f64"
    );
}

#[test]
fn decimal_rendering() {
    let mut s = String::new();
    push_dec(&mut s, 0);
    push_dec(&mut s, 10);
    push_dec(&mut s, 130);
    push_dec(&mut s, u64::MAX);
    assert_eq!(s, "01013018446744073709551615");
    let mut t = String::new();
    push_int(&mut t, -130);
    push_int(&mut t, 0);
    assert_eq!(t, "-1300");
}

#[test]
fn byte_array_rendering() {
    let mut s = String::new();
    push_bytes(&mut s, &vec![0u8, 97, 115, 109]);
    assert_eq!(s, "[0, 97, 115, 109]");
    let mut t = String::new();
    push_bytes(&mut t, &Vec::new());
    assert_eq!(t, "[]");
    let mut u = String::new();
    push_bytes(&mut u, &vec![255u8]);
    assert_eq!(u, "[255]");
}

#[test]
fn escaping_quotes_and_newlines() {
    let mut s = String::new();
    push_escaped(&mut s, "(module\n  (export \"a\"))");
    assert_eq!(s, "(module\n      (export \\\"a\\\"))");
}

// A module text holding embedded quote characters survives the trip into the
// generated literal and back out of the source language's escape rules, up
// to the four alignment spaces inserted after each line break.
#[test]
fn escaping_round_trip() {
    let original = "(module\n  (func (export \"fac\")))";
    let mut escaped = String::new();
    push_escaped(&mut escaped, original);
    // Undo the source-literal escaping, as a compiler reading the generated
    // file would.
    let mut read_back = String::new();
    let mut chars = escaped.chars();
    while let Some(c) = chars.next() {
        if c == '\\' {
            match chars.next() {
                Some(d) => read_back.push(d),
                None => panic!("dangling escape"),
            }
        } else {
            read_back.push(c);
        }
    }
    // Undo the alignment indentation.
    let reflowed = read_back.replace("\n    ", "\n");
    assert_eq!(reflowed, original);
}

#[test]
fn quoted_field_name() {
    let mut s = String::new();
    push_quoted(&mut s, "fac-expr");
    assert_eq!(s, "\"fac-expr\"");
    let mut t = String::new();
    push_quoted(&mut t, "a\"b\\c\nd");
    assert_eq!(t, "\"a\\\"b\\\\c\\nd\"");
}

// One module exporting a function from 32-bit integer to 32-bit integer,
// asserted to map 5 to 25: the generated file holds the factory, one typed
// wrapper, and one aggregating test calling it.
#[test]
fn single_module_invoke_scenario() {
    let text = String::from("(module\n  (func (export \"sq\") (param i32) (result i32)))");
    let cmds = vec![
        ScriptCommand { line: 1, kind: CmdKind::Module { text } },
        ScriptCommand {
            line: 2,
            kind: CmdKind::AssertReturn {
                action: InvokeAction::Invoke {
                    field: String::from("sq"),
                    args: vec![LitValue::I32(5)],
                },
                expected: vec![LitValue::I32(25)],
            },
        },
    ];
    let got = generate_script(&String::from("square.wast"), &cmds);

    let mut want = header_for("square.wast");
    want.push_str("\n// Line 1\n");
    want.push_str("fn create_module_1() -> ResultObject {\n    let module_str = \"(module\n      (func (export \\\"sq\\\") (param i32) (result i32)))\";\n    let wasm_binary = wat2wasm(module_str.as_bytes()).expect(\"WAST not valid or malformed\");\n    instantiate(wasm_binary, spectest_importobject()).expect(\"WASM can't be instantiated\")\n}\n");
    want.push_str("\n// Line 2\n");
    want.push_str("fn l2_assert_return_invoke(result_object: &ResultObject) {\n    let func_index = match result_object.module.info.exports.get(\"sq\") {\n        Some(&Export::Function(index)) => index,\n        _ => panic!(\"Function not found\"),\n    };\n    let invoke_fn: fn(i32, &VmCtx) -> i32 = get_instance_function!(result_object.instance, func_index);\n    let vm_context = result_object.instance.generate_context();\n    let result = invoke_fn(5 as i32, &vm_context);\n    assert_eq!(result, 25 as i32);\n}\n");
    want.push_str("\n#[test]\nfn test_module_1() {\n    let result_object = create_module_1();\n    // We group the calls together\n    l2_assert_return_invoke(&result_object);\n}\n");
    assert_eq!(got, want);
}

// An assert-invalid command becomes a standalone test compiling the exact
// byte sequence and expecting failure.
#[test]
fn assert_invalid_scenario() {
    let cmds = vec![ScriptCommand {
        line: 7,
        kind: CmdKind::AssertInvalid { binary: vec![0, 1, 2] },
    }];
    let got = generate_script(&String::from("bad.wast"), &cmds);
    let mut want = header_for("bad.wast");
    want.push_str("\n// Line 7\n");
    want.push_str("#[test]\nfn l7_assert_invalid() {\n    let wasm_binary = [0, 1, 2];\n    let compilation = compile(wasm_binary.to_vec());\n    assert!(compilation.is_err(), \"WASM should not compile as is invalid\");\n}\n");
    assert_eq!(got, want);
}

#[test]
fn assert_malformed_emits_standalone_test() {
    let cmds = vec![ScriptCommand {
        line: 3,
        kind: CmdKind::AssertMalformed { binary: vec![1] },
    }];
    let got = generate_script(&String::from("m.wast"), &cmds);
    let mut want = header_for("m.wast");
    want.push_str("\n// Line 3\n");
    want.push_str("#[test]\nfn l3_assert_malformed() {\n    let wasm_binary = [1];\n    let compilation = compile(wasm_binary.to_vec());\n    assert!(compilation.is_err(), \"WASM should not compile as is malformed\");\n}\n");
    assert_eq!(got, want);
}

// A script holding only unsupported command kinds generates the header and
// the line comments, and nothing else.
#[test]
fn unsupported_commands_are_skipped() {
    let cmds = vec![
        ScriptCommand { line: 3, kind: CmdKind::Unsupported },
        ScriptCommand { line: 9, kind: CmdKind::Unsupported },
    ];
    let got = generate_script(&String::from("traps.wast"), &cmds);
    let mut want = header_for("traps.wast");
    want.push_str("\n// Line 3\n");
    want.push_str("\n// Line 9\n");
    assert_eq!(got, want);
    assert!(!got.contains("#[test]"));
    assert!(!got.contains("fn create_module"));
}

// Repeated generation over the same command stream is byte-identical.
#[test]
fn generation_is_deterministic() {
    let cmds = vec![
        ScriptCommand {
            line: 1,
            kind: CmdKind::Module { text: String::from("(module)") },
        },
        ScriptCommand {
            line: 2,
            kind: CmdKind::AssertReturn {
                action: InvokeAction::Invoke { field: String::from("f"), args: vec![] },
                expected: vec![],
            },
        },
    ];
    let name = String::from("same.wast");
    let first = generate_script(&name, &cmds);
    let second = generate_script(&name, &cmds);
    assert_eq!(first, second);
}

// Two modules, each gathering its own assertions: every module index appears
// in exactly one aggregating test, whose calls stand in script order.
#[test]
fn ledger_flush_per_module() {
    let cmds = vec![
        ScriptCommand { line: 1, kind: CmdKind::Module { text: String::from("(module)") } },
        ScriptCommand {
            line: 2,
            kind: CmdKind::AssertReturn {
                action: InvokeAction::Invoke { field: String::from("f"), args: vec![] },
                expected: vec![],
            },
        },
        ScriptCommand {
            line: 3,
            kind: CmdKind::AssertReturn {
                action: InvokeAction::Invoke { field: String::from("g"), args: vec![] },
                expected: vec![],
            },
        },
        ScriptCommand { line: 10, kind: CmdKind::Module { text: String::from("(module)") } },
        ScriptCommand {
            line: 11,
            kind: CmdKind::AssertReturn {
                action: InvokeAction::Invoke { field: String::from("h"), args: vec![] },
                expected: vec![],
            },
        },
    ];
    let got = generate_script(&String::from("two.wast"), &cmds);
    assert_eq!(got.matches("fn test_module_1()").count(), 1);
    assert_eq!(got.matches("fn test_module_2()").count(), 1);
    let t1 = got.find("fn test_module_1()").unwrap();
    let t2 = got.find("fn test_module_2()").unwrap();
    let body1 = &got[t1..t2];
    assert!(body1.contains("l2_assert_return_invoke(&result_object);"));
    assert!(body1.contains("l3_assert_return_invoke(&result_object);"));
    assert!(
        body1.find("l2_assert_return_invoke(&result_object);").unwrap()
            < body1.find("l3_assert_return_invoke(&result_object);").unwrap()
    );
    assert!(!body1.contains("l11_assert_return_invoke(&result_object);"));
    let body2 = &got[t2..];
    assert!(body2.contains("l11_assert_return_invoke(&result_object);"));
}

// A call with no expected values gets no return type and a unit comparison.
#[test]
fn wrapper_without_expected_value() {
    let cmds = vec![
        ScriptCommand { line: 1, kind: CmdKind::Module { text: String::from("(module)") } },
        ScriptCommand {
            line: 4,
            kind: CmdKind::AssertReturn {
                action: InvokeAction::Invoke { field: String::from("go"), args: vec![] },
                expected: vec![],
            },
        },
    ];
    let got = generate_script(&String::from("unit.wast"), &cmds);
    assert!(got.contains("let invoke_fn: fn(&VmCtx) = get_instance_function!"));
    assert!(got.contains("let result = invoke_fn(&vm_context);"));
    assert!(got.contains("assert_eq!(result, ());"));
}

#[test]
fn staleness_decision() {
    assert!(is_stale(&ScriptStatus { script_mtime: 5, output_mtime: None }));
    assert!(is_stale(&ScriptStatus { script_mtime: 5, output_mtime: Some(4) }));
    assert!(!is_stale(&ScriptStatus { script_mtime: 5, output_mtime: Some(5) }));
    assert!(!is_stale(&ScriptStatus { script_mtime: 5, output_mtime: Some(9) }));
}

#[test]
fn regeneration_plan_follows_staleness() {
    let statuses = vec![
        ScriptStatus { script_mtime: 5, output_mtime: None },
        ScriptStatus { script_mtime: 5, output_mtime: Some(9) },
        ScriptStatus { script_mtime: 5, output_mtime: Some(1) },
    ];
    let plan = plan_regens(&statuses);
    assert_eq!(plan, vec![true, false, true]);
}

// A second controller pass over fresh outputs plans no regeneration at all.
#[test]
fn second_pass_plans_nothing() {
    let statuses = vec![
        ScriptStatus { script_mtime: 5, output_mtime: Some(6) },
        ScriptStatus { script_mtime: 7, output_mtime: Some(7) },
    ];
    let plan = plan_regens(&statuses);
    assert_eq!(plan, vec![false, false]);
    let fresh = index_content(&vec![String::from("a"), String::from("b")]);
    let current: Vec<u8> = fresh.as_bytes().to_vec();
    assert!(!should_write_index(&current, &fresh.as_bytes().to_vec()));
}

#[test]
fn index_file_content() {
    let names = vec![String::from("br_if"), String::from("stack")];
    let got = index_content(&names);
    let mut want = String::new();
    want.push_str(BANNER);
    want.push_str("\n// The _common module is not autogenerated, as it provides common functions for the spectests\nmod _common;\n");
    want.push_str("mod br_if;\nmod stack;\n");
    assert_eq!(got, want);
}

#[test]
fn index_rewrite_only_on_difference() {
    let a: Vec<u8> = b"mod a;\n".to_vec();
    let b: Vec<u8> = b"mod b;\n".to_vec();
    assert!(should_write_index(&a, &b));
    assert!(!should_write_index(&a, &a.clone()));
    let shorter: Vec<u8> = b"mod a;".to_vec();
    assert!(should_write_index(&a, &shorter));
}

#[test]
fn start_steps_run_each_instance_once() {
    let mut one = create_instance(1);
    assert!(!one.started);
    start_module_1(&mut one);
    assert!(one.started);
    assert_eq!(one.module_index, 1);
    let mut two = create_instance(2);
    start_module_2(&mut two);
    assert!(two.started);
    assert_eq!(two.module_index, 2);
}
