use std::sync::Mutex;

use flow_rt::pipelines::math::{check_math_op, OperationKind};
use flow_rt::pipelines::nmap::{
    elevated_nmap_command, nmap_result, Platform, ProcessOutcome,
};
use flow_rt::pipelines::{
    apply_native_fn, impl_get_context, invoke_resolved, DispatchError, NativeFnContext,
    NativeFnMetaInfo, NativeFnRegistry,
};
use serde_json::{Number, Value};

type Handler = fn(NativeFnContext) -> Result<(), DispatchError>;

struct LogArguments {
    level: String,
    message: String,
}

fn text_field(context: &Value, field: &str) -> Result<String, String> {
    match context.get(field) {
        Some(Value::String(text)) => Ok(text.clone()),
        Some(_) => Err(format!("invalid type for field `{field}`")),
        None => Err(format!("missing field `{field}`")),
    }
}

fn read_log_arguments(context: &Value) -> Result<LogArguments, String> {
    Ok(LogArguments { level: text_field(context, "level")?, message: text_field(context, "message")? })
}

fn write_log(arguments: LogArguments) -> Result<(), DispatchError> {
    println!("[{}] {}", arguments.level, arguments.message);
    Ok(())
}

fn add_log(ctx: NativeFnContext) -> Result<(), DispatchError> {
    apply_native_fn(&ctx.name, read_log_arguments(&ctx.context), &write_log)
}

fn succeed(_ctx: NativeFnContext) -> Result<(), DispatchError> {
    Ok(())
}

fn fail(_ctx: NativeFnContext) -> Result<(), DispatchError> {
    Err(DispatchError::HandlerFailure("second".to_owned()))
}

fn info(handler: Handler, schema: &str) -> NativeFnMetaInfo<Handler> {
    NativeFnMetaInfo { handler, schema: Value::String(schema.to_owned()) }
}

fn object(fields: &[(&str, Value)]) -> Value {
    let mut map = serde_json::Map::new();
    for (key, value) in fields {
        map.insert((*key).to_owned(), value.clone());
    }
    Value::Object(map)
}

fn text(value: &str) -> Value {
    Value::String(value.to_owned())
}

fn builtins() -> NativeFnRegistry<Handler> {
    impl_get_context(
        info(succeed, "nmap"),
        info(add_log, "log"),
        info(add_log, "println!"),
        info(succeed, "math"),
    )
}

#[test]
fn get_native_fn_map_should_have_println() {
    let shared = Mutex::new(builtins());
    let registry = shared.lock().map_err(|_| "Could not lock registry");

    assert!(registry.is_ok(), "Registry retrieval is NOT ok!");
    if registry.is_err() {
        return;
    }

    let registry = registry.unwrap();
    let a = registry.resolve("println!");
    assert!(
        a.is_some(),
        "Could not find println! function in native registry"
    );
}

#[test]
fn get_available_native_functions_should_have_println() {
    let result = builtins().list();
    assert!(
        result.iter().any(|f| f.name.eq("println!")),
        "Could not find println! function that should exist!"
    );
}

#[test]
fn invoke_function_that_exists_with_correct_payload_is_ok() {
    let r = builtins().invoke(NativeFnContext {
        name: "println!".to_owned(),
        context: object(&[("level", text("Info")), ("message", text("Hello from test!"))]),
    });
    assert!(
        r.is_ok(),
        "impl_invoke_from_registry encountered an error {}",
        r.unwrap_err().message()
    );
}

#[test]
fn invoke_function_that_exists_with_incorrect_payload_is_err() {
    let r = builtins().invoke(NativeFnContext {
        name: "println!".to_owned(),
        context: object(&[("level", text("Info"))]),
    });
    assert!(r.is_err(), "impl_invoke_from_registry did not encounter an error when it should have encountered a deserialization error");
}

#[test]
fn invoke_function_that_does_not_exist() {
    let r = builtins().invoke(NativeFnContext {
        name: "functionNameThatDoesntExist".to_owned(),
        context: object(&[]),
    });

    assert!(r.is_err(), "impl_invoke_from_registry did not raise an error when a function that does not exist was called");
}

#[test]
fn impl_do_math_op_correct_input() {
    let left = Number::from_f64(10f64).unwrap();
    let right = Number::from_f64(10f64).unwrap();
    let r = check_math_op(OperationKind::Sum, left.as_f64().is_some(), right.as_f64().is_some());

    assert!(r.is_ok());
}

#[test]
fn builtin_table_lists_the_four_names_in_order() {
    let names: Vec<String> = builtins().list().into_iter().map(|f| f.name).collect();
    assert_eq!(names, vec!["nmap", "log", "println!", "math"]);
}

#[test]
fn missing_function_is_reported_by_name() {
    let r = builtins().invoke(NativeFnContext { name: "nope".to_owned(), context: Value::Null });
    match r {
        Err(DispatchError::FunctionNotFound(name)) => {
            assert_eq!(name, "nope");
            assert_eq!(
                DispatchError::FunctionNotFound(name).message(),
                "Fn(nope) was not found"
            );
        }
        other => panic!("expected FunctionNotFound, got {other:?}"),
    }
}

#[test]
fn unreadable_arguments_are_invalid_arguments_with_the_field() {
    let r = builtins().invoke(NativeFnContext {
        name: "log".to_owned(),
        context: object(&[("level", text("Info"))]),
    });
    match r {
        Err(DispatchError::InvalidArguments(detail)) => {
            assert_eq!(detail, "Deserialization error for log: missing field `message`");
        }
        other => panic!("expected InvalidArguments, got {other:?}"),
    }
}

#[test]
fn registering_a_name_twice_keeps_the_second_registration_only() {
    let mut registry: NativeFnRegistry<Handler> = NativeFnRegistry::new();
    registry.register("step".to_owned(), info(succeed, "first"));
    registry.register("other".to_owned(), info(succeed, "other"));
    registry.register("step".to_owned(), info(fail, "second"));

    assert_eq!(registry.len(), 2);
    let found = registry.resolve("step").expect("step is registered");
    assert_eq!(found.schema, text("second"));
    let names: Vec<String> = registry.list().into_iter().map(|f| f.name).collect();
    assert_eq!(names, vec!["step", "other"]);
    match registry.invoke(NativeFnContext { name: "step".to_owned(), context: Value::Null }) {
        Err(DispatchError::HandlerFailure(detail)) => assert_eq!(detail, "second"),
        other => panic!("the first registration answered: {other:?}"),
    }
}

#[test]
fn unregister_removes_only_the_named_function() {
    let mut registry = builtins();
    assert!(registry.unregister("log"));
    assert!(!registry.unregister("log"));
    assert!(registry.resolve("log").is_none());
    assert!(registry.resolve("println!").is_some());
    let names: Vec<String> = registry.list().into_iter().map(|f| f.name).collect();
    assert_eq!(names, vec!["nmap", "println!", "math"]);
}

fn number(context: &Value, field: &str) -> Option<f64> {
    context.get(field).and_then(|value| value.as_f64())
}

fn math(ctx: NativeFnContext) -> Result<(), DispatchError> {
    let kind = match ctx.context.get("operation").and_then(|value| value.as_str()) {
        Some("sum") => OperationKind::Sum,
        Some("divide") => OperationKind::Divide,
        Some("ceil") => OperationKind::Ceil,
        _ => return Err(DispatchError::InvalidArguments("unknown operation".to_owned())),
    };
    let a = number(&ctx.context, "a");
    let b = number(&ctx.context, "b");
    check_math_op(kind, a.is_some(), b.is_some())?;
    let result = match kind {
        OperationKind::Sum => a.unwrap() + b.unwrap(),
        OperationKind::Ceil => a.unwrap().ceil(),
        _ => a.unwrap() / b.unwrap(),
    };
    let expected = ctx.context.get("expect").and_then(|value| value.as_str()).unwrap_or("");
    if format!("{result}") == expected {
        Ok(())
    } else {
        Err(DispatchError::HandlerFailure(format!("Result: {result}")))
    }
}

fn math_payload(operation: &str, a: i64, b: i64, expect: &str) -> NativeFnContext {
    NativeFnContext {
        name: "math".to_owned(),
        context: object(&[
            ("operation", text(operation)),
            ("a", Value::Number(Number::from(a))),
            ("b", Value::Number(Number::from(b))),
            ("expect", text(expect)),
        ]),
    }
}

#[test]
fn math_dispatch_adds_and_divides_by_zero_to_infinity() {
    let mut registry: NativeFnRegistry<Handler> = NativeFnRegistry::new();
    registry.register("math".to_owned(), info(math, "math"));
    assert!(registry.invoke(math_payload("sum", 2, 3, "5")).is_ok());
    assert!(registry.invoke(math_payload("divide", 1, 0, "inf")).is_ok());
    let rounded_up = NativeFnContext {
        name: "math".to_owned(),
        context: object(&[
            ("operation", text("ceil")),
            ("a", Value::Number(Number::from_f64(1.5).unwrap())),
            ("expect", text("2")),
        ]),
    };
    assert!(registry.invoke(rounded_up).is_ok());
}

#[test]
fn math_check_reports_unreadable_operands() {
    assert!(check_math_op(OperationKind::Abs, true, false).is_ok());
    for (kind, first, second) in [
        (OperationKind::Sum, true, false),
        (OperationKind::Divide, false, true),
        (OperationKind::Sin, false, true),
    ] {
        match check_math_op(kind, first, second) {
            Err(DispatchError::HandlerFailure(detail)) => {
                assert_eq!(detail, "Value is not a valid number")
            }
            other => panic!("{kind:?}: {other:?}"),
        }
    }
}

#[test]
fn every_operation_passes_the_check_on_readable_operands() {
    for kind in [
        OperationKind::Sum,
        OperationKind::Subtract,
        OperationKind::Multiply,
        OperationKind::Divide,
    ] {
        assert!(check_math_op(kind, true, true).is_ok(), "{kind:?}");
        assert!(check_math_op(kind, true, false).is_err(), "{kind:?}");
    }
    for kind in [
        OperationKind::Abs,
        OperationKind::SquareRoot,
        OperationKind::Sin,
        OperationKind::Floor,
        OperationKind::Ceil,
    ] {
        assert!(check_math_op(kind, true, false).is_ok(), "{kind:?}");
        assert!(check_math_op(kind, true, true).is_ok(), "{kind:?}");
        assert!(check_math_op(kind, false, true).is_err(), "{kind:?}");
    }
}

fn strings(items: &[&str]) -> Vec<String> {
    items.iter().map(|item| (*item).to_owned()).collect()
}

#[test]
fn nmap_command_on_each_platform() {
    let linux = elevated_nmap_command(Platform::Linux, strings(&["-sV", "10.0.0.1"]));
    assert_eq!(linux.program, "pkexec");
    assert_eq!(linux.arguments, strings(&["nmap", "-sV", "10.0.0.1"]));

    let mac = elevated_nmap_command(Platform::MacOs, strings(&["-sV", "10.0.0.1"]));
    assert_eq!(mac.program, "osascript");
    assert_eq!(
        mac.arguments,
        strings(&["-e", "do shell script \"nmap -sV 10.0.0.1\" with administrator privileges"])
    );

    let mac_bare = elevated_nmap_command(Platform::MacOs, strings(&[]));
    assert_eq!(
        mac_bare.arguments,
        strings(&["-e", "do shell script \"nmap \" with administrator privileges"])
    );

    let windows = elevated_nmap_command(Platform::Windows, strings(&["-sV"]));
    assert_eq!(windows.program, "nmap");
    assert_eq!(windows.arguments, strings(&["-sV"]));

    let other = elevated_nmap_command(Platform::Other, strings(&["-sV"]));
    assert_eq!(other.program, "nmap");
    assert!(other.arguments.is_empty());
}

#[test]
fn nmap_result_of_each_outcome() {
    assert!(nmap_result(ProcessOutcome::Exited { success: true }).is_ok());
    match nmap_result(ProcessOutcome::Exited { success: false }) {
        Err(DispatchError::ExternalProcessFailure(detail)) => {
            assert_eq!(detail, "ExitStatus is not success")
        }
        other => panic!("{other:?}"),
    }
    match nmap_result(ProcessOutcome::NotLaunched("no such file".to_owned())) {
        Err(DispatchError::ExternalProcessFailure(detail)) => assert_eq!(detail, "no such file"),
        other => panic!("{other:?}"),
    }
}

#[test]
fn every_error_has_its_text() {
    assert_eq!(DispatchError::FunctionNotFound("f".to_owned()).message(), "Fn(f) was not found");
    assert_eq!(DispatchError::InvalidArguments("bad field".to_owned()).message(), "bad field");
    assert_eq!(DispatchError::ExternalProcessFailure("exit 2".to_owned()).message(), "exit 2");
    assert_eq!(DispatchError::HandlerFailure("no".to_owned()).message(), "no");
    assert_eq!(DispatchError::LockContention.message(), "Failed to lock registry");
}

#[test]
fn a_handler_taken_out_of_the_registry_finishes_the_dispatch() {
    let registry = builtins();
    let payload =
        || NativeFnContext { name: "log".to_owned(), context: object(&[("level", text("Info"))]) };
    let found: Option<Handler> = registry.resolve("log").map(|info| info.handler);
    assert!(matches!(invoke_resolved(found, payload()), Err(DispatchError::InvalidArguments(_))));
    let missing: Option<Handler> = None;
    match invoke_resolved(missing, payload()) {
        Err(DispatchError::FunctionNotFound(name)) => assert_eq!(name, "log"),
        other => panic!("{other:?}"),
    }
}
