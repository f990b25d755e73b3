use std::marker::PhantomData;
use std::sync::Arc;

use rusty_js_core::baseline::ExitCode;
use rusty_js_core::bultins::function::{CaptureStack, JSFunction};
use rusty_js_core::bultins::object_property::{FieldNames, PropFlag, PropKey, ToProperyKey};
use rusty_js_core::bultins::strings::{JSString, Template};
use rusty_js_core::bultins::symbol::{decimal_string, JSymbol};
use rusty_js_core::bultins::typed_array::TypedArray;
use rusty_js_core::debug::logging;
use rusty_js_core::value::JValue;

#[test]
fn property_flags() {
    let f = PropFlag::default();
    assert!(f.is_enumerable() && f.is_writable() && f.is_configurable());
    assert!(!f.is_getter() && !f.is_setter());
    let g = f | PropFlag::new(PropFlag::GETTER);
    assert!(g.is_getter() && g.is_writable());
    let b = PropFlag::new(PropFlag::BUILTIN);
    assert!(!b.is_enumerable() && b.is_writable() && b.is_configurable());
    assert_eq!((g & b).0, PropFlag::BUILTIN);
}

#[test]
fn property_names_are_keyed_by_their_first_number() {
    let mut names = FieldNames::new();
    let a = "length".to_key(&mut names);
    let b = String::from("name").to_key(&mut names);
    let c = "length".to_key(&mut names);
    assert!(a == c);
    assert!(a != b);
    let k = a.to_key(&mut names);
    assert!(k == a);
    let d = "prototype".to_key(&mut names);
    assert!(d != a && d != b);
    assert!(names.register_field_name("name") == 1);
}

#[test]
fn symbols_print_their_number() {
    assert_eq!(JSymbol(0).to_string(), "Symbol(0)");
    assert_eq!(JSymbol(42).to_string(), "Symbol(42)");
    assert_eq!(JSymbol(4294967295).to_string(), "Symbol(4294967295)");
    assert_eq!(decimal_string(100), "100");
}

#[test]
fn strings_concatenate() {
    let a = JSString::from_str("ab");
    let b = JSString::from_string(String::from("cé"));
    let c = a.concat(&b);
    assert_eq!(c.as_str(), "abcé");
    assert_eq!(c.len(), 5);
    assert_eq!(a.concat_str("!").as_str(), "ab!");
    c.trace();
}

#[test]
fn templates_interleave_parts_and_arguments() {
    let t = Template { strings: vec!["a".to_string(), "b".to_string(), "c".to_string()], tagged: false };
    let r = t.create(&["1".to_string(), "2".to_string()]);
    assert_eq!(r.as_str(), "a1b2c");
    let short = t.create(&["1".to_string()]);
    assert_eq!(short.as_str(), "a1bc");
    let empty = Template { strings: vec![], tagged: true };
    assert_eq!(empty.create(&["x".to_string()]).as_str(), "");
}

#[test]
fn typed_array_length_counts_whole_elements() {
    let t: TypedArray<u32> = TypedArray { array_buffer: Arc::new(vec![0u8; 10]), ty: PhantomData };
    assert_eq!(t.len(), 2);
    let u: TypedArray<u8> = TypedArray { array_buffer: Arc::new(vec![0u8; 10]), ty: PhantomData };
    assert_eq!(u.len(), 10);
    let c = t.clone();
    assert_eq!(c.len(), 2);
}

#[test]
fn a_pending_environment_is_allocated_zeroed() {
    let c = CaptureStack::NeedAlloc(3);
    let d = c.data().unwrap();
    assert_eq!(d.len(), 3);
    assert!(d.iter().all(|v| *v == JValue(0)));
    let shared = CaptureStack::Allocated(Arc::new(vec![JValue(5)].into_boxed_slice()));
    assert_eq!(shared.data().unwrap()[0], JValue(5));
    assert!(CaptureStack::Absent.data().is_none());
}

fn function(capture_stack_size: Option<u16>) -> Arc<JSFunction> {
    Arc::new(JSFunction {
        is_async: false,
        is_generator: false,
        var_count: 0,
        args_len: 0,
        largest_stack_offset: 0,
        call_count: 0,
        capture_stack_size,
        bytecodes: Arc::new(Vec::new()),
    })
}

#[test]
fn instances_get_an_environment_of_the_announced_size() {
    let i = function(Some(4)).create_instance(None);
    assert_eq!(i.capture_stack().unwrap().len(), 4);
    let j = function(Some(0)).create_instance(Some(JValue(1)));
    assert!(j.capture_stack().is_none());
    let k = function(None).create_instance(None);
    assert!(k.capture_stack().is_none());
    let env = CaptureStack::Allocated(Arc::new(vec![JValue(9), JValue(8)].into_boxed_slice()));
    let l = function(Some(4)).create_instance_with_capture(None, env);
    assert_eq!(l.capture_stack().unwrap()[1], JValue(8));
}

#[test]
fn exit_codes() {
    assert!(ExitCode::Return.is_return());
    assert!(ExitCode::Error.is_error());
    assert!(ExitCode::Done.is_done());
    assert!(!ExitCode::Return.is_error());
    assert!(ExitCode::Error.is_yield());
    assert!(!ExitCode::Yield.is_yield());
    logging("message");
}

#[test]
fn property_keys_compare_by_number() {
    let mut names = FieldNames::new();
    let a: PropKey = "x".to_key(&mut names);
    let b: PropKey = "x".to_key(&mut names);
    assert!(a == b);
}
