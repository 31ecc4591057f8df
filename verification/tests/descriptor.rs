use jni_codegen::codegen::{gen_jni_signature, jni_type, parameter_jni_type};
use jni_codegen::error::GenError;
use jni_codegen::models::{Method, Parameter};
use jni_codegen::types::{checked_element, strip_markers, ValueKind};

fn param(name: &str, class: &str, is_array: bool) -> Parameter {
    Parameter { name: Some(name.to_string()), class: class.to_string(), is_array }
}

fn result_of(class: &str, is_array: bool) -> Parameter {
    Parameter { name: None, class: class.to_string(), is_array }
}

fn method(name: &str, ret: Parameter, parameters: Vec<Parameter>) -> Method {
    Method { name: name.to_string(), return_type: ret, is_static: false, from_interface: None, parameters }
}

#[test]
fn primitive_codes_are_single_letters() {
    let names = ["boolean", "byte", "char", "short", "int", "long", "float", "double", "void"];
    let codes = ["Z", "B", "C", "S", "I", "J", "F", "D", "V"];
    for (name, code) in names.iter().zip(codes.iter()) {
        assert_eq!(jni_type(name, false), *code);
    }
}

#[test]
fn kinds_have_their_letters() {
    assert_eq!(ValueKind::of_name("boolean"), ValueKind::Boolean);
    assert_eq!(ValueKind::of_name("long").code(), 'J');
    assert_eq!(ValueKind::of_name("java.lang.Object"), ValueKind::Object);
    assert_eq!(ValueKind::of_name("Int"), ValueKind::Object);
    assert_eq!(ValueKind::of("int", true), ValueKind::Object);
    assert_eq!(ValueKind::of("double", false).accessor(), 'd');
}

#[test]
fn two_ints_returning_void() {
    let m = method("add", result_of("void", false), vec![param("a", "int", false), param("b", "int", false)]);
    assert_eq!(gen_jni_signature(&m), Ok("(II)V".to_string()));
}

#[test]
fn no_parameters() {
    let m = method("size", result_of("int", false), vec![]);
    assert_eq!(gen_jni_signature(&m), Ok("()I".to_string()));
}

#[test]
fn string_parameter_is_a_class() {
    assert_eq!(jni_type("java.lang.String", false), "Ljava/lang/String;");
    assert_eq!(parameter_jni_type(&param("s", "java.lang.String", false)), Ok("Ljava/lang/String;".to_string()));
}

#[test]
fn int_array() {
    assert_eq!(jni_type("int", true), "[I");
    assert_eq!(parameter_jni_type(&param("v", "int[]", true)), Ok("[I".to_string()));
    assert_eq!(parameter_jni_type(&param("v", "int", true)), Ok("[I".to_string()));
}

#[test]
fn array_of_a_class() {
    assert_eq!(jni_type("org.bukkit.World", true), "[Lorg/bukkit/World;");
    assert_eq!(parameter_jni_type(&param("w", "org.bukkit.World[]", true)), Ok("[Lorg/bukkit/World;".to_string()));
}

#[test]
fn parameters_keep_their_order() {
    let m = method(
        "put",
        result_of("java.lang.Object", false),
        vec![param("k", "java.lang.String", false), param("n", "long", false), param("f", "boolean[]", true)],
    );
    assert_eq!(gen_jni_signature(&m), Ok("(Ljava/lang/String;J[Z)Ljava/lang/Object;".to_string()));
}

#[test]
fn marker_without_flag_is_refused() {
    let m = method("get", result_of("int[]", false), vec![]);
    assert_eq!(gen_jni_signature(&m), Err(GenError::ArrayMismatch));
    let m = method("set", result_of("void", false), vec![param("a", "int", false), param("b", "byte[]", false)]);
    assert_eq!(gen_jni_signature(&m), Err(GenError::ArrayMismatch));
    assert_eq!(parameter_jni_type(&param("b", "byte[]", false)), Err(GenError::ArrayMismatch));
}

#[test]
fn markers_are_taken_out() {
    assert_eq!(strip_markers("int[]"), "int");
    assert_eq!(strip_markers("int[][]"), "int");
    assert_eq!(strip_markers("int"), "int");
    assert_eq!(checked_element("int[]", true), Some("int".to_string()));
    assert_eq!(checked_element("int", true), Some("int".to_string()));
    assert_eq!(checked_element("int", false), Some("int".to_string()));
    assert_eq!(checked_element("int[]", false), None);
}
