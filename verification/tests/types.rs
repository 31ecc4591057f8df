use jni_codegen::codegen::{
    class_name_to_tokens, emit_signature, gen_declared_parameters, gen_env_param,
    gen_method_signature, gen_named_signature, param_to_tokens, parameter_host_type,
    reference_type_of, wrap_result,
};
use jni_codegen::ejni_types::EJNIType;
use jni_codegen::error::GenError;
use jni_codegen::models::{Method, Parameter};

fn param(name: &str, class: &str, is_array: bool) -> Parameter {
    Parameter { name: Some(name.to_string()), class: class.to_string(), is_array }
}

fn result_of(class: &str, is_array: bool) -> Parameter {
    Parameter { name: None, class: class.to_string(), is_array }
}

fn method(name: &str, is_static: bool, ret: Parameter, parameters: Vec<Parameter>) -> Method {
    Method { name: name.to_string(), return_type: ret, is_static, from_interface: None, parameters }
}

#[test]
fn well_known_classes() {
    assert_eq!(EJNIType::from_str("java.util.Iterator"), Some(EJNIType::Iterator));
    assert_eq!(EJNIType::from_str("java.util.List"), Some(EJNIType::List));
    assert_eq!(EJNIType::from_str("java.util.ArrayList"), Some(EJNIType::List));
    assert_eq!(EJNIType::from_str("java.util.Map"), Some(EJNIType::JavaMap));
    assert_eq!(EJNIType::from_str("java.util.HashMap"), Some(EJNIType::JavaMap));
    assert_eq!(EJNIType::from_str("java.util.Set"), Some(EJNIType::JavaSet));
    assert_eq!(EJNIType::from_str("java.util.HashSet"), Some(EJNIType::JavaSet));
    assert_eq!(EJNIType::from_str("java.lang.String"), Some(EJNIType::JavaString));
    assert_eq!(EJNIType::from_str("java.lang.Object"), None);
    assert_eq!(EJNIType::from_str("String"), None);
}

#[test]
fn wrappers_of_the_support_crate() {
    assert_eq!(EJNIType::Iterator.to_tokens(), "ejni::Iterator");
    assert_eq!(EJNIType::List.to_tokens(), "ejni::List");
    assert_eq!(EJNIType::JavaMap.to_tokens(), "ejni::Map");
    assert_eq!(EJNIType::JavaSet.to_tokens(), "ejni::Set");
    assert_eq!(EJNIType::JavaString.to_tokens(), "ejni::JavaString");
}

#[test]
fn primitive_host_types() {
    let pairs = [
        ("void", "()"),
        ("int", "i32"),
        ("long", "i64"),
        ("float", "f32"),
        ("double", "f64"),
        ("short", "i16"),
        ("char", "u16"),
        ("byte", "u8"),
        ("boolean", "bool"),
    ];
    for (name, ty) in pairs.iter() {
        assert_eq!(class_name_to_tokens(name), Ok(ty.to_string()));
    }
}

#[test]
fn well_known_types_with_and_without_array() {
    assert_eq!(class_name_to_tokens("java.util.List"), Ok("ejni::List".to_string()));
    assert_eq!(class_name_to_tokens("java.lang.String[]"), Ok("ejni::JavaString".to_string()));
    assert_eq!(parameter_host_type(&result_of("java.util.List", false)), Ok("ejni::List".to_string()));
    assert_eq!(
        parameter_host_type(&result_of("java.util.List", true)),
        Ok("std::vec::Vec<ejni::List>".to_string())
    );
    assert_eq!(
        parameter_host_type(&result_of("java.lang.String[]", true)),
        Ok("std::vec::Vec<ejni::JavaString>".to_string())
    );
    assert_eq!(parameter_host_type(&result_of("int[]", true)), Ok("std::vec::Vec<i32>".to_string()));
}

#[test]
fn other_classes_go_by_their_name() {
    assert_eq!(class_name_to_tokens("org.bukkit.World"), Ok("org :: bukkit :: World".to_string()));
    assert_eq!(class_name_to_tokens("World"), Ok("World".to_string()));
    assert_eq!(
        parameter_host_type(&result_of("org.bukkit.World[]", true)),
        Ok("std::vec::Vec<org :: bukkit :: World>".to_string())
    );
}

#[test]
fn a_name_that_is_no_token_sequence() {
    assert_eq!(class_name_to_tokens("org.bukkit.(World"), Err(GenError::InvalidType));
    assert_eq!(class_name_to_tokens("\"open"), Err(GenError::InvalidType));
    assert_eq!(reference_type_of(None), Err(GenError::InvalidType));
    assert_eq!(reference_type_of(Some("a :: B".to_string())), Ok("a :: B".to_string()));
}

#[test]
fn parameters_in_a_signature() {
    assert_eq!(param_to_tokens(&param("count", "int", false), false), Ok("count: i32".to_string()));
    assert_eq!(param_to_tokens(&param("count", "int", false), true), Ok("i32".to_string()));
    assert_eq!(
        param_to_tokens(&param("names", "java.lang.String[]", true), false),
        Ok("names: std::vec::Vec<ejni::JavaString>".to_string())
    );
    assert_eq!(param_to_tokens(&result_of("void", false), true), Ok("()".to_string()));
}

#[test]
fn parameters_that_cannot_be_written() {
    assert_eq!(param_to_tokens(&result_of("int", false), false), Err(GenError::MissingParameterName));
    assert_eq!(param_to_tokens(&param("my-arg", "int", false), false), Err(GenError::InvalidIdentifier));
    assert_eq!(param_to_tokens(&param("", "int", false), false), Err(GenError::InvalidIdentifier));
    assert_eq!(param_to_tokens(&param("a", "int[]", false), false), Err(GenError::ArrayMismatch));
    assert_eq!(param_to_tokens(&param("a", "x.(y", false), false), Err(GenError::InvalidType));
    assert_eq!(param_to_tokens(&param("1a", "x.(y", false), false), Err(GenError::InvalidType));
}

#[test]
fn pieces_of_a_signature() {
    assert_eq!(gen_env_param(), "env: &'a jni::JNIEnv<'a>");
    assert_eq!(wrap_result("i32"), "jni::errors::Result<i32>");
    assert_eq!(
        emit_signature("get_name", false, ", index: i32", "ejni::JavaString"),
        "fn get_name(&self, index: i32) -> jni::errors::Result<ejni::JavaString>"
    );
    assert_eq!(
        emit_signature("create", true, "", "()"),
        "fn create(env: &'a jni::JNIEnv<'a>) -> jni::errors::Result<()>"
    );
}

#[test]
fn signature_of_an_instance_method() {
    let m = method(
        "getDisplayName",
        false,
        result_of("java.lang.String", false),
        vec![param("index", "int", false), param("flags", "boolean[]", true)],
    );
    assert_eq!(gen_declared_parameters(&m), Ok(", index: i32, flags: std::vec::Vec<bool>".to_string()));
    assert_eq!(
        gen_method_signature(&m),
        Ok("fn get_display_name(&self, index: i32, flags: std::vec::Vec<bool>) -> jni::errors::Result<ejni::JavaString>".to_string())
    );
}

#[test]
fn signature_of_a_static_method() {
    let m = method("valueOf", true, result_of("org.bukkit.Material", false), vec![param("name", "java.lang.String", false)]);
    assert_eq!(
        gen_method_signature(&m),
        Ok("fn value_of(env: &'a jni::JNIEnv<'a>, name: ejni::JavaString) -> jni::errors::Result<org :: bukkit :: Material>".to_string())
    );
}

#[test]
fn signature_under_another_name() {
    let m = method("getName", false, result_of("void", false), vec![]);
    assert_eq!(
        gen_named_signature(&m, "getName_0"),
        Ok("fn get_name_0(&self) -> jni::errors::Result<()>".to_string())
    );
}

#[test]
fn signatures_that_cannot_be_written() {
    let m = method("get!name", false, result_of("void", false), vec![]);
    assert_eq!(gen_method_signature(&m), Err(GenError::InvalidIdentifier));
    let m = method("1st", false, result_of("void", false), vec![]);
    assert_eq!(gen_method_signature(&m), Err(GenError::InvalidIdentifier));
    let m = method("", false, result_of("void", false), vec![]);
    assert_eq!(gen_method_signature(&m), Err(GenError::InvalidIdentifier));
    let m = method("f", false, result_of("int[]", false), vec![]);
    assert_eq!(gen_method_signature(&m), Err(GenError::ArrayMismatch));
    let m = method("f", false, result_of("int[]", false), vec![result_of("int", false)]);
    assert_eq!(gen_method_signature(&m), Err(GenError::MissingParameterName));
    let m = method("f", false, result_of("a.)", false), vec![param("x", "int", false)]);
    assert_eq!(gen_method_signature(&m), Err(GenError::InvalidType));
}
