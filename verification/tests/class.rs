use jni_codegen::codegen::class::{
    class_def, emit_boxed_value, emit_call, emit_class, emit_method, emit_return,
    emit_trait_impl, gen_block_methods, gen_interface_keys, gen_jni_call_jvalue,
    gen_jni_call_jvalues, gen_jni_call_non_static, gen_jni_ret_handling, gen_method, gen_struct,
    gen_trait_impl, method_key, same_option,
};
use jni_codegen::codegen::interface::{emit_interface, gen_interface};
use jni_codegen::error::GenError;
use jni_codegen::models::{Class, Method, Parameter};
use jni_codegen::types::ValueKind;

fn param(name: &str, class: &str, is_array: bool) -> Parameter {
    Parameter { name: Some(name.to_string()), class: class.to_string(), is_array }
}

fn result_of(class: &str, is_array: bool) -> Parameter {
    Parameter { name: None, class: class.to_string(), is_array }
}

fn method(name: &str, ret: Parameter, parameters: Vec<Parameter>) -> Method {
    Method { name: name.to_string(), return_type: ret, is_static: false, from_interface: None, parameters }
}

fn from(interface: &str, mut m: Method) -> Method {
    m.from_interface = Some(interface.to_string());
    m
}

fn fixed(mut m: Method) -> Method {
    m.is_static = true;
    m
}

fn class(name: &str, methods: Vec<Method>) -> Class {
    Class { name: name.to_string(), methods, implementing: vec![] }
}

fn tokens(text: &str) -> String {
    match text.parse::<proc_macro2::TokenStream>() {
        Ok(stream) => stream.to_string(),
        Err(_) => panic!("the text is no token sequence: {}", text),
    }
}

fn count(text: &str, piece: &str) -> usize {
    text.matches(piece).count()
}

#[test]
fn wrapper_type_of_a_class() {
    let text = gen_struct("World");
    let expected = "pub struct World<'a> { class: ejni::Class<'a>, pub inner: ejni::Object<'a>, env: &'a jni::JNIEnv<'a> } \
        #[allow(clippy::from_over_into)] \
        impl<'a> Into<*mut jni::sys::_jobject> for World<'a> { fn into(self) -> *mut jni::sys::_jobject { self.inner.inner.into_inner() } } \
        impl<'a> From<ejni::Object<'a>> for World<'a> { fn from(obj: ejni::Object<'a>) -> Self { Self { inner: obj.clone(), class: obj.class, env: obj.env } } } \
        impl<'a> Drop for World<'a> { fn drop(&mut self) { let _ = self.env.delete_local_ref(self.inner.inner); } }";
    assert_eq!(tokens(&text), tokens(expected));
    assert_eq!(count(&text, "delete_local_ref"), 1);
    assert!(text.starts_with("pub struct World<'a> {\n"));
}

#[test]
fn arguments_are_boxed_by_kind() {
    assert_eq!(emit_boxed_value(ValueKind::Boolean, "b"), "jni::objects::JValue::Boolean(b)");
    assert_eq!(emit_boxed_value(ValueKind::Byte, "b"), "jni::objects::JValue::Byte(b)");
    assert_eq!(emit_boxed_value(ValueKind::Char, "c"), "jni::objects::JValue::Char(c)");
    assert_eq!(emit_boxed_value(ValueKind::Short, "s"), "jni::objects::JValue::Short(s)");
    assert_eq!(emit_boxed_value(ValueKind::Int, "i"), "jni::objects::JValue::Int(i)");
    assert_eq!(emit_boxed_value(ValueKind::Long, "l"), "jni::objects::JValue::Long(l)");
    assert_eq!(emit_boxed_value(ValueKind::Float, "f"), "jni::objects::JValue::Float(f)");
    assert_eq!(emit_boxed_value(ValueKind::Double, "d"), "jni::objects::JValue::Double(d)");
    assert_eq!(emit_boxed_value(ValueKind::Object, "o"), "jni::JValue::Object(o)");
    assert_eq!(emit_boxed_value(ValueKind::Void, "v"), "jni::JValue::Object(v)");
}

#[test]
fn arguments_of_a_call() {
    let m = method(
        "set",
        result_of("void", false),
        vec![param("index", "int", false), param("name", "java.lang.String", false), param("bits", "boolean[]", true)],
    );
    assert_eq!(
        gen_jni_call_jvalues(&m),
        Ok("jni::objects::JValue::Int(index), jni::JValue::Object(name), jni::JValue::Object(bits)".to_string())
    );
    assert_eq!(gen_jni_call_jvalues(&method("f", result_of("void", false), vec![])), Ok(String::new()));
    assert_eq!(gen_jni_call_jvalue(&param("x", "long", false)), Ok("jni::objects::JValue::Long(x)".to_string()));
    assert_eq!(gen_jni_call_jvalue(&param("x", "long", true)), Ok("jni::JValue::Object(x)".to_string()));
}

#[test]
fn arguments_that_cannot_be_written() {
    assert_eq!(gen_jni_call_jvalue(&result_of("int", false)), Err(GenError::MissingParameterName));
    assert_eq!(gen_jni_call_jvalue(&param("a b", "int", false)), Err(GenError::InvalidIdentifier));
    assert_eq!(gen_jni_call_jvalue(&param("a", "int[]", false)), Err(GenError::ArrayMismatch));
    let m = method("f", result_of("void", false), vec![param("ok", "int", false), param("a-b", "int", false)]);
    assert_eq!(gen_jni_call_jvalues(&m), Err(GenError::InvalidIdentifier));
}

#[test]
fn result_of_a_primitive_call() {
    assert_eq!(emit_return(ValueKind::Boolean, false, "\"boolean\""), "result.z()");
    assert_eq!(emit_return(ValueKind::Byte, false, ""), "result.b()");
    assert_eq!(emit_return(ValueKind::Char, false, ""), "result.c()");
    assert_eq!(emit_return(ValueKind::Short, false, ""), "result.s()");
    assert_eq!(emit_return(ValueKind::Int, false, ""), "result.i()");
    assert_eq!(emit_return(ValueKind::Long, false, ""), "result.j()");
    assert_eq!(emit_return(ValueKind::Float, false, ""), "result.f()");
    assert_eq!(emit_return(ValueKind::Double, false, ""), "result.d()");
    assert_eq!(emit_return(ValueKind::Void, false, ""), "Ok(())");
    assert_eq!(gen_jni_ret_handling(&method("f", result_of("int", false), vec![])), Ok("result.i()".to_string()));
    assert_eq!(gen_jni_ret_handling(&method("f", result_of("void", false), vec![])), Ok("Ok(())".to_string()));
}

#[test]
fn result_of_a_reference_call() {
    let expected = "let class = ejni::Class::for_name(self.env, \"org.bukkit.World\")?;\n\
        let object_raw = result.l()?;\n\
        let object = ejni::Object::new(object_raw, class);\n\
        Ok(object.into())";
    assert_eq!(gen_jni_ret_handling(&method("f", result_of("org.bukkit.World", false), vec![])), Ok(expected.to_string()));
    let through_env = gen_jni_ret_handling(&fixed(method("f", result_of("org.bukkit.World", false), vec![])));
    assert_eq!(through_env, Ok(expected.replace("self.env", "env")));
    let array = gen_jni_ret_handling(&method("f", result_of("int[]", true), vec![]));
    assert_eq!(array, Ok(expected.replace("org.bukkit.World", "int")));
    assert_eq!(gen_jni_ret_handling(&method("f", result_of("int[]", false), vec![])), Err(GenError::ArrayMismatch));
}

#[test]
fn call_of_an_instance_method() {
    let m = method("getName", result_of("int", false), vec![param("index", "int", false)]);
    assert_eq!(
        gen_jni_call_non_static(&m),
        Ok("let result = self.env.call_method(self.inner, \"getName\", \"(I)I\", &[jni::objects::JValue::Int(index)])?;\nresult.i()".to_string())
    );
    assert_eq!(
        emit_call("\"a\"", "\"()V\"", "", "Ok(())"),
        "let result = self.env.call_method(self.inner, \"a\", \"()V\", &[])?;\nOk(())"
    );
}

#[test]
fn names_are_written_as_literals() {
    let m = method("say\"hi\"", result_of("void", false), vec![]);
    let text = gen_jni_call_non_static(&m).unwrap();
    assert!(text.contains("\"say\\\"hi\\\"\""));
    assert_eq!(tokens(&text), tokens("let result = self.env.call_method(self.inner, \"say\\\"hi\\\"\", \"()V\", &[])?; Ok(())"));
}

#[test]
fn static_methods_fail_when_run() {
    let m = fixed(method("valueOf", result_of("int", false), vec![param("s", "java.lang.String", false)]));
    assert_eq!(
        gen_method(&m, "valueOf"),
        Ok("fn value_of(env: &'a jni::JNIEnv<'a>, s: ejni::JavaString) -> jni::errors::Result<i32> {\nunimplemented!()\n}\n".to_string())
    );
}

#[test]
fn instance_method_with_its_body() {
    let m = method("isEmpty", result_of("boolean", false), vec![]);
    assert_eq!(
        gen_method(&m, "isEmpty"),
        Ok("fn is_empty(&self) -> jni::errors::Result<bool> {\nlet result = self.env.call_method(self.inner, \"isEmpty\", \"()Z\", &[])?;\nresult.z()\n}\n".to_string())
    );
    assert_eq!(emit_method("fn f()", "g()"), "fn f() {\ng()\n}\n");
}

#[test]
fn renamed_method_calls_the_declared_name() {
    let m = method("foo", result_of("void", false), vec![param("x", "int", false)]);
    let text = gen_method(&m, "foo_1").unwrap();
    assert!(text.starts_with("fn foo_1(&self, x: i32)"));
    assert!(text.contains("call_method(self.inner, \"foo\", \"(I)V\""));
}

#[test]
fn overloads_in_a_class() {
    let c = class(
        "a.b.Thing",
        vec![
            method("foo", result_of("void", false), vec![]),
            method("foo", result_of("void", false), vec![param("x", "int", false)]),
            method("foo", result_of("void", false), vec![param("x", "long", false)]),
        ],
    );
    let text = class_def(&c).unwrap();
    assert_eq!(count(&text, "fn foo(&self)"), 1);
    assert_eq!(count(&text, "fn foo_0(&self, x: i32)"), 1);
    assert_eq!(count(&text, "fn foo_1(&self, x: i64)"), 1);
    assert_eq!(count(&text, "call_method(self.inner, \"foo\", "), 3);
    assert_eq!(count(&text, "\"()V\""), 1);
    assert_eq!(count(&text, "\"(I)V\""), 1);
    assert_eq!(count(&text, "\"(J)V\""), 1);
}

#[test]
fn synthetic_methods_are_left_out() {
    let c = class(
        "a.Thing",
        vec![
            method("lambda$run$0", result_of("void", false), vec![]),
            method("run", result_of("void", false), vec![]),
            from("a.Job", method("access$100", result_of("void", false), vec![])),
        ],
    );
    let text = class_def(&c).unwrap();
    assert!(!text.contains('$'));
    assert_eq!(count(&text, "fn run(&self)"), 1);
    assert_eq!(count(&text, "call_method"), 1);
    assert_eq!(count(&text, "impl<'a> a :: Job"), 0);
    let i = gen_interface(&c).unwrap();
    assert!(!i.contains('$'));
    assert_eq!(i, "pub trait Thing<'a> {\nfn run(&self) -> jni::errors::Result<()>;\n}\n");
}

#[test]
fn two_interfaces_two_blocks() {
    let methods = vec![
        from("a.Named", method("getName", result_of("java.lang.String", false), vec![])),
        method("own", result_of("void", false), vec![]),
        from("a.Sized", method("size", result_of("int", false), vec![])),
        from("a.Named", method("setName", result_of("void", false), vec![param("n", "java.lang.String", false)])),
    ];
    assert_eq!(gen_interface_keys(&methods), vec!["a::Named", "a::Sized"]);
    let hosts: Vec<String> = methods.iter().map(|m| m.name.clone()).collect();
    let named = gen_trait_impl("a::Named", &methods, &hosts, "Thing").unwrap();
    assert!(named.starts_with("\nimpl<'a> a :: Named<'a> for Thing<'a> {\n"));
    assert_eq!(count(&named, "fn get_name(&self)"), 1);
    assert_eq!(count(&named, "fn set_name(&self, n: ejni::JavaString)"), 1);
    assert_eq!(count(&named, "fn "), 2);
    let sized = gen_trait_impl("a::Sized", &methods, &hosts, "Thing").unwrap();
    assert_eq!(count(&sized, "fn size(&self)"), 1);
    assert_eq!(count(&sized, "fn "), 1);
    let own = gen_block_methods(&methods, &hosts, &None).unwrap();
    assert_eq!(count(&own, "fn own(&self)"), 1);
    assert_eq!(count(&own, "fn "), 1);

    let text = class_def(&class("a.Thing", methods)).unwrap();
    assert_eq!(count(&text, "impl<'a> a :: Named<'a> for Thing<'a>"), 1);
    assert_eq!(count(&text, "impl<'a> a :: Sized<'a> for Thing<'a>"), 1);
    assert_eq!(count(&text, "\nimpl<'a> Thing<'a> {\n"), 1);
    assert!(text.find("a :: Named").unwrap() < text.find("a :: Sized").unwrap());
    assert!(text.ends_with(&format!("{}{}", named, sized)));
}

#[test]
fn whole_class() {
    let c = class(
        "org.example.Counter",
        vec![
            method("get", result_of("int", false), vec![]),
            fixed(method("create", result_of("org.example.Counter", false), vec![])),
            from("java.lang.Runnable", method("run", result_of("void", false), vec![])),
        ],
    );
    let text = class_def(&c).unwrap();
    let expected = format!(
        "{}\nimpl<'a> Counter<'a> {{\n{}{}}}\n\nimpl<'a> java :: lang :: Runnable<'a> for Counter<'a> {{\n{}}}\n",
        gen_struct("Counter"),
        "fn get(&self) -> jni::errors::Result<i32> {\nlet result = self.env.call_method(self.inner, \"get\", \"()I\", &[])?;\nresult.i()\n}\n",
        "fn create(env: &'a jni::JNIEnv<'a>) -> jni::errors::Result<org :: example :: Counter> {\nunimplemented!()\n}\n",
        "fn run(&self) -> jni::errors::Result<()> {\nlet result = self.env.call_method(self.inner, \"run\", \"()V\", &[])?;\nOk(())\n}\n",
    );
    assert_eq!(text, expected);
    assert_eq!(tokens(&text).is_empty(), false);
    assert_eq!(emit_class("X", "", ""), format!("{}\nimpl<'a> X<'a> {{\n}}\n", gen_struct("X")));
    assert_eq!(emit_trait_impl("a :: B", "X", "m"), "\nimpl<'a> a :: B<'a> for X<'a> {\nm}\n");
}

#[test]
fn classes_that_cannot_be_written() {
    assert_eq!(class_def(&class("", vec![])), Err(GenError::InvalidIdentifier));
    assert_eq!(class_def(&class("a.b.", vec![])), Err(GenError::InvalidIdentifier));
    assert_eq!(class_def(&class("java.util.Map$Entry", vec![])), Err(GenError::InvalidIdentifier));
    let bad_interface = class("a.X", vec![from("a.1b", method("f", result_of("void", false), vec![]))]);
    assert_eq!(class_def(&bad_interface), Err(GenError::InvalidPath));
    let empty_interface = class("a.X", vec![from("", method("f", result_of("void", false), vec![]))]);
    assert_eq!(class_def(&empty_interface), Err(GenError::InvalidPath));
    let bad_array = class("a.X", vec![method("f", result_of("int[]", false), vec![])]);
    assert_eq!(class_def(&bad_array), Err(GenError::ArrayMismatch));
    let first_error = class(
        "a.X",
        vec![
            method("f", result_of("void", false), vec![result_of("int", false)]),
            method("g", result_of("int[]", false), vec![]),
        ],
    );
    assert_eq!(class_def(&first_error), Err(GenError::MissingParameterName));
}

#[test]
fn interface_as_a_trait() {
    let c = class(
        "org.example.Shape",
        vec![
            method("area", result_of("double", false), vec![]),
            method("scale", result_of("void", false), vec![param("by", "double", false)]),
            method("scale", result_of("void", false), vec![param("x", "double", false), param("y", "double", false)]),
        ],
    );
    assert_eq!(
        gen_interface(&c),
        Ok("pub trait Shape<'a> {\n\
            fn area(&self) -> jni::errors::Result<f64>;\n\
            fn scale(&self, by: f64) -> jni::errors::Result<()>;\n\
            fn scale_0(&self, x: f64, y: f64) -> jni::errors::Result<()>;\n\
            }\n".to_string())
    );
    assert_eq!(emit_interface("T", ""), "pub trait T<'a> {\n}\n");
    assert_eq!(gen_interface(&class("a.b-c", vec![])), Err(GenError::InvalidIdentifier));
    let bad = class("a.T", vec![method("f", result_of("void", false), vec![param("x", "a.(", false)])]);
    assert_eq!(gen_interface(&bad), Err(GenError::InvalidType));
}

#[test]
fn owner_of_a_method() {
    let m = from("java.lang.Runnable", method("run", result_of("void", false), vec![]));
    assert_eq!(method_key(&m), Some("java::lang::Runnable".to_string()));
    assert_eq!(method_key(&method("run", result_of("void", false), vec![])), None);
    assert!(same_option(&None, &None));
    assert!(same_option(&Some("a".to_string()), &Some("a".to_string())));
    assert!(!same_option(&Some("a".to_string()), &None));
    assert!(!same_option(&Some("a".to_string()), &Some("b".to_string())));
}
