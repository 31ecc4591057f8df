use crate::ejni_types::{well_known, wrapper_path, EJNIType};
use crate::error::GenError;
use crate::ident::{check_identifier, is_identifier};
use crate::models::{Method, MethodView, Parameter, ParameterView};
use crate::outside::{lex_tokens, lexed_tokens, snake_case, to_snake_case};
use crate::results::{
    append_all, chars_result, lemma_append_all_error, lemma_append_all_step,
    lemma_append_all_whole,
};
use crate::text::{replace, replaced};
use crate::types::{
    checked_element, element_name, kind_code, marker_agrees, named_kind, ValueKind,
};
use vstd::prelude::*;
use vstd::string::*;

pub mod class;
pub mod interface;
pub mod mod_file;

verus! {

/// The way a method descriptor writes the type `ty`, an array of it where `array` is set: a
/// primitive by its letter, a class as `L`, its name with `/` for each `.`, and `;`, and an
/// array by `[` before its element.
pub open spec fn type_code(ty: Seq<char>, array: bool) -> Seq<char> {
    let element = if named_kind(ty) == ValueKind::Object {
        "L"@ + replaced(ty, "."@, "/"@) + ";"@
    } else {
        seq![kind_code(named_kind(ty))]
    };
    if array {
        "["@ + element
    } else {
        element
    }
}

/// Writes the type `ty` as a method descriptor does.
pub fn jni_type(ty: &str, array: bool) -> (r: String)
    ensures
        r@ == type_code(ty@, array),
{
    let mut out = String::new();
    if array {
        out.append("[");
    }
    let ghost head = out@;
    let kind = ValueKind::of_name(ty);
    match kind {
        ValueKind::Object => {
            let binary = replace(ty, ".", "/");
            out.append("L");
            out.append(binary.as_str());
            out.append(";");
            assert(out@ =~= head + ("L"@ + replaced(ty@, "."@, "/"@) + ";"@));
        },
        _ => {
            out.push(kind.code());
            assert(out@ =~= head + seq![kind_code(kind)]);
        },
    }
    assert(Seq::<char>::empty() + type_code(ty@, false) =~= type_code(ty@, false));
    out
}

/// The way a method descriptor writes the type of `p`, which has to agree with itself on
/// being an array.
pub open spec fn parameter_code(p: ParameterView) -> Result<Seq<char>, GenError> {
    if marker_agrees(p.class, p.is_array) {
        Ok(type_code(element_name(p.class), p.is_array))
    } else {
        Err(GenError::ArrayMismatch)
    }
}

/// The types of the parameters as a method descriptor writes them, one after the other.
pub open spec fn parameter_codes(params: Seq<ParameterView>) -> Result<Seq<char>, GenError> {
    append_all(params, |p: ParameterView| parameter_code(p))
}

/// The descriptor of the method: between brackets its parameters' types in the order of
/// declaration, and behind them the type it returns.
pub open spec fn descriptor(m: MethodView) -> Result<Seq<char>, GenError> {
    match parameter_code(m.return_type) {
        Err(e) => Err(e),
        Ok(ret) => match parameter_codes(m.parameters) {
            Err(e) => Err(e),
            Ok(params) => Ok("("@ + params + ")"@ + ret),
        },
    }
}

/// Writes the type of `p` as a method descriptor does.
pub fn parameter_jni_type(p: &Parameter) -> (r: Result<String, GenError>)
    ensures
        chars_result(r) == parameter_code(p@),
{
    match checked_element(p.class.as_str(), p.is_array) {
        None => Err(GenError::ArrayMismatch),
        Some(name) => Ok(jni_type(name.as_str(), p.is_array)),
    }
}

/// Writes the descriptor by which the virtual machine finds the method.
pub fn gen_jni_signature(method: &Method) -> (r: Result<String, GenError>)
    ensures
        chars_result(r) == descriptor(method@),
{
    let ret = match parameter_jni_type(&method.return_type) {
        Err(e) => { return Err(e); },
        Ok(ret) => ret,
    };
    let ghost each = |p: ParameterView| parameter_code(p);
    let ghost items = method@.parameters;
    let mut out = String::new();
    out.append("(");
    let ghost open = out@;
    let mut i: usize = 0;
    assert(items.take(0) =~= Seq::<ParameterView>::empty());
    assert(open + Seq::<char>::empty() =~= open);
    while i < method.parameters.len()
        invariant
            i <= method.parameters.len(),
            items == method@.parameters,
            each == |p: ParameterView| parameter_code(p),
            open == "("@,
            append_all(items.take(i as int), each) matches Ok(params) && out@ == open + params,
        decreases method.parameters.len() - i,
    {
        proof {
            lemma_append_all_step(items, each, i as int);
        }
        let ghost before = append_all(items.take(i as int), each).unwrap();
        match parameter_jni_type(&method.parameters[i]) {
            Err(e) => {
                proof {
                    lemma_append_all_error(items, each, i + 1);
                }
                return Err(e);
            },
            Ok(code) => {
                out.append(code.as_str());
                assert(out@ =~= open + (before + code@));
            },
        }
        i += 1;
    }
    proof {
        lemma_append_all_whole(items, each);
    }
    let ghost params = append_all(items, each).unwrap();
    out.append(")");
    out.append(ret.as_str());
    assert(out@ =~= "("@ + params + ")"@ + ret@);
    Ok(out)
}

/// The type that stands for a class of no reserved meaning, given what the lexer made of
/// its path: the tokens it read, and an error where it read none.
pub open spec fn reference_type(lexed: Option<Seq<char>>) -> Result<Seq<char>, GenError> {
    match lexed {
        Some(tokens) => Ok(tokens),
        None => Err(GenError::InvalidType),
    }
}

/// The type by which generated code holds a value of the Java type `class`, array markers
/// set aside: for a primitive the number type of its width, for a well-known class the
/// wrapper of the support crate, and for every other class the path that its name gives with
/// `::` for each `.`, as the lexer reads it.
pub open spec fn class_host_type(class: Seq<char>) -> Result<Seq<char>, GenError> {
    let name = element_name(class);
    match named_kind(name) {
        ValueKind::Void => Ok("()"@),
        ValueKind::Int => Ok("i32"@),
        ValueKind::Long => Ok("i64"@),
        ValueKind::Float => Ok("f32"@),
        ValueKind::Double => Ok("f64"@),
        ValueKind::Short => Ok("i16"@),
        ValueKind::Char => Ok("u16"@),
        ValueKind::Byte => Ok("u8"@),
        ValueKind::Boolean => Ok("bool"@),
        ValueKind::Object => match well_known(name) {
            Some(wrapper) => Ok(wrapper_path(wrapper)),
            None => reference_type(lexed_tokens(replaced(name, "."@, "::"@))),
        },
    }
}

/// The type of `p` in generated code: that of its class, in a vector where `p` is an array.
pub open spec fn host_type(p: ParameterView) -> Result<Seq<char>, GenError> {
    if !marker_agrees(p.class, p.is_array) {
        Err(GenError::ArrayMismatch)
    } else {
        match class_host_type(p.class) {
            Err(e) => Err(e),
            Ok(ty) => Ok(
                if p.is_array {
                    "std::vec::Vec<"@ + ty + ">"@
                } else {
                    ty
                },
            ),
        }
    }
}

/// What a signature says of `p`: its type alone where `p` is what the method returns, and
/// its name, a colon and its type where it is a declared parameter, which needs a name that
/// is an identifier.
pub open spec fn parameter_text(p: ParameterView, ret: bool) -> Result<Seq<char>, GenError> {
    match host_type(p) {
        Err(e) => Err(e),
        Ok(ty) => if ret {
            Ok(ty)
        } else {
            match p.name {
                None => Err(GenError::MissingParameterName),
                Some(name) => if is_identifier(name) {
                    Ok(name + ": "@ + ty)
                } else {
                    Err(GenError::InvalidIdentifier)
                },
            }
        },
    }
}

/// The parameter through which a static method is handed the environment of the call.
pub open spec fn env_param() -> Seq<char> {
    "env: &'a jni::JNIEnv<'a>"@
}

/// The type `inner` as the result of a call that may fail.
pub open spec fn wrapped_result(inner: Seq<char>) -> Seq<char> {
    "jni::errors::Result<"@ + inner + ">"@
}

/// A signature: the name, then the environment for a static method and the receiver for
/// any other, then `params`, which holds a comma before each declared parameter, and the
/// type `ret` as the result of a call that may fail.
pub open spec fn signature_text(
    ident: Seq<char>,
    is_static: bool,
    params: Seq<char>,
    ret: Seq<char>,
) -> Seq<char> {
    "fn "@ + ident + "("@ + (if is_static {
        env_param()
    } else {
        "&self"@
    }) + params + ") -> "@ + wrapped_result(ret)
}

/// A declared parameter as it stands in a signature, behind the receiver: after a comma.
pub open spec fn declared_parameter(p: ParameterView) -> Result<Seq<char>, GenError> {
    match parameter_text(p, false) {
        Err(e) => Err(e),
        Ok(text) => Ok(", "@ + text),
    }
}

/// The declared parameters as they stand in a signature, in the order of declaration.
pub open spec fn declared_parameters(params: Seq<ParameterView>) -> Result<Seq<char>, GenError> {
    append_all(params, |p: ParameterView| declared_parameter(p))
}

/// The signature of the method under the name `host_name`, which is put into snake case
/// and has to be an identifier then.
pub open spec fn named_signature(m: MethodView, host_name: Seq<char>) -> Result<
    Seq<char>,
    GenError,
> {
    match declared_parameters(m.parameters) {
        Err(e) => Err(e),
        Ok(params) => match parameter_text(m.return_type, true) {
            Err(e) => Err(e),
            Ok(ret) => if is_identifier(snake_case(host_name)) {
                Ok(signature_text(snake_case(host_name), m.is_static, params, ret))
            } else {
                Err(GenError::InvalidIdentifier)
            },
        },
    }
}

/// Writes the parameter through which a static method is handed the environment.
pub fn gen_env_param() -> (r: String)
    ensures
        r@ == env_param(),
{
    "env: &'a jni::JNIEnv<'a>".to_owned()
}

/// Writes the type `i` as the result of a call that may fail.
pub fn wrap_result(i: &str) -> (r: String)
    ensures
        r@ == wrapped_result(i@),
{
    let mut out = "jni::errors::Result<".to_owned();
    out.append(i);
    out.append(">");
    out
}

/// Gives the type that stands for a class of no reserved meaning, from what the lexer made
/// of its path.
pub fn reference_type_of(lexed: Option<String>) -> (r: Result<String, GenError>)
    ensures
        chars_result(r) == reference_type(crate::models::opt_chars(lexed)),
{
    match lexed {
        Some(tokens) => Ok(tokens),
        None => Err(GenError::InvalidType),
    }
}

/// Writes the type by which generated code holds a value of the Java type `class`.
pub fn class_name_to_tokens(class: &str) -> (r: Result<String, GenError>)
    ensures
        chars_result(r) == class_host_type(class@),
{
    let name = crate::types::strip_markers(class);
    match ValueKind::of_name(name.as_str()) {
        ValueKind::Void => Ok("()".to_owned()),
        ValueKind::Int => Ok("i32".to_owned()),
        ValueKind::Long => Ok("i64".to_owned()),
        ValueKind::Float => Ok("f32".to_owned()),
        ValueKind::Double => Ok("f64".to_owned()),
        ValueKind::Short => Ok("i16".to_owned()),
        ValueKind::Char => Ok("u16".to_owned()),
        ValueKind::Byte => Ok("u8".to_owned()),
        ValueKind::Boolean => Ok("bool".to_owned()),
        ValueKind::Object => match EJNIType::from_str(name.as_str()) {
            Some(wrapper) => Ok(wrapper.to_tokens()),
            None => {
                let rustified = replace(name.as_str(), ".", "::");
                reference_type_of(lex_tokens(rustified.as_str()))
            },
        },
    }
}

/// Writes the type of `parameter` in generated code.
pub fn parameter_host_type(parameter: &Parameter) -> (r: Result<String, GenError>)
    ensures
        chars_result(r) == host_type(parameter@),
{
    match checked_element(parameter.class.as_str(), parameter.is_array) {
        None => Err(GenError::ArrayMismatch),
        Some(_) => match class_name_to_tokens(parameter.class.as_str()) {
            Err(e) => Err(e),
            Ok(ty) => if parameter.is_array {
                let mut out = "std::vec::Vec<".to_owned();
                out.append(ty.as_str());
                out.append(">");
                Ok(out)
            } else {
                Ok(ty)
            },
        },
    }
}

/// Writes what a signature says of `parameter`; `ret` tells that it is what the method
/// returns.
pub fn param_to_tokens(parameter: &Parameter, ret: bool) -> (r: Result<String, GenError>)
    ensures
        chars_result(r) == parameter_text(parameter@, ret),
{
    let ty = match parameter_host_type(parameter) {
        Err(e) => { return Err(e); },
        Ok(ty) => ty,
    };
    if ret {
        return Ok(ty);
    }
    match &parameter.name {
        None => Err(GenError::MissingParameterName),
        Some(name) => if check_identifier(name.as_str()) {
            let mut out = name.clone();
            out.append(": ");
            out.append(ty.as_str());
            Ok(out)
        } else {
            Err(GenError::InvalidIdentifier)
        },
    }
}

/// Writes a signature from its parts.
pub fn emit_signature(ident: &str, is_static: bool, params: &str, ret: &str) -> (r: String)
    ensures
        r@ == signature_text(ident@, is_static, params@, ret@),
{
    let mut out = "fn ".to_owned();
    out.append(ident);
    out.append("(");
    if is_static {
        out.append(gen_env_param().as_str());
    } else {
        out.append("&self");
    }
    out.append(params);
    out.append(") -> ");
    out.append(wrap_result(ret).as_str());
    out
}

/// Writes the parameters that the method declares, each behind a comma.
pub fn gen_declared_parameters(method: &Method) -> (r: Result<String, GenError>)
    ensures
        chars_result(r) == declared_parameters(method@.parameters),
{
    let ghost each = |p: ParameterView| declared_parameter(p);
    let ghost items = method@.parameters;
    let mut out = String::new();
    let mut i: usize = 0;
    assert(items.take(0) =~= Seq::<ParameterView>::empty());
    while i < method.parameters.len()
        invariant
            i <= method.parameters.len(),
            items == method@.parameters,
            each == |p: ParameterView| declared_parameter(p),
            append_all(items.take(i as int), each) == Ok::<Seq<char>, GenError>(out@),
        decreases method.parameters.len() - i,
    {
        proof {
            lemma_append_all_step(items, each, i as int);
        }
        let ghost before = out@;
        match param_to_tokens(&method.parameters[i], false) {
            Err(e) => {
                proof {
                    lemma_append_all_error(items, each, i + 1);
                }
                return Err(e);
            },
            Ok(text) => {
                out.append(", ");
                out.append(text.as_str());
                assert(out@ =~= before + (", "@ + text@));
            },
        }
        i += 1;
    }
    proof {
        lemma_append_all_whole(items, each);
    }
    Ok(out)
}

/// Writes the signature of the method under the name `host_name`.
pub fn gen_named_signature(method: &Method, host_name: &str) -> (r: Result<String, GenError>)
    ensures
        chars_result(r) == named_signature(method@, host_name@),
{
    let params = match gen_declared_parameters(method) {
        Err(e) => { return Err(e); },
        Ok(params) => params,
    };
    let ret = match param_to_tokens(&method.return_type, true) {
        Err(e) => { return Err(e); },
        Ok(ret) => ret,
    };
    let ident = to_snake_case(host_name);
    if check_identifier(ident.as_str()) {
        Ok(emit_signature(ident.as_str(), method.is_static, params.as_str(), ret.as_str()))
    } else {
        Err(GenError::InvalidIdentifier)
    }
}

/// Writes the signature of the method under its own name.
pub fn gen_method_signature(method: &Method) -> (r: Result<String, GenError>)
    ensures
        chars_result(r) == named_signature(method@, method@.name),
{
    gen_named_signature(method, method.name.as_str())
}

/// Each primitive type, and `void`, is written in a descriptor by its one letter.
pub proof fn lemma_primitive_codes()
    ensures
        type_code("boolean"@, false) == seq!['Z'],
        type_code("byte"@, false) == seq!['B'],
        type_code("char"@, false) == seq!['C'],
        type_code("short"@, false) == seq!['S'],
        type_code("int"@, false) == seq!['I'],
        type_code("long"@, false) == seq!['J'],
        type_code("float"@, false) == seq!['F'],
        type_code("double"@, false) == seq!['D'],
        type_code("void"@, false) == seq!['V'],
{
    reveal_strlit("boolean");
    reveal_strlit("byte");
    reveal_strlit("char");
    reveal_strlit("short");
    reveal_strlit("int");
    reveal_strlit("long");
    reveal_strlit("float");
    reveal_strlit("double");
    reveal_strlit("void");
    assert("boolean"@.len() == 7);
    assert("byte"@.len() == 4);
    assert("char"@.len() == 4);
    assert("short"@.len() == 5);
    assert("int"@.len() == 3);
    assert("long"@.len() == 4);
    assert("float"@.len() == 5);
    assert("double"@.len() == 6);
    assert("void"@.len() == 4);
    assert("byte"@[0] != "char"@[0]);
    assert("byte"@[0] != "long"@[0]);
    assert("byte"@[0] != "void"@[0]);
    assert("char"@[0] != "long"@[0]);
    assert("char"@[0] != "void"@[0]);
    assert("long"@[0] != "void"@[0]);
    assert("short"@[0] != "float"@[0]);
}

/// A name of more than seven characters is no keyword: it names a class.
pub proof fn lemma_long_name_is_reference(name: Seq<char>)
    requires
        name.len() > 7,
    ensures
        named_kind(name) == ValueKind::Object,
{
    reveal_strlit("boolean");
    reveal_strlit("byte");
    reveal_strlit("char");
    reveal_strlit("short");
    reveal_strlit("int");
    reveal_strlit("long");
    reveal_strlit("float");
    reveal_strlit("double");
    reveal_strlit("void");
}

/// An array is written in a descriptor by `[` before its element, whatever the element is;
/// so an array of a class is `[L`, the name with `/` for `.`, and `;`.
pub proof fn lemma_array_code(ty: Seq<char>)
    ensures
        type_code(ty, true) == seq!['['] + type_code(ty, false),
        named_kind(ty) == ValueKind::Object ==> type_code(ty, true) == seq!['[', 'L'] + replaced(
            ty,
            seq!['.'],
            seq!['/'],
        ) + seq![';'],
{
    reveal_strlit("[");
    reveal_strlit("L");
    reveal_strlit(";");
    reveal_strlit(".");
    reveal_strlit("/");
    assert("["@ =~= seq!['[']);
    assert("."@ =~= seq!['.']);
    assert("/"@ =~= seq!['/']);
    if named_kind(ty) == ValueKind::Object {
        assert("["@ + ("L"@ + replaced(ty, "."@, "/"@) + ";"@) =~= seq!['[', 'L'] + replaced(
            ty,
            seq!['.'],
            seq!['/'],
        ) + seq![';']);
    }
}

/// A well-known class is held by the wrapper of the support crate, whether the name comes
/// with or without array markers.
pub proof fn lemma_well_known_type(class: Seq<char>, wrapper: EJNIType)
    requires
        well_known(element_name(class)) == Some(wrapper),
    ensures
        class_host_type(class) == Ok::<Seq<char>, GenError>(wrapper_path(wrapper)),
{
    reveal_strlit("java.util.Iterator");
    reveal_strlit("java.util.List");
    reveal_strlit("java.util.ArrayList");
    reveal_strlit("java.util.Map");
    reveal_strlit("java.util.HashMap");
    reveal_strlit("java.util.Set");
    reveal_strlit("java.util.HashSet");
    reveal_strlit("java.lang.String");
    lemma_long_name_is_reference(element_name(class));
}

/// The array flag only adds a layer: the type of an array is the vector of the type that
/// the class has without the flag, and the flag changes nothing else.
pub proof fn lemma_array_is_a_layer(p: ParameterView)
    requires
        p.is_array,
    ensures
        host_type(p) == (match class_host_type(p.class) {
            Ok(ty) => Ok::<Seq<char>, GenError>("std::vec::Vec<"@ + ty + ">"@),
            Err(e) => Err(e),
        }),
        marker_agrees(p.class, false) ==> host_type(
            ParameterView { name: p.name, class: p.class, is_array: false },
        ) == class_host_type(p.class),
{
}

/// A descriptor is had where, and only where, the return type and every parameter agree
/// with themselves on being an array; where it is not, the array mismatch is the error.
pub proof fn lemma_descriptor_ok(m: MethodView)
    ensures
        descriptor(m) is Ok <==> marker_agrees(m.return_type.class, m.return_type.is_array)
            && forall|i: int|
            0 <= i < m.parameters.len() ==> marker_agrees(
                (#[trigger] m.parameters[i]).class,
                m.parameters[i].is_array,
            ),
        descriptor(m) is Err ==> descriptor(m) == Err::<Seq<char>, GenError>(
            GenError::ArrayMismatch,
        ),
{
    let each = |p: ParameterView| parameter_code(p);
    crate::results::lemma_append_all_ok(m.parameters, each);
    if forall|i: int|
        0 <= i < m.parameters.len() ==> marker_agrees(
            (#[trigger] m.parameters[i]).class,
            m.parameters[i].is_array,
        ) {
        assert forall|i: int| 0 <= i < m.parameters.len() implies (#[trigger] each(
            m.parameters[i],
        )) is Ok by {}
    }
    if append_all(m.parameters, each) is Ok {
        assert forall|i: int| 0 <= i < m.parameters.len() implies marker_agrees(
            (#[trigger] m.parameters[i]).class,
            m.parameters[i].is_array,
        ) by {
            assert(each(m.parameters[i]) is Ok);
        }
    }
}

} // verus!
