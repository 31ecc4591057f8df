use crate::codegen::{
    descriptor, gen_jni_signature, gen_named_signature, named_signature,
};
use crate::error::GenError;
use crate::ident::{check_identifier, is_identifier};
use crate::models::{
    method_views, opt_chars, Class, ClassView, Method, MethodView, Parameter, ParameterView,
};
use crate::outside::{parse_path, parsed_path, quote_string, string_literal};
use crate::overload::{is_taken, method_names, resolve_names, resolved_names};
use crate::results::{
    append_all, chars_result, join_all, lemma_append_all_error, lemma_append_all_step,
    lemma_append_all_whole, lemma_append_chosen_error, lemma_append_chosen_step,
    lemma_join_all_error, lemma_join_all_step,
};
use crate::text::{contains_char, replace, replaced, same, split, split_on};
use crate::types::{
    checked_element, element_name, kind_accessor, marker_agrees, strip_markers, value_kind,
    ValueKind,
};
use vstd::prelude::*;
use vstd::string::*;

verus! {

/// The wrapper type of a class called `ident`: a struct that holds the class, the object
/// and the borrowed environment, its conversion into a raw object, its conversion from an
/// object of the support crate, and the release of the local reference when it is dropped.
pub open spec fn struct_text(ident: Seq<char>) -> Seq<char> {
    "pub struct "@ + ident
        + "<'a> {\n    class: ejni::Class<'a>,\n    pub inner: ejni::Object<'a>,\n    env: &'a jni::JNIEnv<'a>\n}\n\n#[allow(clippy::from_over_into)]\nimpl<'a> Into<*mut jni::sys::_jobject> for "@
        + ident
        + "<'a> {\n    fn into(self) -> *mut jni::sys::_jobject {\n        self.inner.inner.into_inner()\n    }\n}\n\nimpl<'a> From<ejni::Object<'a>> for "@
        + ident
        + "<'a> {\n    fn from(obj: ejni::Object<'a>) -> Self {\n        Self {\n            inner: obj.clone(),\n            class: obj.class,\n            env: obj.env\n        }\n    }\n}\n\nimpl<'a> Drop for "@
        + ident
        + "<'a> {\n    fn drop(&mut self) {\n        let _ = self.env.delete_local_ref(self.inner.inner);\n    }\n}\n"@
}

/// Writes the wrapper type of a class called `ident`.
pub fn gen_struct(ident: &str) -> (r: String)
    ensures
        r@ == struct_text(ident@),
{
    let mut out = "pub struct ".to_owned();
    out.append(ident);
    out.append(
        "<'a> {\n    class: ejni::Class<'a>,\n    pub inner: ejni::Object<'a>,\n    env: &'a jni::JNIEnv<'a>\n}\n\n#[allow(clippy::from_over_into)]\nimpl<'a> Into<*mut jni::sys::_jobject> for ",
    );
    out.append(ident);
    out.append(
        "<'a> {\n    fn into(self) -> *mut jni::sys::_jobject {\n        self.inner.inner.into_inner()\n    }\n}\n\nimpl<'a> From<ejni::Object<'a>> for ",
    );
    out.append(ident);
    out.append(
        "<'a> {\n    fn from(obj: ejni::Object<'a>) -> Self {\n        Self {\n            inner: obj.clone(),\n            class: obj.class,\n            env: obj.env\n        }\n    }\n}\n\nimpl<'a> Drop for ",
    );
    out.append(ident);
    out.append(
        "<'a> {\n    fn drop(&mut self) {\n        let _ = self.env.delete_local_ref(self.inner.inner);\n    }\n}\n",
    );
    out
}

/// The argument `ident` boxed for the call: a primitive in the variant of its kind, and
/// everything else as an object.
pub open spec fn boxed_value(kind: ValueKind, ident: Seq<char>) -> Seq<char> {
    (match kind {
        ValueKind::Boolean => "jni::objects::JValue::Boolean("@,
        ValueKind::Byte => "jni::objects::JValue::Byte("@,
        ValueKind::Char => "jni::objects::JValue::Char("@,
        ValueKind::Short => "jni::objects::JValue::Short("@,
        ValueKind::Int => "jni::objects::JValue::Int("@,
        ValueKind::Long => "jni::objects::JValue::Long("@,
        ValueKind::Float => "jni::objects::JValue::Float("@,
        ValueKind::Double => "jni::objects::JValue::Double("@,
        ValueKind::Void => "jni::JValue::Object("@,
        ValueKind::Object => "jni::JValue::Object("@,
    }) + ident + ")"@
}

/// The declared parameter `p` as an argument of the call: boxed by its kind, under its
/// name, which has to be there and to be an identifier.
pub open spec fn argument_text(p: ParameterView) -> Result<Seq<char>, GenError> {
    match p.name {
        None => Err(GenError::MissingParameterName),
        Some(name) => if !is_identifier(name) {
            Err(GenError::InvalidIdentifier)
        } else if !marker_agrees(p.class, p.is_array) {
            Err(GenError::ArrayMismatch)
        } else {
            Ok(boxed_value(value_kind(element_name(p.class), p.is_array), name))
        },
    }
}

/// The arguments of the call, in the order of declaration, with commas between them.
pub open spec fn arguments_text(m: MethodView) -> Result<Seq<char>, GenError> {
    join_all(m.parameters, ", "@, |p: ParameterView| argument_text(p))
}

/// Boxes the argument `ident` for the call.
pub fn emit_boxed_value(kind: ValueKind, ident: &str) -> (r: String)
    ensures
        r@ == boxed_value(kind, ident@),
{
    let mut out = match kind {
        ValueKind::Boolean => "jni::objects::JValue::Boolean(".to_owned(),
        ValueKind::Byte => "jni::objects::JValue::Byte(".to_owned(),
        ValueKind::Char => "jni::objects::JValue::Char(".to_owned(),
        ValueKind::Short => "jni::objects::JValue::Short(".to_owned(),
        ValueKind::Int => "jni::objects::JValue::Int(".to_owned(),
        ValueKind::Long => "jni::objects::JValue::Long(".to_owned(),
        ValueKind::Float => "jni::objects::JValue::Float(".to_owned(),
        ValueKind::Double => "jni::objects::JValue::Double(".to_owned(),
        ValueKind::Void => "jni::JValue::Object(".to_owned(),
        ValueKind::Object => "jni::JValue::Object(".to_owned(),
    };
    out.append(ident);
    out.append(")");
    out
}

/// Writes the declared parameter as an argument of the call.
pub fn gen_jni_call_jvalue(parameter: &Parameter) -> (r: Result<String, GenError>)
    ensures
        chars_result(r) == argument_text(parameter@),
{
    match &parameter.name {
        None => Err(GenError::MissingParameterName),
        Some(name) => {
            if !check_identifier(name.as_str()) {
                return Err(GenError::InvalidIdentifier);
            }
            match checked_element(parameter.class.as_str(), parameter.is_array) {
                None => Err(GenError::ArrayMismatch),
                Some(element) => Ok(
                    emit_boxed_value(
                        ValueKind::of(element.as_str(), parameter.is_array),
                        name.as_str(),
                    ),
                ),
            }
        },
    }
}

/// Writes the arguments of the call.
pub fn gen_jni_call_jvalues(method: &Method) -> (r: Result<String, GenError>)
    ensures
        chars_result(r) == arguments_text(method@),
{
    let ghost each = |p: ParameterView| argument_text(p);
    let ghost items = method@.parameters;
    let mut out = String::new();
    let mut i: usize = 0;
    assert(items.take(0) =~= Seq::<ParameterView>::empty());
    while i < method.parameters.len()
        invariant
            i <= method.parameters.len(),
            items == method@.parameters,
            each == |p: ParameterView| argument_text(p),
            join_all(items.take(i as int), ", "@, each) == Ok::<Seq<char>, GenError>(out@),
        decreases method.parameters.len() - i,
    {
        proof {
            lemma_join_all_step(items, ", "@, each, i as int);
        }
        let ghost before = out@;
        match gen_jni_call_jvalue(&method.parameters[i]) {
            Err(e) => {
                proof {
                    lemma_join_all_error(items, ", "@, each, i + 1);
                }
                return Err(e);
            },
            Ok(text) => {
                if i > 0 {
                    out.append(", ");
                } else {
                    assert(before =~= Seq::<char>::empty());
                    assert(before + text@ =~= text@);
                }
                out.append(text.as_str());
            },
        }
        i += 1;
    }
    assert(items.take(items.len() as int) =~= items);
    Ok(out)
}

/// What is made of the result of the call, by the kind of what the method returns: a
/// primitive is read by its accessor, nothing is returned for `void`, and a reference is
/// wrapped with its class, which is looked up by `class_literal` through the environment at
/// hand.
pub open spec fn return_text(kind: ValueKind, is_static: bool, class_literal: Seq<char>) -> Seq<
    char,
> {
    match kind {
        ValueKind::Void => "Ok(())"@,
        ValueKind::Object => "let class = ejni::Class::for_name("@ + (if is_static {
            "env"@
        } else {
            "self.env"@
        }) + ", "@ + class_literal
            + ")?;\nlet object_raw = result.l()?;\nlet object = ejni::Object::new(object_raw, class);\nOk(object.into())"@,
        _ => "result."@.push(kind_accessor(kind)) + "()"@,
    }
}

/// What the method makes of the result of the call.
pub open spec fn return_handling(m: MethodView) -> Result<Seq<char>, GenError> {
    let ret = m.return_type;
    if !marker_agrees(ret.class, ret.is_array) {
        Err(GenError::ArrayMismatch)
    } else {
        Ok(
            return_text(
                value_kind(element_name(ret.class), ret.is_array),
                m.is_static,
                string_literal(element_name(ret.class)),
            ),
        )
    }
}

/// Writes what is made of the result of the call.
pub fn emit_return(kind: ValueKind, is_static: bool, class_literal: &str) -> (r: String)
    ensures
        r@ == return_text(kind, is_static, class_literal@),
{
    match kind {
        ValueKind::Void => "Ok(())".to_owned(),
        ValueKind::Object => {
            let mut out = "let class = ejni::Class::for_name(".to_owned();
            if is_static {
                out.append("env");
            } else {
                out.append("self.env");
            }
            out.append(", ");
            out.append(class_literal);
            out.append(
                ")?;\nlet object_raw = result.l()?;\nlet object = ejni::Object::new(object_raw, class);\nOk(object.into())",
            );
            out
        },
        _ => {
            let mut out = "result.".to_owned();
            out.push(kind.accessor());
            out.append("()");
            out
        },
    }
}

/// Writes what the method makes of the result of the call.
pub fn gen_jni_ret_handling(method: &Method) -> (r: Result<String, GenError>)
    ensures
        chars_result(r) == return_handling(method@),
{
    let ret = &method.return_type;
    match checked_element(ret.class.as_str(), ret.is_array) {
        None => Err(GenError::ArrayMismatch),
        Some(element) => {
            let literal = quote_string(element.as_str());
            Ok(
                emit_return(
                    ValueKind::of(element.as_str(), ret.is_array),
                    method.is_static,
                    literal.as_str(),
                ),
            )
        },
    }
}

/// The call of a method on the wrapped object, and what is made of its result: the method
/// is named by `name_literal` and found by `descriptor_literal`.
pub open spec fn call_text(
    name_literal: Seq<char>,
    descriptor_literal: Seq<char>,
    arguments: Seq<char>,
    ret: Seq<char>,
) -> Seq<char> {
    "let result = self.env.call_method(self.inner, "@ + name_literal + ", "@ + descriptor_literal
        + ", &["@ + arguments + "])?;\n"@ + ret
}

/// The body of a method that is not static: the call goes to the Java method of the name
/// that was declared, whatever the generated method is called.
pub open spec fn instance_call(m: MethodView) -> Result<Seq<char>, GenError> {
    match descriptor(m) {
        Err(e) => Err(e),
        Ok(found_by) => match arguments_text(m) {
            Err(e) => Err(e),
            Ok(arguments) => match return_handling(m) {
                Err(e) => Err(e),
                Ok(ret) => Ok(
                    call_text(
                        string_literal(element_name(m.name)),
                        string_literal(found_by),
                        arguments,
                        ret,
                    ),
                ),
            },
        },
    }
}

/// Writes the call of a method on the wrapped object from its parts.
pub fn emit_call(name_literal: &str, descriptor_literal: &str, arguments: &str, ret: &str) -> (r:
    String)
    ensures
        r@ == call_text(name_literal@, descriptor_literal@, arguments@, ret@),
{
    let mut out = "let result = self.env.call_method(self.inner, ".to_owned();
    out.append(name_literal);
    out.append(", ");
    out.append(descriptor_literal);
    out.append(", &[");
    out.append(arguments);
    out.append("])?;\n");
    out.append(ret);
    out
}

/// Writes the body of a method that is not static.
pub fn gen_jni_call_non_static(method: &Method) -> (r: Result<String, GenError>)
    ensures
        chars_result(r) == instance_call(method@),
{
    let jni_sig = match gen_jni_signature(method) {
        Err(e) => { return Err(e); },
        Ok(sig) => sig,
    };
    let name = strip_markers(method.name.as_str());
    let jvalues = match gen_jni_call_jvalues(method) {
        Err(e) => { return Err(e); },
        Ok(jvalues) => jvalues,
    };
    let ret_handling = match gen_jni_ret_handling(method) {
        Err(e) => { return Err(e); },
        Ok(ret) => ret,
    };
    let name_literal = quote_string(name.as_str());
    let sig_literal = quote_string(jni_sig.as_str());
    Ok(
        emit_call(
            name_literal.as_str(),
            sig_literal.as_str(),
            jvalues.as_str(),
            ret_handling.as_str(),
        ),
    )
}

/// A method: its signature and, between braces, its body.
pub open spec fn method_item(signature: Seq<char>, body: Seq<char>) -> Seq<char> {
    signature + " {\n"@ + body + "\n}\n"@
}

/// The body of every static method: it fails when it is run.
pub open spec fn static_stub() -> Seq<char> {
    "unimplemented!()"@
}

/// The method as it is generated under the name `host_name`: a static method with the body
/// that fails, any other with the call of the Java method.
pub open spec fn method_text(m: MethodView, host_name: Seq<char>) -> Result<Seq<char>, GenError> {
    match named_signature(m, host_name) {
        Err(e) => Err(e),
        Ok(signature) => if m.is_static {
            Ok(method_item(signature, static_stub()))
        } else {
            match instance_call(m) {
                Err(e) => Err(e),
                Ok(body) => Ok(method_item(signature, body)),
            }
        },
    }
}

/// Writes a method from its signature and its body.
pub fn emit_method(signature: &str, body: &str) -> (r: String)
    ensures
        r@ == method_item(signature@, body@),
{
    let mut out = signature.to_owned();
    out.append(" {\n");
    out.append(body);
    out.append("\n}\n");
    out
}

/// Writes the method as it is generated under the name `host_name`.
pub fn gen_method(method: &Method, host_name: &str) -> (r: Result<String, GenError>)
    ensures
        chars_result(r) == method_text(method@, host_name@),
{
    let signature = match gen_named_signature(method, host_name) {
        Err(e) => { return Err(e); },
        Ok(signature) => signature,
    };
    if method.is_static {
        Ok(emit_method(signature.as_str(), "unimplemented!()"))
    } else {
        match gen_jni_call_non_static(method) {
            Err(e) => Err(e),
            Ok(body) => Ok(emit_method(signature.as_str(), body.as_str())),
        }
    }
}

/// A method together with the name under which it is generated.
pub struct PlannedMethod {
    pub method: MethodView,
    pub host_name: Seq<char>,
}

/// The methods, each with its name from `hosts`; one for which `hosts` holds none keeps
/// its own.
pub open spec fn planned_with(methods: Seq<MethodView>, hosts: Seq<Seq<char>>) -> Seq<
    PlannedMethod,
> {
    Seq::new(
        methods.len(),
        |i: int|
            PlannedMethod {
                method: methods[i],
                host_name: if i < hosts.len() {
                    hosts[i]
                } else {
                    methods[i].name
                },
            },
    )
}

/// The methods of one class, each with the name that sets it apart from the methods of the
/// same name declared before it.
pub open spec fn planned(methods: Seq<MethodView>) -> Seq<PlannedMethod> {
    planned_with(methods, resolved_names(method_names(methods)))
}

/// Whether code is generated for the method: not for one that the Java compiler made up,
/// which its name tells by a dollar sign.
pub open spec fn is_generated(m: MethodView) -> bool {
    !m.name.contains('$')
}

/// The path of the interface that the method comes from, where it comes from one.
pub open spec fn interface_key(m: MethodView) -> Option<Seq<char>> {
    match m.from_interface {
        Some(interface) => Some(replaced(interface, "."@, "::"@)),
        None => None,
    }
}

/// Whether the method is generated in the block of `owner`: that of the interface of this
/// path, or, for `None`, that of the class itself.
pub open spec fn selects(pm: PlannedMethod, owner: Option<Seq<char>>) -> bool {
    is_generated(pm.method) && interface_key(pm.method) == owner
}

/// The method as it is generated.
pub open spec fn planned_text(pm: PlannedMethod) -> Result<Seq<char>, GenError> {
    method_text(pm.method, pm.host_name)
}

/// The methods that stand in the block of `owner`.
pub open spec fn block_of(plan: Seq<PlannedMethod>, owner: Option<Seq<char>>) -> Seq<
    PlannedMethod,
> {
    plan.filter(|pm: PlannedMethod| selects(pm, owner))
}

/// The text of the methods in the block of `owner`, in the order of declaration.
pub open spec fn block_methods(plan: Seq<PlannedMethod>, owner: Option<Seq<char>>) -> Result<
    Seq<char>,
    GenError,
> {
    append_all(block_of(plan, owner), |pm: PlannedMethod| planned_text(pm))
}

/// The paths of the interfaces that generated methods come from, each once, in the order
/// in which the methods first name them.
pub open spec fn interface_keys(methods: Seq<MethodView>) -> Seq<Seq<char>>
    decreases methods.len(),
{
    if methods.len() == 0 {
        Seq::empty()
    } else {
        let init = interface_keys(methods.drop_last());
        match interface_key(methods.last()) {
            Some(key) => if is_generated(methods.last()) && !init.contains(key) {
                init.push(key)
            } else {
                init
            },
            None => init,
        }
    }
}

/// The block that implements the interface `path` for the type `struct_ident`.
pub open spec fn trait_impl_text(
    path: Seq<char>,
    struct_ident: Seq<char>,
    methods: Seq<char>,
) -> Seq<char> {
    "\nimpl<'a> "@ + path + "<'a> for "@ + struct_ident + "<'a> {\n"@ + methods + "}\n"@
}

/// The block that implements the interface of the path `key`, with the methods of `plan`
/// that come from it; `key` has to read as a path.
pub open spec fn trait_impl(
    key: Seq<char>,
    plan: Seq<PlannedMethod>,
    struct_ident: Seq<char>,
) -> Result<Seq<char>, GenError> {
    match block_methods(plan, Some(key)) {
        Err(e) => Err(e),
        Ok(methods) => match parsed_path(key) {
            None => Err(GenError::InvalidPath),
            Some(path) => Ok(trait_impl_text(path, struct_ident, methods)),
        },
    }
}

/// What gives, for the path of an interface, the block that implements it for the type
/// `struct_ident` with the methods of `plan`.
pub open spec fn impl_for(plan: Seq<PlannedMethod>, struct_ident: Seq<char>) -> spec_fn(
    Seq<char>,
) -> Result<Seq<char>, GenError> {
    |key: Seq<char>| trait_impl(key, plan, struct_ident)
}

/// The last piece of a dotted name: the simple name of a class.
pub open spec fn simple_name(name: Seq<char>) -> Seq<char> {
    split_on(name, '.').last()
}

/// The definition of a class: its wrapper type, the block of its own methods, and the
/// blocks of the interfaces.
pub open spec fn class_item(ident: Seq<char>, own: Seq<char>, impls: Seq<char>) -> Seq<char> {
    struct_text(ident) + "\nimpl<'a> "@ + ident + "<'a> {\n"@ + own + "}\n"@ + impls
}

/// The source text for a class: its simple name has to be an identifier; its own methods
/// stand in one block, and the methods of each interface in a block of their own.
pub open spec fn class_text(c: ClassView) -> Result<Seq<char>, GenError> {
    let ident = simple_name(c.name);
    let plan = planned(c.methods);
    if !is_identifier(ident) {
        Err(GenError::InvalidIdentifier)
    } else {
        match block_methods(plan, None) {
            Err(e) => Err(e),
            Ok(own) => match append_all(interface_keys(c.methods), impl_for(plan, ident)) {
                Err(e) => Err(e),
                Ok(impls) => Ok(class_item(ident, own, impls)),
            },
        }
    }
}

/// Gives the path of the interface that the method comes from.
pub fn method_key(method: &Method) -> (r: Option<String>)
    ensures
        opt_chars(r) == interface_key(method@),
{
    match &method.from_interface {
        Some(interface) => Some(replace(interface.as_str(), ".", "::")),
        None => None,
    }
}

/// Whether two optional strings say the same.
pub fn same_option(a: &Option<String>, b: &Option<String>) -> (r: bool)
    ensures
        r == (opt_chars(*a) == opt_chars(*b)),
{
    match (a, b) {
        (Some(x), Some(y)) => same(x.as_str(), y.as_str()),
        (None, None) => true,
        _ => false,
    }
}

/// Writes the methods that are generated in the block of `owner`.
pub fn gen_block_methods(
    methods: &Vec<Method>,
    host_names: &Vec<String>,
    owner: &Option<String>,
) -> (r: Result<String, GenError>)
    ensures
        chars_result(r) == block_methods(
            planned_with(method_views(methods@), host_names.deep_view()),
            opt_chars(*owner),
        ),
{
    let ghost plan = planned_with(method_views(methods@), host_names.deep_view());
    let ghost pred = |pm: PlannedMethod| selects(pm, opt_chars(*owner));
    let ghost each = |pm: PlannedMethod| planned_text(pm);
    let mut out = String::new();
    let mut i: usize = 0;
    proof {
        reveal(Seq::filter);
        assert(plan.take(0).filter(pred) =~= Seq::<PlannedMethod>::empty());
    }
    while i < methods.len()
        invariant
            i <= methods.len(),
            plan == planned_with(method_views(methods@), host_names.deep_view()),
            pred == |pm: PlannedMethod| selects(pm, opt_chars(*owner)),
            each == |pm: PlannedMethod| planned_text(pm),
            append_all(plan.take(i as int).filter(pred), each) == Ok::<Seq<char>, GenError>(
                out@,
            ),
        decreases methods.len() - i,
    {
        proof {
            lemma_append_chosen_step(plan, pred, each, i as int);
        }
        let method = &methods[i];
        let key = method_key(method);
        if !contains_char(method.name.as_str(), '$') && same_option(&key, owner) {
            let host = if i < host_names.len() {
                host_names[i].as_str()
            } else {
                method.name.as_str()
            };
            match gen_method(method, host) {
                Err(e) => {
                    proof {
                        lemma_append_chosen_error(plan, pred, each, i + 1);
                    }
                    return Err(e);
                },
                Ok(text) => {
                    out.append(text.as_str());
                },
            }
        }
        i += 1;
    }
    assert(plan.take(plan.len() as int) =~= plan);
    Ok(out)
}

/// Writes the block that implements an interface from its parts.
pub fn emit_trait_impl(path: &str, struct_ident: &str, methods: &str) -> (r: String)
    ensures
        r@ == trait_impl_text(path@, struct_ident@, methods@),
{
    let mut out = "\nimpl<'a> ".to_owned();
    out.append(path);
    out.append("<'a> for ");
    out.append(struct_ident);
    out.append("<'a> {\n");
    out.append(methods);
    out.append("}\n");
    out
}

/// Writes the block that implements the interface of the path `name` for the type
/// `struct_ident`, with those of the methods that come from it.
pub fn gen_trait_impl(
    name: &str,
    methods: &Vec<Method>,
    host_names: &Vec<String>,
    struct_ident: &str,
) -> (r: Result<String, GenError>)
    ensures
        chars_result(r) == trait_impl(
            name@,
            planned_with(method_views(methods@), host_names.deep_view()),
            struct_ident@,
        ),
{
    let owner = Some(name.to_owned());
    let method_impls = match gen_block_methods(methods, host_names, &owner) {
        Err(e) => { return Err(e); },
        Ok(text) => text,
    };
    match parse_path(name) {
        None => Err(GenError::InvalidPath),
        Some(path) => Ok(emit_trait_impl(path.as_str(), struct_ident, method_impls.as_str())),
    }
}

/// Gives the paths of the interfaces that generated methods come from, each once.
pub fn gen_interface_keys(methods: &Vec<Method>) -> (r: Vec<String>)
    ensures
        r.deep_view() == interface_keys(method_views(methods@)),
{
    let ghost all = method_views(methods@);
    let mut out: Vec<String> = Vec::new();
    let mut i: usize = 0;
    assert(all.take(0) =~= Seq::<MethodView>::empty());
    assert(out.deep_view() =~= Seq::<Seq<char>>::empty());
    while i < methods.len()
        invariant
            i <= methods.len(),
            all == method_views(methods@),
            out.deep_view() == interface_keys(all.take(i as int)),
        decreases methods.len() - i,
    {
        proof {
            assert(all.take(i + 1).drop_last() =~= all.take(i as int));
            assert(all.take(i + 1).last() == methods@[i as int]@);
        }
        let method = &methods[i];
        match method_key(method) {
            Some(key) => {
                if !contains_char(method.name.as_str(), '$') && !is_taken(&out, key.as_str()) {
                    let ghost before = out.deep_view();
                    let ghost added = key@;
                    out.push(key);
                    assert(out.deep_view() =~= before.push(added));
                }
            },
            None => {},
        }
        i += 1;
    }
    assert(all.take(all.len() as int) =~= all);
    out
}

/// Writes the definition of a class from its parts.
pub fn emit_class(ident: &str, own: &str, impls: &str) -> (r: String)
    ensures
        r@ == class_item(ident@, own@, impls@),
{
    let mut out = gen_struct(ident);
    out.append("\nimpl<'a> ");
    out.append(ident);
    out.append("<'a> {\n");
    out.append(own);
    out.append("}\n");
    out.append(impls);
    out
}

/// Writes the source text for a class.
pub fn class_def(def: &Class) -> (r: Result<String, GenError>)
    ensures
        chars_result(r) == class_text(def@),
{
    let pieces = split(def.name.as_str(), '.');
    let class_ident = pieces[pieces.len() - 1].as_str();
    assert(class_ident@ == simple_name(def@.name));
    if !check_identifier(class_ident) {
        return Err(GenError::InvalidIdentifier);
    }
    let host_names = resolve_names(&def.methods);
    let ghost plan = planned(def@.methods);
    let own = match gen_block_methods(&def.methods, &host_names, &None) {
        Err(e) => { return Err(e); },
        Ok(text) => text,
    };
    let keys = gen_interface_keys(&def.methods);
    let ghost items = interface_keys(def@.methods);
    let ghost each = impl_for(plan, class_ident@);
    let mut impls = String::new();
    let mut i: usize = 0;
    assert(items.take(0) =~= Seq::<Seq<char>>::empty());
    while i < keys.len()
        invariant
            i <= keys.len(),
            items == keys.deep_view(),
            items == interface_keys(def@.methods),
            plan == planned(def@.methods),
            plan == planned_with(method_views(def.methods@), host_names.deep_view()),
            class_ident@ == simple_name(def@.name),
            is_identifier(class_ident@),
            block_methods(plan, None) == Ok::<Seq<char>, GenError>(own@),
            each == impl_for(plan, class_ident@),
            append_all(items.take(i as int), each) == Ok::<Seq<char>, GenError>(impls@),
        decreases keys.len() - i,
    {
        proof {
            lemma_append_all_step(items, each, i as int);
            assert(items[i as int] == keys@[i as int]@);
        }
        match gen_trait_impl(keys[i].as_str(), &def.methods, &host_names, class_ident) {
            Err(e) => {
                proof {
                    lemma_append_all_error(items, each, i + 1);
                }
                return Err(e);
            },
            Ok(text) => {
                impls.append(text.as_str());
            },
        }
        i += 1;
    }
    proof {
        lemma_append_all_whole(items, each);
    }
    Ok(emit_class(class_ident, own.as_str(), impls.as_str()))
}

/// A block holds the generated methods of its owner and no other method: what stands in it
/// is a method of the class that comes from this owner, and every such method that is
/// generated stands in it.
pub proof fn lemma_block_members(
    plan: Seq<PlannedMethod>,
    owner: Option<Seq<char>>,
    pm: PlannedMethod,
)
    ensures
        block_of(plan, owner).contains(pm) <==> plan.contains(pm) && is_generated(pm.method)
            && interface_key(pm.method) == owner,
{
    let pred = |pm: PlannedMethod| selects(pm, owner);
    let block = plan.filter(pred);
    if block.contains(pm) {
        let i = choose|i: int| 0 <= i < block.len() && block[i] == pm;
        plan.lemma_filter_pred(pred, i);
        plan.lemma_filter_contains_rev(pred, pm);
    }
    if plan.contains(pm) && pred(pm) {
        let i = choose|i: int| 0 <= i < plan.len() && plan[i] == pm;
        plan.lemma_filter_contains(pred, i);
    }
}

/// The blocks of two owners share no method.
pub proof fn lemma_blocks_disjoint(
    plan: Seq<PlannedMethod>,
    one: Option<Seq<char>>,
    other: Option<Seq<char>>,
    pm: PlannedMethod,
)
    requires
        one != other,
        block_of(plan, one).contains(pm),
    ensures
        !block_of(plan, other).contains(pm),
{
    lemma_block_members(plan, one, pm);
    lemma_block_members(plan, other, pm);
}

/// No method with a dollar sign in its name is generated, in whatever block, and none is
/// generated under a name with a dollar sign.
pub proof fn lemma_no_marker_is_generated(
    methods: Seq<MethodView>,
    owner: Option<Seq<char>>,
    pm: PlannedMethod,
)
    requires
        block_of(planned(methods), owner).contains(pm),
    ensures
        !pm.method.name.contains('$'),
        !pm.host_name.contains('$'),
{
    let plan = planned(methods);
    lemma_block_members(plan, owner, pm);
    let i = choose|i: int| 0 <= i < plan.len() && plan[i] == pm;
    let names = method_names(methods);
    crate::overload::lemma_resolved_name_at(names, i);
    crate::overload::lemma_host_name_marker(resolved_names(names.take(i)), names[i]);
}

/// Each interface has one block: no path stands twice among those of the interfaces.
pub proof fn lemma_interface_keys_distinct(methods: Seq<MethodView>)
    ensures
        interface_keys(methods).no_duplicates(),
    decreases methods.len(),
{
    if methods.len() > 0 {
        lemma_interface_keys_distinct(methods.drop_last());
    }
}

/// Every generated method that comes from an interface finds the block of that interface:
/// its path is among those of the interfaces, and the method stands in that block.
pub proof fn lemma_interface_method_has_block(methods: Seq<MethodView>, i: int)
    requires
        0 <= i < methods.len(),
        is_generated(methods[i]),
        interface_key(methods[i]) is Some,
    ensures
        interface_keys(methods).contains(interface_key(methods[i])->0),
        block_of(planned(methods), interface_key(methods[i])).contains(planned(methods)[i]),
    decreases methods.len(),
{
    let key = interface_key(methods[i])->0;
    let init = interface_keys(methods.drop_last());
    if i < methods.len() - 1 {
        lemma_interface_method_has_block(methods.drop_last(), i);
        let at = choose|k: int| 0 <= k < init.len() && init[k] == key;
        assert(interface_keys(methods)[at] == key);
    } else {
        if init.contains(key) {
            let at = choose|k: int| 0 <= k < init.len() && init[k] == key;
            assert(interface_keys(methods)[at] == key);
        } else {
            assert(interface_keys(methods).last() == key);
        }
    }
    let plan = planned(methods);
    assert(plan[i].method == methods[i]);
    assert(plan.contains(plan[i]));
    lemma_block_members(plan, Some(key), plan[i]);
}

/// Every path among those of the interfaces is that of a generated method's interface, so
/// that no block stands empty.
pub proof fn lemma_interface_key_has_method(methods: Seq<MethodView>, key: Seq<char>)
    requires
        interface_keys(methods).contains(key),
    ensures
        exists|i: int|
            0 <= i < methods.len() && is_generated(#[trigger] methods[i]) && interface_key(
                methods[i],
            ) == Some(key),
    decreases methods.len(),
{
    if methods.len() > 0 {
        let init = interface_keys(methods.drop_last());
        if init.contains(key) {
            lemma_interface_key_has_method(methods.drop_last(), key);
            let i = choose|i: int|
                0 <= i < methods.len() - 1 && is_generated(#[trigger] methods.drop_last()[i])
                    && interface_key(methods.drop_last()[i]) == Some(key);
            assert(methods[i] == methods.drop_last()[i]);
        } else {
            let all = interface_keys(methods);
            let at = choose|k: int| 0 <= k < all.len() && all[k] == key;
            if at < init.len() {
                assert(init[at] == key);
            }
            assert(is_generated(methods[methods.len() - 1]));
        }
    }
}

} // verus!
