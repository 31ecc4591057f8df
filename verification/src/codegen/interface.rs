use crate::codegen::class::{is_generated, planned, planned_with, simple_name, PlannedMethod};
use crate::codegen::{gen_named_signature, named_signature};
use crate::error::GenError;
use crate::ident::{check_identifier, is_identifier};
use crate::models::{method_views, Class, ClassView};
use crate::overload::resolve_names;
use crate::results::{
    append_all, chars_result, lemma_append_chosen_error, lemma_append_chosen_step,
};
use crate::text::{contains_char, split};
use vstd::prelude::*;
use vstd::string::*;

verus! {

/// The method as an interface declares it: its signature and no body.
pub open spec fn declared_signature(pm: PlannedMethod) -> Result<Seq<char>, GenError> {
    match named_signature(pm.method, pm.host_name) {
        Err(e) => Err(e),
        Ok(signature) => Ok(signature + ";\n"@),
    }
}

/// The trait that stands for an interface called `ident`.
pub open spec fn interface_item(ident: Seq<char>, methods: Seq<char>) -> Seq<char> {
    "pub trait "@ + ident + "<'a> {\n"@ + methods + "}\n"@
}

/// The source text for an interface: a trait under its simple name, which has to be an
/// identifier, with the signatures of its methods, but for those that the Java compiler
/// made up.
pub open spec fn interface_text(c: ClassView) -> Result<Seq<char>, GenError> {
    let ident = simple_name(c.name);
    if !is_identifier(ident) {
        Err(GenError::InvalidIdentifier)
    } else {
        match append_all(
            planned(c.methods).filter(|pm: PlannedMethod| is_generated(pm.method)),
            |pm: PlannedMethod| declared_signature(pm),
        ) {
            Err(e) => Err(e),
            Ok(methods) => Ok(interface_item(ident, methods)),
        }
    }
}

/// Writes the trait that stands for an interface from its parts.
pub fn emit_interface(ident: &str, methods: &str) -> (r: String)
    ensures
        r@ == interface_item(ident@, methods@),
{
    let mut out = "pub trait ".to_owned();
    out.append(ident);
    out.append("<'a> {\n");
    out.append(methods);
    out.append("}\n");
    out
}

/// Writes the source text for an interface.
pub fn gen_interface(def: &Class) -> (r: Result<String, GenError>)
    ensures
        chars_result(r) == interface_text(def@),
{
    let pieces = split(def.name.as_str(), '.');
    let name_ident = pieces[pieces.len() - 1].as_str();
    assert(name_ident@ == simple_name(def@.name));
    if !check_identifier(name_ident) {
        return Err(GenError::InvalidIdentifier);
    }
    let host_names = resolve_names(&def.methods);
    let ghost plan = planned(def@.methods);
    let ghost pred = |pm: PlannedMethod| is_generated(pm.method);
    let ghost each = |pm: PlannedMethod| declared_signature(pm);
    let mut methods = String::new();
    let mut i: usize = 0;
    proof {
        reveal(Seq::filter);
        assert(plan.take(0).filter(pred) =~= Seq::<PlannedMethod>::empty());
    }
    while i < def.methods.len()
        invariant
            i <= def.methods.len(),
            host_names.len() == def.methods.len(),
            plan == planned(def@.methods),
            plan == planned_with(method_views(def.methods@), host_names.deep_view()),
            pred == |pm: PlannedMethod| is_generated(pm.method),
            each == |pm: PlannedMethod| declared_signature(pm),
            name_ident@ == simple_name(def@.name),
            is_identifier(name_ident@),
            append_all(plan.take(i as int).filter(pred), each) == Ok::<Seq<char>, GenError>(
                methods@,
            ),
        decreases def.methods.len() - i,
    {
        proof {
            lemma_append_chosen_step(plan, pred, each, i as int);
        }
        let method = &def.methods[i];
        if !contains_char(method.name.as_str(), '$') {
            match gen_named_signature(method, host_names[i].as_str()) {
                Err(e) => {
                    proof {
                        lemma_append_chosen_error(plan, pred, each, i + 1);
                    }
                    return Err(e);
                },
                Ok(signature) => {
                    let ghost before = methods@;
                    methods.append(signature.as_str());
                    methods.append(";\n");
                    assert(methods@ =~= before + (signature@ + ";\n"@));
                },
            }
        }
        i += 1;
    }
    assert(plan.take(plan.len() as int) =~= plan);
    Ok(emit_interface(name_ident, methods.as_str()))
}

} // verus!
