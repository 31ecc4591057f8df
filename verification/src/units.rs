use crate::codegen::class::{class_def, class_text};
use crate::codegen::interface::{gen_interface, interface_text};
use crate::error::GenError;
use crate::layout::{build_path, unit_path};
use crate::models::{class_views, Class, ClassView, Input, InputView};
use vstd::prelude::*;

verus! {

/// One source file that is to be written: where it goes, from the directory of the root
/// package, and what it holds.
#[derive(Clone, Debug)]
pub struct SourceUnit {
    pub path: Vec<String>,
    pub text: String,
}

/// A source file as the contracts see it.
pub struct SourceUnitView {
    pub path: Seq<Seq<char>>,
    pub text: Seq<char>,
}

impl View for SourceUnit {
    type V = SourceUnitView;

    open spec fn view(&self) -> SourceUnitView {
        SourceUnitView { path: self.path.deep_view(), text: self.text@ }
    }
}

/// The source files as the contracts see them.
pub open spec fn unit_views(units: Seq<SourceUnit>) -> Seq<SourceUnitView> {
    units.map_values(|u: SourceUnit| u@)
}

/// The source file for one entry of the description, which is a trait where `interface` is
/// set and the definition of a class where it is not.
pub open spec fn unit_of(def: ClassView, root: Seq<char>, interface: bool) -> Result<
    SourceUnitView,
    GenError,
> {
    match (if interface {
        interface_text(def)
    } else {
        class_text(def)
    }) {
        Err(e) => Err(e),
        Ok(text) => match unit_path(def.name, root) {
            Err(e) => Err(e),
            Ok(path) => Ok(SourceUnitView { path, text }),
        },
    }
}

/// The source files for the entries, in their order; where one of them cannot be written,
/// the error of the first such entry and no file at all.
pub open spec fn units_of(defs: Seq<ClassView>, root: Seq<char>, interface: bool) -> Result<
    Seq<SourceUnitView>,
    GenError,
>
    decreases defs.len(),
{
    if defs.len() == 0 {
        Ok(Seq::empty())
    } else {
        match units_of(defs.drop_last(), root, interface) {
            Err(e) => Err(e),
            Ok(init) => match unit_of(defs.last(), root, interface) {
                Err(e) => Err(e),
                Ok(unit) => Ok(init.push(unit)),
            },
        }
    }
}

/// All source files for a description: those of the interfaces, then those of the classes.
pub open spec fn source_units(input: InputView, root: Seq<char>) -> Result<
    Seq<SourceUnitView>,
    GenError,
> {
    match units_of(input.interfaces, root, true) {
        Err(e) => Err(e),
        Ok(traits) => match units_of(input.classes, root, false) {
            Err(e) => Err(e),
            Ok(classes) => Ok(traits + classes),
        },
    }
}

/// The source files of a result, where there are any.
pub open spec fn units_result(r: Result<Vec<SourceUnit>, GenError>) -> Result<
    Seq<SourceUnitView>,
    GenError,
> {
    match r {
        Ok(units) => Ok(unit_views(units@)),
        Err(e) => Err(e),
    }
}

/// An entry that cannot be written among the first ones fails the whole.
pub proof fn lemma_units_error(defs: Seq<ClassView>, root: Seq<char>, interface: bool, i: int)
    requires
        0 <= i <= defs.len(),
        units_of(defs.take(i), root, interface) is Err,
    ensures
        units_of(defs, root, interface) == units_of(defs.take(i), root, interface),
    decreases defs.len() - i,
{
    if i == defs.len() {
        assert(defs.take(i) =~= defs);
    } else {
        assert(defs.take(i + 1).drop_last() =~= defs.take(i));
        lemma_units_error(defs, root, interface, i + 1);
    }
}

/// Writes the source file for one entry of the description.
pub fn gen_unit(def: &Class, root: &str, interface: bool) -> (r: Result<SourceUnit, GenError>)
    ensures
        match unit_of(def@, root@, interface) {
            Ok(unit) => r is Ok && r->Ok_0@ == unit,
            Err(e) => r == Err::<SourceUnit, GenError>(e),
        },
{
    let generated = if interface {
        gen_interface(def)
    } else {
        class_def(def)
    };
    match generated {
        Err(e) => Err(e),
        Ok(text) => match build_path(def.name.as_str(), root) {
            Err(e) => Err(e),
            Ok(path) => Ok(SourceUnit { path, text }),
        },
    }
}

/// Writes the source files for the entries, in their order.
pub fn gen_units(defs: &Vec<Class>, root: &str, interface: bool) -> (r: Result<
    Vec<SourceUnit>,
    GenError,
>)
    ensures
        units_result(r) == units_of(class_views(defs@), root@, interface),
{
    let ghost all = class_views(defs@);
    let mut out: Vec<SourceUnit> = Vec::new();
    let mut i: usize = 0;
    assert(all.take(0) =~= Seq::<ClassView>::empty());
    assert(unit_views(out@) =~= Seq::<SourceUnitView>::empty());
    while i < defs.len()
        invariant
            i <= defs.len(),
            all == class_views(defs@),
            units_of(all.take(i as int), root@, interface) == Ok::<Seq<SourceUnitView>, GenError>(
                unit_views(out@),
            ),
        decreases defs.len() - i,
    {
        proof {
            assert(all.take(i + 1).drop_last() =~= all.take(i as int));
            assert(all.take(i + 1).last() == defs@[i as int]@);
        }
        match gen_unit(&defs[i], root, interface) {
            Err(e) => {
                proof {
                    lemma_units_error(all, root@, interface, i + 1);
                }
                return Err(e);
            },
            Ok(unit) => {
                let ghost before = unit_views(out@);
                let ghost added = unit@;
                out.push(unit);
                assert(unit_views(out@) =~= before.push(added));
            },
        }
        i += 1;
    }
    assert(all.take(all.len() as int) =~= all);
    Ok(out)
}

/// Writes all source files for a description, or none of them: the traits of the
/// interfaces, then the definitions of the classes.
pub fn generate(input: &Input, root: &str) -> (r: Result<Vec<SourceUnit>, GenError>)
    ensures
        units_result(r) == source_units(input@, root@),
{
    let mut traits = match gen_units(&input.interfaces, root, true) {
        Err(e) => { return Err(e); },
        Ok(units) => units,
    };
    let mut classes = match gen_units(&input.classes, root, false) {
        Err(e) => { return Err(e); },
        Ok(units) => units,
    };
    let ghost first = unit_views(traits@);
    let ghost second = unit_views(classes@);
    traits.append(&mut classes);
    assert(unit_views(traits@) =~= first + second);
    assert(input@.interfaces == class_views(input.interfaces@));
    assert(input@.classes == class_views(input.classes@));
    Ok(traits)
}

} // verus!
