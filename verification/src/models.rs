use vstd::prelude::*;

verus! {

/// A type as the description names it: for a declared parameter with its name, for the
/// return type without one.
#[derive(Clone, Debug)]
pub struct Parameter {
    pub name: Option<String>,
    /// A primitive keyword or a dotted class name; `[]` may be written behind it.
    pub class: String,
    pub is_array: bool,
}

/// One method of a class or an interface.
#[derive(Clone, Debug)]
pub struct Method {
    pub name: String,
    pub return_type: Parameter,
    pub is_static: bool,
    /// The interface that declares the method, where the class has it from one.
    pub from_interface: Option<String>,
    pub parameters: Vec<Parameter>,
}

/// A class, or an interface, with its dotted name and its methods in the order of declaration.
#[derive(Clone, Debug)]
pub struct Class {
    pub name: String,
    pub methods: Vec<Method>,
    pub implementing: Vec<String>,
}

/// The whole description of a Java library.
#[derive(Clone, Debug)]
pub struct Input {
    pub packages: Vec<String>,
    pub classes: Vec<Class>,
    pub interfaces: Vec<Class>,
}

/// The characters of an optional string.
pub open spec fn opt_chars(s: Option<String>) -> Option<Seq<char>> {
    match s {
        Some(text) => Some(text@),
        None => None,
    }
}

/// A type of the description as the contracts see it.
pub struct ParameterView {
    pub name: Option<Seq<char>>,
    pub class: Seq<char>,
    pub is_array: bool,
}

/// A method as the contracts see it.
pub struct MethodView {
    pub name: Seq<char>,
    pub return_type: ParameterView,
    pub is_static: bool,
    pub from_interface: Option<Seq<char>>,
    pub parameters: Seq<ParameterView>,
}

/// A class or an interface as the contracts see it.
pub struct ClassView {
    pub name: Seq<char>,
    pub methods: Seq<MethodView>,
    pub implementing: Seq<Seq<char>>,
}

/// The description as the contracts see it.
pub struct InputView {
    pub packages: Seq<Seq<char>>,
    pub classes: Seq<ClassView>,
    pub interfaces: Seq<ClassView>,
}

/// The methods as the contracts see them.
pub open spec fn method_views(methods: Seq<Method>) -> Seq<MethodView> {
    methods.map_values(|m: Method| m@)
}

/// The classes as the contracts see them.
pub open spec fn class_views(defs: Seq<Class>) -> Seq<ClassView> {
    defs.map_values(|c: Class| c@)
}

impl View for Parameter {
    type V = ParameterView;

    open spec fn view(&self) -> ParameterView {
        ParameterView { name: opt_chars(self.name), class: self.class@, is_array: self.is_array }
    }
}

impl View for Method {
    type V = MethodView;

    open spec fn view(&self) -> MethodView {
        MethodView {
            name: self.name@,
            return_type: self.return_type@,
            is_static: self.is_static,
            from_interface: opt_chars(self.from_interface),
            parameters: self.parameters@.map_values(|p: Parameter| p@),
        }
    }
}

impl View for Class {
    type V = ClassView;

    open spec fn view(&self) -> ClassView {
        ClassView {
            name: self.name@,
            methods: method_views(self.methods@),
            implementing: self.implementing@.map_values(|s: String| s@),
        }
    }
}

impl View for Input {
    type V = InputView;

    open spec fn view(&self) -> InputView {
        InputView {
            packages: self.packages@.map_values(|s: String| s@),
            classes: class_views(self.classes@),
            interfaces: class_views(self.interfaces@),
        }
    }
}

} // verus!
