use vstd::prelude::*;

use crate::ast::MethodKind;
use crate::bultins::function::JSFunction;
use crate::bultins::object_property::{spec_register_name, FieldNames};
use crate::bytecodes::OpCode;
use crate::ids::{ClassID, FuncID};

verus! {

/// What the runtime keeps of a compiled function.
pub struct FunctionView {
    pub is_async: bool,
    pub is_generator: bool,
    pub args_len: u16,
    pub var_count: u16,
    pub capture_stack_size: Option<u16>,
    pub code: Seq<OpCode>,
}

/// The model of a compiled function.
pub open spec fn function_view(f: JSFunction) -> FunctionView {
    FunctionView {
        is_async: f.is_async,
        is_generator: f.is_generator,
        args_len: f.args_len,
        var_count: f.var_count,
        capture_stack_size: f.capture_stack_size,
        code: f.bytecodes@,
    }
}

/// A method, getter or setter bound to a class, static or on its
/// prototype.
pub struct ClassMethod {
    pub class: ClassID,
    pub name: String,
    pub kind: MethodKind,
    pub is_static: bool,
    pub func: FuncID,
}

/// A property declared by a class, static or on its instances.
pub struct ClassProp {
    pub class: ClassID,
    pub name: String,
    pub is_static: bool,
}

/// The model of the tables: the compiled functions and the number of
/// classes, each numbered in order of registration; the constructors,
/// methods and properties bound to classes, in order of binding; the table
/// of property names; and the table of string constants.
pub struct CodeTableView {
    pub functions: Seq<FunctionView>,
    pub class_count: nat,
    pub constructors: Seq<(ClassID, FuncID)>,
    pub methods: Seq<(ClassID, Seq<char>, MethodKind, bool, FuncID)>,
    pub props: Seq<(ClassID, Seq<char>, bool)>,
    pub fields: Seq<Seq<char>>,
    pub strings: Seq<Seq<char>>,
}

/// The tables that compiling fills, as the runtime keeps them: compiled
/// functions, classes with their members, property names and string
/// constants.
pub struct CodeTable {
    functions: Vec<JSFunction>,
    class_count: u32,
    constructors: Vec<(ClassID, FuncID)>,
    methods: Vec<ClassMethod>,
    props: Vec<ClassProp>,
    fields: FieldNames,
    strings: FieldNames,
}

impl View for CodeTable {
    type V = CodeTableView;

    closed spec fn view(&self) -> CodeTableView {
        CodeTableView {
            functions: self.functions@.map_values(|f: JSFunction| function_view(f)),
            class_count: self.class_count as nat,
            constructors: self.constructors@,
            methods: self.methods@.map_values(
                |m: ClassMethod| (m.class, m.name@, m.kind, m.is_static, m.func),
            ),
            props: self.props@.map_values(|p: ClassProp| (p.class, p.name@, p.is_static)),
            fields: self.fields@,
            strings: self.strings@,
        }
    }
}

/// Empty tables.
pub open spec fn empty_table() -> CodeTableView {
    CodeTableView {
        functions: seq![],
        class_count: 0,
        constructors: seq![],
        methods: seq![],
        props: seq![],
        fields: seq![],
        strings: seq![],
    }
}

impl CodeTable {
    /// Empty tables.
    pub fn new() -> (r: CodeTable)
        ensures
            r@ == empty_table(),
    {
        let r = CodeTable {
            functions: Vec::new(),
            class_count: 0,
            constructors: Vec::new(),
            methods: Vec::new(),
            props: Vec::new(),
            fields: FieldNames::new(),
            strings: FieldNames::new(),
        };
        assert(r@.functions =~= seq![]);
        assert(r@.methods =~= seq![]);
        assert(r@.props =~= seq![]);
        r
    }

    /// Register a compiled function; it is numbered by its position.
    pub fn add_function(&mut self, f: JSFunction) -> (id: FuncID)
        requires
            old(self)@.functions.len() < u32::MAX,
        ensures
            id == FuncID(old(self)@.functions.len() as u32),
            final(self)@ == (CodeTableView { functions: old(self)@.functions.push(function_view(f)), ..old(self)@ }),
    {
        let id = FuncID(self.functions.len() as u32);
        self.functions.push(f);
        assert(self@.functions =~= old(self)@.functions.push(function_view(f)));
        id
    }

    /// Register a new class.
    pub fn new_class(&mut self) -> (id: ClassID)
        requires
            old(self)@.class_count < u32::MAX,
        ensures
            id == ClassID(old(self)@.class_count as u32),
            final(self)@ == (CodeTableView { class_count: old(self)@.class_count + 1, ..old(self)@ }),
    {
        let id = ClassID(self.class_count);
        self.class_count = self.class_count + 1;
        id
    }

    /// Bind the constructor of class `c`.
    pub fn bind_class_constructor(&mut self, c: ClassID, f: FuncID)
        ensures
            final(self)@ == (CodeTableView { constructors: old(self)@.constructors.push((c, f)), ..old(self)@ }),
    {
        self.constructors.push((c, f));
    }

    /// Bind a method, getter or setter of class `c`.
    pub fn bind_class_method(&mut self, c: ClassID, name: &str, kind: MethodKind, is_static: bool, f: FuncID)
        ensures
            final(self)@ == (CodeTableView {
                methods: old(self)@.methods.push((c, name@, kind, is_static, f)),
                ..old(self)@
            }),
    {
        self.methods.push(ClassMethod { class: c, name: name.to_string(), kind, is_static, func: f });
        assert(self@.methods =~= old(self)@.methods.push((c, name@, kind, is_static, f)));
    }

    /// Declare a property of class `c`; its name is registered as a
    /// property name, whose number is returned.
    pub fn bind_class_prop(&mut self, c: ClassID, name: &str, is_static: bool) -> (id: u32)
        requires
            old(self)@.fields.len() < u32::MAX,
        ensures
            (final(self)@.fields, id as int) == spec_register_name(old(self)@.fields, name@),
            final(self)@ == (CodeTableView {
                props: old(self)@.props.push((c, name@, is_static)),
                fields: final(self)@.fields,
                ..old(self)@
            }),
    {
        let id = self.fields.register_field_name(name);
        self.props.push(ClassProp { class: c, name: name.to_string(), is_static });
        assert(self@.props =~= old(self)@.props.push((c, name@, is_static)));
        id
    }

    /// The number of a string constant, which is given the next number when
    /// it is new.
    pub fn register_string(&mut self, text: &str) -> (id: u32)
        requires
            old(self)@.strings.len() < u32::MAX,
        ensures
            (final(self)@.strings, id as int) == spec_register_name(old(self)@.strings, text@),
            final(self)@ == (CodeTableView { strings: final(self)@.strings, ..old(self)@ }),
    {
        self.strings.register_field_name(text)
    }

    /// The compiled functions, by number.
    pub fn functions(&self) -> (r: &Vec<JSFunction>)
        ensures
            r@.map_values(|f: JSFunction| function_view(f)) == self@.functions,
    {
        &self.functions
    }

    /// The number of classes registered.
    pub fn class_count(&self) -> (r: u32)
        ensures
            r == self@.class_count,
    {
        self.class_count
    }

    /// The constructors bound, in order.
    pub fn constructors(&self) -> (r: &Vec<(ClassID, FuncID)>)
        ensures
            r@ == self@.constructors,
    {
        &self.constructors
    }

    /// The methods, getters and setters bound, in order.
    pub fn methods(&self) -> (r: &Vec<ClassMethod>)
        ensures
            r@.map_values(|m: ClassMethod| (m.class, m.name@, m.kind, m.is_static, m.func)) == self@.methods,
    {
        &self.methods
    }

    /// The properties declared, in order.
    pub fn props(&self) -> (r: &Vec<ClassProp>)
        ensures
            r@.map_values(|p: ClassProp| (p.class, p.name@, p.is_static)) == self@.props,
    {
        &self.props
    }

    /// The number of a property name, which is given the next number when
    /// it is new.
    pub fn register_field_name(&mut self, name: &str) -> (id: u32)
        requires
            old(self)@.fields.len() < u32::MAX,
        ensures
            (final(self)@.fields, id as int) == spec_register_name(old(self)@.fields, name@),
            final(self)@ == (CodeTableView { fields: final(self)@.fields, ..old(self)@ }),
    {
        self.fields.register_field_name(name)
    }
}

} // verus!
