pub mod environment;

use vstd::prelude::*;

use self::environment::Environment;
use crate::ast::text::stms_text;
use crate::ast::{eq_idents, eq_stms, same_idents, same_stms, BlockStatement, Identifier};
use crate::bytecode_vm::bytecode::instructions::Instructions;
use std::rc::Rc;
use crate::bytecode_vm::bytecode::instructions::listing_text;
use crate::utils::{add_pad, decimal, int_text, pad_lines, push_decimal, push_int};

verus! {

#[derive(Debug, PartialEq)]
pub enum Object {
    Return(Return),
    Int(Int),
    Bool(Bool),
    String(StringObject),
    Function(Function),
    CompiledFunction(CompiledFunction),
    Array(Array),
    Closure(ClosureFunction),
}

#[derive(Debug, Clone, Copy, PartialEq, Eq, Structural)]
pub enum ObjectType {
    Return,
    Int,
    Bool,
    String,
    Function,
    CompiledFunction,
    Array,
    Closure,
}

#[derive(Debug, PartialEq)]
pub struct Return {
    pub value: Option<Box<Object>>,
}

#[derive(Debug, Clone, Copy, PartialEq, Eq, Structural)]
pub struct Int {
    pub value: i64,
}

#[derive(Debug, Clone, Copy, PartialEq, Eq, Structural)]
pub struct Bool {
    pub value: bool,
}

#[derive(Debug, PartialEq)]
pub struct StringObject {
    pub value: String,
}

#[derive(Debug)]
pub struct Function {
    pub identifier: Option<String>,
    pub args: Vec<Identifier>,
    pub block: Rc<BlockStatement>,
    pub env: Rc<Environment<String>>,
}

#[derive(Debug, PartialEq)]
pub struct Array {
    pub elements: Vec<Object>,
}

#[derive(Debug, PartialEq)]
pub struct CompiledFunction {
    pub instructions: Instructions,
    pub local_len: usize,
    pub arg_len: usize,
}

#[derive(Debug, PartialEq)]
pub struct ClosureFunction {
    pub fun: CompiledFunction,
    pub free: Vec<Object>,
}

/// A compiled function as a value: its code and its frame sizes.
pub struct FunV {
    pub instructions: Seq<u8>,
    pub local_len: usize,
    pub arg_len: usize,
}

/// A closure as a value.
pub struct ClosureV {
    pub fun: FunV,
    pub free: Seq<ObjectV>,
}

/// A tree-walker function as a value.
pub struct FunctionV {
    pub identifier: Option<Seq<char>>,
    pub args: Seq<Seq<char>>,
    pub block: BlockStatement,
    pub env: Environment<String>,
}

/// An object as a mathematical value.
pub enum ObjectV {
    Return(Option<Box<ObjectV>>),
    Int(i64),
    Bool(bool),
    String(Seq<char>),
    Function(FunctionV),
    CompiledFunction(FunV),
    Array(Seq<ObjectV>),
    Closure(ClosureV),
}

pub open spec fn fun_view(f: CompiledFunction) -> FunV {
    FunV { instructions: f.instructions@, local_len: f.local_len, arg_len: f.arg_len }
}

pub open spec fn function_view(f: Function) -> FunctionV {
    FunctionV {
        identifier: match f.identifier {
            Some(s) => Some(s@),
            None => None,
        },
        args: Seq::new(f.args@.len(), |i: int| f.args@[i].value@),
        block: *f.block,
        env: *f.env,
    }
}

pub open spec fn object_view(o: Object) -> ObjectV
    decreases o,
{
    match o {
        Object::Return(r) => ObjectV::Return(
            match r.value {
                Some(b) => Some(Box::new(object_view(*b))),
                None => None,
            },
        ),
        Object::Int(i) => ObjectV::Int(i.value),
        Object::Bool(b) => ObjectV::Bool(b.value),
        Object::String(s) => ObjectV::String(s.value@),
        Object::Function(f) => ObjectV::Function(function_view(f)),
        Object::CompiledFunction(f) => ObjectV::CompiledFunction(fun_view(f)),
        Object::Array(a) => ObjectV::Array(objects_view(a.elements@)),
        Object::Closure(c) => ObjectV::Closure(ClosureV { fun: fun_view(c.fun), free: objects_view(c.free@) }),
    }
}

pub open spec fn objects_view(s: Seq<Object>) -> Seq<ObjectV>
    decreases s,
{
    Seq::new(
        s.len(),
        |i: int|
            if 0 <= i < s.len() {
                object_view(s[i])
            } else {
                ObjectV::Bool(false)
            },
    )
}

impl View for Object {
    type V = ObjectV;

    open spec fn view(&self) -> ObjectV {
        object_view(*self)
    }
}


impl Identifier {
    /// A copy of the identifier.
    pub fn copy(&self) -> (res: Identifier)
        ensures
            res.value@ == self.value@,
    {
        Identifier { value: self.value.clone() }
    }
}

fn copy_identifiers(v: &Vec<Identifier>) -> (res: Vec<Identifier>)
    ensures
        res@.len() == v@.len(),
        forall|i: int| 0 <= i < v@.len() ==> #[trigger] res@[i].value@ == v@[i].value@,
{
    let mut res: Vec<Identifier> = Vec::new();
    let mut i: usize = 0;
    while i < v.len()
        invariant
            i <= v@.len(),
            res@.len() == i,
            forall|j: int| 0 <= j < i ==> #[trigger] res@[j].value@ == v@[j].value@,
        decreases v@.len() - i,
    {
        res.push(v[i].copy());
        i = i + 1;
    }
    res
}

impl Function {
    /// A copy sharing the body and the captured environment.
    pub fn copy(&self) -> (res: Function)
        ensures
            function_view(res) == function_view(*self),
    {
        let identifier = match &self.identifier {
            Some(s) => Some(s.clone()),
            None => None,
        };
        let args = copy_identifiers(&self.args);
        let res = Function { identifier, args, block: Rc::clone(&self.block), env: Rc::clone(&self.env) };
        assert(function_view(res).args =~= function_view(*self).args);
        res
    }
}

impl Clone for CompiledFunction {
    fn clone(&self) -> (res: Self)
        ensures
            fun_view(res) == fun_view(*self),
    {
        CompiledFunction { instructions: self.instructions.clone(), local_len: self.local_len, arg_len: self.arg_len }
    }
}

fn copy_object(o: &Object) -> (res: Object)
    ensures
        res@ == o@,
    decreases o,
{
    match o {
        Object::Return(r) => {
            let value = match &r.value {
                Some(b) => Some(Box::new(copy_object(b))),
                None => None,
            };
            Object::Return(Return { value })
        },
        Object::Int(i) => Object::Int(*i),
        Object::Bool(b) => Object::Bool(*b),
        Object::String(s) => Object::String(StringObject { value: s.value.clone() }),
        Object::Function(f) => Object::Function(f.copy()),
        Object::CompiledFunction(f) => Object::CompiledFunction(f.clone()),
        Object::Array(a) => Object::Array(Array { elements: copy_objects(&a.elements) }),
        Object::Closure(c) => Object::Closure(ClosureFunction { fun: c.fun.clone(), free: copy_objects(&c.free) }),
    }
}

fn copy_objects(v: &Vec<Object>) -> (res: Vec<Object>)
    ensures
        objects_view(res@) == objects_view(v@),
    decreases v,
{
    let mut res: Vec<Object> = Vec::new();
    let mut i: usize = 0;
    while i < v.len()
        invariant
            i <= v@.len(),
            res@.len() == i,
            forall|j: int| 0 <= j < i ==> object_view(#[trigger] res@[j]) == object_view(v@[j]),
        decreases v@.len() - i,
    {
        proof {
            assert(decreases_to!(v => v@[i as int]));
        }
        let c = copy_object(&v[i]);
        res.push(c);
        i = i + 1;
    }
    assert(objects_view(res@) =~= objects_view(v@));
    res
}

impl Clone for Object {
    fn clone(&self) -> (res: Self)
        ensures
            res@ == self@,
    {
        copy_object(self)
    }
}

impl Clone for ClosureFunction {
    fn clone(&self) -> (res: Self)
        ensures
            fun_view(res.fun) == fun_view(self.fun),
            objects_view(res.free@) == objects_view(self.free@),
    {
        ClosureFunction { fun: self.fun.clone(), free: copy_objects(&self.free) }
    }
}


/// The type that `get_type` reports for an object value; a closure reports
/// the type of compiled functions.
pub open spec fn type_of(o: ObjectV) -> ObjectType {
    match o {
        ObjectV::Return(_) => ObjectType::Return,
        ObjectV::Int(_) => ObjectType::Int,
        ObjectV::Bool(_) => ObjectType::Bool,
        ObjectV::String(_) => ObjectType::String,
        ObjectV::Function(_) => ObjectType::Function,
        ObjectV::CompiledFunction(_) => ObjectType::CompiledFunction,
        ObjectV::Array(_) => ObjectType::Array,
        ObjectV::Closure(_) => ObjectType::CompiledFunction,
    }
}

pub open spec fn closure_view(c: ClosureFunction) -> ClosureV {
    ClosureV { fun: fun_view(c.fun), free: objects_view(c.free@) }
}

pub trait ObjectTrait {
    spec fn spec_type(&self) -> ObjectType;

    fn get_type(&self) -> (res: ObjectType)
        ensures
            res == self.spec_type(),
    ;

    /// A text of the object for listings.
    fn to_str(&self) -> String;
}

impl ObjectTrait for Object {
    open spec fn spec_type(&self) -> ObjectType {
        type_of(self@)
    }

    fn get_type(&self) -> (res: ObjectType) {
        match self {
            Object::Return(x) => x.get_type(),
            Object::Int(x) => x.get_type(),
            Object::Bool(x) => x.get_type(),
            Object::Function(x) => x.get_type(),
            Object::String(x) => x.get_type(),
            Object::Array(x) => x.get_type(),
            Object::CompiledFunction(x) => x.get_type(),
            Object::Closure(x) => x.get_type(),
        }
    }

    fn to_str(&self) -> (res: String)
        ensures
            res@ == object_text(self@),
    {
        let mut buf = String::new();
        push_object_text(&mut buf, self);
        buf
    }
}

impl ObjectTrait for Return {
    open spec fn spec_type(&self) -> ObjectType {
        ObjectType::Return
    }

    fn get_type(&self) -> (res: ObjectType) {
        ObjectType::Return
    }

    fn to_str(&self) -> (res: String)
        ensures
            res@ == object_text(object_view(Object::Return(*self))),
    {
        let mut buf = String::new();
        push_return_text(&mut buf, self);
        buf
    }
}

impl ObjectTrait for Int {
    open spec fn spec_type(&self) -> ObjectType {
        ObjectType::Int
    }

    fn get_type(&self) -> (res: ObjectType) {
        ObjectType::Int
    }

    fn to_str(&self) -> (res: String)
        ensures
            res@ == "Int:"@ + int_text(self.value),
    {
        let mut buf = String::new();
        push_object_text(&mut buf, &Object::Int(*self));
        buf
    }
}

impl ObjectTrait for Bool {
    open spec fn spec_type(&self) -> ObjectType {
        ObjectType::Bool
    }

    fn get_type(&self) -> (res: ObjectType) {
        ObjectType::Bool
    }

    fn to_str(&self) -> (res: String)
        ensures
            res@ == "Bool:"@ + bool_text(self.value),
    {
        let mut buf = String::new();
        push_object_text(&mut buf, &Object::Bool(*self));
        buf
    }
}

impl ObjectTrait for StringObject {
    open spec fn spec_type(&self) -> ObjectType {
        ObjectType::String
    }

    fn get_type(&self) -> (res: ObjectType) {
        ObjectType::String
    }

    fn to_str(&self) -> (res: String)
        ensures
            res@ == "String:"@ + self.value@,
    {
        proof {
            reveal_strlit("String:");
        }
        let mut buf = String::new();
        buf.append("String:");
        buf.append(self.value.as_str());
        buf
    }
}

/// Functions are equal where their names, parameters and bodies are; the
/// environment they were made in is not compared.
impl PartialEq for Function {
    fn eq(&self, other: &Self) -> (res: bool) {
        let same_name = match (&self.identifier, &other.identifier) {
            (Some(a), Some(b)) => *a == *b,
            (None, None) => true,
            _ => false,
        };
        same_name && eq_idents(&self.args, &other.args) && eq_stms(&self.block.statements, &other.block.statements)
    }
}

impl vstd::std_specs::cmp::PartialEqSpecImpl for Function {
    open spec fn obeys_eq_spec() -> bool {
        true
    }

    open spec fn eq_spec(&self, other: &Function) -> bool {
        function_view(*self).identifier == function_view(*other).identifier && same_idents(
            self.args@,
            other.args@,
        ) && same_stms(self.block.statements@, other.block.statements@)
    }
}

impl ObjectTrait for Function {
    open spec fn spec_type(&self) -> ObjectType {
        ObjectType::Function
    }

    fn get_type(&self) -> (res: ObjectType) {
        ObjectType::Function
    }

    fn to_str(&self) -> (res: String)
        ensures
            res@ == function_text(function_view(*self)),
    {
        proof {
            reveal_strlit("fn ");
            reveal_strlit("(");
            reveal_strlit(", ");
            reveal_strlit(") {\n");
            reveal_strlit("}");
        }
        let mut buf = String::new();
        if let Some(id) = &self.identifier {
            buf.append("fn ");
            buf.append(id.as_str());
        }
        buf.append("(");
        let mut i: usize = 0;
        while i < self.args.len()
            invariant
                i <= self.args@.len(),
                buf@ == function_head_part(function_view(*self)) + "("@ + args_text(function_view(*self).args, i as nat),
            decreases self.args@.len() - i,
        {
            if i > 0 {
                buf.append(", ");
            }
            buf.append(self.args[i].value.as_str());
            i = i + 1;
        }
        buf.append(") {\n");
        let ghost head = buf@;
        let block = self.block.to_str();
        buf.append(block.as_str());
        buf.append("}");
        assert(buf@ =~= function_text(function_view(*self)));
        buf
    }
}

impl ObjectTrait for Array {
    open spec fn spec_type(&self) -> ObjectType {
        ObjectType::Array
    }

    fn get_type(&self) -> (res: ObjectType) {
        ObjectType::Array
    }

    fn to_str(&self) -> (res: String)
        ensures
            res@ == "["@ + elems_text(objects_view(self.elements@), self.elements@.len()) + "]"@,
    {
        let mut buf = String::new();
        proof {
            reveal_strlit("[");
            reveal_strlit("]");
        }
        buf.append("[");
        push_elems_text(&mut buf, &self.elements);
        buf.append("]");
        buf
    }
}

impl ObjectTrait for CompiledFunction {
    open spec fn spec_type(&self) -> ObjectType {
        ObjectType::CompiledFunction
    }

    fn get_type(&self) -> (res: ObjectType) {
        ObjectType::CompiledFunction
    }

    fn to_str(&self) -> (res: String)
        ensures
            res@ == fun_text(fun_view(*self)),
    {
        let mut buf = String::new();
        push_fun_text(&mut buf, self);
        buf
    }
}

impl ObjectTrait for ClosureFunction {
    open spec fn spec_type(&self) -> ObjectType {
        ObjectType::CompiledFunction
    }

    fn get_type(&self) -> (res: ObjectType) {
        ObjectType::CompiledFunction
    }

    fn to_str(&self) -> (res: String)
        ensures
            res@ == "Closure\n"@ + ">Free variables\n"@ + frees_text(objects_view(self.free@), self.free@.len())
                + ">Inner Function\n"@ + fun_text(fun_view(self.fun)),
    {
        proof {
            reveal_strlit("Closure\n");
            reveal_strlit(">Free variables\n");
            reveal_strlit(">Inner Function\n");
        }
        let mut buf = String::new();
        buf.append("Closure\n");
        buf.append(">Free variables\n");
        push_frees_text(&mut buf, &self.free);
        buf.append(">Inner Function\n");
        push_fun_text(&mut buf, &self.fun);
        buf
    }
}

/// Whether two objects report the same type.
pub fn is_same_type(left: &Object, right: &Object) -> (res: bool)
    ensures
        res == (type_of(left@) == type_of(right@)),
{
    left.get_type() == right.get_type()
}

/// Text of a boolean.
pub open spec fn bool_text(b: bool) -> Seq<char> {
    if b {
        seq!['t', 'r', 'u', 'e']
    } else {
        seq!['f', 'a', 'l', 's', 'e']
    }
}

/// Text of a compiled function: its frame sizes and the listing of its
/// code, each listing line prefixed.
pub open spec fn fun_text(f: FunV) -> Seq<char> {
    "CompiledFunction\n"@ + ">\tlocal_len="@ + decimal(f.local_len as nat) + ", arg_len="@
        + decimal(f.arg_len as nat) + "\n"@ + ">\tFuntion's Instructions\n"@ + ">\t"@ + pad_lines(
        listing_text(f.instructions, None),
        ">\t"@,
    ) + "\n"@
}

/// Text of an object. A returned value shows the text of what it holds.
pub open spec fn object_text(o: ObjectV) -> Seq<char>
    decreases o, 0nat,
{
    match o {
        ObjectV::Return(r) => "Return { value: "@ + (match r {
            Some(b) => "Some("@ + object_text(*b) + ")"@,
            None => "None"@,
        }) + " }"@,
        ObjectV::Function(f) => function_text(f),
        ObjectV::Int(v) => "Int:"@ + int_text(v),
        ObjectV::Bool(b) => "Bool:"@ + bool_text(b),
        ObjectV::String(s) => "String:"@ + s,
        ObjectV::Array(es) => "["@ + elems_text(es, es.len()) + "]"@,
        ObjectV::CompiledFunction(f) => fun_text(f),
        ObjectV::Closure(c) => "Closure\n"@ + ">Free variables\n"@ + frees_text(c.free, c.free.len())
            + ">Inner Function\n"@ + fun_text(c.fun),
    }
}

/// The texts of the first `n` objects, separated by commas.
pub open spec fn elems_text(es: Seq<ObjectV>, n: nat) -> Seq<char>
    decreases es, n,
{
    if n == 0 || n > es.len() {
        Seq::empty()
    } else if n == 1 {
        object_text(es[0])
    } else {
        elems_text(es, (n - 1) as nat) + ", "@ + object_text(es[n - 1])
    }
}

/// The first `n` free values, one line each: index, arrow, text.
pub open spec fn frees_text(fs: Seq<ObjectV>, n: nat) -> Seq<char>
    decreases fs, n,
{
    if n == 0 || n > fs.len() {
        Seq::empty()
    } else {
        frees_text(fs, (n - 1) as nat) + decimal((n - 1) as nat) + "->"@ + object_text(fs[n - 1]) + "\n"@
    }
}

proof fn reveal_texts() {
    reveal_strlit("Int:");
    reveal_strlit("Bool:");
    reveal_strlit("String:");
    reveal_strlit("[");
    reveal_strlit("]");
    reveal_strlit(", ");
    reveal_strlit("->");
    reveal_strlit("\n");
    reveal_strlit("Return { value: ");
    reveal_strlit("Some(");
    reveal_strlit(")");
    reveal_strlit("None");
    reveal_strlit(" }");
}

fn push_fun_text(buf: &mut String, f: &CompiledFunction)
    ensures
        final(buf)@ == old(buf)@ + fun_text(fun_view(*f)),
{
    buf.append("CompiledFunction\n");
    buf.append(">\tlocal_len=");
    push_decimal(buf, f.local_len);
    buf.append(", arg_len=");
    push_decimal(buf, f.arg_len);
    buf.append("\n");
    buf.append(">\tFuntion's Instructions\n");
    let listing = f.instructions.to_string();
    let padded = add_pad(listing.as_str(), ">\t");
    buf.append(padded.as_str());
    buf.append("\n");
}

/// Append the text of an object.
fn push_object_text(buf: &mut String, o: &Object)
    ensures
        final(buf)@ == old(buf)@ + object_text(o@),
    decreases o, 0nat,
{
    proof {
        reveal_texts();
    }
    match o {
        Object::Return(x) => push_return_text(buf, x),
        Object::Int(x) => {
            buf.append("Int:");
            push_int(buf, x.value);
        },
        Object::Bool(x) => {
            buf.append("Bool:");
            if x.value {
                proof {
                    reveal_strlit("true");
                }
                buf.append("true");
            } else {
                proof {
                    reveal_strlit("false");
                }
                buf.append("false");
            }
        },
        Object::String(x) => {
            buf.append("String:");
            buf.append(x.value.as_str());
        },
        Object::Function(x) => {
            let t = x.to_str();
            buf.append(t.as_str());
        },
        Object::Array(x) => {
            buf.append("[");
            push_elems_text(buf, &x.elements);
            buf.append("]");
        },
        Object::CompiledFunction(x) => push_fun_text(buf, x),
        Object::Closure(x) => {
            buf.append("Closure\n");
            buf.append(">Free variables\n");
            push_frees_text(buf, &x.free);
            buf.append(">Inner Function\n");
            push_fun_text(buf, &x.fun);
        },
    }
}

/// Append the text of a returned value.
fn push_return_text(buf: &mut String, r: &Return)
    ensures
        final(buf)@ == old(buf)@ + object_text(object_view(Object::Return(*r))),
    decreases r, 1nat,
{
    proof {
        reveal_texts();
    }
    let ghost start = buf@;
    buf.append("Return { value: ");
    match &r.value {
        Some(b) => {
            buf.append("Some(");
            push_object_text(buf, b);
            buf.append(")");
        },
        None => buf.append("None"),
    }
    buf.append(" }");
    assert(buf@ =~= start + object_text(object_view(Object::Return(*r))));
}

fn push_elems_text(buf: &mut String, es: &Vec<Object>)
    ensures
        final(buf)@ == old(buf)@ + elems_text(objects_view(es@), es@.len()),
    decreases es, 1nat,
{
    let ghost v = objects_view(es@);
    let mut i: usize = 0;
    while i < es.len()
        invariant
            i <= es@.len(),
            v == objects_view(es@),
            buf@ == old(buf)@ + elems_text(v, i as nat),
        decreases es@.len() - i,
    {
        proof {
            reveal_texts();
            assert(decreases_to!(es => es@[i as int]));
        }
        if i > 0 {
            buf.append(", ");
        }
        push_object_text(buf, &es[i]);
        i = i + 1;
    }
}

fn push_frees_text(buf: &mut String, fs: &Vec<Object>)
    ensures
        final(buf)@ == old(buf)@ + frees_text(objects_view(fs@), fs@.len()),
    decreases fs, 1nat,
{
    let ghost v = objects_view(fs@);
    let mut i: usize = 0;
    while i < fs.len()
        invariant
            i <= fs@.len(),
            v == objects_view(fs@),
            buf@ == old(buf)@ + frees_text(v, i as nat),
        decreases fs@.len() - i,
    {
        proof {
            reveal_texts();
            assert(decreases_to!(fs => fs@[i as int]));
        }
        push_decimal(buf, i);
        buf.append("->");
        push_object_text(buf, &fs[i]);
        buf.append("\n");
        i = i + 1;
    }
}

/// `fn` and the name of a named function.
pub open spec fn function_head_part(f: FunctionV) -> Seq<char> {
    match f.identifier {
        Some(id) => "fn "@ + id,
        None => Seq::empty(),
    }
}

/// The first `n` argument names, separated by commas.
pub open spec fn args_text(args: Seq<Seq<char>>, n: nat) -> Seq<char>
    decreases n,
{
    if n == 0 || n > args.len() {
        Seq::empty()
    } else if n == 1 {
        args[0]
    } else {
        args_text(args, (n - 1) as nat) + ", "@ + args[n - 1]
    }
}

/// The text of a function up to its body: name, arguments and the opening
/// brace.
pub open spec fn function_head(f: FunctionV) -> Seq<char> {
    function_head_part(f) + "("@ + args_text(f.args, f.args.len()) + ") {\n"@
}

/// The text of a function: its head, the text of its body and the closing
/// brace.
pub open spec fn function_text(f: FunctionV) -> Seq<char> {
    function_head(f) + stms_text(f.block.statements@) + "}"@
}

} // verus!
