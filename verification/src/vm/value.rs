//! Values of the language as the compiler and the runtime hold them.

use vstd::prelude::*;
use crate::compiler::bytecode::FunctionChunk;
use crate::lexer::chars::str_chars;
use crate::text::{i64_text, int_decimal};

verus! {

/// A value of the language.
///
/// A floating-point constant is held as the text of its literal (digits, a
/// dot, digits): the runtime converts it to a machine float.
pub enum Value {
    Null,
    Int(i64),
    Float(String),
    Bool(bool),
    Str(String),
    List(Vec<Value>),
    /// The entries of a map, in insertion order; a well-formed value binds
    /// each key once (`Value::wf`).
    Dict(Vec<(String, Value)>),
    Range { start: i64, end: i64 },
    Error(String),
    Function(Box<FunctionChunk>),
    Class { name: String, fields: Vec<String> },
}

/// Whether every digit of a number literal is `0`: the literal denotes zero.
pub open spec fn all_zero_digits(t: Seq<char>) -> bool {
    forall|i: int| 0 <= i < t.len() ==> (t[i] == '0' || t[i] == '.')
}

/// The truth of a value in a condition: `null`, `false`, zero and the empty
/// string are false; everything else is true.
pub open spec fn value_truthy(v: Value) -> bool {
    match v {
        Value::Null => false,
        Value::Bool(b) => b,
        Value::Int(n) => n != 0,
        Value::Float(t) => !all_zero_digits(t@),
        Value::Str(s) => s@.len() > 0,
        _ => true,
    }
}

/// The name of a value's type, as shown to users.
pub open spec fn value_kind_name(v: Value) -> Seq<char> {
    match v {
        Value::Null => "null"@,
        Value::Int(_) => "int"@,
        Value::Float(_) => "float"@,
        Value::Bool(_) => "bool"@,
        Value::Str(_) => "str"@,
        Value::List(_) => "list"@,
        Value::Dict(_) => "map"@,
        Value::Range { .. } => "range"@,
        Value::Error(_) => "error"@,
        Value::Function(_) => "function"@,
        Value::Class { .. } => "class"@,
    }
}

/// The text of a value, as `print` shows it.
///
/// A list shows its items between brackets, a map its entries as `key: value`
/// between braces, both separated by `, `.
pub open spec fn value_text(v: Value) -> Seq<char>
    decreases v,
{
    match v {
        Value::Null => "null"@,
        Value::Int(n) => int_decimal(n as int),
        Value::Float(t) => t@,
        Value::Bool(b) => if b { "true"@ } else { "false"@ },
        Value::Str(s) => s@,
        Value::List(items) => "["@ + list_text(items@) + "]"@,
        Value::Dict(entries) => "{"@ + entries_text(entries@) + "}"@,
        Value::Range { start, end } => "range("@ + int_decimal(start as int) + ", "@ + int_decimal(end as int) + ")"@,
        Value::Error(m) => "error("@ + m@ + ")"@,
        Value::Function(chunk) => "<fn "@ + chunk.name@ + ">"@,
        Value::Class { name, .. } => "<class "@ + name@ + ">"@,
    }
}

/// The texts of `vs`, separated by `, `.
pub open spec fn list_text(vs: Seq<Value>) -> Seq<char>
    decreases vs,
{
    if vs.len() == 0 {
        seq![]
    } else if vs.len() == 1 {
        value_text(vs[0])
    } else {
        list_text(vs.drop_last()) + ", "@ + value_text(vs.last())
    }
}

/// The entries of a map as `key: value`, separated by `, `.
pub open spec fn entries_text(es: Seq<(String, Value)>) -> Seq<char>
    decreases es,
{
    if es.len() == 0 {
        seq![]
    } else if es.len() == 1 {
        es[0].0@ + ": "@ + value_text(es[0].1)
    } else {
        entries_text(es.drop_last()) + ", "@ + es.last().0@ + ": "@ + value_text(es.last().1)
    }
}

impl Value {
    pub fn is_null(&self) -> (r: bool)
        ensures
            r == (*self is Null),
    {
        match self {
            Value::Null => true,
            _ => false,
        }
    }

    pub fn is_truthy(&self) -> (r: bool)
        ensures
            r == value_truthy(*self),
    {
        match self {
            Value::Null => false,
            Value::Bool(b) => *b,
            Value::Int(n) => *n != 0,
            Value::Float(t) => !zero_literal(t.as_str()),
            Value::Str(s) => !s.as_str().is_empty(),
            _ => true,
        }
    }

    /// The text of the value, as `print` shows it.
    pub fn stringify(&self) -> (r: String)
        ensures
            r@ == value_text(*self),
        decreases self,
    {
        match self {
            Value::Null => "null".to_owned(),
            Value::Int(n) => i64_text(*n),
            Value::Float(t) => t.clone(),
            Value::Bool(b) => if *b { "true".to_owned() } else { "false".to_owned() },
            Value::Str(t) => t.clone(),
            Value::List(items) => {
                let mut out = "[".to_owned();
                let mut i: usize = 0;
                while i < items.len()
                    invariant
                        i <= items@.len(),
                        out@ == "["@ + list_text(items@.take(i as int)),
                        decreases_to!(self => items),
                    decreases items@.len() - i,
                {
                    proof {
                        assert(decreases_to!(items => items@[i as int]));
                    }
                    let t = items[i].stringify();
                    if i > 0 {
                        out.append(", ");
                    }
                    out.append(t.as_str());
                    proof {
                        let s = items@.take(i as int + 1);
                        assert(s.drop_last() =~= items@.take(i as int));
                        if i == 0 {
                            assert(list_text(items@.take(0)) =~= Seq::<char>::empty());
                        }
                        assert(out@ =~= "["@ + list_text(s));
                    }
                    i = i + 1;
                }
                out.append("]");
                assert(items@.take(items@.len() as int) =~= items@);
                out
            },
            Value::Dict(entries) => {
                let mut out = "{".to_owned();
                let mut i: usize = 0;
                while i < entries.len()
                    invariant
                        i <= entries@.len(),
                        out@ == "{"@ + entries_text(entries@.take(i as int)),
                        decreases_to!(self => entries),
                    decreases entries@.len() - i,
                {
                    proof {
                        assert(decreases_to!(entries => entries@[i as int]));
                        assert(decreases_to!(entries@[i as int] => entries@[i as int].1));
                    }
                    let t = entries[i].1.stringify();
                    if i > 0 {
                        out.append(", ");
                    }
                    out.append(entries[i].0.as_str());
                    out.append(": ");
                    out.append(t.as_str());
                    proof {
                        let s = entries@.take(i as int + 1);
                        assert(s.drop_last() =~= entries@.take(i as int));
                        if i == 0 {
                            assert(entries_text(entries@.take(0)) =~= Seq::<char>::empty());
                        }
                        assert(out@ =~= "{"@ + entries_text(s));
                    }
                    i = i + 1;
                }
                out.append("}");
                assert(entries@.take(entries@.len() as int) =~= entries@);
                out
            },
            Value::Range { start, end } => {
                let mut out = "range(".to_owned();
                out.append(i64_text(*start).as_str());
                out.append(", ");
                out.append(i64_text(*end).as_str());
                out.append(")");
                out
            },
            Value::Error(m) => {
                let mut out = "error(".to_owned();
                out.append(m.as_str());
                out.append(")");
                out
            },
            Value::Function(chunk) => {
                let mut out = "<fn ".to_owned();
                out.append(chunk.name.as_str());
                out.append(">");
                out
            },
            Value::Class { name, .. } => {
                let mut out = "<class ".to_owned();
                out.append(name.as_str());
                out.append(">");
                out
            },
        }
    }

    pub fn kind_name(&self) -> (r: &'static str)
        ensures
            r@ == value_kind_name(*self),
    {
        match self {
            Value::Null => "null",
            Value::Int(_) => "int",
            Value::Float(_) => "float",
            Value::Bool(_) => "bool",
            Value::Str(_) => "str",
            Value::List(_) => "list",
            Value::Dict(_) => "map",
            Value::Range { .. } => "range",
            Value::Error(_) => "error",
            Value::Function(_) => "function",
            Value::Class { .. } => "class",
        }
    }
}

/// Whether a number literal denotes zero.
fn zero_literal(t: &str) -> (r: bool)
    ensures
        r == all_zero_digits(t@),
{
    let cs = str_chars(t);
    let mut i: usize = 0;
    while i < cs.len()
        invariant
            cs@ == t@,
            i <= cs@.len(),
            forall|j: int| 0 <= j < i ==> (cs@[j] == '0' || cs@[j] == '.'),
        decreases cs@.len() - i,
    {
        if cs[i] != '0' && cs[i] != '.' {
            return false;
        }
        i = i + 1;
    }
    true
}

/// The layout of an object: its slots by property name, and the layouts
/// reached by adding one more property.
pub struct Shape {
    pub id: u32,
    pub properties: Vec<(String, u32)>,
    pub transitions: Vec<(String, Box<Shape>)>,
}

impl Shape {
    /// A layout with no properties.
    pub fn new(id: u32) -> (r: Shape)
        ensures
            r.id == id,
            r.properties@.len() == 0,
            r.transitions@.len() == 0,
    {
        Shape { id, properties: Vec::new(), transitions: Vec::new() }
    }
}

/// An object: its layout and its slot values.
pub struct Object {
    pub shape: Box<Shape>,
    pub slots: Vec<Value>,
}

/// What a property-access site has learned about the layouts it meets.
pub struct InlineCache {
    pub shape_id: u32,
    pub slot: u32,
    pub state: CacheState,
}

#[derive(PartialEq, Eq, Structural)]
pub enum CacheState {
    Uninitialized,
    Monomorphic,
    Polymorphic,
    Megamorphic,
}

} // verus!
