use vstd::prelude::*;

verus! {

/// A static type of the language.
#[derive(Debug, PartialEq)]
pub enum Type {
    Int,
    Float,
    Str,
    Bool,
    Null,
    List(Box<Type>),
    Dict(Box<Type>, Box<Type>),
    Struct(String),
    Fn(Vec<Type>, Box<Type>),
    Error(Box<Type>),
    Union(Vec<Type>),
    Unknown,
    Any,
}

/// The mathematical value of a [`Type`].
pub enum SpecType {
    Int,
    Float,
    Str,
    Bool,
    Null,
    List(Box<SpecType>),
    Dict(Box<SpecType>, Box<SpecType>),
    Struct(Seq<char>),
    Fn(Seq<SpecType>, Box<SpecType>),
    Error(Box<SpecType>),
    Union(Seq<SpecType>),
    Unknown,
    Any,
}

pub open spec fn view_types(ts: Seq<Type>) -> Seq<SpecType>
    decreases ts,
{
    if ts.len() == 0 {
        seq![]
    } else {
        view_types(ts.drop_last()).push(view_type(ts.last()))
    }
}

pub open spec fn view_type(t: Type) -> SpecType
    decreases t,
{
    match t {
        Type::Int => SpecType::Int,
        Type::Float => SpecType::Float,
        Type::Str => SpecType::Str,
        Type::Bool => SpecType::Bool,
        Type::Null => SpecType::Null,
        Type::List(a) => SpecType::List(Box::new(view_type(*a))),
        Type::Dict(k, v) => SpecType::Dict(Box::new(view_type(*k)), Box::new(view_type(*v))),
        Type::Struct(s) => SpecType::Struct(s@),
        Type::Fn(ps, r) => SpecType::Fn(view_types(ps@), Box::new(view_type(*r))),
        Type::Error(a) => SpecType::Error(Box::new(view_type(*a))),
        Type::Union(ts) => SpecType::Union(view_types(ts@)),
        Type::Unknown => SpecType::Unknown,
        Type::Any => SpecType::Any,
    }
}


impl View for Type {
    type V = SpecType;

    open spec fn view(&self) -> SpecType {
        view_type(*self)
    }
}

pub proof fn lemma_view_types(ts: Seq<Type>)
    ensures
        view_types(ts).len() == ts.len(),
        forall|i: int| 0 <= i < ts.len() ==> #[trigger] view_types(ts)[i] == view_type(ts[i]),
    decreases ts.len(),
{
    if ts.len() > 0 {
        lemma_view_types(ts.drop_last());
        assert forall|i: int| 0 <= i < ts.len() implies #[trigger] view_types(ts)[i] == view_type(
            ts[i],
        ) by {
            if i < ts.len() - 1 {
                assert(ts.drop_last()[i] == ts[i]);
            }
        }
    }
}

/// Two lists of types with the same views, element by element, have the same view.
pub proof fn lemma_view_types_ext(a: Seq<Type>, b: Seq<Type>)
    requires
        a.len() == b.len(),
        forall|i: int| 0 <= i < a.len() ==> view_type(#[trigger] a[i]) == view_type(b[i]),
    ensures
        view_types(a) == view_types(b),
{
    lemma_view_types(a);
    lemma_view_types(b);
    assert(view_types(a) =~= view_types(b));
}

impl Type {
    /// A copy of the type.
    pub fn dup(&self) -> (r: Type)
        ensures
            r@ == self@,
        decreases self,
    {
        match self {
            Type::Int => Type::Int,
            Type::Float => Type::Float,
            Type::Str => Type::Str,
            Type::Bool => Type::Bool,
            Type::Null => Type::Null,
            Type::List(a) => Type::List(Box::new(a.dup())),
            Type::Dict(k, v) => Type::Dict(Box::new(k.dup()), Box::new(v.dup())),
            Type::Struct(s) => Type::Struct(s.clone()),
            Type::Fn(ps, r) => Type::Fn(dup_types(ps), Box::new(r.dup())),
            Type::Error(a) => Type::Error(Box::new(a.dup())),
            Type::Union(ts) => Type::Union(dup_types(ts)),
            Type::Unknown => Type::Unknown,
            Type::Any => Type::Any,
        }
    }

    /// Whether a value of type `self` may be used where `other` is expected.
    #[verifier::loop_isolation(false)]
    pub fn is_assignable_to(&self, other: &Type) -> (r: bool)
        ensures
            r == assignable(self@, other@),
        decreases self, other,
    {
        if other.is_any() || types_eq(self, other) {
            return true;
        }
        match self {
            Type::Int => {
                if let Type::Float = other {
                    return true;
                }
            },
            Type::Union(vs) => {
                let mut i: usize = 0;
                let mut found = false;
                proof {
                    lemma_view_types(vs@);
                }
                while i < vs.len()
                    invariant
                        i <= vs@.len(),
                        view_types(vs@).len() == vs@.len(),
                        forall|j: int| 0 <= j < vs@.len() ==> #[trigger] view_types(vs@)[j] == view_type(vs@[j]),
                        found == any_left(view_types(vs@).take(i as int), other@),
                    decreases vs@.len() - i,
                {
                    let ghost s = view_types(vs@);
                    assert(s.take(i + 1).drop_last() =~= s.take(i as int));
                    proof {
                        assert(decreases_to!(self => vs));
                    }
                    let b = vs[i].is_assignable_to(other);
                    found = found || b;
                    i = i + 1;
                }
                assert(view_types(vs@).take(vs@.len() as int) =~= view_types(vs@));
                return found;
            },
            _ => {},
        }
        match other {
            Type::Union(ws) => {
                let mut i: usize = 0;
                let mut found = false;
                proof {
                    lemma_view_types(ws@);
                }
                while i < ws.len()
                    invariant
                        i <= ws@.len(),
                        view_types(ws@).len() == ws@.len(),
                        forall|j: int| 0 <= j < ws@.len() ==> #[trigger] view_types(ws@)[j] == view_type(ws@[j]),
                        found == any_right(self@, view_types(ws@).take(i as int)),
                    decreases ws@.len() - i,
                {
                    let ghost s = view_types(ws@);
                    assert(s.take(i + 1).drop_last() =~= s.take(i as int));
                    proof {
                        assert(decreases_to!(other => ws));
                    }
                    let b = self.is_assignable_to(&ws[i]);
                    found = found || b;
                    i = i + 1;
                }
                assert(view_types(ws@).take(ws@.len() as int) =~= view_types(ws@));
                found
            },
            _ => false,
        }
    }

    pub fn is_any(&self) -> (r: bool)
        ensures
            r == (self@ is Any),
    {
        match self {
            Type::Any => true,
            _ => false,
        }
    }
}

pub fn dup_types(ts: &Vec<Type>) -> (r: Vec<Type>)
    ensures
        view_types(r@) == view_types(ts@),
        r@.len() == ts@.len(),
    decreases ts,
{
    let mut out: Vec<Type> = Vec::new();
    let mut i: usize = 0;
    while i < ts.len()
        invariant
            i <= ts@.len(),
            out@.len() == i,
            forall|j: int| 0 <= j < i ==> view_type(#[trigger] out@[j]) == view_type(ts@[j]),
        decreases ts@.len() - i,
    {
        let t = ts[i].dup();
        out.push(t);
        i = i + 1;
    }
    proof {
        lemma_view_types_ext(out@, ts@);
    }
    out
}

/// Structural equality of types.
pub fn types_eq(a: &Type, b: &Type) -> (r: bool)
    ensures
        r == (a@ == b@),
    decreases a,
{
    match a {
        Type::Int => match b { Type::Int => true, _ => false },
        Type::Float => match b { Type::Float => true, _ => false },
        Type::Str => match b { Type::Str => true, _ => false },
        Type::Bool => match b { Type::Bool => true, _ => false },
        Type::Null => match b { Type::Null => true, _ => false },
        Type::List(x) => match b {
            Type::List(y) => types_eq(x, y),
            _ => false,
        },
        Type::Dict(k1, v1) => match b {
            Type::Dict(k2, v2) => types_eq(k1, k2) && types_eq(v1, v2),
            _ => false,
        },
        Type::Struct(s) => match b {
            Type::Struct(t) => *s == *t,
            _ => false,
        },
        Type::Fn(p1, r1) => match b {
            Type::Fn(p2, r2) => types_list_eq(p1, p2) && types_eq(r1, r2),
            _ => false,
        },
        Type::Error(x) => match b {
            Type::Error(y) => types_eq(x, y),
            _ => false,
        },
        Type::Union(x) => match b {
            Type::Union(y) => types_list_eq(x, y),
            _ => false,
        },
        Type::Unknown => match b { Type::Unknown => true, _ => false },
        Type::Any => match b { Type::Any => true, _ => false },
    }
}

pub fn types_list_eq(a: &Vec<Type>, b: &Vec<Type>) -> (r: bool)
    ensures
        r == (view_types(a@) == view_types(b@)),
    decreases a,
{
    proof {
        lemma_view_types(a@);
        lemma_view_types(b@);
    }
    if a.len() != b.len() {
        return false;
    }
    let mut i: usize = 0;
    while i < a.len()
        invariant
            a@.len() == b@.len(),
            i <= a@.len(),
            view_types(a@).len() == a@.len(),
            view_types(b@).len() == b@.len(),
            forall|j: int| 0 <= j < a@.len() ==> #[trigger] view_types(a@)[j] == view_type(a@[j]),
            forall|j: int| 0 <= j < b@.len() ==> #[trigger] view_types(b@)[j] == view_type(b@[j]),
            forall|j: int| 0 <= j < i ==> view_type(#[trigger] a@[j]) == view_type(b@[j]),
        decreases a@.len() - i,
    {
        if !types_eq(&a[i], &b[i]) {
            assert(view_types(a@)[i as int] != view_types(b@)[i as int]);
            return false;
        }
        i = i + 1;
    }
    proof {
        lemma_view_types_ext(a@, b@);
    }
    true
}

/// Whether a value of type `a` may be used where `b` is expected: everything
/// fits `any`, a type fits itself, `int` fits `float`, a union fits when one of
/// its members does, and a type fits a union when it fits one of its members.
pub open spec fn assignable(a: SpecType, b: SpecType) -> bool
    decreases a, b,
{
    if b is Any || a == b {
        true
    } else if a is Int && b is Float {
        true
    } else if a is Union {
        any_left(a->Union_0, b)
    } else if b is Union {
        any_right(a, b->Union_0)
    } else {
        false
    }
}

/// Some member of `vs` fits `b`.
pub open spec fn any_left(vs: Seq<SpecType>, b: SpecType) -> bool
    decreases vs, b,
{
    if vs.len() == 0 {
        false
    } else {
        any_left(vs.drop_last(), b) || assignable(vs.last(), b)
    }
}

/// `a` fits some member of `ws`.
pub open spec fn any_right(a: SpecType, ws: Seq<SpecType>) -> bool
    decreases a, ws,
{
    if ws.len() == 0 {
        false
    } else {
        any_right(a, ws.drop_last()) || assignable(a, ws.last())
    }
}


/// The text of a type, as written in annotations and diagnostics.
pub open spec fn render(t: SpecType) -> Seq<char>
    decreases t,
{
    match t {
        SpecType::Int => "int"@,
        SpecType::Float => "float"@,
        SpecType::Str => "str"@,
        SpecType::Bool => "bool"@,
        SpecType::Null => "null"@,
        SpecType::List(a) => "["@ + render(*a) + "]"@,
        SpecType::Dict(k, v) => "{"@ + render(*k) + ": "@ + render(*v) + "}"@,
        SpecType::Struct(n) => n,
        SpecType::Fn(ps, r) => "fn("@ + render_list(ps, ", "@) + ") -> "@ + render(*r),
        SpecType::Error(a) => "error<"@ + render(*a) + ">"@,
        SpecType::Union(ts) => render_list(ts, " | "@),
        SpecType::Unknown => "unknown"@,
        SpecType::Any => "any"@,
    }
}

/// The texts of `ts` separated by `sep`.
pub open spec fn render_list(ts: Seq<SpecType>, sep: Seq<char>) -> Seq<char>
    decreases ts,
{
    if ts.len() == 0 {
        seq![]
    } else if ts.len() == 1 {
        render(ts[0])
    } else {
        render_list(ts.drop_last(), sep) + sep + render(ts.last())
    }
}

impl Type {
    /// The text of the type, as written in annotations and diagnostics.
    pub fn to_text(&self) -> (r: String)
        ensures
            r@ == render(self@),
        decreases self,
    {
        let mut out = String::new();
        match self {
            Type::Int => out.append("int"),
            Type::Float => out.append("float"),
            Type::Str => out.append("str"),
            Type::Bool => out.append("bool"),
            Type::Null => out.append("null"),
            Type::List(a) => {
                out.append("[");
                out.append(a.to_text().as_str());
                out.append("]");
            },
            Type::Dict(k, v) => {
                out.append("{");
                out.append(k.to_text().as_str());
                out.append(": ");
                out.append(v.to_text().as_str());
                out.append("}");
            },
            Type::Struct(n) => out.append(n.as_str()),
            Type::Fn(ps, r) => {
                out.append("fn(");
                out.append(list_text(ps, ", ").as_str());
                out.append(") -> ");
                out.append(r.to_text().as_str());
            },
            Type::Error(a) => {
                out.append("error<");
                out.append(a.to_text().as_str());
                out.append(">");
            },
            Type::Union(ts) => out.append(list_text(ts, " | ").as_str()),
            Type::Unknown => out.append("unknown"),
            Type::Any => out.append("any"),
        }
        assert(out@ =~= render(self@));
        out
    }
}

/// The texts of the types in `ts`, separated by `sep`.
pub fn list_text(ts: &Vec<Type>, sep: &str) -> (r: String)
    ensures
        r@ == render_list(view_types(ts@), sep@),
    decreases ts,
{
    proof {
        lemma_view_types(ts@);
    }
    let mut out = String::new();
    let mut i: usize = 0;
    assert(out@ =~= render_list(view_types(ts@).take(0), sep@));
    while i < ts.len()
        invariant
            i <= ts@.len(),
            view_types(ts@).len() == ts@.len(),
            forall|j: int| 0 <= j < ts@.len() ==> #[trigger] view_types(ts@)[j] == view_type(ts@[j]),
            out@ == render_list(view_types(ts@).take(i as int), sep@),
            decreases_to!(ts => ts@),
        decreases ts@.len() - i,
    {
        let ghost s = view_types(ts@);
        assert(s.take(i + 1).drop_last() =~= s.take(i as int));
        assert(s.take(i + 1).last() == s[i as int]);
        proof {
            assert(decreases_to!(ts@ => ts@[i as int]));
        }
        if i > 0 {
            out.append(sep);
        } else {
            assert(s.take(1)[0] == s[0]);
        }
        out.append(ts[i].to_text().as_str());
        i = i + 1;
    }
    assert(view_types(ts@).take(ts@.len() as int) =~= view_types(ts@));
    out
}

} // verus!
