//! A small model of the JavaScript syntax that the transform reads and writes.
//!
//! Only the shapes the transform inspects are spelled out. Every other node
//! is `Opaque`: the host that built the model keeps the node and identifies it
//! by a handle, so that the library can carry it through unchanged.
use vstd::prelude::*;

verus! {

/// An expression.
#[derive(Debug)]
pub enum Expr {
    /// An identifier reference, such as `id` or `undefined`.
    Ident(String),
    /// A string literal.
    Str(String),
    /// An integer-valued numeric literal.
    Num(u64),
    /// A member access `obj.prop`.
    Member(MemberExpr),
    /// An object literal `{ ... }` with its properties in source order.
    Object(Vec<Prop>),
    /// Any other expression, held by the host under this handle.
    Opaque(u64),
}

/// A member access `obj.prop`.
#[derive(Debug)]
pub struct MemberExpr {
    pub obj: Box<Expr>,
    pub prop: MemberProp,
}

/// The property part of a member access.
#[derive(Debug)]
pub enum MemberProp {
    /// A plain identifier: `a.name`.
    Ident(String),
    /// A computed or private property (`a[k]`, `a.#p`), held by the host.
    Opaque(u64),
}

/// One entry of an object literal.
#[derive(Debug)]
pub enum Prop {
    /// `key: value` where `key` is a plain identifier.
    KeyValue(String, Expr),
    /// Any other entry (a spread, a shorthand, a method, a quoted key), held
    /// by the host.
    Opaque(u64),
}

/// One argument of a call: `expr`, or `...expr` when `spread` is set.
#[derive(Debug)]
pub struct Arg {
    pub spread: bool,
    pub expr: Expr,
}

/// What is being called.
#[derive(Debug)]
pub enum Callee {
    /// An ordinary expression.
    Expr(Expr),
    /// `super(...)` or `import(...)`.
    Opaque(u64),
}

/// A call expression `callee(args...)`.
#[derive(Debug)]
pub struct CallExpr {
    pub callee: Callee,
    pub args: Vec<Arg>,
}

/// A top-level item of a module.
#[derive(Debug)]
pub enum ModuleItem {
    /// An expression statement whose expression is a string literal.
    StrStmt(String),
    /// Any other item.
    Opaque(u64),
}

/// A module with its top-level items in source order.
#[derive(Debug)]
pub struct Module {
    pub body: Vec<ModuleItem>,
}

/// A parsed program: a module or a script.
#[derive(Debug)]
pub enum Program {
    Module(Module),
    Script,
}

/// The property `p` is `key: value` with this key.
pub open spec fn has_key(p: Prop, key: Seq<char>) -> bool {
    match p {
        Prop::KeyValue(k, _) => k@ == key,
        Prop::Opaque(_) => false,
    }
}

/// `i` is the position of the first property of `props` keyed `key`.
pub open spec fn is_first_key(props: Seq<Prop>, key: Seq<char>, i: int) -> bool {
    &&& 0 <= i < props.len()
    &&& has_key(props[i], key)
    &&& forall|j: int| 0 <= j < i ==> !has_key(#[trigger] props[j], key)
}

/// The position of the first property of `props` keyed `key`, if any.
pub open spec fn first_key(props: Seq<Prop>, key: Seq<char>) -> Option<int> {
    if exists|i: int| is_first_key(props, key, i) {
        Some(choose|i: int| is_first_key(props, key, i))
    } else {
        None
    }
}

/// There is only one first position.
pub proof fn lemma_first_key_unique(props: Seq<Prop>, key: Seq<char>, i: int)
    requires
        is_first_key(props, key, i),
    ensures
        first_key(props, key) == Some(i),
{
    let c = choose|c: int| is_first_key(props, key, c);
    assert(is_first_key(props, key, c));
    if c < i {
        assert(!has_key(props[c], key));
    } else if i < c {
        assert(!has_key(props[i], key));
    }
}

/// With no property keyed `key`, there is no first one.
pub proof fn lemma_first_key_none(props: Seq<Prop>, key: Seq<char>)
    requires
        forall|j: int| 0 <= j < props.len() ==> !has_key(#[trigger] props[j], key),
    ensures
        first_key(props, key) is None,
{
    if exists|i: int| is_first_key(props, key, i) {
        let c = choose|c: int| is_first_key(props, key, c);
        assert(has_key(props[c], key));
    }
}

/// Returns the position of the first property of `props` keyed `key`.
pub fn find_key(props: &Vec<Prop>, key: &String) -> (r: Option<usize>)
    ensures
        match r {
            Some(i) => first_key(props@, key@) == Some(i as int),
            None => first_key(props@, key@) is None,
        },
{
    let mut i: usize = 0;
    while i < props.len()
        invariant
            i <= props@.len(),
            forall|j: int| 0 <= j < i ==> !has_key(#[trigger] props@[j], key@),
        decreases props@.len() - i,
    {
        let hit = match &props[i] {
            Prop::KeyValue(k, _) => *k == *key,
            Prop::Opaque(_) => false,
        };
        if hit {
            proof {
                lemma_first_key_unique(props@, key@, i as int);
            }
            return Some(i);
        }
        i = i + 1;
    }
    proof {
        lemma_first_key_none(props@, key@);
    }
    None
}

} // verus!
