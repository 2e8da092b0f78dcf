//! Recognising RPC terminal calls by the shape of their callee.
use vstd::prelude::*;
use crate::ast::{Callee, Expr, MemberExpr, MemberProp};

verus! {

/// Where a terminal method takes its options object.
#[derive(Clone, Copy, Debug, PartialEq, Eq, Structural)]
pub enum MethodType {
    /// `(input, options)`: options come second.
    Query,
    /// `(options)`: options come first.
    Mutation,
}

/// The terminal methods that take `(input, options)`.
pub open spec fn is_query_name(s: Seq<char>) -> bool {
    ||| s == "query"@
    ||| s == "useQuery"@
    ||| s == "useSuspenseQuery"@
    ||| s == "useSuspenseInfiniteQuery"@
    ||| s == "useInfiniteQuery"@
    ||| s == "prefetch"@
    ||| s == "fetchQuery"@
    ||| s == "fetchInfiniteQuery"@
    ||| s == "prefetchQuery"@
    ||| s == "prefetchInfiniteQuery"@
    ||| s == "ensureQueryData"@
}

/// The terminal methods that take `(options)`.
pub open spec fn is_mutation_name(s: Seq<char>) -> bool {
    s == "mutation"@ || s == "useMutation"@
}

/// The shape of the terminal method named `s`, if it is one.
pub open spec fn classify_spec(s: Seq<char>) -> Option<MethodType> {
    if is_query_name(s) {
        Some(MethodType::Query)
    } else if is_mutation_name(s) {
        Some(MethodType::Mutation)
    } else {
        None
    }
}

/// The shape of a call with this callee: the callee is a member access
/// `obj.name` whose object is itself a member access and whose property is a
/// plain identifier naming a terminal method.
pub open spec fn detect_spec(c: Callee) -> Option<MethodType> {
    match c {
        Callee::Expr(Expr::Member(m)) => match (*m.obj, m.prop) {
            (Expr::Member(_), MemberProp::Ident(name)) => classify_spec(name@),
            _ => None,
        },
        _ => None,
    }
}

/// Tells whether two strings hold the same characters.
pub fn str_eq(a: &str, b: &str) -> (r: bool)
    ensures
        r == (a@ == b@),
{
    let n = a.unicode_len();
    if n != b.unicode_len() {
        return false;
    }
    let mut i: usize = 0;
    while i < n
        invariant
            n == a@.len(),
            n == b@.len(),
            i <= n,
            forall|j: int| 0 <= j < i ==> a@[j] == b@[j],
        decreases n - i,
    {
        if a.get_char(i) != b.get_char(i) {
            return false;
        }
        i = i + 1;
    }
    assert(a@ =~= b@);
    true
}

/// The shape of the terminal method named `name`, if it is one.
pub fn classify(name: &str) -> (r: Option<MethodType>)
    ensures
        r == classify_spec(name@),
{
    if str_eq(name, "query") || str_eq(name, "useQuery") || str_eq(name, "useSuspenseQuery")
        || str_eq(name, "useSuspenseInfiniteQuery") || str_eq(name, "useInfiniteQuery")
        || str_eq(name, "prefetch") || str_eq(name, "fetchQuery")
        || str_eq(name, "fetchInfiniteQuery") || str_eq(name, "prefetchQuery")
        || str_eq(name, "prefetchInfiniteQuery") || str_eq(name, "ensureQueryData") {
        Some(MethodType::Query)
    } else if str_eq(name, "mutation") || str_eq(name, "useMutation") {
        Some(MethodType::Mutation)
    } else {
        None
    }
}

/// The shape of the terminal method that a member access names by a plain
/// identifier, if it is one.
pub fn get_method_type(expr: &MemberExpr) -> (r: Option<MethodType>)
    ensures
        r == match expr.prop {
            MemberProp::Ident(name) => classify_spec(name@),
            MemberProp::Opaque(_) => None,
        },
{
    match &expr.prop {
        MemberProp::Ident(name) => classify(name.as_str()),
        MemberProp::Opaque(_) => None,
    }
}

/// The shape of the RPC call with this callee, or `None` where the callee is
/// not a chain of two or more member accesses ending in a terminal method.
pub fn get_trpc_method_type(callee: &Callee) -> (r: Option<MethodType>)
    ensures
        r == detect_spec(*callee),
{
    let member = match callee {
        Callee::Expr(Expr::Member(m)) => m,
        _ => return None,
    };
    let method_type = match get_method_type(member) {
        Some(t) => t,
        None => return None,
    };
    match &*member.obj {
        Expr::Member(_) => Some(method_type),
        _ => None,
    }
}

} // verus!
