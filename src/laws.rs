//! General properties of the transform, proved from the contracts above.
use vstd::prelude::*;
use crate::ast::{Arg, Callee, Expr, Module, ModuleItem, Program, Prop, first_key, has_key, is_first_key, lemma_first_key_unique};
use crate::classify::{MethodType, detect_spec};
use crate::inject::{object_props, placed};
use crate::transform::{boundary_path, client_directive, injectable, injected, is_client_spec, is_undefined_arg, options_index};

verus! {

/// `new` still holds every property of `old` at its position: unchanged, or,
/// up to `depth` levels down, an object literal under the same key that in
/// turn holds everything it held.
pub open spec fn embeds(old: Seq<Prop>, new: Seq<Prop>, depth: nat) -> bool
    decreases depth,
{
    &&& old.len() <= new.len()
    &&& forall|j: int|
        0 <= j < old.len() ==> #[trigger] new[j] == old[j] || (depth > 0 && match (old[j], new[j]) {
            (Prop::KeyValue(k0, Expr::Object(a)), Prop::KeyValue(k1, Expr::Object(b))) => {
                k1 == k0 && embeds(a@, b@, (depth - 1) as nat)
            },
            _ => false,
        })
}

/// Following `path` from `props` through the first property with each key
/// reaches an object literal holding a property that satisfies `leaf_ok`.
pub open spec fn contains_at_path(props: Seq<Prop>, path: Seq<Seq<char>>, leaf_ok: spec_fn(Prop) -> bool) -> bool
    decreases path.len(),
{
    if path.len() == 0 {
        exists|j: int| 0 <= j < props.len() && leaf_ok(#[trigger] props[j])
    } else {
        match first_key(props, path[0]) {
            Some(i) => match props[i] {
                Prop::KeyValue(_, Expr::Object(inner)) => contains_at_path(inner@, path.drop_first(), leaf_ok),
                _ => false,
            },
            None => false,
        }
    }
}

/// The callee is a member access whose object is itself a member access.
pub open spec fn is_member_chain(c: Callee) -> bool {
    match c {
        Callee::Expr(Expr::Member(m)) => *m.obj is Member,
        _ => false,
    }
}

proof fn lemma_first_key_some(props: Seq<Prop>, key: Seq<char>, j: int)
    requires
        0 <= j < props.len(),
        has_key(props[j], key),
    ensures
        first_key(props, key) is Some,
    decreases j,
{
    if exists|e: int| 0 <= e < j && has_key(#[trigger] props[e], key) {
        let e = choose|e: int| 0 <= e < j && has_key(#[trigger] props[e], key);
        lemma_first_key_some(props, key, e);
    } else {
        assert(is_first_key(props, key, j));
    }
}

/// A call whose callee is not a chain of two member accesses is never taken
/// for an RPC call; the call is then left as it was.
pub proof fn lemma_non_chain_not_detected(c: Callee)
    requires
        !is_member_chain(c),
    ensures
        detect_spec(c) is None,
{
}

/// Placing a property keeps every property that was there: the objects on
/// the path may grow, and nothing else changes.
pub proof fn lemma_placed_keeps_properties(
    old: Seq<Prop>,
    new: Seq<Prop>,
    path: Seq<Seq<char>>,
    leaf_ok: spec_fn(Prop) -> bool,
)
    requires
        placed(old, new, path, leaf_ok),
    ensures
        embeds(old, new, path.len()),
    decreases path.len(),
{
    if path.len() == 0 {
        assert forall|j: int| 0 <= j < old.len() implies #[trigger] new[j] == old[j] by {
            assert(new.drop_last()[j] == new[j]);
        }
    } else {
        match first_key(old, path[0]) {
            Some(i) => {
                if let (Prop::KeyValue(k0, Expr::Object(a)), Prop::KeyValue(k1, Expr::Object(b))) = (old[i], new[i]) {
                    lemma_placed_keeps_properties(a@, b@, path.drop_first(), leaf_ok);
                }
            },
            None => {
                assert forall|j: int| 0 <= j < old.len() implies #[trigger] new[j] == old[j] by {
                    assert(new.drop_last()[j] == new[j]);
                }
            },
        }
    }
}

/// After a property is placed, following the path finds it.
pub proof fn lemma_placed_reachable(
    old: Seq<Prop>,
    new: Seq<Prop>,
    path: Seq<Seq<char>>,
    leaf_ok: spec_fn(Prop) -> bool,
)
    requires
        placed(old, new, path, leaf_ok),
    ensures
        contains_at_path(new, path, leaf_ok),
    decreases path.len(),
{
    if path.len() == 0 {
        assert(leaf_ok(new[new.len() - 1]));
    } else {
        let key = path[0];
        match first_key(old, key) {
            Some(i) => {
                assert(is_first_key(old, key, i));
                assert forall|j: int| 0 <= j < i implies !has_key(#[trigger] new[j], key) by {
                    assert(!has_key(old[j], key));
                }
                assert(is_first_key(new, key, i));
                lemma_first_key_unique(new, key, i);
                if let (Prop::KeyValue(k0, Expr::Object(a)), Prop::KeyValue(k1, Expr::Object(b))) = (old[i], new[i]) {
                    lemma_placed_reachable(a@, b@, path.drop_first(), leaf_ok);
                }
            },
            None => {
                let i = old.len() as int;
                assert forall|j: int| 0 <= j < i implies !has_key(#[trigger] new[j], key) by {
                    assert(new.drop_last()[j] == new[j]);
                    if has_key(old[j], key) {
                        lemma_first_key_some(old, key, j);
                    }
                }
                assert(is_first_key(new, key, i));
                lemma_first_key_unique(new, key, i);
                if let Prop::KeyValue(k, Expr::Object(b)) = new.last() {
                    lemma_placed_reachable(Seq::empty(), b@, path.drop_first(), leaf_ok);
                }
            },
        }
    }
}

/// A query call without arguments always takes the record, and then has two
/// arguments: the `undefined` placeholder and an object literal holding the
/// record under `trpc.context`.
pub proof fn lemma_query_without_arguments(new: Seq<Arg>, leaf_ok: spec_fn(Prop) -> bool)
    requires
        injected(Seq::empty(), new, MethodType::Query, leaf_ok),
    ensures
        injectable(Seq::empty(), MethodType::Query),
        new.len() == 2,
        is_undefined_arg(new[0]),
        !new[1].spread,
        new[1].expr is Object,
        contains_at_path(object_props(new[1].expr), boundary_path(), leaf_ok),
{
    if let Expr::Object(after) = new[1].expr {
        lemma_placed_reachable(Seq::empty(), after@, boundary_path(), leaf_ok);
    }
}

/// A mutation call without arguments always takes the record, and then has
/// one argument: an object literal holding the record under `trpc.context`.
pub proof fn lemma_mutation_without_arguments(new: Seq<Arg>, leaf_ok: spec_fn(Prop) -> bool)
    requires
        injected(Seq::empty(), new, MethodType::Mutation, leaf_ok),
    ensures
        injectable(Seq::empty(), MethodType::Mutation),
        new.len() == 1,
        !new[0].spread,
        new[0].expr is Object,
        contains_at_path(object_props(new[0].expr), boundary_path(), leaf_ok),
{
    if let Expr::Object(after) = new[0].expr {
        lemma_placed_reachable(Seq::empty(), after@, boundary_path(), leaf_ok);
    }
}

/// Injection keeps every argument and every property of the options object
/// literal, `trpc` and `context` included with all their siblings; it only
/// adds.
pub proof fn lemma_injection_non_destructive(
    old: Seq<Arg>,
    new: Seq<Arg>,
    t: MethodType,
    leaf_ok: spec_fn(Prop) -> bool,
)
    requires
        injected(old, new, t, leaf_ok),
    ensures
        old.len() <= new.len(),
        forall|j: int| 0 <= j < old.len() && j != options_index(t) ==> new[j] == old[j],
        options_index(t) < old.len() ==> embeds(
            object_props(old[options_index(t)].expr),
            object_props(new[options_index(t)].expr),
            2,
        ),
        contains_at_path(object_props(new[options_index(t)].expr), boundary_path(), leaf_ok),
{
    let k = options_index(t);
    let before = if k < old.len() {
        object_props(old[k].expr)
    } else {
        Seq::empty()
    };
    if let Expr::Object(after) = new[k].expr {
        lemma_placed_keeps_properties(before, after@, boundary_path(), leaf_ok);
        lemma_placed_reachable(before, after@, boundary_path(), leaf_ok);
    }
}

/// A call whose options argument is an identifier reference does not take
/// the record, and is left as it was.
pub proof fn lemma_identifier_options_untouched(args: Seq<Arg>, t: MethodType)
    requires
        options_index(t) < args.len(),
        args[options_index(t)].expr is Ident,
    ensures
        !injectable(args, t),
{
}

/// A module that opens with the client directive runs on the client; a
/// script never does.
pub proof fn lemma_directive_marks_client(m: Module)
    requires
        m.body@.len() > 0,
        match m.body@[0] {
            ModuleItem::StrStmt(s) => s@ == client_directive(),
            ModuleItem::Opaque(_) => false,
        },
    ensures
        is_client_spec(Program::Module(m)),
        !is_client_spec(Program::Script),
{
    assert(match m.body@[0] {
        ModuleItem::StrStmt(s) => s@ == client_directive(),
        ModuleItem::Opaque(_) => false,
    });
}

} // verus!
