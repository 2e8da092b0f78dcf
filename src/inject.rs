//! Appending a property under a nested path of an object literal, creating the
//! missing objects on the way (`options.trpc.context`).
use vstd::prelude::*;
use crate::ast::{Expr, Prop, find_key, first_key};

verus! {

/// The keys of a path, as character sequences.
pub open spec fn keys(path: Seq<String>) -> Seq<Seq<char>> {
    path.map_values(|s: String| s@)
}

/// The properties of an object literal; nothing for any other expression.
pub open spec fn object_props(e: Expr) -> Seq<Prop> {
    match e {
        Expr::Object(props) => props@,
        _ => Seq::empty(),
    }
}

/// Following `path` from `props` meets no property whose value is not an
/// object literal: every key is either absent or keys an object literal.
pub open spec fn path_open(props: Seq<Prop>, path: Seq<Seq<char>>) -> bool
    decreases path.len(),
{
    if path.len() == 0 {
        true
    } else {
        match first_key(props, path[0]) {
            None => true,
            Some(i) => match props[i] {
                Prop::KeyValue(_, Expr::Object(inner)) => path_open(inner@, path.drop_first()),
                _ => false,
            },
        }
    }
}

/// `new` is `old` with one property satisfying `leaf_ok` appended at the end of
/// the object reached by `path`. On the way, the first property with the next
/// key is reused; where there is none, a property with that key and a new
/// object literal is appended. Nothing else changes.
pub open spec fn placed(
    old: Seq<Prop>,
    new: Seq<Prop>,
    path: Seq<Seq<char>>,
    leaf_ok: spec_fn(Prop) -> bool,
) -> bool
    decreases path.len(),
{
    if path.len() == 0 {
        &&& new.len() == old.len() + 1
        &&& new.drop_last() == old
        &&& leaf_ok(new.last())
    } else {
        match first_key(old, path[0]) {
            Some(i) => {
                &&& new.len() == old.len()
                &&& forall|j: int| 0 <= j < old.len() && j != i ==> new[j] == old[j]
                &&& match (old[i], new[i]) {
                    (Prop::KeyValue(k0, Expr::Object(a)), Prop::KeyValue(k1, Expr::Object(b))) => {
                        k1 == k0 && placed(a@, b@, path.drop_first(), leaf_ok)
                    },
                    _ => false,
                }
            },
            None => {
                &&& new.len() == old.len() + 1
                &&& new.drop_last() == old
                &&& match new.last() {
                    Prop::KeyValue(k, Expr::Object(b)) => {
                        k@ == path[0] && placed(Seq::empty(), b@, path.drop_first(), leaf_ok)
                    },
                    _ => false,
                }
            },
        }
    }
}

proof fn lemma_keys_step(path: Seq<String>, depth: int)
    requires
        0 <= depth < path.len(),
    ensures
        keys(path).skip(depth).len() > 0,
        keys(path).skip(depth)[0] == path[depth]@,
        keys(path).skip(depth).drop_first() == keys(path).skip(depth + 1),
{
    assert(keys(path).skip(depth).drop_first() =~= keys(path).skip(depth + 1));
}

/// Tells whether `path`, from position `depth` on, is open in `props`.
pub fn path_is_open(props: &Vec<Prop>, path: &Vec<String>, depth: usize) -> (r: bool)
    requires
        depth <= path@.len(),
    ensures
        r == path_open(props@, keys(path@).skip(depth as int)),
    decreases path@.len() - depth,
{
    if depth == path.len() {
        assert(keys(path@).skip(depth as int).len() == 0);
        return true;
    }
    proof {
        lemma_keys_step(path@, depth as int);
    }
    match find_key(props, &path[depth]) {
        None => true,
        Some(i) => match &props[i] {
            Prop::KeyValue(_, Expr::Object(inner)) => path_is_open(inner, path, depth + 1),
            _ => false,
        },
    }
}

/// Appends `leaf` at the end of the object reached by `path` (from position
/// `depth` on), creating the missing objects.
pub(crate) fn insert_at_path(
    props: &mut Vec<Prop>,
    path: &Vec<String>,
    depth: usize,
    leaf: Prop,
    Ghost(leaf_ok): Ghost<spec_fn(Prop) -> bool>,
)
    requires
        depth <= path@.len(),
        path_open(old(props)@, keys(path@).skip(depth as int)),
        leaf_ok(leaf),
    ensures
        placed(old(props)@, final(props)@, keys(path@).skip(depth as int), leaf_ok),
    decreases path@.len() - depth,
{
    let ghost old_props = props@;
    if depth == path.len() {
        assert(keys(path@).skip(depth as int).len() == 0);
        props.push(leaf);
        assert(props@.drop_last() =~= old_props);
        return;
    }
    proof {
        lemma_keys_step(path@, depth as int);
    }
    match find_key(props, &path[depth]) {
        Some(i) => {
            let mut taken = Prop::Opaque(0);
            std::mem::swap(&mut props[i], &mut taken);
            match taken {
                Prop::KeyValue(k, Expr::Object(mut inner)) => {
                    insert_at_path(&mut inner, path, depth + 1, leaf, Ghost(leaf_ok));
                    props[i] = Prop::KeyValue(k, Expr::Object(inner));
                },
                // `path_open` rules out any other value under the key.
                _ => {},
            }
        },
        None => {
            let mut inner: Vec<Prop> = Vec::new();
            proof {
                assert(path_open(inner@, keys(path@).skip(depth as int + 1))) by {
                    if keys(path@).skip(depth as int + 1).len() > 0 {
                        crate::ast::lemma_first_key_none(
                            inner@,
                            keys(path@).skip(depth as int + 1)[0],
                        );
                    }
                }
            }
            insert_at_path(&mut inner, path, depth + 1, leaf, Ghost(leaf_ok));
            let key = path[depth].clone();
            props.push(Prop::KeyValue(key, Expr::Object(inner)));
            assert(props@.drop_last() =~= old_props);
        },
    }
}

} // verus!
