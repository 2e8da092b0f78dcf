//! Tagging the RPC calls of one program with their boundary record.
use vstd::prelude::*;
use vstd::string::StringExecFns;
use crate::ast::{Arg, CallExpr, Expr, Module, ModuleItem, Program, Prop};
use crate::classify::{MethodType, detect_spec, get_trpc_method_type};
use crate::inject::{insert_at_path, keys, object_props, path_is_open, path_open, placed};

verus! {

/// Settings of the pass.
#[derive(Debug, Default, Clone, Copy, PartialEq, Eq, Structural)]
pub struct PluginConfig {
    pub debug: bool,
}

/// The directive that marks a module as running on the client.
pub open spec fn client_directive() -> Seq<char> {
    "use client"@
}

/// The name of an execution side.
pub open spec fn side_name(is_client: bool) -> Seq<char> {
    if is_client {
        "client"@
    } else {
        "server"@
    }
}

/// `key: "v"`.
pub open spec fn is_str_prop(p: Prop, key: Seq<char>, v: Seq<char>) -> bool {
    match p {
        Prop::KeyValue(k, Expr::Str(s)) => k@ == key && s@ == v,
        _ => false,
    }
}

/// `key: n`.
pub open spec fn is_num_prop(p: Prop, key: Seq<char>, n: int) -> bool {
    match p {
        Prop::KeyValue(k, Expr::Num(x)) => k@ == key && x == n,
        _ => false,
    }
}

/// `{ file: "<file>", line: <line>, side: "client" | "server" }`, in that order.
pub open spec fn is_boundary_object(e: Expr, file: Seq<char>, line: int, is_client: bool) -> bool {
    match e {
        Expr::Object(props) => {
            &&& props@.len() == 3
            &&& is_str_prop(props@[0], "file"@, file)
            &&& is_num_prop(props@[1], "line"@, line)
            &&& is_str_prop(props@[2], "side"@, side_name(is_client))
        },
        _ => false,
    }
}

/// `__boundary: { file, line, side }`.
pub open spec fn is_boundary_prop(p: Prop, file: Seq<char>, line: int, is_client: bool) -> bool {
    match p {
        Prop::KeyValue(k, e) => k@ == "__boundary"@ && is_boundary_object(e, file, line, is_client),
        Prop::Opaque(_) => false,
    }
}

/// The properties that may be appended as the boundary record.
pub open spec fn boundary_leaf(file: Seq<char>, line: int, is_client: bool) -> spec_fn(Prop) -> bool {
    |p: Prop| is_boundary_prop(p, file, line, is_client)
}

/// Where the boundary record goes inside the options object.
pub open spec fn boundary_path() -> Seq<Seq<char>> {
    seq!["trpc"@, "context"@]
}

/// The position of the options argument.
pub open spec fn options_index(t: MethodType) -> int {
    match t {
        MethodType::Query => 1,
        MethodType::Mutation => 0,
    }
}

/// The placeholder `undefined` argument.
pub open spec fn is_undefined_arg(a: Arg) -> bool {
    &&& !a.spread
    &&& match a.expr {
        Expr::Ident(s) => s@ == "undefined"@,
        _ => false,
    }
}

/// A call with these arguments can take the boundary record: its options
/// argument is missing, or is a non-spread object literal in which the
/// `trpc.context` path is open.
pub open spec fn injectable(args: Seq<Arg>, t: MethodType) -> bool {
    let k = options_index(t);
    k < args.len() ==> {
        &&& !args[k].spread
        &&& args[k].expr is Object
        &&& path_open(object_props(args[k].expr), boundary_path())
    }
}

/// `new` is `old` after the boundary record was placed: missing leading
/// arguments were filled (`undefined` for a missing input, an empty object for
/// missing options), the other arguments kept, and the record appended under
/// `trpc.context` of the options object.
pub open spec fn injected(
    old: Seq<Arg>,
    new: Seq<Arg>,
    t: MethodType,
    leaf_ok: spec_fn(Prop) -> bool,
) -> bool {
    let k = options_index(t);
    let before = if k < old.len() {
        object_props(old[k].expr)
    } else {
        Seq::empty()
    };
    &&& new.len() == if k < old.len() {
        old.len() as int
    } else {
        k + 1
    }
    &&& forall|j: int| 0 <= j < old.len() && j != k ==> new[j] == old[j]
    &&& (t is Query && old.len() == 0 ==> is_undefined_arg(new[0]))
    &&& !new[k].spread
    &&& match new[k].expr {
        Expr::Object(after) => placed(before, after@, boundary_path(), leaf_ok),
        _ => false,
    }
}

/// The module holds a top-level statement that is exactly the client
/// directive.
pub open spec fn has_directive(items: Seq<ModuleItem>) -> bool {
    exists|i: int|
        0 <= i < items.len() && match #[trigger] items[i] {
            ModuleItem::StrStmt(s) => s@ == client_directive(),
            ModuleItem::Opaque(_) => false,
        }
}

/// The program runs on the client: it is a module with the client directive.
pub open spec fn is_client_spec(p: Program) -> bool {
    match p {
        Program::Module(m) => has_directive(m.body@),
        Program::Script => false,
    }
}

/// The file name as recorded: relative to `cwd` (as `./rest`) where `cwd` is
/// a non-empty prefix of it, else unchanged.
pub open spec fn relative_spec(file: Seq<char>, cwd: Seq<char>) -> Seq<char> {
    if cwd.len() > 0 && cwd.is_prefix_of(file) {
        "."@ + file.skip(cwd.len() as int)
    } else {
        file
    }
}

/// Per-program state of the pass.
#[derive(Debug)]
pub struct TransformVisitor {
    /// The file name written into every boundary record.
    pub filename: String,
    /// Whether the program runs on the client.
    pub is_client: bool,
    pub config: PluginConfig,
}

impl TransformVisitor {
    pub fn new(filename: String, is_client: bool, config: PluginConfig) -> (r: Self)
        ensures
            r.filename == filename,
            r.is_client == is_client,
            r.config == config,
    {
        TransformVisitor { filename, is_client, config }
    }

    /// Builds `{ file, line, side }` for a call at `line`.
    pub fn create_boundary_object(&self, line: usize) -> (r: Expr)
        ensures
            is_boundary_object(r, self.filename@, line as int, self.is_client),
    {
        let side = if self.is_client {
            String::from_str("client")
        } else {
            String::from_str("server")
        };
        let props = vec![
            Prop::KeyValue(String::from_str("file"), Expr::Str(self.filename.clone())),
            Prop::KeyValue(String::from_str("line"), Expr::Num(line as u64)),
            Prop::KeyValue(String::from_str("side"), Expr::Str(side)),
        ];
        Expr::Object(props)
    }

    /// Appends the boundary record for a call at `line` under `trpc.context`
    /// of the call's options object, filling missing arguments first. Returns
    /// whether it did; where the options argument is not an object literal,
    /// or `trpc` or `context` is there but keys no object literal, the call is
    /// left as it was.
    pub fn inject_boundary(&self, call: &mut CallExpr, line: usize, method_type: MethodType) -> (r: bool)
        ensures
            r == injectable(old(call).args@, method_type),
            !r ==> *final(call) == *old(call),
            r ==> final(call).callee == old(call).callee,
            r ==> injected(
                old(call).args@,
                final(call).args@,
                method_type,
                boundary_leaf(self.filename@, line as int, self.is_client),
            ),
    {
        let path = vec![String::from_str("trpc"), String::from_str("context")];
        assert(keys(path@).skip(0) =~= boundary_path());
        let k: usize = match method_type {
            MethodType::Query => 1,
            MethodType::Mutation => 0,
        };
        if k < call.args.len() {
            let open = match &call.args[k] {
                Arg { spread: false, expr: Expr::Object(props) } => path_is_open(props, &path, 0),
                _ => false,
            };
            if !open {
                return false;
            }
        }
        let boundary = self.create_boundary_object(line);
        match method_type {
            MethodType::Query => {
                if call.args.len() == 0 {
                    call.args.push(Arg { spread: false, expr: Expr::Ident(String::from_str("undefined")) });
                }
                if call.args.len() == 1 {
                    call.args.push(Arg { spread: false, expr: Expr::Object(Vec::new()) });
                }
            },
            MethodType::Mutation => {
                if call.args.len() == 0 {
                    call.args.push(Arg { spread: false, expr: Expr::Object(Vec::new()) });
                }
            },
        }
        let mut taken = Arg { spread: false, expr: Expr::Opaque(0) };
        std::mem::swap(&mut call.args[k], &mut taken);
        // The options argument is an object literal by now.
        let mut props = match taken.expr {
            Expr::Object(props) => props,
            _ => Vec::new(),
        };
        let leaf = Prop::KeyValue(String::from_str("__boundary"), boundary);
        insert_at_path(
            &mut props,
            &path,
            0,
            leaf,
            Ghost(boundary_leaf(self.filename@, line as int, self.is_client)),
        );
        call.args[k] = Arg { spread: false, expr: Expr::Object(props) };
        true
    }

    /// Tags one call: where the callee names an RPC terminal method, appends
    /// the boundary record for `line`; any other call is left as it was.
    pub fn rewrite_call(&self, call: &mut CallExpr, line: usize) -> (r: bool)
        ensures
            r == match detect_spec(old(call).callee) {
                Some(t) => injectable(old(call).args@, t),
                None => false,
            },
            !r ==> *final(call) == *old(call),
            final(call).callee == old(call).callee,
            r ==> injected(
                old(call).args@,
                final(call).args@,
                detect_spec(old(call).callee)->Some_0,
                boundary_leaf(self.filename@, line as int, self.is_client),
            ),
    {
        match get_trpc_method_type(&call.callee) {
            Some(t) => self.inject_boundary(call, line, t),
            None => false,
        }
    }
}

/// Tells whether the module holds the client directive as a top-level
/// statement.
pub fn has_use_client_directive(module: &Module) -> (r: bool)
    ensures
        r == has_directive(module.body@),
{
    let mut i: usize = 0;
    while i < module.body.len()
        invariant
            i <= module.body@.len(),
            forall|j: int| 0 <= j < i ==> match #[trigger] module.body@[j] {
                ModuleItem::StrStmt(s) => s@ != client_directive(),
                ModuleItem::Opaque(_) => true,
            },
        decreases module.body@.len() - i,
    {
        if let ModuleItem::StrStmt(s) = &module.body[i] {
            if crate::classify::str_eq(s.as_str(), "use client") {
                return true;
            }
        }
        i = i + 1;
    }
    false
}

/// Tells whether the program runs on the client.
pub fn is_client_program(program: &Program) -> (r: bool)
    ensures
        r == is_client_spec(*program),
{
    match program {
        Program::Module(m) => has_use_client_directive(m),
        Program::Script => false,
    }
}

/// The file name the host gave, or `unknown`.
pub open spec fn given_file(filename: Option<String>) -> Seq<char> {
    match filename {
        Some(f) => f@,
        None => "unknown"@,
    }
}

/// The working directory the host gave, or nothing.
pub open spec fn given_cwd(cwd: Option<String>) -> Seq<char> {
    match cwd {
        Some(c) => c@,
        None => Seq::empty(),
    }
}

/// The file name to record: `filename` (or `unknown` where the host gave
/// none), made relative to `cwd` where `cwd` is a non-empty prefix of it.
pub fn relative_filename(filename: Option<String>, cwd: Option<String>) -> (r: String)
    ensures
        r@ == relative_spec(given_file(filename), given_cwd(cwd)),
{
    let ghost wanted = relative_spec(given_file(filename), given_cwd(cwd));
    let file = match filename {
        Some(f) => f,
        None => String::from_str("unknown"),
    };
    let base = match cwd {
        Some(c) => c,
        None => String::new(),
    };
    let cl = base.as_str().unicode_len();
    let fl = file.as_str().unicode_len();
    if cl == 0 || cl > fl {
        return file;
    }
    let mut i: usize = 0;
    while i < cl
        invariant
            cl == base@.len(),
            fl == file@.len(),
            cl <= fl,
            i <= cl,
            wanted == relative_spec(file@, base@),
            wanted == relative_spec(given_file(filename), given_cwd(cwd)),
            forall|j: int| 0 <= j < i ==> base@[j] == file@[j],
        decreases cl - i,
    {
        if file.as_str().get_char(i) != base.as_str().get_char(i) {
            assert(!base@.is_prefix_of(file@)) by {
                if base@.is_prefix_of(file@) {
                    assert(base@[i as int] == file@.subrange(0, cl as int)[i as int]);
                }
            }
            return file;
        }
        i = i + 1;
    }
    assert(base@ =~= file@.subrange(0, cl as int));
    let rest = file.as_str().substring_char(cl, fl);
    assert(rest@ =~= file@.skip(cl as int));
    String::from_str(".").concat(rest)
}

} // verus!
