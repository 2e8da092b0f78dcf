use trpc_boundary::ast::{
    find_key, Arg, CallExpr, Callee, Expr, MemberExpr, MemberProp, Module, ModuleItem, Program,
    Prop,
};
use trpc_boundary::classify::{classify, get_method_type, get_trpc_method_type, str_eq, MethodType};
use trpc_boundary::inject::path_is_open;
use trpc_boundary::transform::{
    has_use_client_directive, is_client_program, relative_filename, PluginConfig,
    TransformVisitor,
};

fn s(x: &str) -> String {
    x.to_string()
}

fn ident(x: &str) -> Expr {
    Expr::Ident(s(x))
}

fn member(obj: Expr, prop: &str) -> Expr {
    Expr::Member(MemberExpr { obj: Box::new(obj), prop: MemberProp::Ident(s(prop)) })
}

fn kv(key: &str, value: Expr) -> Prop {
    Prop::KeyValue(s(key), value)
}

fn obj(props: Vec<Prop>) -> Expr {
    Expr::Object(props)
}

fn arg(expr: Expr) -> Arg {
    Arg { spread: false, expr }
}

/// `trpc.post.<method>(args...)`
fn rpc_call(method: &str, args: Vec<Arg>) -> CallExpr {
    CallExpr { callee: Callee::Expr(member(member(ident("trpc"), "post"), method)), args }
}

fn boundary(file: &str, line: u64, side: &str) -> Expr {
    obj(vec![
        kv("file", Expr::Str(s(file))),
        kv("line", Expr::Num(line)),
        kv("side", Expr::Str(s(side))),
    ])
}

fn tagged_options(file: &str, line: u64, side: &str) -> Expr {
    obj(vec![kv("trpc", obj(vec![kv("context", obj(vec![kv("__boundary", boundary(file, line, side))]))]))])
}

fn visitor(file: &str, is_client: bool) -> TransformVisitor {
    TransformVisitor::new(s(file), is_client, PluginConfig { debug: false })
}

fn dbg<T: std::fmt::Debug>(x: &T) -> String {
    format!("{:?}", x)
}

#[test]
fn classify_names() {
    assert_eq!(classify("useQuery"), Some(MethodType::Query));
    assert_eq!(classify("useMutation"), Some(MethodType::Mutation));
    assert_eq!(classify("refetch"), None);
    for q in [
        "query",
        "useSuspenseQuery",
        "useSuspenseInfiniteQuery",
        "useInfiniteQuery",
        "prefetch",
        "fetchQuery",
        "fetchInfiniteQuery",
        "prefetchQuery",
        "prefetchInfiniteQuery",
        "ensureQueryData",
    ] {
        assert_eq!(classify(q), Some(MethodType::Query), "{}", q);
    }
    assert_eq!(classify("mutation"), Some(MethodType::Mutation));
    assert_eq!(classify(""), None);
    assert_eq!(classify("usequery"), None);
    assert_eq!(classify("useQueryX"), None);
}

#[test]
fn str_eq_compares_characters() {
    assert!(str_eq("", ""));
    assert!(str_eq("häh", "häh"));
    assert!(!str_eq("ab", "abc"));
    assert!(!str_eq("ab", "ac"));
}

#[test]
fn method_type_of_member() {
    let m = MemberExpr { obj: Box::new(ident("x")), prop: MemberProp::Ident(s("useQuery")) };
    assert_eq!(get_method_type(&m), Some(MethodType::Query));
    let m = MemberExpr { obj: Box::new(ident("x")), prop: MemberProp::Opaque(3) };
    assert_eq!(get_method_type(&m), None);
}

#[test]
fn detect_needs_two_member_levels() {
    let call = rpc_call("useQuery", vec![]);
    assert_eq!(get_trpc_method_type(&call.callee), Some(MethodType::Query));
    let call = rpc_call("useMutation", vec![]);
    assert_eq!(get_trpc_method_type(&call.callee), Some(MethodType::Mutation));
    // depth one: `post.useQuery()`
    let shallow = Callee::Expr(member(ident("post"), "useQuery"));
    assert_eq!(get_trpc_method_type(&shallow), None);
    // plain identifier callee: `useQuery()`
    assert_eq!(get_trpc_method_type(&Callee::Expr(ident("useQuery"))), None);
    // `super()` / `import()`
    assert_eq!(get_trpc_method_type(&Callee::Opaque(0)), None);
    // computed terminal property: `trpc.post[k]()`
    let computed = Callee::Expr(Expr::Member(MemberExpr {
        obj: Box::new(member(ident("trpc"), "post")),
        prop: MemberProp::Opaque(1),
    }));
    assert_eq!(get_trpc_method_type(&computed), None);
    // unknown terminal method
    let call = rpc_call("refetch", vec![]);
    assert_eq!(get_trpc_method_type(&call.callee), None);
}

#[test]
fn non_chain_call_is_left_unchanged() {
    let v = visitor("./post.ts", true);
    let mut call = CallExpr {
        callee: Callee::Expr(member(ident("post"), "useQuery")),
        args: vec![arg(ident("id"))],
    };
    let before = dbg(&call);
    assert!(!v.rewrite_call(&mut call, 4));
    assert_eq!(dbg(&call), before);
}

#[test]
fn query_without_arguments_gets_placeholder_and_options() {
    let v = visitor("./post.ts", false);
    let mut call = rpc_call("useQuery", vec![]);
    assert!(v.rewrite_call(&mut call, 7));
    assert_eq!(call.args.len(), 2);
    let expected = vec![arg(ident("undefined")), arg(tagged_options("./post.ts", 7, "server"))];
    assert_eq!(dbg(&call.args), dbg(&expected));
}

#[test]
fn mutation_without_arguments_gets_options() {
    let v = visitor("./post.ts", true);
    let mut call = rpc_call("useMutation", vec![]);
    assert!(v.rewrite_call(&mut call, 2));
    assert_eq!(call.args.len(), 1);
    assert_eq!(dbg(&call.args), dbg(&vec![arg(tagged_options("./post.ts", 2, "client"))]));
}

#[test]
fn end_to_end_query_with_input_in_client_file() {
    let v = visitor("./post.ts", true);
    let mut call = rpc_call("useQuery", vec![arg(ident("id"))]);
    assert!(v.rewrite_call(&mut call, 10));
    let expected = rpc_call("useQuery", vec![arg(ident("id")), arg(tagged_options("./post.ts", 10, "client"))]);
    assert_eq!(dbg(&call), dbg(&expected));
}

#[test]
fn end_to_end_mutation_in_server_file() {
    let v = visitor("./post.ts", false);
    let mut call = rpc_call("useMutation", vec![]);
    assert!(v.rewrite_call(&mut call, 3));
    let expected = rpc_call("useMutation", vec![arg(tagged_options("./post.ts", 3, "server"))]);
    assert_eq!(dbg(&call), dbg(&expected));
}

#[test]
fn end_to_end_existing_context_keeps_siblings() {
    let v = visitor("./post.ts", true);
    let options = obj(vec![kv("trpc", obj(vec![kv("context", obj(vec![kv("foo", Expr::Num(1))]))]))]);
    let mut call = rpc_call("useQuery", vec![arg(ident("id")), arg(options)]);
    assert!(v.rewrite_call(&mut call, 10));
    let expected_options = obj(vec![kv(
        "trpc",
        obj(vec![kv(
            "context",
            obj(vec![kv("foo", Expr::Num(1)), kv("__boundary", boundary("./post.ts", 10, "client"))]),
        )]),
    )]);
    let expected = rpc_call("useQuery", vec![arg(ident("id")), arg(expected_options)]);
    assert_eq!(dbg(&call), dbg(&expected));
}

#[test]
fn injection_keeps_sibling_properties_at_every_level() {
    let v = visitor("a.ts", false);
    let options = obj(vec![
        kv("enabled", Expr::Opaque(5)),
        Prop::Opaque(6),
        kv("trpc", obj(vec![kv("ssr", Expr::Opaque(7)), kv("context", obj(vec![kv("x", Expr::Str(s("y")))]))])),
        kv("select", Expr::Opaque(8)),
    ]);
    let mut call = rpc_call("query", vec![arg(Expr::Opaque(1)), arg(options), arg(Expr::Opaque(9))]);
    assert!(v.rewrite_call(&mut call, 1));
    let expected_options = obj(vec![
        kv("enabled", Expr::Opaque(5)),
        Prop::Opaque(6),
        kv(
            "trpc",
            obj(vec![
                kv("ssr", Expr::Opaque(7)),
                kv("context", obj(vec![kv("x", Expr::Str(s("y"))), kv("__boundary", boundary("a.ts", 1, "server"))])),
            ]),
        ),
        kv("select", Expr::Opaque(8)),
    ]);
    let expected = rpc_call("query", vec![arg(Expr::Opaque(1)), arg(expected_options), arg(Expr::Opaque(9))]);
    assert_eq!(dbg(&call), dbg(&expected));
}

#[test]
fn missing_trpc_and_context_are_created() {
    let v = visitor("f.ts", true);
    let options = obj(vec![kv("onSuccess", Expr::Opaque(2))]);
    let mut call = rpc_call("useMutation", vec![arg(options)]);
    assert!(v.rewrite_call(&mut call, 12));
    let expected = obj(vec![
        kv("onSuccess", Expr::Opaque(2)),
        kv("trpc", obj(vec![kv("context", obj(vec![kv("__boundary", boundary("f.ts", 12, "client"))]))])),
    ]);
    assert_eq!(dbg(&call.args), dbg(&vec![arg(expected)]));

    let options = obj(vec![kv("trpc", obj(vec![kv("abortOnUnmount", Expr::Opaque(3))]))]);
    let mut call = rpc_call("useQuery", vec![arg(ident("id")), arg(options)]);
    assert!(v.rewrite_call(&mut call, 5));
    let expected = obj(vec![kv(
        "trpc",
        obj(vec![
            kv("abortOnUnmount", Expr::Opaque(3)),
            kv("context", obj(vec![kv("__boundary", boundary("f.ts", 5, "client"))])),
        ]),
    )]);
    assert_eq!(dbg(&call.args[1]), dbg(&arg(expected)));
}

#[test]
fn identifier_options_are_left_unchanged() {
    let v = visitor("./post.ts", true);
    let mut call = rpc_call("useQuery", vec![arg(ident("id")), arg(ident("opts"))]);
    let before = dbg(&call);
    assert!(!v.rewrite_call(&mut call, 10));
    assert_eq!(dbg(&call), before);

    let mut call = rpc_call("useMutation", vec![arg(ident("opts"))]);
    let before = dbg(&call);
    assert!(!v.rewrite_call(&mut call, 10));
    assert_eq!(dbg(&call), before);
}

#[test]
fn spread_options_are_left_unchanged() {
    let v = visitor("./post.ts", true);
    let mut call = rpc_call("useMutation", vec![Arg { spread: true, expr: obj(vec![]) }]);
    let before = dbg(&call);
    assert!(!v.rewrite_call(&mut call, 10));
    assert_eq!(dbg(&call), before);
}

#[test]
fn non_object_trpc_or_context_aborts() {
    let v = visitor("./post.ts", true);
    let options = obj(vec![kv("trpc", ident("shared"))]);
    let mut call = rpc_call("useMutation", vec![arg(options)]);
    let before = dbg(&call);
    assert!(!v.rewrite_call(&mut call, 1));
    assert_eq!(dbg(&call), before);

    let options = obj(vec![kv("trpc", obj(vec![kv("context", Expr::Num(0))]))]);
    let mut call = rpc_call("useQuery", vec![arg(ident("id")), arg(options)]);
    let before = dbg(&call);
    assert!(!v.rewrite_call(&mut call, 1));
    assert_eq!(dbg(&call), before);
}

#[test]
fn first_trpc_property_is_used() {
    let v = visitor("x.ts", false);
    let options = obj(vec![kv("trpc", obj(vec![])), kv("trpc", Expr::Num(4))]);
    let mut call = rpc_call("mutation", vec![arg(options)]);
    assert!(v.rewrite_call(&mut call, 8));
    let expected = obj(vec![
        kv("trpc", obj(vec![kv("context", obj(vec![kv("__boundary", boundary("x.ts", 8, "server"))]))])),
        kv("trpc", Expr::Num(4)),
    ]);
    assert_eq!(dbg(&call.args), dbg(&vec![arg(expected)]));

    // the first `trpc` decides, even where a later one is an object
    let options = obj(vec![kv("trpc", Expr::Num(4)), kv("trpc", obj(vec![]))]);
    let mut call = rpc_call("mutation", vec![arg(options)]);
    assert!(!v.rewrite_call(&mut call, 8));
}

#[test]
fn running_twice_appends_a_second_record() {
    let v = visitor("x.ts", true);
    let mut call = rpc_call("useMutation", vec![]);
    assert!(v.rewrite_call(&mut call, 1));
    assert!(v.rewrite_call(&mut call, 1));
    let context = obj(vec![
        kv("__boundary", boundary("x.ts", 1, "client")),
        kv("__boundary", boundary("x.ts", 1, "client")),
    ]);
    let expected = obj(vec![kv("trpc", obj(vec![kv("context", context)]))]);
    assert_eq!(dbg(&call.args), dbg(&vec![arg(expected)]));
}

#[test]
fn inject_boundary_uses_the_given_shape() {
    let v = visitor("x.ts", true);
    let mut call = CallExpr { callee: Callee::Opaque(0), args: vec![] };
    assert!(v.inject_boundary(&mut call, 6, MethodType::Query));
    assert_eq!(dbg(&call.args), dbg(&vec![arg(ident("undefined")), arg(tagged_options("x.ts", 6, "client"))]));
}

#[test]
fn boundary_object_fields_in_order() {
    let v = visitor("./src/a.ts", true);
    assert_eq!(dbg(&v.create_boundary_object(42)), dbg(&boundary("./src/a.ts", 42, "client")));
    let v = visitor("b.ts", false);
    assert_eq!(dbg(&v.create_boundary_object(1)), dbg(&boundary("b.ts", 1, "server")));
}

#[test]
fn find_key_returns_first_match() {
    let props = vec![Prop::Opaque(0), kv("a", Expr::Num(1)), kv("b", Expr::Num(2)), kv("a", Expr::Num(3))];
    assert_eq!(find_key(&props, &s("a")), Some(1));
    assert_eq!(find_key(&props, &s("b")), Some(2));
    assert_eq!(find_key(&props, &s("c")), None);
    assert_eq!(find_key(&Vec::new(), &s("a")), None);
}

#[test]
fn path_openness() {
    let path = vec![s("a"), s("b"), s("c")];
    let props = vec![kv("a", obj(vec![kv("z", Expr::Num(0))]))];
    assert!(path_is_open(&props, &path, 0));
    assert!(path_is_open(&vec![], &path, 0));
    let blocked = vec![kv("a", obj(vec![kv("b", Expr::Opaque(1))]))];
    assert!(!path_is_open(&blocked, &path, 0));
    assert!(path_is_open(&blocked, &path, 2));
}

#[test]
fn client_directive_detection() {
    let m = Module { body: vec![ModuleItem::StrStmt(s("use client")), ModuleItem::Opaque(1)] };
    assert!(has_use_client_directive(&m));
    assert!(is_client_program(&Program::Module(m)));
    let m = Module { body: vec![ModuleItem::Opaque(1), ModuleItem::StrStmt(s("use strict"))] };
    assert!(!has_use_client_directive(&m));
    assert!(!is_client_program(&Program::Module(m)));
    let m = Module { body: vec![] };
    assert!(!is_client_program(&Program::Module(m)));
    assert!(!is_client_program(&Program::Script));
    let m = Module { body: vec![ModuleItem::StrStmt(s("use client "))] };
    assert!(!has_use_client_directive(&m));
}

#[test]
fn relative_filename_strips_cwd() {
    assert_eq!(relative_filename(Some(s("/home/u/app/post.ts")), Some(s("/home/u/app"))), "./post.ts");
    assert_eq!(relative_filename(Some(s("/other/post.ts")), Some(s("/home/u/app"))), "/other/post.ts");
    assert_eq!(relative_filename(Some(s("/x/post.ts")), Some(s(""))), "/x/post.ts");
    assert_eq!(relative_filename(Some(s("/x/post.ts")), None), "/x/post.ts");
    assert_eq!(relative_filename(None, Some(s("/x"))), "unknown");
    assert_eq!(relative_filename(None, None), "unknown");
    assert_eq!(relative_filename(Some(s("/x")), Some(s("/x"))), ".");
    assert_eq!(relative_filename(Some(s("/dä/ö.ts")), Some(s("/dä"))), "./ö.ts");
    assert_eq!(relative_filename(Some(s("/a")), Some(s("/abc"))), "/a");
}
