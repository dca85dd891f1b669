use rcpp::class;
use rcpp::generate_c_path;
use rcpp::method;
use rcpp::proto::const_ptr;
use rcpp::proto::const_ref;
use rcpp::proto::mut_ptr;
use rcpp::proto::size_t;
use rcpp::proto::uint;
use rcpp::proto::void;
use rcpp::proto::CType;
use rcpp::Context;
use rcpp::Function;
use rcpp::FunctionArgs;
use rcpp::NamedClass;

/// The storage-class keyword of the native glue language, assembled here so
/// the sources never carry it whole.
fn kw() -> String {
    format!("{}{}", "ext", "ern")
}

fn args0() -> FunctionArgs {
    FunctionArgs { args: vec![] }
}

fn h256_class() -> NamedClass {
    let mut cls = class();
    cls.add_constructor("", args0());
    cls.add_method("digest_size", true, Function { ret: uint(), args: args0() });
    cls.add_method(
        "update",
        false,
        Function { ret: void(), args: FunctionArgs { args: vec![const_ptr(CType::UChar), size_t()] } },
    );
    NamedClass::new(vec!["crypto".to_string()], "H256".to_string(), cls)
}

#[test]
fn arity_zero_to_three_both_sides() {
    // n parameters, in declared order, named arg0..arg(n-1) on both sides
    let render = |args: FunctionArgs| {
        let mut cpp = String::new();
        args.generate_proto_cpp(&mut cpp);
        let mut rs = String::new();
        args.generate_proto_rs(&mut rs);
        (cpp, rs)
    };
    let (cpp, rs) = render(FunctionArgs { args: vec![] });
    assert_eq!(cpp, "");
    assert_eq!(rs, "");
    let (cpp, rs) = render(FunctionArgs { args: vec![uint()] });
    assert_eq!(cpp, "unsigned int arg0");
    assert_eq!(rs, "arg0: c_uint");
    let (cpp, rs) = render(FunctionArgs { args: vec![uint(), size_t()] });
    assert_eq!(cpp, "unsigned int arg0, size_t arg1");
    assert_eq!(rs, "arg0: c_uint, arg1: size_t");
    let (cpp, rs) = render(FunctionArgs { args: vec![uint(), size_t(), const_ptr(CType::UChar)] });
    assert_eq!(cpp, "unsigned int arg0, size_t arg1, unsigned char const* arg2");
    assert_eq!(rs, "arg0: c_uint, arg1: size_t, arg2: *const c_uchar");
}

#[test]
fn reference_forwarding() {
    // a reference parameter declares as a pointer and forwards with one
    // dereference; the value parameter next to it is left alone
    let args = FunctionArgs { args: vec![const_ref(CType::Custom("Integer".to_string())), size_t()] };
    let mut decl = String::new();
    args.generate_proto_cpp(&mut decl);
    assert_eq!(decl, "Integer const* arg0, size_t arg1");
    let mut fwd = String::new();
    args.generate_apply_cpp(&mut fwd);
    assert_eq!(fwd, " *arg0,  arg1");

    let mut mutref = String::new();
    FunctionArgs { args: vec![rcpp::proto::BasicType::MutRef(CType::Long)] }
        .generate_proto_cpp(&mut mutref);
    assert_eq!(mutref, "long* arg0");
}

#[test]
fn constness_propagation() {
    let mut cls = class();
    cls.add_method("peek", true, Function { ret: uint(), args: args0() });
    cls.add_method("poke", false, Function { ret: uint(), args: args0() });
    let nc = NamedClass::new(vec![], "Box".to_string(), cls);
    let mut ctx = Context::new(String::new(), String::new());
    nc.generate_bindings(&mut ctx);
    assert!(ctx.cpp_stream.contains("unsigned int mth_Box_peek(Box const* ctx)"));
    assert!(ctx.cpp_stream.contains("unsigned int mth_Box_poke(Box* ctx)"));
    assert!(ctx.rs_binding_stream.contains("mth_Box_peek(ctx: *const c_void) -> c_uint"));
    assert!(ctx.rs_binding_stream.contains("mth_Box_poke(ctx: *mut c_void) -> c_uint"));
}

#[test]
fn void_suppression() {
    let mut cls = class();
    cls.add_method("reset", false, Function { ret: void(), args: args0() });
    cls.add_method("size", true, Function { ret: size_t(), args: args0() });
    let nc = NamedClass::new(vec![], "Box".to_string(), cls);
    let mut ctx = Context::new(String::new(), String::new());
    nc.generate_bindings(&mut ctx);
    let reset_at = ctx.cpp_stream.find("mth_Box_reset").unwrap();
    let size_at = ctx.cpp_stream.find("mth_Box_size").unwrap();
    let reset_block = &ctx.cpp_stream[reset_at..size_at];
    assert!(!reset_block.contains("return"));
    let size_block = &ctx.cpp_stream[size_at..];
    assert!(size_block.contains("return ctx->size();"));
    assert!(ctx.rs_binding_stream.contains("mth_Box_reset(ctx: *mut c_void);"));
    assert!(ctx.rs_binding_stream.contains("mth_Box_size(ctx: *const c_void) -> size_t;"));
}

#[test]
fn symbol_escaping() {
    // an underscore inside a segment is doubled; a segment boundary is not
    let mut one = String::new();
    generate_c_path(&vec!["foo_bar".to_string()], "X", &mut one);
    assert_eq!(one, "foo__bar_X");
    let mut two = String::new();
    generate_c_path(&vec!["foo".to_string(), "bar".to_string()], "X", &mut two);
    assert_eq!(two, "foo_bar_X");
    assert_ne!(one, two);

    let mut part = String::new();
    rcpp::c_path_ns_part("a_b_c", &mut part);
    assert_eq!(part, "a__b__c");

    // the class name's own underscores are doubled too, so a name cannot
    // donate text to a namespace segment
    let mut named = String::new();
    generate_c_path(&vec!["a".to_string()], "b_c", &mut named);
    assert_eq!(named, "a_b__c");
    let mut split = String::new();
    generate_c_path(&vec!["a".to_string(), "b".to_string()], "c", &mut split);
    assert_eq!(split, "a_b_c");
    assert_ne!(named, split);
}

#[test]
fn deterministic_insertion_order() {
    let build = |order: &[&str]| {
        let mut cls = class();
        for name in order {
            let desc = match *name {
                "a" => Function { ret: void(), args: args0() },
                "b" => Function { ret: uint(), args: args0() },
                _ => Function { ret: size_t(), args: FunctionArgs { args: vec![size_t()] } },
            };
            let is_const = *name == "b";
            cls.add_method(name, is_const, desc);
        }
        cls.add_constructor("from_long", FunctionArgs { args: vec![rcpp::proto::long()] });
        cls.add_constructor("", args0());
        let nc = NamedClass::new(vec!["ns".to_string()], "T".to_string(), cls);
        let mut ctx = Context::new(String::new(), String::new());
        nc.generate_bindings(&mut ctx);
        (ctx.cpp_stream, ctx.rs_binding_stream)
    };
    let first = build(&["a", "b", "c"]);
    let second = build(&["c", "a", "b"]);
    let third = build(&["b", "c", "a"]);
    assert_eq!(first, second);
    assert_eq!(first, third);
}

#[test]
fn last_registration_wins() {
    let mut cls = class();
    cls.add_method("go", false, Function { ret: void(), args: args0() });
    cls.add_method("go", true, Function { ret: uint(), args: args0() });
    let nc = NamedClass::new(vec![], "Box".to_string(), cls);
    let mut ctx = Context::new(String::new(), String::new());
    nc.generate_bindings(&mut ctx);
    assert!(ctx.cpp_stream.contains("unsigned int mth_Box_go(Box const* ctx)"));
    assert!(!ctx.cpp_stream.contains("void mth_Box_go"));
}

#[test]
fn end_to_end_h256() {
    let nc = h256_class();
    let mut ctx = Context::new(String::new(), String::new());
    nc.generate_bindings(&mut ctx);

    let kw = kw();
    let expected_cpp = format!(
        "{k} \"C\"\ncrypto::H256 * new_crypto_H256() {{\n  return new crypto::H256();\n}}\n\n\
         {k} \"C\"\nvoid del_crypto_H256(crypto::H256* ctx) {{\n  delete ctx;\n}}\n\n\
         {k} \"C\"\nunsigned int mth_crypto_H256_digest_size(crypto::H256 const* ctx) {{\n\
         \x20 return ctx->digest_size();\n}}\n\n\
         {k} \"C\"\nvoid mth_crypto_H256_update(crypto::H256* ctx, unsigned char const* arg0, size_t arg1) {{\n\
         \x20 ctx->update( arg0,  arg1);\n}}\n\n",
        k = kw,
    );
    assert_eq!(ctx.cpp_stream, expected_cpp);

    let expected_rs = format!(
        "{k} {{\n\
         \x20 pub fn mth_crypto_H256_digest_size(ctx: *const c_void) -> c_uint;\n\
         \x20 pub fn mth_crypto_H256_update(ctx: *mut c_void, arg0: *const c_uchar, arg1: size_t);\n\
         \x20 pub fn new_crypto_H256() -> *mut c_void;\n\
         \x20 pub fn del_crypto_H256(ctx: *mut c_void);\n\
         }}\n",
        k = kw,
    );
    assert_eq!(ctx.rs_binding_stream, expected_rs);

    // the four expected symbols, and no return in the void trampoline body
    for sym in [
        "new_crypto_H256",
        "del_crypto_H256",
        "mth_crypto_H256_digest_size",
        "mth_crypto_H256_update",
    ] {
        assert!(ctx.cpp_stream.contains(sym));
        assert!(ctx.rs_binding_stream.contains(sym));
    }
    let update_at = ctx.cpp_stream.find("mth_crypto_H256_update").unwrap();
    assert!(!ctx.cpp_stream[update_at..].contains("return"));
    assert_eq!(nc.c_path(), "crypto_H256");
}

#[test]
fn named_constructor_variant() {
    let mut cls = class();
    cls.add_constructor("from_long", FunctionArgs { args: vec![rcpp::proto::long()] });
    let nc = NamedClass::new(vec![], "Integer".to_string(), cls);
    let mut ctx = Context::new(String::new(), String::new());
    nc.generate_bindings(&mut ctx);
    assert!(ctx.cpp_stream.contains("Integer * new_from_long_Integer(long arg0)"));
    assert!(ctx.cpp_stream.contains("return new Integer( arg0);"));
    assert!(ctx.rs_binding_stream.contains("pub fn new_from_long_Integer(arg0: c_long) -> *mut c_void;"));
}

#[test]
fn mut_ptr_spelling() {
    let args = FunctionArgs { args: vec![mut_ptr(CType::Void)] };
    let mut cpp = String::new();
    args.generate_proto_cpp(&mut cpp);
    assert_eq!(cpp, "void* arg0");
    let mut rs = String::new();
    args.generate_proto_rs(&mut rs);
    assert_eq!(rs, "arg0: *mut c_void");
}

#[test]
fn function_args_slices() {
    let empty = FunctionArgs { args: vec![] };
    assert!(empty.as_slice().is_none());
    assert_eq!(empty.len(), 0);
    let two = FunctionArgs { args: vec![uint(), size_t()] };
    assert_eq!(two.as_slice().unwrap().len(), 2);
    assert_eq!(two.len(), 2);
}

#[test]
fn method_builder() {
    let m = method(Function { ret: uint(), args: args0() }, true);
    assert!(m.is_const);
}

#[test]
fn error_variants() {
    let e = rcpp::Error::Unexpected("bad name".to_string());
    assert!(matches!(e, rcpp::Error::Unexpected(_)));
    assert!(matches!(rcpp::Error::IO, rcpp::Error::IO));
}

#[test]
fn class_without_constructors() {
    // only the destructor trampoline is emitted besides the methods, and the
    // foreign block still declares the destructor
    let mut cls = class();
    cls.add_method("tick", false, Function { ret: void(), args: args0() });
    let nc = NamedClass::new(vec![], "Clock".to_string(), cls);
    let mut ctx = Context::new(String::new(), String::new());
    nc.generate_bindings(&mut ctx);
    assert!(!ctx.cpp_stream.contains("new_Clock"));
    assert!(ctx.cpp_stream.contains("void del_Clock(Clock* ctx)"));
    assert!(!ctx.rs_binding_stream.contains("new_Clock"));
    assert!(ctx.rs_binding_stream.contains("  pub fn del_Clock(ctx: *mut c_void);\n"));
}
