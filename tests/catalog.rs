use libm_analyze::api::{for_each_api, parse_ignore_list, units_valid, Config};
use libm_analyze::catalog::get_functions;
use libm_analyze::category::{category, get_arg_ids, CategoryError};
use libm_analyze::emit::render_invocation;
use libm_analyze::extract::get_candidates;
use libm_analyze::model::{FunctionCandidate, Item, Param, SourceUnit};
use libm_analyze::order::{order_units, source_path, text_lt};
use libm_analyze::rules::{validate, ErrorKind};
use libm_analyze::text::{contains_text, text_eq};
use libm_analyze::types::{valid_ty, TypeNode, TypePath};

fn prim(name: &str) -> TypeNode {
    TypeNode::Path(TypePath { qualified: false, segments: vec![name.to_string()] })
}

fn ptr(mutable: bool, pointee: TypeNode) -> TypeNode {
    TypeNode::Ptr { mutable, pointee: Box::new(pointee) }
}

fn good(name: &str, args: &[&str], ret: Option<&str>) -> FunctionCandidate {
    FunctionCandidate {
        ident: name.to_string(),
        abi: Some("C".to_string()),
        is_const: false,
        is_async: false,
        is_unsafe: false,
        is_variadic: false,
        attrs: vec!["# [ inline ]".to_string(), "# [ cfg_attr ( all ( test , assert_no_panic ) , no_panic :: no_panic ) ]".to_string()],
        type_params: 0,
        lifetime_params: 0,
        const_params: 0,
        params: args.iter().map(|a| Param::Captured(prim(a))).collect(),
        ret: ret.map(prim),
    }
}

fn public(c: FunctionCandidate) -> Item {
    Item::Function { public: true, decl: c }
}

fn unit(path: &str, items: Vec<Item>) -> SourceUnit {
    SourceUnit { path: path.to_string(), items }
}

fn lenient() -> Config {
    Config { ignored: Vec::new(), unsafe_excludes: false, strict: false }
}

fn kinds(c: &FunctionCandidate) -> Vec<ErrorKind> {
    validate(c)
}

fn ty_text(t: &TypeNode) -> String {
    match t {
        TypeNode::Path(p) => p.segments.join("::"),
        TypeNode::Ptr { mutable, pointee } => {
            format!("*{} {}", if *mutable { "mut" } else { "const" }, ty_text(pointee))
        }
        TypeNode::Other => "_".to_string(),
    }
}

#[test]
fn cos_is_cataloged() {
    let units = vec![unit("src/math/cos.rs", vec![public(good("cos", &["f64"], Some("f64")))])];
    let exp = for_each_api(units, &lenient()).ok().unwrap();
    assert!(exp.errors.is_empty());
    assert_eq!(exp.records.len(), 1);
    let r = &exp.records[0];
    assert_eq!(r.id, "cos");
    assert_eq!(r.api_kind, "Cos");
    assert_eq!(r.arg_ids, vec!["x0".to_string()]);
    assert_eq!(r.arg_tys.iter().map(ty_text).collect::<Vec<_>>(), vec!["f64"]);
    assert_eq!(r.ret_ty.as_ref().map(ty_text), Some("f64".to_string()));
}

#[test]
fn scalbn_is_cataloged() {
    let units = vec![unit("src/math/scalbn.rs", vec![public(good("scalbn", &["f64", "i32"], Some("f64")))])];
    let exp = for_each_api(units, &lenient()).ok().unwrap();
    assert_eq!(exp.records.len(), 1);
    let r = &exp.records[0];
    assert_eq!(r.api_kind, "Scalbn");
    assert_eq!(r.arg_ids, vec!["x0".to_string(), "x1".to_string()]);
    assert_eq!(r.arg_tys.iter().map(ty_text).collect::<Vec<_>>(), vec!["f64", "i32"]);
}

#[test]
fn missing_c_linkage_is_excluded() {
    let mut c = good("sin", &["f64"], Some("f64"));
    c.abi = None;
    let exp = for_each_api(vec![unit("a.rs", vec![public(c)])], &lenient()).ok().unwrap();
    assert!(exp.records.is_empty());
    assert_eq!(exp.errors.len(), 1);
    assert_eq!(exp.errors[0].kind, ErrorKind::NotForeignAbi);
    assert_eq!(exp.errors[0].ident, "sin");
}

#[test]
fn other_linkage_is_excluded() {
    let mut c = good("sin", &["f64"], Some("f64"));
    c.abi = Some("Rust".to_string());
    assert_eq!(kinds(&c), vec![ErrorKind::NotForeignAbi]);
}

#[test]
fn type_parameter_is_excluded() {
    let mut c = good("fabs", &["f64"], Some("f64"));
    c.type_params = 1;
    let exp = for_each_api(vec![unit("a.rs", vec![public(c)])], &lenient()).ok().unwrap();
    assert!(exp.records.is_empty());
    assert!(exp.errors.iter().any(|e| e.kind == ErrorKind::HasGenericTypeParam));
}

#[test]
fn aggregate_return_is_excluded() {
    let mut c = good("modf", &["f64"], None);
    c.ret = Some(TypeNode::Other);
    let exp = for_each_api(vec![unit("a.rs", vec![public(c)])], &lenient()).ok().unwrap();
    assert!(exp.records.is_empty());
    assert!(exp.errors.iter().any(|e| e.kind == ErrorKind::UnsupportedReturnType));
}

#[test]
fn every_rule_is_reported() {
    let c = FunctionCandidate {
        ident: "bad".to_string(),
        abi: None,
        is_const: true,
        is_async: true,
        is_unsafe: true,
        is_variadic: true,
        attrs: Vec::new(),
        type_params: 1,
        lifetime_params: 2,
        const_params: 1,
        params: vec![Param::Other],
        ret: Some(ptr(false, ptr(true, prim("f64")))),
    };
    assert_eq!(
        kinds(&c),
        vec![
            ErrorKind::NotForeignAbi,
            ErrorKind::IsConst,
            ErrorKind::IsAsync,
            ErrorKind::IsUnsafe,
            ErrorKind::HasVariadic,
            ErrorKind::HasGenericTypeParam,
            ErrorKind::HasLifetimeParam,
            ErrorKind::HasConstParam,
            ErrorKind::MissingInlineMarker,
            ErrorKind::MissingNoPanicMarker,
            ErrorKind::UnsupportedReturnType,
            ErrorKind::UnsupportedArgType,
        ]
    );
}

#[test]
fn markers_are_checked_separately() {
    let mut c = good("exp", &["f64"], Some("f64"));
    c.attrs = vec!["# [ inline ]".to_string()];
    assert_eq!(kinds(&c), vec![ErrorKind::MissingNoPanicMarker]);
    c.attrs = vec!["# [ no_panic ]".to_string()];
    assert_eq!(kinds(&c), vec![ErrorKind::MissingInlineMarker]);
}

#[test]
fn unsafe_is_reported_and_excludes_only_when_asked() {
    let mut c = good("frexp", &["f64"], Some("f64"));
    c.is_unsafe = true;
    let units = || vec![unit("a.rs", vec![public(good("frexp", &["f64"], Some("f64")))])];
    let mut u = units();
    if let Item::Function { decl, .. } = &mut u[0].items[0] {
        decl.is_unsafe = true;
    }
    let exp = for_each_api(u, &lenient()).ok().unwrap();
    assert_eq!(exp.records.len(), 1);
    assert_eq!(exp.errors.len(), 1);
    assert_eq!(exp.errors[0].kind, ErrorKind::IsUnsafe);

    let cat = get_functions(vec![c], true);
    assert!(cat.entries.is_empty());
    assert_eq!(cat.errors.len(), 1);
}

#[test]
fn ignored_identifiers_never_appear() {
    let units = vec![unit(
        "a.rs",
        vec![public(good("cos", &["f64"], Some("f64"))), public(good("sin", &["f64"], Some("f64")))],
    )];
    let cfg = Config { ignored: parse_ignore_list("sin,tan"), unsafe_excludes: false, strict: false };
    let exp = for_each_api(units, &cfg).ok().unwrap();
    assert_eq!(exp.records.len(), 1);
    assert_eq!(exp.records[0].id, "cos");
}

#[test]
fn ignored_invalid_declaration_records_nothing() {
    let mut c = good("bad", &["f64"], Some("f64"));
    c.abi = None;
    let cfg = Config { ignored: vec!["bad".to_string()], unsafe_excludes: false, strict: true };
    let exp = for_each_api(vec![unit("a.rs", vec![public(c)])], &cfg).ok().unwrap();
    assert!(exp.records.is_empty());
    assert!(exp.errors.is_empty());
}

#[test]
fn non_public_and_other_items_are_skipped() {
    let items = vec![
        Item::Other,
        Item::Function { public: false, decl: good("helper", &["f64"], Some("f64")) },
        public(good("cbrt", &["f64"], Some("f64"))),
    ];
    let cands = get_candidates(vec![unit("a.rs", items)], &Vec::new());
    assert_eq!(cands.len(), 1);
    assert_eq!(cands[0].ident, "cbrt");
}

#[test]
fn catalog_follows_discovery_order() {
    let units = vec![
        unit("src/math/sin.rs", vec![public(good("sin", &["f64"], Some("f64"))), public(good("sinf", &["f32"], Some("f32")))]),
        unit("src/math/acos.rs", vec![public(good("acos", &["f64"], Some("f64")))]),
        unit("src/math/cos.rs", vec![public(good("cos", &["f64"], Some("f64")))]),
    ];
    let ordered = order_units(units);
    let paths: Vec<&str> = ordered.iter().map(|u| u.path.as_str()).collect();
    assert_eq!(paths, vec!["src/math/acos.rs", "src/math/cos.rs", "src/math/sin.rs"]);
    let exp = for_each_api(ordered, &lenient()).ok().unwrap();
    let ids: Vec<&str> = exp.records.iter().map(|r| r.id.as_str()).collect();
    assert_eq!(ids, vec!["acos", "cos", "sin", "sinf"]);
}

#[test]
fn reruns_give_the_same_catalog() {
    let make = || {
        vec![
            unit("b.rs", vec![public(good("j0", &["f64"], Some("f64")))]),
            unit("a.rs", vec![public(good("jn", &["i32", "f64"], Some("f64")))]),
        ]
    };
    let first = for_each_api(order_units(make()), &lenient()).ok().unwrap();
    let second = for_each_api(order_units(make()), &lenient()).ok().unwrap();
    let view = |e: &libm_analyze::api::Expansion| {
        e.records.iter().map(|r| render_invocation("m", r)).collect::<Vec<_>>()
    };
    assert_eq!(view(&first), view(&second));
}

#[test]
fn strict_mode_fails_on_errors() {
    let mut c = good("sin", &["f64"], Some("f64"));
    c.is_const = true;
    let cfg = Config { ignored: Vec::new(), unsafe_excludes: false, strict: true };
    let units = vec![unit("a.rs", vec![public(c), public(good("cos", &["f64"], Some("f64")))])];
    let errs = for_each_api(units, &cfg).err().unwrap();
    assert_eq!(errs.len(), 1);
    assert_eq!(errs[0].kind, ErrorKind::IsConst);
    let clean = vec![unit("a.rs", vec![public(good("cos", &["f64"], Some("f64")))])];
    assert!(for_each_api(clean, &cfg).is_ok());
}

#[test]
fn category_is_pure_and_capitalizes() {
    assert_eq!(category("sin").ok().unwrap(), "Sin");
    assert_eq!(category("j0").ok().unwrap(), "J0");
    assert_eq!(category("Already").ok().unwrap(), "Already");
    assert_eq!(category("tgamma").ok().unwrap(), category("tgamma").ok().unwrap());
}

#[test]
fn empty_identifier_has_no_category() {
    assert_eq!(category("").err(), Some(CategoryError::InvalidIdentifier));
}

#[test]
fn empty_identifier_is_not_well_formed() {
    let units = vec![unit("a.rs", vec![public(good("", &[], None))])];
    assert!(!units_valid(&units));
    let units = vec![unit("a.rs", vec![public(good("x", &[], None))])];
    assert!(units_valid(&units));
}

#[test]
fn argument_names_are_positional() {
    let ids = get_arg_ids(12);
    assert_eq!(ids[0], "x0");
    assert_eq!(ids[9], "x9");
    assert_eq!(ids[11], "x11");
    assert!(get_arg_ids(0).is_empty());
}

#[test]
fn whitelist_accepts_numeric_and_single_pointers() {
    for name in ["i8", "i16", "i32", "i64", "isize", "u8", "u16", "u32", "u64", "usize", "f32", "f64"] {
        assert!(valid_ty(&prim(name)));
        assert!(valid_ty(&ptr(true, prim(name))));
        assert!(valid_ty(&ptr(false, prim(name))));
    }
    assert!(!valid_ty(&prim("bool")));
    assert!(!valid_ty(&prim("i128")));
    assert!(!valid_ty(&ptr(true, ptr(true, prim("f64")))));
    assert!(!valid_ty(&ptr(false, TypeNode::Other)));
    assert!(!valid_ty(&TypeNode::Other));
    let long = TypeNode::Path(TypePath { qualified: false, segments: vec!["core".to_string(), "f64".to_string()] });
    assert!(!valid_ty(&long));
    let qualified = TypeNode::Path(TypePath { qualified: true, segments: vec!["f64".to_string()] });
    assert!(!valid_ty(&qualified));
}

#[test]
fn pointer_arguments_are_cataloged() {
    let mut c = good("sincos", &["f64"], None);
    c.params.push(Param::Captured(ptr(true, prim("f64"))));
    c.params.push(Param::Captured(ptr(true, prim("f64"))));
    let exp = for_each_api(vec![unit("a.rs", vec![public(c)])], &lenient()).ok().unwrap();
    let r = &exp.records[0];
    assert_eq!(r.arg_tys.iter().map(ty_text).collect::<Vec<_>>(), vec!["f64", "*mut f64", "*mut f64"]);
    assert!(r.ret_ty.is_none());
    assert_eq!(
        render_invocation("bench", r),
        "bench! { id: sincos; api_kind: Sincos; arg_tys: f64, *mut f64, *mut f64; arg_ids: x0, x1, x2; ret_ty: ; }"
    );
}

#[test]
fn cos_invocation_text() {
    let exp = for_each_api(vec![unit("a.rs", vec![public(good("cos", &["f64"], Some("f64")))])], &lenient()).ok().unwrap();
    assert_eq!(
        render_invocation("test_api", &exp.records[0]),
        "test_api! { id: cos; api_kind: Cos; arg_tys: f64; arg_ids: x0; ret_ty: f64; }"
    );
}

#[test]
fn error_messages() {
    let mut c = good("sin", &["f64"], Some("f64"));
    c.is_const = true;
    let cat = get_functions(vec![c], false);
    assert_eq!(cat.errors[0].message(), "[error]: Function \"sin\" is const");
}

#[test]
fn ignore_list_splits_on_commas() {
    assert_eq!(parse_ignore_list("a,bb,c"), vec!["a", "bb", "c"]);
    assert_eq!(parse_ignore_list(""), vec![""]);
    assert_eq!(parse_ignore_list("x,"), vec!["x", ""]);
}

#[test]
fn source_paths_by_extension() {
    let exts = vec!["rs".to_string()];
    assert!(source_path("src/math/sin.rs", &exts));
    assert!(!source_path("src/math/README.md", &exts));
    assert!(!source_path("rs", &exts));
    assert!(!source_path("src/mathrs", &exts));
}

#[test]
fn text_helpers() {
    assert!(text_eq("abc", "abc"));
    assert!(!text_eq("abc", "abd"));
    assert!(contains_text("# [ inline ( always ) ]", "inline"));
    assert!(!contains_text("# [ inlin ]", "inline"));
    assert!(contains_text("x", ""));
    assert!(text_lt("a.rs", "a/b.rs"));
    assert!(text_lt("ab", "abc"));
    assert!(!text_lt("abc", "abc"));
}

#[test]
fn equal_paths_keep_their_order() {
    let units = vec![
        unit("b.rs", vec![public(good("first", &[], None))]),
        unit("a.rs", vec![]),
        unit("b.rs", vec![public(good("second", &[], None))]),
    ];
    let ordered = order_units(units);
    let paths: Vec<&str> = ordered.iter().map(|u| u.path.as_str()).collect();
    assert_eq!(paths, vec!["a.rs", "b.rs", "b.rs"]);
    let exp = for_each_api(ordered, &lenient()).ok().unwrap();
    let ids: Vec<&str> = exp.records.iter().map(|r| r.id.as_str()).collect();
    assert_eq!(ids, vec!["first", "second"]);
}
