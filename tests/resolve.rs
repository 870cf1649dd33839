use hhat_lang::errors::ErrorKind;
use hhat_lang::hir::{
    Block, CompositeSymbol, GroupsDef, MetaCall, Stmt, ConstDef, Content, DefCategory, EnumMember, Expr, FnDef,
    ImportPathSymbol, Imports, Literal, Modifier, ModifierDef, Param, StructDef, StructMember,
    Symbol, TypeDef, TypeName,
};
use hhat_lang::ids::{BackendKind, Path, SchedulingMode};
use hhat_lang::members::resolve_member_path;
use hhat_lang::modules::HIRModule;
use hhat_lang::planner::{plan_expr, plan_exprs, Demand};
use hhat_lang::resolver::{bind_call, collect_declarations, resolve_project, Resolution};

fn sym(s: &str) -> Symbol {
    Symbol::new(String::from(s), BackendKind::CPU)
}

fn qsym(s: &str) -> Symbol {
    Symbol::new(String::from(s), BackendKind::QPU)
}

fn tyname(s: &str) -> TypeName {
    TypeName { name: sym(s), modifiers: Modifier { name: sym("none"), value: None } }
}

fn path(segs: &[&str]) -> Path {
    Path::new(segs.iter().map(|s| String::from(*s)).collect())
}

fn konst(name: Symbol) -> ConstDef {
    ConstDef { name, ty: tyname("u32"), modifiers: vec![] }
}

fn func(name: &str) -> FnDef {
    FnDef { name: sym(name), params: vec![], ty: tyname("u32"), modifiers: vec![], body: Block(vec![]) }
}

fn import(name: &str, from: &[&str]) -> ImportPathSymbol {
    ImportPathSymbol::new(sym(name), path(from))
}

fn module(name: &[&str], imports: Vec<Imports>, content: Content) -> HIRModule {
    HIRModule { name: path(name), imports, content }
}

fn consts_module(name: &[&str], defs: Vec<ConstDef>) -> HIRModule {
    module(name, vec![], Content::Consts(defs))
}

fn link_summary(r: &Resolution) -> Vec<(u32, Vec<(String, usize)>)> {
    r.project
        .modules
        .iter()
        .map(|m| (m.id.0, m.links.iter().map(|l| (l.name.value.clone(), l.module)).collect()))
        .collect()
}

fn error_summary(r: &Resolution) -> Vec<(ErrorKind, String, String)> {
    r.errors.iter().map(|e| (e.kind, e.module.to_string(), e.detail.clone())).collect()
}

#[test]
fn duplicate_definition_is_reported() {
    let ms = vec![consts_module(&["lib", "k"], vec![konst(sym("a")), konst(sym("b")), konst(sym("a"))])];
    let r = resolve_project(&ms);
    assert!(r.project.modules.is_empty());
    assert_eq!(error_summary(&r), vec![(ErrorKind::DuplicateDefinition, "lib.k".to_string(), "a".to_string())]);
}

#[test]
fn same_name_other_backend_is_no_duplicate() {
    let ms = vec![consts_module(&["k"], vec![konst(sym("a")), konst(qsym("a"))])];
    let r = resolve_project(&ms);
    assert!(r.errors.is_empty());
    assert_eq!(r.project.modules.len(), 1);
}

#[test]
fn imports_bind_to_defining_module() {
    let ms = vec![
        consts_module(&["lib", "k"], vec![konst(sym("pi")), konst(sym("e"))]),
        module(&["lib", "f"], vec![], Content::Groups(vec![hhat_lang::hir::GroupsDef::FnDef(func("sum"))])),
        module(
            &["main"],
            vec![Imports::Consts(vec![import("e", &["lib", "k"])]), Imports::Fns(vec![import("sum", &["lib", "f"])])],
            Content::Groups(vec![]),
        ),
    ];
    let r = resolve_project(&ms);
    assert!(r.errors.is_empty());
    assert_eq!(
        link_summary(&r),
        vec![(0, vec![]), (1, vec![]), (2, vec![("e".to_string(), 0), ("sum".to_string(), 1)])]
    );
    assert_eq!(r.project.modules[2].links[1].category, DefCategory::Fn);
}

#[test]
fn unresolved_and_ambiguous_imports() {
    let ms = vec![
        consts_module(&["lib"], vec![konst(sym("pi"))]),
        module(
            &["a"],
            vec![Imports::Consts(vec![import("tau", &["lib"]), import("pi", &["lib"]), import("pi", &["lib"])])],
            Content::Consts(vec![]),
        ),
        module(&["b"], vec![Imports::Consts(vec![import("pi", &["lib"])])], Content::Consts(vec![konst(sym("pi"))])),
        module(&["c"], vec![Imports::Fns(vec![import("pi", &["lib"])])], Content::Groups(vec![])),
    ];
    let r = resolve_project(&ms);
    assert_eq!(
        error_summary(&r),
        vec![
            (ErrorKind::UnresolvedImport, "a".to_string(), "tau".to_string()),
            (ErrorKind::AmbiguousImport, "a".to_string(), "pi".to_string()),
            (ErrorKind::AmbiguousImport, "b".to_string(), "pi".to_string()),
            (ErrorKind::UnresolvedImport, "c".to_string(), "pi".to_string()),
        ]
    );
    assert_eq!(link_summary(&r), vec![(0, vec![])]);
}

#[test]
fn import_from_wrong_path_is_unresolved() {
    let ms = vec![
        consts_module(&["lib"], vec![konst(sym("pi"))]),
        module(&["m"], vec![Imports::Consts(vec![import("pi", &["other"])])], Content::Consts(vec![])),
    ];
    let r = resolve_project(&ms);
    assert_eq!(error_summary(&r), vec![(ErrorKind::UnresolvedImport, "m".to_string(), "pi".to_string())]);
}

#[test]
fn resolution_is_idempotent() {
    let build = || {
        vec![
            consts_module(&["lib"], vec![konst(sym("pi")), konst(sym("pi"))]),
            consts_module(&["x"], vec![konst(sym("q"))]),
            module(&["m"], vec![Imports::Consts(vec![import("q", &["x"])])], Content::Consts(vec![])),
        ]
    };
    let ms = build();
    let a = resolve_project(&ms);
    let b = resolve_project(&ms);
    assert_eq!(link_summary(&a), link_summary(&b));
    assert_eq!(error_summary(&a), error_summary(&b));
    assert_eq!(link_summary(&a), vec![(1, vec![]), (2, vec![("q".to_string(), 1)])]);
}

fn color_types() -> Vec<TypeDef> {
    let member = |n: &str| StructMember { name: sym(n), ty: tyname("u8") };
    vec![
        TypeDef::NamedType { name: sym("color") },
        TypeDef::EnumDef {
            name: sym("color"),
            members: vec![
                EnumMember::StructMember(StructDef {
                    name: sym("rgb"),
                    members: vec![member("r"), member("g"), member("b")],
                    modifiers: vec![],
                }),
                EnumMember::StructMember(StructDef {
                    name: sym("hex"),
                    members: vec![member("value")],
                    modifiers: vec![],
                }),
                EnumMember::KindMember(sym("none")),
            ],
            modifiers: vec![],
        },
    ]
}

fn composite(names: &[&str]) -> CompositeSymbol {
    CompositeSymbol::new(names.iter().map(|n| sym(n)).collect())
}

#[test]
fn composite_path_resolution() {
    let types = color_types();
    let m = path(&["types"]);
    let l = resolve_member_path(&m, &types, &composite(&["color", "rgb", "r"])).ok().unwrap();
    assert_eq!((l.ty, l.variant, l.member), (1, Some(0), Some(0)));
    let l = resolve_member_path(&m, &types, &composite(&["color", "hex", "value"])).ok().unwrap();
    assert_eq!((l.ty, l.variant, l.member), (1, Some(1), Some(0)));
    let l = resolve_member_path(&m, &types, &composite(&["color", "none"])).ok().unwrap();
    assert_eq!((l.ty, l.variant, l.member), (1, Some(2), None));
    let e = resolve_member_path(&m, &types, &composite(&["color", "rgb", "z"])).err().unwrap();
    assert_eq!(e.kind, ErrorKind::UnknownSymbol);
    assert_eq!(e.detail, "z");
}

#[test]
fn composite_path_names_first_unknown_segment() {
    let types = color_types();
    let m = path(&["types"]);
    assert_eq!(resolve_member_path(&m, &types, &composite(&["shade", "rgb"])).err().unwrap().detail, "shade");
    assert_eq!(resolve_member_path(&m, &types, &composite(&["color", "cmyk", "c"])).err().unwrap().detail, "cmyk");
    assert_eq!(resolve_member_path(&m, &types, &composite(&["color", "none", "x"])).err().unwrap().detail, "x");
    assert_eq!(resolve_member_path(&m, &types, &composite(&["color", "rgb", "r", "q"])).err().unwrap().detail, "q");
}

#[test]
fn qpu_in_strict_context_is_illegal() {
    let m = path(&["main"]);
    let e = Expr::Call { callee: qsym("measure"), args: vec![], modifiers: vec![] };
    let err = plan_expr(&m, &e, Demand::Immediate).err().unwrap();
    assert_eq!(err.kind, ErrorKind::IllegalStrictQpu);
    assert_eq!(err.detail, "measure");
    assert_eq!(plan_expr(&m, &e, Demand::Default).ok(), Some(SchedulingMode::Staged));
    assert_eq!(plan_expr(&m, &e, Demand::Staged).ok(), Some(SchedulingMode::Staged));
}

#[test]
fn classical_defaults_to_strict() {
    let m = path(&["main"]);
    let e = Expr::Literal(Literal::Int(7, BackendKind::GPU));
    assert_eq!(plan_expr(&m, &e, Demand::Default).ok(), Some(SchedulingMode::Strict));
    assert_eq!(plan_expr(&m, &e, Demand::Immediate).ok(), Some(SchedulingMode::Strict));
    assert_eq!(plan_expr(&m, &e, Demand::Staged).ok(), Some(SchedulingMode::Staged));
}

#[test]
fn plan_map_collects_every_error() {
    let m = path(&["main"]);
    let es = vec![
        Expr::Literal(Literal::Int(3, BackendKind::QPU)),
        Expr::Id(sym("x")),
        Expr::DataMemberAccess(CompositeSymbol::new(vec![qsym("q"), sym("m")])),
        Expr::Id(qsym("y")),
    ];
    let ds = vec![Demand::Immediate, Demand::Default, Demand::Immediate, Demand::Default];
    let p = plan_exprs(&m, &es, &ds);
    let modes: Vec<(u32, SchedulingMode)> = p.modes.iter().map(|(i, s)| (i.0, *s)).collect();
    assert_eq!(modes, vec![(1, SchedulingMode::Strict), (3, SchedulingMode::Staged)]);
    let errs: Vec<String> = p.errors.iter().map(|e| e.detail.clone()).collect();
    assert_eq!(errs, vec!["".to_string(), "q".to_string()]);
}

#[test]
fn modifier_arity_is_checked() {
    let param = |n: &str| Param { name: sym(n), ty: tyname("u32"), modifiers: vec![] };
    let ok = ModifierDef::new(sym("shots"), vec![param("n")], vec![], Block(vec![])).ok().unwrap();
    assert!(ok.params[0].is_some() && ok.params[1].is_none());
    let two = ModifierDef::new(sym("dev"), vec![param("a"), param("b")], vec![], Block(vec![])).ok().unwrap();
    assert_eq!(two.params[1].as_ref().unwrap().name.value, "b");
    let err = ModifierDef::new(sym("bad"), vec![param("a"), param("b"), param("c")], vec![], Block(vec![]));
    assert_eq!(err.err().unwrap().declared, 3);
}

#[test]
fn calls_bind_to_local_or_imported_callables() {
    let ms = vec![
        module(&["lib"], vec![], Content::Groups(vec![hhat_lang::hir::GroupsDef::FnDef(func("sum"))])),
        module(
            &["main"],
            vec![Imports::Fns(vec![import("sum", &["lib"]), import("gone", &["lib"])])],
            Content::Groups(vec![hhat_lang::hir::GroupsDef::FnDef(func("go"))]),
        ),
    ];
    let table = collect_declarations(&ms);
    assert_eq!(table.decls[1].len(), 1);
    assert_eq!(bind_call(&ms, &table, 1, &sym("go")).ok(), Some(1));
    assert_eq!(bind_call(&ms, &table, 1, &sym("sum")).ok(), Some(0));
    let e = bind_call(&ms, &table, 1, &sym("nope")).err().unwrap();
    assert_eq!((e.kind, e.detail.as_str()), (ErrorKind::UnknownSymbol, "nope"));
    let e = bind_call(&ms, &table, 1, &sym("gone")).err().unwrap();
    assert_eq!(e.kind, ErrorKind::UnknownSymbol);
    assert!(bind_call(&ms, &table, 1, &qsym("sum")).is_err());
}

fn call(name: Symbol, args: Vec<Expr>) -> Expr {
    Expr::Call { callee: name, args, modifiers: vec![] }
}

fn func_with(name: &str, params: Vec<&str>, body: Vec<Stmt>) -> GroupsDef {
    let params = params
        .into_iter()
        .map(|p| Param { name: sym(p), ty: tyname("u32"), modifiers: vec![] })
        .collect();
    GroupsDef::FnDef(FnDef { name: sym(name), params, ty: tyname("u32"), modifiers: vec![], body: Block(body) })
}

#[test]
fn calls_in_bodies_are_bound() {
    let body = vec![
        Stmt::Expr(call(sym("sum"), vec![call(sym("nope"), vec![]), Expr::Id(sym("x"))])),
        Stmt::Return(Expr::MetaCall(MetaCall::Bdn {
            name: sym("loop"),
            args: vec![],
            body: Block(vec![Stmt::Expr(call(qsym("measure"), vec![]))]),
            modifiers: vec![],
        })),
    ];
    let ms = vec![
        module(&["lib"], vec![], Content::Groups(vec![GroupsDef::FnDef(func("sum"))])),
        module(
            &["main"],
            vec![Imports::Fns(vec![import("sum", &["lib"])])],
            Content::Groups(vec![func_with("go", vec![], body)]),
        ),
    ];
    let r = resolve_project(&ms);
    assert_eq!(
        error_summary(&r),
        vec![
            (ErrorKind::UnknownSymbol, "main".to_string(), "nope".to_string()),
            (ErrorKind::UnknownSymbol, "main".to_string(), "x".to_string()),
            (ErrorKind::UnknownSymbol, "main".to_string(), "loop".to_string()),
            (ErrorKind::UnknownSymbol, "main".to_string(), "measure".to_string()),
        ]
    );
    assert_eq!(link_summary(&r), vec![(0, vec![])]);
}

#[test]
fn identifiers_bind_to_scope_or_constants() {
    let body = vec![
        Stmt::DeclareAssign { name: sym("y"), ty: tyname("u32"), modifiers: vec![], value: Expr::Id(sym("a")) },
        Stmt::Expr(Expr::Id(sym("y"))),
        Stmt::Expr(Expr::Id(sym("pi"))),
        Stmt::Return(Expr::Id(sym("undefined"))),
    ];
    let ms = vec![
        consts_module(&["k"], vec![konst(sym("pi"))]),
        module(
            &["main"],
            vec![Imports::Consts(vec![import("pi", &["k"])])],
            Content::Groups(vec![func_with("go", vec!["a"], body)]),
        ),
    ];
    let r = resolve_project(&ms);
    assert_eq!(
        error_summary(&r),
        vec![(ErrorKind::UnknownSymbol, "main".to_string(), "undefined".to_string())]
    );
    assert_eq!(r.project.modules.len(), 1);
}

#[test]
fn member_access_needs_a_visible_type_or_variable() {
    let body = vec![
        Stmt::Expr(Expr::DataMemberAccess(composite(&["color", "rgb", "r"]))),
        Stmt::Expr(Expr::DataMemberAccess(composite(&["v", "field"]))),
        Stmt::Expr(Expr::DataMemberAccess(composite(&["shade", "x"]))),
        Stmt::Expr(Expr::DataMemberAccess(composite(&["color", "rgb", "z"]))),
    ];
    let ms = vec![
        module(&["types"], vec![], Content::Types(color_types().into_iter().skip(1).collect())),
        module(
            &["main"],
            vec![Imports::Types(vec![import("color", &["types"])])],
            Content::Groups(vec![func_with("go", vec!["v"], body)]),
        ),
    ];
    let r = resolve_project(&ms);
    assert_eq!(
        error_summary(&r),
        vec![
            (ErrorKind::UnknownSymbol, "main".to_string(), "shade".to_string()),
            (ErrorKind::UnknownSymbol, "main".to_string(), "z".to_string()),
        ]
    );
}

#[test]
fn qpu_modifier_argument_stops_mapping() {
    let shots = Modifier { name: sym("shots"), value: Some(Expr::Literal(Literal::Int(3, BackendKind::QPU))) };
    let body = vec![Stmt::Declare { name: sym("q"), ty: tyname("u32"), modifiers: vec![shots] }];
    let ms = vec![module(&["main"], vec![], Content::Groups(vec![func_with("go", vec![], body)]))];
    let r = resolve_project(&ms);
    assert_eq!(error_summary(&r), vec![(ErrorKind::IllegalStrictQpu, "main".to_string(), "".to_string())]);
    assert!(r.project.modules.is_empty());
}

#[test]
fn mapped_module_keeps_scheduling_modes() {
    let body = vec![Stmt::Return(call(sym("go"), vec![
        Expr::Literal(Literal::Int(3, BackendKind::QPU)),
        Expr::Id(qsym("a")),
    ]))];
    let go = FnDef {
        name: sym("go"),
        params: vec![Param { name: qsym("a"), ty: tyname("u32"), modifiers: vec![] }],
        ty: tyname("u32"),
        modifiers: vec![],
        body: Block(body),
    };
    let ms = vec![module(&["main"], vec![], Content::Groups(vec![GroupsDef::FnDef(go)]))];
    let r = resolve_project(&ms);
    assert!(r.errors.is_empty());
    assert_eq!(
        r.project.modules[0].modes,
        vec![
            (BackendKind::CPU, SchedulingMode::Strict),
            (BackendKind::QPU, SchedulingMode::Staged),
            (BackendKind::QPU, SchedulingMode::Staged),
        ]
    );
    assert_eq!(r.project.modules[0].calls, vec![0]);
}

#[test]
fn modifier_definition_keeps_its_parts() {
    let param = |n: &str| Param { name: sym(n), ty: tyname("u32"), modifiers: vec![] };
    let tag = Modifier { name: sym("inline"), value: None };
    let body = Block(vec![Stmt::Return(Expr::Id(sym("a")))]);
    let m = ModifierDef::new(sym("dev"), vec![param("a"), param("b")], vec![tag], body).ok().unwrap();
    assert_eq!(m.params[0].as_ref().unwrap().name.value, "a");
    assert_eq!(m.params[1].as_ref().unwrap().name.value, "b");
    assert_eq!(m.modifiers[0].name.value, "inline");
    assert_eq!(m.body.0.len(), 1);
    let none = ModifierDef::new(sym("mut"), vec![], vec![], Block(vec![])).ok().unwrap();
    assert!(none.params[0].is_none() && none.params[1].is_none());
}

#[test]
fn mapped_module_keeps_call_bindings() {
    let body = vec![
        Stmt::Expr(call(sym("sum"), vec![])),
        Stmt::Return(call(sym("go"), vec![call(sym("sum"), vec![])])),
    ];
    let ms = vec![
        module(&["lib"], vec![], Content::Groups(vec![GroupsDef::FnDef(func("sum"))])),
        module(
            &["main"],
            vec![Imports::Fns(vec![import("sum", &["lib"])])],
            Content::Groups(vec![func_with("go", vec![], body)]),
        ),
    ];
    let r = resolve_project(&ms);
    assert!(r.errors.is_empty());
    assert_eq!(r.project.modules[1].calls, vec![0, 1, 0]);
    assert!(r.project.modules[0].calls.is_empty());
}
