use hhat_lang::errors::{Diagnostic, ErrorKind};
use hhat_lang::hir::{CompositeSymbol, ImportPathSymbol, PrimitiveDef, Symbol};
use hhat_lang::ids::{BackendKind, Path};

fn s(v: &str, k: BackendKind) -> Symbol {
    Symbol::new(String::from(v), k)
}

#[test]
fn sugar_markers() {
    assert_eq!(BackendKind::CPU.sugar_fmt(), "");
    assert_eq!(BackendKind::GPU.sugar_fmt(), "+");
    assert_eq!(BackendKind::NPU.sugar_str(), "!");
    assert_eq!(BackendKind::TPU.sugar_str(), "%");
    assert_eq!(BackendKind::QPU.sugar_fmt(), "@");
    assert_eq!(BackendKind::from_marker('@'), Some(BackendKind::QPU));
    assert_eq!(BackendKind::from_marker('+'), Some(BackendKind::GPU));
    assert_eq!(BackendKind::from_marker('x'), None);
    assert!(BackendKind::QPU.is_staged_only());
    assert!(!BackendKind::TPU.is_staged_only());
}

#[test]
fn symbol_display() {
    assert_eq!(s("q", BackendKind::QPU).to_string(), "@q");
    assert_eq!(s("x", BackendKind::CPU).to_string(), "x");
    assert!(s("a", BackendKind::CPU).same_symbol(&s("a", BackendKind::CPU)));
    assert!(!s("a", BackendKind::CPU).same_symbol(&s("a", BackendKind::QPU)));
}

#[test]
fn composite_display() {
    let c = CompositeSymbol::new(vec![s("color", BackendKind::CPU), s("rgb", BackendKind::QPU), s("r", BackendKind::GPU)]);
    assert_eq!(c.to_string(), "color.@rgb.+r");
    let one = CompositeSymbol::new(vec![s("x", BackendKind::NPU)]);
    assert_eq!(one.to_string(), "!x");
}

#[test]
fn import_path_display() {
    let p = Path::new(vec![String::from("lib"), String::from("q")]);
    assert_eq!(p.len(), 2);
    assert_eq!(p.to_string(), "lib.q");
    let i = ImportPathSymbol::new(s("h", BackendKind::QPU), p);
    assert_eq!(i.to_string(), "lib.q.@h");
    let root = ImportPathSymbol::new(s("h", BackendKind::CPU), Path::new(vec![]));
    assert_eq!(root.to_string(), "h");
}

#[test]
fn primitive_names() {
    assert_eq!(PrimitiveDef::U32.symbol().value, "u32");
    assert_eq!(PrimitiveDef::BOOL.symbol().value, "bool");
    assert_eq!(PrimitiveDef::STR.symbol().backend_kind, BackendKind::CPU);
}

#[test]
fn diagnostic_rendering() {
    let d = Diagnostic::new(
        ErrorKind::UnknownSymbol,
        Path::new(vec![String::from("lib"), String::from("types")]),
        String::from("z"),
    );
    assert_eq!(d.to_string(), "lib.types: UnknownSymbol: z");
    assert_eq!(ErrorKind::IllegalStrictQpu.tag(), "IllegalStrictQpu");
    assert_eq!(ErrorKind::InvalidModifierArity.tag(), "InvalidModifierArity");
}

#[test]
fn symbols_read_sugar_markers() {
    let q = Symbol::from_text("@q0");
    assert_eq!((q.value.as_str(), q.backend_kind), ("q0", BackendKind::QPU));
    let g = Symbol::from_text("+x");
    assert_eq!((g.value.as_str(), g.backend_kind), ("x", BackendKind::GPU));
    let c = Symbol::from_text("plain");
    assert_eq!((c.value.as_str(), c.backend_kind), ("plain", BackendKind::CPU));
    assert_eq!(Symbol::from_text("%t").to_string(), "%t");
    assert_eq!(Symbol::from_text("").value, "");
}
