use hhat_lang::errors::{ErrorKind, ModuleError};
use hhat_lang::hir::{
    Block, ConstDef, Modifier, PrimitiveDef, Symbol, TypeDef, TypeName,
};
use hhat_lang::ids::BackendKind;
use hhat_lang::modules::HIRModule;
use hhat_lang::project::{is_source_file, load_module, load_project, ParsedFile, ScannedFile, SourceProject, TopLevelDef};

const PATH: &str = "../../python/tests/dialects/heather/parsing/parse-test/";

fn sym(s: &str) -> Symbol {
    Symbol::new(String::from(s), BackendKind::CPU)
}

fn tyname(s: &str) -> TypeName {
    TypeName { name: sym(s), modifiers: Modifier { name: sym("none"), value: None } }
}

fn scanned(path: &str, contents: Option<&str>) -> ScannedFile {
    ScannedFile { path: String::from(path), contents: contents.map(String::from) }
}

#[test]
fn check_project_source() {
    let files = vec![
        scanned(&format!("{}consts.hat", PATH), Some("[a b]")),
        scanned(&format!("{}types.hat", PATH), Some("[c]")),
    ];
    let ps = SourceProject::new(PATH, files);
    println!("{} {}", ps.root, ps.sources.len());
    assert!(!ps.is_empty());
}

#[test]
fn split_string() {
    let path_str = String::from("some/dir/like/str");
    let res = HIRModule::string_to_vec(&path_str);
    println!("{:?}", res);
    assert_eq!(res, vec!["some", "dir", "like", "str"]);
}

#[test]
fn split_keeps_empty_segments() {
    assert_eq!(HIRModule::string_to_vec(&String::from("a//b/")), vec!["a", "", "b", ""]);
    assert_eq!(HIRModule::string_to_vec(&String::from("")), vec![""]);
}

#[test]
fn partial_failure_scan() {
    let files = vec![
        scanned("p/a.hat", Some("[a]")),
        scanned("p/broken.hat", None),
        scanned("p/notes.txt", Some("ignored")),
        scanned("p/sub/b.hat", Some("[b]")),
    ];
    let ps = SourceProject::new("p", files);
    assert_eq!(ps.sources.len(), 2);
    assert_eq!(ps.sources[0].path, "p/a.hat");
    assert_eq!(ps.sources[1].raw_code, "[b]");
    assert_eq!(ps.unreadable.len(), 1);
    assert_eq!(ps.unreadable[0].kind, ErrorKind::UnreadableFile);
    assert_eq!(ps.unreadable[0].detail, "p/broken.hat");
    assert_eq!(ps.unreadable[0].module.to_string(), "p.broken.hat");
}

#[test]
fn empty_project_is_empty() {
    let ps = SourceProject::new("p", vec![scanned("p/readme.md", Some("x"))]);
    assert!(ps.is_empty());
    assert!(ps.unreadable.is_empty());
}

#[test]
fn source_file_extension() {
    assert!(is_source_file("a.hat"));
    assert!(is_source_file("dir/x.y.hat"));
    assert!(!is_source_file(".hat"));
    assert!(!is_source_file("dir/.hat"));
    assert!(!is_source_file("a.hatx"));
    assert!(!is_source_file("a.txt"));
}

#[test]
fn mixed_content_is_rejected() {
    let items = vec![
        TopLevelDef::Const(ConstDef { name: sym("k"), ty: tyname("u32"), modifiers: vec![] }),
        TopLevelDef::Type(TypeDef::PrimitiveDef(PrimitiveDef::U32)),
    ];
    let r = load_module(String::from("lib/mixed"), vec![], items);
    match r {
        Err(e) => {
            assert_eq!(e.kind, ErrorKind::MixedFileContent);
            assert_eq!(e.detail, "lib/mixed");
        }
        Ok(_) => panic!("a mixed file must not load"),
    }
}

#[test]
fn homogeneous_content_loads() {
    let items = vec![
        TopLevelDef::Const(ConstDef { name: sym("k"), ty: tyname("u32"), modifiers: vec![] }),
        TopLevelDef::Const(ConstDef { name: sym("j"), ty: tyname("u32"), modifiers: vec![] }),
    ];
    let m = load_module(String::from("lib/consts"), vec![], items).ok().unwrap();
    assert_eq!(m.name.to_string(), "lib.consts");
    match m.content {
        hhat_lang::hir::Content::Consts(v) => {
            assert_eq!(v.len(), 2);
            assert_eq!(v[1].name.value, "j");
        }
        _ => panic!("constants expected"),
    }
    let _ = Block(vec![]);
}

#[test]
fn module_error_messages() {
    assert_eq!(ModuleError::ModuleNotFound.message(), "Module not found");
    assert_eq!(ModuleError::CannotReadFile.message(), "Cannot read file");
}

#[test]
fn mixed_file_is_left_out_of_the_project() {
    let konst = |n: &str| TopLevelDef::Const(ConstDef { name: sym(n), ty: tyname("u32"), modifiers: vec![] });
    let files = vec![
        ParsedFile { path: String::from("a"), imports: vec![], items: vec![konst("x")] },
        ParsedFile {
            path: String::from("mixed"),
            imports: vec![],
            items: vec![konst("y"), TopLevelDef::Type(TypeDef::PrimitiveDef(PrimitiveDef::U32))],
        },
        ParsedFile { path: String::from("b/c"), imports: vec![], items: vec![konst("z")] },
    ];
    let (modules, errors) = load_project(files);
    let names: Vec<String> = modules.iter().map(|m| m.name.to_string()).collect();
    assert_eq!(names, vec!["a".to_string(), "b.c".to_string()]);
    assert_eq!(errors.len(), 1);
    assert_eq!(errors[0].kind, ErrorKind::MixedFileContent);
    assert_eq!(errors[0].detail, "mixed");
}
