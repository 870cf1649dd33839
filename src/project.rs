//! Definition of project-related objects.
//!
//! The objects appearance order reflects its position on the compilation
//! steps: sources, unresolved modules, mapped modules.

use vstd::prelude::*;
use crate::errors::{Diagnostic, ErrorKind};
use crate::hir::{ConstDef, Content, GroupsDef, Imports, TypeDef};
use crate::ids::{ModuleId, Path};
use crate::modules::HIRModule;
use crate::text::split_on;

verus! {

/// Source files carry this extension.
pub open spec fn has_hat_extension(p: Seq<char>) -> bool {
    &&& p.len() >= 5
    &&& p.subrange(p.len() - 4, p.len() as int) == seq!['.', 'h', 'a', 't']
    &&& p[p.len() - 5] != '/'
}

/// Whether a discovered file path names a source file of the language.
pub fn is_source_file(path: &str) -> (r: bool)
    ensures
        r == has_hat_extension(path@),
{
    let n = path.unicode_len();
    if n < 5 {
        return false;
    }
    let ok = path.get_char(n - 4) == '.' && path.get_char(n - 3) == 'h' && path.get_char(n - 2)
        == 'a' && path.get_char(n - 1) == 't' && path.get_char(n - 5) != '/';
    proof {
        let t = path@.subrange(n - 4, n as int);
        if ok {
            assert(t =~= seq!['.', 'h', 'a', 't']);
        } else if path@[n - 5] != '/' {
            assert(t[0] != '.' || t[1] != 'h' || t[2] != 'a' || t[3] != 't');
        }
    }
    ok
}

/// A file found under the project root, with its text where it could be
/// read.
pub struct ScannedFile {
    pub path: String,
    pub contents: Option<String>,
}

/// Raw code's module object.
pub struct SourceModule {
    pub path: String,
    pub raw_code: String,
}

impl SourceModule {
    pub fn new(path: String, raw_code: String) -> (r: Self)
        requires
            path@.len() > 0,
        ensures
            r.path@ == path@,
            r.raw_code@ == raw_code@,
    {
        SourceModule { path, raw_code }
    }
}

/// Raw code's project object: every source file under the root, read into
/// a source module, and every source file that could not be read.
///
/// It is the very first step on the project compilation pipeline.
pub struct SourceProject {
    pub root: String,
    pub sources: Vec<SourceModule>,
    pub unreadable: Vec<Diagnostic>,
}

/// What the scan keeps of the first `n` scanned files: the paths and texts
/// of the readable source files.
pub open spec fn readable_sources(files: Seq<ScannedFile>, n: nat) -> Seq<(Seq<char>, Seq<char>)>
    decreases n,
{
    if n == 0 {
        Seq::empty()
    } else {
        let prev = readable_sources(files, (n - 1) as nat);
        let f = files[n - 1];
        if has_hat_extension(f.path@) && f.contents is Some {
            prev.push((f.path@, f.contents->0@))
        } else {
            prev
        }
    }
}

/// The failures of the scan of the first `n` files: one `UnreadableFile`
/// naming each source file that could not be read.
pub open spec fn unreadable_files(files: Seq<ScannedFile>, n: nat) -> Seq<
    (ErrorKind, Seq<Seq<char>>, Seq<char>),
>
    decreases n,
{
    if n == 0 {
        Seq::empty()
    } else {
        let prev = unreadable_files(files, (n - 1) as nat);
        let f = files[n - 1];
        if has_hat_extension(f.path@) && f.contents is None {
            prev.push((ErrorKind::UnreadableFile, split_on(f.path@, '/'), f.path@))
        } else {
            prev
        }
    }
}

/// How many of the first `n` scanned files are source files.
pub open spec fn source_count(files: Seq<ScannedFile>, n: nat) -> nat
    decreases n,
{
    if n == 0 {
        0
    } else {
        source_count(files, (n - 1) as nat) + if has_hat_extension(files[n - 1].path@) {
            1nat
        } else {
            0nat
        }
    }
}

/// An unreadable file does not stop the scan: every source file is either
/// read into a module or reported as unreadable, exactly once.
pub proof fn lemma_scan_accounts_for_every_file(files: Seq<ScannedFile>, n: nat)
    requires
        n <= files.len(),
    ensures
        readable_sources(files, n).len() + unreadable_files(files, n).len() == source_count(files, n),
    decreases n,
{
    if n > 0 {
        lemma_scan_accounts_for_every_file(files, (n - 1) as nat);
    }
}

impl SourceProject {
    /// Gathers the scanned files of a project: files without the source
    /// extension are ignored; an unreadable source file is reported and
    /// does not stop the others.
    pub fn new(root_path: &str, files: Vec<ScannedFile>) -> (r: Self)
        ensures
            r.root@ == root_path@,
            r.sources@.map_values(|m: SourceModule| (m.path@, m.raw_code@)) == readable_sources(
                files@,
                files@.len(),
            ),
            r.unreadable@.map_values(|d: Diagnostic| d@) == unreadable_files(
                files@,
                files@.len(),
            ),
    {
        let mut sources: Vec<SourceModule> = Vec::new();
        let mut unreadable: Vec<Diagnostic> = Vec::new();
        let mut i: usize = 0;
        while i < files.len()
            invariant
                0 <= i <= files@.len(),
                sources@.map_values(|m: SourceModule| (m.path@, m.raw_code@)) == readable_sources(
                    files@,
                    i as nat,
                ),
                unreadable@.map_values(|d: Diagnostic| d@) == unreadable_files(files@, i as nat),
            decreases files@.len() - i,
        {
            let f = &files[i];
            if is_source_file(f.path.as_str()) {
                match &f.contents {
                    Some(text) => {
                        let m = SourceModule::new(f.path.clone(), text.clone());
                        sources.push(m);
                        proof {
                            assert(sources@.map_values(|m: SourceModule| (m.path@, m.raw_code@))
                                =~= readable_sources(files@, (i + 1) as nat));
                        }
                    },
                    None => {
                        let segments = HIRModule::string_to_vec(&f.path);
                        let d = Diagnostic::new(
                            ErrorKind::UnreadableFile,
                            Path::new(segments),
                            f.path.clone(),
                        );
                        unreadable.push(d);
                        proof {
                            assert(unreadable@.map_values(|d: Diagnostic| d@) =~= unreadable_files(
                                files@,
                                (i + 1) as nat,
                            ));
                        }
                    },
                }
            }
            i = i + 1;
        }
        SourceProject { root: String::from_str(root_path), sources, unreadable }
    }

    pub fn is_empty(&self) -> (r: bool)
        ensures
            r == (self.sources@.len() == 0),
    {
        self.sources.len() == 0
    }
}

/// One top-level definition as the parser hands it over, before the file's
/// content kind is settled.
pub enum TopLevelDef {
    Const(ConstDef),
    Type(TypeDef),
    Group(GroupsDef),
}

/// Which of the three content kinds a top-level definition belongs to.
pub open spec fn content_kind(d: TopLevelDef) -> int {
    match d {
        TopLevelDef::Const(_) => 0,
        TopLevelDef::Type(_) => 1,
        TopLevelDef::Group(_) => 2,
    }
}

fn kind_code(d: &TopLevelDef) -> (r: u8)
    ensures
        r as int == content_kind(*d),
{
    match d {
        TopLevelDef::Const(_) => 0,
        TopLevelDef::Type(_) => 1,
        TopLevelDef::Group(_) => 2,
    }
}

/// A file's definitions mix content kinds.
pub open spec fn is_mixed(items: Seq<TopLevelDef>) -> bool {
    exists|i: int, j: int|
        0 <= i < items.len() && 0 <= j < items.len() && content_kind(items[i]) != content_kind(
            items[j],
        )
}

/// The content that homogeneous definitions make, in their order.
pub open spec fn content_matches(c: Content, items: Seq<TopLevelDef>) -> bool {
    match c {
        Content::Consts(v) => v@.len() == items.len() && forall|k: int|
            0 <= k < items.len() ==> items[k] == TopLevelDef::Const(#[trigger] v@[k]),
        Content::Types(v) => v@.len() == items.len() && forall|k: int|
            0 <= k < items.len() ==> items[k] == TopLevelDef::Type(#[trigger] v@[k]),
        Content::Groups(v) => v@.len() == items.len() && forall|k: int|
            0 <= k < items.len() ==> items[k] == TopLevelDef::Group(#[trigger] v@[k]),
    }
}

/// Builds a module from its path, imports and top-level definitions. A file
/// that mixes constants, types and groups is refused with
/// `MixedFileContent`, and no module is made of it.
pub fn load_module(path: String, imports: Vec<Imports>, items: Vec<TopLevelDef>) -> (r: Result<
    HIRModule,
    Diagnostic,
>)
    ensures
        r is Err <==> is_mixed(items@),
        r matches Err(e) ==> e@ == (ErrorKind::MixedFileContent, split_on(path@, '/'), path@),
        r matches Ok(m) ==> {
            &&& m.name@ == split_on(path@, '/')
            &&& m.imports@ == imports@
            &&& content_matches(m.content, items@)
        },
{
    let n = items.len();
    let mut i: usize = 1;
    while i < n
        invariant
            n == items@.len(),
            1 <= i <= n || n == 0,
            forall|k: int| 0 <= k < i && k < n ==> content_kind(#[trigger] items@[k]) == content_kind(items@[0]),
        decreases n - i,
    {
        if kind_code(&items[i]) != kind_code(&items[0]) {
            let segments = HIRModule::string_to_vec(&path);
            let detail = path.clone();
            return Err(Diagnostic::new(ErrorKind::MixedFileContent, Path::new(segments), detail));
        }
        i = i + 1;
    }
    proof {
        assert(!is_mixed(items@));
    }
    let first: u8 = if n == 0 {
        2
    } else {
        kind_code(&items[0])
    };
    let mut items = items;
    let ghost all = items@;
    let mut consts: Vec<ConstDef> = Vec::new();
    let mut types: Vec<TypeDef> = Vec::new();
    let mut groups: Vec<GroupsDef> = Vec::new();
    let mut taken: usize = 0;
    while items.len() > 0
        invariant
            n == all.len(),
            taken + items@.len() == n,
            items@ == all.subrange(taken as int, n as int),
            forall|k: int| 0 <= k < n ==> content_kind(#[trigger] all[k]) == first as int,
            first == 0 ==> consts@.len() == taken && forall|k: int|
                0 <= k < taken ==> all[k] == TopLevelDef::Const(#[trigger] consts@[k]),
            first == 1 ==> types@.len() == taken && forall|k: int|
                0 <= k < taken ==> all[k] == TopLevelDef::Type(#[trigger] types@[k]),
            first == 2 ==> groups@.len() == taken && forall|k: int|
                0 <= k < taken ==> all[k] == TopLevelDef::Group(#[trigger] groups@[k]),
        decreases items@.len(),
    {
        let d = items.remove(0);
        proof {
            assert(d == all[taken as int]);
        }
        match d {
            TopLevelDef::Const(c) => consts.push(c),
            TopLevelDef::Type(t) => types.push(t),
            TopLevelDef::Group(g) => groups.push(g),
        }
        taken = taken + 1;
        proof {
            assert(items@ =~= all.subrange(taken as int, n as int));
        }
    }
    let content = if first == 0 {
        Content::Consts(consts)
    } else if first == 1 {
        Content::Types(types)
    } else {
        Content::Groups(groups)
    };
    Ok(HIRModule::new(path, imports, content))
}

/// One parsed file: its path, imports and top-level definitions.
pub struct ParsedFile {
    pub path: String,
    pub imports: Vec<Imports>,
    pub items: Vec<TopLevelDef>,
}

/// The indices of the first `n` files that do not mix content kinds.
pub open spec fn admitted(files: Seq<ParsedFile>, n: nat) -> Seq<int>
    decreases n,
{
    if n == 0 {
        Seq::empty()
    } else if is_mixed(files[n - 1].items@) {
        admitted(files, (n - 1) as nat)
    } else {
        admitted(files, (n - 1) as nat).push(n - 1)
    }
}

/// One `MixedFileContent` for each of the first `n` files that mixes
/// content kinds.
pub open spec fn mixed_errors(files: Seq<ParsedFile>, n: nat) -> Seq<
    (ErrorKind, Seq<Seq<char>>, Seq<char>),
>
    decreases n,
{
    if n == 0 {
        Seq::empty()
    } else if is_mixed(files[n - 1].items@) {
        mixed_errors(files, (n - 1) as nat).push(
            (ErrorKind::MixedFileContent, split_on(files[n - 1].path@, '/'), files[n - 1].path@),
        )
    } else {
        mixed_errors(files, (n - 1) as nat)
    }
}

/// The module built from a file.
pub open spec fn module_of(m: HIRModule, f: ParsedFile) -> bool {
    &&& m.name@ == split_on(f.path@, '/')
    &&& m.imports@ == f.imports@
    &&& content_matches(m.content, f.items@)
}

/// Loads every parsed file of a project: each file that mixes constants,
/// types and groups is reported and left out whole; every other file
/// becomes a module, in order.
pub fn load_project(files: Vec<ParsedFile>) -> (r: (Vec<HIRModule>, Vec<Diagnostic>))
    ensures
        r.0@.len() == admitted(files@, files@.len()).len(),
        forall|k: int|
            0 <= k < r.0@.len() ==> module_of(
                #[trigger] r.0@[k],
                files@[admitted(files@, files@.len())[k]],
            ),
        r.1@.map_values(|d: Diagnostic| d@) == mixed_errors(files@, files@.len()),
{
    let ghost all = files@;
    let n = files.len();
    let mut files = files;
    let mut modules: Vec<HIRModule> = Vec::new();
    let mut errors: Vec<Diagnostic> = Vec::new();
    let mut taken: usize = 0;
    while files.len() > 0
        invariant
            n == all.len(),
            taken + files@.len() == n,
            files@ == all.subrange(taken as int, n as int),
            modules@.len() == admitted(all, taken as nat).len(),
            forall|k: int|
                0 <= k < modules@.len() ==> module_of(
                    #[trigger] modules@[k],
                    all[admitted(all, taken as nat)[k]],
                ),
            errors@.map_values(|d: Diagnostic| d@) == mixed_errors(all, taken as nat),
        decreases files@.len(),
    {
        let f = files.remove(0);
        proof {
            assert(f == all[taken as int]);
        }
        let ParsedFile { path, imports, items } = f;
        let ghost before = errors@.map_values(|d: Diagnostic| d@);
        match load_module(path, imports, items) {
            Ok(m) => {
                modules.push(m);
            },
            Err(e) => {
                errors.push(e);
                proof {
                    assert(errors@.map_values(|d: Diagnostic| d@) =~= before.push(e@));
                }
            },
        }
        taken = taken + 1;
        proof {
            assert(files@ =~= all.subrange(taken as int, n as int));
        }
    }
    (modules, errors)
}

/// Unresolved project: the set of modules after the first compilation
/// pass.
pub struct UnresolvedProject {
    pub modules: Vec<UnresolvedModule>,
}

/// Categories of unresolved imports.
pub enum UnresolvedImports {
    Consts,
    Types,
    Fns,
    Modifiers,
    MetaFns,
}

/// Unresolved constant definition.
pub struct UConstDef {}

/// Unresolved type definition.
pub struct UTypeDef {}

/// Unresolved function definition.
pub struct UFnDef {}

/// Unresolved cast definition.
pub struct UCastDef {}

/// Unresolved modifier definition.
pub struct UModifierDef {}

/// Unresolved meta-functions definition.
pub struct UMetaFnDef {}

/// Unresolved groups definition.
pub enum UGroupDef {
    Fns(Vec<UFnDef>),
    Casts(Vec<UCastDef>),
    Modifiers(Vec<UModifierDef>),
    MetaFns(Vec<UMetaFnDef>),
}

/// Content inside a [`UnresolvedModule`].
pub enum UnresolvedContent {
    Consts(Vec<UConstDef>),
    Types(Vec<UTypeDef>),
    /// Groups include unresolved function, cast, modifier or meta-functions
    Groups(UGroupDef),
}

/// Unresolved module: the parsing step from raw text to parsed code.
pub struct UnresolvedModule {
    pub id: ModuleId,
    pub path: String,
    pub imports: UnresolvedImports,
    pub content: UnresolvedContent,
}

} // verus!
