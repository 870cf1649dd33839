//! Project-wide resolver: declaration collection, import binding with its
//! uniqueness rules, binding of the uses in bodies, and scheduling of every
//! expression.

use vstd::prelude::*;
use crate::errors::{Diagnostic, ErrorKind};
use crate::bodies::{block_uses, clone_symbols, collect_block, names_of, Use, UseTag, UseView, uses_of};
use crate::planner::{plan_kind, planned};
use crate::hir::{Block, CompositeSymbol, Content, DefCategory, GroupsDef, ImportPathSymbol, Imports, Symbol, TypeDef};
use crate::members::{member_failure, resolve_member_path};
use crate::ids::{BackendKind, SchedulingMode};
use crate::ids::{ModuleId, Path};
use crate::modules::HIRModule;

verus! {

/// A symbol as the contracts see it: its name and its backend kind.
pub type NameView = (Seq<char>, crate::ids::BackendKind);

/// A declaration: the declared symbol and its category.
pub type DeclView = (NameView, DefCategory);

/// An import: its category, the module path it names and the symbol.
pub type ImportView = (DefCategory, Seq<Seq<char>>, NameView);

/// A diagnostic: kind, module path and offending name.
pub type DiagView = (ErrorKind, Seq<Seq<char>>, Seq<char>);

/// The top-level declarations of a module's content, in order.
pub open spec fn content_decls(c: Content) -> Seq<DeclView> {
    match c {
        Content::Consts(v) => v@.map_values(|d: crate::hir::ConstDef| (d.name@, DefCategory::Const)),
        Content::Types(v) => v@.map_values(|t: crate::hir::TypeDef| (t.name(), DefCategory::Type)),
        Content::Groups(v) => v@.map_values(|g: crate::hir::GroupsDef| (g.name(), g.category())),
    }
}

/// The declaration at `j` repeats the symbol of an earlier one.
pub open spec fn repeats_earlier(ds: Seq<DeclView>, j: int) -> bool {
    exists|i: int| 0 <= i < j && ds[i].0 == #[trigger] ds[j].0
}

/// Two declarations share name and backend kind.
pub open spec fn has_duplicate(ds: Seq<DeclView>) -> bool {
    exists|i: int, j: int| 0 <= i < j < ds.len() && ds[i].0 == ds[j].0
}

/// The imports of a module, flattened over their categories in order.
pub open spec fn flat_imports(imps: Seq<Imports>) -> Seq<ImportView>
    decreases imps.len(),
{
    if imps.len() == 0 {
        Seq::empty()
    } else {
        flat_imports(imps.drop_last()) + imps.last().items().map_values(
            |p: ImportPathSymbol| (imps.last().category(), p.path@, p.name@),
        )
    }
}

/// Module `j` is at the imported path and declares the imported symbol,
/// verbatim, in the imported category.
pub open spec fn defines_at(ms: Seq<HIRModule>, j: int, imp: ImportView) -> bool {
    &&& ms[j].name@ == imp.1
    &&& content_decls(ms[j].content).contains((imp.2, imp.0))
}

pub open spec fn is_resolved(ms: Seq<HIRModule>, imp: ImportView) -> bool {
    exists|j: int| 0 <= j < ms.len() && defines_at(ms, j, imp)
}

/// `j` is the first module that defines what `imp` imports.
pub open spec fn is_first_definer(ms: Seq<HIRModule>, j: int, imp: ImportView) -> bool {
    &&& 0 <= j < ms.len()
    &&& defines_at(ms, j, imp)
    &&& forall|k: int| 0 <= k < j ==> !defines_at(ms, k, imp)
}

pub open spec fn is_value_or_type(c: DefCategory) -> bool {
    c == DefCategory::Const || c == DefCategory::Type
}

/// A constant or type import whose symbol is already visible in the module:
/// declared there as a constant or type, or imported earlier as one.
/// Function, modifier and meta-function imports may repeat a name: they are
/// told apart later by their signatures.
pub open spec fn is_ambiguous(ds: Seq<DeclView>, imps: Seq<ImportView>, k: int) -> bool {
    &&& is_value_or_type(imps[k].0)
    &&& {
        ||| exists|i: int| 0 <= i < ds.len() && is_value_or_type(ds[i].1) && ds[i].0 == imps[k].2
        ||| exists|i: int| 0 <= i < k && is_value_or_type(imps[i].0) && imps[i].2 == imps[k].2
    }
}

/// One `DuplicateDefinition` for each of the first `n` declarations that
/// repeats an earlier one.
pub open spec fn dup_errors(path: Seq<Seq<char>>, ds: Seq<DeclView>, n: nat) -> Seq<DiagView>
    decreases n,
{
    if n == 0 {
        Seq::empty()
    } else {
        let prev = dup_errors(path, ds, (n - 1) as nat);
        if repeats_earlier(ds, n - 1) {
            prev.push((ErrorKind::DuplicateDefinition, path, ds[n - 1].0.0))
        } else {
            prev
        }
    }
}

/// The errors of the first `n` imports: `UnresolvedImport` for one that no
/// module defines, else `AmbiguousImport` for one that collides.
pub open spec fn import_errors(
    ms: Seq<HIRModule>,
    path: Seq<Seq<char>>,
    ds: Seq<DeclView>,
    imps: Seq<ImportView>,
    n: nat,
) -> Seq<DiagView>
    decreases n,
{
    if n == 0 {
        Seq::empty()
    } else {
        let prev = import_errors(ms, path, ds, imps, (n - 1) as nat);
        if !is_resolved(ms, imps[n - 1]) {
            prev.push((ErrorKind::UnresolvedImport, path, imps[n - 1].2.0))
        } else if is_ambiguous(ds, imps, n - 1) {
            prev.push((ErrorKind::AmbiguousImport, path, imps[n - 1].2.0))
        } else {
            prev
        }
    }
}

/// All errors of module `i`: its duplicate definitions, then its imports,
/// then the uses in its bodies.
pub open spec fn module_errors(ms: Seq<HIRModule>, i: int) -> Seq<DiagView> {
    let ds = content_decls(ms[i].content);
    let imps = flat_imports(ms[i].imports@);
    dup_errors(ms[i].name@, ds, ds.len()) + import_errors(ms, ms[i].name@, ds, imps, imps.len())
        + body_errors(ms, i)
}

/// The errors of the first `n` modules, module by module.
pub open spec fn project_errors(ms: Seq<HIRModule>, n: nat) -> Seq<DiagView>
    decreases n,
{
    if n == 0 {
        Seq::empty()
    } else {
        project_errors(ms, (n - 1) as nat) + module_errors(ms, n - 1)
    }
}

/// A resolved import: its category, the symbol as imported, and the index
/// of the module that defines it.
pub type LinkView = (DefCategory, NameView, int);

/// The links of module `i`'s imports, each to its first defining module.
pub open spec fn module_links(ms: Seq<HIRModule>, i: int) -> Seq<LinkView> {
    flat_imports(ms[i].imports@).map_values(
        |imp: ImportView| (imp.0, imp.2, choose|j: int| is_first_definer(ms, j, imp)),
    )
}

/// A mapped module as the contracts see it: id, path, import links, and
/// the backend kind and scheduling mode of each expression of its bodies,
/// and the defining module of each call in its bodies.
pub type MappedView = (
    int,
    Seq<Seq<char>>,
    Seq<LinkView>,
    Seq<(BackendKind, SchedulingMode)>,
    Seq<int>,
);

/// The mapped modules of the first `n` modules: those without errors.
pub open spec fn mapped_modules(ms: Seq<HIRModule>, n: nat) -> Seq<MappedView>
    decreases n,
{
    if n == 0 {
        Seq::empty()
    } else {
        let prev = mapped_modules(ms, (n - 1) as nat);
        if module_errors(ms, n - 1).len() == 0 {
            prev.push(
                (
                    (n - 1) as int,
                    ms[n - 1].name@,
                    module_links(ms, n - 1),
                    body_modes(ms, n - 1),
                    body_calls(ms, n - 1),
                ),
            )
        } else {
            prev
        }
    }
}

/// What resolving a whole project gives: the mapped modules and every error.
pub open spec fn resolution_of(ms: Seq<HIRModule>) -> (Seq<MappedView>, Seq<DiagView>) {
    (mapped_modules(ms, ms.len()), project_errors(ms, ms.len()))
}

/// A top-level declaration of a module.
pub struct Decl {
    pub name: Symbol,
    pub category: DefCategory,
}

impl View for Decl {
    type V = DeclView;

    open spec fn view(&self) -> DeclView {
        (self.name@, self.category)
    }
}

pub open spec fn decls_view(v: Seq<Decl>) -> Seq<DeclView> {
    v.map_values(|d: Decl| d@)
}

/// An import, flattened out of its category list.
pub struct ImportRef {
    pub category: DefCategory,
    pub path: Path,
    pub name: Symbol,
}

impl View for ImportRef {
    type V = ImportView;

    open spec fn view(&self) -> ImportView {
        (self.category, self.path@, self.name@)
    }
}

/// A resolved import link: the arena index of the defining module.
pub struct ImportLink {
    pub category: DefCategory,
    pub name: Symbol,
    pub module: usize,
}

impl View for ImportLink {
    type V = LinkView;

    open spec fn view(&self) -> LinkView {
        (self.category, self.name@, self.module as int)
    }
}

/// Module object where symbols are linked, types are resolved, but
/// meta-functions are not addressed and lazy plans are not resolved.
pub struct MappedModule {
    pub id: ModuleId,
    pub name: Path,
    pub links: Vec<ImportLink>,
    /// The annotation map: the `k`-th entry is the backend kind and the
    /// scheduling mode of the `k`-th expression of the module's bodies, in
    /// walk order.
    pub modes: Vec<(BackendKind, SchedulingMode)>,
    /// The index of the module defining each call of its bodies, in walk
    /// order.
    pub calls: Vec<usize>,
}

impl View for MappedModule {
    type V = MappedView;

    open spec fn view(&self) -> MappedView {
        (
            self.id.0 as int,
            self.name@,
            self.links@.map_values(|l: ImportLink| l@),
            self.modes@,
            self.calls@.map_values(|x: usize| x as int),
        )
    }
}

/// Project object for the second compilation pass.
pub struct MappedProject {
    pub modules: Vec<MappedModule>,
}

impl View for MappedProject {
    type V = Seq<MappedView>;

    open spec fn view(&self) -> Seq<MappedView> {
        self.modules@.map_values(|m: MappedModule| m@)
    }
}

/// The outcome of a resolution run: the modules that mapped, and all the
/// errors found in the others.
pub struct Resolution {
    pub project: MappedProject,
    pub errors: Vec<Diagnostic>,
}

impl View for Resolution {
    type V = (Seq<MappedView>, Seq<DiagView>);

    open spec fn view(&self) -> (Seq<MappedView>, Seq<DiagView>) {
        (self.project@, self.errors@.map_values(|d: Diagnostic| d@))
    }
}

/// Project-wide symbol table: the declarations of each module, by module
/// index.
pub struct SymbolTable {
    pub decls: Vec<Vec<Decl>>,
}

impl SymbolTable {
    pub open spec fn describes(&self, ms: Seq<HIRModule>) -> bool {
        &&& self.decls@.len() == ms.len()
        &&& forall|j: int|
            0 <= j < ms.len() ==> decls_view(#[trigger] self.decls@[j]@) == content_decls(
                ms[j].content,
            )
    }
}

/// The declarations of one module's content.
pub fn module_decls(m: &HIRModule) -> (r: Vec<Decl>)
    ensures
        decls_view(r@) == content_decls(m.content),
{
    let mut r: Vec<Decl> = Vec::new();
    match &m.content {
        Content::Consts(v) => {
            let mut i: usize = 0;
            while i < v.len()
                invariant
                    0 <= i <= v@.len(),
                    r@.len() == i,
                    forall|k: int| 0 <= k < i ==> #[trigger] r@[k]@ == (v@[k].name@, DefCategory::Const),
                decreases v@.len() - i,
            {
                r.push(Decl { name: v[i].name.clone_symbol(), category: DefCategory::Const });
                i = i + 1;
            }
            proof {
                assert(decls_view(r@) =~= content_decls(m.content));
            }
        },
        Content::Types(v) => {
            let mut i: usize = 0;
            while i < v.len()
                invariant
                    0 <= i <= v@.len(),
                    r@.len() == i,
                    forall|k: int| 0 <= k < i ==> #[trigger] r@[k]@ == (v@[k].name(), DefCategory::Type),
                decreases v@.len() - i,
            {
                r.push(Decl { name: v[i].name_symbol(), category: DefCategory::Type });
                i = i + 1;
            }
            proof {
                assert(decls_view(r@) =~= content_decls(m.content));
            }
        },
        Content::Groups(v) => {
            let mut i: usize = 0;
            while i < v.len()
                invariant
                    0 <= i <= v@.len(),
                    r@.len() == i,
                    forall|k: int| 0 <= k < i ==> #[trigger] r@[k]@ == (v@[k].name(), v@[k].category()),
                decreases v@.len() - i,
            {
                r.push(Decl { name: v[i].name_symbol(), category: v[i].get_category() });
                i = i + 1;
            }
            proof {
                assert(decls_view(r@) =~= content_decls(m.content));
            }
        },
    }
    r
}

/// Phase one: the declarations of every module.
pub fn collect_declarations(ms: &Vec<HIRModule>) -> (r: SymbolTable)
    ensures
        r.describes(ms@),
{
    let mut decls: Vec<Vec<Decl>> = Vec::new();
    let mut j: usize = 0;
    while j < ms.len()
        invariant
            0 <= j <= ms@.len(),
            decls@.len() == j,
            forall|k: int|
                0 <= k < j ==> decls_view(#[trigger] decls@[k]@) == content_decls(ms@[k].content),
        decreases ms@.len() - j,
    {
        decls.push(module_decls(&ms[j]));
        j = j + 1;
    }
    SymbolTable { decls }
}


/// The imports of a module, flattened over their categories in order.
pub fn flatten_imports(imps: &Vec<Imports>) -> (r: Vec<ImportRef>)
    ensures
        r@.map_values(|x: ImportRef| x@) == flat_imports(imps@),
{
    let mut r: Vec<ImportRef> = Vec::new();
    let mut i: usize = 0;
    while i < imps.len()
        invariant
            0 <= i <= imps@.len(),
            r@.map_values(|x: ImportRef| x@) == flat_imports(imps@.subrange(0, i as int)),
        decreases imps@.len() - i,
    {
        let cat = imps[i].get_category();
        let items = imps[i].get_items();
        let ghost base = r@.map_values(|x: ImportRef| x@);
        let ghost f = |p: ImportPathSymbol| (cat, p.path@, p.name@);
        let mut k: usize = 0;
        while k < items.len()
            invariant
                0 <= k <= items@.len(),
                cat == imps@[i as int].category(),
                items@ == imps@[i as int].items(),
                f == (|p: ImportPathSymbol| (cat, p.path@, p.name@)),
                r@.len() == base.len() + k,
                forall|t: int| 0 <= t < base.len() ==> #[trigger] r@[t]@ == base[t],
                forall|t: int| 0 <= t < k ==> #[trigger] r@[base.len() + t]@ == f(items@[t]),
            decreases items@.len() - k,
        {
            let it = &items[k];
            r.push(ImportRef { category: cat, path: it.path.clone_path(), name: it.name.clone_symbol() });
            proof {
                assert(r@[base.len() + k]@ == f(items@[k as int]));
            }
            k = k + 1;
        }
        proof {
            assert(imps@.subrange(0, i + 1).drop_last() =~= imps@.subrange(0, i as int));
            assert(imps@.subrange(0, i + 1).last() == imps@[i as int]);
            let next = flat_imports(imps@.subrange(0, i + 1));
            assert(next == base + items@.map_values(f));
            let rv = r@.map_values(|x: ImportRef| x@);
            assert forall|t: int| 0 <= t < r@.len() implies #[trigger] rv[t]
                == (base + items@.map_values(f))[t] by {
                if t >= base.len() {
                    assert(r@[base.len() + (t - base.len())]@ == f(items@[t - base.len()]));
                }
            }
            assert(rv =~= next);
        }
        i = i + 1;
    }
    proof {
        assert(imps@.subrange(0, imps@.len() as int) =~= imps@);
    }
    r
}

/// Whether the declarations hold the symbol in the category.
pub fn contains_decl(ds: &Vec<Decl>, name: &Symbol, cat: DefCategory) -> (r: bool)
    ensures
        r == decls_view(ds@).contains((name@, cat)),
{
    let mut i: usize = 0;
    while i < ds.len()
        invariant
            0 <= i <= ds@.len(),
            forall|k: int| 0 <= k < i ==> #[trigger] ds@[k]@ != (name@, cat),
        decreases ds@.len() - i,
    {
        if ds[i].category == cat && ds[i].name.same_symbol(name) {
            proof {
                assert(decls_view(ds@)[i as int] == (name@, cat));
            }
            return true;
        }
        i = i + 1;
    }
    proof {
        if decls_view(ds@).contains((name@, cat)) {
            let k = choose|k: int| 0 <= k < ds@.len() && decls_view(ds@)[k] == (name@, cat);
            assert(ds@[k]@ != (name@, cat));
        }
    }
    false
}

/// Whether the declaration at `j` repeats an earlier symbol.
fn repeats_at(ds: &Vec<Decl>, j: usize) -> (r: bool)
    requires
        j < ds@.len(),
    ensures
        r == repeats_earlier(decls_view(ds@), j as int),
{
    let ghost dv = decls_view(ds@);
    let mut i: usize = 0;
    while i < j
        invariant
            j < ds@.len(),
            dv == decls_view(ds@),
            0 <= i <= j,
            forall|k: int| 0 <= k < i ==> dv[k].0 != dv[j as int].0,
        decreases j - i,
    {
        if ds[i].name.same_symbol(&ds[j].name) {
            proof {
                assert(dv[i as int].0 == dv[j as int].0);
            }
            return true;
        }
        i = i + 1;
    }
    false
}

/// Whether a constant or type of the module declares the symbol.
fn local_value_or_type(ds: &Vec<Decl>, name: &Symbol) -> (r: bool)
    ensures
        r == exists|i: int|
            0 <= i < ds@.len() && is_value_or_type(decls_view(ds@)[i].1) && decls_view(ds@)[i].0
                == name@,
{
    let ghost dv = decls_view(ds@);
    let mut i: usize = 0;
    while i < ds.len()
        invariant
            dv == decls_view(ds@),
            0 <= i <= ds@.len(),
            forall|k: int| 0 <= k < i ==> !(is_value_or_type(dv[k].1) && dv[k].0 == name@),
        decreases ds@.len() - i,
    {
        let c = ds[i].category;
        if (c == DefCategory::Const || c == DefCategory::Type) && ds[i].name.same_symbol(name) {
            proof {
                assert(is_value_or_type(dv[i as int].1) && dv[i as int].0 == name@);
            }
            return true;
        }
        i = i + 1;
    }
    false
}

/// Whether a constant or type import before `k` brings the symbol.
fn earlier_value_or_type(imps: &Vec<ImportRef>, k: usize, name: &Symbol) -> (r: bool)
    requires
        k <= imps@.len(),
    ensures
        r == exists|i: int|
            0 <= i < k && is_value_or_type(imps@[i]@.0) && imps@[i]@.2 == name@,
{
    let mut i: usize = 0;
    while i < k
        invariant
            k <= imps@.len(),
            0 <= i <= k,
            forall|t: int| 0 <= t < i ==> !(is_value_or_type(#[trigger] imps@[t]@.0) && imps@[t]@.2 == name@),
        decreases k - i,
    {
        let c = imps[i].category;
        if (c == DefCategory::Const || c == DefCategory::Type) && imps[i].name.same_symbol(name) {
            return true;
        }
        i = i + 1;
    }
    false
}

proof fn lemma_first_definer_unique(ms: Seq<HIRModule>, j: int, imp: ImportView)
    requires
        is_first_definer(ms, j, imp),
    ensures
        (choose|x: int| is_first_definer(ms, x, imp)) == j,
{
    let c = choose|x: int| is_first_definer(ms, x, imp);
    assert(is_first_definer(ms, c, imp));
    if c < j {
        assert(!defines_at(ms, c, imp));
    } else if c > j {
        assert(!defines_at(ms, j, imp));
    }
}

/// The first module that defines what the import names, if any.
pub fn find_definer(ms: &Vec<HIRModule>, table: &SymbolTable, imp: &ImportRef) -> (r: Option<
    usize,
>)
    requires
        table.describes(ms@),
    ensures
        r matches Some(j) ==> is_first_definer(ms@, j as int, imp@),
        r is None ==> !is_resolved(ms@, imp@),
{
    let mut j: usize = 0;
    while j < ms.len()
        invariant
            table.describes(ms@),
            0 <= j <= ms@.len(),
            forall|k: int| 0 <= k < j ==> !defines_at(ms@, k, imp@),
        decreases ms@.len() - j,
    {
        let here = ms[j].name.same_as(&imp.path) && contains_decl(
            &table.decls[j],
            &imp.name,
            imp.category,
        );
        proof {
            assert(decls_view(table.decls@[j as int]@) == content_decls(ms@[j as int].content));
        }
        if here {
            return Some(j);
        }
        j = j + 1;
    }
    None
}


/// The errors of module `i`; where there are none, the links of its
/// imports too.
pub fn check_module(ms: &Vec<HIRModule>, table: &SymbolTable, i: usize) -> (r: (
    Vec<Diagnostic>,
    Vec<ImportLink>,
    Vec<(BackendKind, SchedulingMode)>,
    Vec<usize>,
))
    requires
        table.describes(ms@),
        i < ms@.len(),
    ensures
        r.0@.map_values(|d: Diagnostic| d@) == module_errors(ms@, i as int),
        r.3@.map_values(|x: usize| x as int) == body_calls(ms@, i as int),
        r.0@.len() == 0 ==> r.1@.map_values(|l: ImportLink| l@) == module_links(ms@, i as int),
        r.2@ == body_modes(ms@, i as int),
{
    let m = &ms[i];
    let ds = &table.decls[i];
    let ghost path = ms@[i as int].name@;
    let ghost dv = content_decls(ms@[i as int].content);
    assert(decls_view(ds@) == dv);
    let mut errs: Vec<Diagnostic> = Vec::new();
    let mut j: usize = 0;
    while j < ds.len()
        invariant
            table.describes(ms@),
            i < ms@.len(),
            ds == &table.decls@[i as int],
            dv == decls_view(ds@),
            path == m.name@,
            m == &ms@[i as int],
            0 <= j <= ds@.len(),
            errs@.map_values(|d: Diagnostic| d@) == dup_errors(path, dv, j as nat),
        decreases ds@.len() - j,
    {
        if repeats_at(ds, j) {
            let d = Diagnostic::new(
                ErrorKind::DuplicateDefinition,
                m.name.clone_path(),
                ds[j].name.value.clone(),
            );
            errs.push(d);
            proof {
                assert(errs@.map_values(|d: Diagnostic| d@) =~= dup_errors(path, dv, (j + 1) as nat));
            }
        }
        j = j + 1;
    }
    let ghost dups = errs@.map_values(|d: Diagnostic| d@);
    let imps = flatten_imports(&m.imports);
    let ghost iv = flat_imports(ms@[i as int].imports@);
    let ghost links_spec = module_links(ms@, i as int);
    let mut links: Vec<ImportLink> = Vec::new();
    let mut k: usize = 0;
    while k < imps.len()
        invariant
            table.describes(ms@),
            i < ms@.len(),
            ds == &table.decls@[i as int],
            dv == decls_view(ds@),
            path == m.name@,
            m == &ms@[i as int],
            iv == flat_imports(ms@[i as int].imports@),
            imps@.map_values(|x: ImportRef| x@) == iv,
            links_spec == module_links(ms@, i as int),
            dv == content_decls(ms@[i as int].content),
            dups == dup_errors(path, dv, dv.len()),
            0 <= k <= imps@.len(),
            errs@.map_values(|d: Diagnostic| d@) == dups + import_errors(ms@, path, dv, iv, k as nat),
            errs@.len() == 0 ==> {
                &&& links@.len() == k
                &&& forall|t: int| 0 <= t < k ==> #[trigger] links@[t]@ == links_spec[t]
            },
        decreases imps@.len() - k,
    {
        let imp = &imps[k];
        assert(imp@ == iv[k as int]);
        let found = find_definer(ms, table, imp);
        match found {
            None => {
                let d = Diagnostic::new(
                    ErrorKind::UnresolvedImport,
                    m.name.clone_path(),
                    imp.name.value.clone(),
                );
                let ghost old_ev = errs@.map_values(|d: Diagnostic| d@);
                errs.push(d);
                proof {
                    let prev = import_errors(ms@, path, dv, iv, k as nat);
                    assert(import_errors(ms@, path, dv, iv, (k + 1) as nat) == prev.push(
                        (ErrorKind::UnresolvedImport, path, iv[k as int].2.0),
                    ));
                    assert(errs@.map_values(|d: Diagnostic| d@) =~= old_ev.push(d@));
                    assert(d@ == (ErrorKind::UnresolvedImport, path, iv[k as int].2.0));
                    assert(errs@.map_values(|d: Diagnostic| d@) =~= dups + import_errors(
                        ms@,
                        path,
                        dv,
                        iv,
                        (k + 1) as nat,
                    ));
                }
            },
            Some(jd) => {
                let c = imp.category;
                let amb = (c == DefCategory::Const || c == DefCategory::Type) && (
                local_value_or_type(ds, &imp.name) || earlier_value_or_type(&imps, k, &imp.name));
                proof {
                    assert forall|t: int| 0 <= t < k implies #[trigger] imps@[t]@ == iv[t] by {
                        assert(imps@.map_values(|x: ImportRef| x@)[t] == iv[t]);
                    }
                    assert(amb == is_ambiguous(dv, iv, k as int));
                }
                if amb {
                    let d = Diagnostic::new(
                        ErrorKind::AmbiguousImport,
                        m.name.clone_path(),
                        imp.name.value.clone(),
                    );
                    let ghost old_ev = errs@.map_values(|d: Diagnostic| d@);
                    errs.push(d);
                    proof {
                        let prev = import_errors(ms@, path, dv, iv, k as nat);
                        assert(import_errors(ms@, path, dv, iv, (k + 1) as nat) == prev.push(
                            (ErrorKind::AmbiguousImport, path, iv[k as int].2.0),
                        ));
                        assert(errs@.map_values(|d: Diagnostic| d@) =~= old_ev.push(d@));
                        assert(d@ == (ErrorKind::AmbiguousImport, path, iv[k as int].2.0));
                        assert(errs@.map_values(|d: Diagnostic| d@) =~= dups + import_errors(
                            ms@,
                            path,
                            dv,
                            iv,
                            (k + 1) as nat,
                        ));
                    }
                } else {
                    links.push(
                        ImportLink { category: imp.category, name: imp.name.clone_symbol(), module: jd },
                    );
                    proof {
                        lemma_first_definer_unique(ms@, jd as int, iv[k as int]);
                        assert(links_spec[k as int] == (iv[k as int].0, iv[k as int].2, jd as int));
                        assert(import_errors(ms@, path, dv, iv, (k + 1) as nat) == import_errors(
                            ms@,
                            path,
                            dv,
                            iv,
                            k as nat,
                        ));
                    }
                }
            },
        }
        k = k + 1;
    }
    let ghost head = errs@.map_values(|d: Diagnostic| d@);
    let (mut calls, modes, targets) = check_bodies(ms, table, i);
    let ghost tail = calls@.map_values(|d: Diagnostic| d@);
    errs.append(&mut calls);
    proof {
        assert(errs@.map_values(|d: Diagnostic| d@) =~= head + tail);
    }
    (errs, links, modes, targets)
}

/// Resolves a whole project: collects every module's declarations, then
/// binds every import and every call, identifier and member path used in
/// a body, and schedules every expression of the bodies. Errors are gathered over all modules rather than
/// stopping at the first; a module with errors is not mapped.
pub fn resolve_project(ms: &Vec<HIRModule>) -> (r: Resolution)
    requires
        ms@.len() <= u32::MAX,
    ensures
        r@ == resolution_of(ms@),
{
    let table = collect_declarations(ms);
    let mut mapped: Vec<MappedModule> = Vec::new();
    let mut errors: Vec<Diagnostic> = Vec::new();
    let mut i: usize = 0;
    while i < ms.len()
        invariant
            ms@.len() <= u32::MAX,
            table.describes(ms@),
            0 <= i <= ms@.len(),
            mapped@.map_values(|m: MappedModule| m@) == mapped_modules(ms@, i as nat),
            errors@.map_values(|d: Diagnostic| d@) == project_errors(ms@, i as nat),
        decreases ms@.len() - i,
    {
        let (errs, links, modes, calls) = check_module(ms, &table, i);
        let ghost before = errors@.map_values(|d: Diagnostic| d@);
        if errs.len() == 0 {
            let mm = MappedModule {
                id: ModuleId(i as u32),
                name: ms[i].name.clone_path(),
                links,
                modes,
                calls,
            };
            mapped.push(mm);
            proof {
                assert(mapped@.map_values(|m: MappedModule| m@) =~= mapped_modules(
                    ms@,
                    (i + 1) as nat,
                ));
            }
        }
        let mut errs = errs;
        let ghost ev = errs@.map_values(|d: Diagnostic| d@);
        errors.append(&mut errs);
        proof {
            assert(errors@.map_values(|d: Diagnostic| d@) =~= before + ev);
            assert(errors@.map_values(|d: Diagnostic| d@) =~= project_errors(ms@, (i + 1) as nat));
        }
        i = i + 1;
    }
    Resolution { project: MappedProject { modules: mapped }, errors }
}


proof fn lemma_dup_errors_report(path: Seq<Seq<char>>, ds: Seq<DeclView>, n: nat, j: int)
    requires
        0 <= j < n <= ds.len(),
        repeats_earlier(ds, j),
    ensures
        dup_errors(path, ds, n).contains((ErrorKind::DuplicateDefinition, path, ds[j].0.0)),
    decreases n,
{
    let e = (ErrorKind::DuplicateDefinition, path, ds[j].0.0);
    if j == n - 1 {
        assert(dup_errors(path, ds, n).last() == e);
    } else {
        lemma_dup_errors_report(path, ds, (n - 1) as nat, j);
        let prev = dup_errors(path, ds, (n - 1) as nat);
        let k = choose|k: int| 0 <= k < prev.len() && prev[k] == e;
        assert(dup_errors(path, ds, n)[k] == e);
    }
}

proof fn lemma_mapped_have_no_errors(ms: Seq<HIRModule>, n: nat)
    requires
        n <= ms.len(),
    ensures
        forall|k: int|
            0 <= k < mapped_modules(ms, n).len() ==> {
                let id = (#[trigger] mapped_modules(ms, n)[k]).0;
                &&& 0 <= id < n
                &&& module_errors(ms, id).len() == 0
                &&& mapped_modules(ms, n)[k] == (id, ms[id].name@, module_links(ms, id), body_modes(ms, id), body_calls(ms, id))
            },
    decreases n,
{
    if n > 0 {
        lemma_mapped_have_no_errors(ms, (n - 1) as nat);
        let prev = mapped_modules(ms, (n - 1) as nat);
        let cur = mapped_modules(ms, n);
        assert forall|k: int| 0 <= k < cur.len() implies {
            let id = (#[trigger] cur[k]).0;
            &&& 0 <= id < n
            &&& module_errors(ms, id).len() == 0
            &&& cur[k] == (id, ms[id].name@, module_links(ms, id), body_modes(ms, id), body_calls(ms, id))
        } by {
            if k < prev.len() {
                assert(cur[k] == prev[k]);
            }
        }
    }
}

/// Two top-level definitions of one module that share name and backend
/// kind give that module a `DuplicateDefinition` error naming the shared
/// name, and keep it out of the mapped project.
pub proof fn lemma_uniqueness(ms: Seq<HIRModule>, i: int)
    requires
        0 <= i < ms.len(),
        has_duplicate(content_decls(ms[i].content)),
    ensures
        forall|a: int, b: int|
            #![trigger content_decls(ms[i].content)[a], content_decls(ms[i].content)[b]]
            0 <= a < b < content_decls(ms[i].content).len() && content_decls(ms[i].content)[a].0
                == content_decls(ms[i].content)[b].0 ==> resolution_of(ms).1.contains(
                (
                    ErrorKind::DuplicateDefinition,
                    ms[i].name@,
                    content_decls(ms[i].content)[b].0.0,
                ),
            ),
        forall|k: int|
            0 <= k < resolution_of(ms).0.len() ==> (#[trigger] resolution_of(ms).0[k]).0 != i,
{
    let ds = content_decls(ms[i].content);
    let path = ms[i].name@;
    let me = module_errors(ms, i);
    let dups = dup_errors(path, ds, ds.len());
    assert forall|a: int, b: int|
        #![trigger ds[a], ds[b]]
        0 <= a < b < ds.len() && ds[a].0 == ds[b].0 implies resolution_of(ms).1.contains(
        (ErrorKind::DuplicateDefinition, path, ds[b].0.0),
    ) by {
        assert(repeats_earlier(ds, b));
        lemma_dup_errors_report(path, ds, ds.len(), b);
        let e = (ErrorKind::DuplicateDefinition, path, ds[b].0.0);
        let x = choose|x: int| 0 <= x < dups.len() && dups[x] == e;
        assert(me[x] == e);
        lemma_project_errors_include(ms, ms.len(), i, x);
    }
    let (a, b) = choose|a: int, b: int| 0 <= a < b < ds.len() && ds[a].0 == ds[b].0;
    assert(repeats_earlier(ds, b));
    lemma_dup_errors_report(path, ds, ds.len(), b);
    let e = (ErrorKind::DuplicateDefinition, path, ds[b].0.0);
    let x = choose|x: int| 0 <= x < dups.len() && dups[x] == e;
    assert(me[x] == e);
    lemma_mapped_have_no_errors(ms, ms.len());
}

/// The top-level definitions of every mapped module are pairwise distinct
/// on name and backend kind.
pub proof fn lemma_mapped_modules_unique(ms: Seq<HIRModule>, k: int)
    requires
        0 <= k < resolution_of(ms).0.len(),
    ensures
        !has_duplicate(content_decls(ms[resolution_of(ms).0[k].0].content)),
{
    lemma_mapped_have_no_errors(ms, ms.len());
    let id = resolution_of(ms).0[k].0;
    if has_duplicate(content_decls(ms[id].content)) {
        lemma_uniqueness(ms, id);
    }
}

proof fn lemma_project_errors_include(ms: Seq<HIRModule>, n: nat, i: int, x: int)
    requires
        0 <= i < n <= ms.len(),
        0 <= x < module_errors(ms, i).len(),
    ensures
        project_errors(ms, n).contains(module_errors(ms, i)[x]),
    decreases n,
{
    let pe = project_errors(ms, n);
    if i == n - 1 {
        let prev = project_errors(ms, (n - 1) as nat);
        assert(pe[prev.len() + x] == module_errors(ms, i)[x]);
    } else {
        lemma_project_errors_include(ms, (n - 1) as nat, i, x);
        let prev = project_errors(ms, (n - 1) as nat);
        let y = choose|y: int| 0 <= y < prev.len() && prev[y] == module_errors(ms, i)[x];
        assert(pe[y] == prev[y]);
    }
}

proof fn lemma_no_import_errors_resolved(
    ms: Seq<HIRModule>,
    path: Seq<Seq<char>>,
    ds: Seq<DeclView>,
    imps: Seq<ImportView>,
    n: nat,
)
    requires
        n <= imps.len(),
        import_errors(ms, path, ds, imps, n).len() == 0,
    ensures
        forall|t: int| 0 <= t < n ==> is_resolved(ms, #[trigger] imps[t]),
    decreases n,
{
    if n > 0 {
        lemma_no_import_errors_resolved(ms, path, ds, imps, (n - 1) as nat);
    }
}

proof fn lemma_first_definer_exists(ms: Seq<HIRModule>, imp: ImportView, n: int)
    requires
        0 <= n <= ms.len(),
        exists|j: int| 0 <= j < n && defines_at(ms, j, imp),
    ensures
        exists|j: int| is_first_definer(ms, j, imp),
    decreases n,
{
    if exists|j: int| 0 <= j < n - 1 && defines_at(ms, j, imp) {
        lemma_first_definer_exists(ms, imp, n - 1);
    } else {
        assert(is_first_definer(ms, n - 1, imp));
    }
}

/// No aliasing: in a mapped module every import link carries the imported
/// symbol verbatim, and points at a module at the imported path that
/// declares exactly that symbol in the imported category.
pub proof fn lemma_no_aliasing(ms: Seq<HIRModule>, k: int, t: int)
    requires
        0 <= k < resolution_of(ms).0.len(),
        0 <= t < resolution_of(ms).0[k].2.len(),
    ensures
        ({
            let m = resolution_of(ms).0[k];
            let imp = flat_imports(ms[m.0].imports@)[t];
            let link = m.2[t];
            &&& link.0 == imp.0
            &&& link.1 == imp.2
            &&& 0 <= link.2 < ms.len()
            &&& ms[link.2].name@ == imp.1
            &&& content_decls(ms[link.2].content).contains((imp.2, imp.0))
        }),
{
    lemma_mapped_have_no_errors(ms, ms.len());
    let m = resolution_of(ms).0[k];
    let i = m.0;
    let ds = content_decls(ms[i].content);
    let imps = flat_imports(ms[i].imports@);
    let dups = dup_errors(ms[i].name@, ds, ds.len());
    assert(module_errors(ms, i) == dups + import_errors(ms, ms[i].name@, ds, imps, imps.len())
        + body_errors(ms, i));
    lemma_no_import_errors_resolved(ms, ms[i].name@, ds, imps, imps.len());
    let imp = imps[t];
    assert(is_resolved(ms, imp));
    lemma_first_definer_exists(ms, imp, ms.len() as int);
    let j = choose|j: int| is_first_definer(ms, j, imp);
    assert(m.2[t] == (imp.0, imp.2, j));
}

/// Resolving the same project twice gives the same mapped modules, with
/// the same links, and the same errors.
pub proof fn lemma_resolution_deterministic(ms: Seq<HIRModule>, a: Resolution, b: Resolution)
    requires
        a@ == resolution_of(ms),
        b@ == resolution_of(ms),
    ensures
        a@ == b@,
{
}


pub open spec fn is_callable(c: DefCategory) -> bool {
    c == DefCategory::Fn || c == DefCategory::Modifier || c == DefCategory::MetaFn
}

/// The module declares a function, modifier or meta-function with the
/// symbol.
pub open spec fn declares_callable(ds: Seq<DeclView>, s: NameView) -> bool {
    exists|k: int| 0 <= k < ds.len() && is_callable(ds[k].1) && ds[k].0 == s
}

/// `t` is the first callable import of the symbol.
pub open spec fn first_callable_import(imps: Seq<ImportView>, s: NameView, t: int) -> bool {
    &&& 0 <= t < imps.len()
    &&& is_callable(imps[t].0) && imps[t].2 == s
    &&& forall|u: int| 0 <= u < t ==> !(is_callable((#[trigger] imps[u]).0) && imps[u].2 == s)
}

pub open spec fn no_callable_import(imps: Seq<ImportView>, s: NameView) -> bool {
    forall|u: int| 0 <= u < imps.len() ==> !(is_callable((#[trigger] imps[u]).0) && imps[u].2 == s)
}

/// Binds the callee of a call made in module `i` to the index of the module
/// that defines it: module `i` itself where it declares the callable, else
/// the module its first callable import of that symbol comes from. A callee
/// that binds to nothing is an `UnknownSymbol` naming it.
pub fn bind_call(ms: &Vec<HIRModule>, table: &SymbolTable, i: usize, callee: &Symbol) -> (r: Result<
    usize,
    Diagnostic,
>)
    requires
        table.describes(ms@),
        i < ms@.len(),
    ensures
        ({
            let ds = content_decls(ms@[i as int].content);
            let imps = flat_imports(ms@[i as int].imports@);
            let unknown = (ErrorKind::UnknownSymbol, ms@[i as int].name@, callee.value@);
            &&& declares_callable(ds, callee@) ==> (r matches Ok(j) && j == i)
            &&& !declares_callable(ds, callee@) && no_callable_import(imps, callee@) ==> (r matches Err(
                e,
            ) && e@ == unknown)
            &&& forall|t: int|
                #![trigger first_callable_import(imps, callee@, t)]
                !declares_callable(ds, callee@) && first_callable_import(imps, callee@, t) ==> {
                    &&& is_resolved(ms@, imps[t]) ==> (r matches Ok(j) && is_first_definer(
                        ms@,
                        j as int,
                        imps[t],
                    ))
                    &&& !is_resolved(ms@, imps[t]) ==> (r matches Err(e) && e@ == unknown)
                }
        }),
{
    let ds = &table.decls[i];
    let ghost dv = content_decls(ms@[i as int].content);
    assert(decls_view(ds@) == dv);
    let mut k: usize = 0;
    while k < ds.len()
        invariant
            dv == decls_view(ds@),
            i < ms@.len(),
            dv == content_decls(ms@[i as int].content),
            0 <= k <= ds@.len(),
            forall|x: int| 0 <= x < k ==> !(is_callable(dv[x].1) && dv[x].0 == callee@),
        decreases ds@.len() - k,
    {
        let c = ds[k].category;
        if (c == DefCategory::Fn || c == DefCategory::Modifier || c == DefCategory::MetaFn)
            && ds[k].name.same_symbol(callee) {
            proof {
                assert(is_callable(dv[k as int].1) && dv[k as int].0 == callee@);
                assert(declares_callable(dv, callee@));
            }
            return Ok(i);
        }
        k = k + 1;
    }
    let imps = flatten_imports(&ms[i].imports);
    let ghost iv = flat_imports(ms@[i as int].imports@);
    let mut t: usize = 0;
    while t < imps.len()
        invariant
            table.describes(ms@),
            i < ms@.len(),
            dv == content_decls(ms@[i as int].content),
            iv == flat_imports(ms@[i as int].imports@),
            forall|x: int| 0 <= x < dv.len() ==> !(is_callable(dv[x].1) && dv[x].0 == callee@),
            iv == imps@.map_values(|x: ImportRef| x@),
            0 <= t <= imps@.len(),
            forall|u: int| 0 <= u < t ==> !(is_callable((#[trigger] iv[u]).0) && iv[u].2 == callee@),
        decreases imps@.len() - t,
    {
        let c = imps[t].category;
        if (c == DefCategory::Fn || c == DefCategory::Modifier || c == DefCategory::MetaFn)
            && imps[t].name.same_symbol(callee) {
            assert(iv[t as int] == imps@[t as int]@);
            assert(first_callable_import(iv, callee@, t as int));
            match find_definer(ms, table, &imps[t]) {
                Some(j) => {
                    return Ok(j);
                },
                None => {
                    return Err(
                        Diagnostic::new(
                            ErrorKind::UnknownSymbol,
                            ms[i].name.clone_path(),
                            callee.value.clone(),
                        ),
                    );
                },
            }
        }
        proof {
            assert(iv[t as int] == imps@[t as int]@);
        }
        t = t + 1;
    }
    Err(Diagnostic::new(ErrorKind::UnknownSymbol, ms[i].name.clone_path(), callee.value.clone()))
}


/// A call of the symbol made in module `i` binds to a definition: the
/// module declares the callable, or its first callable import of the
/// symbol resolves.
pub open spec fn call_binds(ms: Seq<HIRModule>, i: int, s: NameView) -> bool {
    let imps = flat_imports(ms[i].imports@);
    ||| declares_callable(content_decls(ms[i].content), s)
    ||| exists|t: int| first_callable_import(imps, s, t) && is_resolved(ms, imps[t])
}

proof fn lemma_first_callable_import_exists(imps: Seq<ImportView>, s: NameView, n: int)
    requires
        0 <= n <= imps.len(),
        exists|u: int| 0 <= u < n && is_callable(imps[u].0) && imps[u].2 == s,
    ensures
        exists|t: int| first_callable_import(imps, s, t),
    decreases n,
{
    if exists|u: int| 0 <= u < n - 1 && is_callable(imps[u].0) && imps[u].2 == s {
        lemma_first_callable_import_exists(imps, s, n - 1);
    } else {
        assert(first_callable_import(imps, s, n - 1));
    }
}


/// A constant or type of the category `c` named `s` is visible in module
/// `i`: declared there, or brought by an import that resolves.
pub open spec fn visible(ms: Seq<HIRModule>, i: int, s: NameView, c: DefCategory) -> bool {
    let ds = content_decls(ms[i].content);
    let imps = flat_imports(ms[i].imports@);
    ||| ds.contains((s, c))
    ||| exists|t: int| 0 <= t < imps.len() && imps[t].0 == c && imps[t].2 == s && is_resolved(ms, imps[t])
}

/// `s` is a parameter of the definition, or a name that its body declares
/// or assigns.
pub open spec fn in_scope(params: Seq<NameView>, us: Seq<UseView>, s: NameView) -> bool {
    ||| params.contains(s)
    ||| exists|k: int| 0 <= k < us.len() && us[k].0 == UseTag::Decl && us[k].1 == seq![s]
}

pub open spec fn types_of(c: Content) -> Seq<TypeDef> {
    match c {
        Content::Types(v) => v@,
        _ => Seq::empty(),
    }
}

/// Module `j` defines the type that module `i` imports under the name `s`.
pub open spec fn type_source(ms: Seq<HIRModule>, i: int, j: int, s: NameView) -> bool {
    let imps = flat_imports(ms[i].imports@);
    &&& 0 <= j < ms.len()
    &&& exists|t: int|
        0 <= t < imps.len() && imps[t].0 == DefCategory::Type && imps[t].2 == s && defines_at(
            ms,
            j,
            imps[t],
        )
}

pub open spec fn first_type_source(ms: Seq<HIRModule>, i: int, s: NameView, j: int) -> bool {
    &&& type_source(ms, i, j, s)
    &&& forall|x: int| 0 <= x < j ==> !type_source(ms, i, x, s)
}

/// The module whose types a member path starting with `s` is resolved in:
/// the first that defines a type imported as `s`.
pub open spec fn member_target(ms: Seq<HIRModule>, i: int, s: NameView) -> Option<int> {
    if exists|j: int| type_source(ms, i, j, s) {
        Some(choose|j: int| first_type_source(ms, i, s, j))
    } else {
        None
    }
}

/// A member path binds: it starts with a name in scope (a variable's
/// members), or it resolves in the types of its target module.
pub open spec fn member_binds(
    ms: Seq<HIRModule>,
    i: int,
    params: Seq<NameView>,
    us: Seq<UseView>,
    p: Seq<NameView>,
) -> bool {
    ||| p.len() == 0
    ||| in_scope(params, us, p[0])
    ||| (member_target(ms, i, p[0]) matches Some(j) && member_failure(types_of(ms[j].content), p) is None)
}

/// The name an `UnknownSymbol` reports for a use: for a member path, its
/// first segment that binds to nothing.
pub open spec fn unknown_name(ms: Seq<HIRModule>, i: int, u: UseView) -> Seq<char> {
    if u.0 == UseTag::Member && u.1.len() > 0 && member_target(ms, i, u.1[0]) is Some {
        u.1[member_failure(types_of(ms[member_target(ms, i, u.1[0])->0].content), u.1)->0].0
    } else {
        use_name(u)
    }
}

/// A use in a definition binds: a call to a callable; an identifier to a
/// name in scope or a visible constant; a member path, by its first
/// segment, to a name in scope or a visible type.
pub open spec fn use_binds(ms: Seq<HIRModule>, i: int, params: Seq<NameView>, us: Seq<UseView>, u: UseView) -> bool {
    match u.0 {
        UseTag::Call => u.1.len() == 0 || call_binds(ms, i, u.1[0]),
        UseTag::Ident => u.1.len() == 0 || in_scope(params, us, u.1[0]) || visible(
            ms,
            i,
            u.1[0],
            DefCategory::Const,
        ),
        UseTag::Member => member_binds(ms, i, params, us, u.1),
        _ => true,
    }
}

/// The name a use reports: its first symbol's name, or nothing.
pub open spec fn use_name(u: UseView) -> Seq<char> {
    if u.1.len() > 0 {
        u.1[0].0
    } else {
        Seq::empty()
    }
}

/// The errors of the first `n` uses of a definition: `UnknownSymbol` for a
/// use that binds to nothing, and `IllegalStrictQpu` for a QPU expression
/// demanded immediately.
pub open spec fn use_errors(
    ms: Seq<HIRModule>,
    i: int,
    params: Seq<NameView>,
    us: Seq<UseView>,
    n: nat,
) -> Seq<DiagView>
    decreases n,
{
    if n == 0 {
        Seq::empty()
    } else {
        let u = us[n - 1];
        let path = ms[i].name@;
        let a = use_errors(ms, i, params, us, (n - 1) as nat);
        let b = if use_binds(ms, i, params, us, u) {
            a
        } else {
            a.push((ErrorKind::UnknownSymbol, path, unknown_name(ms, i, u)))
        };
        if u.0 != UseTag::Decl && planned(u.2, u.3) is None {
            b.push((ErrorKind::IllegalStrictQpu, path, use_name(u)))
        } else {
            b
        }
    }
}

/// The kind and mode of each of the first `n` uses that is an expression
/// and named a mode.
pub open spec fn use_modes(us: Seq<UseView>, n: nat) -> Seq<(BackendKind, SchedulingMode)>
    decreases n,
{
    if n == 0 {
        Seq::empty()
    } else {
        let u = us[n - 1];
        let prev = use_modes(us, (n - 1) as nat);
        if u.0 != UseTag::Decl && planned(u.2, u.3) is Some {
            prev.push((u.2, planned(u.2, u.3)->0))
        } else {
            prev
        }
    }
}

/// The module a call of `s` made in module `i` binds to: `i` itself where
/// it declares the callable, else the first module defining its first
/// callable import of `s`.
pub open spec fn call_target(ms: Seq<HIRModule>, i: int, s: NameView) -> int {
    if declares_callable(content_decls(ms[i].content), s) {
        i
    } else {
        let imps = flat_imports(ms[i].imports@);
        let t = choose|t: int| first_callable_import(imps, s, t);
        choose|j: int| is_first_definer(ms, j, imps[t])
    }
}

/// The targets of the first `n` uses that are calls which bind.
pub open spec fn use_calls(ms: Seq<HIRModule>, i: int, us: Seq<UseView>, n: nat) -> Seq<int>
    decreases n,
{
    if n == 0 {
        Seq::empty()
    } else {
        let u = us[n - 1];
        let prev = use_calls(ms, i, us, (n - 1) as nat);
        if u.0 == UseTag::Call && u.1.len() > 0 && call_binds(ms, i, u.1[0]) {
            prev.push(call_target(ms, i, u.1[0]))
        } else {
            prev
        }
    }
}

pub open spec fn def_calls(ms: Seq<HIRModule>, i: int, g: GroupsDef) -> Seq<int> {
    let us = block_uses(def_body(g));
    use_calls(ms, i, us, us.len())
}

pub open spec fn groups_calls(ms: Seq<HIRModule>, i: int, gs: Seq<GroupsDef>) -> Seq<int>
    decreases gs.len(),
{
    if gs.len() == 0 {
        Seq::empty()
    } else {
        groups_calls(ms, i, gs.drop_last()) + def_calls(ms, i, gs.last())
    }
}

/// The call targets of module `i`'s bodies.
pub open spec fn body_calls(ms: Seq<HIRModule>, i: int) -> Seq<int> {
    match ms[i].content {
        Content::Groups(gs) => groups_calls(ms, i, gs@),
        _ => Seq::empty(),
    }
}

pub open spec fn def_body(g: GroupsDef) -> Block {
    match g {
        GroupsDef::FnDef(f) => f.body,
        GroupsDef::ModifierDef(m) => m.body,
        GroupsDef::MetaFnDef(m) => m.body,
    }
}

pub open spec fn def_params(g: GroupsDef) -> Seq<NameView> {
    match g {
        GroupsDef::FnDef(f) => f.params@.map_values(|p: crate::hir::Param| p.name@),
        GroupsDef::ModifierDef(m) => (if m.params[0] is Some {
            seq![m.params[0]->0.name@]
        } else {
            Seq::empty()
        }) + (if m.params[1] is Some {
            seq![m.params[1]->0.name@]
        } else {
            Seq::empty()
        }),
        GroupsDef::MetaFnDef(m) => m.params@.map_values(|p: crate::hir::Param| p.name@),
    }
}

pub open spec fn def_errors(ms: Seq<HIRModule>, i: int, g: GroupsDef) -> Seq<DiagView> {
    let us = block_uses(def_body(g));
    use_errors(ms, i, def_params(g), us, us.len())
}

pub open spec fn def_modes(g: GroupsDef) -> Seq<(BackendKind, SchedulingMode)> {
    let us = block_uses(def_body(g));
    use_modes(us, us.len())
}

pub open spec fn groups_errors(ms: Seq<HIRModule>, i: int, gs: Seq<GroupsDef>) -> Seq<DiagView>
    decreases gs.len(),
{
    if gs.len() == 0 {
        Seq::empty()
    } else {
        groups_errors(ms, i, gs.drop_last()) + def_errors(ms, i, gs.last())
    }
}

pub open spec fn groups_modes(gs: Seq<GroupsDef>) -> Seq<(BackendKind, SchedulingMode)>
    decreases gs.len(),
{
    if gs.len() == 0 {
        Seq::empty()
    } else {
        groups_modes(gs.drop_last()) + def_modes(gs.last())
    }
}

/// The errors of the uses in module `i`'s bodies, definition by definition.
pub open spec fn body_errors(ms: Seq<HIRModule>, i: int) -> Seq<DiagView> {
    match ms[i].content {
        Content::Groups(gs) => groups_errors(ms, i, gs@),
        _ => Seq::empty(),
    }
}

/// The annotation map of module `i`'s bodies.
pub open spec fn body_modes(ms: Seq<HIRModule>, i: int) -> Seq<(BackendKind, SchedulingMode)> {
    match ms[i].content {
        Content::Groups(gs) => groups_modes(gs@),
        _ => Seq::empty(),
    }
}

fn param_names(g: &GroupsDef) -> (r: Vec<Symbol>)
    ensures
        names_of(r@) == def_params(*g),
{
    let mut r: Vec<Symbol> = Vec::new();
    match g {
        GroupsDef::FnDef(f) => {
            let mut k: usize = 0;
            while k < f.params.len()
                invariant
                    0 <= k <= f.params@.len(),
                    r@.len() == k,
                    forall|x: int| 0 <= x < k ==> #[trigger] r@[x]@ == f.params@[x].name@,
                decreases f.params@.len() - k,
            {
                r.push(f.params[k].name.clone_symbol());
                k = k + 1;
            }
            proof {
                assert(names_of(r@) =~= def_params(*g));
            }
        },
        GroupsDef::MetaFnDef(f) => {
            let mut k: usize = 0;
            while k < f.params.len()
                invariant
                    0 <= k <= f.params@.len(),
                    r@.len() == k,
                    forall|x: int| 0 <= x < k ==> #[trigger] r@[x]@ == f.params@[x].name@,
                decreases f.params@.len() - k,
            {
                r.push(f.params[k].name.clone_symbol());
                k = k + 1;
            }
            proof {
                assert(names_of(r@) =~= def_params(*g));
            }
        },
        GroupsDef::ModifierDef(m) => {
            match &m.params[0] {
                Some(p) => r.push(p.name.clone_symbol()),
                None => {},
            }
            match &m.params[1] {
                Some(p) => r.push(p.name.clone_symbol()),
                None => {},
            }
            proof {
                assert(names_of(r@) =~= def_params(*g));
            }
        },
    }
    r
}

fn scope_has(params: &Vec<Symbol>, us: &Vec<Use>, s: &Symbol) -> (r: bool)
    ensures
        r == in_scope(names_of(params@), uses_of(us@), s@),
{
    let ghost pv = names_of(params@);
    let ghost uv = uses_of(us@);
    let mut k: usize = 0;
    while k < params.len()
        invariant
            pv == names_of(params@),
            0 <= k <= params@.len(),
            forall|x: int| 0 <= x < k ==> pv[x] != s@,
        decreases params@.len() - k,
    {
        if params[k].same_symbol(s) {
            proof {
                assert(pv[k as int] == s@);
            }
            return true;
        }
        k = k + 1;
    }
    let mut j: usize = 0;
    while j < us.len()
        invariant
            pv == names_of(params@),
            uv == uses_of(us@),
            !pv.contains(s@),
            0 <= j <= us@.len(),
            forall|x: int| 0 <= x < j ==> !(uv[x].0 == UseTag::Decl && uv[x].1 == seq![s@]),
        decreases us@.len() - j,
    {
        let u = &us[j];
        if u.tag == UseTag::Decl && u.symbols.len() == 1 && u.symbols[0].same_symbol(s) {
            proof {
                assert(uv[j as int].1 =~= seq![s@]);
            }
            return true;
        }
        proof {
            if uv[j as int].0 == UseTag::Decl && uv[j as int].1 == seq![s@] {
                assert(names_of(u.symbols@).len() == 1);
                assert(names_of(u.symbols@)[0] == u.symbols@[0]@);
            }
        }
        j = j + 1;
    }
    false
}

fn is_visible(ms: &Vec<HIRModule>, table: &SymbolTable, i: usize, s: &Symbol, c: DefCategory) -> (r: bool)
    requires
        table.describes(ms@),
        i < ms@.len(),
    ensures
        r == visible(ms@, i as int, s@, c),
{
    assert(decls_view(table.decls@[i as int]@) == content_decls(ms@[i as int].content));
    if contains_decl(&table.decls[i], s, c) {
        return true;
    }
    let imps = flatten_imports(&ms[i].imports);
    let ghost iv = flat_imports(ms@[i as int].imports@);
    let mut t: usize = 0;
    while t < imps.len()
        invariant
            table.describes(ms@),
            i < ms@.len(),
            iv == imps@.map_values(|x: ImportRef| x@),
            !content_decls(ms@[i as int].content).contains((s@, c)),
            iv == flat_imports(ms@[i as int].imports@),
            0 <= t <= imps@.len(),
            forall|u: int| 0 <= u < t ==> !(iv[u].0 == c && iv[u].2 == s@ && is_resolved(ms@, iv[u])),
        decreases imps@.len() - t,
    {
        assert(iv[t as int] == imps@[t as int]@);
        if imps[t].category == c && imps[t].name.same_symbol(s) {
            if find_definer(ms, table, &imps[t]).is_some() {
                return true;
            }
        }
        t = t + 1;
    }
    false
}

fn type_source_at(ms: &Vec<HIRModule>, table: &SymbolTable, i: usize, j: usize, s: &Symbol, imps: &Vec<ImportRef>) -> (r: bool)
    requires
        table.describes(ms@),
        i < ms@.len(),
        j < ms@.len(),
        imps@.map_values(|x: ImportRef| x@) == flat_imports(ms@[i as int].imports@),
    ensures
        r == type_source(ms@, i as int, j as int, s@),
{
    let ghost iv = flat_imports(ms@[i as int].imports@);
    assert(decls_view(table.decls@[j as int]@) == content_decls(ms@[j as int].content));
    let mut t: usize = 0;
    while t < imps.len()
        invariant
            table.describes(ms@),
            i < ms@.len(),
            j < ms@.len(),
            iv == imps@.map_values(|x: ImportRef| x@),
            iv == flat_imports(ms@[i as int].imports@),
            decls_view(table.decls@[j as int]@) == content_decls(ms@[j as int].content),
            0 <= t <= imps@.len(),
            forall|u: int|
                0 <= u < t ==> !(iv[u].0 == DefCategory::Type && iv[u].2 == s@ && defines_at(
                    ms@,
                    j as int,
                    iv[u],
                )),
        decreases imps@.len() - t,
    {
        assert(iv[t as int] == imps@[t as int]@);
        let it = &imps[t];
        if it.category == DefCategory::Type && it.name.same_symbol(s) && ms[j].name.same_as(&it.path)
            && contains_decl(&table.decls[j], &it.name, DefCategory::Type) {
            return true;
        }
        t = t + 1;
    }
    false
}

proof fn lemma_first_type_source(ms: Seq<HIRModule>, i: int, s: NameView, j: int)
    requires
        first_type_source(ms, i, s, j),
    ensures
        member_target(ms, i, s) == Some(j),
{
    let c = choose|x: int| first_type_source(ms, i, s, x);
    assert(first_type_source(ms, i, s, c));
    if c < j {
        assert(!type_source(ms, i, c, s));
    } else if c > j {
        assert(!type_source(ms, i, j, s));
    }
}

/// Binds a member path used in module `i` outside the scope of its
/// definition's names: `None` where it binds, else the name to report.
fn bind_member(ms: &Vec<HIRModule>, table: &SymbolTable, i: usize, p: &Vec<Symbol>) -> (r: Option<String>)
    requires
        table.describes(ms@),
        i < ms@.len(),
        p@.len() > 0,
    ensures
        ({
            let pv = names_of(p@);
            let t = member_target(ms@, i as int, pv[0]);
            &&& r is None <==> (t matches Some(j) && member_failure(types_of(ms@[j].content), pv) is None)
            &&& r matches Some(d) ==> d@ == unknown_name(ms@, i as int, (UseTag::Member, pv, BackendKind::CPU, crate::planner::Demand::Default))
        }),
{
    let ghost pv = names_of(p@);
    assert(pv[0] == p@[0]@);
    let imps = flatten_imports(&ms[i].imports);
    let empty: Vec<TypeDef> = Vec::new();
    let mut j: usize = 0;
    while j < ms.len()
        invariant
            table.describes(ms@),
            i < ms@.len(),
            pv == names_of(p@),
            p@.len() > 0,
            pv[0] == p@[0]@,
            imps@.map_values(|x: ImportRef| x@) == flat_imports(ms@[i as int].imports@),
            0 <= j <= ms@.len(),
            forall|x: int| 0 <= x < j ==> !type_source(ms@, i as int, x, pv[0]),
        decreases ms@.len() - j,
    {
        if type_source_at(ms, table, i, j, &p[0], &imps) {
            proof {
                lemma_first_type_source(ms@, i as int, pv[0], j as int);
            }
            let ts = match &ms[j].content {
                Content::Types(v) => v,
                _ => &empty,
            };
            assert(ts@ == types_of(ms@[j as int].content));
            let path = CompositeSymbol { value: clone_symbols(p) };
            return match resolve_member_path(&ms[j].name, ts, &path) {
                Ok(_) => None,
                Err(e) => Some(e.detail),
            };
        }
        j = j + 1;
    }
    Some(p[0].value.clone())
}

/// Binds and plans the uses of one definition of module `i`.
pub fn check_uses(ms: &Vec<HIRModule>, table: &SymbolTable, i: usize, params: &Vec<Symbol>, us: &Vec<Use>) -> (r: (
    Vec<Diagnostic>,
    Vec<(BackendKind, SchedulingMode)>,
    Vec<usize>,
))
    requires
        table.describes(ms@),
        i < ms@.len(),
    ensures
        r.2@.map_values(|x: usize| x as int) == use_calls(ms@, i as int, uses_of(us@), us@.len()),
        r.0@.map_values(|d: Diagnostic| d@) == use_errors(
            ms@,
            i as int,
            names_of(params@),
            uses_of(us@),
            us@.len(),
        ),
        r.1@ == use_modes(uses_of(us@), us@.len()),
{
    let ghost pv = names_of(params@);
    let ghost uv = uses_of(us@);
    let mut errs: Vec<Diagnostic> = Vec::new();
    let mut modes: Vec<(BackendKind, SchedulingMode)> = Vec::new();
    let mut targets: Vec<usize> = Vec::new();
    let mut k: usize = 0;
    while k < us.len()
        invariant
            table.describes(ms@),
            i < ms@.len(),
            pv == names_of(params@),
            uv == uses_of(us@),
            targets@.map_values(|x: usize| x as int) == use_calls(ms@, i as int, uv, k as nat),
            0 <= k <= us@.len(),
            errs@.map_values(|d: Diagnostic| d@) == use_errors(ms@, i as int, pv, uv, k as nat),
            modes@ == use_modes(uv, k as nat),
        decreases us@.len() - k,
    {
        let u = &us[k];
        assert(u@ == uv[k as int]);
        let ghost a = errs@.map_values(|d: Diagnostic| d@);
        let named = u.symbols.len() > 0;
        proof {
            if named {
                assert(names_of(u.symbols@)[0] == u.symbols@[0]@);
            }
        }
        let binds = match u.tag {
            UseTag::Call => {
                if named {
                    match bind_call(ms, table, i, &u.symbols[0]) {
                        Ok(j) => {
                            proof {
                                let c = u.symbols@[0];
                                let imps = flat_imports(ms@[i as int].imports@);
                                if !declares_callable(content_decls(ms@[i as int].content), c@) {
                                    lemma_first_callable_import_exists(imps, c@, imps.len() as int);
                                    let t = choose|t: int| first_callable_import(imps, c@, t);
                                    assert(is_first_definer(ms@, j as int, imps[t]));
                                    lemma_first_definer_unique(ms@, j as int, imps[t]);
                                }
                                assert(j as int == call_target(ms@, i as int, c@));
                            }
                            let ghost tv = targets@.map_values(|x: usize| x as int);
                            targets.push(j);
                            proof {
                                assert(targets@.map_values(|x: usize| x as int) =~= tv.push(j as int));
                            }
                            true
                        },
                        Err(_) => false,
                    }
                } else {
                    true
                }
            },
            UseTag::Ident => {
                if named {
                    scope_has(params, us, &u.symbols[0]) || is_visible(
                        ms,
                        table,
                        i,
                        &u.symbols[0],
                        DefCategory::Const,
                    )
                } else {
                    true
                }
            },
            UseTag::Member => true,
            _ => true,
        };
        let mut detail = if named {
            u.symbols[0].value.clone()
        } else {
            String::new()
        };
        let mut member_ok = true;
        if u.tag == UseTag::Member && named && !scope_has(params, us, &u.symbols[0]) {
            match bind_member(ms, table, i, &u.symbols) {
                None => {},
                Some(d) => {
                    member_ok = false;
                    detail = d;
                },
            }
        }
        let binds = binds && member_ok;
        proof {
            if u.tag == UseTag::Call && named {
                let c = u.symbols@[0];
                let imps = flat_imports(ms@[i as int].imports@);
                if !declares_callable(content_decls(ms@[i as int].content), c@) && !no_callable_import(imps, c@) {
                    lemma_first_callable_import_exists(imps, c@, imps.len() as int);
                    let t = choose|t: int| first_callable_import(imps, c@, t);
                    assert forall|t2: int| first_callable_import(imps, c@, t2) implies t2 == t by {
                        if t2 < t {
                            assert(!(is_callable(imps[t2].0) && imps[t2].2 == c@));
                        } else if t2 > t {
                            assert(!(is_callable(imps[t].0) && imps[t].2 == c@));
                        }
                    }
                }
            }
            assert(binds == use_binds(ms@, i as int, pv, uv, uv[k as int]));
            assert(!binds ==> detail@ == unknown_name(ms@, i as int, uv[k as int]));
        }
        let name = if named {
            u.symbols[0].value.clone()
        } else {
            String::new()
        };
        if !binds {
            errs.push(Diagnostic::new(ErrorKind::UnknownSymbol, ms[i].name.clone_path(), detail));
        }
        let ghost b = errs@.map_values(|d: Diagnostic| d@);
        if u.tag != UseTag::Decl {
            match plan_kind(u.kind, u.demand) {
                Some(mode) => {
                    modes.push((u.kind, mode));
                },
                None => {
                    errs.push(Diagnostic::new(ErrorKind::IllegalStrictQpu, ms[i].name.clone_path(), name));
                },
            }
        }
        proof {
            assert(errs@.map_values(|d: Diagnostic| d@) =~= use_errors(ms@, i as int, pv, uv, (k + 1) as nat));
            assert(modes@ =~= use_modes(uv, (k + 1) as nat));
            assert(targets@.map_values(|x: usize| x as int) =~= use_calls(ms@, i as int, uv, (k + 1) as nat));
        }
        k = k + 1;
    }
    (errs, modes, targets)
}


/// Binds and plans every use in the bodies of module `i`, definition by
/// definition.
pub fn check_bodies(ms: &Vec<HIRModule>, table: &SymbolTable, i: usize) -> (r: (
    Vec<Diagnostic>,
    Vec<(BackendKind, SchedulingMode)>,
    Vec<usize>,
))
    requires
        table.describes(ms@),
        i < ms@.len(),
    ensures
        r.0@.map_values(|d: Diagnostic| d@) == body_errors(ms@, i as int),
        r.1@ == body_modes(ms@, i as int),
        r.2@.map_values(|x: usize| x as int) == body_calls(ms@, i as int),
{
    let mut targets: Vec<usize> = Vec::new();
    let mut errs: Vec<Diagnostic> = Vec::new();
    let mut modes: Vec<(BackendKind, SchedulingMode)> = Vec::new();
    match &ms[i].content {
        Content::Groups(gs) => {
            let mut k: usize = 0;
            while k < gs.len()
                invariant
                    table.describes(ms@),
                    i < ms@.len(),
                    ms@[i as int].content == Content::Groups(*gs),
                    0 <= k <= gs@.len(),
                    errs@.map_values(|d: Diagnostic| d@) == groups_errors(
                        ms@,
                        i as int,
                        gs@.subrange(0, k as int),
                    ),
                    modes@ == groups_modes(gs@.subrange(0, k as int)),
                    targets@.map_values(|x: usize| x as int) == groups_calls(
                        ms@,
                        i as int,
                        gs@.subrange(0, k as int),
                    ),
                decreases gs@.len() - k,
            {
                let g = &gs[k];
                let params = param_names(g);
                let body = match g {
                    GroupsDef::FnDef(f) => &f.body,
                    GroupsDef::ModifierDef(m) => &m.body,
                    GroupsDef::MetaFnDef(m) => &m.body,
                };
                let mut us: Vec<Use> = Vec::new();
                collect_block(body, &mut us);
                assert(uses_of(us@) =~= block_uses(def_body(*g)));
                let ghost e0 = errs@.map_values(|d: Diagnostic| d@);
                let (mut e, m, t) = check_uses(ms, table, i, &params, &us);
                let ghost e1 = e@.map_values(|d: Diagnostic| d@);
                let ghost t0 = targets@.map_values(|x: usize| x as int);
                let ghost t1 = t@.map_values(|x: usize| x as int);
                let mut t = t;
                targets.append(&mut t);
                let mut m = m;
                errs.append(&mut e);
                modes.append(&mut m);
                proof {
                    assert(gs@.subrange(0, k + 1).drop_last() =~= gs@.subrange(0, k as int));
                    assert(errs@.map_values(|d: Diagnostic| d@) =~= e0 + e1);
                    assert(targets@.map_values(|x: usize| x as int) =~= t0 + t1);
                }
                k = k + 1;
            }
            proof {
                assert(gs@.subrange(0, gs@.len() as int) =~= gs@);
            }
        },
        _ => {
            proof {
                assert(errs@.map_values(|d: Diagnostic| d@) =~= Seq::<DiagView>::empty());
                assert(targets@.map_values(|x: usize| x as int) =~= Seq::<int>::empty());
            }
        },
    }
    (errs, modes, targets)
}


pub open spec fn qpu_staged(ms: Seq<(BackendKind, SchedulingMode)>) -> bool {
    forall|k: int|
        0 <= k < ms.len() && (#[trigger] ms[k]).0 == BackendKind::QPU ==> ms[k].1
            == SchedulingMode::Staged
}

proof fn lemma_use_modes_staged(us: Seq<UseView>, n: nat)
    requires
        n <= us.len(),
    ensures
        qpu_staged(use_modes(us, n)),
    decreases n,
{
    if n > 0 {
        lemma_use_modes_staged(us, (n - 1) as nat);
        let prev = use_modes(us, (n - 1) as nat);
        let cur = use_modes(us, n);
        assert forall|k: int| 0 <= k < cur.len() && (#[trigger] cur[k]).0 == BackendKind::QPU
            implies cur[k].1 == SchedulingMode::Staged by {
            if k < prev.len() {
                assert(cur[k] == prev[k]);
            }
        }
    }
}

proof fn lemma_groups_modes_staged(gs: Seq<GroupsDef>)
    ensures
        qpu_staged(groups_modes(gs)),
    decreases gs.len(),
{
    if gs.len() > 0 {
        lemma_groups_modes_staged(gs.drop_last());
        let us = block_uses(def_body(gs.last()));
        lemma_use_modes_staged(us, us.len());
        let a = groups_modes(gs.drop_last());
        let b = def_modes(gs.last());
        assert forall|k: int| 0 <= k < (a + b).len() && (#[trigger] (a + b)[k]).0 == BackendKind::QPU
            implies (a + b)[k].1 == SchedulingMode::Staged by {
            if k >= a.len() {
                assert((a + b)[k] == b[k - a.len()]);
            }
        }
    }
}

/// In every module of a resolved project, every expression whose backend
/// kind is QPU is scheduled staged, never strict.
pub proof fn lemma_resolved_qpu_staged(ms: Seq<HIRModule>, k: int)
    requires
        0 <= k < resolution_of(ms).0.len(),
    ensures
        qpu_staged(resolution_of(ms).0[k].3),
{
    lemma_mapped_have_no_errors(ms, ms.len());
    let id = resolution_of(ms).0[k].0;
    match ms[id].content {
        Content::Groups(gs) => lemma_groups_modes_staged(gs@),
        _ => {},
    }
}

} // verus!
