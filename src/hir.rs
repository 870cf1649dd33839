//! High-level Intermediate Representation (HIR) for H-hat's Heather dialect.
//! This is the first IR generated out of the raw text.

use vstd::prelude::*;
use crate::ids::{kind_of_marker, sugar_of, BackendKind, Path};
use crate::text::joined;
use itertools::Itertools;

verus! {

/// Identifier for HIR: a name and the backend kind it is tagged with.
/// Two symbols are equal only if both the name and the kind match.
pub struct Symbol {
    pub value: String,
    pub backend_kind: BackendKind,
}

impl View for Symbol {
    type V = (Seq<char>, BackendKind);

    open spec fn view(&self) -> (Seq<char>, BackendKind) {
        (self.value@, self.backend_kind)
    }
}

/// A symbol as written: its sugar marker, then its name.
pub open spec fn rendered(s: (Seq<char>, BackendKind)) -> Seq<char> {
    sugar_of(s.1) + s.0
}

impl Symbol {
    pub fn new(value: String, backend_kind: BackendKind) -> (r: Self)
        ensures
            r.value@ == value@,
            r.backend_kind == backend_kind,
    {
        Self { value, backend_kind }
    }

    /// Reads a written symbol: a leading `+`, `!`, `%` or `@` tags it GPU,
    /// NPU, TPU or QPU and is not part of the name; without a marker it is
    /// a CPU symbol.
    pub fn from_text(text: &str) -> (r: Symbol)
        ensures
            text@.len() > 0 && kind_of_marker(text@[0]) is Some ==> r@ == (
                text@.subrange(1, text@.len() as int),
                kind_of_marker(text@[0])->0,
            ),
            !(text@.len() > 0 && kind_of_marker(text@[0]) is Some) ==> r@ == (
                text@,
                BackendKind::CPU,
            ),
    {
        let n = text.unicode_len();
        if n > 0 {
            match BackendKind::from_marker(text.get_char(0)) {
                Some(k) => {
                    return Symbol::new(String::from_str(text.substring_char(1, n)), k);
                },
                None => {},
            }
        }
        Symbol::new(String::from_str(text), BackendKind::CPU)
    }

    pub fn same_symbol(&self, other: &Symbol) -> (r: bool)
        ensures
            r == (self@ == other@),
    {
        self.backend_kind == other.backend_kind && self.value == other.value
    }

    pub fn clone_symbol(&self) -> (r: Symbol)
        ensures
            r@ == self@,
    {
        Symbol { value: self.value.clone(), backend_kind: self.backend_kind }
    }

    /// The symbol with its sugar marker, for diagnostics.
    pub fn to_string(&self) -> (r: String)
        ensures
            r@ == rendered(self@),
    {
        let mut r = self.backend_kind.sugar_fmt();
        r.append(self.value.as_str());
        r
    }
}

/// Reading a written symbol and writing it back gives the same text.
pub proof fn lemma_sugar_round_trip(text: Seq<char>, s: (Seq<char>, BackendKind))
    requires
        text.len() > 0 && kind_of_marker(text[0]) is Some ==> s == (
            text.subrange(1, text.len() as int),
            kind_of_marker(text[0])->0,
        ),
        !(text.len() > 0 && kind_of_marker(text[0]) is Some) ==> s == (text, BackendKind::CPU),
    ensures
        rendered(s) == text,
{
    if text.len() > 0 && kind_of_marker(text[0]) is Some {
        assert(sugar_of(s.1) == seq![text[0]]);
        assert(rendered(s) =~= text);
    } else {
        assert(rendered(s) =~= text);
    }
}

/// Composite identifier for HIR: a dotted access path, outer to inner.
///
/// Can be used for calling enums, for instance.
pub struct CompositeSymbol {
    pub value: Vec<Symbol>,
}

impl View for CompositeSymbol {
    type V = Seq<(Seq<char>, BackendKind)>;

    open spec fn view(&self) -> Seq<(Seq<char>, BackendKind)> {
        self.value@.map_values(|s: Symbol| s@)
    }
}

/// Relies on itertools' `Itertools::join`: the displayed items with `sep`
/// between neighbours, and the empty string for no items.
#[verifier::external_body]
fn join_parts(parts: &Vec<String>, sep: &str) -> (r: String)
    ensures
        r@ == joined(parts@.map_values(|x: String| x@), sep@),
{
    parts.iter().join(sep)
}

impl CompositeSymbol {
    pub fn new(value: Vec<Symbol>) -> (r: Self)
        requires
            value@.len() > 0,
        ensures
            r.value@ == value@,
    {
        Self { value }
    }

    /// The rendered members, joined by dots.
    pub fn to_string(&self) -> (r: String)
        ensures
            r@ == joined(self@.map_values(|s: (Seq<char>, BackendKind)| rendered(s)), seq!['.']),
    {
        let mut parts: Vec<String> = Vec::new();
        let mut i: usize = 0;
        while i < self.value.len()
            invariant
                0 <= i <= self.value@.len(),
                parts@.len() == i,
                forall|k: int| 0 <= k < i ==> #[trigger] parts@[k]@ == rendered(self.value@[k]@),
            decreases self.value@.len() - i,
        {
            parts.push(self.value[i].to_string());
            i = i + 1;
        }
        proof {
            reveal_strlit(".");
            assert("."@ =~= seq!['.']);
            assert(parts@.map_values(|x: String| x@) =~= self@.map_values(
                |s: (Seq<char>, BackendKind)| rendered(s),
            ));
        }
        join_parts(&parts, ".")
    }
}

/// Symbols with path for importing purposes for HIR.
pub struct ImportPathSymbol {
    pub name: Symbol,
    pub path: Path,
}

impl ImportPathSymbol {
    pub fn new(name: Symbol, path: Path) -> (r: Self)
        ensures
            r.name@ == name@,
            r.path@ == path@,
    {
        Self { name, path }
    }

    /// `path.name`, or just the name for an import from the root.
    pub fn to_string(&self) -> (r: String)
        ensures
            self.path@.len() > 0 ==> r@ == joined(self.path@, seq!['.']) + seq!['.'] + rendered(
                self.name@,
            ),
            self.path@.len() == 0 ==> r@ == rendered(self.name@),
    {
        let mut r = self.path.to_string();
        if self.path.len() > 0 {
            proof {
                reveal_strlit(".");
            }
            r.append(".");
        } else {
            proof {
                assert(r@ =~= Seq::<char>::empty());
            }
        }
        let n = self.name.to_string();
        r.append(n.as_str());
        proof {
            assert(self.path@.len() == 0 ==> r@ =~= rendered(self.name@));
        }
        r
    }
}

impl Path {
    /// The segments joined by dots.
    pub fn to_string(&self) -> (r: String)
        ensures
            r@ == joined(self@, seq!['.']),
    {
        let mut r = String::new();
        let mut i: usize = 0;
        proof {
            reveal_strlit(".");
        }
        while i < self.0.len()
            invariant
                0 <= i <= self.0@.len(),
                r@ == joined(self@.subrange(0, i as int), seq!['.']),
                "."@ == seq!['.'],
            decreases self.0@.len() - i,
        {
            proof {
                assert(self@.subrange(0, i + 1).drop_last() =~= self@.subrange(0, i as int));
            }
            if i > 0 {
                r.append(".");
            } else {
                proof {
                    assert(r@ =~= Seq::<char>::empty());
                }
            }
            r.append(self.0[i].as_str());
            i = i + 1;
        }
        proof {
            assert(self@.subrange(0, self@.len() as int) =~= self@);
        }
        r
    }
}

/// Categories of imported and defined items.
#[derive(Clone, Copy, Debug, PartialEq, Eq, Structural)]
pub enum DefCategory {
    Const,
    Type,
    Fn,
    Modifier,
    MetaFn,
}

/// HIR imports.
///
/// Includes constants, types, functions, modifiers, meta-functions.
///
/// Imports cannot have alias for now, so constants and types
/// must have unique names.
pub enum Imports {
    Consts(Vec<ImportPathSymbol>),
    Types(Vec<ImportPathSymbol>),
    Fns(Vec<ImportPathSymbol>),
    Modifiers(Vec<ImportPathSymbol>),
    MetaFns(Vec<ImportPathSymbol>),
}

impl Imports {
    pub open spec fn category(&self) -> DefCategory {
        match self {
            Imports::Consts(_) => DefCategory::Const,
            Imports::Types(_) => DefCategory::Type,
            Imports::Fns(_) => DefCategory::Fn,
            Imports::Modifiers(_) => DefCategory::Modifier,
            Imports::MetaFns(_) => DefCategory::MetaFn,
        }
    }

    pub open spec fn items(&self) -> Seq<ImportPathSymbol> {
        match self {
            Imports::Consts(v) => v@,
            Imports::Types(v) => v@,
            Imports::Fns(v) => v@,
            Imports::Modifiers(v) => v@,
            Imports::MetaFns(v) => v@,
        }
    }

    pub fn get_category(&self) -> (r: DefCategory)
        ensures
            r == self.category(),
    {
        match self {
            Imports::Consts(_) => DefCategory::Const,
            Imports::Types(_) => DefCategory::Type,
            Imports::Fns(_) => DefCategory::Fn,
            Imports::Modifiers(_) => DefCategory::Modifier,
            Imports::MetaFns(_) => DefCategory::MetaFn,
        }
    }

    pub fn get_items(&self) -> (r: &Vec<ImportPathSymbol>)
        ensures
            r@ == self.items(),
    {
        match self {
            Imports::Consts(v) => v,
            Imports::Types(v) => v,
            Imports::Fns(v) => v,
            Imports::Modifiers(v) => v,
            Imports::MetaFns(v) => v,
        }
    }
}

/// Constant definition for HIR.
///
/// It must exist in a constants-only file.
pub struct ConstDef {
    pub name: Symbol,
    pub ty: TypeName,
    pub modifiers: Vec<Modifier>,
}

/// HIR literal object, tagged with the backend kind it lives on.
/// A float literal keeps its decimal text.
pub enum Literal {
    Bool(bool, BackendKind),
    Int(i64, BackendKind),
    Float(String, BackendKind),
    Str(String, BackendKind),
}

impl Literal {
    pub open spec fn kind(&self) -> BackendKind {
        match self {
            Literal::Bool(_, k) => *k,
            Literal::Int(_, k) => *k,
            Literal::Float(_, k) => *k,
            Literal::Str(_, k) => *k,
        }
    }

    pub fn backend_kind(&self) -> (r: BackendKind)
        ensures
            r == self.kind(),
    {
        match self {
            Literal::Bool(_, k) => *k,
            Literal::Int(_, k) => *k,
            Literal::Float(_, k) => *k,
            Literal::Str(_, k) => *k,
        }
    }
}

/// Expression for HIR.
pub enum Expr {
    Id(Symbol),
    Literal(Literal),
    /// Function call
    Call { callee: Symbol, args: Vec<Expr>, modifiers: Vec<Modifier> },
    /// Meta-function call
    MetaCall(MetaCall),
    /// Cast call
    Cast { value: Box<Expr>, to_ty: Box<TypeName>, modifiers: Vec<Modifier> },
    /// Get value from struct/enum: `var.member1`, `var.{member1 member2}`, so on
    DataMemberAccess(CompositeSymbol),
}

/// Meta-function calls: option (cases), body (blocks) and option-body
/// (case-blocks) functions.
#[allow(inconsistent_fields)]
pub enum MetaCall {
    /// Syntax: `name(option:{body} ...)`
    Optn { name: Symbol, options: Vec<OptionBody>, modifiers: Vec<Modifier> },
    /// Syntax: `name(args*){body}`
    Bdn { name: Symbol, args: Vec<Expr>, body: Block, modifiers: Vec<Modifier> },
    /// Syntax: `name(args*){option:{body} ...}`
    OptBdn { name: Symbol, args: Vec<Expr>, body: Vec<OptionBody>, modifiers: Vec<Modifier> },
}

impl MetaCall {
    pub open spec fn name_kind(&self) -> BackendKind {
        match self {
            MetaCall::Optn { name, .. } => name.backend_kind,
            MetaCall::Bdn { name, .. } => name.backend_kind,
            MetaCall::OptBdn { name, .. } => name.backend_kind,
        }
    }
}

/// Option + body for HIR. Syntax: `opt:{body}`
pub struct OptionBody {
    pub opt: Expr,
    pub body: Block,
}

/// Modifiers calls for HIR.
///
/// It can be no-arg modifiers (`<&>`, `<mut>`) or
/// single-arg modifiers (`<shots=1000>`, `<device=qiskit.aer-sim>`).
pub struct Modifier {
    pub name: Symbol,
    pub value: Option<Expr>,
}

pub struct StructDef {
    pub name: Symbol,
    pub members: Vec<StructMember>,
    pub modifiers: Vec<Modifier>,
}

pub struct StructMember {
    pub name: Symbol,
    pub ty: TypeName,
}

/// Type name for HIR: its name (as a [`Symbol`], which carries the backend
/// kind) and its modifier.
pub struct TypeName {
    pub name: Symbol,
    pub modifiers: Modifier,
}

pub enum EnumMember {
    /// Enum member as a single value:
    ///
    /// `enum status { ON, OFF }` -> `status.ON`, `status.OFF`
    KindMember(Symbol),
    /// Enum member as a struct:
    ///
    /// `enum color { rgb{r:u8 g:u8 b:u8} hex{value:u32} }` ->
    /// `color.rgb.r`, `color.rgb.g`, `color.rgb.b`, etc.
    StructMember(StructDef),
}

#[derive(Clone, Copy, Debug, PartialEq, Eq, Structural)]
pub enum PrimitiveDef {
    BOOL,
    U32,
    U64,
    I32,
    I64,
    F32,
    F64,
    STR,
}

pub open spec fn primitive_name(p: PrimitiveDef) -> Seq<char> {
    match p {
        PrimitiveDef::BOOL => seq!['b', 'o', 'o', 'l'],
        PrimitiveDef::U32 => seq!['u', '3', '2'],
        PrimitiveDef::U64 => seq!['u', '6', '4'],
        PrimitiveDef::I32 => seq!['i', '3', '2'],
        PrimitiveDef::I64 => seq!['i', '6', '4'],
        PrimitiveDef::F32 => seq!['f', '3', '2'],
        PrimitiveDef::F64 => seq!['f', '6', '4'],
        PrimitiveDef::STR => seq!['s', 't', 'r'],
    }
}

impl PrimitiveDef {
    /// The primitive's type name, a CPU symbol.
    pub fn symbol(&self) -> (r: Symbol)
        ensures
            r@ == (primitive_name(*self), BackendKind::CPU),
    {
        proof {
            reveal_strlit("bool");
            reveal_strlit("u32");
            reveal_strlit("u64");
            reveal_strlit("i32");
            reveal_strlit("i64");
            reveal_strlit("f32");
            reveal_strlit("f64");
            reveal_strlit("str");
        }
        let s = match self {
            PrimitiveDef::BOOL => "bool",
            PrimitiveDef::U32 => "u32",
            PrimitiveDef::U64 => "u64",
            PrimitiveDef::I32 => "i32",
            PrimitiveDef::I64 => "i64",
            PrimitiveDef::F32 => "f32",
            PrimitiveDef::F64 => "f64",
            PrimitiveDef::STR => "str",
        };
        Symbol::new(String::from_str(s), BackendKind::CPU)
    }
}

/// Type definition for HIR.
///
/// It must exist in a types-only file.
pub enum TypeDef {
    PrimitiveDef(PrimitiveDef),
    StructDef(StructDef),
    EnumDef { name: Symbol, members: Vec<EnumMember>, modifiers: Vec<Modifier> },
    /// Possibly to use for function types (`fn_t`, `optn_t`, `bdn_t`,
    /// `optbdn_t`), variable type (`var_t`), etc.
    NamedType { name: Symbol },
}

impl TypeDef {
    pub open spec fn name(&self) -> (Seq<char>, BackendKind) {
        match self {
            TypeDef::PrimitiveDef(p) => (primitive_name(*p), BackendKind::CPU),
            TypeDef::StructDef(s) => s.name@,
            TypeDef::EnumDef { name, .. } => name@,
            TypeDef::NamedType { name } => name@,
        }
    }

    pub fn name_symbol(&self) -> (r: Symbol)
        ensures
            r@ == self.name(),
    {
        match self {
            TypeDef::PrimitiveDef(p) => p.symbol(),
            TypeDef::StructDef(s) => s.name.clone_symbol(),
            TypeDef::EnumDef { name, .. } => name.clone_symbol(),
            TypeDef::NamedType { name } => name.clone_symbol(),
        }
    }
}

/// Group of definitions for HIR: functions (including `cast` functions),
/// modifiers and meta-functions definitions. They can co-exist in the same
/// file.
pub enum GroupsDef {
    FnDef(FnDef),
    ModifierDef(ModifierDef),
    MetaFnDef(MetaFnDef),
}

impl GroupsDef {
    pub open spec fn name(&self) -> (Seq<char>, BackendKind) {
        match self {
            GroupsDef::FnDef(f) => f.name@,
            GroupsDef::ModifierDef(m) => m.name@,
            GroupsDef::MetaFnDef(m) => m.name@,
        }
    }

    pub open spec fn category(&self) -> DefCategory {
        match self {
            GroupsDef::FnDef(_) => DefCategory::Fn,
            GroupsDef::ModifierDef(_) => DefCategory::Modifier,
            GroupsDef::MetaFnDef(_) => DefCategory::MetaFn,
        }
    }

    pub fn name_symbol(&self) -> (r: Symbol)
        ensures
            r@ == self.name(),
    {
        match self {
            GroupsDef::FnDef(f) => f.name.clone_symbol(),
            GroupsDef::ModifierDef(m) => m.name.clone_symbol(),
            GroupsDef::MetaFnDef(m) => m.name.clone_symbol(),
        }
    }

    pub fn get_category(&self) -> (r: DefCategory)
        ensures
            r == self.category(),
    {
        match self {
            GroupsDef::FnDef(_) => DefCategory::Fn,
            GroupsDef::ModifierDef(_) => DefCategory::Modifier,
            GroupsDef::MetaFnDef(_) => DefCategory::MetaFn,
        }
    }
}

/// Function definition for HIR.
pub struct FnDef {
    pub name: Symbol,
    pub params: Vec<Param>,
    pub ty: TypeName,
    pub modifiers: Vec<Modifier>,
    pub body: Block,
}

pub struct Param {
    pub name: Symbol,
    pub ty: TypeName,
    pub modifiers: Vec<Modifier>,
}

/// Block of code for HIR: statements in program order.
pub struct Block(pub Vec<Stmt>);

#[allow(inconsistent_fields)]
pub enum Assign {
    Single { name: Symbol, value: Expr, modifiers: Vec<Modifier> },
    Struct { ty: Option<Symbol>, members: Vec<StructMembersInit> },
    Enum { ty: Symbol, members: EnumMembersInit },
}

pub struct DeclareAssign {
    pub name: Symbol,
}

pub struct StructMembersInit {
    pub name: Symbol,
    pub value: Expr,
}

pub enum EnumMembersInit {
    EnumMember(),
    StructMember(),
}

pub enum AssignDef {
    SingleMemberAssign,
    FullAssign,
}

/// Statements for HIR.
pub enum Stmt {
    Declare { name: Symbol, ty: TypeName, modifiers: Vec<Modifier> },
    Assign(Assign),
    DeclareAssign { name: Symbol, ty: TypeName, modifiers: Vec<Modifier>, value: Expr },
    Expr(Expr),
    Return(Expr),
}

/// Modifier definition for HIR: a no-arg or a single-arg modifier, so at
/// most two parameter slots.
pub struct ModifierDef {
    pub name: Symbol,
    pub params: [Option<Param>; 2],
    pub modifiers: Vec<Modifier>,
    pub body: Block,
}

/// A modifier definition declared more parameters than a modifier can take.
#[derive(Clone, Copy, Debug, PartialEq, Eq, Structural)]
pub struct InvalidModifierArity {
    pub declared: usize,
}

impl ModifierDef {
    pub open spec fn arity(&self) -> nat {
        (if self.params[0] is Some { 1nat } else { 0nat }) + (if self.params[1] is Some {
            1nat
        } else {
            0nat
        })
    }

    /// Builds a modifier definition; more than two parameters is an error.
    pub fn new(name: Symbol, params: Vec<Param>, modifiers: Vec<Modifier>, body: Block) -> (r:
        Result<ModifierDef, InvalidModifierArity>)
        ensures
            r is Ok <==> params@.len() <= 2,
            r matches Ok(m) ==> {
                &&& m.arity() == params@.len()
                &&& m.name == name
                &&& m.params[0] == (if params@.len() >= 1 { Some(params@[0]) } else { None })
                &&& m.params[1] == (if params@.len() == 2 { Some(params@[1]) } else { None })
                &&& m.modifiers == modifiers
                &&& m.body == body
            },
            r matches Err(e) ==> e.declared == params@.len(),
    {
        let n = params.len();
        if n > 2 {
            return Err(InvalidModifierArity { declared: n });
        }
        let mut params = params;
        let second = params.pop();
        let first = params.pop();
        let slots = if n == 2 {
            [first, second]
        } else {
            [second, None]
        };
        Ok(ModifierDef { name, params: slots, modifiers, body })
    }
}

/// Meta-function definition for HIR.
pub struct MetaFnDef {
    pub name: Symbol,
    pub params: Vec<Param>,
    pub modifiers: Vec<Modifier>,
    pub body: Block,
}

/// File content for HIR.
///
/// It can be either constants ([`ConstDef`]), types ([`TypeDef`])
/// or groups ([`GroupsDef`]). Each one of these contents must not
/// be mixed with the others within the same file.
pub enum Content {
    Consts(Vec<ConstDef>),
    Types(Vec<TypeDef>),
    Groups(Vec<GroupsDef>),
}

} // verus!
