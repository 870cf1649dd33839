//! Uses in bodies: every expression of a body, in order, with the demand
//! its context makes on it, and every name a statement declares.

use vstd::prelude::*;
use crate::hir::{
    Assign, Block, CompositeSymbol, Expr, MetaCall, Modifier, OptionBody, Stmt, StructMembersInit,
    Symbol,
};
use crate::ids::BackendKind;
use crate::planner::Demand;
use crate::resolver::NameView;

verus! {

/// What a use record stands for.
#[derive(Clone, Copy, Debug, PartialEq, Eq, Structural)]
pub enum UseTag {
    /// A call or meta-call; the symbol is the callee.
    Call,
    /// An identifier reference.
    Ident,
    /// A member access path.
    Member,
    /// A literal (no symbol) or a cast (the symbol is the target type).
    Value,
    /// A name that a statement declares or assigns.
    Decl,
}

/// One use: its tag, its symbols, the backend kind of the expression and
/// the demand made on it.
pub struct Use {
    pub tag: UseTag,
    pub symbols: Vec<Symbol>,
    pub kind: BackendKind,
    pub demand: Demand,
}

pub type UseView = (UseTag, Seq<NameView>, BackendKind, Demand);

impl View for Use {
    type V = UseView;

    open spec fn view(&self) -> UseView {
        (self.tag, names_of(self.symbols@), self.kind, self.demand)
    }
}

pub open spec fn names_of(v: Seq<Symbol>) -> Seq<NameView> {
    v.map_values(|s: Symbol| s@)
}

pub open spec fn uses_of(v: Seq<Use>) -> Seq<UseView> {
    v.map_values(|u: Use| u@)
}

/// The uses in an expression evaluated under demand `d`: the expression
/// itself first, then its arguments, bodies and modifier arguments, in
/// order. Arguments are evaluated under the default demand, modifier
/// arguments must be immediate.
pub open spec fn expr_uses(e: Expr, d: Demand) -> Seq<UseView>
    decreases e,
{
    match e {
        Expr::Id(s) => seq![(UseTag::Ident, seq![s@], s.backend_kind, d)],
        Expr::Literal(l) => seq![(UseTag::Value, Seq::empty(), l.kind(), d)],
        Expr::Call { callee, args, modifiers } => seq![
            (UseTag::Call, seq![callee@], callee.backend_kind, d),
        ] + args_uses(args@) + mods_uses(modifiers@),
        Expr::MetaCall(m) => match m {
            MetaCall::Optn { name, options, modifiers } => seq![
                (UseTag::Call, seq![name@], name.backend_kind, d),
            ] + options_uses(options@) + mods_uses(modifiers@),
            MetaCall::Bdn { name, args, body, modifiers } => seq![
                (UseTag::Call, seq![name@], name.backend_kind, d),
            ] + args_uses(args@) + block_uses(body) + mods_uses(modifiers@),
            MetaCall::OptBdn { name, args, body, modifiers } => seq![
                (UseTag::Call, seq![name@], name.backend_kind, d),
            ] + args_uses(args@) + options_uses(body@) + mods_uses(modifiers@),
        },
        Expr::Cast { value, to_ty, modifiers } => seq![
            (UseTag::Value, seq![to_ty.name@], to_ty.name.backend_kind, d),
        ] + expr_uses(*value, Demand::Default) + mods_uses(modifiers@),
        Expr::DataMemberAccess(c) => seq![
            (
                UseTag::Member,
                c@,
                if c.value@.len() > 0 {
                    c.value@[0].backend_kind
                } else {
                    BackendKind::CPU
                },
                d,
            ),
        ],
    }
}

pub open spec fn args_uses(es: Seq<Expr>) -> Seq<UseView>
    decreases es,
{
    if es.len() == 0 {
        Seq::empty()
    } else {
        args_uses(es.subrange(0, es.len() - 1)) + expr_uses(es[es.len() - 1], Demand::Default)
    }
}

/// The uses in modifier arguments: each argument is demanded immediately.
pub open spec fn mods_uses(ms: Seq<Modifier>) -> Seq<UseView>
    decreases ms,
{
    if ms.len() == 0 {
        Seq::empty()
    } else {
        mods_uses(ms.subrange(0, ms.len() - 1)) + match ms[ms.len() - 1].value {
            Some(v) => expr_uses(v, Demand::Immediate),
            None => Seq::empty(),
        }
    }
}

pub open spec fn options_uses(os: Seq<OptionBody>) -> Seq<UseView>
    decreases os,
{
    if os.len() == 0 {
        Seq::empty()
    } else {
        let o = os[os.len() - 1];
        options_uses(os.subrange(0, os.len() - 1)) + expr_uses(o.opt, Demand::Default) + block_uses(
            o.body,
        )
    }
}

pub open spec fn block_uses(b: Block) -> Seq<UseView>
    decreases b,
{
    stmts_uses(b.0@)
}

pub open spec fn stmts_uses(ss: Seq<Stmt>) -> Seq<UseView>
    decreases ss,
{
    if ss.len() == 0 {
        Seq::empty()
    } else {
        stmts_uses(ss.subrange(0, ss.len() - 1)) + stmt_uses(ss[ss.len() - 1])
    }
}

pub open spec fn decl_use(s: Symbol) -> UseView {
    (UseTag::Decl, seq![s@], BackendKind::CPU, Demand::Default)
}

/// The uses in a statement: the name it declares or assigns, then the
/// value, then its modifier arguments.
pub open spec fn stmt_uses(st: Stmt) -> Seq<UseView>
    decreases st,
{
    match st {
        Stmt::Declare { name, modifiers, .. } => seq![decl_use(name)] + mods_uses(modifiers@),
        Stmt::Assign(a) => match a {
            Assign::Single { name, value, modifiers } => seq![decl_use(name)] + expr_uses(
                value,
                Demand::Default,
            ) + mods_uses(modifiers@),
            Assign::Struct { members, .. } => inits_uses(members@),
            Assign::Enum { .. } => Seq::empty(),
        },
        Stmt::DeclareAssign { name, modifiers, value, .. } => seq![decl_use(name)] + expr_uses(
            value,
            Demand::Default,
        ) + mods_uses(modifiers@),
        Stmt::Expr(e) => expr_uses(e, Demand::Default),
        Stmt::Return(e) => expr_uses(e, Demand::Default),
    }
}

pub open spec fn inits_uses(ms: Seq<StructMembersInit>) -> Seq<UseView>
    decreases ms,
{
    if ms.len() == 0 {
        Seq::empty()
    } else {
        inits_uses(ms.subrange(0, ms.len() - 1)) + expr_uses(ms[ms.len() - 1].value, Demand::Default)
    }
}

pub fn clone_symbols(v: &Vec<Symbol>) -> (r: Vec<Symbol>)
    ensures
        names_of(r@) == names_of(v@),
{
    let mut r: Vec<Symbol> = Vec::new();
    let mut i: usize = 0;
    while i < v.len()
        invariant
            0 <= i <= v@.len(),
            r@.len() == i,
            forall|k: int| 0 <= k < i ==> #[trigger] r@[k]@ == v@[k]@,
        decreases v@.len() - i,
    {
        r.push(v[i].clone_symbol());
        i = i + 1;
    }
    proof {
        assert(names_of(r@) =~= names_of(v@));
    }
    r
}

fn push_use(tag: UseTag, symbols: Vec<Symbol>, kind: BackendKind, demand: Demand, out: &mut Vec<Use>)
    ensures
        uses_of(final(out)@) == uses_of(old(out)@) + seq![
            (tag, names_of(symbols@), kind, demand),
        ],
{
    out.push(Use { tag, symbols, kind, demand });
    proof {
        assert(uses_of(out@) =~= uses_of(old(out)@) + seq![(tag, names_of(symbols@), kind, demand)]);
    }
}

fn one_symbol(s: &Symbol) -> (r: Vec<Symbol>)
    ensures
        names_of(r@) == seq![s@],
{
    let mut r: Vec<Symbol> = Vec::new();
    r.push(s.clone_symbol());
    proof {
        assert(names_of(r@) =~= seq![s@]);
    }
    r
}

fn no_symbol() -> (r: Vec<Symbol>)
    ensures
        names_of(r@) == Seq::<NameView>::empty(),
{
    let r: Vec<Symbol> = Vec::new();
    proof {
        assert(names_of(r@) =~= Seq::<NameView>::empty());
    }
    r
}

fn member_kind(c: &CompositeSymbol) -> (r: BackendKind)
    ensures
        r == (if c.value@.len() > 0 {
            c.value@[0].backend_kind
        } else {
            BackendKind::CPU
        }),
{
    if c.value.len() > 0 {
        c.value[0].backend_kind
    } else {
        BackendKind::CPU
    }
}

/// Appends the uses in `e`, evaluated under demand `d`, to `out`.
pub fn collect_expr(e: &Expr, d: Demand, out: &mut Vec<Use>)
    ensures
        uses_of(final(out)@) == uses_of(old(out)@) + expr_uses(*e, d),
    decreases e,
{
    let ghost before = uses_of(out@);
    match e {
        Expr::Id(s) => {
            push_use(UseTag::Ident, one_symbol(s), s.backend_kind, d, out);
        },
        Expr::Literal(l) => {
            push_use(UseTag::Value, no_symbol(), l.backend_kind(), d, out);
        },
        Expr::Call { callee, args, modifiers } => {
            push_use(UseTag::Call, one_symbol(callee), callee.backend_kind, d, out);
            collect_args(args, out);
            collect_mods(modifiers, out);
            proof {
                assert(uses_of(out@) =~= before + expr_uses(*e, d));
            }
        },
        Expr::MetaCall(m) => match m {
            MetaCall::Optn { name, options, modifiers } => {
                push_use(UseTag::Call, one_symbol(name), name.backend_kind, d, out);
                collect_options(options, out);
                collect_mods(modifiers, out);
                proof {
                    assert(uses_of(out@) =~= before + expr_uses(*e, d));
                }
            },
            MetaCall::Bdn { name, args, body, modifiers } => {
                push_use(UseTag::Call, one_symbol(name), name.backend_kind, d, out);
                collect_args(args, out);
                collect_block(body, out);
                collect_mods(modifiers, out);
                proof {
                    assert(uses_of(out@) =~= before + expr_uses(*e, d));
                }
            },
            MetaCall::OptBdn { name, args, body, modifiers } => {
                push_use(UseTag::Call, one_symbol(name), name.backend_kind, d, out);
                collect_args(args, out);
                collect_options(body, out);
                collect_mods(modifiers, out);
                proof {
                    assert(uses_of(out@) =~= before + expr_uses(*e, d));
                }
            },
        },
        Expr::Cast { value, to_ty, modifiers } => {
            push_use(UseTag::Value, one_symbol(&to_ty.name), to_ty.name.backend_kind, d, out);
            collect_expr(value, Demand::Default, out);
            collect_mods(modifiers, out);
            proof {
                assert(uses_of(out@) =~= before + expr_uses(*e, d));
            }
        },
        Expr::DataMemberAccess(c) => {
            let syms = clone_symbols(&c.value);
            push_use(UseTag::Member, syms, member_kind(c), d, out);
        },
    }
}

/// Appends the uses in each argument, in order.
pub fn collect_args(es: &Vec<Expr>, out: &mut Vec<Use>)
    ensures
        uses_of(final(out)@) == uses_of(old(out)@) + args_uses(es@),
    decreases es,
{
    let ghost before = uses_of(out@);
    let mut k: usize = 0;
    while k < es.len()
        invariant
            0 <= k <= es@.len(),
            uses_of(out@) == before + args_uses(es@.subrange(0, k as int)),
        decreases es@.len() - k,
    {
        proof {
            assert(decreases_to!(es => es@[k as int]));
        }
        collect_expr(&es[k], Demand::Default, out);
        proof {
            let next = es@.subrange(0, k + 1);
            assert(next.subrange(0, next.len() - 1) =~= es@.subrange(0, k as int));
            assert(uses_of(out@) =~= before + args_uses(next));
        }
        k = k + 1;
    }
    proof {
        assert(es@.subrange(0, es@.len() as int) =~= es@);
    }
}

/// Appends the uses in each modifier argument, in order.
pub fn collect_mods(ms: &Vec<Modifier>, out: &mut Vec<Use>)
    ensures
        uses_of(final(out)@) == uses_of(old(out)@) + mods_uses(ms@),
    decreases ms,
{
    let ghost before = uses_of(out@);
    let mut k: usize = 0;
    while k < ms.len()
        invariant
            0 <= k <= ms@.len(),
            uses_of(out@) == before + mods_uses(ms@.subrange(0, k as int)),
        decreases ms@.len() - k,
    {
        match &ms[k].value {
            Some(v) => {
                proof {
                    assert(decreases_to!(ms => ms@[k as int].value->0));
                }
                collect_expr(v, Demand::Immediate, out);
            },
            None => {},
        }
        proof {
            let next = ms@.subrange(0, k + 1);
            assert(next.subrange(0, next.len() - 1) =~= ms@.subrange(0, k as int));
            assert(uses_of(out@) =~= before + mods_uses(next));
        }
        k = k + 1;
    }
    proof {
        assert(ms@.subrange(0, ms@.len() as int) =~= ms@);
    }
}

/// Appends the uses in each option and its body, in order.
pub fn collect_options(os: &Vec<OptionBody>, out: &mut Vec<Use>)
    ensures
        uses_of(final(out)@) == uses_of(old(out)@) + options_uses(os@),
    decreases os,
{
    let ghost before = uses_of(out@);
    let mut k: usize = 0;
    while k < os.len()
        invariant
            0 <= k <= os@.len(),
            uses_of(out@) == before + options_uses(os@.subrange(0, k as int)),
        decreases os@.len() - k,
    {
        proof {
            assert(decreases_to!(os => os@[k as int].opt));
            assert(decreases_to!(os => os@[k as int].body));
        }
        collect_expr(&os[k].opt, Demand::Default, out);
        collect_block(&os[k].body, out);
        proof {
            let next = os@.subrange(0, k + 1);
            assert(next.subrange(0, next.len() - 1) =~= os@.subrange(0, k as int));
            assert(uses_of(out@) =~= before + options_uses(next));
        }
        k = k + 1;
    }
    proof {
        assert(os@.subrange(0, os@.len() as int) =~= os@);
    }
}

/// Appends the uses in a block, statement by statement.
pub fn collect_block(b: &Block, out: &mut Vec<Use>)
    ensures
        uses_of(final(out)@) == uses_of(old(out)@) + block_uses(*b),
    decreases b,
{
    let ghost before = uses_of(out@);
    let ss = &b.0;
    let mut k: usize = 0;
    while k < ss.len()
        invariant
            ss == &b.0,
            0 <= k <= ss@.len(),
            uses_of(out@) == before + stmts_uses(ss@.subrange(0, k as int)),
        decreases ss@.len() - k,
    {
        proof {
            assert(decreases_to!(b => b.0@[k as int]));
        }
        collect_stmt(&ss[k], out);
        proof {
            let next = ss@.subrange(0, k + 1);
            assert(next.subrange(0, next.len() - 1) =~= ss@.subrange(0, k as int));
            assert(uses_of(out@) =~= before + stmts_uses(next));
        }
        k = k + 1;
    }
    proof {
        assert(ss@.subrange(0, ss@.len() as int) =~= ss@);
    }
}

fn push_decl(s: &Symbol, out: &mut Vec<Use>)
    ensures
        uses_of(final(out)@) == uses_of(old(out)@) + seq![decl_use(*s)],
{
    push_use(UseTag::Decl, one_symbol(s), BackendKind::CPU, Demand::Default, out);
}

/// Appends the uses in a statement.
pub fn collect_stmt(st: &Stmt, out: &mut Vec<Use>)
    ensures
        uses_of(final(out)@) == uses_of(old(out)@) + stmt_uses(*st),
    decreases st,
{
    let ghost before = uses_of(out@);
    match st {
        Stmt::Declare { name, modifiers, .. } => {
            push_decl(name, out);
            collect_mods(modifiers, out);
            proof {
                assert(uses_of(out@) =~= before + stmt_uses(*st));
            }
        },
        Stmt::Assign(a) => match a {
            Assign::Single { name, value, modifiers } => {
                push_decl(name, out);
                collect_expr(value, Demand::Default, out);
                collect_mods(modifiers, out);
                proof {
                    assert(uses_of(out@) =~= before + stmt_uses(*st));
                }
            },
            Assign::Struct { members, .. } => collect_inits(members, out),
            Assign::Enum { .. } => {
                proof {
                    assert(uses_of(out@) =~= before + stmt_uses(*st));
                }
            },
        },
        Stmt::DeclareAssign { name, modifiers, value, .. } => {
            push_decl(name, out);
            collect_expr(value, Demand::Default, out);
            collect_mods(modifiers, out);
            proof {
                assert(uses_of(out@) =~= before + stmt_uses(*st));
            }
        },
        Stmt::Expr(e) => collect_expr(e, Demand::Default, out),
        Stmt::Return(e) => collect_expr(e, Demand::Default, out),
    }
}

/// Appends the uses in each member initialiser, in order.
pub fn collect_inits(ms: &Vec<StructMembersInit>, out: &mut Vec<Use>)
    ensures
        uses_of(final(out)@) == uses_of(old(out)@) + inits_uses(ms@),
    decreases ms,
{
    let ghost before = uses_of(out@);
    let mut k: usize = 0;
    while k < ms.len()
        invariant
            0 <= k <= ms@.len(),
            uses_of(out@) == before + inits_uses(ms@.subrange(0, k as int)),
        decreases ms@.len() - k,
    {
        proof {
            assert(decreases_to!(ms => ms@[k as int].value));
        }
        collect_expr(&ms[k].value, Demand::Default, out);
        proof {
            let next = ms@.subrange(0, k + 1);
            assert(next.subrange(0, next.len() - 1) =~= ms@.subrange(0, k as int));
            assert(uses_of(out@) =~= before + inits_uses(next));
        }
        k = k + 1;
    }
    proof {
        assert(ms@.subrange(0, ms@.len() as int) =~= ms@);
    }
}

} // verus!
