//! Scheduling planner: classifies each resolved expression as strict or
//! staged, enforcing that QPU work is always staged.

use vstd::prelude::*;
use crate::errors::{Diagnostic, ErrorKind};
use crate::hir::{Expr, MetaCall};
use crate::ids::{BackendKind, ExprId, Path, SchedulingMode};

verus! {

/// What the context of an expression asks of its evaluation.
#[derive(Clone, Copy, Debug, PartialEq, Eq, Structural)]
pub enum Demand {
    /// The context needs an immediate value (a non-staged modifier
    /// argument, for instance).
    Immediate,
    /// No request: the backend kind's default applies.
    Default,
    /// Explicitly annotated as staged.
    Staged,
}

/// The backend kind of an expression: that of its outermost symbol.
pub open spec fn effective_kind(e: Expr) -> BackendKind {
    match e {
        Expr::Id(s) => s.backend_kind,
        Expr::Literal(l) => l.kind(),
        Expr::Call { callee, .. } => callee.backend_kind,
        Expr::MetaCall(m) => m.name_kind(),
        Expr::Cast { to_ty, .. } => to_ty.name.backend_kind,
        Expr::DataMemberAccess(c) => if c.value@.len() > 0 {
            c.value@[0].backend_kind
        } else {
            BackendKind::CPU
        },
    }
}

/// The name of an expression's outermost symbol; empty for a literal.
pub open spec fn outer_name(e: Expr) -> Seq<char> {
    match e {
        Expr::Id(s) => s.value@,
        Expr::Literal(_) => Seq::empty(),
        Expr::Call { callee, .. } => callee.value@,
        Expr::MetaCall(m) => match m {
            MetaCall::Optn { name, .. } => name.value@,
            MetaCall::Bdn { name, .. } => name.value@,
            MetaCall::OptBdn { name, .. } => name.value@,
        },
        Expr::Cast { to_ty, .. } => to_ty.name.value@,
        Expr::DataMemberAccess(c) => if c.value@.len() > 0 {
            c.value@[0].value@
        } else {
            Seq::empty()
        },
    }
}

/// The scheduling policy: QPU is always staged, and an immediate demand on
/// it has no mode; other kinds are strict unless staging is asked for.
pub open spec fn planned(k: BackendKind, d: Demand) -> Option<SchedulingMode> {
    if k == BackendKind::QPU {
        if d == Demand::Immediate {
            None
        } else {
            Some(SchedulingMode::Staged)
        }
    } else if d == Demand::Staged {
        Some(SchedulingMode::Staged)
    } else {
        Some(SchedulingMode::Strict)
    }
}

pub fn expr_kind(e: &Expr) -> (r: BackendKind)
    ensures
        r == effective_kind(*e),
{
    match e {
        Expr::Id(s) => s.backend_kind,
        Expr::Literal(l) => l.backend_kind(),
        Expr::Call { callee, .. } => callee.backend_kind,
        Expr::MetaCall(m) => match m {
            MetaCall::Optn { name, .. } => name.backend_kind,
            MetaCall::Bdn { name, .. } => name.backend_kind,
            MetaCall::OptBdn { name, .. } => name.backend_kind,
        },
        Expr::Cast { to_ty, .. } => to_ty.name.backend_kind,
        Expr::DataMemberAccess(c) => if c.value.len() > 0 {
            c.value[0].backend_kind
        } else {
            BackendKind::CPU
        },
    }
}

fn expr_name(e: &Expr) -> (r: String)
    ensures
        r@ == outer_name(*e),
{
    match e {
        Expr::Id(s) => s.value.clone(),
        Expr::Literal(_) => String::new(),
        Expr::Call { callee, .. } => callee.value.clone(),
        Expr::MetaCall(m) => match m {
            MetaCall::Optn { name, .. } => name.value.clone(),
            MetaCall::Bdn { name, .. } => name.value.clone(),
            MetaCall::OptBdn { name, .. } => name.value.clone(),
        },
        Expr::Cast { to_ty, .. } => to_ty.name.value.clone(),
        Expr::DataMemberAccess(c) => if c.value.len() > 0 {
            c.value[0].value.clone()
        } else {
            String::new()
        },
    }
}

/// The scheduling mode of an expression of the given kind under the given
/// demand; none for a QPU expression demanded immediately.
pub fn plan_kind(k: BackendKind, d: Demand) -> (r: Option<SchedulingMode>)
    ensures
        r == planned(k, d),
{
    if k.is_staged_only() {
        match d {
            Demand::Immediate => None,
            _ => Some(SchedulingMode::Staged),
        }
    } else {
        match d {
            Demand::Staged => Some(SchedulingMode::Staged),
            _ => Some(SchedulingMode::Strict),
        }
    }
}

/// The scheduling mode of one expression under the given demand;
/// `IllegalStrictQpu` where a QPU expression is asked for immediately.
pub fn plan_expr(module: &Path, e: &Expr, d: Demand) -> (r: Result<SchedulingMode, Diagnostic>)
    ensures
        planned(effective_kind(*e), d) matches Some(m) ==> (r matches Ok(x) && x == m),
        planned(effective_kind(*e), d) is None ==> (r matches Err(err) && err@ == (
            ErrorKind::IllegalStrictQpu,
            module@,
            outer_name(*e),
        )),
{
    let k = expr_kind(e);
    if k.is_staged_only() {
        match d {
            Demand::Immediate => Err(
                Diagnostic::new(ErrorKind::IllegalStrictQpu, module.clone_path(), expr_name(e)),
            ),
            _ => Ok(SchedulingMode::Staged),
        }
    } else {
        match d {
            Demand::Staged => Ok(SchedulingMode::Staged),
            _ => Ok(SchedulingMode::Strict),
        }
    }
}

/// The annotations of the first `n` expressions: each expression's index
/// with its mode, for those that have one.
pub open spec fn plans_of(es: Seq<Expr>, ds: Seq<Demand>, n: nat) -> Seq<(int, SchedulingMode)>
    decreases n,
{
    if n == 0 {
        Seq::empty()
    } else {
        let prev = plans_of(es, ds, (n - 1) as nat);
        match planned(effective_kind(es[n - 1]), ds[n - 1]) {
            Some(m) => prev.push(((n - 1) as int, m)),
            None => prev,
        }
    }
}

/// The errors of the first `n` expressions: one `IllegalStrictQpu` for
/// each that has no mode.
pub open spec fn plan_errors(path: Seq<Seq<char>>, es: Seq<Expr>, ds: Seq<Demand>, n: nat) -> Seq<
    (ErrorKind, Seq<Seq<char>>, Seq<char>),
>
    decreases n,
{
    if n == 0 {
        Seq::empty()
    } else {
        let prev = plan_errors(path, es, ds, (n - 1) as nat);
        match planned(effective_kind(es[n - 1]), ds[n - 1]) {
            Some(_) => prev,
            None => prev.push((ErrorKind::IllegalStrictQpu, path, outer_name(es[n - 1]))),
        }
    }
}

/// An annotation map, from expression identity to scheduling mode.
pub struct Plan {
    pub modes: Vec<(ExprId, SchedulingMode)>,
    pub errors: Vec<Diagnostic>,
}

impl View for Plan {
    type V = (Seq<(int, SchedulingMode)>, Seq<(ErrorKind, Seq<Seq<char>>, Seq<char>)>);

    open spec fn view(&self) -> Self::V {
        (
            self.modes@.map_values(|p: (ExprId, SchedulingMode)| (p.0.0 as int, p.1)),
            self.errors@.map_values(|d: Diagnostic| d@),
        )
    }
}

/// Plans every expression of a module, the `i`-th under the `i`-th demand;
/// expressions are identified by their index. Every error is reported.
pub fn plan_exprs(module: &Path, es: &Vec<Expr>, ds: &Vec<Demand>) -> (r: Plan)
    requires
        es@.len() == ds@.len(),
        es@.len() <= u32::MAX,
    ensures
        r@ == (plans_of(es@, ds@, es@.len()), plan_errors(module@, es@, ds@, es@.len())),
{
    let mut modes: Vec<(ExprId, SchedulingMode)> = Vec::new();
    let mut errors: Vec<Diagnostic> = Vec::new();
    let mut i: usize = 0;
    while i < es.len()
        invariant
            es@.len() == ds@.len(),
            es@.len() <= u32::MAX,
            0 <= i <= es@.len(),
            modes@.map_values(|p: (ExprId, SchedulingMode)| (p.0.0 as int, p.1)) == plans_of(
                es@,
                ds@,
                i as nat,
            ),
            errors@.map_values(|d: Diagnostic| d@) == plan_errors(module@, es@, ds@, i as nat),
        decreases es@.len() - i,
    {
        match plan_expr(module, &es[i], ds[i]) {
            Ok(m) => {
                modes.push((ExprId(i as u32), m));
                proof {
                    assert(modes@.map_values(|p: (ExprId, SchedulingMode)| (p.0.0 as int, p.1))
                        =~= plans_of(es@, ds@, (i + 1) as nat));
                }
            },
            Err(d) => {
                errors.push(d);
                proof {
                    assert(errors@.map_values(|d: Diagnostic| d@) =~= plan_errors(
                        module@,
                        es@,
                        ds@,
                        (i + 1) as nat,
                    ));
                }
            },
        }
        i = i + 1;
    }
    Plan { modes, errors }
}


/// QPU staging: every planned expression whose backend kind is QPU is
/// staged, never strict, and each QPU expression demanded immediately is
/// reported as `IllegalStrictQpu` rather than planned.
pub proof fn lemma_qpu_always_staged(
    path: Seq<Seq<char>>,
    es: Seq<Expr>,
    ds: Seq<Demand>,
    n: nat,
)
    requires
        n <= es.len(),
        es.len() == ds.len(),
    ensures
        forall|k: int|
            0 <= k < plans_of(es, ds, n).len() ==> {
                let p = #[trigger] plans_of(es, ds, n)[k];
                &&& 0 <= p.0 < n
                &&& effective_kind(es[p.0]) == BackendKind::QPU ==> p.1 == SchedulingMode::Staged
            },
        forall|k: int|
            0 <= k < n && effective_kind(es[k]) == BackendKind::QPU && ds[k] == Demand::Immediate
                ==> plan_errors(path, es, ds, n).contains(
                (ErrorKind::IllegalStrictQpu, path, outer_name(#[trigger] es[k])),
            ),
    decreases n,
{
    if n > 0 {
        lemma_qpu_always_staged(path, es, ds, (n - 1) as nat);
        let prev = plan_errors(path, es, ds, (n - 1) as nat);
        let cur = plan_errors(path, es, ds, n);
        assert forall|k: int|
            0 <= k < n && effective_kind(es[k]) == BackendKind::QPU && ds[k] == Demand::Immediate
                implies cur.contains(
            (ErrorKind::IllegalStrictQpu, path, outer_name(#[trigger] es[k])),
        ) by {
            let e = (ErrorKind::IllegalStrictQpu, path, outer_name(es[k]));
            if k == n - 1 {
                assert(cur.last() == e);
            } else {
                let y = choose|y: int| 0 <= y < prev.len() && prev[y] == e;
                assert(cur[y] == e);
            }
        }
    }
}

} // verus!
