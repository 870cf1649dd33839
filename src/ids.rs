//! Identifiers, module paths and computational backend kinds.

use vstd::prelude::*;

verus! {

/// Use this for naming, such as module paths: an ordered sequence of
/// name segments; the empty path is the project root namespace.
pub struct Path(pub Vec<String>);

impl View for Path {
    type V = Seq<Seq<char>>;

    open spec fn view(&self) -> Seq<Seq<char>> {
        self.0@.map_values(|s: String| s@)
    }
}

impl Path {
    pub fn new(segments: Vec<String>) -> (r: Path)
        ensures
            r.0@ == segments@,
    {
        Path(segments)
    }

    pub fn len(&self) -> (r: usize)
        ensures
            r == self.0@.len(),
            r == self@.len(),
    {
        self.0.len()
    }

    /// Segment-wise equality of two paths.
    pub fn same_as(&self, other: &Path) -> (r: bool)
        ensures
            r == (self@ == other@),
    {
        if self.0.len() != other.0.len() {
            proof {
                assert(self@.len() != other@.len());
            }
            return false;
        }
        let mut i: usize = 0;
        while i < self.0.len()
            invariant
                self.0@.len() == other.0@.len(),
                0 <= i <= self.0@.len(),
                forall|k: int| 0 <= k < i ==> self@[k] == other@[k],
            decreases self.0@.len() - i,
        {
            if self.0[i] != other.0[i] {
                proof {
                    assert(self@[i as int] != other@[i as int]);
                }
                return false;
            }
            i = i + 1;
        }
        proof {
            assert(self@ =~= other@);
        }
        true
    }

    pub fn clone_path(&self) -> (r: Path)
        ensures
            r@ == self@,
    {
        let mut v: Vec<String> = Vec::new();
        let mut i: usize = 0;
        while i < self.0.len()
            invariant
                0 <= i <= self.0@.len(),
                v@.len() == i,
                forall|k: int| 0 <= k < i ==> v@[k]@ == self.0@[k]@,
            decreases self.0@.len() - i,
        {
            v.push(self.0[i].clone());
            i = i + 1;
        }
        let r = Path(v);
        proof {
            assert(r@ =~= self@);
        }
        r
    }
}

#[derive(Clone, Copy, Debug, PartialEq, Eq, Structural)]
pub struct SymbolId(pub u32);

#[derive(Clone, Copy, Debug, PartialEq, Eq, Structural)]
pub struct ExprId(pub u32);

#[derive(Clone, Copy, Debug, PartialEq, Eq, Structural)]
pub struct ModuleId(pub u32);

/// Computational backend kind.
///
/// Defines the rules and execution planner to run. QPU work can only be
/// executed lazily (staged); the classical kinds default to immediate
/// (strict) execution and may opt into staged execution.
#[derive(Clone, Copy, Debug, PartialEq, Eq, Structural)]
pub enum BackendKind {
    CPU,
    GPU,
    NPU,
    TPU,
    /// QPUs can only execute on lazy (staged) mode.
    QPU,
}

/// The sugar marker written before a name of the given kind.
pub open spec fn sugar_of(k: BackendKind) -> Seq<char> {
    match k {
        BackendKind::CPU => seq![],
        BackendKind::GPU => seq!['+'],
        BackendKind::NPU => seq!['!'],
        BackendKind::TPU => seq!['%'],
        BackendKind::QPU => seq!['@'],
    }
}

/// The backend kind that a sugar marker character stands for.
pub open spec fn kind_of_marker(c: char) -> Option<BackendKind> {
    if c == '+' {
        Some(BackendKind::GPU)
    } else if c == '!' {
        Some(BackendKind::NPU)
    } else if c == '%' {
        Some(BackendKind::TPU)
    } else if c == '@' {
        Some(BackendKind::QPU)
    } else {
        None
    }
}

impl BackendKind {
    pub fn sugar_fmt(&self) -> (r: String)
        ensures
            r@ == sugar_of(*self),
    {
        let s = self.sugar_str();
        String::from_str(s)
    }

    pub fn sugar_str(&self) -> (r: &'static str)
        ensures
            r@ == sugar_of(*self),
    {
        proof {
            reveal_strlit("");
            reveal_strlit("+");
            reveal_strlit("!");
            reveal_strlit("%");
            reveal_strlit("@");
        }
        match self {
            BackendKind::CPU => "",
            BackendKind::GPU => "+",
            BackendKind::NPU => "!",
            BackendKind::TPU => "%",
            BackendKind::QPU => "@",
        }
    }

    /// Reads a sugar marker: `+`, `!`, `%`, `@` give GPU, NPU, TPU, QPU;
    /// any other character is no marker.
    pub fn from_marker(c: char) -> (r: Option<BackendKind>)
        ensures
            r == kind_of_marker(c),
    {
        if c == '+' {
            Some(BackendKind::GPU)
        } else if c == '!' {
            Some(BackendKind::NPU)
        } else if c == '%' {
            Some(BackendKind::TPU)
        } else if c == '@' {
            Some(BackendKind::QPU)
        } else {
            None
        }
    }

    /// Whether this kind may only run staged.
    pub fn is_staged_only(&self) -> (r: bool)
        ensures
            r == (*self == BackendKind::QPU),
    {
        match self {
            BackendKind::QPU => true,
            _ => false,
        }
    }
}

/// How a resolved call or expression is scheduled.
#[derive(Clone, Copy, Debug, PartialEq, Eq, Structural)]
pub enum SchedulingMode {
    /// Executed immediately.
    Strict,
    /// Deferred into a staged plan.
    Staged,
}

pub struct SymbolContext {}

} // verus!
