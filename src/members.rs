//! Enum and struct member paths: `color.rgb.r` is resolved left to right,
//! `color` to an enum, `rgb` to one of its variants, `r` to a member of
//! that variant's struct.

use vstd::prelude::*;
use crate::errors::{Diagnostic, ErrorKind};
use crate::hir::{CompositeSymbol, EnumMember, StructMember, Symbol, TypeDef};
use crate::ids::Path;
use crate::resolver::NameView;

verus! {

pub open spec fn is_enum_named(t: TypeDef, s: NameView) -> bool {
    t is EnumDef && t.name() == s
}

/// The variants of an enum definition; none for another type.
pub open spec fn enum_members(t: TypeDef) -> Seq<EnumMember> {
    match t {
        TypeDef::EnumDef { members, .. } => members@,
        _ => Seq::empty(),
    }
}

pub open spec fn variant_name(m: EnumMember) -> NameView {
    match m {
        EnumMember::KindMember(s) => s@,
        EnumMember::StructMember(sd) => sd.name@,
    }
}

/// The members of a struct-shaped variant; none for a bare kind marker.
pub open spec fn variant_fields(m: EnumMember) -> Seq<StructMember> {
    match m {
        EnumMember::KindMember(_) => Seq::empty(),
        EnumMember::StructMember(sd) => sd.members@,
    }
}

pub open spec fn first_enum(ts: Seq<TypeDef>, s: NameView, j: int) -> bool {
    &&& 0 <= j < ts.len()
    &&& is_enum_named(ts[j], s)
    &&& forall|k: int| 0 <= k < j ==> !is_enum_named(#[trigger] ts[k], s)
}

pub open spec fn no_enum(ts: Seq<TypeDef>, s: NameView) -> bool {
    forall|k: int| 0 <= k < ts.len() ==> !is_enum_named(#[trigger] ts[k], s)
}

pub open spec fn first_variant(vs: Seq<EnumMember>, s: NameView, j: int) -> bool {
    &&& 0 <= j < vs.len()
    &&& variant_name(vs[j]) == s
    &&& forall|k: int| 0 <= k < j ==> variant_name(#[trigger] vs[k]) != s
}

pub open spec fn no_variant(vs: Seq<EnumMember>, s: NameView) -> bool {
    forall|k: int| 0 <= k < vs.len() ==> variant_name(#[trigger] vs[k]) != s
}

pub open spec fn first_field(fs: Seq<StructMember>, s: NameView, j: int) -> bool {
    &&& 0 <= j < fs.len()
    &&& fs[j].name@ == s
    &&& forall|k: int| 0 <= k < j ==> (#[trigger] fs[k]).name@ != s
}

pub open spec fn no_field(fs: Seq<StructMember>, s: NameView) -> bool {
    forall|k: int| 0 <= k < fs.len() ==> (#[trigger] fs[k]).name@ != s
}

/// Which segment of a member path is the first that binds to nothing;
/// none where the whole path resolves.
pub open spec fn member_failure(ts: Seq<TypeDef>, p: Seq<NameView>) -> Option<int> {
    if no_enum(ts, p[0]) {
        Some(0)
    } else {
        let j = choose|j: int| first_enum(ts, p[0], j);
        if p.len() == 1 {
            None
        } else {
            let vs = enum_members(ts[j]);
            if no_variant(vs, p[1]) {
                Some(1)
            } else {
                let v = choose|v: int| first_variant(vs, p[1], v);
                if p.len() == 2 {
                    None
                } else if no_field(variant_fields(vs[v]), p[2]) {
                    Some(2)
                } else if p.len() == 3 {
                    None
                } else {
                    Some(3)
                }
            }
        }
    }
}

proof fn lemma_first_enum_unique(ts: Seq<TypeDef>, s: NameView, j: int)
    requires
        first_enum(ts, s, j),
    ensures
        (choose|x: int| first_enum(ts, s, x)) == j,
{
    let c = choose|x: int| first_enum(ts, s, x);
    if c < j {
        assert(!is_enum_named(ts[c], s));
    } else if c > j {
        assert(!is_enum_named(ts[j], s));
    }
}

proof fn lemma_first_variant_unique(vs: Seq<EnumMember>, s: NameView, j: int)
    requires
        first_variant(vs, s, j),
    ensures
        (choose|x: int| first_variant(vs, s, x)) == j,
{
    let c = choose|x: int| first_variant(vs, s, x);
    if c < j {
        assert(variant_name(vs[c]) != s);
    } else if c > j {
        assert(variant_name(vs[j]) != s);
    }
}

/// Where a member path leads: the enum's index among the types, then the
/// variant's index, then the member's index, as far as the path goes.
#[derive(Clone, Copy, Debug, PartialEq, Eq, Structural)]
pub struct MemberLink {
    pub ty: usize,
    pub variant: Option<usize>,
    pub member: Option<usize>,
}

impl View for MemberLink {
    type V = (int, Option<int>, Option<int>);

    open spec fn view(&self) -> (int, Option<int>, Option<int>) {
        (
            self.ty as int,
            match self.variant {
                Some(v) => Some(v as int),
                None => None,
            },
            match self.member {
                Some(m) => Some(m as int),
                None => None,
            },
        )
    }
}

fn find_enum(ts: &Vec<TypeDef>, s: &Symbol) -> (r: Option<usize>)
    ensures
        r matches Some(j) ==> first_enum(ts@, s@, j as int),
        r is None ==> no_enum(ts@, s@),
{
    let mut j: usize = 0;
    while j < ts.len()
        invariant
            0 <= j <= ts@.len(),
            forall|k: int| 0 <= k < j ==> !is_enum_named(#[trigger] ts@[k], s@),
        decreases ts@.len() - j,
    {
        match &ts[j] {
            TypeDef::EnumDef { name, .. } => {
                if name.same_symbol(s) {
                    return Some(j);
                }
            },
            _ => {},
        }
        j = j + 1;
    }
    None
}

fn find_variant(vs: &Vec<EnumMember>, s: &Symbol) -> (r: Option<usize>)
    ensures
        r matches Some(j) ==> first_variant(vs@, s@, j as int),
        r is None ==> no_variant(vs@, s@),
{
    let mut j: usize = 0;
    while j < vs.len()
        invariant
            0 <= j <= vs@.len(),
            forall|k: int| 0 <= k < j ==> variant_name(#[trigger] vs@[k]) != s@,
        decreases vs@.len() - j,
    {
        let hit = match &vs[j] {
            EnumMember::KindMember(n) => n.same_symbol(s),
            EnumMember::StructMember(sd) => sd.name.same_symbol(s),
        };
        if hit {
            return Some(j);
        }
        j = j + 1;
    }
    None
}

fn find_field(fs: &Vec<StructMember>, s: &Symbol) -> (r: Option<usize>)
    ensures
        r matches Some(j) ==> first_field(fs@, s@, j as int),
        r is None ==> no_field(fs@, s@),
{
    let mut j: usize = 0;
    while j < fs.len()
        invariant
            0 <= j <= fs@.len(),
            forall|k: int| 0 <= k < j ==> (#[trigger] fs@[k]).name@ != s@,
        decreases fs@.len() - j,
    {
        if fs[j].name.same_symbol(s) {
            return Some(j);
        }
        j = j + 1;
    }
    None
}

fn unknown(module: &Path, s: &Symbol) -> (r: Diagnostic)
    ensures
        r@ == (ErrorKind::UnknownSymbol, module@, s.value@),
{
    Diagnostic::new(ErrorKind::UnknownSymbol, module.clone_path(), s.value.clone())
}

/// Resolves a member path against a module's type definitions. The first
/// segment that binds to nothing is named in an `UnknownSymbol` error; a
/// struct member has no members of its own here.
pub fn resolve_member_path(module: &Path, types: &Vec<TypeDef>, path: &CompositeSymbol) -> (r:
    Result<MemberLink, Diagnostic>)
    requires
        path@.len() > 0,
    ensures
        ({
            let p = path.value@;
            let ts = types@;
            &&& no_enum(ts, p[0]@) ==> (r matches Err(e) && e@ == (
                ErrorKind::UnknownSymbol,
                module@,
                p[0].value@,
            ))
            &&& forall|j: int|
                #![trigger first_enum(ts, p[0]@, j)]
                first_enum(ts, p[0]@, j) ==> {
                    &&& p.len() == 1 ==> (r matches Ok(l) && l@ == (j, None::<int>, None::<int>))
                    &&& p.len() >= 2 && no_variant(enum_members(ts[j]), p[1]@) ==> (r matches Err(
                        e,
                    ) && e@ == (ErrorKind::UnknownSymbol, module@, p[1].value@))
                    &&& forall|v: int|
                        #![trigger first_variant(enum_members(ts[j]), p[1]@, v)]
                        p.len() >= 2 && first_variant(enum_members(ts[j]), p[1]@, v) ==> {
                            let fs = variant_fields(enum_members(ts[j])[v]);
                            &&& p.len() == 2 ==> (r matches Ok(l) && l@ == (j, Some(v), None::<int>))
                            &&& p.len() >= 3 && no_field(fs, p[2]@) ==> (r matches Err(e) && e@ == (
                                ErrorKind::UnknownSymbol,
                                module@,
                                p[2].value@,
                            ))
                            &&& forall|f: int|
                                #![trigger first_field(fs, p[2]@, f)]
                                p.len() >= 3 && first_field(fs, p[2]@, f) ==> {
                                    &&& p.len() == 3 ==> (r matches Ok(l) && l@ == (j, Some(v), Some(f)))
                                    &&& p.len() > 3 ==> (r matches Err(e) && e@ == (
                                        ErrorKind::UnknownSymbol,
                                        module@,
                                        p[3].value@,
                                    ))
                                }
                        }
                }
        }),
        r is Ok <==> member_failure(types@, path@) is None,
        r matches Err(e) ==> e@ == (
            ErrorKind::UnknownSymbol,
            module@,
            path@[member_failure(types@, path@)->0].0,
        ),
{
    let p = &path.value;
    let n = p.len();
    let j = match find_enum(types, &p[0]) {
        None => return Err(unknown(module, &p[0])),
        Some(j) => j,
    };
    proof {
        lemma_first_enum_unique(types@, path@[0], j as int);
        assert(p@[0]@ == path@[0]);
    }
    if n == 1 {
        return Ok(MemberLink { ty: j, variant: None, member: None });
    }
    let members = match &types[j] {
        TypeDef::EnumDef { members, .. } => members,
        _ => {
            proof {
                assert(false);
            }
            return Err(unknown(module, &p[1]));
        },
    };
    assert(members@ == enum_members(types@[j as int]));
    let v = match find_variant(members, &p[1]) {
        None => return Err(unknown(module, &p[1])),
        Some(v) => v,
    };
    proof {
        lemma_first_variant_unique(members@, path@[1], v as int);
    }
    if n == 2 {
        return Ok(MemberLink { ty: j, variant: Some(v), member: None });
    }
    let fields = match &members[v] {
        EnumMember::StructMember(sd) => &sd.members,
        EnumMember::KindMember(_) => {
            return Err(unknown(module, &p[2]));
        },
    };
    let f = match find_field(fields, &p[2]) {
        None => return Err(unknown(module, &p[2])),
        Some(f) => f,
    };
    if n == 3 {
        return Ok(MemberLink { ty: j, variant: Some(v), member: Some(f) });
    }
    Err(unknown(module, &p[3]))
}

} // verus!
