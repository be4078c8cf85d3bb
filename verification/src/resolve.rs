//! Discriminant resolution.
//!
//! A declaration is an ordered sequence of members, each optionally
//! carrying an explicit 64-bit signed tag. Resolution assigns every member
//! its canonical tag: an explicit value is copied verbatim; an implicit
//! one is the previous member's resolved tag plus one, with
//! two's-complement wraparound, and zero for the first member.

use vstd::prelude::*;

verus! {

/// One enumerated member as declared, in declaration order.
#[derive(Clone, Debug)]
pub struct MemberDecl {
    /// Identifier of the member.
    pub name: String,
    /// The tag written by the user, if any.
    pub explicit_value: Option<i64>,
}

/// One member with its resolved tag.
#[derive(Clone, Debug, PartialEq, Eq)]
pub struct ResolvedMember {
    /// Identifier of the member.
    pub name: String,
    /// The canonical 64-bit signed tag.
    pub tag: i64,
}

/// Everything that can be wrong with a request; detected before any
/// output is produced.
#[derive(Clone, Copy, Debug, PartialEq, Eq)]
pub enum Error {
    /// The declaration has no members.
    MalformedDeclaration,
    /// A requested representation is not one of the eight supported
    /// width/signedness pairs.
    UnsupportedRepresentation,
    /// An explicit representation set was supplied but is empty.
    EmptyRepresentationSet,
}

/// The tag after `t`, with two's-complement wraparound at the 64-bit
/// boundary.
pub open spec fn wrap_succ(t: i64) -> i64 {
    if t == i64::MAX {
        i64::MIN
    } else {
        (t + 1) as i64
    }
}

/// The canonical tag of member `i`: its explicit value if given, else the
/// previous member's tag plus one (wrapping), and zero for the first
/// member.
pub open spec fn spec_tag(members: Seq<MemberDecl>, i: int) -> i64
    decreases i,
{
    match members[i].explicit_value {
        Some(v) => v,
        None => if i <= 0 {
            0
        } else {
            wrap_succ(spec_tag(members, i - 1))
        },
    }
}

/// Resolved tags follow the declaration rule: explicit values are copied
/// verbatim, the first member defaults to zero, and every other implicit
/// member's tag is the immediately preceding resolved tag plus one,
/// wrapping on overflow.
pub proof fn lemma_resolver_correctness(members: Seq<MemberDecl>, i: int)
    requires
        0 <= i < members.len(),
    ensures
        members[i].explicit_value matches Some(v) ==> spec_tag(members, i) == v,
        members[i].explicit_value is None && i == 0 ==> spec_tag(members, i) == 0,
        members[i].explicit_value is None && i > 0 ==> spec_tag(members, i) == wrap_succ(
            spec_tag(members, i - 1),
        ),
{
}

/// Computes the canonical tag of every member of a declaration, in
/// declaration order. A declaration with no members is malformed.
pub fn resolve(members: &Vec<MemberDecl>) -> (r: Result<Vec<ResolvedMember>, Error>)
    ensures
        match r {
            Ok(out) => members@.len() > 0 && out@.len() == members@.len() && forall|i: int|
                0 <= i < out@.len() ==> (#[trigger] out@[i]).name@ == members@[i].name@
                    && out@[i].tag == spec_tag(members@, i),
            Err(e) => members@.len() == 0 && e == Error::MalformedDeclaration,
        },
{
    if members.len() == 0 {
        return Err(Error::MalformedDeclaration);
    }
    let mut out: Vec<ResolvedMember> = Vec::new();
    let mut next: i64 = 0;
    let mut idx: usize = 0;
    while idx < members.len()
        invariant
            idx <= members@.len(),
            out@.len() == idx,
            forall|i: int| 0 <= i < idx ==> (#[trigger] out@[i]).name@ == members@[i].name@
                && out@[i].tag == spec_tag(members@, i),
            idx == 0 ==> next == 0,
            idx > 0 ==> next == wrap_succ(spec_tag(members@, idx - 1)),
        decreases members@.len() - idx,
    {
        let tag: i64 = match members[idx].explicit_value {
            Some(v) => v,
            None => next,
        };
        assert(tag == spec_tag(members@, idx as int));
        out.push(ResolvedMember { name: members[idx].name.clone(), tag });
        next = tag.wrapping_add(1);
        idx = idx + 1;
    }
    Ok(out)
}

} // verus!
