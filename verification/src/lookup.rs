//! Reverse-lookup table generation.
//!
//! For each requested representation, the generator narrows every resolved
//! tag into that representation and lays the members out as a lookup
//! table, in declaration order. A lookup scans the table for the first
//! entry holding the sought value, so a value that several members narrow
//! to belongs to the earliest-declared of them, and a value no member
//! narrows to yields no match; no input can produce an error.

use crate::repr::{narrow, spec_narrow, Repr};
use crate::resolve::{Error, ResolvedMember};
use vstd::prelude::*;

verus! {

/// One row of a reverse-lookup table: a narrowed tag and the name of the
/// member it denotes.
#[derive(Clone, Debug, PartialEq, Eq)]
pub struct LookupEntry {
    /// The member's tag, narrowed into the table's representation.
    pub value: i128,
    /// Identifier of the member.
    pub name: String,
}

/// The full behavioural contract of one generated reverse-lookup
/// function: a finite mapping from narrowed tag to member name for one
/// representation, with "no match" for every other value.
#[derive(Clone, Debug, PartialEq, Eq)]
pub struct LookupSpec {
    /// The representation this table was generated for.
    pub repr: Repr,
    /// One entry per member, in declaration order; on lookup the earliest
    /// entry with a given value wins.
    pub entries: Vec<LookupEntry>,
}

/// The name held by the earliest entry whose value is `v`, if any.
pub open spec fn first_match(entries: Seq<LookupEntry>, v: int) -> Option<Seq<char>>
    decreases entries.len(),
{
    if entries.len() == 0 {
        None
    } else if entries[0].value == v {
        Some(entries[0].name@)
    } else {
        first_match(entries.drop_first(), v)
    }
}

/// When entry `i` holds `v` and no earlier entry does, the first match is
/// entry `i`.
pub proof fn lemma_first_match_some(entries: Seq<LookupEntry>, v: int, i: int)
    requires
        0 <= i < entries.len(),
        entries[i].value == v,
        forall|j: int| 0 <= j < i ==> (#[trigger] entries[j]).value != v,
    ensures
        first_match(entries, v) == Some(entries[i].name@),
    decreases i,
{
    if i > 0 {
        assert(entries.drop_first()[i - 1] == entries[i]);
        assert forall|j: int| 0 <= j < i - 1 implies (#[trigger] entries.drop_first()[j]).value
            != v by {
            assert(entries.drop_first()[j] == entries[j + 1]);
        }
        lemma_first_match_some(entries.drop_first(), v, i - 1);
    }
}

/// There is no match exactly when no entry holds `v`.
pub proof fn lemma_first_match_none_iff(entries: Seq<LookupEntry>, v: int)
    ensures
        first_match(entries, v) is None <==> (forall|j: int|
            0 <= j < entries.len() ==> (#[trigger] entries[j]).value != v),
    decreases entries.len(),
{
    if entries.len() > 0 && entries[0].value != v {
        lemma_first_match_none_iff(entries.drop_first(), v);
        assert forall|j: int| 0 <= j < entries.drop_first().len() implies (
        #[trigger] entries.drop_first()[j]) == entries[j + 1] by {}
        if forall|j: int| 0 <= j < entries.drop_first().len() ==> (
        #[trigger] entries.drop_first()[j]).value != v {
            assert forall|j: int| 0 <= j < entries.len() implies (#[trigger] entries[j]).value
                != v by {
                if j > 0 {
                    assert(entries.drop_first()[j - 1] == entries[j]);
                }
            }
        }
    }
}

/// A successful match names the earliest entry holding `v`.
pub proof fn lemma_first_match_found(entries: Seq<LookupEntry>, v: int)
    requires
        first_match(entries, v) is Some,
    ensures
        exists|i: int|
            0 <= i < entries.len() && (#[trigger] entries[i]).value == v && entries[i].name@
                == first_match(entries, v)->Some_0 && (forall|j: int|
                0 <= j < i ==> entries[j].value != v),
    decreases entries.len(),
{
    if entries[0].value == v {
        assert(0 <= 0 < entries.len() && entries[0].value == v && entries[0].name@ == first_match(
            entries,
            v,
        )->Some_0 && (forall|j: int| 0 <= j < 0 ==> entries[j].value != v));
    } else {
        lemma_first_match_found(entries.drop_first(), v);
        let w = choose|i: int|
            0 <= i < entries.drop_first().len() && (#[trigger] entries.drop_first()[i]).value == v
                && entries.drop_first()[i].name@ == first_match(entries.drop_first(), v)->Some_0
                && (forall|j: int| 0 <= j < i ==> entries.drop_first()[j].value != v);
        assert(entries.drop_first()[w] == entries[w + 1]);
        assert forall|j: int| 0 <= j < w + 1 implies entries[j].value != v by {
            if j > 0 {
                assert(entries.drop_first()[j - 1] == entries[j]);
            }
        }
        assert(0 <= w + 1 < entries.len() && entries[w + 1].value == v && entries[w + 1].name@
            == first_match(entries, v)->Some_0 && (forall|j: int|
            0 <= j < w + 1 ==> entries[j].value != v));
    }
}

impl LookupSpec {
    /// Every entry's value lies in the table's representation, and that
    /// representation is a supported one.
    pub open spec fn wf(self) -> bool {
        &&& self.repr.is_supported()
        &&& forall|i: int|
            0 <= i < self.entries@.len() ==> self.repr.in_range(
                (#[trigger] self.entries@[i]).value as int,
            )
    }

    /// Looks `value` up in the table: the name of the earliest member
    /// whose narrowed tag equals it, or `None`. Total — no input value
    /// can produce an error.
    pub fn lookup(&self, value: i128) -> (r: Option<String>)
        ensures
            r.deep_view() == first_match(self.entries@, value as int),
    {
        let mut idx: usize = 0;
        while idx < self.entries.len()
            invariant
                idx <= self.entries@.len(),
                forall|j: int| 0 <= j < idx ==> (#[trigger] self.entries@[j]).value != value,
            decreases self.entries@.len() - idx,
        {
            if self.entries[idx].value == value {
                proof {
                    lemma_first_match_some(self.entries@, value as int, idx as int);
                }
                return Some(self.entries[idx].name.clone());
            }
            idx = idx + 1;
        }
        proof {
            lemma_first_match_none_iff(self.entries@, value as int);
        }
        None
    }
}

/// The table `s` is the reverse mapping of `resolved` under `s.repr`: one
/// entry per member, in declaration order, holding the member's name and
/// its narrowed tag.
pub open spec fn represents(s: LookupSpec, resolved: Seq<ResolvedMember>) -> bool {
    &&& s.entries@.len() == resolved.len()
    &&& forall|j: int|
        0 <= j < resolved.len() ==> (#[trigger] s.entries@[j]).value as int == spec_narrow(
            resolved[j].tag,
            s.repr,
        ) && s.entries@[j].name@ == resolved[j].name@
}

/// Builds one reverse-lookup table per requested representation, each
/// mapping narrowed tags back to member names in declaration order.
/// Requesting no representation at all, or one outside the eight
/// supported width/signedness pairs, is refused before any table is
/// built.
pub fn generate(resolved: &Vec<ResolvedMember>, reps: &Vec<Repr>) -> (r: Result<
    Vec<LookupSpec>,
    Error,
>)
    ensures
        match r {
            Ok(out) => {
                &&& reps@.len() > 0
                &&& forall|k: int| 0 <= k < reps@.len() ==> (#[trigger] reps@[k]).is_supported()
                &&& out@.len() == reps@.len()
                &&& forall|k: int|
                    0 <= k < reps@.len() ==> (#[trigger] out@[k]).repr == reps@[k] && represents(
                        out@[k],
                        resolved@,
                    ) && out@[k].wf()
            },
            Err(e) => if reps@.len() == 0 {
                e == Error::EmptyRepresentationSet
            } else {
                e == Error::UnsupportedRepresentation && exists|k: int|
                    0 <= k < reps@.len() && !(#[trigger] reps@[k]).is_supported()
            },
        },
{
    if reps.len() == 0 {
        return Err(Error::EmptyRepresentationSet);
    }
    let mut i: usize = 0;
    while i < reps.len()
        invariant
            i <= reps@.len(),
            forall|k: int| 0 <= k < i ==> (#[trigger] reps@[k]).is_supported(),
        decreases reps@.len() - i,
    {
        if !reps[i].supported() {
            return Err(Error::UnsupportedRepresentation);
        }
        i = i + 1;
    }
    let mut out: Vec<LookupSpec> = Vec::new();
    let mut i: usize = 0;
    while i < reps.len()
        invariant
            i <= reps@.len(),
            out@.len() == i,
            forall|k: int| 0 <= k < reps@.len() ==> (#[trigger] reps@[k]).is_supported(),
            forall|k: int|
                0 <= k < i ==> (#[trigger] out@[k]).repr == reps@[k] && represents(
                    out@[k],
                    resolved@,
                ) && out@[k].wf(),
        decreases reps@.len() - i,
    {
        let rep = reps[i];
        let mut entries: Vec<LookupEntry> = Vec::new();
        let mut j: usize = 0;
        while j < resolved.len()
            invariant
                j <= resolved@.len(),
                entries@.len() == j,
                rep.is_supported(),
                forall|l: int|
                    0 <= l < j ==> (#[trigger] entries@[l]).value as int == spec_narrow(
                        resolved@[l].tag,
                        rep,
                    ) && entries@[l].name@ == resolved@[l].name@ && rep.in_range(
                        entries@[l].value as int,
                    ),
            decreases resolved@.len() - j,
        {
            let value = narrow(resolved[j].tag, rep);
            entries.push(LookupEntry { value, name: resolved[j].name.clone() });
            j = j + 1;
        }
        out.push(LookupSpec { repr: rep, entries });
        i = i + 1;
    }
    Ok(out)
}

/// The default representation set: all eight supported width/signedness
/// pairs.
pub open spec fn default_reprs() -> Seq<Repr> {
    seq![
        Repr { width: 8, signed: true },
        Repr { width: 8, signed: false },
        Repr { width: 16, signed: true },
        Repr { width: 16, signed: false },
        Repr { width: 32, signed: true },
        Repr { width: 32, signed: false },
        Repr { width: 64, signed: true },
        Repr { width: 64, signed: false },
    ]
}

/// The default representation set as a vector, signed before unsigned at
/// each width, narrowest width first.
pub fn default_representations() -> (r: Vec<Repr>)
    ensures
        r@ == default_reprs(),
{
    let mut v: Vec<Repr> = Vec::new();
    v.push(Repr { width: 8, signed: true });
    v.push(Repr { width: 8, signed: false });
    v.push(Repr { width: 16, signed: true });
    v.push(Repr { width: 16, signed: false });
    v.push(Repr { width: 32, signed: true });
    v.push(Repr { width: 32, signed: false });
    v.push(Repr { width: 64, signed: true });
    v.push(Repr { width: 64, signed: false });
    proof {
        assert(v@ =~= default_reprs());
    }
    v
}

/// Builds the reverse-lookup tables for the default representation set,
/// which is never empty and contains only supported representations, so
/// no error can arise.
pub fn generate_default(resolved: &Vec<ResolvedMember>) -> (r: Vec<LookupSpec>)
    ensures
        r@.len() == default_reprs().len(),
        forall|k: int|
            0 <= k < r@.len() ==> (#[trigger] r@[k]).repr == default_reprs()[k] && represents(
                r@[k],
                resolved@,
            ) && r@[k].wf(),
{
    let reps = default_representations();
    proof {
        assert forall|k: int| 0 <= k < reps@.len() implies (
        #[trigger] reps@[k]).is_supported() by {
            if k == 0 {
            } else if k == 1 {
            } else if k == 2 {
            } else if k == 3 {
            } else if k == 4 {
            } else if k == 5 {
            } else if k == 6 {
            } else {
            }
        }
    }
    match generate(resolved, &reps) {
        Ok(out) => out,
        Err(_) => vstd::pervasive::unreached(),
    }
}

/// Totality: under a generated table, every input value yields exactly
/// one outcome — the name of a member whose narrowed tag equals the
/// value, or no match when no member's does; never an error.
pub proof fn lemma_lookup_total(s: LookupSpec, resolved: Seq<ResolvedMember>, v: int)
    requires
        represents(s, resolved),
    ensures
        first_match(s.entries@, v) is None <==> (forall|i: int|
            0 <= i < resolved.len() ==> spec_narrow((#[trigger] resolved[i]).tag, s.repr) != v),
        first_match(s.entries@, v) is Some ==> exists|i: int|
            0 <= i < resolved.len() && spec_narrow((#[trigger] resolved[i]).tag, s.repr) == v
                && resolved[i].name@ == first_match(s.entries@, v)->Some_0,
{
    lemma_first_match_none_iff(s.entries@, v);
    if first_match(s.entries@, v) is None {
        assert forall|i: int| 0 <= i < resolved.len() implies spec_narrow(
            (#[trigger] resolved[i]).tag,
            s.repr,
        ) != v by {
            assert(s.entries@[i].value != v);
        }
    }
    if first_match(s.entries@, v) is Some {
        lemma_first_match_found(s.entries@, v);
        let w = choose|i: int|
            0 <= i < s.entries@.len() && (#[trigger] s.entries@[i]).value == v
                && s.entries@[i].name@ == first_match(s.entries@, v)->Some_0 && (forall|j: int|
                0 <= j < i ==> s.entries@[j].value != v);
        assert(spec_narrow(resolved[w].tag, s.repr) == v && resolved[w].name@ == first_match(
            s.entries@,
            v,
        )->Some_0);
    }
}

/// A value outside the table's representation matches no entry: a lookup
/// is total over all inputs, not only over the representation's range.
pub proof fn lemma_out_of_range_no_match(s: LookupSpec, v: int)
    requires
        s.wf(),
        !s.repr.in_range(v),
    ensures
        first_match(s.entries@, v) is None,
{
    assert forall|j: int| 0 <= j < s.entries@.len() implies (#[trigger] s.entries@[j]).value
        != v by {
        assert(s.repr.in_range(s.entries@[j].value as int));
    }
    lemma_first_match_none_iff(s.entries@, v);
}

/// First-writer-wins: when tags collide after narrowing — a later
/// member's tag narrows to the same value as an earlier one's — looking
/// the collided value up yields the earliest member that narrows to it,
/// never a later one.
pub proof fn lemma_first_writer_wins(s: LookupSpec, resolved: Seq<ResolvedMember>, i: int, j: int)
    requires
        represents(s, resolved),
        0 <= i < j < resolved.len(),
        spec_narrow(resolved[j].tag, s.repr) == spec_narrow(resolved[i].tag, s.repr),
        forall|k: int|
            0 <= k < i ==> spec_narrow((#[trigger] resolved[k]).tag, s.repr) != spec_narrow(
                resolved[i].tag,
                s.repr,
            ),
    ensures
        first_match(s.entries@, spec_narrow(resolved[i].tag, s.repr)) == Some(resolved[i].name@),
{
    lemma_first_match_some(s.entries@, spec_narrow(resolved[i].tag, s.repr), i);
}

/// Round-trip: a member whose narrowed tag collides with no other
/// member's narrows and looks back up to itself.
pub proof fn lemma_round_trip(s: LookupSpec, resolved: Seq<ResolvedMember>, i: int)
    requires
        represents(s, resolved),
        0 <= i < resolved.len(),
        forall|k: int|
            0 <= k < resolved.len() && k != i ==> spec_narrow((#[trigger] resolved[k]).tag, s.repr)
                != spec_narrow(resolved[i].tag, s.repr),
    ensures
        first_match(s.entries@, spec_narrow(resolved[i].tag, s.repr)) == Some(resolved[i].name@),
{
    lemma_first_match_some(s.entries@, spec_narrow(resolved[i].tag, s.repr), i);
}

} // verus!
