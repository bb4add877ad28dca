//! The entanglement matcher: builds a deterministic partial bijection
//! between the primary and companion collections from already-ingested
//! tables, in three tiers.
//!
//! Tier one pairs by exact identifying trait; among several unconsumed
//! matches the companion with the lexicographically lowest mint address wins
//! (a design choice: the trait alone cannot decide the tie). Tier two
//! resolves reference rows by recomputing the primary display name from the
//! naming template. Tier three, the lowest-confidence "ghost" tier, zips the
//! remaining unmatched primaries (in table order) with the unconsumed
//! companions in ascending `sequence_order`. Every emitted pair is guarded
//! against reusing a primary or a companion, so the bijection invariant
//! holds whatever the inputs.
//!
//! Callers supply the tables in the store's reading order (primaries
//! ascending by mint address, references ascending by their number), which
//! makes the plan reproducible run over run.

use vstd::prelude::*;
use vstd::string::StringExecFns;

use crate::normalize::{lex_lt, str_lex_lt};
use crate::records::{Entanglement, EntanglementV, MintRecord, MintRecordV, ReferenceRow, ReferenceRowV};

verus! {

/// Some pair of `acc` already consumes this primary mint.
pub open spec fn primary_used(acc: Seq<EntanglementV>, mint: Seq<char>) -> bool {
    exists|k: int| 0 <= k < acc.len() && acc[k].primary_mint == mint
}

/// Some pair of `acc` already consumes this companion mint.
pub open spec fn companion_used(acc: Seq<EntanglementV>, mint: Seq<char>) -> bool {
    exists|k: int| 0 <= k < acc.len() && acc[k].companion_mint == mint
}

/// The table is a partial bijection: no primary mint and no companion mint
/// appears in two pairs.
pub open spec fn entanglements_bijective(es: Seq<EntanglementV>) -> bool {
    forall|k1: int, k2: int|
        0 <= k1 < k2 < es.len() ==> es[k1].primary_mint != es[k2].primary_mint
            && es[k1].companion_mint != es[k2].companion_mint
}

/// Scans `cs[j..]` for the unconsumed companion with trait `t` whose mint
/// address is lexicographically lowest, `best` being the best index so far.
pub open spec fn best_trait_match(
    cs: Seq<MintRecordV>,
    acc: Seq<EntanglementV>,
    t: Seq<char>,
    j: int,
    best: Option<int>,
) -> Option<int>
    decreases cs.len() - j,
{
    if j < 0 || j >= cs.len() {
        best
    } else {
        let candidate = cs[j].identifying_trait == t && !companion_used(acc, cs[j].mint_address)
            && (match best {
            None => true,
            Some(k) => lex_lt(cs[j].mint_address, cs[k].mint_address),
        });
        best_trait_match(cs, acc, t, j + 1, if candidate { Some(j) } else { best })
    }
}

/// The pairs after the exact-trait tier has processed `ps[i..]` on top of
/// `acc`: each primary with a non-empty trait takes its best unconsumed
/// trait match, and primaries without one are deferred.
pub open spec fn spec_phase_trait_from(
    ps: Seq<MintRecordV>,
    cs: Seq<MintRecordV>,
    i: int,
    acc: Seq<EntanglementV>,
) -> Seq<EntanglementV>
    decreases ps.len() - i,
{
    if i < 0 || i >= ps.len() {
        acc
    } else {
        let p = ps[i];
        let acc2 = if p.identifying_trait.len() > 0 && !primary_used(acc, p.mint_address) {
            match best_trait_match(cs, acc, p.identifying_trait, 0, None) {
                Some(j) => acc.push(
                    EntanglementV { primary_mint: p.mint_address, companion_mint: cs[j].mint_address },
                ),
                None => acc,
            }
        } else {
            acc
        };
        spec_phase_trait_from(ps, cs, i + 1, acc2)
    }
}

/// The first primary of `ps[j..]` whose display name equals `name` and that
/// no pair of `acc` consumes yet.
pub open spec fn find_primary_by_name(
    ps: Seq<MintRecordV>,
    acc: Seq<EntanglementV>,
    name: Seq<char>,
    j: int,
) -> Option<int>
    decreases ps.len() - j,
{
    if j < 0 || j >= ps.len() {
        None
    } else if ps[j].display_name == name && !primary_used(acc, ps[j].mint_address) {
        Some(j)
    } else {
        find_primary_by_name(ps, acc, name, j + 1)
    }
}

/// The pairs after the reference tier has processed `rs[i..]` on top of
/// `acc`: each reference row recomputes the expected primary display name
/// from the naming template and its number, and pairs the first free primary
/// of that name with the row's companion mint; rows that would reuse a
/// primary or a companion are skipped.
pub open spec fn spec_phase_reference_from(
    rs: Seq<ReferenceRowV>,
    ps: Seq<MintRecordV>,
    i: int,
    acc: Seq<EntanglementV>,
    tpre: Seq<char>,
    tsuf: Seq<char>,
) -> Seq<EntanglementV>
    decreases rs.len() - i,
{
    if i < 0 || i >= rs.len() {
        acc
    } else {
        let expected = tpre + rs[i].primary_number + tsuf;
        let acc2 = match find_primary_by_name(ps, acc, expected, 0) {
            Some(j) => if !companion_used(acc, rs[i].mono_mint) {
                acc.push(
                    EntanglementV { primary_mint: ps[j].mint_address, companion_mint: rs[i].mono_mint },
                )
            } else {
                acc
            },
            None => acc,
        };
        spec_phase_reference_from(rs, ps, i + 1, acc2, tpre, tsuf)
    }
}

/// Scans `cs[j..]` for the unconsumed companion with the lowest
/// `sequence_order` (the earliest one wins a tie), `best` being the best
/// index so far.
pub open spec fn min_order_companion(
    cs: Seq<MintRecordV>,
    acc: Seq<EntanglementV>,
    j: int,
    best: Option<int>,
) -> Option<int>
    decreases cs.len() - j,
{
    if j < 0 || j >= cs.len() {
        best
    } else {
        let candidate = !companion_used(acc, cs[j].mint_address) && (match best {
            None => true,
            Some(k) => cs[j].sequence_order < cs[k].sequence_order,
        });
        min_order_companion(cs, acc, j + 1, if candidate { Some(j) } else { best })
    }
}

/// The pairs after the ordering-fallback ("ghost") tier has processed
/// `ps[i..]` on top of `acc`: each still-unmatched primary, in table order,
/// takes the unconsumed companion with the lowest `sequence_order`.
pub open spec fn spec_phase_ghost_from(
    ps: Seq<MintRecordV>,
    cs: Seq<MintRecordV>,
    i: int,
    acc: Seq<EntanglementV>,
) -> Seq<EntanglementV>
    decreases ps.len() - i,
{
    if i < 0 || i >= ps.len() {
        acc
    } else {
        let acc2 = if !primary_used(acc, ps[i].mint_address) {
            match min_order_companion(cs, acc, 0, None) {
                Some(j) => acc.push(
                    EntanglementV {
                        primary_mint: ps[i].mint_address,
                        companion_mint: cs[j].mint_address,
                    },
                ),
                None => acc,
            }
        } else {
            acc
        };
        spec_phase_ghost_from(ps, cs, i + 1, acc2)
    }
}

/// The full entanglement plan: the exact-trait tier, then the reference
/// tier, then the ordering fallback.
pub open spec fn spec_plan_entanglements(
    ps: Seq<MintRecordV>,
    cs: Seq<MintRecordV>,
    rs: Seq<ReferenceRowV>,
    tpre: Seq<char>,
    tsuf: Seq<char>,
) -> Seq<EntanglementV> {
    let after_trait = spec_phase_trait_from(ps, cs, 0, Seq::empty());
    let after_reference = spec_phase_reference_from(rs, ps, 0, after_trait, tpre, tsuf);
    spec_phase_ghost_from(ps, cs, 0, after_reference)
}

/// Re-running the matcher on the same ingested data yields the identical
/// entanglement table, tie-break choices included: the plan is a pure
/// function of the tables and the naming template.
pub proof fn lemma_matcher_deterministic(
    ps_a: Seq<MintRecordV>,
    cs_a: Seq<MintRecordV>,
    rs_a: Seq<ReferenceRowV>,
    ps_b: Seq<MintRecordV>,
    cs_b: Seq<MintRecordV>,
    rs_b: Seq<ReferenceRowV>,
    tpre: Seq<char>,
    tsuf: Seq<char>,
)
    requires
        ps_a == ps_b,
        cs_a == cs_b,
        rs_a == rs_b,
    ensures
        spec_plan_entanglements(ps_a, cs_a, rs_a, tpre, tsuf) == spec_plan_entanglements(
            ps_b,
            cs_b,
            rs_b,
            tpre,
            tsuf,
        ),
{
}

/// A best-match scan only ever answers with an in-range companion that
/// carries the sought trait and that no pair of `acc` consumes yet.
proof fn lemma_best_trait_match_fresh(
    cs: Seq<MintRecordV>,
    acc: Seq<EntanglementV>,
    t: Seq<char>,
    j: int,
    best: Option<int>,
)
    requires
        best matches Some(k) ==> 0 <= k < cs.len() && cs[k].identifying_trait == t
            && !companion_used(acc, cs[k].mint_address),
    ensures
        best_trait_match(cs, acc, t, j, best) matches Some(k) ==> 0 <= k < cs.len()
            && cs[k].identifying_trait == t && !companion_used(acc, cs[k].mint_address),
    decreases cs.len() - j,
{
    if 0 <= j < cs.len() {
        let candidate = cs[j].identifying_trait == t && !companion_used(acc, cs[j].mint_address)
            && (match best {
            None => true,
            Some(k) => lex_lt(cs[j].mint_address, cs[k].mint_address),
        });
        lemma_best_trait_match_fresh(cs, acc, t, j + 1, if candidate { Some(j) } else { best });
    }
}

/// The exact-trait tier preserves the bijection invariant of whatever table
/// it extends.
proof fn lemma_phase_trait_bijective_from(
    ps: Seq<MintRecordV>,
    cs: Seq<MintRecordV>,
    i: int,
    acc: Seq<EntanglementV>,
)
    requires
        entanglements_bijective(acc),
    ensures
        entanglements_bijective(spec_phase_trait_from(ps, cs, i, acc)),
    decreases ps.len() - i,
{
    if 0 <= i < ps.len() {
        let p = ps[i];
        let acc2 = if p.identifying_trait.len() > 0 && !primary_used(acc, p.mint_address) {
            match best_trait_match(cs, acc, p.identifying_trait, 0, None) {
                Some(j) => acc.push(
                    EntanglementV { primary_mint: p.mint_address, companion_mint: cs[j].mint_address },
                ),
                None => acc,
            }
        } else {
            acc
        };
        if p.identifying_trait.len() > 0 && !primary_used(acc, p.mint_address) {
            lemma_best_trait_match_fresh(cs, acc, p.identifying_trait, 0, None);
            match best_trait_match(cs, acc, p.identifying_trait, 0, None) {
                Some(j) => {
                    lemma_bijective_push(
                        acc,
                        EntanglementV {
                            primary_mint: p.mint_address,
                            companion_mint: cs[j].mint_address,
                        },
                    );
                },
                None => {},
            }
        }
        lemma_phase_trait_bijective_from(ps, cs, i + 1, acc2);
    }
}

/// The exact-trait tier alone never pairs two primary records with the same
/// companion, nor one primary with two companions: its output is already a
/// partial bijection, before the fallback tiers run.
pub proof fn lemma_phase_trait_bijective(ps: Seq<MintRecordV>, cs: Seq<MintRecordV>)
    ensures
        entanglements_bijective(spec_phase_trait_from(ps, cs, 0, Seq::empty())),
{
    lemma_phase_trait_bijective_from(ps, cs, 0, Seq::empty());
}

/// Pushing a pair whose primary and companion are both fresh preserves the
/// bijection invariant.
proof fn lemma_bijective_push(acc: Seq<EntanglementV>, e: EntanglementV)
    requires
        entanglements_bijective(acc),
        !primary_used(acc, e.primary_mint),
        !companion_used(acc, e.companion_mint),
    ensures
        entanglements_bijective(acc.push(e)),
{
    let r = acc.push(e);
    assert forall|k1: int, k2: int| 0 <= k1 < k2 < r.len() implies r[k1].primary_mint
        != r[k2].primary_mint && r[k1].companion_mint != r[k2].companion_mint by {
        if k2 == acc.len() as int {
            assert(r[k1] == acc[k1]);
            assert(r[k2] == e);
            assert(acc[k1].primary_mint != e.primary_mint);
            assert(acc[k1].companion_mint != e.companion_mint);
        } else {
            assert(r[k1] == acc[k1] && r[k2] == acc[k2]);
        }
    }
}

/// Some emitted pair already consumes this primary mint.
fn contains_primary(out: &Vec<Entanglement>, mint: &String) -> (r: bool)
    ensures
        r == primary_used(out.deep_view(), mint@),
{
    let mut i: usize = 0;
    while i < out.len()
        invariant
            i <= out.len(),
            forall|k: int| 0 <= k < i ==> out.deep_view()[k].primary_mint != mint@,
        decreases out.len() - i,
    {
        if out[i].primary_mint == *mint {
            proof {
                assert(out.deep_view()[i as int].primary_mint == mint@);
            }
            return true;
        }
        i = i + 1;
    }
    false
}

/// Some emitted pair already consumes this companion mint.
fn contains_companion(out: &Vec<Entanglement>, mint: &String) -> (r: bool)
    ensures
        r == companion_used(out.deep_view(), mint@),
{
    let mut i: usize = 0;
    while i < out.len()
        invariant
            i <= out.len(),
            forall|k: int| 0 <= k < i ==> out.deep_view()[k].companion_mint != mint@,
        decreases out.len() - i,
    {
        if out[i].companion_mint == *mint {
            proof {
                assert(out.deep_view()[i as int].companion_mint == mint@);
            }
            return true;
        }
        i = i + 1;
    }
    false
}

/// The best exact-trait match: the unconsumed companion with trait `t` whose
/// mint address is lexicographically lowest.
fn best_trait_companion(
    companions: &Vec<MintRecord>,
    out: &Vec<Entanglement>,
    t: &String,
) -> (r: Option<usize>)
    ensures
        (match r {
            Some(j) => Some(j as int),
            None => None::<int>,
        }) == best_trait_match(companions.deep_view(), out.deep_view(), t@, 0, None),
        r matches Some(j) ==> j < companions.len() && !companion_used(
            out.deep_view(),
            companions.deep_view()[j as int].mint_address,
        ),
{
    let ghost cv = companions.deep_view();
    let ghost ov = out.deep_view();
    let mut best: Option<usize> = None;
    let mut j: usize = 0;
    while j < companions.len()
        invariant
            j <= companions.len(),
            cv == companions.deep_view(),
            ov == out.deep_view(),
            best_trait_match(cv, ov, t@, 0, None) == best_trait_match(
                cv,
                ov,
                t@,
                j as int,
                match best {
                    Some(b) => Some(b as int),
                    None => None::<int>,
                },
            ),
            match best {
                Some(b) => b < companions.len() && !companion_used(ov, cv[b as int].mint_address),
                None => true,
            },
        decreases companions.len() - j,
    {
        proof {
            assert(cv[j as int] == companions@[j as int].deep_view());
        }
        let mut candidate: bool = companions[j].identifying_trait == *t;
        if candidate {
            candidate = !contains_companion(out, &companions[j].mint_address);
        }
        if candidate {
            candidate = match best {
                None => true,
                Some(b) => str_lex_lt(
                    companions[j].mint_address.as_str(),
                    companions[b].mint_address.as_str(),
                ),
            };
        }
        if candidate {
            best = Some(j);
        }
        j = j + 1;
    }
    best
}

/// The first primary with this display name that no pair consumes yet.
fn find_unmatched_primary_by_name(
    primaries: &Vec<MintRecord>,
    out: &Vec<Entanglement>,
    name: &String,
) -> (r: Option<usize>)
    ensures
        (match r {
            Some(j) => Some(j as int),
            None => None::<int>,
        }) == find_primary_by_name(primaries.deep_view(), out.deep_view(), name@, 0),
        r matches Some(j) ==> j < primaries.len() && !primary_used(
            out.deep_view(),
            primaries.deep_view()[j as int].mint_address,
        ),
{
    let ghost pv = primaries.deep_view();
    let ghost ov = out.deep_view();
    let mut j: usize = 0;
    while j < primaries.len()
        invariant
            j <= primaries.len(),
            pv == primaries.deep_view(),
            ov == out.deep_view(),
            find_primary_by_name(pv, ov, name@, 0) == find_primary_by_name(pv, ov, name@, j as int),
        decreases primaries.len() - j,
    {
        proof {
            assert(pv[j as int] == primaries@[j as int].deep_view());
        }
        if primaries[j].display_name == *name {
            if !contains_primary(out, &primaries[j].mint_address) {
                return Some(j);
            }
        }
        j = j + 1;
    }
    None
}

/// The unconsumed companion with the lowest `sequence_order` (the earliest
/// one wins a tie).
fn min_order_companion_index(companions: &Vec<MintRecord>, out: &Vec<Entanglement>) -> (r: Option<
    usize,
>)
    ensures
        (match r {
            Some(j) => Some(j as int),
            None => None::<int>,
        }) == min_order_companion(companions.deep_view(), out.deep_view(), 0, None),
        r matches Some(j) ==> j < companions.len() && !companion_used(
            out.deep_view(),
            companions.deep_view()[j as int].mint_address,
        ),
{
    let ghost cv = companions.deep_view();
    let ghost ov = out.deep_view();
    let mut best: Option<usize> = None;
    let mut j: usize = 0;
    while j < companions.len()
        invariant
            j <= companions.len(),
            cv == companions.deep_view(),
            ov == out.deep_view(),
            min_order_companion(cv, ov, 0, None) == min_order_companion(
                cv,
                ov,
                j as int,
                match best {
                    Some(b) => Some(b as int),
                    None => None::<int>,
                },
            ),
            match best {
                Some(b) => b < companions.len() && !companion_used(ov, cv[b as int].mint_address),
                None => true,
            },
        decreases companions.len() - j,
    {
        proof {
            assert(cv[j as int] == companions@[j as int].deep_view());
        }
        let mut candidate: bool = !contains_companion(out, &companions[j].mint_address);
        if candidate {
            candidate = match best {
                None => true,
                Some(b) => companions[j].sequence_order < companions[b].sequence_order,
            };
        }
        if candidate {
            best = Some(j);
        }
        j = j + 1;
    }
    best
}

/// Computes the entanglement plan for the ingested tables: the exact-trait
/// tier, then the reference tier (the expected primary display name is
/// `template_prefix`, then the row's number, then `template_suffix`), then
/// the ordering fallback. The result is a partial bijection and a pure
/// function of the inputs, so a re-run on the same tables reproduces it
/// exactly.
pub fn plan_entanglements(
    primaries: &Vec<MintRecord>,
    companions: &Vec<MintRecord>,
    references: &Vec<ReferenceRow>,
    template_prefix: &str,
    template_suffix: &str,
) -> (r: Vec<Entanglement>)
    ensures
        r.deep_view() == spec_plan_entanglements(
            primaries.deep_view(),
            companions.deep_view(),
            references.deep_view(),
            template_prefix@,
            template_suffix@,
        ),
        entanglements_bijective(r.deep_view()),
{
    let ghost pv = primaries.deep_view();
    let ghost cv = companions.deep_view();
    let ghost rv = references.deep_view();
    let mut out: Vec<Entanglement> = Vec::new();
    proof {
        assert(out.deep_view() =~= Seq::<EntanglementV>::empty());
    }

    // Tier one: exact identifying-trait matches.
    let mut i: usize = 0;
    while i < primaries.len()
        invariant
            i <= primaries.len(),
            pv == primaries.deep_view(),
            cv == companions.deep_view(),
            spec_phase_trait_from(pv, cv, 0, Seq::empty()) == spec_phase_trait_from(
                pv,
                cv,
                i as int,
                out.deep_view(),
            ),
            entanglements_bijective(out.deep_view()),
        decreases primaries.len() - i,
    {
        proof {
            assert(pv[i as int] == primaries@[i as int].deep_view());
        }
        let p = &primaries[i];
        if !p.identifying_trait.as_str().is_empty() && !contains_primary(&out, &p.mint_address) {
            match best_trait_companion(companions, &out, &p.identifying_trait) {
                Some(j) => {
                    proof {
                        assert(cv[j as int] == companions@[j as int].deep_view());
                    }
                    let pair = Entanglement {
                        primary_mint: p.mint_address.clone(),
                        companion_mint: companions[j].mint_address.clone(),
                    };
                    let ghost old_dv = out.deep_view();
                    proof {
                        lemma_bijective_push(old_dv, pair.deep_view());
                    }
                    out.push(pair);
                    proof {
                        assert(out.deep_view() =~= old_dv.push(pair.deep_view()));
                    }
                },
                None => {},
            }
        }
        i = i + 1;
    }
    let ghost after_trait = out.deep_view();

    // Tier two: reference rows, resolved through the naming template.
    let mut i: usize = 0;
    while i < references.len()
        invariant
            i <= references.len(),
            pv == primaries.deep_view(),
            rv == references.deep_view(),
            spec_phase_reference_from(rv, pv, 0, after_trait, template_prefix@, template_suffix@)
                == spec_phase_reference_from(
                rv,
                pv,
                i as int,
                out.deep_view(),
                template_prefix@,
                template_suffix@,
            ),
            entanglements_bijective(out.deep_view()),
        decreases references.len() - i,
    {
        proof {
            assert(rv[i as int] == references@[i as int].deep_view());
        }
        let reference = &references[i];
        let mut expected: String = template_prefix.to_owned();
        expected.append(reference.primary_number.as_str());
        expected.append(template_suffix);
        match find_unmatched_primary_by_name(primaries, &out, &expected) {
            Some(j) => {
                proof {
                    assert(pv[j as int] == primaries@[j as int].deep_view());
                }
                if !contains_companion(&out, &reference.mono_mint) {
                    let pair = Entanglement {
                        primary_mint: primaries[j].mint_address.clone(),
                        companion_mint: reference.mono_mint.clone(),
                    };
                    let ghost old_dv = out.deep_view();
                    proof {
                        lemma_bijective_push(old_dv, pair.deep_view());
                    }
                    out.push(pair);
                    proof {
                        assert(out.deep_view() =~= old_dv.push(pair.deep_view()));
                    }
                }
            },
            None => {},
        }
        i = i + 1;
    }
    let ghost after_reference = out.deep_view();

    // Tier three: ordering fallback ("ghost" pairings).
    let mut i: usize = 0;
    while i < primaries.len()
        invariant
            i <= primaries.len(),
            pv == primaries.deep_view(),
            cv == companions.deep_view(),
            spec_phase_ghost_from(pv, cv, 0, after_reference) == spec_phase_ghost_from(
                pv,
                cv,
                i as int,
                out.deep_view(),
            ),
            entanglements_bijective(out.deep_view()),
        decreases primaries.len() - i,
    {
        proof {
            assert(pv[i as int] == primaries@[i as int].deep_view());
        }
        let p = &primaries[i];
        if !contains_primary(&out, &p.mint_address) {
            match min_order_companion_index(companions, &out) {
                Some(j) => {
                    proof {
                        assert(cv[j as int] == companions@[j as int].deep_view());
                    }
                    let pair = Entanglement {
                        primary_mint: p.mint_address.clone(),
                        companion_mint: companions[j].mint_address.clone(),
                    };
                    let ghost old_dv = out.deep_view();
                    proof {
                        lemma_bijective_push(old_dv, pair.deep_view());
                    }
                    out.push(pair);
                    proof {
                        assert(out.deep_view() =~= old_dv.push(pair.deep_view()));
                    }
                },
                None => {},
            }
        }
        i = i + 1;
    }
    out
}

} // verus!
