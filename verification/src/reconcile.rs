//! The patch reconciler's decisions: given live on-chain state, decide the
//! minimal correction, or none when the live state already matches. The
//! fetching, signing and submission of a planned correction happen outside
//! the library; each correction is independent of the others.

use vstd::prelude::*;

use crate::normalize::{strip_null_padding, strip_nulls};
use crate::records::CreatorRecord;

verus! {

/// The correction owed for one field: the expected value when the normalized
/// live value differs from it, and none when they already agree.
pub open spec fn spec_value_correction(live: Seq<char>, expected: Seq<char>) -> Option<Seq<char>> {
    if strip_nulls(live) == expected {
        None
    } else {
        Some(expected)
    }
}

/// Reconciling a correction whose live value already equals the expected
/// value plans no transaction: re-running the reconciler is idempotent.
pub proof fn lemma_reconcile_noop(live: Seq<char>, expected: Seq<char>)
    requires
        strip_nulls(live) == expected,
    ensures
        spec_value_correction(live, expected) is None,
{
}

/// Decides one correction: strips the null padding from the live value and
/// compares it to the expected value; returns the value to write when they
/// differ and `None` (no transaction) when they already agree.
pub fn plan_value_correction(live_value: &str, expected: &str) -> (r: Option<String>)
    ensures
        (match r {
            Some(v) => Some(v@),
            None => None::<Seq<char>>,
        }) == spec_value_correction(live_value@, expected@),
{
    let normalized = strip_null_padding(live_value);
    let expected_owned: String = expected.to_owned();
    if normalized == expected_owned {
        None
    } else {
        Some(expected_owned)
    }
}

/// Some creator entry carries this address.
pub open spec fn creator_listed(cs: Seq<(Seq<char>, bool, u8)>, address: Seq<char>) -> bool {
    exists|k: int| 0 <= k < cs.len() && cs[k].0 == address
}

/// The creator list with every entry at the legacy address replaced: the
/// address becomes the replacement, the entry is no longer verified (the new
/// address has not signed), and the royalty share is preserved; other
/// entries are untouched.
pub open spec fn patched_creators(
    cs: Seq<(Seq<char>, bool, u8)>,
    legacy: Seq<char>,
    replacement: Seq<char>,
) -> Seq<(Seq<char>, bool, u8)> {
    cs.map_values(
        |c: (Seq<char>, bool, u8)|
            if c.0 == legacy {
                (replacement, false, c.2)
            } else {
                c
            },
    )
}

/// The correction owed for a creator list: the patched list when some entry
/// carries the legacy address, and none (no transaction) otherwise.
pub open spec fn spec_creator_patch(
    cs: Seq<(Seq<char>, bool, u8)>,
    legacy: Seq<char>,
    replacement: Seq<char>,
) -> Option<Seq<(Seq<char>, bool, u8)>> {
    if creator_listed(cs, legacy) {
        Some(patched_creators(cs, legacy, replacement))
    } else {
        None
    }
}

/// Decides the creator-royalty correction for one token: replaces the
/// address of every creator entry matching `legacy` with `replacement`,
/// preserving shares, and returns the new list; `None` (no transaction) when
/// no entry matches.
pub fn plan_creator_patch(
    creators: &Vec<CreatorRecord>,
    legacy: &str,
    replacement: &str,
) -> (r: Option<Vec<CreatorRecord>>)
    ensures
        (match r {
            Some(v) => Some(v.deep_view()),
            None => None::<Seq<(Seq<char>, bool, u8)>>,
        }) == spec_creator_patch(creators.deep_view(), legacy@, replacement@),
{
    let ghost cv = creators.deep_view();
    let legacy_owned: String = legacy.to_owned();
    let mut updated: Vec<CreatorRecord> = Vec::new();
    let mut found: bool = false;
    let mut i: usize = 0;
    proof {
        assert(updated.deep_view() =~= patched_creators(cv.take(0), legacy@, replacement@));
    }
    while i < creators.len()
        invariant
            i <= creators.len(),
            cv == creators.deep_view(),
            legacy_owned@ == legacy@,
            found == creator_listed(cv.take(i as int), legacy@),
            updated.deep_view() == patched_creators(cv.take(i as int), legacy@, replacement@),
        decreases creators.len() - i,
    {
        proof {
            assert(cv[i as int] == creators@[i as int].deep_view());
        }
        let entry = &creators[i];
        let ghost old_dv = updated.deep_view();
        if entry.address == legacy_owned {
            let new_entry = CreatorRecord {
                address: replacement.to_owned(),
                verified: false,
                share: entry.share,
            };
            proof {
                assert(new_entry.deep_view() == (replacement@, false, cv[i as int].2));
            }
            updated.push(new_entry);
            found = true;
            proof {
                assert(updated.deep_view() =~= old_dv.push((replacement@, false, cv[i as int].2)));
                assert(cv.take(i as int + 1)[i as int].0 == legacy@);
                assert(creator_listed(cv.take(i as int + 1), legacy@));
            }
        } else {
            let new_entry = CreatorRecord {
                address: entry.address.clone(),
                verified: entry.verified,
                share: entry.share,
            };
            proof {
                assert(new_entry.deep_view() == cv[i as int]);
            }
            updated.push(new_entry);
            proof {
                assert(updated.deep_view() =~= old_dv.push(cv[i as int]));
                if creator_listed(cv.take(i as int + 1), legacy@) {
                    let t = cv.take(i as int + 1);
                    let k = choose|k: int| 0 <= k < t.len() && (#[trigger] t[k]).0 == legacy@;
                    if k < i {
                        assert(cv.take(i as int)[k].0 == legacy@);
                    }
                }
            }
        }
        proof {
            assert(updated.deep_view() =~= patched_creators(
                cv.take(i as int + 1),
                legacy@,
                replacement@,
            ));
        }
        i = i + 1;
    }
    proof {
        assert(cv.take(creators.len() as int) =~= cv);
    }
    if found {
        Some(updated)
    } else {
        None
    }
}

} // verus!
