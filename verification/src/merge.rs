use vstd::prelude::*;

use crate::error::{Error, ErrorView};
use crate::profile::{normalized, Profile, ProfileSource, ProfileView};
use crate::storage::{
    entries_of_profiles, profile_names_unique, readable_profiles, store_wf, Storage,
};
use crate::views::{lemma_deep_view_push, lemma_deep_view_set};

verus! {

/// Whether a profile was created by hand; only such profiles survive a sync
/// untouched.
pub open spec fn is_manual(p: ProfileView) -> bool {
    p.source == Some(ProfileSource::Manual)
}

/// The manually created profiles of `s`, in order.
pub open spec fn manual_profiles(s: Seq<ProfileView>) -> Seq<ProfileView>
    decreases s.len(),
{
    if s.len() == 0 {
        Seq::empty()
    } else {
        let rest = manual_profiles(s.drop_last());
        if is_manual(s.last()) {
            rest.push(s.last())
        } else {
            rest
        }
    }
}

/// Whether a result entry named `p_name` matches a candidate fetched under
/// the raw name `c_name`: by that raw name, or by its normalized form.
pub open spec fn name_matches(p_name: Seq<char>, c_name: Seq<char>) -> bool {
    p_name == c_name || p_name == normalized(c_name)
}

/// The position of the first result entry matching the candidate name
/// `c_name`, or `-1` when none does: a single pass, first match wins.
pub open spec fn find_match(s: Seq<ProfileView>, c_name: Seq<char>) -> int
    decreases s.len(),
{
    if s.len() == 0 {
        -1
    } else if name_matches(s[0].name, c_name) {
        0
    } else {
        let r = find_match(s.drop_first(), c_name);
        if r == -1 {
            -1
        } else {
            r + 1
        }
    }
}

/// The form in which a candidate enters the result: stored under its
/// normalized name, the raw fetched name kept as the display name, and
/// provenance marked synced.
pub open spec fn synced_form(c: ProfileView) -> ProfileView {
    ProfileView {
        name: normalized(c.name),
        display_name: Some(c.name),
        source: Some(ProfileSource::CcSwitch),
        ..c
    }
}

/// One candidate folded into the result set: it replaces the first matching
/// entry in place, or is appended when nothing matches.
pub open spec fn merge_step(acc: Seq<ProfileView>, c: ProfileView) -> Seq<ProfileView> {
    let i = find_match(acc, c.name);
    if i == -1 {
        acc.push(synced_form(c))
    } else {
        acc.update(i, synced_form(c))
    }
}

/// The candidates folded into the result set, in fetch order.
pub open spec fn merge_seq(acc: Seq<ProfileView>, cands: Seq<ProfileView>) -> Seq<ProfileView>
    decreases cands.len(),
{
    if cands.len() == 0 {
        acc
    } else {
        merge_seq(merge_step(acc, cands[0]), cands.drop_first())
    }
}

/// The whole reconciliation: the manual profiles of the existing set are
/// kept as the seed, everything previously synced is dropped, and the
/// candidates are folded in.
pub open spec fn spec_merge(existing: Seq<ProfileView>, cands: Seq<ProfileView>) -> Seq<
    ProfileView,
> {
    merge_seq(manual_profiles(existing), cands)
}

/// What `find_match` finds: a position that matches, before which nothing
/// matches; or `-1`, and nothing matches anywhere.
pub proof fn lemma_find_match_props(s: Seq<ProfileView>, c_name: Seq<char>)
    ensures
        find_match(s, c_name) == -1 || 0 <= find_match(s, c_name) < s.len(),
        find_match(s, c_name) >= 0 ==> name_matches(s[find_match(s, c_name)].name, c_name),
        find_match(s, c_name) >= 0 ==> forall|k: int|
            0 <= k < find_match(s, c_name) ==> !name_matches(s[k].name, c_name),
        find_match(s, c_name) == -1 ==> forall|k: int|
            0 <= k < s.len() ==> !name_matches(s[k].name, c_name),
    decreases s.len(),
{
    if s.len() == 0 {
    } else if name_matches(s[0].name, c_name) {
    } else {
        let d = s.drop_first();
        lemma_find_match_props(d, c_name);
        let r = find_match(d, c_name);
        if r == -1 {
            assert forall|k: int| 0 <= k < s.len() implies !name_matches(s[k].name, c_name) by {
                if k > 0 {
                    assert(d[k - 1] == s[k]);
                }
            }
        } else {
            assert(s[r + 1] == d[r]);
            assert forall|k: int| 0 <= k < r + 1 implies !name_matches(s[k].name, c_name) by {
                if k > 0 {
                    assert(d[k - 1] == s[k]);
                }
            }
        }
    }
}

/// The first matching position determines `find_match`.
pub proof fn lemma_find_match_at(s: Seq<ProfileView>, c_name: Seq<char>, j: int)
    requires
        0 <= j < s.len(),
        name_matches(s[j].name, c_name),
        forall|k: int| 0 <= k < j ==> !name_matches(s[k].name, c_name),
    ensures
        find_match(s, c_name) == j,
{
    lemma_find_match_props(s, c_name);
}

/// When no position matches, `find_match` comes up empty.
pub proof fn lemma_find_match_absent(s: Seq<ProfileView>, c_name: Seq<char>)
    requires
        forall|k: int| 0 <= k < s.len() ==> !name_matches(s[k].name, c_name),
    ensures
        find_match(s, c_name) == -1,
{
    lemma_find_match_props(s, c_name);
}

/// A profile appended to the existing set is what `manual_profiles` sees
/// last.
proof fn lemma_manual_snoc(s: Seq<ProfileView>, i: int)
    requires
        0 <= i < s.len(),
    ensures
        manual_profiles(s.take(i + 1)) == (if is_manual(s[i]) {
            manual_profiles(s.take(i)).push(s[i])
        } else {
            manual_profiles(s.take(i))
        }),
{
    assert(s.take(i + 1).drop_last() =~= s.take(i));
    assert(s.take(i + 1).last() == s[i]);
}

/// Folding in one more candidate is one more `merge_step`.
proof fn lemma_merge_seq_snoc(acc: Seq<ProfileView>, cands: Seq<ProfileView>, c: ProfileView)
    ensures
        merge_seq(acc, cands.push(c)) == merge_step(merge_seq(acc, cands), c),
    decreases cands.len(),
{
    let s1 = cands.push(c);
    if cands.len() == 0 {
        assert(s1[0] == c);
        assert(s1.drop_first() =~= Seq::<ProfileView>::empty());
        assert(merge_seq(acc, s1) == merge_seq(merge_step(acc, c), s1.drop_first()));
        assert(merge_seq(merge_step(acc, c), s1.drop_first()) == merge_step(acc, c));
    } else {
        assert(s1[0] == cands[0]);
        assert(s1.drop_first() =~= cands.drop_first().push(c));
        assert(merge_seq(acc, s1) == merge_seq(merge_step(acc, cands[0]), s1.drop_first()));
        lemma_merge_seq_snoc(merge_step(acc, cands[0]), cands.drop_first(), c);
        assert(merge_seq(acc, cands) == merge_seq(merge_step(acc, cands[0]), cands.drop_first()));
    }
}

/// The position of the first profile in `acc` whose name matches the
/// candidate name `raw` (or its normalized form `norm`), if any.
fn find_match_in(acc: &Vec<Profile>, raw: &String, norm: &String) -> (r: Option<usize>)
    requires
        norm@ == normalized(raw@),
    ensures
        match r {
            Some(i) => i < acc.deep_view().len() && find_match(acc.deep_view(), raw@) == i,
            None => find_match(acc.deep_view(), raw@) == -1,
        },
{
    let mut j: usize = 0;
    while j < acc.len()
        invariant
            j <= acc@.len(),
            norm@ == normalized(raw@),
            forall|k: int| 0 <= k < j ==> !name_matches(acc.deep_view()[k].name, raw@),
        decreases acc@.len() - j,
    {
        let e = &acc[j];
        if e.name == *raw || e.name == *norm {
            proof {
                lemma_find_match_at(acc.deep_view(), raw@, j as int);
            }
            return Some(j);
        }
        j += 1;
    }
    proof {
        lemma_find_match_absent(acc.deep_view(), raw@);
    }
    None
}

/// Reconciles the existing profile set with a candidate list fetched from
/// the external source: manual profiles seed the result, each candidate
/// replaces the first entry matching its raw or normalized name — keeping
/// that entry's position — or is appended, stored under its normalized name
/// with the raw name as display name and synced provenance.
pub fn merge_profiles(existing: &Vec<Profile>, candidates: &Vec<Profile>) -> (r: Vec<Profile>)
    ensures
        r.deep_view() == spec_merge(existing.deep_view(), candidates.deep_view()),
{
    let mut acc: Vec<Profile> = Vec::new();
    let mut i: usize = 0;
    proof {
        assert(existing.deep_view().take(0) =~= Seq::<ProfileView>::empty());
        assert(acc.deep_view() =~= Seq::<ProfileView>::empty());
    }
    while i < existing.len()
        invariant
            i <= existing@.len(),
            acc.deep_view() == manual_profiles(existing.deep_view().take(i as int)),
        decreases existing@.len() - i,
    {
        let p = &existing[i];
        let keep = match p.source {
            Some(ProfileSource::Manual) => true,
            _ => false,
        };
        if keep {
            let c = p.clone();
            let ghost prev = acc;
            let ghost csnap = c;
            acc.push(c);
            proof {
                lemma_deep_view_push(prev, acc, csnap);
                lemma_manual_snoc(existing.deep_view(), i as int);
            }
        } else {
            proof {
                lemma_manual_snoc(existing.deep_view(), i as int);
            }
        }
        i += 1;
    }
    proof {
        assert(existing.deep_view().take(existing.deep_view().len() as int) =~= existing.deep_view());
    }
    let mut t: usize = 0;
    proof {
        assert(candidates.deep_view().take(0) =~= Seq::<ProfileView>::empty());
    }
    while t < candidates.len()
        invariant
            t <= candidates@.len(),
            acc.deep_view() == merge_seq(
                manual_profiles(existing.deep_view()),
                candidates.deep_view().take(t as int),
            ),
        decreases candidates@.len() - t,
    {
        let c = &candidates[t];
        let n = crate::profile::normalize_name(c.name.as_str());
        let found = find_match_in(&acc, &c.name, &n);
        let mut m = c.clone();
        m.display_name = Some(m.name.clone());
        m.name = n;
        m.source = Some(ProfileSource::CcSwitch);
        proof {
            assert(m@ == synced_form(candidates.deep_view()[t as int]));
        }
        let ghost prev = acc;
        let ghost msnap = m;
        match found {
            Some(j) => {
                acc.set(j, m);
                proof {
                    lemma_deep_view_set(prev, acc, j as int, msnap);
                }
            },
            None => {
                acc.push(m);
                proof {
                    lemma_deep_view_push(prev, acc, msnap);
                }
            },
        }
        proof {
            assert(candidates.deep_view().take(t + 1) =~= candidates.deep_view().take(
                t as int,
            ).push(candidates.deep_view()[t as int]));
            lemma_merge_seq_snoc(
                manual_profiles(existing.deep_view()),
                candidates.deep_view().take(t as int),
                candidates.deep_view()[t as int],
            );
        }
        t += 1;
    }
    proof {
        assert(candidates.deep_view().take(candidates.deep_view().len() as int)
            =~= candidates.deep_view());
    }
    acc
}

/// Law: the merge is deterministic — a fixed existing set and a fixed
/// candidate list, in a fixed order, determine one result; two runs agree
/// in name list and field contents alike.
pub proof fn lemma_merge_deterministic(
    existing: Seq<ProfileView>,
    cands: Seq<ProfileView>,
    r1: Seq<ProfileView>,
    r2: Seq<ProfileView>,
)
    requires
        r1 == spec_merge(existing, cands),
        r2 == spec_merge(existing, cands),
    ensures
        r1 == r2,
{
}

/// An entry that no candidate matches comes through the whole fold
/// unchanged.
proof fn lemma_unmatched_entry_survives(acc: Seq<ProfileView>, cands: Seq<ProfileView>, j: int)
    requires
        0 <= j < acc.len(),
        forall|t: int| 0 <= t < cands.len() ==> !name_matches(acc[j].name, cands[t].name),
    ensures
        merge_seq(acc, cands).len() >= acc.len(),
        merge_seq(acc, cands)[j] == acc[j],
    decreases cands.len(),
{
    if cands.len() == 0 {
    } else {
        let step = merge_step(acc, cands[0]);
        lemma_find_match_props(acc, cands[0].name);
        assert(step[j] == acc[j]);
        let d = cands.drop_first();
        assert forall|t: int| 0 <= t < d.len() implies !name_matches(step[j].name, d[t].name) by {
            assert(d[t] == cands[t + 1]);
        }
        lemma_unmatched_entry_survives(step, d, j);
    }
}

/// Law: manual preservation — a manually created profile survives a sync
/// untouched, at its seeded position, whenever no candidate's raw or
/// normalized name collides with its name. (On such a collision the
/// candidate replaces the entry in place, as `merge_step` states.)
pub proof fn lemma_manual_profile_survives(
    existing: Seq<ProfileView>,
    cands: Seq<ProfileView>,
    j: int,
)
    requires
        0 <= j < manual_profiles(existing).len(),
        forall|t: int|
            0 <= t < cands.len() ==> !name_matches(
                manual_profiles(existing)[j].name,
                cands[t].name,
            ),
    ensures
        spec_merge(existing, cands).len() >= manual_profiles(existing).len(),
        spec_merge(existing, cands)[j] == manual_profiles(existing)[j],
{
    lemma_unmatched_entry_survives(manual_profiles(existing), cands, j);
}

/// Whether the given profiles carry pairwise distinct names.
pub fn profile_names_unique_check(profiles: &Vec<Profile>) -> (r: bool)
    ensures
        r == profile_names_unique(profiles.deep_view()),
{
    let mut a: usize = 0;
    while a < profiles.len()
        invariant
            a <= profiles@.len(),
            forall|i: int, j: int|
                0 <= i < j < profiles.deep_view().len() && i < a ==> profiles.deep_view()[i].name
                    != profiles.deep_view()[j].name,
        decreases profiles@.len() - a,
    {
        let mut b: usize = a + 1;
        while b < profiles.len()
            invariant
                a < b || b == a + 1,
                a < profiles@.len(),
                b <= profiles@.len(),
                a + 1 <= b,
                forall|j: int|
                    a < j < b ==> profiles.deep_view()[a as int].name != profiles.deep_view()[j].name,
                forall|i: int, j: int|
                    0 <= i < j < profiles.deep_view().len() && i < a ==> profiles.deep_view()[i].name
                        != profiles.deep_view()[j].name,
            decreases profiles@.len() - b,
        {
            let pa = &profiles[a];
            let pb = &profiles[b];
            if pa.name == pb.name {
                proof {
                    assert(profiles.deep_view()[a as int].name == profiles.deep_view()[
                        b as int
                    ].name);
                }
                return false;
            }
            b += 1;
        }
        a += 1;
    }
    true
}

/// The outcome a sync reports: nothing to reconcile, or the number of
/// profiles now stored.
#[derive(Debug, PartialEq, Eq, Structural)]
pub enum SyncOutcome {
    NothingToDo,
    Updated(usize),
}

/// Reconciles the store with the candidates fetched from the external
/// source and persists the result: with no candidates the store is left
/// untouched and the sync reports nothing to do; otherwise the merged set
/// replaces the store wholesale, index order equal to merge order. In the
/// pathological case where the merge would index one name twice — a manual
/// profile named like another's normalized form — the store is left
/// untouched and the sync fails, keeping the index free of duplicates.
pub fn update_profiles(storage: &mut Storage, candidates: &Vec<Profile>) -> (r: Result<
    SyncOutcome,
    Error,
>)
    requires
        store_wf(old(storage)@),
    ensures
        store_wf(final(storage)@),
        final(storage)@.config_dir == old(storage)@.config_dir,
        candidates.deep_view().len() == 0 ==> r == Ok::<SyncOutcome, Error>(
            SyncOutcome::NothingToDo,
        ) && final(storage)@ == old(storage)@,
        candidates.deep_view().len() > 0 ==> ({
            let merged = spec_merge(
                readable_profiles(old(storage)@.entries),
                candidates.deep_view(),
            );
            if profile_names_unique(merged) {
                &&& (r matches Ok(o) && o matches SyncOutcome::Updated(k) && k == merged.len())
                &&& final(storage)@.entries == entries_of_profiles(merged)
            } else {
                &&& (r matches Err(e) && e@ matches ErrorView::ConfigError(_))
                &&& final(storage)@ == old(storage)@
            }
        }),
{
    if candidates.len() == 0 {
        return Ok(SyncOutcome::NothingToDo);
    }
    let existing = storage.load_profiles();
    let merged = merge_profiles(&existing, candidates);
    if !profile_names_unique_check(&merged) {
        return Err(
            Error::ConfigError(String::from_str("duplicate profile names after merge")),
        );
    }
    let count = merged.len();
    storage.save_profiles(&merged);
    Ok(SyncOutcome::Updated(count))
}

} // verus!
