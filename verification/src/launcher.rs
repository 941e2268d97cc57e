use vstd::prelude::*;

use crate::views::lemma_deep_view_push;

verus! {

/// Glue toward the external executable. What this library can decide — the
/// argument list and the child environment — is computed here with exact
/// contracts; locating the executable and spawning the process belong to
/// the binary around the library.
pub struct Launcher;

/// Whether the key `k` occurs among the pairs of `env`.
pub open spec fn env_has_key(env: Seq<(Seq<char>, Seq<char>)>, k: Seq<char>) -> bool {
    exists|i: int| 0 <= i < env.len() && env[i].0 == k
}

/// Whether an inherited pair survives into the child environment: its key
/// is not the nesting marker `CLAUDECODE`, and the profile does not
/// override it.
pub open spec fn env_pair_kept(
    kv: (Seq<char>, Seq<char>),
    overrides: Seq<(Seq<char>, Seq<char>)>,
) -> bool {
    kv.0 != "CLAUDECODE"@ && !env_has_key(overrides, kv.0)
}

/// The inherited pairs that survive into the child environment, in order.
pub open spec fn kept_env(
    inherited: Seq<(Seq<char>, Seq<char>)>,
    overrides: Seq<(Seq<char>, Seq<char>)>,
) -> Seq<(Seq<char>, Seq<char>)>
    decreases inherited.len(),
{
    if inherited.len() == 0 {
        Seq::empty()
    } else {
        let rest = kept_env(inherited.drop_last(), overrides);
        if env_pair_kept(inherited.last(), overrides) {
            rest.push(inherited.last())
        } else {
            rest
        }
    }
}

/// A pair appended to the inherited environment is what `kept_env` sees
/// last.
proof fn lemma_kept_env_snoc(
    inherited: Seq<(Seq<char>, Seq<char>)>,
    overrides: Seq<(Seq<char>, Seq<char>)>,
    i: int,
)
    requires
        0 <= i < inherited.len(),
    ensures
        kept_env(inherited.take(i + 1), overrides) == (if env_pair_kept(
            inherited[i],
            overrides,
        ) {
            kept_env(inherited.take(i), overrides).push(inherited[i])
        } else {
            kept_env(inherited.take(i), overrides)
        }),
{
    assert(inherited.take(i + 1).drop_last() =~= inherited.take(i));
    assert(inherited.take(i + 1).last() == inherited[i]);
}

/// Whether `env` holds a pair whose key is `k`.
fn env_contains_key(env: &Vec<(String, String)>, k: &String) -> (r: bool)
    ensures
        r == env_has_key(env.deep_view(), k@),
{
    let mut j: usize = 0;
    while j < env.len()
        invariant
            j <= env@.len(),
            forall|m: int| 0 <= m < j ==> env.deep_view()[m].0 != k@,
        decreases env@.len() - j,
    {
        let e = &env[j];
        if e.0 == *k {
            proof {
                assert(env.deep_view()[j as int].0 == k@);
            }
            return true;
        }
        j += 1;
    }
    false
}

impl Launcher {
    /// The argument list handed to the executable: the settings flag with
    /// the profile's settings path, the permission-bypass flag when asked
    /// for, then the user's own arguments in order.
    pub fn build_args(settings_path: &str, bypass: bool, args: &Vec<String>) -> (r: Vec<String>)
        ensures
            r.deep_view() == seq!["--settings"@, settings_path@] + (if bypass {
                seq!["--dangerously-skip-permissions"@]
            } else {
                Seq::<Seq<char>>::empty()
            }) + args.deep_view(),
    {
        let ghost head = seq!["--settings"@, settings_path@] + (if bypass {
            seq!["--dangerously-skip-permissions"@]
        } else {
            Seq::<Seq<char>>::empty()
        });
        let mut r: Vec<String> = Vec::new();
        r.push(String::from_str("--settings"));
        r.push(settings_path.to_owned());
        if bypass {
            r.push(String::from_str("--dangerously-skip-permissions"));
        }
        proof {
            assert forall|k: int| 0 <= k < r@.len() implies r.deep_view()[k] == head[k] by {
            }
            assert(r.deep_view() =~= head);
        }
        let mut i: usize = 0;
        let ghost base = r@.len();
        while i < args.len()
            invariant
                i <= args@.len(),
                r@.len() == base + i,
                r.deep_view().take(base as int) == head,
                base == head.len(),
                forall|k: int| 0 <= k < i ==> r.deep_view()[base + k] == args.deep_view()[k],
            decreases args@.len() - i,
        {
            let c = args[i].clone();
            let ghost prev = r;
            let ghost csnap = c;
            r.push(c);
            proof {
                lemma_deep_view_push(prev, r, csnap);
                assert(r.deep_view().take(base as int) =~= prev.deep_view().take(base as int));
            }
            i += 1;
        }
        proof {
            assert forall|k: int| 0 <= k < r@.len() implies r.deep_view()[k] == (head
                + args.deep_view())[k] by {
                if k < base {
                    assert(r.deep_view().take(base as int)[k] == r.deep_view()[k]);
                }
            }
            assert(r.deep_view() =~= head + args.deep_view());
        }
        r
    }

    /// The child environment: the inherited pairs whose key is neither the
    /// nesting marker `CLAUDECODE` nor overridden by the profile, followed
    /// by the profile's own pairs — so the profile's values win on every
    /// key collision.
    pub fn merged_env(
        inherited: &Vec<(String, String)>,
        profile_env: &Vec<(String, String)>,
    ) -> (r: Vec<(String, String)>)
        ensures
            r.deep_view() == kept_env(inherited.deep_view(), profile_env.deep_view())
                + profile_env.deep_view(),
    {
        let marker = String::from_str("CLAUDECODE");
        let mut r: Vec<(String, String)> = Vec::new();
        let mut i: usize = 0;
        proof {
            assert(inherited.deep_view().take(0) =~= Seq::<(Seq<char>, Seq<char>)>::empty());
            assert(r.deep_view() =~= Seq::<(Seq<char>, Seq<char>)>::empty());
        }
        while i < inherited.len()
            invariant
                i <= inherited@.len(),
                marker@ == "CLAUDECODE"@,
                r.deep_view() == kept_env(
                    inherited.deep_view().take(i as int),
                    profile_env.deep_view(),
                ),
            decreases inherited@.len() - i,
        {
            let e = &inherited[i];
            let overridden = env_contains_key(profile_env, &e.0);
            if !(e.0 == marker) && !overridden {
                let c = (e.0.clone(), e.1.clone());
                let ghost prev = r;
                let ghost csnap = c;
                r.push(c);
                proof {
                    lemma_deep_view_push(prev, r, csnap);
                    lemma_kept_env_snoc(inherited.deep_view(), profile_env.deep_view(), i as int);
                }
            } else {
                proof {
                    lemma_kept_env_snoc(inherited.deep_view(), profile_env.deep_view(), i as int);
                }
            }
            i += 1;
        }
        proof {
            assert(inherited.deep_view().take(inherited.deep_view().len() as int)
                =~= inherited.deep_view());
        }
        let ghost kept = r.deep_view();
        let ghost base = r@.len();
        let mut j: usize = 0;
        while j < profile_env.len()
            invariant
                j <= profile_env@.len(),
                r@.len() == base + j,
                base == kept.len(),
                r.deep_view().take(base as int) == kept,
                forall|k: int| 0 <= k < j ==> r.deep_view()[base + k] == profile_env.deep_view()[k],
            decreases profile_env@.len() - j,
        {
            let e = &profile_env[j];
            let c = (e.0.clone(), e.1.clone());
            let ghost prev = r;
            let ghost csnap = c;
            r.push(c);
            proof {
                lemma_deep_view_push(prev, r, csnap);
                assert(r.deep_view().take(base as int) =~= prev.deep_view().take(base as int));
            }
            j += 1;
        }
        proof {
            assert forall|k: int| 0 <= k < r@.len() implies r.deep_view()[k] == (kept
                + profile_env.deep_view())[k] by {
                if k < base {
                    assert(r.deep_view().take(base as int)[k] == r.deep_view()[k]);
                }
            }
            assert(r.deep_view() =~= kept + profile_env.deep_view());
        }
        r
    }
}

} // verus!
