use vstd::prelude::*;

use crate::error::{Error, ErrorView};
use crate::profile::{valid_name, Profile, ProfileView};
use crate::views::{lemma_deep_view_push, lemma_deep_view_remove, lemma_deep_view_set};

verus! {

/// One slot of the store: an indexed name, and the profile read from that
/// name's settings file — `None` when the file was missing or unreadable,
/// so that a known-but-unreadable profile stays distinct from one that never
/// existed.
pub struct Entry {
    pub name: String,
    pub profile: Option<Profile>,
}

pub struct EntryView {
    pub name: Seq<char>,
    pub profile: Option<ProfileView>,
}

impl View for Entry {
    type V = EntryView;

    open spec fn view(&self) -> EntryView {
        EntryView { name: self.name@, profile: self.profile.deep_view() }
    }
}

impl DeepView for Entry {
    type V = EntryView;

    open spec fn deep_view(&self) -> EntryView {
        self.view()
    }
}

/// The profile store: the configuration directory it lives under, and the
/// indexed entries in index order. The index order is the user-visible order
/// of the profiles, independent of how a filesystem would enumerate them.
pub struct Storage {
    config_dir: String,
    entries: Vec<Entry>,
}

pub struct StorageView {
    pub config_dir: Seq<char>,
    pub entries: Seq<EntryView>,
}

impl View for Storage {
    type V = StorageView;

    closed spec fn view(&self) -> StorageView {
        StorageView { config_dir: self.config_dir@, entries: self.entries.deep_view() }
    }
}

/// The position of the first entry named `n`, or `-1` when no entry is.
pub open spec fn find_name(s: Seq<EntryView>, n: Seq<char>) -> int
    decreases s.len(),
{
    if s.len() == 0 {
        -1
    } else if s[0].name == n {
        0
    } else {
        let r = find_name(s.drop_first(), n);
        if r == -1 {
            -1
        } else {
            r + 1
        }
    }
}

/// Whether the index holds the name `n`.
pub open spec fn contains_name(s: Seq<EntryView>, n: Seq<char>) -> bool {
    find_name(s, n) != -1
}

/// What `get` yields for the name `n`: the profile of the first entry named
/// `n`, absent when the name is not indexed or its file was unreadable.
pub open spec fn lookup(s: Seq<EntryView>, n: Seq<char>) -> Option<ProfileView> {
    if contains_name(s, n) {
        s[find_name(s, n)].profile
    } else {
        None
    }
}

/// The indexed names, in index order.
pub open spec fn index_names(s: Seq<EntryView>) -> Seq<Seq<char>> {
    s.map_values(|e: EntryView| e.name)
}

/// The profiles that load successfully, in index order.
pub open spec fn readable_profiles(s: Seq<EntryView>) -> Seq<ProfileView>
    decreases s.len(),
{
    if s.len() == 0 {
        Seq::empty()
    } else {
        let rest = readable_profiles(s.drop_last());
        match s.last().profile {
            Some(p) => rest.push(p),
            None => rest,
        }
    }
}

/// The store's invariant: indexed names are unique, and a readable entry
/// holds a profile whose own name agrees with the index.
pub open spec fn store_wf(s: StorageView) -> bool {
    &&& forall|i: int, j: int|
        0 <= i < j < s.entries.len() ==> s.entries[i].name != s.entries[j].name
    &&& forall|i: int|
        0 <= i < s.entries.len() ==> match #[trigger] s.entries[i].profile {
            Some(p) => p.name == s.entries[i].name,
            None => true,
        }
}

/// What `find_name` finds: a position that carries the name, before which
/// the name does not occur; or `-1`, and the name occurs nowhere.
pub proof fn lemma_find_name_props(s: Seq<EntryView>, n: Seq<char>)
    ensures
        find_name(s, n) == -1 || 0 <= find_name(s, n) < s.len(),
        find_name(s, n) >= 0 ==> s[find_name(s, n)].name == n,
        find_name(s, n) >= 0 ==> forall|k: int| 0 <= k < find_name(s, n) ==> s[k].name != n,
        find_name(s, n) == -1 ==> forall|k: int| 0 <= k < s.len() ==> s[k].name != n,
    decreases s.len(),
{
    if s.len() == 0 {
    } else if s[0].name == n {
    } else {
        let d = s.drop_first();
        lemma_find_name_props(d, n);
        let r = find_name(d, n);
        if r == -1 {
            assert forall|k: int| 0 <= k < s.len() implies s[k].name != n by {
                if k > 0 {
                    assert(d[k - 1] == s[k]);
                }
            }
        } else {
            assert(s[r + 1] == d[r]);
            assert forall|k: int| 0 <= k < r + 1 implies s[k].name != n by {
                if k > 0 {
                    assert(d[k - 1] == s[k]);
                }
            }
        }
    }
}

/// The first occurrence of a name determines `find_name`.
pub proof fn lemma_find_name_at(s: Seq<EntryView>, n: Seq<char>, j: int)
    requires
        0 <= j < s.len(),
        s[j].name == n,
        forall|k: int| 0 <= k < j ==> s[k].name != n,
    ensures
        find_name(s, n) == j,
{
    lemma_find_name_props(s, n);
}

/// A name that occurs nowhere is not found.
pub proof fn lemma_find_name_absent(s: Seq<EntryView>, n: Seq<char>)
    requires
        forall|k: int| 0 <= k < s.len() ==> s[k].name != n,
    ensures
        find_name(s, n) == -1,
{
    lemma_find_name_props(s, n);
}

/// The entry that loading records for a name: the parsed profile when its
/// own name agrees with the index, otherwise an unreadable slot.
pub open spec fn loaded_entry(name: Seq<char>, profile: Option<ProfileView>) -> EntryView {
    EntryView {
        name: name,
        profile: match profile {
            Some(p) => if p.name == name {
                Some(p)
            } else {
                None
            },
            None => None,
        },
    }
}

/// The profile as `update` stores it: the given fields, the creation time of
/// what was stored before (a profile's creation time never changes after its
/// first save), and a fresh modification time.
pub open spec fn updated_profile(p: ProfileView, prev: Option<ProfileView>, now_ms: i64) -> ProfileView {
    ProfileView {
        created_at: match prev {
            Some(q) => q.created_at,
            None => p.created_at,
        },
        updated_at: now_ms,
        ..p
    }
}

/// The profile as `rename` stores it: the new name, the display name renamed
/// along when one was set, and a fresh modification time.
pub open spec fn renamed_profile(p: ProfileView, new_name: Seq<char>, now_ms: i64) -> ProfileView {
    ProfileView {
        name: new_name,
        display_name: match p.display_name {
            Some(_) => Some(new_name),
            None => None,
        },
        updated_at: now_ms,
        ..p
    }
}

/// The entries that persisting a full profile list produces: one readable
/// entry per profile, in list order.
pub open spec fn entries_of_profiles(ps: Seq<ProfileView>) -> Seq<EntryView> {
    ps.map_values(|p: ProfileView| EntryView { name: p.name, profile: Some(p) })
}

/// Whether the profiles in `ps` carry pairwise distinct names.
pub open spec fn profile_names_unique(ps: Seq<ProfileView>) -> bool {
    forall|i: int, j: int| 0 <= i < j < ps.len() ==> ps[i].name != ps[j].name
}

impl Storage {
    /// A store over the given configuration directory, with nothing loaded.
    pub fn new(config_dir: String) -> (s: Storage)
        ensures
            s@.config_dir == config_dir@,
            s@.entries == Seq::<EntryView>::empty(),
            store_wf(s@),
    {
        let s = Storage { config_dir, entries: Vec::new() };
        proof {
            assert(s.entries.deep_view() =~= Seq::<EntryView>::empty());
        }
        s
    }

    /// The configuration directory this store lives under.
    pub fn config_dir(&self) -> (r: &str)
        ensures
            r@ == self@.config_dir,
    {
        self.config_dir.as_str()
    }

    /// The path of the name index file.
    pub fn profiles_path(&self) -> (r: String)
        ensures
            r@ == self@.config_dir + "/ccuse.json"@,
    {
        let mut s = self.config_dir.clone();
        s.append("/ccuse.json");
        s
    }

    /// The directory that holds one profile's settings file.
    pub fn profile_settings_dir(&self, profile_name: &str) -> (r: String)
        ensures
            r@ == self@.config_dir + "/"@ + profile_name@,
    {
        let mut s = self.config_dir.clone();
        s.append("/");
        s.append(profile_name);
        s
    }

    /// The path of one profile's settings file.
    pub fn profile_settings_path(&self, profile_name: &str) -> (r: String)
        ensures
            r@ == self@.config_dir + "/"@ + profile_name@ + "/settings.json"@,
    {
        let mut s = self.profile_settings_dir(profile_name);
        s.append("/settings.json");
        s
    }

    /// The position of the entry named `name`, if any.
    fn find_entry(&self, name: &str) -> (r: Option<usize>)
        ensures
            match r {
                Some(i) => i < self@.entries.len() && find_name(self@.entries, name@) == i,
                None => find_name(self@.entries, name@) == -1,
            },
    {
        let wanted = name.to_owned();
        let mut j: usize = 0;
        while j < self.entries.len()
            invariant
                j <= self.entries@.len(),
                wanted@ == name@,
                forall|k: int| 0 <= k < j ==> self@.entries[k].name != name@,
            decreases self.entries@.len() - j,
        {
            if self.entries[j].name == wanted {
                proof {
                    lemma_find_name_at(self@.entries, name@, j as int);
                }
                return Some(j);
            }
            j += 1;
        }
        proof {
            lemma_find_name_absent(self@.entries, name@);
        }
        None
    }

    /// Records what loading found for one indexed name: the name and, when
    /// its settings file parsed into a profile of the same name, that
    /// profile. A name that is already indexed is skipped, and a profile
    /// whose own name disagrees with the index is recorded as unreadable;
    /// both keep the store's invariant across arbitrary on-disk content.
    pub fn load_entry(&mut self, name: String, profile: Option<Profile>)
        requires
            store_wf(old(self)@),
        ensures
            store_wf(final(self)@),
            final(self)@.config_dir == old(self)@.config_dir,
            contains_name(old(self)@.entries, name@) ==> final(self)@.entries == old(
                self,
            )@.entries,
            !contains_name(old(self)@.entries, name@) ==> final(self)@.entries == old(
                self,
            )@.entries.push(loaded_entry(name@, profile.deep_view())),
    {
        let found = self.find_entry(name.as_str());
        match found {
            Some(_) => {},
            None => {
                proof {
                    lemma_find_name_props(self@.entries, name@);
                }
                let stored: Option<Profile> = match profile {
                    Some(p) => {
                        if p.name == name {
                            Some(p)
                        } else {
                            None
                        }
                    },
                    None => None,
                };
                let ghost prev = self.entries;
                let e = Entry { name, profile: stored };
                let ghost esnap = e;
                self.entries.push(e);
                proof {
                    lemma_deep_view_push(prev, self.entries, esnap);
                }
            },
        }
    }

    /// The profile stored under `name`: absent when the name is not indexed,
    /// and also — the tolerant read — when its settings file was unreadable.
    pub fn get_profile(&self, name: &str) -> (r: Option<Profile>)
        requires
            store_wf(self@),
        ensures
            r.deep_view() == lookup(self@.entries, name@),
            r matches Some(p) ==> p@.name == name@,
    {
        proof {
            lemma_find_name_props(self@.entries, name@);
        }
        match self.find_entry(name) {
            Some(i) => {
                let e = &self.entries[i];
                match &e.profile {
                    Some(p) => {
                        let c = p.clone();
                        Some(c)
                    },
                    None => None,
                }
            },
            None => None,
        }
    }

    /// All profiles that load, in index order; unreadable entries are
    /// skipped, never fatal to the call.
    pub fn load_profiles(&self) -> (r: Vec<Profile>)
        requires
            store_wf(self@),
        ensures
            r.deep_view() == readable_profiles(self@.entries),
    {
        let mut r: Vec<Profile> = Vec::new();
        let mut i: usize = 0;
        proof {
            assert(self@.entries.take(0) =~= Seq::<EntryView>::empty());
            assert(r.deep_view() =~= Seq::<ProfileView>::empty());
        }
        while i < self.entries.len()
            invariant
                i <= self.entries@.len(),
                r.deep_view() == readable_profiles(self@.entries.take(i as int)),
            decreases self.entries@.len() - i,
        {
            let e = &self.entries[i];
            match &e.profile {
                Some(p) => {
                    let c = p.clone();
                    let ghost prev = r;
                    let ghost csnap = c;
                    r.push(c);
                    proof {
                        lemma_deep_view_push(prev, r, csnap);
                        lemma_readable_snoc(self@.entries, i as int);
                    }
                },
                None => {
                    proof {
                        lemma_readable_snoc(self@.entries, i as int);
                    }
                },
            }
            i += 1;
        }
        proof {
            assert(self@.entries.take(self@.entries.len() as int) =~= self@.entries);
        }
        r
    }

    /// The indexed names, in index order.
    pub fn profile_names(&self) -> (r: Vec<String>)
        ensures
            r.deep_view() == index_names(self@.entries),
    {
        let mut r: Vec<String> = Vec::new();
        let mut i: usize = 0;
        while i < self.entries.len()
            invariant
                i <= self.entries@.len(),
                r@.len() == i,
                forall|k: int| 0 <= k < i ==> r@[k]@ == self@.entries[k].name,
            decreases self.entries@.len() - i,
        {
            let e = &self.entries[i];
            r.push(e.name.clone());
            i += 1;
        }
        proof {
            assert forall|k: int| 0 <= k < r@.len() implies r.deep_view()[k] == index_names(
                self@.entries,
            )[k] by {
                assert(r@[k]@ == self@.entries[k].name);
            }
            assert(r.deep_view() =~= index_names(self@.entries));
        }
        r
    }

    /// The persisted form of the index: the indexed names as a JSON array,
    /// in index order.
    pub fn index_json(&self) -> (r: String)
        ensures
            r@ == crate::jsontext::name_list_json(index_names(self@.entries)),
    {
        let names = self.profile_names();
        crate::jsontext::name_list_to_json(&names)
    }

    /// Appends a new profile. Fails, and changes nothing, when the name is
    /// already indexed — even for an unreadable entry, whose name stays
    /// reserved.
    pub fn add_profile(&mut self, profile: Profile) -> (r: Result<(), Error>)
        requires
            store_wf(old(self)@),
            valid_name(profile@.name),
        ensures
            store_wf(final(self)@),
            final(self)@.config_dir == old(self)@.config_dir,
            r is Ok <==> !contains_name(old(self)@.entries, profile@.name),
            r is Ok ==> final(self)@.entries == old(self)@.entries.push(
                EntryView { name: profile@.name, profile: Some(profile@) },
            ),
            r is Err ==> final(self)@ == old(self)@,
            r is Err ==> (r matches Err(e) && e@ == ErrorView::ProfileAlreadyExists(
                profile@.name,
            )),
    {
        match self.find_entry(profile.name.as_str()) {
            Some(_) => Err(Error::ProfileAlreadyExists(profile.name.clone())),
            None => {
                proof {
                    lemma_find_name_props(old(self)@.entries, profile@.name);
                }
                let nm = profile.name.clone();
                let ghost prev = self.entries;
                let e = Entry { name: nm, profile: Some(profile) };
                let ghost esnap = e;
                self.entries.push(e);
                proof {
                    lemma_deep_view_push(prev, self.entries, esnap);
                }
                Ok(())
            },
        }
    }

    /// Overwrites the stored profile of an already-indexed name, keeping its
    /// index position and its original creation time, and stamping `now_ms`
    /// as the modification time. Fails, and changes nothing, when the name
    /// is not indexed.
    pub fn update_profile(&mut self, profile: Profile, now_ms: i64) -> (r: Result<(), Error>)
        requires
            store_wf(old(self)@),
        ensures
            store_wf(final(self)@),
            final(self)@.config_dir == old(self)@.config_dir,
            r is Ok <==> contains_name(old(self)@.entries, profile@.name),
            r is Err ==> final(self)@ == old(self)@ && (r matches Err(e) && e@
                == ErrorView::ProfileNotFound(profile@.name)),
            r is Ok ==> final(self)@.entries == old(self)@.entries.update(
                find_name(old(self)@.entries, profile@.name),
                EntryView {
                    name: profile@.name,
                    profile: Some(
                        updated_profile(
                            profile@,
                            old(self)@.entries[find_name(old(self)@.entries, profile@.name)].profile,
                            now_ms,
                        ),
                    ),
                },
            ),
    {
        match self.find_entry(profile.name.as_str()) {
            None => Err(Error::ProfileNotFound(profile.name.clone())),
            Some(j) => {
                proof {
                    lemma_find_name_props(old(self)@.entries, profile@.name);
                }
                let e = &self.entries[j];
                let created = match &e.profile {
                    Some(q) => q.created_at,
                    None => profile.created_at,
                };
                let mut p2 = profile;
                p2.created_at = created;
                p2.updated_at = now_ms;
                let nm = p2.name.clone();
                let ghost prev = self.entries;
                let newe = Entry { name: nm, profile: Some(p2) };
                let ghost esnap = newe;
                self.entries.set(j, newe);
                proof {
                    lemma_deep_view_set(prev, self.entries, j as int, esnap);
                }
                Ok(())
            },
        }
    }

    /// Takes the named profile out of the index, keeping the order of the
    /// others. Fails, and changes nothing, when the name is not indexed.
    pub fn remove_profile(&mut self, name: &str) -> (r: Result<(), Error>)
        requires
            store_wf(old(self)@),
        ensures
            store_wf(final(self)@),
            final(self)@.config_dir == old(self)@.config_dir,
            r is Ok <==> contains_name(old(self)@.entries, name@),
            r is Err ==> final(self)@ == old(self)@ && (r matches Err(e) && e@
                == ErrorView::ProfileNotFound(name@)),
            r is Ok ==> final(self)@.entries == old(self)@.entries.remove(
                find_name(old(self)@.entries, name@),
            ),
    {
        match self.find_entry(name) {
            None => Err(Error::ProfileNotFound(name.to_owned())),
            Some(j) => {
                proof {
                    lemma_find_name_props(old(self)@.entries, name@);
                }
                let ghost prev = self.entries;
                self.entries.remove(j);
                proof {
                    lemma_deep_view_remove(prev, self.entries, j as int);
                    old(self)@.entries.remove_ensures(j as int);
                    let oe = old(self)@.entries;
                    let ne = final(self)@.entries;
                    assert forall|a: int, b: int| 0 <= a < b < ne.len() implies ne[a].name
                        != ne[b].name by {
                        let a0 = if a < j { a } else { a + 1 };
                        let b0 = if b < j { b } else { b + 1 };
                        assert(ne[a] == oe[a0]);
                        assert(ne[b] == oe[b0]);
                    }
                    assert forall|a: int| 0 <= a < ne.len() implies (match #[trigger] ne[a].profile {
                        Some(p) => p.name == ne[a].name,
                        None => true,
                    }) by {
                        let a0 = if a < j { a } else { a + 1 };
                        assert(ne[a] == oe[a0]);
                    }
                }
                Ok(())
            },
        }
    }

    /// Empties the store, returning the names that were indexed so the
    /// caller can retire their directories. On an already-empty store this
    /// is a no-op that returns no names.
    pub fn remove_all_profiles(&mut self) -> (removed: Vec<String>)
        requires
            store_wf(old(self)@),
        ensures
            store_wf(final(self)@),
            final(self)@.config_dir == old(self)@.config_dir,
            final(self)@.entries == Seq::<EntryView>::empty(),
            removed.deep_view() == index_names(old(self)@.entries),
    {
        let removed = self.profile_names();
        self.entries.clear();
        proof {
            assert(self.entries.deep_view() =~= Seq::<EntryView>::empty());
        }
        removed
    }

    /// Renames an indexed, readable profile in place: the entry keeps its
    /// index position, the stored profile takes the new name (and the new
    /// display name, when one was set), and `now_ms` becomes its
    /// modification time. Fails with `ProfileNotFound` when `old_name` has
    /// no readable profile, and with `ProfileAlreadyExists` when `new_name`
    /// is already indexed; either way nothing changes.
    pub fn rename_profile(&mut self, old_name: &str, new_name: &str, now_ms: i64) -> (r: Result<
        (),
        Error,
    >)
        requires
            store_wf(old(self)@),
            valid_name(new_name@),
        ensures
            store_wf(final(self)@),
            final(self)@.config_dir == old(self)@.config_dir,
            r is Ok <==> (lookup(old(self)@.entries, old_name@) is Some && !contains_name(
                old(self)@.entries,
                new_name@,
            )),
            lookup(old(self)@.entries, old_name@) is None ==> (r matches Err(e) && e@
                == ErrorView::ProfileNotFound(old_name@)),
            lookup(old(self)@.entries, old_name@) is Some && contains_name(
                old(self)@.entries,
                new_name@,
            ) ==> (r matches Err(e) && e@ == ErrorView::ProfileAlreadyExists(new_name@)),
            r is Err ==> final(self)@ == old(self)@,
            r is Ok ==> final(self)@.entries == old(self)@.entries.update(
                find_name(old(self)@.entries, old_name@),
                EntryView {
                    name: new_name@,
                    profile: Some(
                        renamed_profile(
                            lookup(old(self)@.entries, old_name@)->Some_0,
                            new_name@,
                            now_ms,
                        ),
                    ),
                },
            ),
    {
        proof {
            lemma_find_name_props(old(self)@.entries, old_name@);
        }
        let j = match self.find_entry(old_name) {
            None => {
                return Err(Error::ProfileNotFound(old_name.to_owned()));
            },
            Some(j) => j,
        };
        let prev_profile = {
            let e = &self.entries[j];
            match &e.profile {
                None => {
                    return Err(Error::ProfileNotFound(old_name.to_owned()));
                },
                Some(p) => p.clone(),
            }
        };
        match self.find_entry(new_name) {
            Some(_) => Err(Error::ProfileAlreadyExists(new_name.to_owned())),
            None => {
                proof {
                    lemma_find_name_props(old(self)@.entries, new_name@);
                }
                let mut p2 = prev_profile;
                p2.name = new_name.to_owned();
                if p2.display_name.is_some() {
                    p2.display_name = Some(new_name.to_owned());
                }
                p2.updated_at = now_ms;
                let nm = new_name.to_owned();
                let ghost prev = self.entries;
                let newe = Entry { name: nm, profile: Some(p2) };
                let ghost esnap = newe;
                self.entries.set(j, newe);
                proof {
                    lemma_deep_view_set(prev, self.entries, j as int, esnap);
                }
                Ok(())
            },
        }
    }

    /// Replaces the whole store with the given profiles, every one readable,
    /// index order equal to list order. The names must be pairwise distinct:
    /// each profile gets its own settings file, and the index lists each
    /// name once.
    pub fn save_profiles(&mut self, profiles: &Vec<Profile>)
        requires
            store_wf(old(self)@),
            profile_names_unique(profiles.deep_view()),
        ensures
            store_wf(final(self)@),
            final(self)@.config_dir == old(self)@.config_dir,
            final(self)@.entries == entries_of_profiles(profiles.deep_view()),
    {
        let mut new_entries: Vec<Entry> = Vec::new();
        let mut i: usize = 0;
        while i < profiles.len()
            invariant
                i <= profiles@.len(),
                new_entries@.len() == i,
                forall|k: int| 0 <= k < i ==> #[trigger] new_entries@[k]@ == entries_of_profiles(
                    profiles.deep_view(),
                )[k],
            decreases profiles@.len() - i,
        {
            let p = &profiles[i];
            let c = p.clone();
            let nm = c.name.clone();
            new_entries.push(Entry { name: nm, profile: Some(c) });
            i += 1;
        }
        self.entries = new_entries;
        proof {
            let ev = entries_of_profiles(profiles.deep_view());
            assert forall|k: int| 0 <= k < self.entries@.len() implies self.entries.deep_view()[k]
                == ev[k] by {
                assert(self.entries@[k]@ == ev[k]);
            }
            assert(self.entries.deep_view() =~= ev);
            assert forall|a: int, b: int| 0 <= a < b < ev.len() implies ev[a].name != ev[b].name by {
                assert(profiles.deep_view()[a].name != profiles.deep_view()[b].name);
            }
        }
    }
}

/// Law: adding a profile under a name the index does not hold makes that
/// name look up exactly the profile that was added — `get` after a
/// successful `add` returns the stored value unchanged.
pub proof fn lemma_add_then_get(s: Seq<EntryView>, p: ProfileView)
    requires
        !contains_name(s, p.name),
    ensures
        lookup(s.push(EntryView { name: p.name, profile: Some(p) }), p.name) == Some(p),
{
    lemma_find_name_props(s, p.name);
    let s2 = s.push(EntryView { name: p.name, profile: Some(p) });
    assert forall|k: int| 0 <= k < s.len() implies s2[k].name != p.name by {
        assert(s2[k] == s[k]);
    }
    lemma_find_name_at(s2, p.name, s.len() as int);
}

/// Law: after a name is removed, looking it up yields absence, and the
/// index no longer carries the name.
pub proof fn lemma_remove_then_get(s: Seq<EntryView>, n: Seq<char>)
    requires
        forall|i: int, j: int| 0 <= i < j < s.len() ==> s[i].name != s[j].name,
        contains_name(s, n),
    ensures
        lookup(s.remove(find_name(s, n)), n) is None,
        !index_names(s.remove(find_name(s, n))).contains(n),
{
    let j = find_name(s, n);
    lemma_find_name_props(s, n);
    s.remove_ensures(j);
    let s2 = s.remove(j);
    assert forall|k: int| 0 <= k < s2.len() implies s2[k].name != n by {
        let k0 = if k < j {
            k
        } else {
            k + 1
        };
        assert(s2[k] == s[k0]);
    }
    lemma_find_name_absent(s2, n);
    assert forall|k: int| 0 <= k < index_names(s2).len() implies index_names(s2)[k] != n by {
        assert(index_names(s2)[k] == s2[k].name);
    }
}

/// Law: after a rename, the old name looks up to absence and the new name
/// looks up to a profile whose own name is the new name.
pub proof fn lemma_rename_then_get(
    s: Seq<EntryView>,
    old_n: Seq<char>,
    new_n: Seq<char>,
    now_ms: i64,
)
    requires
        forall|i: int, j: int| 0 <= i < j < s.len() ==> s[i].name != s[j].name,
        lookup(s, old_n) is Some,
        !contains_name(s, new_n),
    ensures
        ({
            let j = find_name(s, old_n);
            let p = lookup(s, old_n)->Some_0;
            let q = renamed_profile(p, new_n, now_ms);
            let s2 = s.update(j, EntryView { name: new_n, profile: Some(q) });
            &&& lookup(s2, old_n) is None
            &&& lookup(s2, new_n) == Some(q)
            &&& q.name == new_n
        }),
{
    let j = find_name(s, old_n);
    lemma_find_name_props(s, old_n);
    lemma_find_name_props(s, new_n);
    let p = lookup(s, old_n)->Some_0;
    let q = renamed_profile(p, new_n, now_ms);
    let s2 = s.update(j, EntryView { name: new_n, profile: Some(q) });
    assert forall|k: int| 0 <= k < s2.len() implies s2[k].name != old_n by {
        if k != j {
            assert(s2[k] == s[k]);
        }
    }
    lemma_find_name_absent(s2, old_n);
    assert forall|k: int| 0 <= k < j implies s2[k].name != new_n by {
        assert(s2[k] == s[k]);
    }
    lemma_find_name_at(s2, new_n, j);
}

/// Law: emptying an already-empty store is a no-op — the second call of
/// `remove_all_profiles` finds an empty index, removes nothing and reports
/// no names.
pub proof fn lemma_remove_all_idempotent(s: StorageView)
    requires
        s.entries == Seq::<EntryView>::empty(),
    ensures
        index_names(s.entries) == Seq::<Seq<char>>::empty(),
{
    assert(index_names(s.entries) =~= Seq::<Seq<char>>::empty());
}

/// An element appended to the index is what `readable_profiles` sees last.
proof fn lemma_readable_snoc(s: Seq<EntryView>, i: int)
    requires
        0 <= i < s.len(),
    ensures
        readable_profiles(s.take(i + 1)) == (match s[i].profile {
            Some(p) => readable_profiles(s.take(i)).push(p),
            None => readable_profiles(s.take(i)),
        }),
{
    assert(s.take(i + 1).drop_last() =~= s.take(i));
    assert(s.take(i + 1).last() == s[i]);
}

} // verus!
