//! What the application remembers about applied parameters: the
//! parameters of each monitor and the last profile used (both kept in the
//! configuration file), and the profile in effect now.

use vstd::prelude::*;
use crate::common::DisplayParams;
use crate::keyed::{keys_distinct, table_map, Table};

verus! {

/// The ids of a list of monitors, as texts.
pub open spec fn ids_view(ids: Seq<String>) -> Seq<Seq<char>> {
    ids.map_values(|m: String| m@)
}

/// The view of an optional text.
pub open spec fn opt_view(o: Option<String>) -> Option<Seq<char>> {
    match o {
        Some(s) => Some(s@),
        None => None,
    }
}

/// Applied parameters remembered per monitor, the last profile used, and
/// the profile in effect.
#[derive(Debug, PartialEq)]
pub struct Session {
    remembered: Table<DisplayParams>,
    last_profile: Option<String>,
    current: Option<String>,
}

impl Session {
    /// Remembered parameters by monitor id.
    pub closed spec fn memory(&self) -> Map<Seq<char>, DisplayParams> {
        self.remembered.map()
    }

    /// The last profile used (applied at the next start).
    pub closed spec fn last(&self) -> Option<Seq<char>> {
        opt_view(self.last_profile)
    }

    /// The profile in effect (`None`: parameters set by hand).
    pub closed spec fn in_effect(&self) -> Option<Seq<char>> {
        opt_view(self.current)
    }

    /// Nothing remembered, no profile.
    pub fn new() -> (r: Session)
        ensures
            r.memory() == Map::<Seq<char>, DisplayParams>::empty(),
            r.last() is None,
            r.in_effect() is None,
    {
        Session { remembered: Table::new(), last_profile: None, current: None }
    }

    /// A session as the configuration file stored it: the remembered
    /// entries (for an id given twice, the later entry) and the last
    /// profile; no profile in effect yet.
    pub fn from_saved(entries: &[(String, DisplayParams)], last_profile: Option<String>) -> (r: Session)
        ensures
            r.memory() == table_map(entries@),
            r.last() == opt_view(last_profile),
            r.in_effect() is None,
    {
        Session { remembered: Table::from_entries(entries), last_profile, current: None }
    }

    /// The remembered entries (each monitor id once).
    pub fn entries(&self) -> (r: Vec<(String, DisplayParams)>)
        ensures
            table_map(r@) == self.memory(),
            keys_distinct(r@),
    {
        self.remembered.entries()
    }

    /// The parameters remembered for a monitor.
    pub fn params_for(&self, monitor_id: &str) -> (r: Option<DisplayParams>)
        ensures
            r == (if self.memory().contains_key(monitor_id@) {
                Some(self.memory()[monitor_id@])
            } else {
                None
            }),
    {
        self.remembered.get(monitor_id)
    }

    /// Remembers the parameters of a monitor.
    pub fn remember(&mut self, monitor_id: &str, params: DisplayParams)
        ensures
            final(self).memory() == old(self).memory().insert(monitor_id@, params),
            final(self).last() == old(self).last(),
            final(self).in_effect() == old(self).in_effect(),
    {
        self.remembered.set(monitor_id, params);
    }

    /// Forgets the parameters of a monitor.
    pub fn forget(&mut self, monitor_id: &str)
        ensures
            final(self).memory() == old(self).memory().remove(monitor_id@),
            final(self).last() == old(self).last(),
            final(self).in_effect() == old(self).in_effect(),
    {
        self.remembered.remove(monitor_id);
    }

    /// Remembers the same parameters for every listed monitor.
    fn remember_all(&mut self, monitor_ids: &[String], params: DisplayParams)
        ensures
            forall|x: Seq<char>| #[trigger] final(self).memory().contains_key(x) <==> (old(self).memory().contains_key(x)
                || ids_view(monitor_ids@).contains(x)),
            forall|x: Seq<char>|
                #[trigger] final(self).memory().contains_key(x) ==> final(self).memory()[x] == if ids_view(monitor_ids@).contains(x) {
                    params
                } else {
                    old(self).memory()[x]
                },
            final(self).last() == old(self).last(),
            final(self).in_effect() == old(self).in_effect(),
    {
        let ghost ids = ids_view(monitor_ids@);
        let ghost start = self.memory();
        let mut i: usize = 0;
        while i < monitor_ids.len()
            invariant
                i <= monitor_ids@.len(),
                ids == ids_view(monitor_ids@),
                self.last() == old(self).last(),
                self.in_effect() == old(self).in_effect(),
                forall|x: Seq<char>| #[trigger] self.memory().contains_key(x) <==> (start.contains_key(x)
                    || ids.subrange(0, i as int).contains(x)),
                forall|x: Seq<char>|
                    #[trigger] self.memory().contains_key(x) ==> self.memory()[x] == if ids.subrange(
                        0,
                        i as int,
                    ).contains(x) {
                        params
                    } else {
                        start[x]
                    },
            decreases monitor_ids@.len() - i,
        {
            self.remember(monitor_ids[i].as_str(), params);
            proof {
                let now = ids.subrange(0, i as int + 1);
                assert(now =~= ids.subrange(0, i as int).push(ids[i as int]));
                assert forall|x: Seq<char>| now.contains(x) <==> (ids.subrange(0, i as int).contains(x) || x == ids[i as int]) by {
                    if now.contains(x) {
                        let j = choose|j: int| 0 <= j < now.len() && now[j] == x;
                        if j < i {
                            assert(ids.subrange(0, i as int)[j] == x);
                        }
                    }
                    if ids.subrange(0, i as int).contains(x) {
                        let j = choose|j: int| 0 <= j < i && ids.subrange(0, i as int)[j] == x;
                        assert(now[j] == x);
                    }
                    if x == ids[i as int] {
                        assert(now[i as int] == x);
                    }
                }
            }
            i = i + 1;
        }
        assert(ids.subrange(0, ids.len() as int) =~= ids);
    }

    /// A profile was applied to the listed monitors: each remembers the
    /// profile's parameters, the profile is in effect, and, with `persist`,
    /// it is the last profile used.
    pub fn profile_applied(&mut self, monitor_ids: &[String], params: DisplayParams, profile_id: &str, persist: bool)
        ensures
            forall|x: Seq<char>| #[trigger] final(self).memory().contains_key(x) <==> (old(self).memory().contains_key(x)
                || ids_view(monitor_ids@).contains(x)),
            forall|x: Seq<char>|
                #[trigger] final(self).memory().contains_key(x) ==> final(self).memory()[x] == if ids_view(monitor_ids@).contains(x) {
                    params
                } else {
                    old(self).memory()[x]
                },
            final(self).last() == if persist { Some(profile_id@) } else { old(self).last() },
            final(self).in_effect() == Some(profile_id@),
    {
        self.remember_all(monitor_ids, params);
        let ghost after = self.memory();
        if persist {
            self.last_profile = Some(String::from_str(profile_id));
        }
        self.current = Some(String::from_str(profile_id));
        assert(self.memory() == after);
    }

    /// The defaults were restored everywhere: nothing is remembered, and the
    /// default profile is in effect and the last one used.
    pub fn defaults_restored(&mut self)
        ensures
            final(self).memory() == Map::<Seq<char>, DisplayParams>::empty(),
            final(self).last() == Some("default"@),
            final(self).in_effect() == Some("default"@),
    {
        self.remembered.clear();
        self.last_profile = Some(String::from_str("default"));
        self.current = Some(String::from_str("default"));
    }

    /// A monitor was adjusted by hand: it remembers its parameters, and no
    /// profile is in effect or remembered as last used.
    pub fn monitor_adjusted(&mut self, monitor_id: &str, params: DisplayParams)
        ensures
            final(self).memory() == old(self).memory().insert(monitor_id@, params),
            final(self).last() is None,
            final(self).in_effect() is None,
    {
        self.remember(monitor_id, params);
        self.last_profile = None;
        self.current = None;
    }

    /// A monitor was restored to its original picture: it remembers
    /// nothing.
    pub fn monitor_restored(&mut self, monitor_id: &str)
        ensures
            final(self).memory() == old(self).memory().remove(monitor_id@),
            final(self).last() == old(self).last(),
            final(self).in_effect() == old(self).in_effect(),
    {
        self.forget(monitor_id);
    }

    /// The same parameters were applied to every listed monitor by hand:
    /// each remembers them, and no profile is in effect or remembered.
    pub fn all_synced(&mut self, monitor_ids: &[String], params: DisplayParams)
        ensures
            forall|x: Seq<char>| #[trigger] final(self).memory().contains_key(x) <==> (old(self).memory().contains_key(x)
                || ids_view(monitor_ids@).contains(x)),
            forall|x: Seq<char>|
                #[trigger] final(self).memory().contains_key(x) ==> final(self).memory()[x] == if ids_view(monitor_ids@).contains(x) {
                    params
                } else {
                    old(self).memory()[x]
                },
            final(self).last() is None,
            final(self).in_effect() is None,
    {
        self.remember_all(monitor_ids, params);
        let ghost after = self.memory();
        self.last_profile = None;
        self.current = None;
        assert(self.memory() == after);
    }

    /// The last profile used.
    pub fn last_profile_id(&self) -> (r: Option<String>)
        ensures
            opt_view(r) == self.last(),
    {
        match &self.last_profile {
            Some(p) => Some(p.clone()),
            None => None,
        }
    }

    /// The profile in effect.
    pub fn current_profile(&self) -> (r: Option<String>)
        ensures
            opt_view(r) == self.in_effect(),
    {
        match &self.current {
            Some(p) => Some(p.clone()),
            None => None,
        }
    }
}

/// Monitors are adjusted independently: once a monitor remembered new
/// parameters (by `remember` or `monitor_adjusted`), it recalls exactly them,
/// and every other monitor recalls what it did before.
pub proof fn law_monitors_independent(
    before: Session,
    after: Session,
    id: Seq<char>,
    params: DisplayParams,
    other: Seq<char>,
)
    requires
        after.memory() == before.memory().insert(id, params),
        other != id,
    ensures
        after.memory().contains_key(id),
        after.memory()[id] == params,
        after.memory().contains_key(other) == before.memory().contains_key(other),
        before.memory().contains_key(other) ==> after.memory()[other] == before.memory()[other],
{
}

impl Clone for Session {
    fn clone(&self) -> (r: Session)
        ensures
            r.memory() == self.memory(),
            r.last() == self.last(),
            r.in_effect() == self.in_effect(),
    {
        Session {
            remembered: self.remembered.clone(),
            last_profile: self.last_profile_id(),
            current: self.current_profile(),
        }
    }
}

} // verus!
