//! The store of the profile manager, as the manager reaches it: each call
//! goes through one method of [`StoreCalls`], which makes the call and
//! records it, with what was handed over and the answer, in a ghost log
//! that nothing else can write.

use vstd::prelude::*;
use crate::config::{Profile, ProfileView};
use crate::profile::{err_text, views, ProfileStore};

verus! {

/// A call made on the store: what was handed over and the answer (for the
/// calls that can fail, the store's error text; `None`: it succeeded).
pub enum StoreOp {
    /// `list_profiles`, with the profiles listed.
    List(Seq<ProfileView>),
    /// `save_profile` of the profile.
    Save(ProfileView, Option<Seq<char>>),
    /// `delete_profile` of the id.
    Delete(Seq<char>, Option<Seq<char>>),
    /// `parse_profile_json` of the text, with the profile read or the
    /// store's error text.
    Parse(Seq<char>, Result<ProfileView, Seq<char>>),
    /// `export_profile_json` of the profile, with the text written or the
    /// store's error text.
    Export(ProfileView, Result<Seq<char>, Seq<char>>),
}

/// The answer of a parse, as logged.
pub open spec fn parsed_of(r: Result<Profile, String>) -> Result<ProfileView, Seq<char>> {
    match r {
        Ok(p) => Ok(p@),
        Err(e) => Err(e@),
    }
}

/// The answer of an export, as logged.
pub open spec fn text_of(r: Result<String, String>) -> Result<Seq<char>, Seq<char>> {
    match r {
        Ok(t) => Ok(t@),
        Err(e) => Err(e@),
    }
}

/// The store, with the log of the calls made on it.
pub(crate) struct StoreCalls<S: ProfileStore> {
    store: S,
    log: Ghost<Seq<StoreOp>>,
}

impl<S: ProfileStore> StoreCalls<S> {
    /// The calls made so far, in order.
    pub(crate) closed spec fn calls(&self) -> Seq<StoreOp> {
        self.log@
    }

    /// The store, no call made yet.
    pub(crate) fn new(store: S) -> (r: Self)
        ensures
            r.calls() == Seq::<StoreOp>::empty(),
    {
        StoreCalls { store, log: Ghost(Seq::empty()) }
    }

    /// Calls `ProfileStore::list_profiles`; logged with the profiles listed.
    pub(crate) fn list_profiles(&mut self) -> (r: Vec<Profile>)
        ensures
            final(self).calls() == old(self).calls().push(StoreOp::List(views(r@))),
    {
        let r = self.store.list_profiles();
        proof {
            self.log@ = self.log@.push(StoreOp::List(views(r@)));
        }
        r
    }

    /// Calls `ProfileStore::save_profile` with the profile; logged with the
    /// answer.
    pub(crate) fn save_profile(&mut self, profile: &Profile) -> (r: Result<(), String>)
        ensures
            final(self).calls() == old(self).calls().push(StoreOp::Save(profile@, err_text(r))),
    {
        let r = self.store.save_profile(profile);
        proof {
            self.log@ = self.log@.push(StoreOp::Save(profile@, err_text(r)));
        }
        r
    }

    /// Calls `ProfileStore::delete_profile` with the id; logged with the
    /// answer.
    pub(crate) fn delete_profile(&mut self, id: &str) -> (r: Result<(), String>)
        ensures
            final(self).calls() == old(self).calls().push(StoreOp::Delete(id@, err_text(r))),
    {
        let r = self.store.delete_profile(id);
        proof {
            self.log@ = self.log@.push(StoreOp::Delete(id@, err_text(r)));
        }
        r
    }

    /// Calls `ProfileStore::parse_profile_json` with the text; logged with
    /// the answer.
    pub(crate) fn parse_profile_json(&mut self, json: &str) -> (r: Result<Profile, String>)
        ensures
            final(self).calls() == old(self).calls().push(StoreOp::Parse(json@, parsed_of(r))),
    {
        let r = self.store.parse_profile_json(json);
        proof {
            self.log@ = self.log@.push(StoreOp::Parse(json@, parsed_of(r)));
        }
        r
    }

    /// Calls `ProfileStore::export_profile_json` with the profile; logged
    /// with the answer.
    pub(crate) fn export_profile_json(&mut self, profile: &Profile) -> (r: Result<String, String>)
        ensures
            final(self).calls() == old(self).calls().push(StoreOp::Export(profile@, text_of(r))),
    {
        let r = self.store.export_profile_json(profile);
        proof {
            self.log@ = self.log@.push(StoreOp::Export(profile@, text_of(r)));
        }
        r
    }
}

} // verus!
