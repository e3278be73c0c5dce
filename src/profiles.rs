//! Named client profiles: for each name, the remote server, the shared secret
//! and the local origin. Reading and writing the store's file happens outside
//! this crate.
use vstd::prelude::*;

use crate::endpoint::{
    is_http_scheme, is_ws_scheme, prepare_local_url, prepare_remote_url, Endpoint, UrlError,
    SUBSCRIBE_PATH,
};
use crate::text::str_eq;

verus! {

/// The three values that a client connects with.
#[derive(Clone, Debug)]
pub struct Profile {
    pub remote: Endpoint,
    pub secret: String,
    pub local: Endpoint,
}

impl Profile {
    /// A copy of the profile readied for use: the remote URL must be `ws` or
    /// `wss` and gets the WebSocket endpoint's path, the local URL must be
    /// `http` or `https` and gets the path `/`. The remote is checked first.
    pub fn prepare(&self) -> (r: Result<Profile, UrlError>)
        ensures
            !is_ws_scheme(self.remote.scheme@) ==> r == Err::<Profile, UrlError>(
                UrlError::RemoteScheme,
            ),
            is_ws_scheme(self.remote.scheme@) && !is_http_scheme(self.local.scheme@) ==> r
                == Err::<Profile, UrlError>(UrlError::LocalScheme),
            is_ws_scheme(self.remote.scheme@) && is_http_scheme(self.local.scheme@) ==> (r matches Ok(
                p,
            ) && p.secret == self.secret && p.remote.path@ == SUBSCRIBE_PATH@ && p.remote.scheme
                == self.remote.scheme && p.remote.authority == self.remote.authority
                && p.remote.query == self.remote.query && p.local.path@ == "/"@ && p.local.scheme
                == self.local.scheme && p.local.authority == self.local.authority
                && p.local.query == self.local.query),
    {
        let mut remote = self.remote.duplicate();
        let mut local = self.local.duplicate();
        match prepare_remote_url(&mut remote) {
            Ok(()) => {},
            Err(e) => return Err(e),
        }
        match prepare_local_url(&mut local) {
            Ok(()) => {},
            Err(e) => return Err(e),
        }
        Ok(Profile { remote, secret: self.secret.clone(), local })
    }
}

/// Why a change to the profiles was refused.
#[derive(Clone, Copy, Debug, PartialEq, Eq, Structural)]
pub enum ProfileError {
    /// A profile of that name exists already.
    AlreadyExists,
    /// No profile has that name.
    NotFound,
}

/// Whether some entry has this name.
pub open spec fn has_name(entries: Seq<(String, Profile)>, name: Seq<char>) -> bool {
    exists|i: int| 0 <= i < entries.len() && (#[trigger] entries[i]).0@ == name
}

/// Whether no two entries share a name.
pub open spec fn names_unique(entries: Seq<(String, Profile)>) -> bool {
    forall|i: int, j: int|
        0 <= i < entries.len() && 0 <= j < entries.len() && i != j ==> (#[trigger] entries[i]).0@
            != (#[trigger] entries[j]).0@
}

/// The profiles, each under a name of its own, in the order they were added.
pub struct Profiles {
    profiles: Vec<(String, Profile)>,
}

impl Profiles {
    /// The entries, in the order they were added.
    pub closed spec fn entries(&self) -> Seq<(String, Profile)> {
        self.profiles@
    }

    /// No two entries share a name.
    pub open spec fn wf(&self) -> bool {
        names_unique(self.entries())
    }

    /// An empty store.
    pub fn new() -> (r: Profiles)
        ensures
            r.wf(),
            r.entries() == Seq::<(String, Profile)>::empty(),
    {
        Profiles { profiles: Vec::new() }
    }

    /// The entries, in the order they were added.
    pub fn list(&self) -> (r: &Vec<(String, Profile)>)
        ensures
            r@ == self.entries(),
    {
        &self.profiles
    }

    fn position(&self, name: &str) -> (r: Option<usize>)
        ensures
            match r {
                Some(i) => i < self.entries().len() && self.entries()[i as int].0@ == name@,
                None => !has_name(self.entries(), name@),
            },
    {
        let mut i: usize = 0;
        while i < self.profiles.len()
            invariant
                i <= self.profiles@.len(),
                forall|j: int| 0 <= j < i ==> (#[trigger] self.profiles@[j]).0@ != name@,
            decreases self.profiles@.len() - i,
        {
            if str_eq(self.profiles[i].0.as_str(), name) {
                return Some(i);
            }
            i = i + 1;
        }
        None
    }

    /// The profile of this name.
    pub fn get(&self, name: &str) -> (r: Option<&Profile>)
        ensures
            match r {
                Some(p) => exists|i: int|
                    0 <= i < self.entries().len() && self.entries()[i].0@ == name@ && self.entries()[i].1
                        == *p,
                None => !has_name(self.entries(), name@),
            },
    {
        match self.position(name) {
            Some(i) => Some(&self.profiles[i].1),
            None => None,
        }
    }

    /// Adds a profile under a new name, after the others; a name in use is
    /// refused and the store left as it was.
    pub fn add(&mut self, name: String, profile: Profile) -> (r: Result<(), ProfileError>)
        requires
            old(self).wf(),
        ensures
            final(self).wf(),
            has_name(old(self).entries(), name@) ==> r == Err::<(), ProfileError>(
                ProfileError::AlreadyExists,
            ) && final(self).entries() == old(self).entries(),
            !has_name(old(self).entries(), name@) ==> r is Ok && final(self).entries() == old(
                self,
            ).entries().push((name, profile)),
    {
        match self.position(name.as_str()) {
            Some(_) => Err(ProfileError::AlreadyExists),
            None => {
                let ghost before = self.profiles@;
                self.profiles.push((name, profile));
                proof {
                    assert forall|i: int, j: int|
                        0 <= i < self.profiles@.len() && 0 <= j < self.profiles@.len() && i
                            != j implies (#[trigger] self.profiles@[i]).0@
                        != (#[trigger] self.profiles@[j]).0@ by {
                        if i == before.len() as int {
                            assert(before[j] == self.profiles@[j]);
                        } else if j == before.len() as int {
                            assert(before[i] == self.profiles@[i]);
                        } else {
                            assert(before[i] == self.profiles@[i]);
                            assert(before[j] == self.profiles@[j]);
                        }
                    }
                }
                Ok(())
            },
        }
    }

    /// Removes the profile of this name, keeping the others in order; an
    /// unknown name is refused and the store left as it was.
    pub fn delete(&mut self, name: &str) -> (r: Result<(), ProfileError>)
        requires
            old(self).wf(),
        ensures
            final(self).wf(),
            !has_name(old(self).entries(), name@) ==> r == Err::<(), ProfileError>(
                ProfileError::NotFound,
            ) && final(self).entries() == old(self).entries(),
            has_name(old(self).entries(), name@) ==> r is Ok && exists|i: int|
                0 <= i < old(self).entries().len() && old(self).entries()[i].0@ == name@
                    && final(self).entries() == old(self).entries().remove(i),
            !has_name(final(self).entries(), name@),
    {
        match self.position(name) {
            None => Err(ProfileError::NotFound),
            Some(i) => {
                let ghost before = self.profiles@;
                self.profiles.remove(i);
                proof {
                    let after = self.profiles@;
                    assert(after =~= before.remove(i as int));
                    assert forall|a: int, b: int|
                        0 <= a < after.len() && 0 <= b < after.len() && a != b implies (
                        #[trigger] after[a]).0@ != (#[trigger] after[b]).0@ by {
                        let a0 = if a < i { a } else { a + 1 };
                        let b0 = if b < i { b } else { b + 1 };
                        assert(after[a] == before[a0]);
                        assert(after[b] == before[b0]);
                    }
                    assert forall|k: int| 0 <= k < after.len() implies (#[trigger] after[k]).0@
                        != name@ by {
                        let k0 = if k < i { k } else { k + 1 };
                        assert(after[k] == before[k0]);
                    }
                }
                Ok(())
            },
        }
    }
}

} // verus!
