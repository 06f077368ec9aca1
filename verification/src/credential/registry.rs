//! The registry: the credentials of the pool, kept in ascending order of
//! id, with the accessors that the pool is built on. It makes no decisions.

use vstd::prelude::*;
use crate::credential::types::{Credential, CredentialView};

verus! {

/// The views of a list of credentials.
pub open spec fn views(entries: Seq<Credential>) -> Seq<CredentialView> {
    Seq::new(entries.len(), |i: int| entries[i]@)
}

/// Each credential has a larger id than the one before it; so no id
/// occurs twice.
pub open spec fn ascending(credentials: Seq<CredentialView>) -> bool {
    forall|i: int, j: int|
        0 <= i < j < credentials.len() ==> (#[trigger] credentials[i]).id
            < (#[trigger] credentials[j]).id
}

/// The credential at `i` has the id `id`.
pub open spec fn holds_at(credentials: Seq<CredentialView>, id: u64, i: int) -> bool {
    0 <= i < credentials.len() && credentials[i].id == id
}

/// Some credential has the id `id`.
pub open spec fn has_id(credentials: Seq<CredentialView>, id: u64) -> bool {
    exists|i: int| holds_at(credentials, id, i)
}

/// The place of the credential with the id `id`, where there is one.
pub open spec fn place_of(credentials: Seq<CredentialView>, id: u64) -> int {
    choose|i: int| holds_at(credentials, id, i)
}

/// The credential with the id `id`, if there is one.
pub open spec fn lookup(credentials: Seq<CredentialView>, id: u64) -> Option<CredentialView> {
    if has_id(credentials, id) {
        Some(credentials[place_of(credentials, id)])
    } else {
        None
    }
}

/// How many credentials have an id below `id`. In a list in ascending
/// order this is the place where a credential with that id belongs.
pub open spec fn rank(credentials: Seq<CredentialView>, id: u64) -> int
    decreases credentials.len(),
{
    if credentials.len() == 0 {
        0
    } else {
        rank(credentials.drop_last(), id) + if credentials.last().id < id {
            1int
        } else {
            0int
        }
    }
}

/// The list after `c` was put in: in place of the credential with its id,
/// or else where its id belongs.
pub open spec fn upserted(credentials: Seq<CredentialView>, c: CredentialView) -> Seq<
    CredentialView,
> {
    if has_id(credentials, c.id) {
        credentials.update(place_of(credentials, c.id), c)
    } else {
        credentials.insert(rank(credentials, c.id), c)
    }
}

/// The credentials of `provider`, in order.
pub open spec fn of_provider(
    credentials: Seq<CredentialView>,
    provider: Seq<char>,
) -> Seq<CredentialView> {
    credentials.filter(|c: CredentialView| c.provider == provider)
}

/// In a list in ascending order an id has one place at most.
pub proof fn lemma_place_is_unique(credentials: Seq<CredentialView>, id: u64, i: int)
    requires
        ascending(credentials),
        holds_at(credentials, id, i),
    ensures
        has_id(credentials, id),
        place_of(credentials, id) == i,
        lookup(credentials, id) == Some(credentials[i]),
{
    let j = place_of(credentials, id);
    assert(holds_at(credentials, id, j));
    if i < j {
        assert(credentials[i].id < credentials[j].id);
    }
    if j < i {
        assert(credentials[j].id < credentials[i].id);
    }
}

/// In a list in ascending order the rank of an id is the place that parts
/// the smaller ids from the others.
pub proof fn lemma_rank_is_boundary(credentials: Seq<CredentialView>, id: u64, r: int)
    requires
        0 <= r <= credentials.len(),
        forall|k: int| 0 <= k < r ==> (#[trigger] credentials[k]).id < id,
        forall|k: int| r <= k < credentials.len() ==> (#[trigger] credentials[k]).id >= id,
    ensures
        rank(credentials, id) == r,
    decreases credentials.len(),
{
    if credentials.len() > 0 {
        let rest = credentials.drop_last();
        if r == credentials.len() {
            lemma_rank_is_boundary(rest, id, r - 1);
        } else {
            lemma_rank_is_boundary(rest, id, r);
        }
    }
}

/// The credentials of the pool, in ascending order of id.
pub struct CredentialRegistry {
    entries: Vec<Credential>,
}

impl View for CredentialRegistry {
    type V = Seq<CredentialView>;

    closed spec fn view(&self) -> Seq<CredentialView> {
        views(self.entries@)
    }
}

impl CredentialRegistry {
    /// The registry is in ascending order of id.
    pub open spec fn wf(&self) -> bool {
        ascending(self@)
    }

    /// A registry without credentials.
    pub fn new() -> (r: CredentialRegistry)
        ensures
            r.wf(),
            r@ == Seq::<CredentialView>::empty(),
    {
        let r = CredentialRegistry { entries: Vec::new() };
        assert(r@ =~= Seq::<CredentialView>::empty());
        r
    }

    /// How many credentials there are.
    pub fn len(&self) -> (r: usize)
        ensures
            r == self@.len(),
    {
        self.entries.len()
    }

    /// The credential at place `i`.
    pub fn at(&self, i: usize) -> (r: &Credential)
        requires
            i < self@.len(),
        ensures
            r@ == self@[i as int],
    {
        &self.entries[i]
    }

    /// The place of the credential with the id `id`, if there is one.
    pub fn position(&self, id: u64) -> (r: Option<usize>)
        requires
            self.wf(),
        ensures
            match r {
                Some(i) => holds_at(self@, id, i as int) && place_of(self@, id) == i,
                None => !has_id(self@, id),
            },
    {
        let mut i: usize = 0;
        while i < self.entries.len()
            invariant
                i <= self.entries.len(),
                self.wf(),
                forall|k: int| 0 <= k < i ==> !holds_at(self@, id, k),
            decreases self.entries.len() - i,
        {
            if self.entries[i].id == id {
                proof {
                    lemma_place_is_unique(self@, id, i as int);
                }
                return Some(i);
            }
            i = i + 1;
        }
        None
    }

    /// The credential with the id `id`, if there is one.
    pub fn get(&self, id: u64) -> (r: Option<&Credential>)
        requires
            self.wf(),
        ensures
            match r {
                Some(c) => lookup(self@, id) == Some(c@),
                None => lookup(self@, id) is None,
            },
    {
        match self.position(id) {
            Some(i) => Some(&self.entries[i]),
            None => None,
        }
    }

    /// Copies of the credentials of `provider`, in ascending order of id.
    pub fn list(&self, provider: &str) -> (r: Vec<Credential>)
        ensures
            views(r@) == of_provider(self@, provider@),
    {
        let wanted: String = provider.to_owned();
        let ghost pred = |c: CredentialView| c.provider == provider@;
        let mut out: Vec<Credential> = Vec::new();
        let mut i: usize = 0;
        proof {
            reveal(Seq::filter);
            assert(self@.take(0) =~= Seq::<CredentialView>::empty());
            assert(views(out@) =~= self@.take(0).filter(pred));
        }
        while i < self.entries.len()
            invariant
                i <= self.entries.len(),
                wanted@ == provider@,
                pred == (|c: CredentialView| c.provider == provider@),
                views(out@) == self@.take(i as int).filter(pred),
            decreases self.entries.len() - i,
        {
            proof {
                reveal(Seq::filter);
                assert(self@.take(i + 1).drop_last() =~= self@.take(i as int));
                assert(self@.take(i + 1).last() == self@[i as int]);
            }
            if self.entries[i].provider == wanted {
                let copy = self.entries[i].clone();
                let ghost before = views(out@);
                out.push(copy);
                assert(views(out@) =~= before.push(self@[i as int]));
            }
            i = i + 1;
        }
        assert(self@.take(self@.len() as int) =~= self@);
        out
    }

    /// Puts `credential` into the registry: in place of the one with its
    /// id, which is handed back, or else where its id belongs.
    pub fn upsert(&mut self, credential: Credential) -> (r: Option<Credential>)
        requires
            old(self).wf(),
        ensures
            final(self).wf(),
            final(self)@ == upserted(old(self)@, credential@),
            lookup(final(self)@, credential.id) == Some(credential@),
            match lookup(old(self)@, credential.id) {
                Some(previous) => r matches Some(p) && p@ == previous,
                None => r is None,
            },
    {
        let id: u64 = credential.id;
        let ghost view = credential@;
        let mut i: usize = 0;
        while i < self.entries.len() && self.entries[i].id < id
            invariant
                i <= self.entries.len(),
                self.entries == old(self).entries,
                forall|k: int| 0 <= k < i ==> (#[trigger] self@[k]).id < id,
            decreases self.entries.len() - i,
        {
            i = i + 1;
        }
        if i < self.entries.len() && self.entries[i].id == id {
            proof {
                lemma_place_is_unique(old(self)@, id, i as int);
            }
            let mut incoming = credential;
            std::mem::swap(&mut self.entries[i], &mut incoming);
            assert(self@ =~= old(self)@.update(i as int, view));
            proof {
                lemma_place_is_unique(self@, id, i as int);
            }
            Some(incoming)
        } else {
            proof {
                assert forall|k: int| i <= k < old(self)@.len() implies (#[trigger] old(
                    self,
                )@[k]).id >= id by {
                    if k > i {
                        assert(old(self)@[i as int].id < old(self)@[k].id);
                    }
                }
                lemma_rank_is_boundary(old(self)@, id, i as int);
                assert forall|k: int| !holds_at(old(self)@, id, k) by {
                    if 0 <= k < old(self)@.len() {
                        assert(old(self)@[k].id != id);
                    }
                }
            }
            self.entries.insert(i, credential);
            assert(self@ =~= old(self)@.insert(i as int, view));
            proof {
                lemma_place_is_unique(self@, id, i as int);
            }
            None
        }
    }

    /// Takes the credential with the id `id` out of the registry, if there
    /// is one, and hands it back.
    pub fn remove(&mut self, id: u64) -> (r: Option<Credential>)
        requires
            old(self).wf(),
        ensures
            final(self).wf(),
            !has_id(final(self)@, id),
            match lookup(old(self)@, id) {
                Some(previous) => {
                    &&& r matches Some(p) && p@ == previous
                    &&& final(self)@ == old(self)@.remove(place_of(old(self)@, id))
                },
                None => r is None && final(self)@ == old(self)@,
            },
    {
        match self.position(id) {
            Some(i) => {
                let taken = self.entries.remove(i);
                assert(self@ =~= old(self)@.remove(i as int));
                assert forall|k: int| !holds_at(self@, id, k) by {
                    if 0 <= k < self@.len() {
                        if k < i {
                            assert(old(self)@[k].id < old(self)@[i as int].id);
                        } else {
                            assert(old(self)@[i as int].id < old(self)@[k + 1].id);
                        }
                    }
                }
                Some(taken)
            },
            None => None,
        }
    }

    /// Puts `credential` at place `i`, where the credential with the same
    /// id stands.
    pub(crate) fn replace_at(&mut self, i: usize, credential: Credential)
        requires
            old(self).wf(),
            i < old(self)@.len(),
            credential.id == old(self)@[i as int].id,
        ensures
            final(self).wf(),
            final(self)@ == old(self)@.update(i as int, credential@),
    {
        let ghost view = credential@;
        self.entries[i] = credential;
        assert(self@ =~= old(self)@.update(i as int, view));
    }
}

} // verus!
