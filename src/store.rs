//! The store of encoded secrets, keyed by account identifier.

use vstd::prelude::*;

verus! {

/// Why a lookup in the store found nothing.
#[derive(Debug, Clone, Copy, PartialEq, Eq, Structural)]
pub enum StoreError {
    /// No secret is stored under the identifier.
    NotFound,
}

/// Maps account identifiers to their encoded secret strings, each identifier at
/// most once, in the order the identifiers were first enrolled.
pub struct SecretStore {
    entries: Vec<(String, String)>,
    contents: Ghost<Map<Seq<char>, Seq<char>>>,
}

impl View for SecretStore {
    type V = Map<Seq<char>, Seq<char>>;

    closed spec fn view(&self) -> Map<Seq<char>, Seq<char>> {
        self.contents@
    }
}

impl SecretStore {
    /// The identifiers and secrets in enrollment order.
    pub closed spec fn pairs(&self) -> Seq<(Seq<char>, Seq<char>)> {
        self.entries@.map_values(|e: (String, String)| (e.0@, e.1@))
    }

    /// Each identifier is stored once, and the pairs are exactly the map's entries.
    pub closed spec fn wf(&self) -> bool {
        &&& forall|i: int, j: int|
            0 <= i < j < self.entries@.len() ==> #[trigger] self.entries@[i].0@
                != #[trigger] self.entries@[j].0@
        &&& forall|i: int|
            0 <= i < self.entries@.len() ==> self.contents@.contains_key(
                #[trigger] self.entries@[i].0@,
            ) && self.contents@[self.entries@[i].0@] == self.entries@[i].1@
        &&& forall|k: Seq<char>|
            #[trigger] self.contents@.contains_key(k) ==> exists|i: int|
                0 <= i < self.entries@.len() && #[trigger] self.entries@[i].0@ == k
    }

    /// An empty store.
    pub fn new() -> (r: SecretStore)
        ensures
            r.wf(),
            r@ == Map::<Seq<char>, Seq<char>>::empty(),
            r.pairs().len() == 0,
    {
        SecretStore { entries: Vec::new(), contents: Ghost(Map::empty()) }
    }

    /// The number of enrolled identifiers.
    pub fn len(&self) -> (r: usize)
        requires
            self.wf(),
        ensures
            r == self.pairs().len(),
            r == self@.len(),
    {
        proof {
            self.lemma_len();
        }
        self.entries.len()
    }

    proof fn lemma_len(&self)
        requires
            self.wf(),
        ensures
            self@.len() == self.entries@.len(),
            self@.dom().finite(),
    {
        let keys = self.entries@.map_values(|e: (String, String)| e.0@);
        assert forall|i: int, j: int| 0 <= i < j < keys.len() implies keys[i] != keys[j] by {
            assert(self.entries@[i].0@ != self.entries@[j].0@);
        }
        keys.unique_seq_to_set();
        assert(keys.to_set() =~= self.contents@.dom()) by {
            assert forall|k: Seq<char>| self.contents@.contains_key(k) implies keys.contains(k) by {
                let i = choose|i: int| 0 <= i < self.entries@.len() && self.entries@[i].0@ == k;
                assert(keys[i] == k);
            }
            assert forall|k: Seq<char>| keys.contains(k) implies self.contents@.contains_key(k) by {
                let i = choose|i: int| 0 <= i < keys.len() && keys[i] == k;
                assert(self.contents@.contains_key(self.entries@[i].0@));
            }
        }
    }

    /// The pair at position `i`, in enrollment order.
    pub fn entry(&self, i: usize) -> (r: (&String, &String))
        requires
            i < self.pairs().len(),
        ensures
            (r.0@, r.1@) == self.pairs()[i as int],
    {
        let e = &self.entries[i];
        (&e.0, &e.1)
    }

    fn position(&self, id: &String) -> (r: Option<usize>)
        requires
            self.wf(),
        ensures
            match r {
                Some(i) => i < self.entries@.len() && self.entries@[i as int].0@ == id@,
                None => !self@.contains_key(id@),
            },
    {
        let mut i: usize = 0;
        while i < self.entries.len()
            invariant
                self.wf(),
                i <= self.entries@.len(),
                forall|j: int| 0 <= j < i ==> self.entries@[j].0@ != id@,
            decreases self.entries@.len() - i,
        {
            if self.entries[i].0 == *id {
                return Some(i);
            }
            i = i + 1;
        }
        None
    }

    /// The secret stored under `id`, or `NotFound`.
    pub fn lookup(&self, id: &str) -> (r: Result<String, StoreError>)
        requires
            self.wf(),
        ensures
            r is Ok <==> self@.contains_key(id@),
            r matches Ok(s) ==> s@ == self@[id@],
            r matches Err(e) ==> e == StoreError::NotFound,
    {
        let key = id.to_owned();
        match self.position(&key) {
            Some(i) => Ok(self.entries[i].1.clone()),
            None => Err(StoreError::NotFound),
        }
    }

    /// Stores `secret` under `id`, replacing any secret stored there before.
    pub fn insert(&mut self, id: String, secret: String)
        requires
            old(self).wf(),
        ensures
            final(self).wf(),
            final(self)@ == old(self)@.insert(id@, secret@),
            old(self)@.contains_key(id@) ==> final(self).pairs().len() == old(self).pairs().len(),
            !old(self)@.contains_key(id@) ==> final(self).pairs() == old(self).pairs().push(
                (id@, secret@),
            ),
    {
        let ghost key = id@;
        let ghost val = secret@;
        let ghost mut j: int = 0;
        match self.position(&id) {
            Some(i) => {
                self.entries.set(i, (id, secret));
                proof {
                    j = i as int;
                }
            },
            None => {
                self.entries.push((id, secret));
                proof {
                    j = old(self).entries@.len() as int;
                }
            },
        }
        self.contents = Ghost(self.contents@.insert(key, val));
        proof {
            assert(0 <= j < self.entries@.len() && self.entries@[j].0@ == key);
            assert forall|i: int| 0 <= i < self.entries@.len() && i != j implies self.entries@[i]
                == old(self).entries@[i] by {}
            assert forall|k: Seq<char>| #[trigger] self.contents@.contains_key(k) implies exists|
                i: int,
            | 0 <= i < self.entries@.len() && #[trigger] self.entries@[i].0@ == k by {
                if k != key {
                    let i = choose|i: int|
                        0 <= i < old(self).entries@.len() && old(self).entries@[i].0@ == k;
                    assert(self.entries@[i].0@ == k);
                } else {
                    assert(self.entries@[j].0@ == k);
                }
            }
            assert(self.pairs().len() == self.entries@.len());
            if !old(self)@.contains_key(key) {
                assert(self.pairs() =~= old(self).pairs().push((key, val)));
            }
        }
    }
}

/// Enrolling an identifier twice leaves one entry, holding the later secret.
pub proof fn lemma_insert_twice_overwrites(
    before: Map<Seq<char>, Seq<char>>,
    id: Seq<char>,
    first: Seq<char>,
    second: Seq<char>,
)
    requires
        before.dom().finite(),
    ensures
        before.insert(id, first).insert(id, second) == before.insert(id, second),
        before.insert(id, first).insert(id, second).len() == before.insert(id, first).len(),
        before.insert(id, first).insert(id, second)[id] == second,
{
    assert(before.insert(id, first).insert(id, second) =~= before.insert(id, second));
    assert(before.insert(id, first).insert(id, second).dom() =~= before.insert(id, first).dom());
}

/// Enrolls `domain` with the encoded secret `secret`, replacing an earlier entry.
pub fn add_totp_entry(store: &mut SecretStore, domain: &str, secret: &str)
    requires
        old(store).wf(),
    ensures
        final(store).wf(),
        final(store)@ == old(store)@.insert(domain@, secret@),
{
    store.insert(domain.to_string(), secret.to_string());
}

} // verus!
