//! Finding the public key for an issuer and a key identifier that an
//! unverified token names. Keys are found in a store that the caller fills;
//! where the issuer is configured to be asked instead, the store holds what
//! earlier answers brought, and a key that it lacks is to be fetched by the
//! caller. Failures are never remembered.

use vstd::prelude::*;
use crate::error::Error;

verus! {

/// A public key as PEM text.
pub struct PublicKey {
    pub pem: String,
}

impl View for PublicKey {
    type V = Seq<char>;

    open spec fn view(&self) -> Seq<char> {
        self.pem@
    }
}

/// One known key.
pub struct KeyEntry {
    pub issuer: String,
    pub key_id: String,
    pub pem: String,
}

pub struct EntryModel {
    pub issuer: Seq<char>,
    pub key_id: Seq<char>,
    pub pem: Seq<char>,
}

impl View for KeyEntry {
    type V = EntryModel;

    open spec fn view(&self) -> EntryModel {
        EntryModel { issuer: self.issuer@, key_id: self.key_id@, pem: self.pem@ }
    }
}

pub open spec fn is_for(e: EntryModel, issuer: Seq<char>, key_id: Seq<char>) -> bool {
    e.issuer == issuer && e.key_id == key_id
}

/// The key of the first entry for the issuer and key identifier.
pub open spec fn first_for(s: Seq<KeyEntry>, issuer: Seq<char>, key_id: Seq<char>) -> Option<
    Seq<char>,
>
    decreases s.len(),
{
    if s.len() == 0 {
        None
    } else if is_for(s[0]@, issuer, key_id) {
        Some(s[0]@.pem)
    } else {
        first_for(s.drop_first(), issuer, key_id)
    }
}

proof fn lemma_first_for_at(s: Seq<KeyEntry>, issuer: Seq<char>, key_id: Seq<char>, at: int)
    requires
        0 <= at <= s.len(),
        forall|l: int| 0 <= l < at ==> !is_for(#[trigger] s[l]@, issuer, key_id),
        at < s.len() ==> is_for(s[at]@, issuer, key_id),
    ensures
        first_for(s, issuer, key_id) == if at < s.len() {
            Some(s[at]@.pem)
        } else {
            None
        },
    decreases s.len(),
{
    if s.len() > 0 && at > 0 {
        let t = s.drop_first();
        assert forall|l: int| 0 <= l < at - 1 implies !is_for(#[trigger] t[l]@, issuer, key_id) by {
            assert(t[l] == s[l + 1]);
        }
        lemma_first_for_at(t, issuer, key_id, at - 1);
    }
}

proof fn lemma_first_for_same(
    s: Seq<KeyEntry>,
    t: Seq<KeyEntry>,
    issuer: Seq<char>,
    key_id: Seq<char>,
)
    requires
        s.len() <= t.len(),
        forall|l: int|
            0 <= l < s.len() ==> is_for(#[trigger] s[l]@, issuer, key_id) == is_for(
                t[l]@,
                issuer,
                key_id,
            ),
        forall|l: int|
            0 <= l < s.len() && is_for(#[trigger] s[l]@, issuer, key_id) ==> s[l]@.pem == t[l]@.pem,
        forall|l: int| s.len() <= l < t.len() ==> !is_for(#[trigger] t[l]@, issuer, key_id),
    ensures
        first_for(s, issuer, key_id) == first_for(t, issuer, key_id),
    decreases t.len(),
{
    if t.len() > 0 {
        if s.len() == 0 {
            lemma_first_for_at(t, issuer, key_id, t.len() as int);
        } else {
            assert(is_for(s[0]@, issuer, key_id) == is_for(t[0]@, issuer, key_id));
            if !is_for(s[0]@, issuer, key_id) {
                let s1 = s.drop_first();
                let t1 = t.drop_first();
                assert forall|l: int| 0 <= l < s1.len() implies is_for(
                    #[trigger] s1[l]@,
                    issuer,
                    key_id,
                ) == is_for(t1[l]@, issuer, key_id) by {
                    assert(s1[l] == s[l + 1]);
                    assert(t1[l] == t[l + 1]);
                }
                assert forall|l: int|
                    0 <= l < s1.len() && is_for(
                        #[trigger] s1[l]@,
                        issuer,
                        key_id,
                    ) implies s1[l]@.pem == t1[l]@.pem by {
                    assert(s1[l] == s[l + 1]);
                    assert(t1[l] == t[l + 1]);
                }
                assert forall|l: int| s1.len() <= l < t1.len() implies !is_for(
                    #[trigger] t1[l]@,
                    issuer,
                    key_id,
                ) by {
                    assert(t1[l] == t[l + 1]);
                }
                lemma_first_for_same(s1, t1, issuer, key_id);
            }
        }
    }
}

/// Taking out an entry that is not for the issuer and key identifier changes
/// nothing for them.
proof fn lemma_first_for_without(s: Seq<KeyEntry>, at: int, issuer: Seq<char>, key_id: Seq<char>)
    requires
        0 <= at < s.len(),
        !is_for(s[at]@, issuer, key_id),
    ensures
        first_for(s, issuer, key_id) == first_for(s.remove(at), issuer, key_id),
    decreases s.len(),
{
    let t = s.remove(at);
    if at == 0 {
        assert(t =~= s.drop_first());
    } else {
        assert(t[0] == s[0]);
        assert(t.drop_first() =~= s.drop_first().remove(at - 1));
        lemma_first_for_without(s.drop_first(), at - 1, issuer, key_id);
    }
}

/// Known keys, one for each pair of issuer and key identifier that it knows.
pub struct KeyStore {
    entries: Vec<KeyEntry>,
}

impl View for KeyStore {
    type V = Map<(Seq<char>, Seq<char>), Seq<char>>;

    closed spec fn view(&self) -> Map<(Seq<char>, Seq<char>), Seq<char>> {
        Map::new(
            |k: (Seq<char>, Seq<char>)| first_for(self.entries@, k.0, k.1) is Some,
            |k: (Seq<char>, Seq<char>)| first_for(self.entries@, k.0, k.1).unwrap(),
        )
    }
}

impl KeyStore {
    /// A store without keys.
    pub fn new() -> (store: KeyStore)
        ensures
            store@ == Map::<(Seq<char>, Seq<char>), Seq<char>>::empty(),
    {
        let store = KeyStore { entries: Vec::new() };
        assert(store@ =~= Map::<(Seq<char>, Seq<char>), Seq<char>>::empty());
        store
    }

    /// Where the entry for the issuer and key identifier stands.
    fn position(&self, issuer: &str, key_id: &str) -> (at: usize)
        ensures
            at <= self.entries@.len(),
            forall|l: int| 0 <= l < at ==> !is_for(#[trigger] self.entries@[l]@, issuer@, key_id@),
            at < self.entries@.len() ==> is_for(self.entries@[at as int]@, issuer@, key_id@),
            first_for(self.entries@, issuer@, key_id@) == if at < self.entries@.len() {
                Some(self.entries@[at as int]@.pem)
            } else {
                None
            },
    {
        let n: usize = self.entries.len();
        let wanted_issuer: String = issuer.to_owned();
        let wanted_key_id: String = key_id.to_owned();
        let mut i: usize = 0;
        while i < n
            invariant
                i <= n,
                n == self.entries@.len(),
                wanted_issuer@ == issuer@,
                wanted_key_id@ == key_id@,
                forall|l: int| 0 <= l < i ==> !is_for(#[trigger] self.entries@[l]@, issuer@, key_id@),
            decreases n - i,
        {
            if self.entries[i].issuer == wanted_issuer && self.entries[i].key_id == wanted_key_id {
                proof {
                    lemma_first_for_at(self.entries@, issuer@, key_id@, i as int);
                }
                return i;
            }
            i = i + 1;
        }
        proof {
            lemma_first_for_at(self.entries@, issuer@, key_id@, n as int);
        }
        n
    }

    /// The key for the issuer and key identifier, or `KeyNotFound`.
    pub fn resolve(&self, issuer: &str, key_id: &str) -> (r: Result<PublicKey, Error>)
        ensures
            match r {
                Ok(key) => self@.contains_key((issuer@, key_id@)) && self@[(issuer@, key_id@)]
                    == key@,
                Err(e) => e == Error::KeyNotFound && !self@.contains_key((issuer@, key_id@)),
            },
    {
        let at: usize = self.position(issuer, key_id);
        if at < self.entries.len() {
            Ok(PublicKey { pem: self.entries[at].pem.clone() })
        } else {
            Err(Error::KeyNotFound)
        }
    }

    /// Makes `pem` the key for the issuer and key identifier, in place of the
    /// one that was known for them, if any.
    pub fn insert(&mut self, issuer: &str, key_id: &str, pem: &str)
        ensures
            final(self)@ == old(self)@.insert((issuer@, key_id@), pem@),
    {
        let at: usize = self.position(issuer, key_id);
        let entry = KeyEntry {
            issuer: issuer.to_owned(),
            key_id: key_id.to_owned(),
            pem: pem.to_owned(),
        };
        let ghost before = self.entries@;
        if at < self.entries.len() {
            self.entries.set(at, entry);
        } else {
            self.entries.push(entry);
        }
        proof {
            let after = self.entries@;
            lemma_first_for_at(after, issuer@, key_id@, at as int);
            assert forall|k: (Seq<char>, Seq<char>)| k != (issuer@, key_id@) implies first_for(
                before,
                k.0,
                k.1,
            ) == first_for(after, k.0, k.1) by {
                lemma_first_for_same(before, after, k.0, k.1);
            }
            assert(self@ =~= old(self)@.insert((issuer@, key_id@), pem@));
        }
    }
}

/// The issuer under which a store holds the keys that are known by their key
/// identifier alone: none. No token names it, since a token without issuer
/// is refused.
pub open spec fn no_issuer() -> Seq<char> {
    Seq::<char>::empty()
}

impl KeyStore {
    /// Makes `pem` the key for the key identifier, whoever the issuer is.
    pub fn insert_local(&mut self, key_id: &str, pem: &str)
        ensures
            final(self)@ == old(self)@.insert((no_issuer(), key_id@), pem@),
    {
        proof {
            reveal_strlit("");
            assert(""@ =~= no_issuer());
        }
        self.insert("", key_id, pem)
    }

    /// The key for the key identifier, whoever the issuer is, or
    /// `KeyNotFound`.
    pub fn resolve_local(&self, key_id: &str) -> (r: Result<PublicKey, Error>)
        ensures
            match r {
                Ok(key) => self@.contains_key((no_issuer(), key_id@)) && self@[(
                    no_issuer(),
                    key_id@,
                )] == key@,
                Err(e) => e == Error::KeyNotFound && !self@.contains_key((no_issuer(), key_id@)),
            },
    {
        proof {
            reveal_strlit("");
            assert(""@ =~= no_issuer());
        }
        self.resolve("", key_id)
    }
}

impl KeyStore {
    /// Forgets the key for the issuer and key identifier, if one is known:
    /// to be called when the issuer withdraws it.
    pub fn forget(&mut self, issuer: &str, key_id: &str)
        ensures
            final(self)@ == old(self)@.remove((issuer@, key_id@)),
    {
        let wanted_issuer: String = issuer.to_owned();
        let wanted_key_id: String = key_id.to_owned();
        let mut i: usize = 0;
        while i < self.entries.len()
            invariant
                i <= self.entries@.len(),
                wanted_issuer@ == issuer@,
                wanted_key_id@ == key_id@,
                forall|l: int| 0 <= l < i ==> !is_for(#[trigger] self.entries@[l]@, issuer@, key_id@),
                forall|k: (Seq<char>, Seq<char>)|
                    k != (issuer@, key_id@) ==> first_for(self.entries@, k.0, k.1) == first_for(
                        old(self).entries@,
                        k.0,
                        k.1,
                    ),
            decreases self.entries@.len() - i,
        {
            if self.entries[i].issuer == wanted_issuer && self.entries[i].key_id == wanted_key_id {
                let ghost before = self.entries@;
                self.entries.remove(i);
                proof {
                    assert forall|k: (Seq<char>, Seq<char>)|
                        k != (issuer@, key_id@) implies first_for(self.entries@, k.0, k.1)
                        == first_for(old(self).entries@, k.0, k.1) by {
                        lemma_first_for_without(before, i as int, k.0, k.1);
                    }
                }
            } else {
                i = i + 1;
            }
        }
        proof {
            lemma_first_for_at(self.entries@, issuer@, key_id@, self.entries@.len() as int);
            assert(self@ =~= old(self)@.remove((issuer@, key_id@)));
        }
    }
}

/// How keys are found. `Local`: in the store alone, by the key identifier
/// alone; the caller fills the store with `insert_local`. `Remote`: at the
/// issuer, by issuer and key identifier; the store holds what earlier answers
/// brought.
#[derive(Clone, Copy, Debug, PartialEq, Eq)]
pub enum Strategy {
    Local,
    Remote,
}

/// What is to be done about a key.
pub enum Lookup {
    /// The key is known.
    Found(PublicKey),
    /// The key is not known and nobody is to be asked.
    NotFound,
    /// The issuer is to be asked; `Resolver::fetched` takes the answer.
    Fetch,
}

/// A store with the strategy that it is used under.
pub struct Resolver {
    pub strategy: Strategy,
    pub known: KeyStore,
}

/// What `Resolver::lookup` answers.
pub open spec fn lookup_outcome(
    strategy: Strategy,
    known: Map<(Seq<char>, Seq<char>), Seq<char>>,
    issuer: Seq<char>,
    key_id: Seq<char>,
) -> Option<Result<Seq<char>, Error>> {
    if strategy is Local {
        if known.contains_key((no_issuer(), key_id)) {
            Some(Ok(known[(no_issuer(), key_id)]))
        } else {
            Some(Err(Error::KeyNotFound))
        }
    } else if known.contains_key((issuer, key_id)) {
        Some(Ok(known[(issuer, key_id)]))
    } else {
        None
    }
}

impl Resolver {
    /// Looks a key up without asking anybody.
    pub fn lookup(&self, issuer: &str, key_id: &str) -> (r: Lookup)
        ensures
            match r {
                Lookup::Found(key) => lookup_outcome(self.strategy, self.known@, issuer@, key_id@)
                    == Some(Ok::<Seq<char>, Error>(key@)),
                Lookup::NotFound => lookup_outcome(self.strategy, self.known@, issuer@, key_id@)
                    == Some(Err::<Seq<char>, Error>(Error::KeyNotFound)),
                Lookup::Fetch => lookup_outcome(self.strategy, self.known@, issuer@, key_id@)
                    is None,
            },
    {
        match self.strategy {
            Strategy::Local => match self.known.resolve_local(key_id) {
                Ok(key) => Lookup::Found(key),
                Err(_) => Lookup::NotFound,
            },
            Strategy::Remote => match self.known.resolve(issuer, key_id) {
                Ok(key) => Lookup::Found(key),
                Err(_) => Lookup::Fetch,
            },
        }
    }

    /// Takes the issuer's answer. A key is remembered and handed on; a
    /// failure is handed on and leaves no trace, so that the next attempt
    /// asks again.
    pub fn fetched(&mut self, issuer: &str, key_id: &str, answer: Result<String, Error>) -> (r:
        Result<PublicKey, Error>)
        ensures
            final(self).strategy == old(self).strategy,
            match answer {
                Ok(pem) => r matches Ok(key) && key@ == pem@ && final(self).known@ == old(
                    self,
                ).known@.insert((issuer@, key_id@), pem@),
                Err(e) => r == Err::<PublicKey, Error>(e) && final(self).known@ == old(self).known@,
            },
    {
        match answer {
            Ok(pem) => {
                self.known.insert(issuer, key_id, pem.as_str());
                Ok(PublicKey { pem: pem })
            },
            Err(e) => Err(e),
        }
    }
}

} // verus!
