//! The passkey registry: the persistent store of `(passkey_id, public_key)`
//! pairs behind its narrow interface.  Credential ids are unique; inserting
//! a duplicate is a conflict, enforced by the registry itself.

use vstd::prelude::*;

use crate::bytes::bytes_eq;

verus! {

/// A registered credential: the opaque id the authenticator assigned, and
/// the stored DER-encoded (SubjectPublicKeyInfo) ECDSA P-256 public key.
pub struct Passkey {
    pub passkey_id: Vec<u8>,
    pub public_key: Vec<u8>,
}

/// The public key stored under an id, searching from the front.
pub open spec fn spec_lookup(entries: Seq<Passkey>, id: Seq<u8>) -> Option<Seq<u8>>
    decreases entries.len(),
{
    if entries.len() == 0 {
        None
    } else if entries[0].passkey_id@ == id {
        Some(entries[0].public_key@)
    } else {
        spec_lookup(entries.skip(1), id)
    }
}

/// The registry, held as a list unique by credential id.
pub struct PasskeyRegistry {
    entries: Vec<Passkey>,
}

impl PasskeyRegistry {
    /// The registered ids, in insertion order.
    pub closed spec fn ids(&self) -> Seq<Seq<u8>> {
        self.entries@.map_values(|p: Passkey| p.passkey_id@)
    }

    /// The public key registered under `id`, if any.
    pub closed spec fn key_for(&self, id: Seq<u8>) -> Option<Seq<u8>> {
        spec_lookup(self.entries@, id)
    }

    /// Well-formedness: no credential id occurs twice.
    pub closed spec fn wf(&self) -> bool {
        forall|i: int, j: int|
            0 <= i < j < self.entries@.len() ==> self.entries@[i].passkey_id@
                != self.entries@[j].passkey_id@
    }

    /// An empty registry.
    pub fn new() -> (r: PasskeyRegistry)
        ensures
            r.wf(),
            r.ids() == Seq::<Seq<u8>>::empty(),
            forall|id: Seq<u8>| r.key_for(id) is None,
    {
        let r = PasskeyRegistry { entries: Vec::new() };
        proof {
            assert(r.ids() =~= Seq::<Seq<u8>>::empty());
        }
        r
    }

    /// How many credentials are registered.
    pub fn count(&self) -> (r: usize)
        ensures
            r == self.ids().len(),
    {
        self.entries.len()
    }

    /// The registered ids, in insertion order.
    pub fn list_ids(&self) -> (r: Vec<Vec<u8>>)
        ensures
            r@.len() == self.ids().len(),
            forall|i: int| 0 <= i < r@.len() ==> r@[i]@ == self.ids()[i],
    {
        let mut out: Vec<Vec<u8>> = Vec::new();
        let mut i: usize = 0;
        while i < self.entries.len()
            invariant
                i <= self.entries@.len(),
                out@.len() == i,
                forall|j: int| 0 <= j < i ==> out@[j]@ == self.ids()[j],
            decreases self.entries@.len() - i,
        {
            out.push(vstd::slice::slice_to_vec(self.entries[i].passkey_id.as_slice()));
            i += 1;
        }
        out
    }

    /// The public key registered under `passkey_id`, if any.
    pub fn lookup(&self, passkey_id: &[u8]) -> (r: Option<Vec<u8>>)
        ensures
            match r {
                Some(pk) => self.key_for(passkey_id@) == Some(pk@),
                None => self.key_for(passkey_id@) is None,
            },
    {
        let mut i: usize = 0;
        proof {
            assert(self.entries@.skip(0) =~= self.entries@);
        }
        while i < self.entries.len()
            invariant
                i <= self.entries@.len(),
                self.key_for(passkey_id@) == spec_lookup(
                    self.entries@.skip(i as int),
                    passkey_id@,
                ),
            decreases self.entries@.len() - i,
        {
            let ghost tail = self.entries@.skip(i as int);
            proof {
                assert(tail[0] == self.entries@[i as int]);
                assert(tail.skip(1) =~= self.entries@.skip(i as int + 1));
            }
            if bytes_eq(self.entries[i].passkey_id.as_slice(), passkey_id) {
                return Some(vstd::slice::slice_to_vec(self.entries[i].public_key.as_slice()));
            }
            i += 1;
        }
        proof {
            assert(self.entries@.skip(self.entries@.len() as int) =~= Seq::<Passkey>::empty());
        }
        None
    }

    /// Register a credential; a duplicate id is refused and leaves the
    /// registry unchanged.
    pub fn insert(&mut self, passkey_id: Vec<u8>, public_key: Vec<u8>) -> (r: Result<(), ()>)
        requires
            old(self).wf(),
        ensures
            final(self).wf(),
            r is Ok <==> old(self).key_for(passkey_id@) is None,
            r is Ok ==> final(self).ids() == old(self).ids().push(passkey_id@),
            r is Ok ==> final(self).key_for(passkey_id@) == Some(public_key@),
            r is Ok ==> forall|other: Seq<u8>|
                other != passkey_id@ ==> final(self).key_for(other) == old(self).key_for(other),
            r is Err ==> *final(self) == *old(self),
    {
        let ghost prior = self.entries@;
        match self.lookup(passkey_id.as_slice()) {
            Some(_) => Err(()),
            None => {
                proof {
                    lemma_lookup_none_means_absent(prior, passkey_id@);
                }
                let ghost id_view = passkey_id@;
                self.entries.push(Passkey { passkey_id, public_key });
                proof {
                    assert(self.ids() =~= old(self).ids().push(id_view));
                    lemma_lookup_snoc(prior, self.entries@[prior.len() as int], id_view);
                    assert forall|other: Seq<u8>| other != id_view implies self.key_for(other)
                        == old(self).key_for(other) by {
                        lemma_lookup_snoc(prior, self.entries@[prior.len() as int], other);
                    }
                }
                Ok(())
            },
        }
    }
}

/// A well-formed registry holds each credential id at most once: its id
/// list is pairwise distinct.
pub proof fn lemma_wf_ids_distinct(registry: PasskeyRegistry)
    requires
        registry.wf(),
    ensures
        forall|i: int, j: int|
            0 <= i < j < registry.ids().len() ==> registry.ids()[i] != registry.ids()[j],
{
    assert forall|i: int, j: int|
        0 <= i < j < registry.ids().len() implies registry.ids()[i] != registry.ids()[j] by {
        assert(registry.ids()[i] == registry.entries@[i].passkey_id@);
        assert(registry.ids()[j] == registry.entries@[j].passkey_id@);
    }
}

/// A lookup that fails finds no entry at any position.
proof fn lemma_lookup_none_means_absent(entries: Seq<Passkey>, id: Seq<u8>)
    requires
        spec_lookup(entries, id) is None,
    ensures
        forall|i: int| 0 <= i < entries.len() ==> entries[i].passkey_id@ != id,
    decreases entries.len(),
{
    if entries.len() > 0 {
        lemma_lookup_none_means_absent(entries.skip(1), id);
        assert forall|i: int| 0 <= i < entries.len() implies entries[i].passkey_id@ != id by {
            if i > 0 {
                assert(entries.skip(1)[i - 1] == entries[i]);
            }
        }
    }
}

/// Looking up in a list extended at the back: the old entries win, and the
/// new entry answers only for its own id.
proof fn lemma_lookup_snoc(entries: Seq<Passkey>, last: Passkey, id: Seq<u8>)
    ensures
        spec_lookup(entries.push(last), id) == (if spec_lookup(entries, id) is Some {
            spec_lookup(entries, id)
        } else if last.passkey_id@ == id {
            Some(last.public_key@)
        } else {
            None
        }),
    decreases entries.len(),
{
    if entries.len() == 0 {
        assert(entries.push(last)[0] == last);
        assert(entries.push(last).skip(1) =~= Seq::<Passkey>::empty());
        assert(spec_lookup(Seq::<Passkey>::empty(), id) is None);
    } else {
        assert(entries.push(last)[0] == entries[0]);
        assert(entries.push(last).skip(1) =~= entries.skip(1).push(last));
        lemma_lookup_snoc(entries.skip(1), last, id);
    }
}

} // verus!
