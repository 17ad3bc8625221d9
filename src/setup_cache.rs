use vstd::prelude::*;
use crate::receipts::same_bytes;

verus! {

/// The key pair stored for `id`: the latest entry under that identity.
pub open spec fn find_entry<K>(entries: Seq<(Seq<u8>, K)>, id: Seq<u8>) -> Option<K>
    decreases entries.len(),
{
    if entries.len() == 0 {
        None
    } else if entries.last().0 == id {
        Some(entries.last().1)
    } else {
        find_entry(entries.drop_last(), id)
    }
}

/// The entries after one request for `id`, where a derivation would give `fresh`.
pub open spec fn request<K>(entries: Seq<(Seq<u8>, K)>, id: Seq<u8>, fresh: K) -> Seq<(Seq<u8>, K)> {
    if find_entry(entries, id) is Some {
        entries
    } else {
        entries.push((id, fresh))
    }
}

/// The derivations one request for `id` performs: none once a pair is stored.
pub open spec fn request_cost<K>(entries: Seq<(Seq<u8>, K)>, id: Seq<u8>) -> nat {
    if find_entry(entries, id) is Some {
        0
    } else {
        1
    }
}

/// The entries after the requests `ids` in turn, the `i`-th derivation, if it
/// happens, giving `fresh[i]`.
pub open spec fn after_requests<K>(entries: Seq<(Seq<u8>, K)>, ids: Seq<Seq<u8>>, fresh: Seq<K>) -> Seq<(Seq<u8>, K)>
    decreases ids.len(),
{
    if ids.len() == 0 || fresh.len() != ids.len() {
        entries
    } else {
        request(after_requests(entries, ids.drop_last(), fresh.drop_last()), ids.last(), fresh.last())
    }
}

/// The derivations the requests `ids` perform in turn.
pub open spec fn derivations_for<K>(entries: Seq<(Seq<u8>, K)>, ids: Seq<Seq<u8>>, fresh: Seq<K>) -> nat
    decreases ids.len(),
{
    if ids.len() == 0 || fresh.len() != ids.len() {
        0
    } else {
        derivations_for(entries, ids.drop_last(), fresh.drop_last()) + request_cost(
            after_requests(entries, ids.drop_last(), fresh.drop_last()),
            ids.last(),
        )
    }
}

/// Key pairs by program identity. A pair is derived at most once per identity;
/// a failed derivation stores nothing. `derivations` counts the derivations
/// performed.
pub struct SetupCache<K> {
    entries: Vec<(Vec<u8>, K)>,
    derivations: u64,
}

impl<K> View for SetupCache<K> {
    type V = Seq<(Seq<u8>, K)>;

    closed spec fn view(&self) -> Seq<(Seq<u8>, K)> {
        self.entries@.map_values(|e: (Vec<u8>, K)| (e.0@, e.1))
    }
}

impl<K> SetupCache<K> {
    pub closed spec fn derivation_count(&self) -> nat {
        self.derivations as nat
    }

    /// An empty cache.
    pub fn new() -> (r: Self)
        ensures
            r@ == Seq::<(Seq<u8>, K)>::empty(),
            r.derivation_count() == 0,
    {
        let r = SetupCache { entries: Vec::new(), derivations: 0 };
        assert(r@ =~= Seq::<(Seq<u8>, K)>::empty());
        r
    }

    /// The number of derivations performed so far.
    pub fn derivations(&self) -> (r: u64)
        ensures
            r == self.derivation_count(),
    {
        self.derivations
    }

    /// The slot of the pair stored for `id`, if any.
    pub fn lookup(&self, id: &Vec<u8>) -> (r: Option<usize>)
        ensures
            match find_entry(self@, id@) {
                None => r is None,
                Some(k) => r matches Some(slot) && slot < self@.len() && self@[slot as int] == (
                id@,
                k,
                ),
            },
    {
        let mut i: usize = self.entries.len();
        assert(self@.subrange(0, i as int) =~= self@);
        while i > 0
            invariant
                i <= self.entries@.len(),
                self@.len() == self.entries@.len(),
                find_entry(self@, id@) == find_entry(self@.subrange(0, i as int), id@),
            decreases i,
        {
            let ghost prefix = self@.subrange(0, i as int);
            assert(prefix.drop_last() =~= self@.subrange(0, i - 1));
            if same_bytes(&self.entries[i - 1].0, id) {
                return Some(i - 1);
            }
            i = i - 1;
        }
        None
    }

    /// The pair in `slot`.
    pub fn key_pair(&self, slot: usize) -> (r: &K)
        requires
            slot < self@.len(),
        ensures
            *r == self@[slot as int].1,
    {
        &self.entries[slot].1
    }

    /// The slot of the pair for `id`: the stored one where there is one, without
    /// deriving; otherwise `derive` is called once, and its pair stored under
    /// `id` when it succeeds. A failure stores nothing and is handed back.
    pub fn get_or_create<E, F: Fn(&Vec<u8>) -> Result<K, E>>(&mut self, id: &Vec<u8>, derive: F) -> (r: Result<usize, E>)
        requires
            old(self).derivation_count() < u64::MAX,
            forall|x: &Vec<u8>| derive.requires((x,)),
        ensures
            final(self).derivation_count() == old(self).derivation_count() + request_cost(old(self)@, id@),
            match find_entry(old(self)@, id@) {
                Some(k) => final(self)@ == old(self)@ && (r matches Ok(slot) && slot < final(self)@.len()
                    && final(self)@[slot as int] == (id@, k)),
                None => match r {
                    Ok(slot) => slot == old(self)@.len() && final(self)@ == request(
                        old(self)@,
                        id@,
                        final(self)@[slot as int].1,
                    ) && derive.ensures((id,), Ok::<K, E>(final(self)@[slot as int].1)),
                    Err(e) => final(self)@ == old(self)@ && derive.ensures((id,), Err::<K, E>(e)),
                },
            },
    {
        match self.lookup(id) {
            Some(slot) => Ok(slot),
            None => {
                self.derivations = self.derivations + 1;
                match derive(id) {
                    Ok(k) => {
                        let ghost before = self@;
                        let slot = self.entries.len();
                        self.entries.push((id.clone(), k));
                        assert(self@ =~= before.push((id@, k)));
                        Ok(slot)
                    },
                    Err(e) => Err(e),
                }
            },
        }
    }
}

proof fn lemma_find_pushed<K>(entries: Seq<(Seq<u8>, K)>, id: Seq<u8>, k: K)
    ensures
        find_entry(entries.push((id, k)), id) == Some(k),
{
    assert(entries.push((id, k)).last() == (id, k));
}

/// A single setup per identity: any number `n >= 1` of requests for the same
/// identity perform one derivation when no pair is stored for it, none when one
/// is, and afterwards all of them see one and the same pair.
pub proof fn lemma_single_setup<K>(entries: Seq<(Seq<u8>, K)>, id: Seq<u8>, fresh: Seq<K>)
    requires
        fresh.len() >= 1,
    ensures
        ({
            let ids = Seq::new(fresh.len(), |i: int| id);
            &&& derivations_for(entries, ids, fresh) == request_cost(entries, id)
            &&& find_entry(after_requests(entries, ids, fresh), id) == match find_entry(entries, id) {
                Some(k) => Some(k),
                None => Some(fresh[0]),
            }
        }),
    decreases fresh.len(),
{
    let n = fresh.len();
    let ids = Seq::new(n, |i: int| id);
    let init_ids = ids.drop_last();
    let init_fresh = fresh.drop_last();
    assert(ids.last() == id);
    if n == 1 {
        assert(init_ids.len() == 0);
        assert(after_requests(entries, init_ids, init_fresh) == entries);
        assert(derivations_for(entries, init_ids, init_fresh) == 0);
        if find_entry(entries, id) is None {
            lemma_find_pushed(entries, id, fresh.last());
        }
    } else {
        assert(init_ids =~= Seq::new(init_fresh.len(), |i: int| id));
        lemma_single_setup(entries, id, init_fresh);
        assert(init_fresh[0] == fresh[0]);
    }
}

/// Distinct identities get independent pairs: after a derivation for `a` and
/// one for `b`, each identity finds its own pair, and a further request for
/// either derives nothing.
pub proof fn lemma_independent_identities<K>(entries: Seq<(Seq<u8>, K)>, a: Seq<u8>, b: Seq<u8>, ka: K, kb: K)
    requires
        a != b,
        find_entry(entries, a) is None,
        find_entry(entries, b) is None,
    ensures
        ({
            let after = request(request(entries, a, ka), b, kb);
            &&& find_entry(after, a) == Some(ka)
            &&& find_entry(after, b) == Some(kb)
            &&& request_cost(after, a) == 0
            &&& request_cost(after, b) == 0
        }),
{
    let first = request(entries, a, ka);
    lemma_find_pushed(entries, a, ka);
    assert(find_entry(first, b) is None) by {
        assert(first.drop_last() =~= entries);
    }
    let after = request(first, b, kb);
    lemma_find_pushed(first, b, kb);
    assert(after.drop_last() =~= first);
}

} // verus!
