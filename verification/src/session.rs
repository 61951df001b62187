//! The session table: maps a remote endpoint to its session record.
//!
//! Created, read and mutated exclusively by the handshake state
//! machine. Viewed as a mathematical map from endpoints to sessions;
//! the operations' contracts are stated over that map.

use vstd::prelude::*;

use crate::client::Client;
use crate::endpoint::Endpoint;

verus! {

/// The map an entry list denotes, later entries winning (the table's
/// invariant keeps keys unique, so order never matters in practice).
pub open spec fn entries_map(s: Seq<(Endpoint, Client)>) -> Map<Endpoint, Client>
    decreases s.len(),
{
    if s.len() == 0 {
        Map::empty()
    } else {
        entries_map(s.drop_last()).insert(s.last().0, s.last().1)
    }
}

/// Entry lists with pairwise distinct endpoints.
pub open spec fn entries_unique(s: Seq<(Endpoint, Client)>) -> bool {
    forall|i: int, j: int| 0 <= i < j < s.len() ==> (#[trigger] s[i]).0 != (#[trigger] s[j]).0
}

proof fn lemma_entries_map_not_found(s: Seq<(Endpoint, Client)>, ep: Endpoint)
    requires
        forall|i: int| 0 <= i < s.len() ==> (#[trigger] s[i]).0 != ep,
    ensures
        !entries_map(s).contains_key(ep),
    decreases s.len(),
{
    if s.len() > 0 {
        lemma_entries_map_not_found(s.drop_last(), ep);
    }
}

proof fn lemma_entries_map_found(s: Seq<(Endpoint, Client)>, ep: Endpoint, i: int)
    requires
        entries_unique(s),
        0 <= i < s.len(),
        s[i].0 == ep,
    ensures
        entries_map(s).contains_key(ep),
        entries_map(s)[ep] == s[i].1,
    decreases s.len(),
{
    if i == s.len() - 1 {
    } else {
        lemma_entries_map_found(s.drop_last(), ep, i);
        assert(s.last().0 != ep);
    }
}

proof fn lemma_entries_map_update(s: Seq<(Endpoint, Client)>, i: int, c: Client)
    requires
        entries_unique(s),
        0 <= i < s.len(),
    ensures
        entries_map(s.update(i, (s[i].0, c))) =~= entries_map(s).insert(s[i].0, c),
    decreases s.len(),
{
    let ep = s[i].0;
    let s2 = s.update(i, (ep, c));
    if i == s.len() - 1 {
        assert(s2.drop_last() =~= s.drop_last());
        assert(s2.last() == (ep, c));
    } else {
        assert(s2.drop_last() =~= s.drop_last().update(i, (ep, c)));
        assert(s.drop_last()[i] == s[i]);
        lemma_entries_map_update(s.drop_last(), i, c);
        assert(s2.last() == s.last());
        assert(s.last().0 != ep);
    }
}

proof fn lemma_entries_map_remove(s: Seq<(Endpoint, Client)>, i: int)
    requires
        entries_unique(s),
        0 <= i < s.len(),
    ensures
        entries_map(s.remove(i)) =~= entries_map(s).remove(s[i].0),
    decreases s.len(),
{
    let ep = s[i].0;
    if i == s.len() - 1 {
        assert(s.remove(i) =~= s.drop_last());
        assert(forall|j: int| 0 <= j < s.drop_last().len() ==> (#[trigger] s.drop_last()[j]).0
            != ep);
        lemma_entries_map_not_found(s.drop_last(), ep);
        assert(entries_map(s.drop_last()).remove(ep) =~= entries_map(s.drop_last()));
    } else {
        assert(s.remove(i).drop_last() =~= s.drop_last().remove(i));
        assert(s.drop_last()[i] == s[i]);
        lemma_entries_map_remove(s.drop_last(), i);
        assert(s.remove(i).last() == s.last());
        assert(s.last().0 != ep);
    }
}

proof fn lemma_entries_map_dom_len(s: Seq<(Endpoint, Client)>)
    requires
        entries_unique(s),
    ensures
        entries_map(s).dom().finite(),
        entries_map(s).dom().len() == s.len(),
    decreases s.len(),
{
    if s.len() > 0 {
        lemma_entries_map_dom_len(s.drop_last());
        let ep = s.last().0;
        assert(forall|j: int| 0 <= j < s.drop_last().len() ==> (#[trigger] s.drop_last()[j]).0
            != ep);
        lemma_entries_map_not_found(s.drop_last(), ep);
        assert(entries_map(s).dom() =~= entries_map(s.drop_last()).dom().insert(ep));
    }
}

/// The session table. Exposes insert-or-replace, lookup and removal,
/// keyed by the remote endpoint.
pub struct SessionTable {
    entries: Vec<(Endpoint, Client)>,
}

impl View for SessionTable {
    type V = Map<Endpoint, Client>;

    closed spec fn view(&self) -> Map<Endpoint, Client> {
        entries_map(self.entries@)
    }
}

impl SessionTable {
    /// The table's invariant: one entry per endpoint.
    pub closed spec fn wf(&self) -> bool {
        entries_unique(self.entries@)
    }

    /// An empty table.
    pub fn new() -> (r: SessionTable)
        ensures
            r.wf(),
            r@ == Map::<Endpoint, Client>::empty(),
    {
        SessionTable { entries: Vec::new() }
    }

    /// The index holding `ep`, if any.
    fn find(&self, ep: Endpoint) -> (r: Option<usize>)
        requires
            self.wf(),
        ensures
            match r {
                Some(i) => i < self.entries@.len() && self.entries@[i as int].0 == ep,
                None => forall|i: int|
                    0 <= i < self.entries@.len() ==> (#[trigger] self.entries@[i]).0 != ep,
            },
    {
        let mut i: usize = 0;
        while i < self.entries.len()
            invariant
                i <= self.entries@.len(),
                forall|j: int| 0 <= j < i ==> (#[trigger] self.entries@[j]).0 != ep,
            decreases self.entries@.len() - i,
        {
            if self.entries[i].0 == ep {
                return Some(i);
            }
            i += 1;
        }
        None
    }

    /// How many sessions the table holds.
    pub fn len(&self) -> (r: usize)
        requires
            self.wf(),
        ensures
            r == self@.dom().len(),
            self@.dom().finite(),
    {
        proof {
            lemma_entries_map_dom_len(self.entries@);
        }
        self.entries.len()
    }

    /// Whether `ep` has a session.
    pub fn contains(&self, ep: Endpoint) -> (r: bool)
        requires
            self.wf(),
        ensures
            r == self@.contains_key(ep),
    {
        match self.find(ep) {
            Some(i) => {
                proof {
                    lemma_entries_map_found(self.entries@, ep, i as int);
                }
                true
            },
            None => {
                proof {
                    lemma_entries_map_not_found(self.entries@, ep);
                }
                false
            },
        }
    }

    /// Creates a fresh session for `ep` with the negotiated MTU,
    /// replacing any session the endpoint already had, and hands the
    /// new record back.
    pub fn create(&mut self, ep: Endpoint, mtu_size: i16, now_ms: u64) -> (r: Client)
        requires
            old(self).wf(),
        ensures
            final(self).wf(),
            r == (Client {
                addr: ep,
                mtu_size,
                last_update: now_ms,
                relationship: None,
                guid: None,
            }),
            final(self)@ == old(self)@.insert(ep, r),
    {
        let client = Client::new(ep, mtu_size, now_ms);
        self.insert(ep, client);
        client
    }

    /// Creates or replaces the session for `ep`.
    pub fn insert(&mut self, ep: Endpoint, client: Client)
        requires
            old(self).wf(),
        ensures
            final(self).wf(),
            final(self)@ == old(self)@.insert(ep, client),
    {
        match self.find(ep) {
            Some(i) => {
                proof {
                    lemma_entries_map_update(self.entries@, i as int, client);
                }
                self.entries[i] = (ep, client);
                assert(self.entries@ =~= old(self).entries@.update(i as int, (ep, client)));
                assert(self@ =~= old(self)@.insert(ep, client));
            },
            None => {
                self.entries.push((ep, client));
                proof {
                    assert(self.entries@.drop_last() =~= old(self).entries@);
                    assert(self@ =~= old(self)@.insert(ep, client));
                }
            },
        }
    }

    /// The session for `ep`, if one exists.
    pub fn get(&self, ep: Endpoint) -> (r: Option<&Client>)
        requires
            self.wf(),
        ensures
            match r {
                Some(c) => self@.contains_key(ep) && *c == self@[ep],
                None => !self@.contains_key(ep),
            },
    {
        match self.find(ep) {
            Some(i) => {
                proof {
                    lemma_entries_map_found(self.entries@, ep, i as int);
                }
                Some(&self.entries[i].1)
            },
            None => {
                proof {
                    lemma_entries_map_not_found(self.entries@, ep);
                }
                None
            },
        }
    }

    /// Drops the session for `ep`, if one exists.
    pub fn remove(&mut self, ep: Endpoint)
        requires
            old(self).wf(),
        ensures
            final(self).wf(),
            final(self)@ == old(self)@.remove(ep),
    {
        match self.find(ep) {
            Some(i) => {
                proof {
                    lemma_entries_map_remove(self.entries@, i as int);
                }
                self.entries.remove(i);
                assert(self@ =~= old(self)@.remove(ep));
            },
            None => {
                proof {
                    lemma_entries_map_not_found(self.entries@, ep);
                    assert(self@ =~= old(self)@.remove(ep));
                }
            },
        }
    }
}

} // verus!
