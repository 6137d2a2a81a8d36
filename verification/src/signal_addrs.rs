//! The registry of the signals that drive each rendered element, kept so
//! that an element's signals can be released when the element is removed.
use vstd::prelude::*;
use std::collections::HashMap;

verus! {

broadcast use vstd::std_specs::hash::group_hash_axioms;

/// The addresses recorded for element `id` in `m`; none when it has no
/// entry.
pub open spec fn addrs_of(m: Map<usize, Seq<usize>>, id: usize) -> Seq<usize> {
    if m.contains_key(id) {
        m[id]
    } else {
        Seq::empty()
    }
}

/// For each element id, the addresses of the signals that drive it, in
/// the order they were recorded.
pub struct SignalAddrs {
    map: HashMap<usize, Vec<usize>>,
}

impl SignalAddrs {
    /// The registry as a map from element id to its signal addresses.
    pub closed spec fn view_map(&self) -> Map<usize, Seq<usize>> {
        self.map@.map_values(|v: Vec<usize>| v@)
    }

    /// An empty registry.
    pub fn new() -> (r: Self)
        ensures
            r.view_map() == Map::<usize, Seq<usize>>::empty(),
    {
        let r = SignalAddrs { map: HashMap::new() };
        assert(r.view_map() =~= Map::<usize, Seq<usize>>::empty());
        r
    }

    /// Records that the signal at `addr` drives element `euv_id`.
    pub fn push(&mut self, euv_id: usize, addr: usize)
        ensures
            final(self).view_map() == old(self).view_map().insert(
                euv_id,
                addrs_of(old(self).view_map(), euv_id).push(addr),
            ),
    {
        let ghost before = self.view_map();
        let mut list: Vec<usize> = match self.map.remove(&euv_id) {
            Some(v) => v,
            None => Vec::new(),
        };
        assert(list@ == addrs_of(before, euv_id));
        list.push(addr);
        self.map.insert(euv_id, list);
        assert(self.view_map() =~= before.insert(euv_id, addrs_of(before, euv_id).push(addr)));
    }

    /// Removes and returns the addresses recorded for element `euv_id`.
    pub fn take(&mut self, euv_id: usize) -> (r: Option<Vec<usize>>)
        ensures
            final(self).view_map() == old(self).view_map().remove(euv_id),
            r is Some <==> old(self).view_map().contains_key(euv_id),
            r matches Some(v) ==> v@ == old(self).view_map()[euv_id],
    {
        let ghost before = self.view_map();
        let r = self.map.remove(&euv_id);
        assert(self.view_map() =~= before.remove(euv_id));
        r
    }
}

/// What `take` gives back for an element is every address pushed for it
/// since the last `take`, in the order pushed: pushing `addr` extends the
/// element's list by exactly that address and leaves every other element's
/// list alone.
pub proof fn law_push_appends(m: Map<usize, Seq<usize>>, euv_id: usize, addr: usize, other: usize)
    ensures
        addrs_of(m.insert(euv_id, addrs_of(m, euv_id).push(addr)), euv_id) == addrs_of(
            m,
            euv_id,
        ).push(addr),
        other != euv_id ==> addrs_of(m.insert(euv_id, addrs_of(m, euv_id).push(addr)), other)
            == addrs_of(m, other),
{
}

/// After a `take`, the element has no addresses left to take.
pub proof fn law_take_empties(m: Map<usize, Seq<usize>>, euv_id: usize)
    ensures
        !m.remove(euv_id).contains_key(euv_id),
        addrs_of(m.remove(euv_id), euv_id) == Seq::<usize>::empty(),
{
}

} // verus!
