use std::collections::HashMap;
use std::collections::VecDeque;

use vstd::prelude::*;
use vstd::std_specs::iter::IteratorSpec;

verus! {

broadcast use vstd::std_specs::hash::group_hash_axioms;

/// The identifier that follows `n`: one more, wrapping around and skipping 0.
pub open spec fn next_browser_id(n: u32) -> u32 {
    if n == u32::MAX {
        1
    } else {
        (n + 1) as u32
    }
}

/// What the browser host keeps: the identifiers it gave out, the browsers by identifier, the
/// `open` requests waiting for their browser, and whether it is shutting down.
pub struct HostState<B> {
    pub next_browser_id: u32,
    pub browsers: HashMap<u32, B>,
    /// Request identifiers of `open` calls, oldest first, each waiting for its browser.
    pub pending_opens: VecDeque<u64>,
    /// Set once shutdown was asked for; the next browser to close then ends the message loop.
    pub shutting_down: bool,
}

impl<B> HostState<B> {
    /// No identifiers given out yet, no browsers, nothing pending, not shutting down.
    pub fn new() -> (r: Self)
        ensures
            r.next_browser_id == 0,
            r.browsers@ == Map::<u32, B>::empty(),
            r.pending_opens@ == Seq::<u64>::empty(),
            !r.shutting_down,
    {
        HostState {
            next_browser_id: 0,
            browsers: HashMap::new(),
            pending_opens: VecDeque::new(),
            shutting_down: false,
        }
    }

    /// Gives out the next browser identifier: one more than the last, wrapping around and
    /// never 0.
    pub fn allocate_browser_id(&mut self) -> (r: u32)
        ensures
            r == next_browser_id(old(self).next_browser_id),
            r != 0,
            final(self).next_browser_id == r,
            final(self).browsers@ == old(self).browsers@,
            final(self).pending_opens@ == old(self).pending_opens@,
            final(self).shutting_down == old(self).shutting_down,
    {
        self.next_browser_id = self.next_browser_id.wrapping_add(1);
        if self.next_browser_id == 0 {
            self.next_browser_id = 1;
        }
        self.next_browser_id
    }

    /// Records that an `open` request waits for its browser.
    pub fn queue_open(&mut self, request_id: u64)
        ensures
            final(self).pending_opens@ == old(self).pending_opens@.push(request_id),
            final(self).next_browser_id == old(self).next_browser_id,
            final(self).browsers@ == old(self).browsers@,
            final(self).shutting_down == old(self).shutting_down,
    {
        self.pending_opens.push_back(request_id);
    }

    /// Takes in a browser that was just created: gives it the next identifier and answers the
    /// oldest waiting `open` request, if any. Returns that request and the identifier.
    pub fn register_browser(&mut self, browser: B) -> (r: (Option<u64>, u32))
        ensures
            r.1 == next_browser_id(old(self).next_browser_id),
            final(self).next_browser_id == r.1,
            final(self).browsers@ == old(self).browsers@.insert(r.1, browser),
            old(self).pending_opens@.len() == 0 ==> {
                &&& r.0 == None::<u64>
                &&& final(self).pending_opens@ == old(self).pending_opens@
            },
            old(self).pending_opens@.len() > 0 ==> {
                &&& r.0 == Some(old(self).pending_opens@[0])
                &&& final(self).pending_opens@ == old(self).pending_opens@.drop_first()
            },
            final(self).shutting_down == old(self).shutting_down,
    {
        let browser_id = self.allocate_browser_id();
        self.browsers.insert(browser_id, browser);
        let request = self.pending_opens.pop_front();
        proof {
            if old(self).pending_opens@.len() > 0 {
                assert(self.pending_opens@ =~= old(self).pending_opens@.drop_first());
            }
        }
        (request, browser_id)
    }

    /// Forgets a browser that is about to close, where it has an identifier. Returns whether
    /// the message loop should end, which it does once shutdown was asked for.
    pub fn unregister_browser(&mut self, browser_id: Option<u32>) -> (r: bool)
        ensures
            final(self).browsers@ == match browser_id {
                Some(id) => old(self).browsers@.remove(id),
                None => old(self).browsers@,
            },
            r == old(self).shutting_down,
            final(self).next_browser_id == old(self).next_browser_id,
            final(self).pending_opens@ == old(self).pending_opens@,
            final(self).shutting_down == old(self).shutting_down,
    {
        match browser_id {
            Some(id) => {
                self.browsers.remove(&id);
            },
            None => {},
        }
        self.shutting_down
    }

    /// The identifiers of all browsers, each once, in the map's own order.
    pub fn browser_ids(&self) -> (r: Vec<u32>)
        ensures
            r@.to_set() == self.browsers@.dom(),
            r@.no_duplicates(),
    {
        let ghost keys = vstd::std_specs::hash::spec_keys_iter(&self.browsers).remaining();
        let mut ids: Vec<u32> = Vec::new();
        for id in it: self.browsers.keys()
            invariant
                it.seq() == keys,
                ids@ == it.seq().take(it.index() as int).map_values(|k: &u32| *k),
        {
            ids.push(*id);
            assert(ids@ =~= it.seq().take(it.index() + 1).map_values(|k: &u32| *k));
        }
        assert(keys.take(keys.len() as int) =~= keys);
        assert(ids@ =~= keys.unref());
        ids
    }

    /// Marks the host as shutting down. Returns the identifiers of the browsers to close;
    /// where there is none, the message loop can end at once.
    pub fn begin_shutdown(&mut self) -> (r: Vec<u32>)
        ensures
            final(self).shutting_down,
            r@.to_set() == old(self).browsers@.dom(),
            r@.no_duplicates(),
            final(self).browsers@ == old(self).browsers@,
            final(self).next_browser_id == old(self).next_browser_id,
            final(self).pending_opens@ == old(self).pending_opens@,
    {
        self.shutting_down = true;
        self.browser_ids()
    }
}

/// The identifier under which `state` keeps the browser that `is_same` recognizes, if any.
pub fn browser_id_of<B, F: Fn(&B) -> bool>(state: &HostState<B>, is_same: F) -> (r: Option<u32>)
    requires
        forall|b: &B| #[trigger] is_same.requires((b,)),
    ensures
        match r {
            Some(id) => state.browsers@.contains_key(id) && is_same.ensures(
                (&state.browsers@[id],),
                true,
            ),
            None => forall|id: u32|
                #[trigger] state.browsers@.contains_key(id) ==> is_same.ensures(
                    (&state.browsers@[id],),
                    false,
                ),
        },
{
    let ids = state.browser_ids();
    for i in 0..ids.len()
        invariant
            ids@.to_set() == state.browsers@.dom(),
            forall|b: &B| #[trigger] is_same.requires((b,)),
            forall|j: int|
                0 <= j < i ==> is_same.ensures((&state.browsers@[#[trigger] ids@[j]],), false),
    {
        let id = ids[i];
        assert(ids@.to_set().contains(id));
        let browser = state.browsers.get(&id).unwrap();
        if is_same(browser) {
            return Some(id);
        }
    }
    assert forall|id: u32| #[trigger] state.browsers@.contains_key(id) implies is_same.ensures(
        (&state.browsers@[id],),
        false,
    ) by {
        assert(ids@.to_set().contains(id));
        let j = choose|j: int| 0 <= j < ids@.len() && ids@[j] == id;
    }
    None
}

/// Shutdown bookkeeping of the browser host.
pub struct HostHandler {
    is_closing: bool,
}

impl HostHandler {
    /// A handler that is not closing.
    pub fn new() -> (r: Self)
        ensures
            !r.is_closing_flag(),
    {
        HostHandler { is_closing: false }
    }

    pub closed spec fn is_closing_flag(&self) -> bool {
        self.is_closing
    }

    /// Whether closing all browsers was asked for.
    pub fn is_closing(&self) -> (r: bool)
        ensures
            r == self.is_closing_flag(),
    {
        self.is_closing
    }

    /// Marks the handler as closing. Returns the identifiers of all browsers of `state`, each
    /// once, to be closed.
    pub fn close_all_browsers<B>(&mut self, state: &HostState<B>) -> (r: Vec<u32>)
        ensures
            final(self).is_closing_flag(),
            r@.to_set() == state.browsers@.dom(),
            r@.no_duplicates(),
    {
        self.is_closing = true;
        state.browser_ids()
    }
}

} // verus!
