//! Requests that wait for their RESPONSE, each with its own timeout.
use vstd::prelude::*;
use vstd::hash_map::StringHashMap;

verus! {

/// An in-flight call: the node it went to and its timeout in milliseconds.
pub struct ResponseWaiter {
    pub node_name: String,
    pub timeout: i32,
}

/// The table of in-flight calls, keyed by request id.
///
/// A waiter is inserted before its REQUEST is sent and leaves on whichever
/// comes first, its RESPONSE or its timeout.
pub struct Response {
    waiters: StringHashMap<ResponseWaiter>,
}

/// A table of in-flight calls after the RESPONSE or the timeout of `id`.
pub open spec fn settled(waiters: Map<Seq<char>, Seq<char>>, id: Seq<char>) -> Map<Seq<char>, Seq<char>> {
    waiters.remove(id)
}

impl Response {
    /// Request id to the node the request went to.
    pub closed spec fn view(&self) -> Map<Seq<char>, Seq<char>> {
        self.waiters@.map_values(|w: ResponseWaiter| w.node_name@)
    }

    pub fn new() -> (r: Self)
        ensures
            r.view() == Map::<Seq<char>, Seq<char>>::empty(),
    {
        let r = Response { waiters: StringHashMap::new() };
        proof {
            assert(r.view() =~= Map::<Seq<char>, Seq<char>>::empty());
        }
        r
    }

    pub fn is_waiting(&self, request_id: &str) -> (r: bool)
        ensures
            r == self.view().contains_key(request_id@),
    {
        self.waiters.contains_key(request_id)
    }

    /// Registers the call `request_id` sent to `node_name`.
    pub fn start_response_waiter(&mut self, timeout: i32, node_name: String, request_id: String)
        ensures
            final(self).view() == old(self).view().insert(request_id@, node_name@),
    {
        self.waiters.insert(request_id, ResponseWaiter { node_name, timeout });
        proof {
            assert(self.view() =~= old(self).view().insert(request_id@, node_name@));
        }
    }

    /// The timeout of `request_id` expired: its waiter leaves, and the caller
    /// sees a timeout. Returns whether it was still waiting.
    pub fn timeout_reached(&mut self, request_id: &str) -> (r: bool)
        ensures
            r == old(self).view().contains_key(request_id@),
            final(self).view() == settled(old(self).view(), request_id@),
    {
        let r = self.waiters.contains_key(request_id);
        self.waiters.remove(request_id);
        proof {
            assert(self.view() =~= old(self).view().remove(request_id@));
        }
        r
    }

    /// A RESPONSE for `request_id` from `sender` arrived. When the request is
    /// waiting, its waiter leaves and the result says whether `sender` is the
    /// node the request went to (the data is delivered either way); a
    /// RESPONSE for an unknown id is dropped and changes nothing.
    pub fn handle_message(&mut self, request_id: &str, sender: &str) -> (r: Option<bool>)
        ensures
            match r {
                Some(same) => old(self).view().contains_key(request_id@)
                    && same == (old(self).view()[request_id@] == sender@),
                None => !old(self).view().contains_key(request_id@),
            },
            final(self).view() == settled(old(self).view(), request_id@),
    {
        let sender = sender.to_owned();
        let r = match self.waiters.get(request_id) {
            Some(w) => Some(w.node_name == sender),
            None => None,
        };
        self.waiters.remove(request_id);
        proof {
            assert(self.view() =~= old(self).view().remove(request_id@));
        }
        r
    }
}

/// A call settles once: after its RESPONSE it is no longer waiting, so its
/// timeout finds nothing to drop; after its timeout, a late RESPONSE finds
/// nothing to deliver. No other call is affected either way.
pub proof fn lemma_settles_once(waiters: Map<Seq<char>, Seq<char>>, id: Seq<char>)
    requires
        waiters.contains_key(id),
    ensures
        !settled(waiters, id).contains_key(id),
        settled(settled(waiters, id), id) == settled(waiters, id),
        forall|other: Seq<char>| other != id ==> (#[trigger] settled(waiters, id).contains_key(other)
            <==> waiters.contains_key(other)),
{
    assert(settled(settled(waiters, id), id) =~= settled(waiters, id));
}

} // verus!
