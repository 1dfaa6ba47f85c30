//! The video call's bookkeeping: which remote peers this browser holds a
//! peer connection for. The existing peer offers to each newcomer, so each
//! pair has exactly one initiator; the newcomer answers; answers and ICE
//! candidates only apply to a connection that exists. The connections
//! themselves live in the browser and are kept beside this set, keyed the
//! same way.

use crate::protocol::same_text;
use vstd::prelude::*;

verus! {

/// The ids of `v`.
pub open spec fn ids_of(v: Seq<String>) -> Seq<Seq<char>> {
    v.map_values(|s: String| s@)
}

/// The element id of the tile that shows peer `pid`'s video.
pub fn remote_tile_id(pid: &str) -> (s: String)
    ensures
        s@ == "remote-"@ + pid@,
{
    String::from_str("remote-").concat(pid)
}

/// The remote peers with a connection.
pub struct CallPeers {
    ids: Vec<String>,
}

impl View for CallPeers {
    type V = Set<Seq<char>>;

    closed spec fn view(&self) -> Set<Seq<char>> {
        ids_of(self.ids@).to_set()
    }
}

impl CallPeers {
    #[verifier::type_invariant]
    spec fn inv(self) -> bool {
        ids_of(self.ids@).no_duplicates()
    }

    /// No connections.
    pub fn new() -> (c: CallPeers)
        ensures
            c@ == Set::<Seq<char>>::empty(),
    {
        let c = CallPeers { ids: Vec::new() };
        assert(c@ =~= Set::<Seq<char>>::empty());
        c
    }

    fn position(&self, pid: &str) -> (r: Option<usize>)
        ensures
            match r {
                Some(i) => i < self.ids@.len() && self.ids@[i as int]@ == pid@,
                None => !self@.contains(pid@),
            },
    {
        let n = self.ids.len();
        for i in 0..n
            invariant
                n == self.ids@.len(),
                forall|k: int| 0 <= k < i ==> #[trigger] self.ids@[k]@ != pid@,
        {
            if same_text(self.ids[i].as_str(), pid) {
                return Some(i);
            }
        }
        proof {
            if self@.contains(pid@) {
                let k = choose|k: int| 0 <= k < ids_of(self.ids@).len() && #[trigger] ids_of(self.ids@)[k] == pid@;
                assert(self.ids@[k]@ == pid@);
            }
        }
        None
    }

    /// Is there a connection for `pid`? Answers and ICE candidates from a
    /// peer without one are ignored.
    pub fn has(&self, pid: &str) -> (b: bool)
        ensures
            b == self@.contains(pid@),
    {
        match self.position(pid) {
            Some(i) => {
                assert(ids_of(self.ids@)[i as int] == pid@);
                true
            },
            None => false,
        }
    }

    fn add(&mut self, pid: &str)
        ensures
            final(self)@ == old(self)@.insert(pid@),
    {
        proof {
            use_type_invariant(&*self);
        }
        if self.has(pid) {
            assert(self@.insert(pid@) =~= self@);
        } else {
            let mut ids: Vec<String> = Vec::new();
            std::mem::swap(&mut ids, &mut self.ids);
            let ghost before = ids_of(ids@);
            ids.push(pid.to_owned());
            assert(ids_of(ids@) =~= before.push(pid@));
            assert(ids_of(ids@).no_duplicates()) by {
                assert forall|a: int, b: int|
                    0 <= a < ids_of(ids@).len() && 0 <= b < ids_of(ids@).len() && a != b implies ids_of(
                    ids@,
                )[a] != ids_of(ids@)[b] by {
                    if a < before.len() && b < before.len() {
                    } else if a < before.len() {
                        assert(before.contains(before[a]));
                    } else {
                        assert(before.contains(before[b]));
                    }
                }
            }
            proof {
                before.lemma_push_to_set_commute(pid@);
            }
            assert(ids_of(ids@).to_set() =~= before.to_set().insert(pid@));
            self.ids = ids;
        }
    }

    /// A newcomer `pid` joined while we were here: we make a connection (a
    /// new one replaces any old one) and offer.
    pub fn peer_joined(&mut self, pid: &str)
        ensures
            final(self)@ == old(self)@.insert(pid@),
    {
        self.add(pid)
    }

    /// An offer arrived from `from`: answer on the existing connection
    /// (`true`) or on a new one (`false`).
    pub fn offer_from(&mut self, from: &str) -> (reused: bool)
        ensures
            reused == old(self)@.contains(from@),
            final(self)@ == old(self)@.insert(from@),
    {
        let reused = self.has(from);
        self.add(from);
        reused
    }

    /// Peer `pid` left: its connection, if any, is closed (`true`) and
    /// forgotten.
    pub fn peer_left(&mut self, pid: &str) -> (closed: bool)
        ensures
            closed == old(self)@.contains(pid@),
            final(self)@ == old(self)@.remove(pid@),
    {
        proof {
            use_type_invariant(&*self);
        }
        match self.position(pid) {
            Some(i) => {
                let mut ids: Vec<String> = Vec::new();
                std::mem::swap(&mut ids, &mut self.ids);
                let ghost before = ids_of(ids@);
                assert(before[i as int] == pid@);
                ids.remove(i);
                assert(ids_of(ids@) =~= before.remove(i as int));
                assert(ids_of(ids@).no_duplicates()) by {
                    assert forall|a: int, b: int|
                        0 <= a < ids_of(ids@).len() && 0 <= b < ids_of(ids@).len() && a != b implies ids_of(
                        ids@,
                    )[a] != ids_of(ids@)[b] by {
                        let a2 = if a < i { a } else { a + 1 };
                        let b2 = if b < i { b } else { b + 1 };
                        assert(ids_of(ids@)[a] == before[a2]);
                        assert(ids_of(ids@)[b] == before[b2]);
                    }
                }
                assert(ids_of(ids@).to_set() =~= before.to_set().remove(pid@)) by {
                    assert forall|x: Seq<char>| #[trigger] ids_of(ids@).contains(x) <==> before.to_set().remove(pid@).contains(x) by {
                        if ids_of(ids@).contains(x) {
                            let k = choose|k: int| 0 <= k < ids_of(ids@).len() && ids_of(ids@)[k] == x;
                            let k2 = if k < i { k } else { k + 1 };
                            assert(before[k2] == x);
                            assert(k2 != i);
                        }
                        if before.to_set().remove(pid@).contains(x) {
                            let k = choose|k: int| 0 <= k < before.len() && before[k] == x;
                            assert(k != i);
                            let k2 = if k < i { k } else { k - 1 };
                            assert(ids_of(ids@)[k2] == x);
                        }
                    }
                }
                self.ids = ids;
                assert(before.contains(pid@));
                true
            },
            None => {
                assert(self@.remove(pid@) =~= self@);
                false
            },
        }
    }

    /// Forget every connection before (re)joining; returns the peers whose
    /// connections are to be closed, each once.
    pub fn reset(&mut self) -> (closed: Vec<String>)
        ensures
            final(self)@ == Set::<Seq<char>>::empty(),
            ids_of(closed@).to_set() == old(self)@,
            ids_of(closed@).no_duplicates(),
    {
        proof {
            use_type_invariant(&*self);
        }
        let mut ids: Vec<String> = Vec::new();
        std::mem::swap(&mut ids, &mut self.ids);
        assert(ids_of(Seq::<String>::empty()).to_set() =~= Set::<Seq<char>>::empty());
        ids
    }
}

} // verus!
