//! The session gate: binds an access token to a caller-scoped session record
//! and answers access-control queries. Sessions are created on successful
//! token exchange only, keyed by a fresh unguessable session identifier, and
//! looked up read-only on every protected-resource check.

use vstd::prelude::*;

verus! {

use crate::token::lemma_distinct_serials_distinct_tokens;
use crate::token::mint_token;
use crate::token::token_serial_below;
use crate::token::token_shape;

/// Status of a caller with respect to the protected resource.
#[derive(Clone, Copy, PartialEq, Eq, Structural, Debug)]
pub enum AuthStatus {
    Authenticated,
    Unauthenticated,
}

/// A server-side session: an opaque identifier bound to the access token the
/// provider issued for the caller.
pub struct SessionRecord {
    pub session_id: String,
    pub access_token: String,
    pub created_at: u64,
    pub serial: u64,
}

/// The session store. `issued` remembers every session identifier this gate
/// ever handed out, so freshness of new identifiers is part of the record.
pub struct SessionGate {
    records: Vec<SessionRecord>,
    next_serial: u64,
    issued: Ghost<Set<Seq<char>>>,
}

impl SessionGate {
    /// Every session identifier this gate ever issued.
    pub closed spec fn issued(self) -> Set<Seq<char>> {
        self.issued@
    }

    /// A session record with this identifier exists.
    pub closed spec fn has_session(self, sid: Seq<char>) -> bool {
        exists|i: int|
            0 <= i < self.records.len() && (#[trigger] self.records[i]).session_id@ == sid
    }

    /// The access token bound to the session with this identifier.
    pub closed spec fn access_token_of(self, sid: Seq<char>) -> Seq<char> {
        let i = choose|i: int|
            0 <= i < self.records.len() && (#[trigger] self.records[i]).session_id@ == sid;
        self.records[i].access_token@
    }

    pub closed spec fn session_count(self) -> nat {
        self.records.len() as nat
    }

    /// Serial numbers remain available for new sessions.
    pub closed spec fn can_establish(self) -> bool {
        self.next_serial < u64::MAX
    }

    pub closed spec fn wf(self) -> bool {
        &&& forall|i: int|
            0 <= i < self.records.len() ==> {
                let r = #[trigger] self.records[i];
                &&& r.serial < self.next_serial
                &&& token_shape(r.session_id@, r.serial)
                &&& self.issued@.contains(r.session_id@)
            }
        &&& forall|i: int, j: int|
            0 <= i < self.records.len() && 0 <= j < self.records.len() && i != j ==> (
            #[trigger] self.records[i]).serial != (#[trigger] self.records[j]).serial
        &&& forall|t: Seq<char>|
            self.issued@.contains(t) ==> #[trigger] token_serial_below(t, self.next_serial)
    }

    /// Whether serial numbers remain available, testable by callers.
    pub fn has_serials_left(&self) -> (b: bool)
        ensures
            b == self.can_establish(),
    {
        self.next_serial < u64::MAX
    }

    /// An empty gate: every caller starts out unauthenticated.
    pub fn new() -> (g: Self)
        ensures
            g.wf(),
            g.can_establish(),
            g.issued() == Set::<Seq<char>>::empty(),
            g.session_count() == 0,
            forall|sid: Seq<char>| !(#[trigger] g.has_session(sid)),
    {
        SessionGate { records: Vec::new(), next_serial: 0, issued: Ghost(Set::empty()) }
    }

    /// Creates a new session bound to `access_token` and returns its fresh
    /// identifier. Overwrites nothing: every call adds one distinct session.
    pub fn establish(&mut self, access_token: String, now: u64) -> (sid: String)
        requires
            old(self).wf(),
            old(self).can_establish(),
        ensures
            final(self).wf(),
            !old(self).issued().contains(sid@),
            final(self).issued() == old(self).issued().insert(sid@),
            final(self).has_session(sid@),
            final(self).access_token_of(sid@) == access_token@,
            forall|x: Seq<char>|
                x != sid@ ==> #[trigger] final(self).has_session(x) == old(self).has_session(x),
            final(self).session_count() == old(self).session_count() + 1,
    {
        let ghost prior = *self;
        let serial = self.next_serial;
        self.next_serial = self.next_serial + 1;
        let sid = mint_token(serial);
        let record = SessionRecord {
            session_id: sid.clone(),
            access_token,
            created_at: now,
            serial,
        };
        self.records.push(record);
        self.issued = Ghost(self.issued@.insert(sid@));
        proof {
            let n = self.records.len() - 1;
            assert(self.records[n].session_id@ == sid@);
            if prior.issued@.contains(sid@) {
                assert(token_serial_below(sid@, prior.next_serial));
                let k = choose|k: u64| k < prior.next_serial && #[trigger] token_shape(sid@, k);
                lemma_distinct_serials_distinct_tokens(sid@, k, sid@, serial);
            }
            assert forall|t: Seq<char>| self.issued@.contains(t) implies
                #[trigger] token_serial_below(t, self.next_serial) by {
                if t == sid@ {
                    assert(token_shape(sid@, serial) && serial < self.next_serial);
                } else {
                    assert(token_serial_below(t, prior.next_serial));
                    let k = choose|k: u64| k < prior.next_serial && #[trigger] token_shape(t, k);
                    assert(token_shape(t, k) && k < self.next_serial);
                }
            }
            assert forall|x: Seq<char>| x != sid@ implies #[trigger] self.has_session(x)
                == prior.has_session(x) by {
                if prior.has_session(x) {
                    let i = choose|i: int|
                        0 <= i < prior.records.len() && (
                        #[trigger] prior.records[i]).session_id@ == x;
                    assert(self.records[i].session_id@ == x);
                }
                if self.has_session(x) {
                    let i = choose|i: int|
                        0 <= i < self.records.len() && (#[trigger] self.records[i]).session_id@
                            == x;
                    assert(i < prior.records.len());
                    assert(prior.records[i].session_id@ == x);
                }
            }
            let w = choose|i: int|
                0 <= i < self.records.len() && (#[trigger] self.records[i]).session_id@ == sid@;
            if w != n {
                assert(self.records[w].session_id@ == sid@);
                assert(prior.records[w].session_id@ == sid@);
                assert(prior.issued@.contains(sid@));
                assert(false);
            }
            assert(self.access_token_of(sid@) == self.records[n].access_token@);
        }
        sid
    }

    /// Read-only lookup: `Authenticated` exactly when a session with this
    /// identifier exists.
    pub fn check(&self, session_id: &String) -> (r: AuthStatus)
        ensures
            r == AuthStatus::Authenticated <==> self.has_session(session_id@),
    {
        let mut i: usize = 0;
        while i < self.records.len()
            invariant
                i <= self.records.len(),
                forall|j: int|
                    0 <= j < i ==> (#[trigger] self.records[j]).session_id@ != session_id@,
            decreases self.records.len() - i,
        {
            if self.records[i].session_id == *session_id {
                return AuthStatus::Authenticated;
            }
            i = i + 1;
        }
        AuthStatus::Unauthenticated
    }
}

/// For one store state and one identifier, a lookup has one possible
/// answer: repeated lookups of the same un-expired session agree, and a
/// lookup mutates nothing (`check` borrows the store immutably).
pub proof fn law_check_idempotent(g: SessionGate, sid: Seq<char>, r1: AuthStatus, r2: AuthStatus)
    requires
        r1 == AuthStatus::Authenticated <==> g.has_session(sid),
        r2 == AuthStatus::Authenticated <==> g.has_session(sid),
    ensures
        r1 == r2,
{
    match r1 {
        AuthStatus::Authenticated => {
            assert(g.has_session(sid));
        },
        AuthStatus::Unauthenticated => {
            assert(!g.has_session(sid));
            match r2 {
                AuthStatus::Authenticated => {
                    assert(false);
                },
                AuthStatus::Unauthenticated => {
                },
            }
        },
    }
}

} // verus!
