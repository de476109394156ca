//! The authorization request issuer: builds the provider authorization URL
//! for a login attempt and keeps the pending anti-forgery state tokens, one
//! per attempt, until the callback consumes them.

use vstd::prelude::*;

verus! {

use crate::config::OAuthClientConfig;
use crate::encoding::chars_of;
use crate::encoding::contains_chars;
use crate::encoding::is_unreserved_byte;
use crate::encoding::lemma_concat_contains;
use crate::encoding::lemma_pct_concat;
use crate::encoding::lemma_pct_unreserved;
use crate::encoding::pct_byte;
use crate::encoding::pct_encode;
use crate::encoding::pct_encoded;
use crate::token::lemma_distinct_serials_distinct_tokens;
use crate::token::mint_token;
use crate::token::token_serial_below;
use crate::token::token_shape;
use vstd::string::StringExecFns;
use vstd::utf8::encode_utf8;

/// The views of the requested scopes.
pub open spec fn scope_views(scopes: Seq<String>) -> Seq<Seq<char>> {
    Seq::new(scopes.len(), |i: int| scopes[i]@)
}

/// The scopes joined into one space-separated list.
pub open spec fn joined_scopes(ss: Seq<Seq<char>>) -> Seq<char>
    decreases ss.len(),
{
    if ss.len() == 0 {
        Seq::empty()
    } else if ss.len() == 1 {
        ss[0]
    } else {
        joined_scopes(ss.drop_last()) + seq![' '] + ss.last()
    }
}

/// Joins the scopes with single spaces.
pub fn join_scopes(scopes: &Vec<String>) -> (r: String)
    ensures
        r@ == joined_scopes(scope_views(scopes@)),
{
    let mut out = String::new();
    let mut i: usize = 0;
    while i < scopes.len()
        invariant
            i <= scopes.len(),
            out@ == joined_scopes(scope_views(scopes@).take(i as int)),
        decreases scopes.len() - i,
    {
        proof {
            let ss = scope_views(scopes@);
            assert(ss.take(i + 1).drop_last() =~= ss.take(i as int));
            assert(ss.take(i + 1).last() == scopes@[i as int]@);
            reveal_strlit(" ");
            assert(" "@ =~= seq![' ']);
        }
        if i > 0 {
            out.append(" ");
        }
        out.append(scopes[i].as_str());
        i = i + 1;
    }
    proof {
        assert(scope_views(scopes@).take(scopes@.len() as int) =~= scope_views(scopes@));
    }
    out
}

/// The provider authorization URL for one login attempt: the authorization
/// endpoint with the response type, client id, redirect URI, scope list and
/// state token as percent-encoded query parameters.
pub open spec fn auth_url_chars(cfg: OAuthClientConfig, state: Seq<char>) -> Seq<char> {
    cfg.authorization_endpoint@ + "?response_type=code&client_id="@ + chars_of(
        pct_encoded(encode_utf8(cfg.client_id@)),
    ) + "&redirect_uri="@ + chars_of(pct_encoded(encode_utf8(cfg.redirect_uri@))) + "&scope="@
        + chars_of(pct_encoded(encode_utf8(joined_scopes(scope_views(cfg.scopes@))))) + "&state="@
        + chars_of(pct_encoded(encode_utf8(state)))
}

/// Builds the authorization URL for the given state token.
pub fn build_authorization_url(cfg: &OAuthClientConfig, state: &String) -> (r: String)
    ensures
        r@ == auth_url_chars(*cfg, state@),
{
    let scope_list = join_scopes(&cfg.scopes);
    let mut url = cfg.authorization_endpoint.clone();
    url.append("?response_type=code&client_id=");
    let enc_client = pct_encode(cfg.client_id.as_str());
    url.append(enc_client.as_str());
    url.append("&redirect_uri=");
    let enc_redirect = pct_encode(cfg.redirect_uri.as_str());
    url.append(enc_redirect.as_str());
    url.append("&scope=");
    let enc_scope = pct_encode(scope_list.as_str());
    url.append(enc_scope.as_str());
    url.append("&state=");
    let enc_state = pct_encode(state.as_str());
    url.append(enc_state.as_str());
    url
}

/// One pending login attempt: its anti-forgery state token, retrievable at
/// callback time and discarded on first use.
pub struct AuthorizationRequest {
    pub state_token: String,
    pub created_at: u64,
    pub serial: u64,
}

/// The pending-request store, keyed by state token with single-use
/// semantics. `issued` remembers every state token ever handed out.
pub struct PendingStore {
    records: Vec<AuthorizationRequest>,
    next_serial: u64,
    issued: Ghost<Set<Seq<char>>>,
}

impl PendingStore {
    /// Every state token this store ever issued.
    pub closed spec fn issued(self) -> Set<Seq<char>> {
        self.issued@
    }

    /// An issued, unconsumed request with this state token exists.
    pub closed spec fn has_pending(self, t: Seq<char>) -> bool {
        exists|i: int|
            0 <= i < self.records.len() && (#[trigger] self.records[i]).state_token@ == t
    }

    pub closed spec fn pending_count(self) -> nat {
        self.records.len() as nat
    }

    /// Serial numbers remain available for new state tokens.
    pub closed spec fn can_issue(self) -> bool {
        self.next_serial < u64::MAX
    }

    pub closed spec fn wf(self) -> bool {
        &&& forall|i: int|
            0 <= i < self.records.len() ==> {
                let r = #[trigger] self.records[i];
                &&& r.serial < self.next_serial
                &&& token_shape(r.state_token@, r.serial)
                &&& self.issued@.contains(r.state_token@)
            }
        &&& forall|i: int, j: int|
            0 <= i < self.records.len() && 0 <= j < self.records.len() && i != j ==> (
            #[trigger] self.records[i]).serial != (#[trigger] self.records[j]).serial
        &&& forall|t: Seq<char>|
            self.issued@.contains(t) ==> #[trigger] token_serial_below(t, self.next_serial)
    }

    /// Whether serial numbers remain available, testable by callers.
    pub fn has_serials_left(&self) -> (b: bool)
        ensures
            b == self.can_issue(),
    {
        self.next_serial < u64::MAX
    }

    /// An empty store: no login attempt is pending.
    pub fn new() -> (s: Self)
        ensures
            s.wf(),
            s.can_issue(),
            s.issued() == Set::<Seq<char>>::empty(),
            s.pending_count() == 0,
            forall|t: Seq<char>| !(#[trigger] s.has_pending(t)),
    {
        PendingStore { records: Vec::new(), next_serial: 0, issued: Ghost(Set::empty()) }
    }

    /// Issues a fresh state token for a new login attempt and remembers it
    /// for the callback. The token differs from every token this store ever
    /// issued before.
    pub fn issue(&mut self, now: u64) -> (t: String)
        requires
            old(self).wf(),
            old(self).can_issue(),
        ensures
            final(self).wf(),
            !old(self).issued().contains(t@),
            final(self).issued() == old(self).issued().insert(t@),
            final(self).has_pending(t@),
            forall|x: Seq<char>|
                x != t@ ==> #[trigger] final(self).has_pending(x) == old(self).has_pending(x),
            final(self).pending_count() == old(self).pending_count() + 1,
    {
        let ghost prior = *self;
        let serial = self.next_serial;
        self.next_serial = self.next_serial + 1;
        let t = mint_token(serial);
        let record = AuthorizationRequest { state_token: t.clone(), created_at: now, serial };
        self.records.push(record);
        self.issued = Ghost(self.issued@.insert(t@));
        proof {
            let n = self.records.len() - 1;
            assert(self.records[n].state_token@ == t@);
            if prior.issued@.contains(t@) {
                assert(token_serial_below(t@, prior.next_serial));
                let k = choose|k: u64| k < prior.next_serial && #[trigger] token_shape(t@, k);
                lemma_distinct_serials_distinct_tokens(t@, k, t@, serial);
            }
            assert forall|x: Seq<char>| self.issued@.contains(x) implies
                #[trigger] token_serial_below(x, self.next_serial) by {
                if x == t@ {
                    assert(token_shape(t@, serial) && serial < self.next_serial);
                } else {
                    assert(token_serial_below(x, prior.next_serial));
                    let k = choose|k: u64| k < prior.next_serial && #[trigger] token_shape(x, k);
                    assert(token_shape(x, k) && k < self.next_serial);
                }
            }
            assert forall|x: Seq<char>| x != t@ implies #[trigger] self.has_pending(x)
                == prior.has_pending(x) by {
                if prior.has_pending(x) {
                    let i = choose|i: int|
                        0 <= i < prior.records.len() && (
                        #[trigger] prior.records[i]).state_token@ == x;
                    assert(self.records[i].state_token@ == x);
                }
                if self.has_pending(x) {
                    let i = choose|i: int|
                        0 <= i < self.records.len() && (#[trigger] self.records[i]).state_token@
                            == x;
                    assert(i < prior.records.len());
                    assert(prior.records[i].state_token@ == x);
                }
            }
        }
        t
    }

    /// No two unconsumed requests share a state token.
    proof fn lemma_tokens_distinct(self)
        requires
            self.wf(),
        ensures
            forall|i: int, j: int|
                0 <= i < self.pending_count() && 0 <= j < self.pending_count() && i != j ==> (
                #[trigger] self.records[i]).state_token@ != (
                #[trigger] self.records[j]).state_token@,
    {
        assert forall|i: int, j: int|
            0 <= i < self.pending_count() && 0 <= j < self.pending_count() && i != j implies (
        #[trigger] self.records[i]).state_token@ != (#[trigger] self.records[j]).state_token@ by {
            lemma_distinct_serials_distinct_tokens(
                self.records[i].state_token@,
                self.records[i].serial,
                self.records[j].state_token@,
                self.records[j].serial,
            );
        }
    }

    /// Consumes the pending request whose state token is `state`, if any:
    /// single-use semantics, remove-on-read. `Some` exactly when such a
    /// request was pending; afterwards it no longer is.
    pub fn take(&mut self, state: &String) -> (r: Option<AuthorizationRequest>)
        requires
            old(self).wf(),
        ensures
            final(self).wf(),
            final(self).issued() == old(self).issued(),
            final(self).can_issue() == old(self).can_issue(),
            r is Some <==> old(self).has_pending(state@),
            r matches Some(p) ==> {
                &&& p.state_token@ == state@
                &&& !final(self).has_pending(state@)
                &&& forall|x: Seq<char>|
                    x != state@ ==> #[trigger] final(self).has_pending(x) == old(
                        self,
                    ).has_pending(x)
                &&& final(self).pending_count() + 1 == old(self).pending_count()
            },
            r is None ==> *final(self) == *old(self),
    {
        let mut i: usize = 0;
        while i < self.records.len()
            invariant
                i <= self.records.len(),
                self == old(self),
                old(self).wf(),
                forall|j: int|
                    0 <= j < i ==> (#[trigger] self.records[j]).state_token@ != state@,
            decreases self.records.len() - i,
        {
            if self.records[i].state_token == *state {
                let ghost prior = *self;
                let p = self.records.remove(i);
                proof {
                    prior.lemma_tokens_distinct();
                    assert forall|x: Seq<char>| #[trigger] self.has_pending(x) implies
                        prior.has_pending(x) by {
                        let j = choose|j: int|
                            0 <= j < self.records.len() && (
                            #[trigger] self.records[j]).state_token@ == x;
                        if j < i {
                            assert(prior.records[j].state_token@ == x);
                        } else {
                            assert(prior.records[j + 1].state_token@ == x);
                        }
                    }
                    assert forall|x: Seq<char>| x != state@ && prior.has_pending(x) implies
                        #[trigger] self.has_pending(x) by {
                        let j = choose|j: int|
                            0 <= j < prior.records.len() && (
                            #[trigger] prior.records[j]).state_token@ == x;
                        if j < i {
                            assert(self.records[j].state_token@ == x);
                        } else {
                            assert(prior.records[j].state_token@ != state@);
                            assert(j != i);
                            assert(self.records[j - 1].state_token@ == x);
                        }
                    }
                    if self.has_pending(state@) {
                        let j = choose|j: int|
                            0 <= j < self.records.len() && (
                            #[trigger] self.records[j]).state_token@ == state@;
                        if j < i {
                            assert(prior.records[j].state_token@ == state@);
                            assert(false);
                        } else {
                            assert(prior.records[j + 1].state_token@ == state@);
                            assert(prior.records[i as int].state_token@ == state@);
                            assert(false);
                        }
                    }
                }
                return Some(p);
            }
            i = i + 1;
        }
        None
    }
}

/// Law: the authorization URL always carries the percent-encoded client id,
/// redirect URI, joined scope list and state token as substrings.
pub proof fn law_auth_url_parameters(cfg: OAuthClientConfig, state: Seq<char>)
    ensures
        contains_chars(
            auth_url_chars(cfg, state),
            chars_of(pct_encoded(encode_utf8(cfg.client_id@))),
        ),
        contains_chars(
            auth_url_chars(cfg, state),
            chars_of(pct_encoded(encode_utf8(cfg.redirect_uri@))),
        ),
        contains_chars(
            auth_url_chars(cfg, state),
            chars_of(pct_encoded(encode_utf8(joined_scopes(scope_views(cfg.scopes@))))),
        ),
        contains_chars(auth_url_chars(cfg, state), chars_of(pct_encoded(encode_utf8(state)))),
{
    let url = auth_url_chars(cfg, state);
    let e = cfg.authorization_endpoint@;
    let l1 = "?response_type=code&client_id="@;
    let p1 = chars_of(pct_encoded(encode_utf8(cfg.client_id@)));
    let l2 = "&redirect_uri="@;
    let p2 = chars_of(pct_encoded(encode_utf8(cfg.redirect_uri@)));
    let l3 = "&scope="@;
    let p3 = chars_of(pct_encoded(encode_utf8(joined_scopes(scope_views(cfg.scopes@)))));
    let l4 = "&state="@;
    let p4 = chars_of(pct_encoded(encode_utf8(state)));
    assert(url =~= (e + l1) + p1 + (l2 + p2 + l3 + p3 + l4 + p4));
    lemma_concat_contains(e + l1, p1, l2 + p2 + l3 + p3 + l4 + p4);
    assert(url =~= (e + l1 + p1 + l2) + p2 + (l3 + p3 + l4 + p4));
    lemma_concat_contains(e + l1 + p1 + l2, p2, l3 + p3 + l4 + p4);
    assert(url =~= (e + l1 + p1 + l2 + p2 + l3) + p3 + (l4 + p4));
    lemma_concat_contains(e + l1 + p1 + l2 + p2 + l3, p3, l4 + p4);
    assert(url =~= (e + l1 + p1 + l2 + p2 + l3 + p3 + l4) + p4 + Seq::<char>::empty());
    lemma_concat_contains(e + l1 + p1 + l2 + p2 + l3 + p3 + l4, p4, Seq::<char>::empty());
}

/// Law: a configuration that requests the scopes `openid`, `email` and
/// `profile` — as the provider configuration built here always does — gets
/// an authorization URL that carries exactly `openid%20email%20profile` as
/// its encoded scope list.
pub proof fn law_scope_parameter_exact(cfg: OAuthClientConfig, state: Seq<char>)
    requires
        cfg.scopes@.len() == 3,
        cfg.scopes@[0]@ == "openid"@,
        cfg.scopes@[1]@ == "email"@,
        cfg.scopes@[2]@ == "profile"@,
    ensures
        joined_scopes(scope_views(cfg.scopes@)) == "openid email profile"@,
        chars_of(pct_encoded(encode_utf8("openid email profile"@)))
            == "openid%20email%20profile"@,
        contains_chars(auth_url_chars(cfg, state), "openid%20email%20profile"@),
{
    reveal_strlit("openid");
    reveal_strlit("email");
    reveal_strlit("profile");
    reveal_strlit("openid email profile");
    reveal_strlit("openid%20email%20profile");
    let ss = scope_views(cfg.scopes@);
    let s = "openid email profile"@;
    let t = "openid%20email%20profile"@;
    assert(ss.drop_last().drop_last() =~= seq!["openid"@]);
    assert(ss.drop_last() =~= seq!["openid"@, "email"@]);
    assert(joined_scopes(seq!["openid"@]) == "openid"@);
    assert(seq!["openid"@, "email"@].drop_last() =~= seq!["openid"@]);
    assert(seq!["openid"@, "email"@].last() == "email"@);
    assert(joined_scopes(seq!["openid"@, "email"@]) == "openid"@ + seq![' '] + "email"@);
    assert(ss.last() == "profile"@);
    assert(joined_scopes(ss) == joined_scopes(seq!["openid"@, "email"@]) + seq![' ']
        + "profile"@);
    assert(joined_scopes(ss) =~= s);
    assert(vstd::utf8::is_ascii_chars(s));
    vstd::utf8::is_ascii_chars_encode_utf8(s);
    let b = encode_utf8(s);
    let b1 = b.subrange(0, 6);
    let sp = seq![32u8];
    let b2 = b.subrange(7, 12);
    let b3 = b.subrange(13, 20);
    assert(b =~= b1 + sp + b2 + sp + b3);
    lemma_pct_concat(b1 + sp + b2 + sp, b3);
    lemma_pct_concat(b1 + sp + b2, sp);
    lemma_pct_concat(b1 + sp, b2);
    lemma_pct_concat(b1, sp);
    lemma_pct_unreserved(b1);
    lemma_pct_unreserved(b2);
    lemma_pct_unreserved(b3);
    assert(sp.drop_first() =~= Seq::<u8>::empty());
    assert(pct_encoded(Seq::<u8>::empty()) =~= Seq::<u8>::empty());
    assert(sp[0] == 32u8);
    assert(!is_unreserved_byte(32u8));
    assert(pct_byte(32u8) =~= seq![37u8, 50u8, 48u8]);
    assert(pct_encoded(sp) =~= seq![37u8, 50u8, 48u8]);
    assert(pct_encoded(b) == b1 + seq![37u8, 50u8, 48u8] + b2 + seq![37u8, 50u8, 48u8] + b3);
    assert(chars_of(pct_encoded(b)) =~= t);
    law_auth_url_parameters(cfg, state);
}

/// Law: state tokens issued by distinct login calls are pairwise distinct.
/// Each issuance starts from the set of every token issued so far, returns a
/// token outside that set, and adds it; no other operation shrinks the set.
/// So a token issued later, out of a superset of the first call's record,
/// cannot equal the earlier one.
pub proof fn law_state_tokens_distinct(
    before1: Set<Seq<char>>,
    t1: Seq<char>,
    before2: Set<Seq<char>>,
    t2: Seq<char>,
)
    requires
        !before1.contains(t1),
        before1.insert(t1).subset_of(before2),
        !before2.contains(t2),
    ensures
        t1 != t2,
{
    assert(before2.contains(t1));
}

} // verus!
