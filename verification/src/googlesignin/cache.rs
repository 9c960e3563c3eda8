//! Google's signing certificates, kept in order of their key ids, and the
//! state machine that decides when they must be fetched again.
use crate::googlesignin::googlesigninerror::GoogleSignInError;
use crate::keyorder::{
    bytes_less, compare_bytes, lemma_bytes_less_irreflexive, lemma_bytes_less_total,
    lemma_bytes_less_transitive, KeyOrder,
};
use vstd::prelude::*;
use vstd::utf8::{encode_utf8, encode_utf8_decode_utf8};

verus! {

/// One of Google's public signing keys, in JSON Web Key form.
#[derive(Clone, Debug)]
pub struct Cert {
    kid: String,
    e: String,
    kty: String,
    alg: String,
    n: String,
    key_use: String,
}

impl Cert {
    /// The key id.
    pub closed spec fn kid_view(&self) -> Seq<char> {
        self.kid@
    }

    /// The RSA modulus, base64url encoded.
    pub closed spec fn n_view(&self) -> Seq<char> {
        self.n@
    }

    /// The RSA exponent, base64url encoded.
    pub closed spec fn e_view(&self) -> Seq<char> {
        self.e@
    }

    /// The key type, the algorithm and the intended use, in that order.
    pub closed spec fn other_fields(&self) -> (Seq<char>, Seq<char>, Seq<char>) {
        (self.kty@, self.alg@, self.key_use@)
    }

    /// The bytes by which certificates are ordered: the UTF-8 encoding of the key id.
    pub open spec fn sort_key(&self) -> Seq<u8> {
        encode_utf8(self.kid_view())
    }

    /// Builds a key from its JSON Web Key fields.
    pub fn new(kid: String, e: String, kty: String, alg: String, n: String, key_use: String) -> (c: Cert)
        ensures
            c.kid_view() == kid@,
            c.e_view() == e@,
            c.n_view() == n@,
            c.other_fields() == (kty@, alg@, key_use@),
    {
        Cert { kid, e, kty, alg, n, key_use }
    }

    /// A copy of the key.
    fn duplicate(&self) -> (c: Cert)
        ensures
            c == *self,
    {
        Cert {
            kid: self.kid.clone(),
            e: self.e.clone(),
            kty: self.kty.clone(),
            alg: self.alg.clone(),
            n: self.n.clone(),
            key_use: self.key_use.clone(),
        }
    }

    /// The RSA modulus.
    pub fn get_n(&self) -> (r: &str)
        ensures
            r@ == self.n_view(),
    {
        self.n.as_str()
    }

    /// The RSA exponent.
    pub fn get_e(&self) -> (r: &str)
        ensures
            r@ == self.e_view(),
    {
        self.e.as_str()
    }

    /// The key id.
    pub fn get_kid(&self) -> (r: &str)
        ensures
            r@ == self.kid_view(),
    {
        self.kid.as_str()
    }
}

/// Two certificates have the same key id exactly when their sort keys agree.
pub proof fn lemma_sort_key_injective(a: Cert, b: Cert)
    ensures
        (a.sort_key() == b.sort_key()) <==> (a.kid_view() == b.kid_view()),
{
    encode_utf8_decode_utf8(a.kid_view());
    encode_utf8_decode_utf8(b.kid_view());
}

/// The certificates are in strictly increasing order of their key ids.
pub open spec fn sorted_by_kid(s: Seq<Cert>) -> bool {
    forall|i: int, j: int| 0 <= i < j < s.len() ==> bytes_less(#[trigger] s[i].sort_key(), #[trigger] s[j].sort_key())
}

/// The key id → certificate map that results from inserting the certificates
/// in order, a later certificate replacing an earlier one with the same key id.
pub open spec fn cert_map(list: Seq<Cert>) -> Map<Seq<char>, Cert>
    decreases list.len(),
{
    if list.len() == 0 {
        Map::empty()
    } else {
        cert_map(list.drop_last()).insert(list.last().kid_view(), list.last())
    }
}

/// `entries` lists exactly the certificates of the map `m`, each once.
pub open spec fn lists_map(entries: Seq<Cert>, m: Map<Seq<char>, Cert>) -> bool {
    &&& forall|i: int| 0 <= i < entries.len() ==> #[trigger] m.contains_key(entries[i].kid_view())
            && m[entries[i].kid_view()] == entries[i]
    &&& forall|k: Seq<char>| #[trigger] m.contains_key(k) ==> exists|i: int| 0 <= i < entries.len()
            && (#[trigger] entries[i].kid_view()) == k
}

/// The certificate of `entries` with the key id `kid`, if there is one.
pub open spec fn find_kid(entries: Seq<Cert>, kid: Seq<char>) -> Option<Cert>
    decreases entries.len(),
{
    if entries.len() == 0 {
        None
    } else if entries[0].kid_view() == kid {
        Some(entries[0])
    } else {
        find_kid(entries.drop_first(), kid)
    }
}

/// A reading of the monotonic clock (`std::time::Instant`), carried through opaquely.
#[verifier::external_type_specification]
#[verifier::external_body]
pub struct ExInstant(std::time::Instant);

/// Reads the monotonic clock (`std::time::Instant::now`). Nothing is stated
/// of the result: it is the time of the call.
#[verifier::external_body]
fn instant_now() -> std::time::Instant {
    std::time::Instant::now()
}

/// The whole seconds elapsed on the monotonic clock since `start`
/// (`std::time::Instant::elapsed`, in whole seconds). Nothing is stated of
/// the result: it depends on the time of the call.
#[verifier::external_body]
fn whole_seconds_since(start: &std::time::Instant) -> u64 {
    start.elapsed().as_secs()
}

/// The certificates, keyed and ordered by key id, with the number of seconds
/// after their fetch at which they must be fetched again, measured on the
/// monotonic clock from the moment they were keyed.
#[derive(Debug)]
pub struct Certificates {
    keys: Vec<Cert>,
    expiry: Option<u64>,
    fetched: std::time::Instant,
}

impl Certificates {
    /// The certificates are kept in strictly increasing order of key id.
    #[verifier::type_invariant]
    spec fn keys_sorted(self) -> bool {
        sorted_by_kid(self.keys@)
    }

    /// The certificates in increasing order of key id.
    pub closed spec fn entries(&self) -> Seq<Cert> {
        self.keys@
    }

    /// The certificates are ordered by key id, each key id once.
    pub open spec fn wf(&self) -> bool {
        sorted_by_kid(self.entries())
    }

    /// The number of seconds after the fetch at which the certificates must
    /// be fetched again.
    pub closed spec fn expiry_view(&self) -> Option<u64> {
        self.expiry
    }

    /// The number of seconds after the fetch at which the certificates must
    /// be fetched again; none when the response gave no usable `max-age`.
    pub fn expiry(&self) -> (r: Option<u64>)
        ensures
            r == self.expiry_view(),
    {
        self.expiry
    }

    /// Whether the certificates are expired `now` seconds after their fetch:
    /// they are when there are none, when their expiry has been reached, or
    /// when they carry no expiry.
    pub open spec fn expired_at(&self, now: u64) -> bool {
        self.entries().len() == 0 || match self.expiry_view() {
            Some(expiry) => expiry <= now,
            None => true,
        }
    }

    /// Keys the certificates by key id; a later certificate replaces an
    /// earlier one with the same key id. Their age is counted from now.
    pub fn from_certs(certs: Vec<Cert>, expiry: Option<u64>) -> (r: Certificates)
        ensures
            r.wf(),
            lists_map(r.entries(), cert_map(certs@)),
            r.expiry_view() == expiry,
    {
        let mut keys: Vec<Cert> = Vec::new();
        let n = certs.len();
        let mut j: usize = 0;
        while j < n
            invariant
                n == certs@.len(),
                j <= n,
                sorted_by_kid(keys@),
                lists_map(keys@, cert_map(certs@.take(j as int))),
            decreases n - j,
        {
            let cert = certs[j].duplicate();
            proof {
                assert(certs@.take(j + 1).drop_last() =~= certs@.take(j as int));
                assert(certs@.take(j + 1).last() == certs@[j as int]);
            }
            Self::insert_sorted(&mut keys, cert, Ghost(cert_map(certs@.take(j as int))));
            j = j + 1;
        }
        proof {
            assert(certs@.take(n as int) =~= certs@);
        }
        let fetched = instant_now();
        Certificates { keys, expiry, fetched }
    }

    /// Inserts `cert` into the ordered list, replacing the entry with the same
    /// key id if there is one.
    fn insert_sorted(keys: &mut Vec<Cert>, cert: Cert, Ghost(m): Ghost<Map<Seq<char>, Cert>>)
        requires
            sorted_by_kid(old(keys)@),
            lists_map(old(keys)@, m),
        ensures
            sorted_by_kid(final(keys)@),
            lists_map(final(keys)@, m.insert(cert.kid_view(), cert)),
    {
        let ghost old_keys = keys@;
        let ghost key = cert.sort_key();
        let len = keys.len();
        let mut p: usize = 0;
        let mut order = KeyOrder::Greater;
        while p < len
            invariant
                len == keys@.len(),
                keys@ == old_keys,
                p <= len,
                forall|i: int| 0 <= i < p ==> bytes_less(#[trigger] old_keys[i].sort_key(), key),
                key == cert.sort_key(),
            ensures
                len == keys@.len(),
                keys@ == old_keys,
                p <= len,
                forall|i: int| 0 <= i < p ==> bytes_less(#[trigger] old_keys[i].sort_key(), key),
                p < len ==> (order == KeyOrder::Equal <==> old_keys[p as int].sort_key() == key),
                p < len ==> (order == KeyOrder::Greater <==> bytes_less(key, old_keys[p as int].sort_key())),
                p < len ==> order != KeyOrder::Less,
            decreases len - p,
        {
            order = compare_bytes(keys[p].kid.as_str().as_bytes(), cert.kid.as_str().as_bytes());
            if order != KeyOrder::Less {
                break;
            }
            p = p + 1;
        }
        if p < len && order == KeyOrder::Equal {
            proof {
                lemma_sort_key_injective(old_keys[p as int], cert);
            }
            keys.set(p, cert);
            proof {
                let nk = keys@;
                assert forall|i: int, j: int| 0 <= i < j < nk.len() implies bytes_less(
                    #[trigger] nk[i].sort_key(),
                    #[trigger] nk[j].sort_key(),
                ) by {
                    assert(old_keys[i].sort_key() == nk[i].sort_key() || i == p);
                    assert(old_keys[j].sort_key() == nk[j].sort_key() || j == p);
                    assert(bytes_less(old_keys[i].sort_key(), old_keys[j].sort_key()));
                }
                let m2 = m.insert(cert.kid_view(), cert);
                assert forall|i: int| 0 <= i < nk.len() implies #[trigger] m2.contains_key(
                    nk[i].kid_view(),
                ) && m2[nk[i].kid_view()] == nk[i] by {
                    if i == p {
                        assert(nk[i] == cert);
                    } else {
                        assert(old_keys[i] == nk[i]);
                        assert(m.contains_key(old_keys[i].kid_view()));
                        if i < p {
                            assert(bytes_less(old_keys[i].sort_key(), old_keys[p as int].sort_key()));
                        } else {
                            assert(bytes_less(old_keys[p as int].sort_key(), old_keys[i].sort_key()));
                        }
                        lemma_bytes_less_irreflexive(old_keys[i].sort_key());
                        lemma_sort_key_injective(old_keys[i], cert);
                    }
                }
                assert forall|k: Seq<char>| #[trigger] m2.contains_key(k) implies exists|i: int|
                    0 <= i < nk.len() && (#[trigger] nk[i].kid_view()) == k by {
                    if k == cert.kid_view() {
                        assert(nk[p as int].kid_view() == k);
                    } else {
                        assert(m.contains_key(k));
                        let i = choose|i: int| 0 <= i < old_keys.len() && (#[trigger] old_keys[i].kid_view()) == k;
                        assert(nk[i].kid_view() == k);
                    }
                }
            }
        } else {
            proof {
                if p < len {
                    lemma_bytes_less_total(old_keys[p as int].sort_key(), key);
                }
            }
            keys.insert(p, cert);
            proof {
                let nk = keys@;
                assert(nk == old_keys.insert(p as int, cert));
                assert forall|i: int, j: int| 0 <= i < j < nk.len() implies bytes_less(
                    #[trigger] nk[i].sort_key(),
                    #[trigger] nk[j].sort_key(),
                ) by {
                    if j < p {
                        assert(bytes_less(old_keys[i].sort_key(), old_keys[j].sort_key()));
                    } else if j == p {
                        assert(bytes_less(old_keys[i].sort_key(), key));
                    } else if i > p {
                        assert(bytes_less(old_keys[i - 1].sort_key(), old_keys[j - 1].sort_key()));
                    } else if i == p {
                        assert(nk[j] == old_keys[j - 1]);
                        if j - 1 > p {
                            assert(bytes_less(old_keys[p as int].sort_key(), old_keys[j - 1].sort_key()));
                            lemma_bytes_less_transitive(key, old_keys[p as int].sort_key(), old_keys[j - 1].sort_key());
                        }
                    } else {
                        assert(bytes_less(old_keys[i].sort_key(), key));
                        if j - 1 > p {
                            assert(bytes_less(old_keys[p as int].sort_key(), old_keys[j - 1].sort_key()));
                            lemma_bytes_less_transitive(key, old_keys[p as int].sort_key(), old_keys[j - 1].sort_key());
                        }
                        lemma_bytes_less_transitive(old_keys[i].sort_key(), key, old_keys[j - 1].sort_key());
                    }
                }
                let m2 = m.insert(cert.kid_view(), cert);
                // The new key id is not among the old ones.
                assert forall|i: int| 0 <= i < old_keys.len() implies (#[trigger] old_keys[i].kid_view()) != cert.kid_view() by {
                    lemma_sort_key_injective(old_keys[i], cert);
                    lemma_bytes_less_irreflexive(key);
                    if i >= p {
                        if i > p {
                            assert(bytes_less(old_keys[p as int].sort_key(), old_keys[i].sort_key()));
                            lemma_bytes_less_transitive(key, old_keys[p as int].sort_key(), old_keys[i].sort_key());
                        }
                    }
                }
                assert forall|i: int| 0 <= i < nk.len() implies #[trigger] m2.contains_key(
                    nk[i].kid_view(),
                ) && m2[nk[i].kid_view()] == nk[i] by {
                    if i < p {
                        assert(nk[i] == old_keys[i]);
                        assert(m.contains_key(old_keys[i].kid_view()));
                    } else if i > p {
                        assert(nk[i] == old_keys[i - 1]);
                        assert(m.contains_key(old_keys[i - 1].kid_view()));
                    } else {
                        assert(nk[i] == cert);
                    }
                }
                assert forall|k: Seq<char>| #[trigger] m2.contains_key(k) implies exists|i: int|
                    0 <= i < nk.len() && (#[trigger] nk[i].kid_view()) == k by {
                    if k == cert.kid_view() {
                        assert(nk[p as int].kid_view() == k);
                    } else {
                        assert(m.contains_key(k));
                        let i = choose|i: int| 0 <= i < old_keys.len() && (#[trigger] old_keys[i].kid_view()) == k;
                        if i < p {
                            assert(nk[i].kid_view() == k);
                        } else {
                            assert(nk[i + 1].kid_view() == k);
                        }
                    }
                }
            }
        }
    }
}


impl Clone for Certificates {
    /// A copy of the certificates, with the same expiry and age.
    fn clone(&self) -> (r: Self)
        ensures
            r.entries() == self.entries(),
            r.expiry_view() == self.expiry_view(),
    {
        proof {
            use_type_invariant(self);
        }
        let n = self.keys.len();
        let mut keys: Vec<Cert> = Vec::new();
        let mut i: usize = 0;
        while i < n
            invariant
                n == self.keys@.len(),
                i <= n,
                keys@ == self.keys@.take(i as int),
            decreases n - i,
        {
            keys.push(self.keys[i].duplicate());
            assert(self.keys@.take(i + 1) =~= self.keys@.take(i as int).push(self.keys@[i as int]));
            i = i + 1;
        }
        assert(self.keys@.take(n as int) =~= self.keys@);
        Certificates { keys, expiry: self.expiry, fetched: self.fetched }
    }
}

/// The expiry that a `max-age` (in seconds) gives: that many seconds after
/// the fetch, when it is not below zero.
pub open spec fn expiry_for(max_age: Option<i64>) -> Option<u64> {
    match max_age {
        Some(secs) => if secs >= 0 {
            Some(secs as u64)
        } else {
            None
        },
        None => None,
    }
}

/// Once certificates are expired, they stay expired: expiry at a time implies
/// expiry at every later time.
pub proof fn law_expiry_is_permanent(certs: Certificates, earlier: u64, later: u64)
    requires
        earlier <= later,
    ensures
        certs.expired_at(earlier) ==> certs.expired_at(later),
{
}

/// Facts about `find_kid`: it gives the first certificate with the key id,
/// and nothing when no certificate has it.
pub proof fn lemma_find_kid(entries: Seq<Cert>, kid: Seq<char>)
    ensures
        (forall|j: int| 0 <= j < entries.len() ==> (#[trigger] entries[j].kid_view()) != kid)
            ==> find_kid(entries, kid) is None,
        forall|i: int|
            0 <= i < entries.len() && (#[trigger] entries[i].kid_view()) == kid && (forall|j: int|
                0 <= j < i ==> (#[trigger] entries[j].kid_view()) != kid) ==> find_kid(entries, kid)
                == Some(entries[i]),
    decreases entries.len(),
{
    if entries.len() > 0 {
        let rest = entries.drop_first();
        lemma_find_kid(rest, kid);
        assert forall|i: int|
            0 <= i < entries.len() && (#[trigger] entries[i].kid_view()) == kid && (forall|j: int|
                0 <= j < i ==> (#[trigger] entries[j].kid_view()) != kid) implies find_kid(entries, kid)
            == Some(entries[i]) by {
            if i > 0 {
                assert(entries[0].kid_view() != kid);
                assert(rest[i - 1] == entries[i]);
                assert forall|j: int| 0 <= j < i - 1 implies (#[trigger] rest[j].kid_view()) != kid by {
                    assert(rest[j] == entries[j + 1]);
                }
            }
        }
        if forall|j: int| 0 <= j < entries.len() ==> (#[trigger] entries[j].kid_view()) != kid {
            assert(entries[0].kid_view() != kid);
            assert forall|j: int| 0 <= j < rest.len() implies (#[trigger] rest[j].kid_view()) != kid by {
                assert(rest[j] == entries[j + 1]);
            }
        }
    }
}

impl Certificates {
    /// Returns true if all cached certificates are expired `now` seconds after
    /// their fetch (or if there are no cached certificates, or they carry no
    /// expiry).
    pub fn is_expired_at(&self, now: u64) -> (r: bool)
        ensures
            r == self.expired_at(now),
    {
        if self.keys.len() == 0 {
            return true;
        }
        match self.expiry {
            Some(expiry) => expiry <= now,
            None => true,
        }
    }

    /// Returns true if all cached certificates are expired (or if there are no
    /// cached certificates), judged by the monotonic clock.
    pub fn is_expired(&self) -> (r: bool)
        ensures
            exists|now: u64| r == self.expired_at(now),
            self.expiry_view() is None ==> r,
            self.entries().len() == 0 ==> r,
    {
        let now = whole_seconds_since(&self.fetched);
        self.is_expired_at(now)
    }

    /// The number of seconds after the fetch at which certificates fetched
    /// with the given `max-age` (in seconds) must be fetched again; none when
    /// the response gave no usable `max-age`.
    pub fn expiry_after(max_age: Option<i64>) -> (r: Option<u64>)
        ensures
            r == expiry_for(max_age),
    {
        match max_age {
            Some(secs) => if secs >= 0 {
                Some(secs as u64)
            } else {
                None
            },
            None => None,
        }
    }

    /// The certificates to try for a token: all of them in order of key id when
    /// the token names no key, else the one with the named key id.
    ///
    /// Fails with `InvalidKey` when the token names a key id that is not cached.
    pub fn get_range<'a>(&'a self, kid: &Option<String>) -> (r: Result<Vec<&'a Cert>, GoogleSignInError>)
        ensures
            // the certificates come in strictly increasing order of key id
            self.wf(),
            match kid {
                None => r matches Ok(v) && v@.len() == self.entries().len()
                    && forall|i: int| 0 <= i < v@.len() ==> *(#[trigger] v@[i]) == self.entries()[i],
                Some(k) => match find_kid(self.entries(), k@) {
                    Some(c) => r matches Ok(v) && v@.len() == 1 && *v@[0] == c,
                    None => r == Err::<Vec<&'a Cert>, GoogleSignInError>(GoogleSignInError::InvalidKey),
                },
            },
    {
        proof {
            use_type_invariant(self);
        }
        let len = self.keys.len();
        match kid {
            None => {
                let mut all: Vec<&'a Cert> = Vec::new();
                let mut i: usize = 0;
                while i < len
                    invariant
                        len == self.entries().len(),
                        i <= len,
                        all@.len() == i,
                        forall|j: int| 0 <= j < i ==> *(#[trigger] all@[j]) == self.entries()[j],
                    decreases len - i,
                {
                    all.push(&self.keys[i]);
                    i = i + 1;
                }
                Ok(all)
            },
            Some(k) => {
                let mut i: usize = 0;
                while i < len
                    invariant
                        len == self.entries().len(),
                        i <= len,
                        forall|j: int| 0 <= j < i ==> (#[trigger] self.entries()[j].kid_view()) != k@,
                        *kid == Some(*k),
                        self.wf(),
                    decreases len - i,
                {
                    let order = compare_bytes(self.keys[i].kid.as_str().as_bytes(), k.as_str().as_bytes());
                    if order == KeyOrder::Equal {
                        proof {
                            encode_utf8_decode_utf8(self.entries()[i as int].kid_view());
                            encode_utf8_decode_utf8(k@);
                            lemma_find_kid(self.entries(), k@);
                        }
                        let mut one: Vec<&'a Cert> = Vec::new();
                        one.push(&self.keys[i]);
                        return Ok(one);
                    }
                    i = i + 1;
                }
                proof {
                    lemma_find_kid(self.entries(), k@);
                }
                Err(GoogleSignInError::InvalidKey)
            },
        }
    }
}

/// Where the certificate cache stands.
#[derive(Clone, Debug)]
pub enum RefreshState {
    /// Certificates have been fetched.
    Ready(Certificates),
    /// A fetch is in flight; every lookup waits for it.
    Expired,
    /// Nothing has been fetched yet.
    Uninitialized,
}

/// What a lookup asks its caller to do.
#[derive(PartialEq, Eq, Structural, Debug, Clone, Copy)]
pub enum Lookup {
    /// Use the cached certificates.
    Cached,
    /// Wait for the fetch that is already in flight.
    AwaitRefresh,
    /// Start a fetch, and wait for it.
    StartRefresh,
}

/// The decision of a lookup at time `now`, and the state it leaves behind.
pub open spec fn lookup_outcome(state: RefreshState, now: u64) -> (Lookup, RefreshState) {
    match state {
        RefreshState::Expired => (Lookup::AwaitRefresh, RefreshState::Expired),
        RefreshState::Uninitialized => (Lookup::StartRefresh, RefreshState::Expired),
        RefreshState::Ready(certs) => if certs.expired_at(now) {
            (Lookup::StartRefresh, RefreshState::Expired)
        } else {
            (Lookup::Cached, RefreshState::Ready(certs))
        },
    }
}

/// The decisions of a run of lookups at the given times, with no fetch
/// completing in between, and the state they leave behind.
pub open spec fn lookup_run(state: RefreshState, times: Seq<u64>) -> (Seq<Lookup>, RefreshState)
    decreases times.len(),
{
    if times.len() == 0 {
        (Seq::empty(), state)
    } else {
        let (first, next) = lookup_outcome(state, times[0]);
        let (rest, last) = lookup_run(next, times.drop_first());
        (seq![first] + rest, last)
    }
}

/// The number of fetches that a run of decisions starts.
pub open spec fn refreshes_started(decisions: Seq<Lookup>) -> nat
    decreases decisions.len(),
{
    if decisions.len() == 0 {
        0
    } else {
        (if decisions[0] == Lookup::StartRefresh { 1nat } else { 0nat }) + refreshes_started(
            decisions.drop_first(),
        )
    }
}

/// A cache of Google's certificates that fetches them again once they expire,
/// with at most one fetch in flight.
pub struct Cache {
    state: RefreshState,
}

impl Cache {
    /// The state of the cache.
    pub closed spec fn state_view(&self) -> RefreshState {
        self.state
    }

    /// An empty cache.
    pub fn new() -> (c: Cache)
        ensures
            c.state_view() == RefreshState::Uninitialized,
    {
        Cache { state: RefreshState::Uninitialized }
    }

    /// Decides what a lookup does when the cached certificates are `now`
    /// seconds old: use fresh cached certificates, wait for the fetch in
    /// flight, or start a fetch (when nothing is cached or the cached
    /// certificates have expired).
    pub fn begin_lookup_at(&mut self, now: u64) -> (r: Lookup)
        ensures
            (r, final(self).state_view()) == lookup_outcome(old(self).state_view(), now),
    {
        let expired = match &self.state {
            RefreshState::Expired => {
                return Lookup::AwaitRefresh;
            },
            RefreshState::Uninitialized => true,
            RefreshState::Ready(certs) => certs.is_expired_at(now),
        };
        if expired {
            self.state = RefreshState::Expired;
            Lookup::StartRefresh
        } else {
            Lookup::Cached
        }
    }

    /// Decides what a lookup does, reading the age of the cached certificates
    /// from the monotonic clock.
    pub fn begin_lookup(&mut self) -> (r: Lookup)
        ensures
            exists|now: u64| (r, final(self).state_view()) == lookup_outcome(old(self).state_view(), now),
    {
        let now = match &self.state {
            RefreshState::Ready(certs) => whole_seconds_since(&certs.fetched),
            _ => 0,
        };
        self.begin_lookup_at(now)
    }

    /// The cached certificates, when a fetch has completed.
    pub fn cached_certificates(&self) -> (r: Option<&Certificates>)
        ensures
            match self.state_view() {
                RefreshState::Ready(certs) => r == Some(&certs),
                _ => r is None,
            },
            r matches Some(certs) ==> certs.wf(),
    {
        match &self.state {
            RefreshState::Ready(certs) => {
                proof {
                    use_type_invariant(certs);
                }
                Some(certs)
            },
            _ => None,
        }
    }

    /// Records the certificates that a fetch brought.
    pub fn complete_refresh(&mut self, certs: Certificates)
        ensures
            final(self).state_view() == RefreshState::Ready(certs),
    {
        self.state = RefreshState::Ready(certs);
    }
}

/// Once a fetch is in flight, every lookup waits for it until it completes.
pub proof fn law_lookups_wait_for_refresh_in_flight(times: Seq<u64>)
    ensures
        lookup_run(RefreshState::Expired, times).1 == RefreshState::Expired,
        forall|i: int| 0 <= i < times.len() ==> #[trigger] lookup_run(RefreshState::Expired, times).0[i]
            == Lookup::AwaitRefresh,
        lookup_run(RefreshState::Expired, times).0.len() == times.len(),
    decreases times.len(),
{
    if times.len() > 0 {
        law_lookups_wait_for_refresh_in_flight(times.drop_first());
        let rest = lookup_run(RefreshState::Expired, times.drop_first()).0;
        assert forall|i: int| 0 <= i < times.len() implies #[trigger] lookup_run(
            RefreshState::Expired,
            times,
        ).0[i] == Lookup::AwaitRefresh by {
            if i > 0 {
                assert((seq![Lookup::AwaitRefresh] + rest)[i] == rest[i - 1]);
            }
        }
    }
}

/// Whatever the state, a run of lookups with no fetch completing in between
/// starts at most one fetch.
pub proof fn law_at_most_one_refresh_in_flight(state: RefreshState, times: Seq<u64>)
    ensures
        refreshes_started(lookup_run(state, times).0) <= 1,
        lookup_run(state, times).0.len() == times.len(),
    decreases times.len(),
{
    if times.len() > 0 {
        let (first, next) = lookup_outcome(state, times[0]);
        let rest = lookup_run(next, times.drop_first()).0;
        law_at_most_one_refresh_in_flight(next, times.drop_first());
        assert((seq![first] + rest).drop_first() =~= rest);
        if first == Lookup::StartRefresh {
            assert(next == RefreshState::Expired);
            law_lookups_wait_for_refresh_in_flight(times.drop_first());
            lemma_no_refresh_started(rest);
        }
    }
}

/// A run of decisions that are all waits starts no fetch.
proof fn lemma_no_refresh_started(decisions: Seq<Lookup>)
    requires
        forall|i: int| 0 <= i < decisions.len() ==> #[trigger] decisions[i] == Lookup::AwaitRefresh,
    ensures
        refreshes_started(decisions) == 0,
    decreases decisions.len(),
{
    if decisions.len() > 0 {
        assert forall|i: int| 0 <= i < decisions.drop_first().len() implies #[trigger] decisions.drop_first()[i]
            == Lookup::AwaitRefresh by {
            assert(decisions.drop_first()[i] == decisions[i + 1]);
        }
        lemma_no_refresh_started(decisions.drop_first());
    }
}

/// After a fetch completes with certificates that are not yet expired at time
/// `now`, a lookup at `now` uses exactly those certificates and leaves the cache
/// unchanged; once they have expired, a lookup starts a new fetch.
pub proof fn law_completed_refresh_is_served(certs: Certificates, now: u64)
    ensures
        !certs.expired_at(now) ==> lookup_outcome(RefreshState::Ready(certs), now) == (
            Lookup::Cached,
            RefreshState::Ready(certs),
        ),
        certs.expired_at(now) ==> lookup_outcome(RefreshState::Ready(certs), now) == (
            Lookup::StartRefresh,
            RefreshState::Expired,
        ),
{
}

/// A lookup never leaves the cache uninitialized, and from an uninitialized
/// cache it always starts a fetch.
pub proof fn law_first_lookup_starts_refresh(state: RefreshState, now: u64)
    ensures
        lookup_outcome(state, now).1 != RefreshState::Uninitialized,
        state == RefreshState::Uninitialized ==> lookup_outcome(state, now).0 == Lookup::StartRefresh,
{
}

/// Looking a key id up among certificates keyed from a list gives the last
/// certificate of the list with that key id, and nothing when none has it.
pub proof fn law_lookup_finds_latest_cert(entries: Seq<Cert>, list: Seq<Cert>, kid: Seq<char>)
    requires
        sorted_by_kid(entries),
        lists_map(entries, cert_map(list)),
    ensures
        (forall|j: int| 0 <= j < list.len() ==> (#[trigger] list[j].kid_view()) != kid) ==> find_kid(
            entries,
            kid,
        ) is None,
        forall|i: int|
            0 <= i < list.len() && (#[trigger] list[i].kid_view()) == kid && (forall|j: int|
                i < j < list.len() ==> (#[trigger] list[j].kid_view()) != kid) ==> find_kid(entries, kid)
                == Some(list[i]),
{
    lemma_cert_map_latest(list, kid);
    lemma_find_kid(entries, kid);
    let m = cert_map(list);
    if m.contains_key(kid) {
        let i = choose|i: int| 0 <= i < entries.len() && (#[trigger] entries[i].kid_view()) == kid;
        assert(m[entries[i].kid_view()] == entries[i]);
        assert forall|j: int| 0 <= j < i implies (#[trigger] entries[j].kid_view()) != kid by {
            assert(bytes_less(entries[j].sort_key(), entries[i].sort_key()));
            lemma_bytes_less_irreflexive(entries[i].sort_key());
            lemma_sort_key_injective(entries[i], entries[j]);
        }
    } else {
        assert forall|j: int| 0 <= j < entries.len() implies (#[trigger] entries[j].kid_view()) != kid by {
            assert(m.contains_key(entries[j].kid_view()));
        }
    }
}

/// In `cert_map(list)`, a key id is present exactly when some certificate of
/// the list has it, and maps to the last such certificate.
proof fn lemma_cert_map_latest(list: Seq<Cert>, kid: Seq<char>)
    ensures
        cert_map(list).contains_key(kid) <==> exists|j: int| 0 <= j < list.len() && (#[trigger] list[j].kid_view()) == kid,
        forall|i: int|
            0 <= i < list.len() && (#[trigger] list[i].kid_view()) == kid && (forall|j: int|
                i < j < list.len() ==> (#[trigger] list[j].kid_view()) != kid) ==> cert_map(list)[kid] == list[i],
    decreases list.len(),
{
    if list.len() > 0 {
        let init = list.drop_last();
        lemma_cert_map_latest(init, kid);
        if exists|j: int| 0 <= j < list.len() && (#[trigger] list[j].kid_view()) == kid {
            let j = choose|j: int| 0 <= j < list.len() && (#[trigger] list[j].kid_view()) == kid;
            if j < list.len() - 1 {
                assert(init[j].kid_view() == kid);
            }
        }
        if exists|j: int| 0 <= j < init.len() && (#[trigger] init[j].kid_view()) == kid {
            let j = choose|j: int| 0 <= j < init.len() && (#[trigger] init[j].kid_view()) == kid;
            assert(list[j].kid_view() == kid);
        }
        assert forall|i: int|
            0 <= i < list.len() && (#[trigger] list[i].kid_view()) == kid && (forall|j: int|
                i < j < list.len() ==> (#[trigger] list[j].kid_view()) != kid) implies cert_map(list)[kid]
            == list[i] by {
            if i < list.len() - 1 {
                assert(list.last().kid_view() != kid) by {
                    assert(list[list.len() - 1].kid_view() != kid);
                }
                assert(init[i] == list[i]);
                assert forall|j: int| i < j < init.len() implies (#[trigger] init[j].kid_view()) != kid by {
                    assert(init[j] == list[j]);
                }
            }
        }
    }
}
} // verus!
