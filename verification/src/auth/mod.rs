//! Digest authentication and contact bindings.
//!
//! A [`CredentialStore`] resolves accounts, [`digest::Registrar`] challenges
//! and verifies requests, a [`RegistrationStore`] keeps the contacts that
//! registered.

pub mod digest;
pub mod http_store;
pub mod laws;
pub mod registrar;
pub mod sqlite_store;

use vstd::prelude::*;

use self::digest::Algorithm;
use crate::clock::unix_now_secs;
use crate::pair_map::{PairKey, PairMap};
use crate::text;

verus! {

/// Credentials of one account.
///
/// With `ha1` the hash for the algorithm of the request is known and the
/// password is not used; without it the registrar hashes the password.
#[derive(Clone, Debug, PartialEq, Eq)]
pub struct Credentials {
    /// User name.
    pub username: String,
    /// Authentication realm.
    pub realm: String,
    /// Password; ignored when `ha1` is given.
    pub password: String,
    /// Hash of user name, realm and password, in hexadecimal.
    pub ha1: Option<String>,
}

/// Model of [`Credentials`].
#[verifier::ext_equal]
pub struct CredentialsView {
    pub username: Seq<char>,
    pub realm: Seq<char>,
    pub password: Seq<char>,
    pub ha1: Option<Seq<char>>,
}

impl View for Credentials {
    type V = CredentialsView;

    open spec fn view(&self) -> CredentialsView {
        CredentialsView {
            username: self.username@,
            realm: self.realm@,
            password: self.password@,
            ha1: text::text_opt(self.ha1),
        }
    }
}

impl Credentials {
    /// Credentials with a password.
    #[must_use]
    pub fn new(username: &str, realm: &str, password: &str) -> (r: Self)
        ensures
            r@ == (CredentialsView {
                username: username@,
                realm: realm@,
                password: password@,
                ha1: None,
            }),
    {
        Credentials {
            username: username.to_owned(),
            realm: realm.to_owned(),
            password: password.to_owned(),
            ha1: None,
        }
    }

    /// Credentials with a hash and no password.
    #[must_use]
    pub fn from_ha1(username: &str, realm: &str, ha1: &str) -> (r: Self)
        ensures
            r@ == (CredentialsView {
                username: username@,
                realm: realm@,
                password: seq![],
                ha1: Some(ha1@),
            }),
    {
        let r = Credentials {
            username: username.to_owned(),
            realm: realm.to_owned(),
            password: String::new(),
            ha1: Some(ha1.to_owned()),
        };
        assert(r@.password =~= seq![]);
        r
    }

    /// A copy.
    pub fn duplicate(&self) -> (r: Self)
        ensures
            r@ == self@,
    {
        Credentials {
            username: self.username.clone(),
            realm: self.realm.clone(),
            password: self.password.clone(),
            ha1: match &self.ha1 {
                Some(h) => Some(h.clone()),
                None => None,
            },
        }
    }
}

/// The model of optional credentials.
pub open spec fn credentials_opt(o: Option<Credentials>) -> Option<CredentialsView> {
    match o {
        Some(c) => Some(c@),
        None => None,
    }
}

/// Where accounts are looked up.
pub trait CredentialStore {
    /// The credentials of `username` in `realm`, if known.
    fn lookup(&self, realm: &str, username: &str) -> (r: Option<Credentials>);

    /// The credentials for a request that uses `algorithm`. A store that keeps
    /// hashes returns the one for that algorithm; by default the algorithm
    /// makes no difference.
    fn lookup_for(&self, realm: &str, username: &str, algorithm: Algorithm) -> (r: Option<
        Credentials,
    >)
        default_ensures
            call_ensures(Self::lookup, (self, realm, username), r),
    {
        let _unused = algorithm;
        self.lookup(realm, username)
    }
}

/// Accounts in memory.
pub struct InMemoryCredentialStore {
    entries: PairMap<Credentials>,
}

impl InMemoryCredentialStore {
    /// The accounts by realm and user name.
    pub closed spec fn accounts(&self) -> Map<PairKey, CredentialsView> {
        self.entries@.map_values(|c: Credentials| c@)
    }

    /// An empty store.
    #[must_use]
    pub fn new() -> (r: Self)
        ensures
            r.accounts() == Map::<PairKey, CredentialsView>::empty(),
    {
        let r = InMemoryCredentialStore { entries: PairMap::new() };
        assert(r.accounts() =~= Map::empty());
        r
    }

    /// Adds an account, in place of one with the same realm and user name.
    pub fn insert(&mut self, creds: Credentials)
        ensures
            final(self).accounts() == old(self).accounts().insert(
                (creds.realm@, creds.username@),
                creds@,
            ),
    {
        self.entries.insert(creds.realm.clone(), creds.username.clone(), creds);
        assert(self.accounts() =~= old(self).accounts().insert(
            (creds.realm@, creds.username@),
            creds@,
        ));
    }

    /// Removes an account and returns it.
    pub fn remove(&mut self, realm: &str, username: &str) -> (r: Option<Credentials>)
        ensures
            final(self).accounts() == old(self).accounts().remove((realm@, username@)),
            credentials_opt(r) == account(old(self).accounts(), realm@, username@),
    {
        let r = self.entries.remove(realm, username);
        assert(self.accounts() =~= old(self).accounts().remove((realm@, username@)));
        r
    }

    /// Number of accounts.
    #[must_use]
    pub fn len(&self) -> (r: usize)
        ensures
            self.accounts().dom().finite(),
            r == self.accounts().dom().len(),
    {
        assert(self.accounts().dom() =~= self.entries@.dom());
        self.entries.len()
    }

    /// `true` when there is no account.
    #[must_use]
    pub fn is_empty(&self) -> (r: bool)
        ensures
            self.accounts().dom().finite(),
            r == (self.accounts().dom().len() == 0),
    {
        self.len() == 0
    }

    /// The credentials of `username` in `realm`.
    pub fn find(&self, realm: &str, username: &str) -> (r: Option<Credentials>)
        ensures
            credentials_opt(r) == account(self.accounts(), realm@, username@),
    {
        match self.entries.get(realm, username) {
            Some(c) => Some(c.duplicate()),
            None => None,
        }
    }
}

/// The account of `username` in `realm`.
pub open spec fn account(
    accounts: Map<PairKey, CredentialsView>,
    realm: Seq<char>,
    username: Seq<char>,
) -> Option<CredentialsView> {
    if accounts.contains_key((realm, username)) {
        Some(accounts[(realm, username)])
    } else {
        None
    }
}

impl Default for InMemoryCredentialStore {
    fn default() -> (r: Self)
        ensures
            r.accounts() == Map::<PairKey, CredentialsView>::empty(),
    {
        InMemoryCredentialStore::new()
    }
}

impl CredentialStore for InMemoryCredentialStore {
    fn lookup(&self, realm: &str, username: &str) -> (r: Option<Credentials>)
        ensures
            credentials_opt(r) == account(self.accounts(), realm@, username@),
    {
        self.find(realm, username)
    }
}

/// What was stored is found, until it is replaced or removed; other accounts
/// are not touched.
pub proof fn stored_accounts_are_found(
    accounts: Map<PairKey, CredentialsView>,
    c: CredentialsView,
    realm: Seq<char>,
    username: Seq<char>,
)
    ensures
        account(accounts.insert((c.realm, c.username), c), c.realm, c.username) == Some(c),
        account(accounts.remove((c.realm, c.username)), c.realm, c.username) is None,
        (realm, username) != (c.realm, c.username) ==> account(
            accounts.insert((c.realm, c.username), c),
            realm,
            username,
        ) == account(accounts, realm, username) && account(
            accounts.remove((c.realm, c.username)),
            realm,
            username,
        ) == account(accounts, realm, username),
{
}

// ---------------------------------------------------------------------
// Bindings
// ---------------------------------------------------------------------

/// A contact that registered for an address of record.
#[derive(Clone, Debug, PartialEq, Eq)]
pub struct Binding {
    /// Address of record, `sip:user@realm`.
    pub aor: String,
    /// Contact URI.
    pub contact: String,
    /// Unix time, in seconds, at which the binding ends.
    pub expires_at_unix: i64,
}

/// Model of a [`Binding`].
#[verifier::ext_equal]
pub struct BindingView {
    pub aor: Seq<char>,
    pub contact: Seq<char>,
    pub expires_at_unix: i64,
}

impl View for Binding {
    type V = BindingView;

    open spec fn view(&self) -> BindingView {
        BindingView {
            aor: self.aor@,
            contact: self.contact@,
            expires_at_unix: self.expires_at_unix,
        }
    }
}

impl Binding {
    /// A copy.
    pub fn duplicate(&self) -> (r: Self)
        ensures
            r@ == self@,
    {
        Binding {
            aor: self.aor.clone(),
            contact: self.contact.clone(),
            expires_at_unix: self.expires_at_unix,
        }
    }
}

/// Why a registration store refused.
#[derive(Clone, Debug, PartialEq, Eq)]
pub enum RegistrationError {
    /// The backend failed.
    Backend(String),
    /// There is no such binding.
    UnknownAor(String),
}

impl RegistrationError {
    /// The message of the error.
    pub fn message(&self) -> (r: String)
        ensures
            r@ == match *self {
                RegistrationError::Backend(m) => "registration store backend: "@ + m@,
                RegistrationError::UnknownAor(a) => "unknown AOR: "@ + a@,
            },
    {
        match self {
            RegistrationError::Backend(m) => {
                let mut s: String = "registration store backend: ".to_owned();
                s.append(m);
                s
            },
            RegistrationError::UnknownAor(a) => {
                let mut s: String = "unknown AOR: ".to_owned();
                s.append(a);
                s
            },
        }
    }
}

/// Where contact bindings are kept.
pub trait RegistrationStore {
    /// The bindings by address and contact. A verified store says what they
    /// are; one in ordinary Rust has no way to.
    open spec fn held(&self) -> Map<PairKey, BindingView> {
        arbitrary()
    }

    /// Adds a binding, or refreshes the one with the same address and contact.
    /// Returns it as stored. A store that fails is left as it was.
    fn bind(&mut self, binding: &Binding) -> (r: Result<Binding, RegistrationError>)
        ensures
            r matches Ok(b) ==> b@ == binding@ && final(self).held() == old(self).held().insert(
                (binding@.aor, binding@.contact),
                binding@,
            ),
            r is Err ==> final(self).held() == old(self).held(),
    ;

    /// Removes one binding; `UnknownAor` when it is not there. A store that
    /// fails is left as it was.
    fn unbind(&mut self, aor: &str, contact: &str) -> (r: Result<(), RegistrationError>)
        ensures
            r is Ok ==> old(self).held().contains_key((aor@, contact@)) && final(self).held()
                == old(self).held().remove((aor@, contact@)),
            r is Err ==> final(self).held() == old(self).held(),
            r matches Err(RegistrationError::UnknownAor(a)) ==> a@ == aor@ && !old(
                self,
            ).held().contains_key((aor@, contact@)),
    ;

    /// The live bindings of an address.
    fn lookup_bindings(&self, aor: &str) -> (r: Result<Vec<Binding>, RegistrationError>);

    /// Every live binding.
    fn snapshot(&self) -> (r: Result<Vec<Binding>, RegistrationError>);
}

/// The models of a list of bindings.
pub open spec fn bindings_view(v: Seq<Binding>) -> Seq<BindingView> {
    Seq::new(v.len(), |i: int| v[i]@)
}

/// `b` is live at `now`, and of the address `aor` if that is given.
pub open spec fn is_live(b: BindingView, aor: Option<Seq<char>>, now: i64) -> bool {
    b.expires_at_unix > now && (aor is Some ==> b.aor == aor->0)
}

/// The live ones of the first `n` bindings.
pub open spec fn live_of(
    all: Seq<BindingView>,
    aor: Option<Seq<char>>,
    now: i64,
    n: int,
) -> Seq<BindingView>
    decreases n,
{
    if n <= 0 || n > all.len() {
        seq![]
    } else if is_live(all[n - 1], aor, now) {
        live_of(all, aor, now, n - 1).push(all[n - 1])
    } else {
        live_of(all, aor, now, n - 1)
    }
}

/// Bindings in memory.
pub struct InMemoryRegistrationStore {
    entries: PairMap<Binding>,
}

impl InMemoryRegistrationStore {
    /// The bindings by address and contact.
    pub closed spec fn bindings(&self) -> Map<PairKey, BindingView> {
        self.entries@.map_values(|b: Binding| b@)
    }

    /// The bindings in the order in which they were first made.
    pub closed spec fn list(&self) -> Seq<BindingView> {
        bindings_view(self.entries.values())
    }

    /// An empty store.
    #[must_use]
    pub fn new() -> (r: Self)
        ensures
            r.bindings() == Map::<PairKey, BindingView>::empty(),
            r.list() == Seq::<BindingView>::empty(),
    {
        let r = InMemoryRegistrationStore { entries: PairMap::new() };
        assert(r.bindings() =~= Map::empty());
        assert(r.list() =~= seq![]);
        r
    }

    /// The bindings that are live at `now`, of one address or of all.
    pub fn live_at(&self, aor: Option<&str>, now: i64) -> (r: Vec<Binding>)
        ensures
            bindings_view(r@) == live_of(
                self.list(),
                match aor {
                    Some(a) => Some(a@),
                    None => None,
                },
                now,
                self.list().len() as int,
            ),
            is_listing(self.list(), self.bindings()),
    {
        let ghost wanted = match aor {
            Some(a) => Some(a@),
            None => None,
        };
        let n: usize = self.entries.len();
        proof {
            let keys = self.entries.keys();
            assert(is_order(keys, self.list(), self.bindings()));
        }
        let mut out: Vec<Binding> = Vec::new();
        let mut i: usize = 0;
        assert(bindings_view(out@) =~= seq![]);
        while i < n
            invariant
                i <= n,
                n == self.list().len(),
                n == self.entries.values().len(),
                wanted == (match aor {
                    Some(a) => Some(a@),
                    None => None,
                }),
                bindings_view(out@) == live_of(self.list(), wanted, now, i as int),
            decreases n - i,
        {
            let b = self.entries.value_at(i);
            let matches = match aor {
                Some(a) => b.aor == a.to_owned(),
                None => true,
            };
            let ghost before = out@;
            if b.expires_at_unix > now && matches {
                out.push(b.duplicate());
                assert(bindings_view(out@) =~= bindings_view(before).push(b@));
            }
            assert(self.list()[i as int] == b@);
            i = i + 1;
        }
        out
    }
}

/// `keys` are the keys of `map`, each once, and `list` their bindings in that
/// order.
pub open spec fn is_order(
    keys: Seq<PairKey>,
    list: Seq<BindingView>,
    map: Map<PairKey, BindingView>,
) -> bool {
    &&& keys.len() == list.len()
    &&& keys.no_duplicates()
    &&& forall|i: int|
        0 <= i < keys.len() ==> map.contains_key(#[trigger] keys[i]) && map[keys[i]] == list[i]
    &&& forall|k: PairKey| #[trigger] map.contains_key(k) ==> keys.contains(k)
}

/// `list` holds exactly the bindings of `map`, one for each key.
pub open spec fn is_listing(list: Seq<BindingView>, map: Map<PairKey, BindingView>) -> bool {
    exists|keys: Seq<PairKey>| #[trigger] is_order(keys, list, map)
}

impl Default for InMemoryRegistrationStore {
    fn default() -> (r: Self)
        ensures
            r.bindings() == Map::<PairKey, BindingView>::empty(),
    {
        InMemoryRegistrationStore::new()
    }
}

/// The message of `o`'s error speaks of the address `aor`.
pub open spec fn is_unknown_aor(o: Result<(), RegistrationError>, aor: Seq<char>) -> bool {
    o matches Err(RegistrationError::UnknownAor(a)) && a@ == aor
}

impl RegistrationStore for InMemoryRegistrationStore {
    open spec fn held(&self) -> Map<PairKey, BindingView> {
        self.bindings()
    }

    fn bind(&mut self, binding: &Binding) -> (r: Result<Binding, RegistrationError>)
        ensures
            r is Ok,
            r->Ok_0@ == binding@,
            final(self).bindings() == old(self).bindings().insert(
                (binding.aor@, binding.contact@),
                binding@,
            ),
    {
        let copy = binding.duplicate();
        self.entries.insert(binding.aor.clone(), binding.contact.clone(), copy);
        assert(self.bindings() =~= old(self).bindings().insert(
            (binding.aor@, binding.contact@),
            binding@,
        ));
        Ok(binding.duplicate())
    }

    fn unbind(&mut self, aor: &str, contact: &str) -> (r: Result<(), RegistrationError>)
        ensures
            final(self).bindings() == old(self).bindings().remove((aor@, contact@)),
            r is Ok <==> old(self).bindings().contains_key((aor@, contact@)),
            r is Err ==> is_unknown_aor(r, aor@),
    {
        let gone = self.entries.remove(aor, contact);
        assert(self.bindings() =~= old(self).bindings().remove((aor@, contact@)));
        if gone.is_none() {
            assert(self.bindings() =~= old(self).bindings());
            return Err(RegistrationError::UnknownAor(aor.to_owned()));
        }
        Ok(())
    }

    fn lookup_bindings(&self, aor: &str) -> (r: Result<Vec<Binding>, RegistrationError>)
        ensures
            r is Ok,
            exists|now: i64|
                now >= 0 && bindings_view(r->Ok_0@) == #[trigger] live_of(
                    self.list(),
                    Some(aor@),
                    now,
                    self.list().len() as int,
                ),
            is_listing(self.list(), self.bindings()),
    {
        let now = unix_now_secs();
        Ok(self.live_at(Some(aor), now))
    }

    fn snapshot(&self) -> (r: Result<Vec<Binding>, RegistrationError>)
        ensures
            r is Ok,
            exists|now: i64|
                now >= 0 && bindings_view(r->Ok_0@) == #[trigger] live_of(
                    self.list(),
                    None,
                    now,
                    self.list().len() as int,
                ),
            is_listing(self.list(), self.bindings()),
    {
        let now = unix_now_secs();
        Ok(self.live_at(None, now))
    }
}

/// What a lookup returns is live, of the right address, and was bound; and
/// everything that is both is returned.
pub proof fn lookups_are_exact(
    all: Seq<BindingView>,
    aor: Option<Seq<char>>,
    now: i64,
    n: int,
    b: BindingView,
)
    requires
        0 <= n <= all.len(),
    ensures
        live_of(all, aor, now, n).contains(b) <==> all.take(n).contains(b) && is_live(b, aor, now),
    decreases n,
{
    if n > 0 {
        lookups_are_exact(all, aor, now, n - 1, b);
        let rest = live_of(all, aor, now, n - 1);
        let full = live_of(all, aor, now, n);
        assert(all.take(n) =~= all.take(n - 1).push(all[n - 1]));
        if all.take(n).contains(b) {
            let whole = all.take(n);
            let i = choose|i: int| 0 <= i < whole.len() && whole[i] == b;
            if i < n - 1 {
                assert(all.take(n - 1)[i] == b);
            }
        }
        if all.take(n - 1).contains(b) {
            let front = all.take(n - 1);
            let i = choose|i: int| 0 <= i < front.len() && front[i] == b;
            assert(all.take(n)[i] == b);
        }
        if b == all[n - 1] {
            assert(all.take(n)[n - 1] == b);
        }
        if is_live(all[n - 1], aor, now) {
            assert(full == rest.push(all[n - 1]));
            if rest.contains(b) {
                let i = choose|i: int| 0 <= i < rest.len() && rest[i] == b;
                assert(full[i] == b);
            }
            if b == all[n - 1] {
                assert(full[full.len() - 1] == b);
            }
            if full.contains(b) {
                let i = choose|i: int| 0 <= i < full.len() && full[i] == b;
                if i < rest.len() {
                    assert(rest[i] == b);
                }
            }
        }
    }
}

/// A call that changes the bindings.
pub enum BindingCall {
    Bind(BindingView),
    Unbind { aor: Seq<char>, contact: Seq<char> },
}

/// The bindings after `calls` on an empty store: of each address and contact
/// the binding that was last bound, unless it was unbound since.
pub open spec fn bound_after(calls: Seq<BindingCall>) -> Map<PairKey, BindingView>
    decreases calls.len(),
{
    if calls.len() == 0 {
        Map::empty()
    } else {
        let earlier = bound_after(calls.drop_last());
        match calls.last() {
            BindingCall::Bind(b) => earlier.insert((b.aor, b.contact), b),
            BindingCall::Unbind { aor, contact } => earlier.remove((aor, contact)),
        }
    }
}

proof fn lemma_bound_under_own_key(calls: Seq<BindingCall>)
    ensures
        forall|k: PairKey| #[trigger]
            bound_after(calls).contains_key(k) ==> k == (
                bound_after(calls)[k].aor,
                bound_after(calls)[k].contact,
            ),
    decreases calls.len(),
{
    if calls.len() > 0 {
        lemma_bound_under_own_key(calls.drop_last());
        let earlier = bound_after(calls.drop_last());
        assert forall|k: PairKey| #[trigger] bound_after(calls).contains_key(k) implies k == (
            bound_after(calls)[k].aor,
            bound_after(calls)[k].contact,
        ) by {
            if earlier.contains_key(k) {
                assert(k == (earlier[k].aor, earlier[k].contact));
            }
        }
    }
}

proof fn lemma_live_once(all: Seq<BindingView>, aor: Option<Seq<char>>, now: i64, n: int)
    requires
        all.no_duplicates(),
        0 <= n <= all.len(),
    ensures
        live_of(all, aor, now, n).no_duplicates(),
    decreases n,
{
    if n > 0 {
        lemma_live_once(all, aor, now, n - 1);
        let rest = live_of(all, aor, now, n - 1);
        lookups_are_exact(all, aor, now, n - 1, all[n - 1]);
        if rest.contains(all[n - 1]) {
            let front = all.take(n - 1);
            let i = choose|i: int| 0 <= i < front.len() && front[i] == all[n - 1];
            assert(all[i] == all[n - 1]);
        }
    }
}

/// After any calls of bind and unbind, a lookup gives exactly the live bindings
/// of the address, each once. `list` is the bindings in the order in which the
/// store keeps them.
pub proof fn lookups_follow_the_calls(
    calls: Seq<BindingCall>,
    list: Seq<BindingView>,
    aor: Seq<char>,
    now: i64,
)
    requires
        is_listing(list, bound_after(calls)),
    ensures
        live_of(list, Some(aor), now, list.len() as int).no_duplicates(),
        forall|b: BindingView| #[trigger]
            live_of(list, Some(aor), now, list.len() as int).contains(b) <==> b.expires_at_unix
                > now && b.aor == aor && bound_after(calls).contains_pair((aor, b.contact), b),
{
    let map = bound_after(calls);
    let keys = choose|keys: Seq<PairKey>| #[trigger] is_order(keys, list, map);
    lemma_bound_under_own_key(calls);
    assert(list.no_duplicates()) by {
        assert forall|i: int, j: int|
            0 <= i < list.len() && 0 <= j < list.len() && i != j implies list[i] != list[j] by {
            assert(map.contains_key(keys[i]) && map.contains_key(keys[j]));
        }
    }
    lemma_live_once(list, Some(aor), now, list.len() as int);
    assert forall|b: BindingView| #[trigger]
        live_of(list, Some(aor), now, list.len() as int).contains(b) <==> b.expires_at_unix > now
            && b.aor == aor && map.contains_pair((aor, b.contact), b) by {
        lookups_are_exact(list, Some(aor), now, list.len() as int, b);
        assert(list.take(list.len() as int) =~= list);
        if list.contains(b) {
            let i = choose|i: int| 0 <= i < list.len() && list[i] == b;
            assert(map.contains_key(keys[i]));
        }
        if map.contains_pair((aor, b.contact), b) {
            assert(map.contains_key((aor, b.contact)));
            let i = choose|i: int| 0 <= i < keys.len() && keys[i] == (aor, b.contact);
            assert(list[i] == b);
        }
    }
}

} // verus!
