//! Authentication and registration.

use vstd::prelude::*;

use super::super::parse::{contact_uri, first_contact_uri};
use super::super::summary::RequestSummary;
use super::dispatch::answer_step;
use super::respond::{respond_step, Reply, ReplyView};
use super::{outputs, tag_at, tagged, Moment, UasCommand, UasCommandView, UasServer, UasView};
use crate::auth::digest::Algorithm;
use crate::auth::registrar::{
    is_challenge, is_decision, is_freshness_problem, result_view, AuthError, Nonces, Registrar,
    Stock,
};
use crate::auth::{
    Binding, BindingView, CredentialStore, RegistrationError, RegistrationStore,
};
use crate::pair_map::PairKey;

verus! {

// ---------------------------------------------------------------------
// Authentication
// ---------------------------------------------------------------------

/// What an authentication led to.
#[derive(Debug)]
pub enum AuthOutcome {
    /// The user proved who they are.
    Authenticated(String),
    /// Send 401 with this `WWW-Authenticate` value.
    Challenge(String),
    /// The accounts could not be reached.
    Failed,
}

/// `r` is a fresh challenge of `reg`, which leads from `before` to `after`.
pub open spec fn challenged<S>(
    reg: Registrar<S>,
    before: Stock,
    after: Stock,
    stale: bool,
    r: AuthOutcome,
) -> bool {
    r matches AuthOutcome::Challenge(c) && is_challenge(
        before,
        after,
        reg.lifetime(),
        reg.cap(),
        reg.realm_text(),
        Algorithm::Md5,
        stale,
        c@,
    )
}

/// Where a verdict on the request's credentials leads, `None` when it has none,
/// and how the nonces go from `before` to `after`: a user is let in; a refusal
/// challenges anew, and says so when only the nonce was stale; accounts that
/// cannot be reached are a failure.
pub open spec fn concluded<S>(
    reg: Registrar<S>,
    before: Stock,
    after: Stock,
    verdict: Option<Result<Seq<char>, AuthError>>,
    r: AuthOutcome,
) -> bool {
    match verdict {
        None => challenged(reg, before, after, false, r),
        Some(Ok(user)) => (r matches AuthOutcome::Authenticated(u) && u@ == user) && after
            == before,
        Some(Err(AuthError::Backend(_))) => r is Failed && after == before,
        Some(Err(e)) => challenged(reg, before, after, is_freshness_problem(e), r),
    }
}

/// The model of an optional verdict.
pub open spec fn verdict_opt(v: Option<Result<String, AuthError>>) -> Option<
    Result<Seq<char>, AuthError>,
> {
    match v {
        Some(r) => Some(result_view(r)),
        None => None,
    }
}

/// What a verdict on the request's credentials leads to: `None` when it has
/// none. See [`concluded`].
pub fn outcome_of<S>(reg: &mut Registrar<S>, verdict: Option<Result<String, AuthError>>) -> (r:
    AuthOutcome)
    requires
        old(reg).wf(),
    ensures
        final(reg).wf(),
        final(reg).same_settings(*old(reg)),
        concluded(*old(reg), old(reg).stock(), final(reg).stock(), verdict_opt(verdict), r),
{
    match verdict {
        None => AuthOutcome::Challenge(reg.challenge(Algorithm::Md5, false)),
        Some(Ok(user)) => AuthOutcome::Authenticated(user),
        Some(Err(AuthError::Backend(_))) => AuthOutcome::Failed,
        Some(Err(e)) => {
            let stale = e.wants_stale_challenge();
            AuthOutcome::Challenge(reg.challenge(Algorithm::Md5, stale))
        },
    }
}

/// The Request-URI that credentials are checked against.
pub open spec fn signed_uri(req: RequestSummary) -> Seq<char> {
    match req@.request_uri {
        Some(u) => u,
        None => seq![],
    }
}

/// Where authenticating a request with the `Authorization` value `header`
/// leads: the registrar decides, and the user is let in or challenged anew.
pub open spec fn is_answer<S: CredentialStore>(
    reg: Registrar<S>,
    req: RequestSummary,
    method: Seq<char>,
    header: Seq<char>,
    after: Stock,
    r: AuthOutcome,
) -> bool {
    exists|nonces: Nonces, verdict: Result<Seq<char>, AuthError>|
        #[trigger] is_decision(reg, method, signed_uri(req), header, nonces, verdict)
            && concluded(reg, (nonces, reg.last_sweep()), after, Some(verdict), r)
}

/// Authenticates a request.
pub fn digest_authenticate<S: CredentialStore>(
    reg: &mut Registrar<S>,
    req: &RequestSummary,
    method: &str,
) -> (r: AuthOutcome)
    requires
        old(reg).wf(),
    ensures
        final(reg).wf(),
        final(reg).same_settings(*old(reg)),
        r !is Failed,
        match req@.authorization {
            None => concluded(*old(reg), old(reg).stock(), final(reg).stock(), None, r),
            Some(header) => is_answer(*old(reg), *req, method@, header, final(reg).stock(), r),
        },
{
    let auth = match &req.authorization {
        Some(a) => a,
        None => {
            return outcome_of(reg, None);
        },
    };
    let empty: String = String::new();
    assert(empty@ =~= seq![]);
    let uri: &str = match &req.request_uri {
        Some(u) => u.as_str(),
        None => empty.as_str(),
    };
    assert(uri@ == signed_uri(*req));
    let verdict = reg.authenticate(method, uri, auth);
    let ghost nonces = reg.nonces();
    let ghost decided = result_view(verdict);
    assert(is_decision(*old(reg), method@, signed_uri(*req), auth@, nonces, decided));
    outcome_of(reg, Some(verdict))
}

// ---------------------------------------------------------------------
// Bindings
// ---------------------------------------------------------------------

/// What a REGISTER does to the bindings.
#[derive(Debug)]
pub enum BindingStep {
    /// Nothing: it names no contact.
    Skip,
    /// Removes a contact.
    Unbind {
        /// Address of record.
        aor: String,
        /// Contact URI.
        contact: String,
    },
    /// Adds or refreshes a contact.
    Bind(Binding),
}

/// Model of a [`BindingStep`].
#[verifier::ext_equal]
pub enum BindingStepView {
    Skip,
    Unbind { aor: Seq<char>, contact: Seq<char> },
    Bind(BindingView),
}

impl View for BindingStep {
    type V = BindingStepView;

    open spec fn view(&self) -> BindingStepView {
        match *self {
            BindingStep::Skip => BindingStepView::Skip,
            BindingStep::Unbind { aor, contact } => BindingStepView::Unbind {
                aor: aor@,
                contact: contact@,
            },
            BindingStep::Bind(b) => BindingStepView::Bind(b@),
        }
    }
}

/// Seconds that a binding lasts when the REGISTER does not say.
pub const DEFAULT_EXPIRES: u32 = 3600;

/// When a binding of `ttl` seconds ends, saturating.
pub open spec fn ends_at(now: i64, ttl: u32) -> i64 {
    if now + ttl <= i64::MAX {
        (now + ttl) as i64
    } else {
        i64::MAX
    }
}

/// The address of record of a user.
pub open spec fn aor_of(user: Seq<char>, realm: Seq<char>) -> Seq<char> {
    "sip:"@ + user + "@"@ + realm
}

/// What a REGISTER of `user` does to the bindings.
pub open spec fn binding_of(req: RequestSummary, realm: Seq<char>, user: Seq<char>, now: i64) ->
    BindingStepView {
    match req@.contact {
        None => BindingStepView::Skip,
        Some(header) => match contact_uri(header) {
            None => BindingStepView::Skip,
            Some(contact) => {
                let ttl = match req.expires {
                    Some(t) => t,
                    None => DEFAULT_EXPIRES,
                };
                if ttl == 0 {
                    BindingStepView::Unbind { aor: aor_of(user, realm), contact }
                } else {
                    BindingStepView::Bind(
                        BindingView {
                            aor: aor_of(user, realm),
                            contact,
                            expires_at_unix: ends_at(now, ttl),
                        },
                    )
                }
            },
        },
    }
}

/// What a REGISTER of `user` does to the bindings: the contact is bound for as
/// long as the request says, or an hour; a request for no time at all removes
/// it. `now` is in seconds since the Unix epoch.
pub fn binding_for(req: &RequestSummary, realm: &str, user: &str, now: i64) -> (r: BindingStep)
    ensures
        r@ == binding_of(*req, realm@, user@, now),
{
    let header = match &req.contact {
        Some(h) => h,
        None => {
            return BindingStep::Skip;
        },
    };
    let contact = match first_contact_uri(header) {
        Some(u) => u,
        None => {
            return BindingStep::Skip;
        },
    };
    let mut aor: String = "sip:".to_owned();
    aor.append(user);
    aor.append("@");
    aor.append(realm);
    let ttl: u32 = match req.expires {
        Some(t) => t,
        None => DEFAULT_EXPIRES,
    };
    if ttl == 0 {
        return BindingStep::Unbind { aor, contact };
    }
    let expires_at_unix: i64 = if now <= i64::MAX - ttl as i64 {
        now + ttl as i64
    } else {
        i64::MAX
    };
    BindingStep::Bind(Binding { aor, contact, expires_at_unix })
}

/// The bindings after a step that the store carried out.
pub open spec fn with_step(held: Map<PairKey, BindingView>, step: BindingStepView) -> Map<
    PairKey,
    BindingView,
> {
    match step {
        BindingStepView::Skip => held,
        BindingStepView::Unbind { aor, contact } => held.remove((aor, contact)),
        BindingStepView::Bind(b) => held.insert((b.aor, b.contact), b),
    }
}

/// Carries out what a REGISTER does to the bindings, and returns it: the store
/// is asked for that change and for nothing else. A store that fails is no
/// reason to refuse the request.
pub fn persist_register_binding<R: RegistrationStore>(
    store: &mut R,
    req: &RequestSummary,
    realm: &str,
    user: &str,
    now: i64,
) -> (r: BindingStep)
    ensures
        r@ == binding_of(*req, realm@, user@, now),
        match r@ {
            BindingStepView::Skip => *final(store) == *old(store),
            BindingStepView::Unbind { aor, contact } => exists|
                m: &mut R,
                a: &str,
                c: &str,
                o: Result<(), RegistrationError>,
            |
                *m == *old(store) && *final(m) == *final(store) && a@ == aor && c@ == contact
                    && #[trigger] call_ensures(R::unbind, (m, a, c), o),
            BindingStepView::Bind(b) => exists|
                m: &mut R,
                x: &Binding,
                o: Result<Binding, RegistrationError>,
            |
                *m == *old(store) && *final(m) == *final(store) && x@ == b
                    && #[trigger] call_ensures(R::bind, (m, x), o),
        },
        final(store).held() == old(store).held() || final(store).held() == with_step(
            old(store).held(),
            r@,
        ),
{
    let step = binding_for(req, realm, user, now);
    match &step {
        BindingStep::Skip => {},
        BindingStep::Unbind { aor, contact } => {
            let _stored = store.unbind(aor, contact);
        },
        BindingStep::Bind(b) => {
            let _stored = store.bind(b);
        },
    }
    step
}

/// The request was authenticated.
pub open spec fn is_authenticated(auth: Option<AuthOutcome>) -> bool {
    auth matches Some(AuthOutcome::Authenticated(_))
}

/// What a REGISTER does to the bindings, by what its authentication led to:
/// nothing, unless a user proved who they are.
pub open spec fn registration_of(
    req: RequestSummary,
    auth: Option<AuthOutcome>,
    realm: Seq<char>,
    now: i64,
) -> BindingStepView {
    match auth {
        Some(AuthOutcome::Authenticated(user)) => binding_of(req, realm, user@, now),
        _ => BindingStepView::Skip,
    }
}

/// Carries out what a REGISTER does to the bindings, once its authentication is
/// settled, and returns it. Only an authenticated request changes them.
pub fn store_registration<R: RegistrationStore>(
    store: &mut R,
    req: &RequestSummary,
    auth: &Option<AuthOutcome>,
    realm: &str,
    now: i64,
) -> (r: BindingStep)
    ensures
        r@ == registration_of(*req, *auth, realm@, now),
        !is_authenticated(*auth) ==> *final(store) == *old(store),
        match r@ {
            BindingStepView::Skip => *final(store) == *old(store),
            BindingStepView::Unbind { aor, contact } => exists|
                m: &mut R,
                a: &str,
                c: &str,
                o: Result<(), RegistrationError>,
            |
                *m == *old(store) && *final(m) == *final(store) && a@ == aor && c@ == contact
                    && #[trigger] call_ensures(R::unbind, (m, a, c), o),
            BindingStepView::Bind(b) => exists|
                m: &mut R,
                x: &Binding,
                o: Result<Binding, RegistrationError>,
            |
                *m == *old(store) && *final(m) == *final(store) && x@ == b
                    && #[trigger] call_ensures(R::bind, (m, x), o),
        },
        final(store).held() == old(store).held() || final(store).held() == with_step(
            old(store).held(),
            r@,
        ),
{
    match auth {
        Some(AuthOutcome::Authenticated(user)) => persist_register_binding(
            store,
            req,
            realm,
            user,
            now,
        ),
        _ => BindingStep::Skip,
    }
}

// ---------------------------------------------------------------------
// REGISTER
// ---------------------------------------------------------------------

/// The answer to a request that must authenticate: 401 with a challenge.
pub open spec fn challenge_reply(challenge: Seq<char>, tag: Seq<char>) -> ReplyView {
    ReplyView {
        status: 401,
        reason: "Unauthorized"@,
        tag: Some(tag),
        extras: seq![("WWW-Authenticate"@, challenge)],
        body: seq![],
    }
}

/// Answers a REGISTER: `auth` is what its authentication led to, `None` when
/// nobody has to authenticate.
pub open spec fn register_step(
    s: UasView,
    req: RequestSummary,
    auth: Option<AuthOutcome>,
    peer: Seq<char>,
    now: Moment,
) -> (UasView, Seq<UasCommandView>) {
    match auth {
        None => answer_step(s, req, 200, "OK"@, peer, now),
        Some(AuthOutcome::Authenticated(_)) => answer_step(s, req, 200, "OK"@, peer, now),
        Some(AuthOutcome::Challenge(c)) => respond_step(
            tagged(s),
            req,
            challenge_reply(c@, tag_at(s, now)),
            peer,
        ),
        Some(AuthOutcome::Failed) => answer_step(
            s,
            req,
            500,
            "Server Internal Error"@,
            peer,
            now,
        ),
    }
}

impl UasServer {
    /// Answers with a challenge.
    pub(super) fn respond_challenge(
        &mut self,
        out: &mut Vec<UasCommand>,
        req: &RequestSummary,
        challenge: &str,
        tag: &str,
        peer: &str,
    )
        requires
            old(self).wf(),
        ensures
            final(self).wf(),
            ({
                let (s, c) = respond_step(
                    old(self)@,
                    *req,
                    challenge_reply(challenge@, tag@),
                    peer@,
                );
                final(self)@ == s && outputs(final(out)@) == outputs(old(out)@) + c
            }),
    {
        let extras: [(&str, &str); 1] = [("WWW-Authenticate", challenge)];
        let no_body: [u8; 0] = [];
        let reply = Reply {
            status: 401,
            reason: "Unauthorized",
            tag: Some(tag),
            extras: &extras,
            body: &no_body,
        };
        assert(reply@.extras =~= challenge_reply(challenge@, tag@).extras);
        assert(reply@.body =~= seq![]);
        self.respond(out, req, reply, peer);
    }

    /// Answers a REGISTER: `auth` is what its authentication led to, `None`
    /// when nobody has to authenticate.
    pub fn handle_register(
        &mut self,
        out: &mut Vec<UasCommand>,
        req: &RequestSummary,
        auth: Option<AuthOutcome>,
        peer: &str,
        now: &Moment,
    )
        requires
            old(self).wf(),
        ensures
            final(self).wf(),
            ({
                let (s, c) = register_step(old(self)@, *req, auth, peer@, *now);
                final(self)@ == s && outputs(final(out)@) == outputs(old(out)@) + c
            }),
    {
        match auth {
            None => self.answer(out, req, 200, "OK", peer, now),
            Some(AuthOutcome::Authenticated(_)) => self.answer(out, req, 200, "OK", peer, now),
            Some(AuthOutcome::Challenge(c)) => {
                let tag = self.next_tag(now);
                self.respond_challenge(out, req, &c, &tag, peer);
            },
            Some(AuthOutcome::Failed) => {
                self.answer(out, req, 500, "Server Internal Error", peer, now);
            },
        }
    }
}

// ---------------------------------------------------------------------
// Laws
// ---------------------------------------------------------------------

/// A REGISTER that names a contact binds it for exactly as long as it says:
/// `t` seconds from `now` for `Expires: t`, for every `t` but 0, and 3600
/// seconds when it does not say. The end is the largest `i64` where it would be
/// past it.
pub proof fn bindings_last_as_long_as_asked(
    req: RequestSummary,
    realm: Seq<char>,
    user: Seq<char>,
    now: i64,
    t: u32,
)
    requires
        req@.contact is Some,
        contact_uri(req@.contact->0) is Some,
        req.expires == Some(t) && t > 0 || req.expires is None && t == 3600,
    ensures
        ({
            &&& binding_of(req, realm, user, now) matches BindingStepView::Bind(b)
            &&& now + t <= i64::MAX ==> b.expires_at_unix == now + t
            &&& now + t > i64::MAX ==> b.expires_at_unix == i64::MAX
            &&& b.contact == contact_uri(req@.contact->0)->0
            &&& b.aor == "sip:"@ + user + "@"@ + realm
        }),
{
}

/// A REGISTER that names a contact and asks for no time at all removes it, and
/// does nothing else.
pub proof fn bindings_are_removed_on_request(
    req: RequestSummary,
    realm: Seq<char>,
    user: Seq<char>,
    now: i64,
)
    requires
        req@.contact is Some,
        contact_uri(req@.contact->0) is Some,
        req.expires == Some(0u32),
    ensures
        binding_of(req, realm, user, now) == (BindingStepView::Unbind {
            aor: "sip:"@ + user + "@"@ + realm,
            contact: contact_uri(req@.contact->0)->0,
        }),
{
}

/// A REGISTER without a contact changes no binding.
pub proof fn bindings_need_a_contact(
    req: RequestSummary,
    realm: Seq<char>,
    user: Seq<char>,
    now: i64,
)
    requires
        req@.contact is None || contact_uri(req@.contact->0) is None,
    ensures
        binding_of(req, realm, user, now) is Skip,
{
}

/// Of two REGISTERs that differ in `Expires` alone, the one that asks for `d`
/// seconds more is bound `d` seconds longer.
pub proof fn longer_requests_last_longer(
    req: RequestSummary,
    longer: RequestSummary,
    realm: Seq<char>,
    user: Seq<char>,
    now: i64,
    t: u32,
    d: u32,
)
    requires
        req@.contact is Some,
        contact_uri(req@.contact->0) is Some,
        t > 0,
        t + d <= u32::MAX,
        now + t + d <= i64::MAX,
        req.expires == Some(t),
        longer == (RequestSummary { expires: Some((t + d) as u32), ..req }),
    ensures
        ({
            &&& binding_of(req, realm, user, now) matches BindingStepView::Bind(b)
            &&& binding_of(longer, realm, user, now) matches BindingStepView::Bind(c)
            &&& c.expires_at_unix == b.expires_at_unix + d
            &&& c.aor == b.aor && c.contact == b.contact
        }),
{
}

/// What the store holds once it carried out a REGISTER: a bound contact under
/// its address of record, no removed one, and of every other address and
/// contact what it held.
pub proof fn stores_hold_what_was_registered(
    held: Map<PairKey, BindingView>,
    step: BindingStepView,
    other: PairKey,
)
    ensures
        step matches BindingStepView::Bind(b) ==> {
            &&& with_step(held, step).contains_key((b.aor, b.contact))
            &&& with_step(held, step)[(b.aor, b.contact)] == b
            &&& other != (b.aor, b.contact) ==> with_step(held, step).contains_key(other)
                == held.contains_key(other) && with_step(held, step)[other] == held[other]
        },
        step matches BindingStepView::Unbind { aor, contact } ==> {
            &&& !with_step(held, step).contains_key((aor, contact))
            &&& other != (aor, contact) ==> with_step(held, step).contains_key(other)
                == held.contains_key(other) && with_step(held, step)[other] == held[other]
        },
        step is Skip ==> with_step(held, step) == held,
{
}

/// Only a user who proved who they are changes a binding, and only under their
/// own address of record.
pub proof fn only_users_register(
    req: RequestSummary,
    auth: Option<AuthOutcome>,
    realm: Seq<char>,
    now: i64,
)
    ensures
        registration_of(req, auth, realm, now) !is Skip ==> {
            &&& auth matches Some(AuthOutcome::Authenticated(user))
            &&& registration_of(req, auth, realm, now) matches BindingStepView::Bind(b) ==> b.aor
                == "sip:"@ + user@ + "@"@ + realm
            &&& registration_of(req, auth, realm, now) matches BindingStepView::Unbind {
                aor,
                ..
            } ==> aor == "sip:"@ + user@ + "@"@ + realm
        },
        auth matches Some(AuthOutcome::Authenticated(user)) ==> registration_of(
            req,
            auth,
            realm,
            now,
        ) == binding_of(req, realm, user@, now),
{
}

/// What [`binding_for`] returns for a REGISTER that names a contact: a binding
/// that ends `t` seconds from `now` for `Expires: t`, a removal for
/// `Expires: 0`, and a binding that ends in an hour without `Expires`.
pub proof fn registers_are_bound_as_asked(
    req: &RequestSummary,
    realm: &str,
    user: &str,
    now: i64,
    r: BindingStep,
)
    requires
        call_ensures(binding_for, (req, realm, user, now), r),
        req@.contact is Some,
        contact_uri(req@.contact->0) is Some,
    ensures
        req.expires matches Some(t) ==> t > 0 && now + t <= i64::MAX ==> (
        r matches BindingStep::Bind(b) && b.expires_at_unix == now + t),
        req.expires is None && now + 3600 <= i64::MAX ==> (r matches BindingStep::Bind(b)
            && b.expires_at_unix == now + 3600),
        req.expires == Some(0u32) ==> r is Unbind,
        r matches BindingStep::Bind(b) ==> b.contact@ == contact_uri(req@.contact->0)->0 && b.aor@
            == "sip:"@ + user@ + "@"@ + realm@,
{
    assert(r@ == binding_of(*req, realm@, user@, now));
}

} // verus!
