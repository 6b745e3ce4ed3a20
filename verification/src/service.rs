//! The login flow of the GOG storefront plugin: challenges, and the steps from a
//! request to complete a login to the linked account. Each step says what is to be
//! done next for which profile, and takes what came of it.

use vstd::hash_map::StringHashMap;
use vstd::prelude::*;
use vstd::string::*;

use crate::error;
use crate::error::Status;
use crate::session;
use crate::session::{LinkedAccount, Token, UserData, account_after_save, session_of};
use crate::urlencode;
use crate::urlencode::url_encode;

verus! {

/// GOG Galaxy's public client ID, used by every third-party GOG client since GOG
/// has no per-application client registration for this flow.
pub const GOG_CLIENT_ID: &'static str = "46899977096215655";

/// Where GOG redirects back to after a successful login, carrying the
/// authorization `code` as a query parameter. Not a real endpoint we control: the
/// caller is expected to capture this redirect (e.g. via an embedded webview)
/// rather than us standing up a listener for it.
pub const GOG_REDIRECT_URI: &'static str = "https://embed.gog.com/on_login_success?origin=client";

/// How often the storefront is polled for library changes, in seconds. GOG
/// doesn't offer a push API for this, so polling is the only option.
pub const WATCH_GAMES_POLL_INTERVAL: u64 = 30;

/// How long a login challenge stays claimable after it was issued, in
/// nanoseconds.
pub const LOGIN_CHALLENGE_TTL: u128 = 300_000_000_000;

/// A login challenge issued by `begin_login`, awaiting `complete_login`. Tracked
/// only by creation time, in nanoseconds of a clock that never goes back: the
/// challenge itself carries no other state since GOG's flow is a single
/// authorization-code exchange.
#[derive(Clone, Copy, Debug)]
pub struct PendingChallenge {
    pub created_at: u128,
}

/// Login challenges issued but not yet completed, by their ids.
pub type Challenges = Map<Seq<char>, PendingChallenge>;

/// The login side of the plugin. A challenge is only removed once a login
/// succeeds or it's found expired: a failed attempt (bad code, transient GOG API
/// error) leaves it in place so the caller can retry without restarting the whole
/// flow.
pub struct GogStoreService {
    challenges: StringHashMap<PendingChallenge>,
}

impl View for GogStoreService {
    type V = Challenges;

    closed spec fn view(&self) -> Challenges {
        self.challenges@
    }
}

pub open spec fn is_lower_hex(c: char) -> bool {
    '0' <= c <= '9' || 'a' <= c <= 'f'
}

/// The form of a random UUID: hyphens in four places, the version, the variant,
/// and hexadecimal digits.
pub open spec fn is_random_uuid(id: Seq<char>) -> bool {
    &&& id.len() == 36
    &&& id[8] == '-' && id[13] == '-' && id[18] == '-' && id[23] == '-'
    &&& id[14] == '4'
    &&& id[19] == '8' || id[19] == '9' || id[19] == 'a' || id[19] == 'b'
    &&& forall|i: int|
        0 <= i < 36 && i != 8 && i != 13 && i != 18 && i != 23 ==> is_lower_hex(#[trigger] id[i])
}

/// `uuid::Uuid::new_v4`, in its hyphenated lower-case form. The contract claims
/// that form of every outcome; which of the ids comes is left to chance.
#[verifier::external_body]
fn new_challenge_id() -> (id: String)
    ensures
        is_random_uuid(id@),
{
    uuid::Uuid::new_v4().to_string()
}

/// Where the user logs in, and where GOG redirects to afterwards.
#[derive(Debug)]
pub struct OAuthRedirectChallenge {
    pub auth_url: String,
    pub redirect_uri: String,
}

/// Why no challenge can be issued. There is no such reason for GOG, so nothing is held
/// of it here, and no challenge carries one.
#[derive(Clone, Copy, Debug)]
pub struct ChallengeError;

/// A login challenge as it is handed to the caller.
#[derive(Debug)]
pub struct LoginChallenge {
    pub challenge_id: String,
    pub error: Option<ChallengeError>,
    pub oauth_redirect: OAuthRedirectChallenge,
}

/// GOG's OAuth authorization URL.
pub open spec fn auth_url_text() -> Seq<char> {
    "https://auth.gog.com/auth?client_id="@ + GOG_CLIENT_ID@ + "&redirect_uri="@
        + urlencode::url_encoded(GOG_REDIRECT_URI@) + "&response_type=code&layout=client2"@
}

/// `challenge` points the user at GOG's login, without an error.
pub open spec fn is_gog_challenge(challenge: LoginChallenge) -> bool {
    &&& challenge.error is None
    &&& challenge.oauth_redirect.auth_url@ == auth_url_text()
    &&& challenge.oauth_redirect.redirect_uri@ == GOG_REDIRECT_URI@
}

/// `GOG_REDIRECT_URI`, encoded for the auth URL's query string.
pub fn urlencoding_embed_redirect() -> (encoded: String)
    ensures
        encoded@ == urlencode::url_encoded(GOG_REDIRECT_URI@),
{
    url_encode(GOG_REDIRECT_URI)
}

/// A request to complete a login.
#[derive(Debug)]
pub struct CompleteLoginRequest {
    pub profile_id: String,
    pub challenge_id: String,
    pub user_input: String,
}

/// Whether a challenge can no longer be claimed at `now`.
pub open spec fn is_expired(challenge: PendingChallenge, now: u128) -> bool {
    now - challenge.created_at > LOGIN_CHALLENGE_TTL
}

/// Why an attempt to log in is refused, if it is: the challenge is not pending, is
/// expired, or the authorization code is missing, in this order.
pub open spec fn refusal(
    challenges: Challenges,
    challenge_id: Seq<char>,
    user_input: Seq<char>,
    now: u128,
) -> Option<error::StatusView> {
    if !challenges.contains_key(challenge_id) {
        Some(error::challenge_not_found_status())
    } else if is_expired(challenges[challenge_id], now) {
        Some(error::challenge_expired_status())
    } else if user_input.len() == 0 {
        Some(error::code_required_status())
    } else {
        None
    }
}

/// The pending challenges after an attempt to log in: an expired one is gone.
pub open spec fn after_attempt(
    challenges: Challenges,
    challenge_id: Seq<char>,
    now: u128,
) -> Challenges {
    if challenges.contains_key(challenge_id) && is_expired(challenges[challenge_id], now) {
        challenges.remove(challenge_id)
    } else {
        challenges
    }
}

/// To do: exchange the authorization code for a session.
#[derive(Debug)]
pub struct ExchangeStep {
    pub profile_id: String,
    pub challenge_id: String,
    pub code: String,
}

/// To do: save the credentials of the new session for the profile.
#[derive(Debug)]
pub struct SaveStep {
    pub profile_id: String,
    pub challenge_id: String,
    pub credentials: String,
    pub user: UserData,
}

/// `next` is what follows from a request to complete a login.
pub open spec fn after_request(
    challenges: Challenges,
    request: CompleteLoginRequest,
    now: u128,
    next: Result<ExchangeStep, Status>,
) -> bool {
    match refusal(challenges, request.challenge_id@, request.user_input@, now) {
        Some(status) => next matches Err(err) && err@ == status,
        None => next == Ok::<ExchangeStep, Status>(
            ExchangeStep {
                profile_id: request.profile_id,
                challenge_id: request.challenge_id,
                code: request.user_input,
            },
        ),
    }
}

/// What the worker brought back that exchanged an authorization code: its own
/// failure, GOG's refusal, or the token and the user.
pub type Exchange = Result<Result<(Token, UserData), String>, String>;

/// The pending challenges after the session of a login was handed to the credential
/// store: once it is saved the login has succeeded, and only that spends the
/// challenge.
pub open spec fn after_save(
    challenges: Challenges,
    challenge_id: Seq<char>,
    saved: Result<(), String>,
) -> Challenges {
    match saved {
        Ok(_) => challenges.remove(challenge_id),
        Err(_) => challenges,
    }
}

impl GogStoreService {
    /// No challenge is pending.
    pub fn new() -> (service: GogStoreService)
        ensures
            service@ == Map::<Seq<char>, PendingChallenge>::empty(),
    {
        GogStoreService { challenges: StringHashMap::new() }
    }

    /// Makes `challenge_id` a pending challenge, issued at `now`.
    pub fn issue_challenge(&mut self, challenge_id: String, now: u128) -> (challenge: LoginChallenge)
        ensures
            challenge.challenge_id@ == challenge_id@,
            is_gog_challenge(challenge),
            final(self)@ == old(self)@.insert(challenge_id@, PendingChallenge { created_at: now }),
    {
        self.challenges.insert(challenge_id.clone(), PendingChallenge { created_at: now });
        let mut auth_url = String::new();
        auth_url.append("https://auth.gog.com/auth?client_id=");
        auth_url.append(GOG_CLIENT_ID);
        auth_url.append("&redirect_uri=");
        auth_url.append(urlencoding_embed_redirect().as_str());
        auth_url.append("&response_type=code&layout=client2");
        assert(auth_url@ =~= auth_url_text());
        LoginChallenge {
            challenge_id,
            error: None,
            oauth_redirect: OAuthRedirectChallenge {
                auth_url,
                redirect_uri: GOG_REDIRECT_URI.to_owned(),
            },
        }
    }

    /// Issues a new login challenge pointing at GOG's OAuth authorization URL. The
    /// challenge isn't scoped to a profile until `complete_login`.
    pub fn begin_login(&mut self, now: u128) -> (challenge: LoginChallenge)
        ensures
            is_random_uuid(challenge.challenge_id@),
            is_gog_challenge(challenge),
            final(self)@ == old(self)@.insert(
                challenge.challenge_id@,
                PendingChallenge { created_at: now },
            ),
    {
        let challenge_id = new_challenge_id();
        self.issue_challenge(challenge_id, now)
    }

    /// Grants a request to exchange its authorization code at `now`, or refuses it.
    /// Only peeks the challenge, unless it is expired.
    pub fn complete_login(&mut self, request: CompleteLoginRequest, now: u128) -> (next: Result<
        ExchangeStep,
        Status,
    >)
        ensures
            after_request(old(self)@, request, now, next),
            final(self)@ == after_attempt(old(self)@, request.challenge_id@, now),
    {
        let created_at: u128 = match self.challenges.get(request.challenge_id.as_str()) {
            Some(challenge) => challenge.created_at,
            None => {
                return Err(error::login_challenge_not_found());
            },
        };
        if now > created_at && now - created_at > LOGIN_CHALLENGE_TTL {
            self.challenges.remove(request.challenge_id.as_str());
            return Err(error::login_challenge_expired());
        }
        if request.user_input.as_str().is_empty() {
            return Err(error::authorization_code_required());
        }
        Ok(
            ExchangeStep {
                profile_id: request.profile_id,
                challenge_id: request.challenge_id,
                code: request.user_input,
            },
        )
    }

    /// The answer to a login, once the credential store answered. If its session is
    /// saved, the login has succeeded and its challenge is spent.
    pub fn login_saved(&mut self, step: SaveStep, saved: Result<(), String>) -> (account: Result<
        LinkedAccount,
        Status,
    >)
        ensures
            session::is_account_after_save(step.user, saved, account),
            final(self)@ == after_save(old(self)@, step.challenge_id@, saved),
    {
        if saved.is_ok() {
            self.challenges.remove(step.challenge_id.as_str());
        }
        account_after_save(step.user, saved)
    }
}

impl ExchangeStep {
    /// `next` is what follows from the exchange.
    pub open spec fn after_exchange(
        self,
        exchange: Exchange,
        next: Result<SaveStep, Status>,
    ) -> bool {
        match exchange {
            Err(err) => next matches Err(status) && status@ == error::worker_panicked_status(err@),
            Ok(Err(err)) => next matches Err(status) && status@
                == error::authorization_failed_status(err@),
            Ok(Ok((token, user))) => {
                &&& next matches Ok(step)
                &&& step.profile_id == self.profile_id
                &&& step.challenge_id == self.challenge_id
                &&& step.credentials@ == session::token_written(token@)
                &&& session::is_read_as(step.credentials@, token@)
                &&& step.user == user
            },
        }
    }

    /// The authorization code was exchanged, or wasn't. No challenge is touched, so that
    /// a bad or expired code doesn't burn the slot and force the caller to restart with
    /// a fresh `begin_login`.
    pub fn exchanged(self, exchange: Exchange) -> (next: Result<SaveStep, Status>)
        ensures
            self.after_exchange(exchange, next),
    {
        match exchange {
            Err(err) => Err(error::worker_panicked(err.as_str())),
            Ok(Err(err)) => Err(error::authorization_failed(err.as_str())),
            Ok(Ok((token, user))) => match session_of(user, token) {
                Ok(session) => Ok(
                    SaveStep {
                        profile_id: self.profile_id,
                        challenge_id: self.challenge_id,
                        credentials: session.credentials,
                        user: session.user,
                    },
                ),
                Err(status) => Err(status),
            },
        }
    }
}

/// A challenge that was issued at most five minutes ago admits an exchange for
/// any authorization code, and stays pending meanwhile.
pub proof fn law_fresh_challenge_is_claimable(
    challenges: Challenges,
    challenge_id: Seq<char>,
    issued: u128,
    now: u128,
    user_input: Seq<char>,
)
    requires
        now - issued <= LOGIN_CHALLENGE_TTL,
        user_input.len() > 0,
    ensures
        ({
            let pending = challenges.insert(challenge_id, PendingChallenge { created_at: issued });
            &&& refusal(pending, challenge_id, user_input, now) is None
            &&& after_attempt(pending, challenge_id, now) == pending
        }),
{
}

/// A challenge that was issued more than five minutes ago is refused as expired,
/// whatever the code, and from then on as unknown.
pub proof fn law_expired_challenge_is_refused(
    challenges: Challenges,
    challenge_id: Seq<char>,
    issued: u128,
    now: u128,
    user_input: Seq<char>,
    later: u128,
    later_input: Seq<char>,
)
    requires
        now - issued > LOGIN_CHALLENGE_TTL,
    ensures
        ({
            let pending = challenges.insert(challenge_id, PendingChallenge { created_at: issued });
            &&& refusal(pending, challenge_id, user_input, now) == Some(
                error::challenge_expired_status(),
            )
            &&& refusal(
                after_attempt(pending, challenge_id, now),
                challenge_id,
                later_input,
                later,
            ) == Some(error::challenge_not_found_status())
        }),
{
}

/// An attempt on a challenge that isn't expired leaves it as it was, and so does an
/// exchange, which touches no challenge: until it expires, the caller can try again
/// with another code.
pub proof fn law_failed_attempt_can_be_retried(
    challenges: Challenges,
    challenge_id: Seq<char>,
    now: u128,
    later: u128,
    user_input: Seq<char>,
)
    requires
        challenges.contains_key(challenge_id),
        !is_expired(challenges[challenge_id], now),
        !is_expired(challenges[challenge_id], later),
        user_input.len() > 0,
    ensures
        after_attempt(challenges, challenge_id, now) == challenges,
        refusal(
            after_attempt(challenges, challenge_id, now),
            challenge_id,
            user_input,
            later,
        ) is None,
{
}

/// A login whose session couldn't be saved leaves the challenge as it was: until it
/// expires, the caller can try again.
pub proof fn law_failed_save_can_be_retried(
    challenges: Challenges,
    challenge_id: Seq<char>,
    err: String,
    later: u128,
    user_input: Seq<char>,
)
    requires
        challenges.contains_key(challenge_id),
        !is_expired(challenges[challenge_id], later),
        user_input.len() > 0,
    ensures
        after_save(challenges, challenge_id, Err(err)) == challenges,
        refusal(
            after_save(challenges, challenge_id, Err(err)),
            challenge_id,
            user_input,
            later,
        ) is None,
{
}

/// A challenge serves for one login: after a success it is unknown.
pub proof fn law_challenge_serves_once(
    challenges: Challenges,
    challenge_id: Seq<char>,
    later: u128,
    user_input: Seq<char>,
)
    ensures
        refusal(
            after_save(challenges, challenge_id, Ok(())),
            challenge_id,
            user_input,
            later,
        ) == Some(error::challenge_not_found_status()),
{
}

/// A pending challenge goes in two ways only: an attempt finds it expired, or the
/// session of its login is saved.
pub proof fn law_challenge_goes_by_success_or_expiry(
    challenges: Challenges,
    challenge_id: Seq<char>,
    now: u128,
    saved: Result<(), String>,
)
    requires
        challenges.contains_key(challenge_id),
    ensures
        !after_attempt(challenges, challenge_id, now).contains_key(challenge_id) <==> is_expired(
            challenges[challenge_id],
            now,
        ),
        !after_save(challenges, challenge_id, saved).contains_key(challenge_id) <==> saved is Ok,
{
}

/// Neither an attempt nor a save touches another challenge.
pub proof fn law_other_challenges_stay(
    challenges: Challenges,
    challenge_id: Seq<char>,
    other: Seq<char>,
    now: u128,
    saved: Result<(), String>,
)
    requires
        other != challenge_id,
        challenges.contains_key(other),
    ensures
        after_attempt(challenges, challenge_id, now).contains_key(other),
        after_attempt(challenges, challenge_id, now)[other] == challenges[other],
        after_save(challenges, challenge_id, saved).contains_key(other),
        after_save(challenges, challenge_id, saved)[other] == challenges[other],
{
}

/// A login that succeeds was granted for a pending challenge that wasn't expired, and
/// exchanged the code of the request. The new session is saved for the profile of the
/// request, and would load as the very token that GOG issued; the account is that of
/// the user whom GOG named; and the challenge of the request is spent, and no other.
pub proof fn law_way_to_a_linked_account(
    challenges: Challenges,
    request: CompleteLoginRequest,
    now: u128,
    step: ExchangeStep,
    token: Token,
    user: UserData,
    save: SaveStep,
    account: LinkedAccount,
    missing: Seq<char>,
    again: Result<Token, Status>,
)
    requires
        after_request(challenges, request, now, Ok(step)),
        step.after_exchange(Ok(Ok((token, user))), Ok(save)),
        session::is_account_after_save(save.user, Ok(()), Ok(account)),
        session::is_stored_token(Ok(Some(save.credentials)), missing, again),
    ensures
        challenges.contains_key(request.challenge_id@),
        !is_expired(challenges[request.challenge_id@], now),
        step.code == request.user_input,
        save.profile_id == request.profile_id,
        save.credentials@ == session::token_written(token@),
        again matches Ok(stored) && stored@ == token@,
        account == session::account_of(user),
        after_save(
            after_attempt(challenges, request.challenge_id@, now),
            save.challenge_id@,
            Ok(()),
        ) == challenges.remove(request.challenge_id@),
{
}

/// A new service has no pending challenge.
pub proof fn law_nothing_is_pending_at_first(service: GogStoreService, id: Seq<char>)
    requires
        call_ensures(GogStoreService::new, (), service),
    ensures
        !service@.contains_key(id),
{
}

/// A challenge points the user at GOG's login page, for the public client, with the
/// redirect in encoded form, and names the redirect.
pub open spec fn points_at_gog(challenge: LoginChallenge) -> bool {
    &&& challenge.error is None
    &&& challenge.oauth_redirect.auth_url@ == "https://auth.gog.com/auth?client_id="@
        + "46899977096215655"@ + "&redirect_uri="@ + urlencode::url_encoded(
        "https://embed.gog.com/on_login_success?origin=client"@,
    ) + "&response_type=code&layout=client2"@
    &&& challenge.oauth_redirect.redirect_uri@
        == "https://embed.gog.com/on_login_success?origin=client"@
}

/// A login begins with a challenge that points at GOG, and that is pending from then on,
/// as old as the time at which it was issued. All others stay.
pub proof fn law_issued_challenge_is_pending(
    before: GogStoreService,
    id: String,
    now: u128,
    challenge: LoginChallenge,
    after: GogStoreService,
)
    requires
        exists|service: &mut GogStoreService|
            *service == before && *final(service) == after && #[trigger] call_ensures(
                GogStoreService::issue_challenge,
                (service, id, now),
                challenge,
            ),
    ensures
        challenge.challenge_id@ == id@,
        points_at_gog(challenge),
        after@.contains_key(id@),
        after@[id@].created_at == now,
        forall|other: Seq<char>|
            other != id@ ==> (#[trigger] after@.contains_key(other) <==> before@.contains_key(other)),
        forall|other: Seq<char>|
            other != id@ && before@.contains_key(other) ==> #[trigger] after@[other] == before@[other],
{
}

/// The like, for an id that was drawn.
pub proof fn law_begun_login_is_pending(
    before: GogStoreService,
    now: u128,
    challenge: LoginChallenge,
    after: GogStoreService,
)
    requires
        exists|service: &mut GogStoreService|
            *service == before && *final(service) == after && #[trigger] call_ensures(
                GogStoreService::begin_login,
                (service, now),
                challenge,
            ),
    ensures
        points_at_gog(challenge),
        challenge.challenge_id@.len() == 36,
        after@.contains_key(challenge.challenge_id@),
        after@[challenge.challenge_id@].created_at == now,
        forall|other: Seq<char>|
            other != challenge.challenge_id@ ==> (#[trigger] after@.contains_key(other)
                <==> before@.contains_key(other)),
        forall|other: Seq<char>|
            other != challenge.challenge_id@ && before@.contains_key(other) ==> #[trigger] after@[other]
                == before@[other],
{
}

/// The redirect is embedded in encoded form.
pub proof fn law_redirect_is_encoded(encoded: String)
    requires
        call_ensures(urlencoding_embed_redirect, (), encoded),
    ensures
        encoded@ == urlencode::url_encoded("https://embed.gog.com/on_login_success?origin=client"@),
        urlencode::url_decoded(encoded@) == "https://embed.gog.com/on_login_success?origin=client"@,
{
    reveal_strlit("https://embed.gog.com/on_login_success?origin=client");
    urlencode::law_decoding_undoes_encoding(
        "https://embed.gog.com/on_login_success?origin=client"@,
    );
}

/// A request to complete a login is granted exactly if its challenge is pending, is at
/// most five minutes old, and a code comes with it; what is to be exchanged is then the
/// code of the request, for its challenge and its profile. Otherwise the refusal says
/// which of these failed, the first of them in this order. The one change is that a
/// challenge found to be older is gone.
pub proof fn law_logins_are_granted(
    before: GogStoreService,
    request: CompleteLoginRequest,
    now: u128,
    next: Result<ExchangeStep, Status>,
    after: GogStoreService,
)
    requires
        exists|service: &mut GogStoreService|
            *service == before && *final(service) == after && #[trigger] call_ensures(
                GogStoreService::complete_login,
                (service, request, now),
                next,
            ),
    ensures
        ({
            let id = request.challenge_id@;
            let pending = before@.contains_key(id);
            let old = now - before@[id].created_at > 300_000_000_000;
            &&& next is Ok <==> pending && !old && request.user_input@.len() > 0
            &&& next matches Ok(step) ==> step.profile_id@ == request.profile_id@
                && step.challenge_id@ == id && step.code@ == request.user_input@
            &&& !pending ==> (next matches Err(status) && status.code == error::Code::NotFound
                && status.message@ == "GOG login challenge not found or already completed"@)
            &&& pending && old ==> (next matches Err(status) && status.code
                == error::Code::DeadlineExceeded && status.message@
                == "GOG login challenge expired"@)
            &&& pending && !old && request.user_input@.len() == 0 ==> (next matches Err(status)
                && status.code == error::Code::InvalidArgument && status.message@
                == "GOG authorization code is required"@)
            &&& after@.contains_key(id) <==> pending && !old
            &&& pending && !old ==> after@[id] == before@[id]
            &&& forall|other: Seq<char>|
                other != id ==> (#[trigger] after@.contains_key(other) <==> before@.contains_key(
                    other,
                ))
            &&& forall|other: Seq<char>|
                other != id && before@.contains_key(other) ==> #[trigger] after@[other]
                    == before@[other]
        }),
{
}

/// What a code is exchanged for is saved for the profile and the challenge of the step,
/// would be read as the very token, and is the session of the user whom GOG named. What
/// fails is reported with what the failing side said.
pub proof fn law_exchanges_are_judged(
    step: ExchangeStep,
    exchange: Exchange,
    next: Result<SaveStep, Status>,
)
    requires
        call_ensures(ExchangeStep::exchanged, (step, exchange), next),
    ensures
        next is Ok <==> exchange matches Ok(Ok(_)),
        exchange matches Ok(Ok((token, user))) ==> (next matches Ok(save) && save.profile_id@
            == step.profile_id@ && save.challenge_id@ == step.challenge_id@ && save.user == user
            && session::token_read(save.credentials@) == Ok::<session::TokenView, Seq<char>>(
            token@,
        )),
        exchange matches Ok(Err(err)) ==> (next matches Err(status) && status.code
            == error::Code::Unauthenticated && status.message@ == "GOG authorization failed: "@
            + err@),
        exchange matches Err(err) ==> (next matches Err(status) && status.code
            == error::Code::Internal && status.message@ == "GOG worker task panicked: "@ + err@),
{
}

/// A login whose session was saved is answered with the untimed, active account of its
/// user, and its challenge is gone. One whose session wasn't is answered with what the
/// store said, and its challenge stays. No other challenge changes.
pub proof fn law_saved_login_is_answered_with_the_account(
    before: GogStoreService,
    step: SaveStep,
    saved: Result<(), String>,
    account: Result<LinkedAccount, Status>,
    after: GogStoreService,
)
    requires
        exists|service: &mut GogStoreService|
            *service == before && *final(service) == after && #[trigger] call_ensures(
                GogStoreService::login_saved,
                (service, step, saved),
                account,
            ),
    ensures
        account is Ok <==> saved is Ok,
        account matches Ok(linked) ==> session::is_untimed_account_of(step.user, linked),
        account matches Err(status) ==> status.code == error::Code::Internal && status.message@
            == "GOG credentials error: "@ + saved->Err_0@,
        after@.contains_key(step.challenge_id@) <==> before@.contains_key(step.challenge_id@)
            && saved is Err,
        saved is Err ==> after@ == before@,
        forall|other: Seq<char>|
            other != step.challenge_id@ ==> (#[trigger] after@.contains_key(other)
                <==> before@.contains_key(other)),
        forall|other: Seq<char>|
            other != step.challenge_id@ && before@.contains_key(other) ==> #[trigger] after@[other]
                == before@[other],
{
    session::law_saved_session_is_answered_with_the_account(step.user, saved, account);
}

/// The storefront is polled twice a minute, and a challenge lives five minutes.
pub proof fn law_intervals()
    ensures
        2 * WATCH_GAMES_POLL_INTERVAL == 60,
        LOGIN_CHALLENGE_TTL == 5 * 60 * 1_000_000_000,
{
}

} // verus!
