//! Sessions: the stored token, its check against GOG, and the linked account.

use vstd::prelude::*;
use vstd::string::*;

use crate::error;
use crate::error::Status;
use crate::games::Storefront;
use crate::gamesdb::Timestamp;

verus! {

/// An OAuth token, as GOG issues it.
#[derive(Debug)]
pub struct Token {
    pub expires_in: u64,
    pub scope: String,
    pub token_type: String,
    pub access_token: String,
    pub user_id: String,
    pub refresh_token: String,
    pub session_id: String,
    pub updated_at: u64,
}

/// The content of a token. A token in stored form may lack the time of its last
/// update.
pub struct TokenView {
    pub expires_in: u64,
    pub scope: Seq<char>,
    pub token_type: Seq<char>,
    pub access_token: Seq<char>,
    pub user_id: Seq<char>,
    pub refresh_token: Seq<char>,
    pub session_id: Seq<char>,
    pub updated_at: Option<u64>,
}

impl View for Token {
    type V = TokenView;

    open spec fn view(&self) -> TokenView {
        TokenView {
            expires_in: self.expires_in,
            scope: self.scope@,
            token_type: self.token_type@,
            access_token: self.access_token@,
            user_id: self.user_id@,
            refresh_token: self.refresh_token@,
            session_id: self.session_id@,
            updated_at: Some(self.updated_at),
        }
    }
}

/// `token` is the token that was read, with a time of its last update if the
/// stored form lacked it.
pub open spec fn completes(read: TokenView, token: TokenView) -> bool {
    &&& token == TokenView { updated_at: token.updated_at, ..read }
    &&& read.updated_at is Some ==> token.updated_at == read.updated_at
}

/// The token that a JSON text holds, or the error text. Stands for what
/// `serde_json::from_str` makes of the text as a `gog::token::Token`.
pub uninterp spec fn token_read(json: Seq<char>) -> Result<TokenView, Seq<char>>;

/// The JSON text of a token. Stands for what `serde_json::to_string` makes of the
/// `gog::token::Token` with this content.
pub uninterp spec fn token_written(token: TokenView) -> Seq<char>;

/// The JSON text holds this very token.
pub open spec fn is_read_as(json: Seq<char>, token: TokenView) -> bool {
    token_read(json) == Ok::<TokenView, Seq<char>>(token)
}

/// `serde_json::from_str` of a `gog::token::Token`. The contract claims that the
/// outcome depends on the text alone, but for the time of the last update: where
/// the text has none, `gog` fills in the current time, for which it needs a clock
/// that is set to 1970 or later. What that time is, the contract leaves open.
#[verifier::external_body]
fn token_from_json(json: &str) -> (token: Result<Token, String>)
    ensures
        match token {
            Ok(token) => token_read(json@) matches Ok(read) && completes(read, token@),
            Err(err) => token_read(json@) == Err::<TokenView, Seq<char>>(err@),
        },
{
    match serde_json::from_str::<gog::token::Token>(json) {
        Ok(token) => Ok(Token {
            expires_in: token.expires_in,
            scope: token.scope,
            token_type: token.token_type,
            access_token: token.access_token,
            user_id: token.user_id,
            refresh_token: token.refresh_token,
            session_id: token.session_id,
            updated_at: token.updated_at,
        }),
        Err(err) => Err(err.to_string()),
    }
}

/// `serde_json::to_string` of a `gog::token::Token`. The contract claims that it
/// succeeds (the token is a struct of numbers and strings, and goes to memory), that
/// the text depends on the token alone, and that it is read back as the same token.
#[verifier::external_body]
fn token_to_json(token: &Token) -> (json: Result<String, String>)
    ensures
        json is Ok,
        json matches Ok(text) ==> (text@ == token_written(token@) && is_read_as(text@, token@)),
{
    serde_json::to_string(&gog::token::Token {
        expires_in: token.expires_in,
        scope: token.scope.clone(),
        token_type: token.token_type.clone(),
        access_token: token.access_token.clone(),
        user_id: token.user_id.clone(),
        refresh_token: token.refresh_token.clone(),
        session_id: token.session_id.clone(),
        updated_at: token.updated_at,
    }).map_err(|err| err.to_string())
}

/// The stored credentials, or why there are none.
pub open spec fn loaded_text(
    loaded: Result<Option<String>, String>,
    missing: Seq<char>,
) -> Result<Seq<char>, error::StatusView> {
    match loaded {
        Ok(Some(stored)) => Ok(stored@),
        Ok(None) => Err(error::credentials_status(missing)),
        Err(err) => Err(error::credentials_status(err@)),
    }
}

/// What the credential store holds for a profile. `missing` says, in the store's
/// words, that it holds nothing.
pub fn loaded_credentials(loaded: Result<Option<String>, String>, missing: &str) -> (stored: Result<
    String,
    Status,
>)
    ensures
        match stored {
            Ok(text) => loaded_text(loaded, missing@) == Ok::<Seq<char>, error::StatusView>(text@),
            Err(status) => loaded_text(loaded, missing@) == Err::<Seq<char>, error::StatusView>(
                status@,
            ),
        },
{
    match loaded {
        Ok(Some(stored)) => Ok(stored),
        Ok(None) => Err(error::credentials(missing)),
        Err(err) => Err(error::credentials(err.as_str())),
    }
}

/// What a stored token that cannot be read is reported as.
pub fn parsed_token(parsed: Result<Token, String>) -> (token: Result<Token, Status>)
    ensures
        match parsed {
            Ok(read) => token == Ok::<Token, Status>(read),
            Err(err) => token matches Err(status) && status@ == error::json_status(err@),
        },
{
    match parsed {
        Ok(token) => Ok(token),
        Err(err) => Err(error::json(err.as_str())),
    }
}

/// `result` is what loading a profile's token comes to.
pub open spec fn is_stored_token(
    loaded: Result<Option<String>, String>,
    missing: Seq<char>,
    result: Result<Token, Status>,
) -> bool {
    match loaded_text(loaded, missing) {
        Err(status) => result matches Err(err) && err@ == status,
        Ok(json) => match token_read(json) {
            Ok(read) => result matches Ok(token) && completes(read, token@),
            Err(text) => result matches Err(err) && err@ == error::json_status(text),
        },
    }
}

/// The token that the credential store holds for a profile.
pub fn stored_token(loaded: Result<Option<String>, String>, missing: &str) -> (token: Result<
    Token,
    Status,
>)
    ensures
        is_stored_token(loaded, missing@, token),
{
    match loaded_credentials(loaded, missing) {
        Ok(json) => parsed_token(token_from_json(json.as_str())),
        Err(status) => Err(status),
    }
}

/// What is known of the logged-in user.
#[derive(Debug)]
pub struct UserData {
    pub username: String,
    pub user_id: String,
}

/// A session that GOG has accepted. Its token may have been refreshed, so its
/// credentials are to be saved.
#[derive(Debug)]
pub struct VerifiedSession {
    pub user: UserData,
    pub token: Token,
    pub credentials: String,
}

/// A session with its token in stored form, or the error in writing it.
pub fn session_with(user: UserData, token: Token, written: Result<String, String>) -> (session: Result<
    VerifiedSession,
    Status,
>)
    ensures
        match written {
            Ok(credentials) => session == Ok::<VerifiedSession, Status>(
                VerifiedSession { user, token, credentials },
            ),
            Err(err) => session matches Err(status) && status@ == error::json_status(err@),
        },
{
    match written {
        Ok(credentials) => Ok(VerifiedSession { user, token, credentials }),
        Err(err) => Err(error::json(err.as_str())),
    }
}

/// `session` is the session of this user and this token, ready to be saved.
pub open spec fn is_session_of(
    user: UserData,
    token: Token,
    session: Result<VerifiedSession, Status>,
) -> bool {
    &&& session matches Ok(verified)
    &&& verified.user == user
    &&& verified.token == token
    &&& verified.credentials@ == token_written(token@)
    &&& is_read_as(verified.credentials@, token@)
}

/// The session of this user, with its token in stored form.
pub fn session_of(user: UserData, token: Token) -> (session: Result<VerifiedSession, Status>)
    ensures
        is_session_of(user, token, session),
{
    let written = token_to_json(&token);
    session_with(user, token, written)
}

/// Judges a check of a stored session: `worked` is what the worker brought back
/// that asked GOG for the user's data, with the token as it was afterwards.
pub fn verify_session(worked: Result<(Result<UserData, String>, Token), String>) -> (session: Result<
    VerifiedSession,
    Status,
>)
    ensures
        match worked {
            Err(err) => session matches Err(status) && status@ == error::worker_panicked_status(
                err@,
            ),
            Ok((Err(err), _)) => session matches Err(status) && status@
                == error::session_invalid_status(err@),
            Ok((Ok(user), token)) => is_session_of(user, token, session),
        },
{
    match worked {
        Err(err) => Err(error::worker_panicked(err.as_str())),
        Ok((Err(err), _)) => Err(error::session_invalid(err.as_str())),
        Ok((Ok(user), token)) => session_of(user, token),
    }
}

/// Whether saving the credentials went well.
pub fn credentials_saved(saved: Result<(), String>) -> (result: Result<(), Status>)
    ensures
        match saved {
            Ok(_) => result is Ok,
            Err(err) => result matches Err(status) && status@ == error::credentials_status(err@),
        },
{
    match saved {
        Ok(_) => Ok(()),
        Err(err) => Err(error::credentials(err.as_str())),
    }
}

/// How far a linked account can be used.
#[derive(Clone, Copy, Debug, PartialEq, Eq, Structural)]
pub enum AuthState {
    Active,
}

/// An account that a profile is linked to.
#[derive(Debug)]
pub struct LinkedAccount {
    pub storefront: Storefront,
    pub account_display_name: String,
    pub account_id: String,
    pub auth_state: AuthState,
    pub linked_at: Option<Timestamp>,
    pub last_verified_at: Option<Timestamp>,
    pub expires_at: Option<Timestamp>,
}

/// The active GOG account of this user. Its times are the caller's to keep.
pub open spec fn account_of(user: UserData) -> LinkedAccount {
    LinkedAccount {
        storefront: Storefront::Gog,
        account_display_name: user.username,
        account_id: user.user_id,
        auth_state: AuthState::Active,
        linked_at: None,
        last_verified_at: None,
        expires_at: None,
    }
}

pub fn linked_account(user: UserData) -> (account: LinkedAccount)
    ensures
        account == account_of(user),
{
    LinkedAccount {
        storefront: Storefront::Gog,
        account_display_name: user.username,
        account_id: user.user_id,
        auth_state: AuthState::Active,
        linked_at: None,
        last_verified_at: None,
        expires_at: None,
    }
}

/// `account` is the answer to a login or a refresh of this user, whose credentials were
/// handed to the credential store.
pub open spec fn is_account_after_save(
    user: UserData,
    saved: Result<(), String>,
    account: Result<LinkedAccount, Status>,
) -> bool {
    match saved {
        Ok(_) => account == Ok::<LinkedAccount, Status>(account_of(user)),
        Err(err) => account matches Err(status) && status@ == error::credentials_status(err@),
    }
}

/// The linked account, once the session's credentials were handed to the credential
/// store.
pub fn account_after_save(user: UserData, saved: Result<(), String>) -> (account: Result<
    LinkedAccount,
    Status,
>)
    ensures
        is_account_after_save(user, saved, account),
{
    match credentials_saved(saved) {
        Ok(_) => Ok(linked_account(user)),
        Err(status) => Err(status),
    }
}

/// The ids of the owned products, out of what the worker that asked GOG for them
/// brought back.
pub fn fetch_game_ids(worked: Result<Result<Vec<i64>, String>, String>) -> (ids: Result<
    Vec<i64>,
    Status,
>)
    ensures
        match worked {
            Err(err) => ids matches Err(status) && status@ == error::worker_panicked_status(err@),
            Ok(Err(err)) => ids matches Err(status) && status@ == error::api_status(err@),
            Ok(Ok(list)) => ids == Ok::<Vec<i64>, Status>(list),
        },
{
    match worked {
        Err(err) => Err(error::worker_panicked(err.as_str())),
        Ok(Err(err)) => Err(error::api(err.as_str())),
        Ok(Ok(list)) => Ok(list),
    }
}

/// The credentials of a verified session, once saved, load as the very token of
/// that session.
pub proof fn law_saved_session_loads_back(
    user: UserData,
    token: Token,
    session: VerifiedSession,
    missing: Seq<char>,
    loaded: Result<Token, Status>,
)
    requires
        is_session_of(user, token, Ok(session)),
        is_stored_token(Ok(Some(session.credentials)), missing, loaded),
    ensures
        loaded matches Ok(again) && again@ == token@,
{
}

/// The account of a user has the user's name and id, is an active GOG account, and has no
/// times: those are the caller's to keep.
pub open spec fn is_untimed_account_of(user: UserData, account: LinkedAccount) -> bool {
    &&& account.storefront == Storefront::Gog
    &&& account.account_display_name@ == user.username@
    &&& account.account_id@ == user.user_id@
    &&& account.auth_state == AuthState::Active
    &&& account.linked_at is None
    &&& account.last_verified_at is None
    &&& account.expires_at is None
}

/// A user's account is the untimed, active account of that user.
pub proof fn law_accounts_are_active_and_untimed(user: UserData, account: LinkedAccount)
    requires
        call_ensures(linked_account, (user,), account),
    ensures
        is_untimed_account_of(user, account),
        is_untimed_account_of(user, account_of(user)),
{
}

/// A login or a refresh whose credentials were saved is answered with the untimed, active
/// account of its user, and one whose credentials weren't with what the store said.
pub proof fn law_saved_session_is_answered_with_the_account(
    user: UserData,
    saved: Result<(), String>,
    account: Result<LinkedAccount, Status>,
)
    requires
        is_account_after_save(user, saved, account) || call_ensures(
            account_after_save,
            (user, saved),
            account,
        ),
    ensures
        account is Ok <==> saved is Ok,
        account matches Ok(linked) ==> is_untimed_account_of(user, linked),
        account matches Err(status) ==> status.code == error::Code::Internal && status.message@
            == "GOG credentials error: "@ + saved->Err_0@,
{
}

/// Saving is judged by what the store said.
pub proof fn law_failed_saves_are_reported(saved: Result<(), String>, result: Result<(), Status>)
    requires
        call_ensures(credentials_saved, (saved,), result),
    ensures
        result is Ok <==> saved is Ok,
        result matches Err(status) ==> status.code == error::Code::Internal && status.message@
            == "GOG credentials error: "@ + saved->Err_0@,
{
}

/// The token has the content that was read, field by field. Only the time of the last
/// update may be another, where none was read.
pub open spec fn has_content(token: Token, read: TokenView) -> bool {
    &&& token.expires_in == read.expires_in
    &&& token.scope@ == read.scope
    &&& token.token_type@ == read.token_type
    &&& token.access_token@ == read.access_token
    &&& token.user_id@ == read.user_id
    &&& token.refresh_token@ == read.refresh_token
    &&& token.session_id@ == read.session_id
    &&& read.updated_at is Some ==> read.updated_at == Some(token.updated_at)
}

/// A profile's token is the one that its stored credentials hold. Without credentials, or
/// with ones that cannot be read, there is an internal error that says so.
pub proof fn law_stored_tokens(
    loaded: Result<Option<String>, String>,
    missing: &str,
    token: Result<Token, Status>,
)
    requires
        is_stored_token(loaded, missing@, token) || call_ensures(
            stored_token,
            (loaded, missing),
            token,
        ),
    ensures
        token is Ok ==> loaded matches Ok(Some(_)),
        loaded matches Ok(Some(json)) ==> (token is Ok <==> token_read(json@) is Ok),
        loaded matches Ok(Some(json)) ==> (token matches Ok(stored) ==> has_content(
            stored,
            token_read(json@)->Ok_0,
        )),
        token matches Err(status) ==> status.code == error::Code::Internal,
        loaded matches Ok(Some(json)) ==> (token matches Err(status) ==> status.message@
            == "GOG JSON error: "@ + token_read(json@)->Err_0),
        loaded matches Ok(None) ==> (token matches Err(status) && status.message@
            == "GOG credentials error: "@ + missing@),
        loaded matches Err(err) ==> (token matches Err(status) && status.message@
            == "GOG credentials error: "@ + err@),
{
}

/// The view of a token holds all its fields.
pub proof fn law_token_views(token: Token)
    ensures
        has_content(token, token@),
        token@.updated_at == Some(token.updated_at),
{
}

/// A session whose check succeeded is that of the user whom GOG named and of the token as
/// it was afterwards, and its credentials would be read as that very token. A check that
/// failed is reported with what the failing side said.
pub proof fn law_sessions_are_checked(
    worked: Result<(Result<UserData, String>, Token), String>,
    session: Result<VerifiedSession, Status>,
)
    requires
        call_ensures(verify_session, (worked,), session),
    ensures
        session is Ok <==> worked matches Ok((Ok(_), _)),
        worked matches Ok((Ok(user), token)) ==> (session matches Ok(verified) && verified.user
            == user && verified.token == token && token_read(verified.credentials@) == Ok::<
            TokenView,
            Seq<char>,
        >(token@)),
        worked matches Ok((Err(err), _)) ==> (session matches Err(status) && status.code
            == error::Code::Unauthenticated && status.message@
            == "GOG session is no longer valid: "@ + err@),
        worked matches Err(err) ==> (session matches Err(status) && status.code
            == error::Code::Internal && status.message@ == "GOG worker task panicked: "@ + err@),
{
}

/// A session is made of the user and the token that are given, and its credentials would
/// be read as that very token.
pub proof fn law_sessions_are_of_their_user_and_token(
    user: UserData,
    token: Token,
    session: Result<VerifiedSession, Status>,
)
    requires
        call_ensures(session_of, (user, token), session),
    ensures
        session matches Ok(verified) && verified.user == user && verified.token == token
            && token_read(verified.credentials@) == Ok::<TokenView, Seq<char>>(token@),
{
}

/// The steps in between: stored credentials, a token that was parsed, and a token that
/// was written are handed on as they are, and the failure of one is an internal error.
pub proof fn law_credentials_are_handed_on(
    loaded: Result<Option<String>, String>,
    missing: &str,
    stored: Result<String, Status>,
    parsed: Result<Token, String>,
    token: Result<Token, Status>,
    user: UserData,
    its_token: Token,
    written: Result<String, String>,
    session: Result<VerifiedSession, Status>,
)
    requires
        call_ensures(loaded_credentials, (loaded, missing), stored),
        call_ensures(parsed_token, (parsed,), token),
        call_ensures(session_with, (user, its_token, written), session),
    ensures
        loaded matches Ok(Some(text)) ==> (stored matches Ok(same) && same@ == text@),
        loaded matches Ok(None) ==> (stored matches Err(status) && status.code
            == error::Code::Internal && status.message@ == "GOG credentials error: "@ + missing@),
        loaded matches Err(err) ==> (stored matches Err(status) && status.code
            == error::Code::Internal && status.message@ == "GOG credentials error: "@ + err@),
        parsed matches Ok(read) ==> token == Ok::<Token, Status>(read),
        parsed matches Err(err) ==> (token matches Err(status) && status.code
            == error::Code::Internal && status.message@ == "GOG JSON error: "@ + err@),
        written matches Ok(text) ==> (session matches Ok(verified) && verified.user == user
            && verified.token == its_token && verified.credentials == text),
        written matches Err(err) ==> (session matches Err(status) && status.code
            == error::Code::Internal && status.message@ == "GOG JSON error: "@ + err@),
{
}

/// The owned ids are all those that GOG named, in its order, and a failure is reported
/// with what the failing side said.
pub proof fn law_owned_ids_are_handed_on(
    worked: Result<Result<Vec<i64>, String>, String>,
    ids: Result<Vec<i64>, Status>,
)
    requires
        call_ensures(fetch_game_ids, (worked,), ids),
    ensures
        worked matches Ok(Ok(list)) ==> ids == Ok::<Vec<i64>, Status>(list),
        worked matches Ok(Err(err)) ==> (ids matches Err(status) && status.code
            == error::Code::Unavailable && status.message@ == "GOG API error: "@ + err@),
        worked matches Err(err) ==> (ids matches Err(status) && status.code
            == error::Code::Internal && status.message@ == "GOG worker task panicked: "@ + err@),
{
}

} // verus!
