//! The way from a request to refresh a session to the linked account, step by step.
//! Each step says what is to be done next for which profile, and takes what came of
//! it: the profile's credentials are loaded, the session is checked, and its token,
//! which may have been refreshed, is saved.

use vstd::prelude::*;

use crate::error;
use crate::error::Status;
use crate::session;
use crate::session::{LinkedAccount, Token, UserData, account_after_save, stored_token, verify_session};

verus! {

/// A request to refresh a profile's session.
#[derive(Debug)]
pub struct RefreshSessionRequest {
    pub profile_id: String,
}

/// To do: load the profile's credentials.
#[derive(Debug)]
pub struct LoadStep {
    pub profile_id: String,
}

/// Re-authenticates with the profile's stored session, rather than performing a fresh
/// interactive login.
pub fn refresh_session(request: RefreshSessionRequest) -> (next: LoadStep)
    ensures
        next.profile_id == request.profile_id,
{
    LoadStep { profile_id: request.profile_id }
}

/// To do: check with GOG that the session of this token is good.
#[derive(Debug)]
pub struct CheckStep {
    pub profile_id: String,
    pub token: Token,
}

impl LoadStep {
    /// `next` is what follows from the store's answer.
    pub open spec fn after_load(
        self,
        loaded: Result<Option<String>, String>,
        missing: Seq<char>,
        next: Result<CheckStep, Status>,
    ) -> bool {
        match next {
            Ok(step) => {
                &&& step.profile_id == self.profile_id
                &&& session::is_stored_token(loaded, missing, Ok(step.token))
            },
            Err(status) => session::is_stored_token(loaded, missing, Err(status)),
        }
    }

    /// The credential store answered. `missing` says, in its words, that it holds
    /// nothing for a profile.
    pub fn loaded(self, loaded: Result<Option<String>, String>, missing: &str) -> (next: Result<
        CheckStep,
        Status,
    >)
        ensures
            self.after_load(loaded, missing@, next),
    {
        match stored_token(loaded, missing) {
            Ok(token) => Ok(CheckStep { profile_id: self.profile_id, token }),
            Err(status) => Err(status),
        }
    }
}

/// To do: save the credentials for the profile.
#[derive(Debug)]
pub struct SaveStep {
    pub profile_id: String,
    pub credentials: String,
    pub user: UserData,
}

impl CheckStep {
    /// `next` is what follows from GOG's answer.
    pub open spec fn after_check(
        self,
        worked: Result<(Result<UserData, String>, Token), String>,
        next: Result<SaveStep, Status>,
    ) -> bool {
        match worked {
            Err(err) => next matches Err(status) && status@ == error::worker_panicked_status(err@),
            Ok((Err(err), _)) => next matches Err(status) && status@
                == error::session_invalid_status(err@),
            Ok((Ok(user), token)) => {
                &&& next matches Ok(step)
                &&& step.profile_id == self.profile_id
                &&& step.credentials@ == session::token_written(token@)
                &&& session::is_read_as(step.credentials@, token@)
                &&& step.user == user
            },
        }
    }

    /// GOG answered. What is saved is the token as it was after the check.
    pub fn checked(self, worked: Result<(Result<UserData, String>, Token), String>) -> (next: Result<
        SaveStep,
        Status,
    >)
        ensures
            self.after_check(worked, next),
    {
        match verify_session(worked) {
            Ok(verified) => Ok(
                SaveStep {
                    profile_id: self.profile_id,
                    credentials: verified.credentials,
                    user: verified.user,
                },
            ),
            Err(status) => Err(status),
        }
    }
}

impl SaveStep {
    /// The credential store answered: the account is that of the user whose session was
    /// checked.
    pub fn saved(self, saved: Result<(), String>) -> (account: Result<LinkedAccount, Status>)
        ensures
            session::is_account_after_save(self.user, saved, account),
    {
        account_after_save(self.user, saved)
    }
}

/// Where nothing fails on the way, the token as it was after the check is saved for the
/// profile that was asked for, would load as that very token, and the account is that
/// of the user whom GOG named.
pub proof fn law_way_to_a_refreshed_session(
    request: RefreshSessionRequest,
    load: LoadStep,
    loaded: Result<Option<String>, String>,
    missing: Seq<char>,
    check: CheckStep,
    user: UserData,
    token: Token,
    save: SaveStep,
    account: LinkedAccount,
    again: Result<Token, Status>,
)
    requires
        load.profile_id == request.profile_id,
        load.after_load(loaded, missing, Ok(check)),
        check.after_check(Ok((Ok(user), token)), Ok(save)),
        session::is_account_after_save(save.user, Ok(()), Ok(account)),
        session::is_stored_token(Ok(Some(save.credentials)), missing, again),
    ensures
        session::is_stored_token(loaded, missing, Ok(check.token)),
        save.profile_id == request.profile_id,
        save.credentials@ == session::token_written(token@),
        again matches Ok(stored) && stored@ == token@,
        account == session::account_of(user),
{
}

/// Every step of a refresh is for the profile of the request. What fails is reported with
/// what the failing side said, and what succeeds ends with the untimed, active account of
/// the user whom GOG named.
pub proof fn law_refresh_steps(
    request: RefreshSessionRequest,
    load: LoadStep,
    loaded: Result<Option<String>, String>,
    missing: &str,
    check: Result<CheckStep, Status>,
    some_check: CheckStep,
    worked: Result<(Result<UserData, String>, Token), String>,
    save: Result<SaveStep, Status>,
    some_save: SaveStep,
    saved: Result<(), String>,
    account: Result<LinkedAccount, Status>,
)
    requires
        call_ensures(refresh_session, (request,), load),
        call_ensures(LoadStep::loaded, (load, loaded, missing), check),
        call_ensures(CheckStep::checked, (some_check, worked), save),
        call_ensures(SaveStep::saved, (some_save, saved), account),
    ensures
        load.profile_id@ == request.profile_id@,
        check matches Ok(step) ==> step.profile_id@ == request.profile_id@ && (
        loaded matches Ok(Some(json)) && session::token_read(json@) is Ok && session::has_content(
            step.token,
            session::token_read(json@)->Ok_0,
        )),
        check matches Err(status) ==> status.code == error::Code::Internal,
        loaded matches Ok(Some(json)) ==> (check is Ok <==> session::token_read(json@) is Ok),
        save is Ok <==> worked matches Ok((Ok(_), _)),
        worked matches Ok((Ok(user), token)) ==> (save matches Ok(step) && step.profile_id@
            == some_check.profile_id@ && step.user == user && session::token_read(
            step.credentials@,
        ) == Ok::<session::TokenView, Seq<char>>(token@)),
        worked matches Ok((Err(err), _)) ==> (save matches Err(status) && status.code
            == error::Code::Unauthenticated && status.message@
            == "GOG session is no longer valid: "@ + err@),
        worked matches Err(err) ==> (save matches Err(status) && status.code
            == error::Code::Internal && status.message@ == "GOG worker task panicked: "@ + err@),
        account is Ok <==> saved is Ok,
        account matches Ok(linked) ==> session::is_untimed_account_of(some_save.user, linked),
        account matches Err(status) ==> status.code == error::Code::Internal && status.message@
            == "GOG credentials error: "@ + saved->Err_0@,
{
    session::law_saved_session_is_answered_with_the_account(some_save.user, saved, account);
    let token = match check {
        Ok(step) => Ok(step.token),
        Err(status) => Err(status),
    };
    session::law_stored_tokens(loaded, missing, token);
}

} // verus!
