//! A status for every way the plugin can fail: plain functions instead of an
//! error enum, so that each failure carries the gRPC code that reflects what
//! went wrong.

use vstd::prelude::*;
use vstd::string::*;

use crate::text;
use crate::text::join2;

verus! {

/// The gRPC codes that the plugin answers with.
#[derive(Clone, Copy, Debug, PartialEq, Eq, Structural)]
pub enum Code {
    InvalidArgument,
    DeadlineExceeded,
    NotFound,
    FailedPrecondition,
    Internal,
    Unavailable,
    Unauthenticated,
}

/// Why a call failed.
#[derive(Debug)]
pub struct Status {
    pub code: Code,
    pub message: String,
}

/// The content of a `Status`.
pub struct StatusView {
    pub code: Code,
    pub message: Seq<char>,
}

impl View for Status {
    type V = StatusView;

    open spec fn view(&self) -> StatusView {
        StatusView { code: self.code, message: self.message@ }
    }
}

pub open spec fn status(code: Code, message: Seq<char>) -> StatusView {
    StatusView { code, message }
}

/// The status with this code and message.
pub fn new_status(code: Code, message: String) -> (result: Status)
    ensures
        result@ == status(code, message@),
{
    Status { code, message }
}

pub open spec fn challenge_not_found_status() -> StatusView {
    status(Code::NotFound, "GOG login challenge not found or already completed"@)
}

/// The `challenge_id` passed to `CompleteLogin` doesn't match any challenge this
/// plugin currently has pending. Either it was never issued by this process, or
/// it was already consumed by a prior (successful) `CompleteLogin` call.
pub fn login_challenge_not_found() -> (result: Status)
    ensures
        result@ == challenge_not_found_status(),
{
    new_status(
        Code::NotFound,
        "GOG login challenge not found or already completed".to_owned(),
    )
}

pub open spec fn challenge_expired_status() -> StatusView {
    status(Code::DeadlineExceeded, "GOG login challenge expired"@)
}

/// The challenge existed but was issued more than 5 minutes ago. The caller
/// needs to start over with a fresh `BeginLogin`.
pub fn login_challenge_expired() -> (result: Status)
    ensures
        result@ == challenge_expired_status(),
{
    new_status(Code::DeadlineExceeded, "GOG login challenge expired".to_owned())
}

pub open spec fn code_required_status() -> StatusView {
    status(Code::InvalidArgument, "GOG authorization code is required"@)
}

/// `CompleteLogin` was called with an empty `user_input`: GOG's flow needs the
/// `code` query parameter captured from the redirect back to `redirect_uri`.
pub fn authorization_code_required() -> (result: Status)
    ensures
        result@ == code_required_status(),
{
    new_status(Code::InvalidArgument, "GOG authorization code is required".to_owned())
}

pub open spec fn authorization_failed_status(err: Seq<char>) -> StatusView {
    status(Code::Unauthenticated, "GOG authorization failed: "@ + err)
}

/// GOG rejected the authorization code (expired, already used, or malformed).
/// The challenge is left in place so the caller can retry with a corrected code
/// rather than having to restart the whole login flow.
pub fn authorization_failed(err: &str) -> (result: Status)
    ensures
        result@ == authorization_failed_status(err@),
{
    new_status(Code::Unauthenticated, join2("GOG authorization failed: ", err))
}

pub open spec fn session_invalid_status(err: Seq<char>) -> StatusView {
    status(Code::Unauthenticated, "GOG session is no longer valid: "@ + err)
}

/// A previously stored session no longer authenticates against GOG (refresh
/// token revoked or expired).
pub fn session_invalid(err: &str) -> (result: Status)
    ensures
        result@ == session_invalid_status(err@),
{
    new_status(Code::Unauthenticated, join2("GOG session is no longer valid: ", err))
}

pub open spec fn credentials_status(err: Seq<char>) -> StatusView {
    status(Code::Internal, "GOG credentials error: "@ + err)
}

/// The credential store failed to load or save this profile's GOG credentials.
pub fn credentials(err: &str) -> (result: Status)
    ensures
        result@ == credentials_status(err@),
{
    new_status(Code::Internal, join2("GOG credentials error: ", err))
}

pub open spec fn json_status(err: Seq<char>) -> StatusView {
    status(Code::Internal, "GOG JSON error: "@ + err)
}

/// Stored credentials couldn't be serialized to or deserialized from JSON.
pub fn json(err: &str) -> (result: Status)
    ensures
        result@ == json_status(err@),
{
    new_status(Code::Internal, join2("GOG JSON error: ", err))
}

pub open spec fn api_status(err: Seq<char>) -> StatusView {
    status(Code::Unavailable, "GOG API error: "@ + err)
}

/// A GOG API call failed for a reason unrelated to authentication (rate
/// limiting, a transient network error, an unexpected response shape).
pub fn api(err: &str) -> (result: Status)
    ensures
        result@ == api_status(err@),
{
    new_status(Code::Unavailable, join2("GOG API error: ", err))
}

pub open spec fn worker_panicked_status(err: Seq<char>) -> StatusView {
    status(Code::Internal, "GOG worker task panicked: "@ + err)
}

/// The blocking task that talks to GOG did not finish.
pub fn worker_panicked(err: &str) -> (result: Status)
    ensures
        result@ == worker_panicked_status(err@),
{
    new_status(Code::Internal, join2("GOG worker task panicked: ", err))
}

pub open spec fn game_id_status() -> StatusView {
    status(Code::InvalidArgument, "game_id must be a GOG numeric product id"@)
}

/// The game id of an install request isn't a number.
pub fn game_id_not_numeric() -> (result: Status)
    ensures
        result@ == game_id_status(),
{
    new_status(Code::InvalidArgument, "game_id must be a GOG numeric product id".to_owned())
}

pub open spec fn builds_lookup_status(err: Seq<char>) -> StatusView {
    status(Code::Unavailable, "GOG builds lookup failed: "@ + err)
}

/// The list of builds couldn't be had.
pub fn builds_lookup_failed(err: &str) -> (result: Status)
    ensures
        result@ == builds_lookup_status(err@),
{
    new_status(Code::Unavailable, join2("GOG builds lookup failed: ", err))
}

pub open spec fn no_builds_status(game_id: i64) -> StatusView {
    status(
        Code::NotFound,
        "no builds available for GOG game "@ + text::int_text(game_id as int),
    )
}

/// The list of builds is empty.
pub fn no_builds(game_id: i64) -> (result: Status)
    ensures
        result@ == no_builds_status(game_id),
{
    let id = text::i64_text(game_id);
    new_status(Code::NotFound, join2("no builds available for GOG game ", id.as_str()))
}

pub open spec fn build_manifest_status(err: Seq<char>) -> StatusView {
    status(Code::Unavailable, "GOG build manifest fetch failed: "@ + err)
}

/// The build's manifest couldn't be had.
pub fn build_manifest_failed(err: &str) -> (result: Status)
    ensures
        result@ == build_manifest_status(err@),
{
    new_status(Code::Unavailable, join2("GOG build manifest fetch failed: ", err))
}

pub open spec fn no_depot_status(game_id: i64) -> StatusView {
    status(
        Code::FailedPrecondition,
        "no compatible depot for GOG game "@ + text::int_text(game_id as int),
    )
}

/// None of the build's depots fits Windows.
pub fn no_compatible_depot(game_id: i64) -> (result: Status)
    ensures
        result@ == no_depot_status(game_id),
{
    let id = text::i64_text(game_id);
    new_status(Code::FailedPrecondition, join2("no compatible depot for GOG game ", id.as_str()))
}

pub open spec fn depot_manifest_status(err: Seq<char>) -> StatusView {
    status(Code::Unavailable, "GOG depot manifest fetch failed: "@ + err)
}

/// The depot's manifest couldn't be had.
pub fn depot_manifest_failed(err: &str) -> (result: Status)
    ensures
        result@ == depot_manifest_status(err@),
{
    new_status(Code::Unavailable, join2("GOG depot manifest fetch failed: ", err))
}

pub open spec fn secure_link_status(err: Seq<char>) -> StatusView {
    status(Code::Unavailable, "GOG secure_link lookup failed: "@ + err)
}

/// The CDN endpoints couldn't be had.
pub fn secure_link_failed(err: &str) -> (result: Status)
    ensures
        result@ == secure_link_status(err@),
{
    new_status(Code::Unavailable, join2("GOG secure_link lookup failed: ", err))
}

/// A status is its code and its message.
pub proof fn law_status_is_code_and_message(code: Code, message: String, result: Status)
    requires
        call_ensures(new_status, (code, message), result),
    ensures
        result.code == code,
        result.message@ == message@,
        result@.code == result.code,
        result@.message == result.message@,
{
}

/// What is refused about a login, and with which code.
pub proof fn law_login_failures(
    err: &str,
    unknown: Status,
    expired: Status,
    no_code: Status,
    rejected: Status,
    stale: Status,
)
    requires
        call_ensures(login_challenge_not_found, (), unknown),
        call_ensures(login_challenge_expired, (), expired),
        call_ensures(authorization_code_required, (), no_code),
        call_ensures(authorization_failed, (err,), rejected),
        call_ensures(session_invalid, (err,), stale),
    ensures
        unknown.code == Code::NotFound,
        unknown.message@ == "GOG login challenge not found or already completed"@,
        expired.code == Code::DeadlineExceeded,
        expired.message@ == "GOG login challenge expired"@,
        no_code.code == Code::InvalidArgument,
        no_code.message@ == "GOG authorization code is required"@,
        rejected.code == Code::Unauthenticated,
        rejected.message@ == "GOG authorization failed: "@ + err@,
        stale.code == Code::Unauthenticated,
        stale.message@ == "GOG session is no longer valid: "@ + err@,
{
}

/// What fails around a session, and with which code: each message ends with what the
/// failing side said.
pub proof fn law_session_failures(err: &str, store: Status, text: Status, gog: Status, worker: Status)
    requires
        call_ensures(credentials, (err,), store),
        call_ensures(json, (err,), text),
        call_ensures(api, (err,), gog),
        call_ensures(worker_panicked, (err,), worker),
    ensures
        store.code == Code::Internal,
        store.message@ == "GOG credentials error: "@ + err@,
        text.code == Code::Internal,
        text.message@ == "GOG JSON error: "@ + err@,
        gog.code == Code::Unavailable,
        gog.message@ == "GOG API error: "@ + err@,
        worker.code == Code::Internal,
        worker.message@ == "GOG worker task panicked: "@ + err@,
{
}

/// What fails about an install request for want of something in the request or at GOG:
/// the messages name the game.
pub proof fn law_install_refusals(game_id: i64, not_a_number: Status, empty: Status, no_depot: Status)
    requires
        call_ensures(game_id_not_numeric, (), not_a_number),
        call_ensures(no_builds, (game_id,), empty),
        call_ensures(no_compatible_depot, (game_id,), no_depot),
    ensures
        not_a_number.code == Code::InvalidArgument,
        not_a_number.message@ == "game_id must be a GOG numeric product id"@,
        empty.code == Code::NotFound,
        empty.message@ == "no builds available for GOG game "@ + text::int_text(game_id as int),
        no_depot.code == Code::FailedPrecondition,
        no_depot.message@ == "no compatible depot for GOG game "@ + text::int_text(game_id as int),
{
}

/// What fails about an install request because GOG couldn't be asked: each message ends
/// with what the depot API's error says.
pub proof fn law_install_failures(
    err: &str,
    builds: Status,
    build: Status,
    depot: Status,
    links: Status,
)
    requires
        call_ensures(builds_lookup_failed, (err,), builds),
        call_ensures(build_manifest_failed, (err,), build),
        call_ensures(depot_manifest_failed, (err,), depot),
        call_ensures(secure_link_failed, (err,), links),
    ensures
        builds.code == Code::Unavailable,
        builds.message@ == "GOG builds lookup failed: "@ + err@,
        build.code == Code::Unavailable,
        build.message@ == "GOG build manifest fetch failed: "@ + err@,
        depot.code == Code::Unavailable,
        depot.message@ == "GOG depot manifest fetch failed: "@ + err@,
        links.code == Code::Unavailable,
        links.message@ == "GOG secure_link lookup failed: "@ + err@,
{
}

} // verus!
