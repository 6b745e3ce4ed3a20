//! The way from a request to an install manifest, step by step. Each step says
//! what is to be done next, and takes what came of it: the credentials are loaded,
//! the session is checked and saved, the builds are listed, the chosen build's and
//! the chosen depot's manifests are fetched, and the CDN endpoints asked for.

use vstd::prelude::*;
use vstd::string::*;

use crate::depot;
use crate::depot::{
    BuildMeta, BuildsResponse, DepotFile, DepotManifestRoot, SecureLinkEntry, SecureLinkResponse,
    builds_url, depot_manifest_url, get_build_meta, get_builds, get_depot_files, get_secure_link,
    manifest_json, secure_link_url, select_build, select_depot,
};
use crate::error;
use crate::error::Status;
use crate::manifest;
use crate::manifest::{InstallManifest, assemble_manifest};
use crate::session;
use crate::session::{Token, UserData, credentials_saved, stored_token, verify_session};
use crate::text;
use crate::text::parse_i64;

verus! {

/// A request for a game's install manifest.
#[derive(Debug)]
pub struct GetInstallManifestRequest {
    pub profile_id: String,
    pub game_id: String,
}

/// To do: load the profile's credentials.
#[derive(Debug)]
pub struct LoadStep {
    pub profile_id: String,
    pub game_id: i64,
}

/// `next` is what follows from a request: its game id is to be a number.
pub open spec fn after_request(
    request: GetInstallManifestRequest,
    next: Result<LoadStep, Status>,
) -> bool {
    match text::i64_value(request.game_id@) {
        Some(game_id) => next == Ok::<LoadStep, Status>(
            LoadStep { profile_id: request.profile_id, game_id },
        ),
        None => next matches Err(status) && status@ == error::game_id_status(),
    }
}

/// Accepts a request if its game id is a number.
pub fn get_install_manifest(request: GetInstallManifestRequest) -> (next: Result<LoadStep, Status>)
    ensures
        after_request(request, next),
{
    match parse_i64(request.game_id.as_str()) {
        Some(game_id) => Ok(LoadStep { profile_id: request.profile_id, game_id }),
        None => Err(error::game_id_not_numeric()),
    }
}

/// A game is asked for by the id under which it is listed.
pub proof fn law_listed_id_is_accepted(id: i64)
    ensures
        text::i64_value(text::int_text(id as int)) == Some(id),
{
    text::law_number_text_reads_back(id);
}

/// To do: check with GOG that the session of this token is good.
#[derive(Debug)]
pub struct SessionStep {
    pub profile_id: String,
    pub game_id: i64,
    pub token: Token,
}

impl LoadStep {
    /// `next` is what follows from the store's answer.
    pub open spec fn after_load(
        self,
        loaded: Result<Option<String>, String>,
        missing: Seq<char>,
        next: Result<SessionStep, Status>,
    ) -> bool {
        match next {
            Ok(step) => {
                &&& step.profile_id == self.profile_id
                &&& step.game_id == self.game_id
                &&& session::is_stored_token(loaded, missing, Ok(step.token))
            },
            Err(status) => session::is_stored_token(loaded, missing, Err(status)),
        }
    }

    /// The credential store answered. `missing` says, in its words, that it holds
    /// nothing for a profile.
    pub fn loaded(self, loaded: Result<Option<String>, String>, missing: &str) -> (next: Result<
        SessionStep,
        Status,
    >)
        ensures
            self.after_load(loaded, missing@, next),
    {
        match stored_token(loaded, missing) {
            Ok(token) => Ok(
                SessionStep { profile_id: self.profile_id, game_id: self.game_id, token },
            ),
            Err(status) => Err(status),
        }
    }
}

/// To do: save the credentials, for the token may have been refreshed.
#[derive(Debug)]
pub struct SaveStep {
    pub profile_id: String,
    pub game_id: i64,
    pub credentials: String,
    pub access_token: String,
}

impl SessionStep {
    /// `next` is what follows from GOG's answer.
    pub open spec fn after_check(
        self,
        worked: Result<(Result<UserData, String>, Token), String>,
        next: Result<SaveStep, Status>,
    ) -> bool {
        match worked {
            Err(err) => next matches Err(status) && status@ == error::worker_panicked_status(
                err@,
            ),
            Ok((Err(err), _)) => next matches Err(status) && status@
                == error::session_invalid_status(err@),
            Ok((Ok(_), token)) => {
                &&& next matches Ok(step)
                &&& step.profile_id == self.profile_id
                &&& step.game_id == self.game_id
                &&& step.credentials@ == session::token_written(token@)
                &&& session::is_read_as(step.credentials@, token@)
                &&& step.access_token == token.access_token
            },
        }
    }

    /// GOG answered. The depot API needs a fresh access token, which is that of the
    /// token after the check.
    pub fn checked(self, worked: Result<(Result<UserData, String>, Token), String>) -> (next: Result<
        SaveStep,
        Status,
    >)
        ensures
            self.after_check(worked, next),
    {
        match verify_session(worked) {
            Ok(verified) => Ok(
                SaveStep {
                    profile_id: self.profile_id,
                    game_id: self.game_id,
                    credentials: verified.credentials,
                    access_token: verified.token.access_token,
                },
            ),
            Err(status) => Err(status),
        }
    }
}

/// To do: get `url` as JSON, with the access token.
#[derive(Debug)]
pub struct BuildsStep {
    pub game_id: i64,
    pub access_token: String,
    pub url: String,
}

impl SaveStep {
    /// `next` is what follows from the store's answer.
    pub open spec fn after_save(
        self,
        saved: Result<(), String>,
        next: Result<BuildsStep, Status>,
    ) -> bool {
        match saved {
            Ok(_) => {
                &&& next matches Ok(step)
                &&& step.game_id == self.game_id
                &&& step.access_token == self.access_token
                &&& step.url@ == depot::builds_url_text(self.game_id)
            },
            Err(err) => next matches Err(status) && status@ == error::credentials_status(err@),
        }
    }

    /// The credential store answered.
    pub fn saved(self, saved: Result<(), String>) -> (next: Result<BuildsStep, Status>)
        ensures
            self.after_save(saved, next),
    {
        match credentials_saved(saved) {
            Ok(_) => Ok(
                BuildsStep {
                    game_id: self.game_id,
                    access_token: self.access_token,
                    url: builds_url(self.game_id),
                },
            ),
            Err(status) => Err(status),
        }
    }
}

/// To do: get `url` as bytes, with the access token. It is the manifest of the
/// build with this version.
#[derive(Debug)]
pub struct BuildStep {
    pub game_id: i64,
    pub access_token: String,
    pub version: String,
    pub url: String,
}

impl BuildsStep {
    /// `next` is what follows from GOG's answer.
    pub open spec fn after_fetch(
        self,
        fetched: Result<BuildsResponse, String>,
        next: Result<BuildStep, Status>,
    ) -> bool {
        match fetched {
            Err(err) => next matches Err(status) && status@ == error::builds_lookup_status(
                depot::Error::Http(err).text(),
            ),
            Ok(response) => if response.total_count == 0 {
                next matches Err(status) && status@ == error::builds_lookup_status(
                    depot::Error::NoBuilds.text(),
                )
            } else if response.items@.len() == 0 {
                next matches Err(status) && status@ == error::no_builds_status(self.game_id)
            } else {
                &&& next matches Ok(step)
                &&& step.game_id == self.game_id
                &&& step.access_token == self.access_token
                &&& exists|build: depot::Build| #[trigger]
                    depot::is_chosen_build(response.items@, build) && step.version
                        == build.build_id && step.url == build.link
            },
        }
    }

    /// GOG answered: a build is chosen out of the list.
    pub fn fetched(self, fetched: Result<BuildsResponse, String>) -> (next: Result<BuildStep, Status>)
        ensures
            self.after_fetch(fetched, next),
    {
        let builds = match get_builds(fetched) {
            Ok(builds) => builds,
            Err(err) => {
                return Err(error::builds_lookup_failed(err.message().as_str()));
            },
        };
        match select_build(builds.as_slice()) {
            Some(build) => Ok(
                BuildStep {
                    game_id: self.game_id,
                    access_token: self.access_token,
                    version: build.build_id.clone(),
                    url: build.link.clone(),
                },
            ),
            None => Err(error::no_builds(self.game_id)),
        }
    }
}

/// To do: parse `json` as what a build consists of.
#[derive(Debug)]
pub struct BuildJsonStep {
    pub game_id: i64,
    pub access_token: String,
    pub version: String,
    pub json: Vec<u8>,
}

impl BuildStep {
    /// The manifest of the build is decompressed, or is not to be had.
    pub fn unpacked(self, json: Result<Vec<u8>, depot::Error>) -> (next: Result<
        BuildJsonStep,
        Status,
    >)
        ensures
            match json {
                Ok(json) => next == Ok::<BuildJsonStep, Status>(
                    BuildJsonStep {
                        game_id: self.game_id,
                        access_token: self.access_token,
                        version: self.version,
                        json,
                    },
                ),
                Err(err) => next matches Err(status) && status@ == error::build_manifest_status(
                    err.text(),
                ),
            },
    {
        match json {
            Ok(json) => Ok(
                BuildJsonStep {
                    game_id: self.game_id,
                    access_token: self.access_token,
                    version: self.version,
                    json,
                },
            ),
            Err(err) => Err(error::build_manifest_failed(err.message().as_str())),
        }
    }

    /// `next` is what follows from GOG's answer.
    pub open spec fn after_fetch(
        self,
        fetched: Result<Vec<u8>, String>,
        next: Result<BuildJsonStep, Status>,
    ) -> bool {
        match fetched {
            Err(err) => next matches Err(status) && status@ == error::build_manifest_status(
                depot::Error::Http(err).text(),
            ),
            Ok(bytes) => match depot::zlib_content(bytes@) {
                Ok(content) => {
                    &&& next matches Ok(step)
                    &&& step.game_id == self.game_id
                    &&& step.access_token == self.access_token
                    &&& step.version == self.version
                    &&& step.json@ == content
                },
                Err(text) => next matches Err(status) && status@
                    == error::build_manifest_status(
                    "failed to decompress response: "@ + text,
                ),
            },
        }
    }

    /// GOG answered.
    pub fn fetched(self, fetched: Result<Vec<u8>, String>) -> (next: Result<BuildJsonStep, Status>)
        ensures
            self.after_fetch(fetched, next),
    {
        let json = manifest_json(fetched);
        self.unpacked(json)
    }
}

/// To do: get the depot's manifest at `url()` as bytes.
#[derive(Debug)]
pub struct DepotStep {
    pub game_id: i64,
    pub access_token: String,
    pub version: String,
    pub install_directory: String,
    pub manifest: String,
}

impl BuildJsonStep {
    /// `next` is what follows from the outcome of parsing.
    pub open spec fn after_parse(
        self,
        parsed: Result<BuildMeta, String>,
        next: Result<DepotStep, Status>,
    ) -> bool {
        match parsed {
            Err(err) => next matches Err(status) && status@ == error::build_manifest_status(
                depot::Error::Parse(err).text(),
            ),
            Ok(meta) => match next {
                Ok(step) => {
                    &&& step.game_id == self.game_id
                    &&& step.access_token == self.access_token
                    &&& step.version == self.version
                    &&& step.install_directory == meta.install_directory
                    &&& exists|chosen: depot::DepotMeta| #[trigger]
                        depot::is_chosen_depot(meta.depots@, chosen) && step.manifest
                            == chosen.manifest
                },
                Err(status) => {
                    &&& status@ == error::no_depot_status(self.game_id)
                    &&& depot::none_fits(meta.depots@)
                },
            },
        }
    }

    /// The JSON was parsed: the first depot that fits Windows is chosen.
    pub fn parsed(self, parsed: Result<BuildMeta, String>) -> (next: Result<DepotStep, Status>)
        ensures
            self.after_parse(parsed, next),
    {
        let meta = match get_build_meta(parsed) {
            Ok(meta) => meta,
            Err(err) => {
                return Err(error::build_manifest_failed(err.message().as_str()));
            },
        };
        let manifest = match select_depot(&meta) {
            Some(chosen) => chosen.manifest.clone(),
            None => {
                return Err(error::no_compatible_depot(self.game_id));
            },
        };
        Ok(
            DepotStep {
                game_id: self.game_id,
                access_token: self.access_token,
                version: self.version,
                install_directory: meta.install_directory,
                manifest,
            },
        )
    }
}

/// To do: parse `json` as a depot's manifest.
#[derive(Debug)]
pub struct DepotJsonStep {
    pub game_id: i64,
    pub access_token: String,
    pub version: String,
    pub install_directory: String,
    pub json: Vec<u8>,
}

impl DepotStep {
    /// Where the depot's manifest is. It is public content: no access token is
    /// needed.
    pub fn url(&self) -> (url: String)
        requires
            depot::can_shard(self.manifest@),
        ensures
            url@ == depot::depot_manifest_url_text(self.manifest@),
    {
        depot_manifest_url(self.manifest.as_str())
    }

    /// The manifest of the depot is decompressed, or is not to be had.
    pub fn unpacked(self, json: Result<Vec<u8>, depot::Error>) -> (next: Result<
        DepotJsonStep,
        Status,
    >)
        ensures
            match json {
                Ok(json) => next == Ok::<DepotJsonStep, Status>(
                    DepotJsonStep {
                        game_id: self.game_id,
                        access_token: self.access_token,
                        version: self.version,
                        install_directory: self.install_directory,
                        json,
                    },
                ),
                Err(err) => next matches Err(status) && status@ == error::depot_manifest_status(
                    err.text(),
                ),
            },
    {
        match json {
            Ok(json) => Ok(
                DepotJsonStep {
                    game_id: self.game_id,
                    access_token: self.access_token,
                    version: self.version,
                    install_directory: self.install_directory,
                    json,
                },
            ),
            Err(err) => Err(error::depot_manifest_failed(err.message().as_str())),
        }
    }

    /// `next` is what follows from the CDN's answer.
    pub open spec fn after_fetch(
        self,
        fetched: Result<Vec<u8>, String>,
        next: Result<DepotJsonStep, Status>,
    ) -> bool {
        match fetched {
            Err(err) => next matches Err(status) && status@ == error::depot_manifest_status(
                depot::Error::Http(err).text(),
            ),
            Ok(bytes) => match depot::zlib_content(bytes@) {
                Ok(content) => {
                    &&& next matches Ok(step)
                    &&& step.game_id == self.game_id
                    &&& step.access_token == self.access_token
                    &&& step.version == self.version
                    &&& step.install_directory == self.install_directory
                    &&& step.json@ == content
                },
                Err(text) => next matches Err(status) && status@
                    == error::depot_manifest_status(
                    "failed to decompress response: "@ + text,
                ),
            },
        }
    }

    /// The CDN answered.
    pub fn fetched(self, fetched: Result<Vec<u8>, String>) -> (next: Result<DepotJsonStep, Status>)
        ensures
            self.after_fetch(fetched, next),
    {
        let json = manifest_json(fetched);
        self.unpacked(json)
    }
}

/// To do: get `url` as JSON, with the access token.
#[derive(Debug)]
pub struct LinkStep {
    pub access_token: String,
    pub version: String,
    pub install_directory: String,
    pub files: Vec<DepotFile>,
    pub url: String,
}

impl DepotJsonStep {
    /// `next` is what follows from the outcome of parsing.
    pub open spec fn after_parse(
        self,
        parsed: Result<DepotManifestRoot, String>,
        next: Result<LinkStep, Status>,
    ) -> bool {
        match parsed {
            Err(err) => next matches Err(status) && status@ == error::depot_manifest_status(
                depot::Error::Parse(err).text(),
            ),
            Ok(root) => {
                &&& next matches Ok(step)
                &&& step.access_token == self.access_token
                &&& step.version == self.version
                &&& step.install_directory == self.install_directory
                &&& step.files@ == depot::files_among(root.depot.items@)
                &&& step.url@ == depot::secure_link_url_text(self.game_id, "/"@)
            },
        }
    }

    /// The JSON was parsed: its files are to be installed.
    pub fn parsed(self, parsed: Result<DepotManifestRoot, String>) -> (next: Result<
        LinkStep,
        Status,
    >)
        ensures
            self.after_parse(parsed, next),
    {
        match get_depot_files(parsed) {
            Ok(files) => Ok(
                LinkStep {
                    access_token: self.access_token,
                    version: self.version,
                    install_directory: self.install_directory,
                    files,
                    url: secure_link_url(self.game_id, "/"),
                },
            ),
            Err(err) => Err(error::depot_manifest_failed(err.message().as_str())),
        }
    }
}

/// Everything is there: to do is the manifest.
#[derive(Debug)]
pub struct AssembleStep {
    pub version: String,
    pub install_directory: String,
    pub files: Vec<DepotFile>,
    pub links: Vec<SecureLinkEntry>,
}

impl LinkStep {
    /// `next` is what follows from GOG's answer.
    pub open spec fn after_fetch(
        self,
        fetched: Result<SecureLinkResponse, String>,
        next: Result<AssembleStep, Status>,
    ) -> bool {
        match fetched {
            Err(err) => next matches Err(status) && status@ == error::secure_link_status(
                depot::Error::Http(err).text(),
            ),
            Ok(response) => next == Ok::<AssembleStep, Status>(
                AssembleStep {
                    version: self.version,
                    install_directory: self.install_directory,
                    files: self.files,
                    links: response.urls,
                },
            ),
        }
    }

    /// GOG answered with the CDN endpoints.
    pub fn fetched(self, fetched: Result<SecureLinkResponse, String>) -> (next: Result<
        AssembleStep,
        Status,
    >)
        ensures
            self.after_fetch(fetched, next),
    {
        match get_secure_link(fetched) {
            Ok(links) => Ok(
                AssembleStep {
                    version: self.version,
                    install_directory: self.install_directory,
                    files: self.files,
                    links,
                },
            ),
            Err(err) => Err(error::secure_link_failed(err.message().as_str())),
        }
    }
}

impl AssembleStep {
    /// The answer to the request.
    pub fn manifest(self) -> (manifest: InstallManifest)
        requires
            manifest::installable(self.files@, self.links.deep_view()),
        ensures
            manifest.deep_view() == manifest::manifest_from(
                self.version@,
                self.install_directory@,
                self.files@,
                self.links.deep_view(),
            ),
    {
        assemble_manifest(self.version, self.install_directory, &self.files, &self.links)
    }
}

/// Where nothing fails on the way, the manifest is made of the files of the chosen
/// depot of the chosen build, and of the endpoints that GOG names. Every request to
/// GOG carries the access token as it was after the check of the session, and that
/// token has been saved for the profile.
pub proof fn law_way_to_a_manifest(
    request: GetInstallManifestRequest,
    load: LoadStep,
    loaded: Result<Option<String>, String>,
    missing: Seq<char>,
    session_step: SessionStep,
    user: UserData,
    token: Token,
    save: SaveStep,
    builds: BuildsStep,
    response: BuildsResponse,
    build: BuildStep,
    build_bytes: Vec<u8>,
    build_json: BuildJsonStep,
    meta: BuildMeta,
    depot_step: DepotStep,
    depot_bytes: Vec<u8>,
    depot_json: DepotJsonStep,
    root: DepotManifestRoot,
    link: LinkStep,
    endpoints: SecureLinkResponse,
    last: AssembleStep,
)
    requires
        after_request(request, Ok(load)),
        load.after_load(loaded, missing, Ok(session_step)),
        session_step.after_check(Ok((Ok(user), token)), Ok(save)),
        save.after_save(Ok(()), Ok(builds)),
        builds.after_fetch(Ok(response), Ok(build)),
        build.after_fetch(Ok(build_bytes), Ok(build_json)),
        build_json.after_parse(Ok(meta), Ok(depot_step)),
        depot_step.after_fetch(Ok(depot_bytes), Ok(depot_json)),
        depot_json.after_parse(Ok(root), Ok(link)),
        link.after_fetch(Ok(endpoints), Ok(last)),
    ensures
        text::i64_value(request.game_id@) == Some(builds.game_id),
        session::is_stored_token(loaded, missing, Ok(session_step.token)),
        load.profile_id == request.profile_id,
        save.profile_id == request.profile_id,
        save.credentials@ == session::token_written(token@),
        builds.access_token == token.access_token,
        build.access_token == token.access_token,
        link.access_token == token.access_token,
        builds.url@ == depot::builds_url_text(builds.game_id),
        exists|chosen: depot::Build| #[trigger]
            depot::is_chosen_build(response.items@, chosen) && build.url == chosen.link
                && last.version == chosen.build_id,
        depot::zlib_content(build_bytes@) == Ok::<Seq<u8>, Seq<char>>(build_json.json@),
        exists|chosen: depot::DepotMeta| #[trigger]
            depot::is_chosen_depot(meta.depots@, chosen) && depot_step.manifest == chosen.manifest,
        depot::zlib_content(depot_bytes@) == Ok::<Seq<u8>, Seq<char>>(depot_json.json@),
        link.url@ == depot::secure_link_url_text(builds.game_id, "/"@),
        last.install_directory == meta.install_directory,
        last.files@ == depot::files_among(root.depot.items@),
        last.links == endpoints.urls,
{
}

/// A request is accepted exactly if its game id is a number, and then goes on with that
/// number and its profile.
pub proof fn law_requests_are_accepted(
    request: GetInstallManifestRequest,
    next: Result<LoadStep, Status>,
)
    requires
        call_ensures(get_install_manifest, (request,), next),
    ensures
        next is Ok <==> text::i64_value(request.game_id@) is Some,
        next matches Ok(step) ==> step.profile_id@ == request.profile_id@ && text::i64_value(
            request.game_id@,
        ) == Some(step.game_id),
        next matches Err(status) ==> status.code == error::Code::InvalidArgument && status.message@
            == "game_id must be a GOG numeric product id"@,
{
}

/// The credentials of the profile give the token whose session is checked.
pub proof fn law_loading_gives_the_token(
    step: LoadStep,
    loaded: Result<Option<String>, String>,
    missing: &str,
    next: Result<SessionStep, Status>,
)
    requires
        call_ensures(LoadStep::loaded, (step, loaded, missing), next),
    ensures
        next is Ok ==> loaded matches Ok(Some(_)),
        loaded matches Ok(Some(json)) ==> (next is Ok <==> session::token_read(json@) is Ok),
        next matches Ok(check) ==> check.profile_id@ == step.profile_id@ && check.game_id
            == step.game_id && session::has_content(
            check.token,
            session::token_read(loaded->Ok_0->0@)->Ok_0,
        ),
        next matches Err(status) ==> status.code == error::Code::Internal,
        loaded matches Ok(Some(json)) ==> (next matches Err(status) ==> status.message@
            == "GOG JSON error: "@ + session::token_read(json@)->Err_0),
        loaded matches Ok(None) ==> (next matches Err(status) && status.message@
            == "GOG credentials error: "@ + missing@),
        loaded matches Err(err) ==> (next matches Err(status) && status.message@
            == "GOG credentials error: "@ + err@),
{
    let token = match next {
        Ok(check) => Ok(check.token),
        Err(status) => Err(status),
    };
    session::law_stored_tokens(loaded, missing, token);
}

/// A session that is good goes on with the token as it was after the check: that one is
/// saved, for the same profile, and its access token is used.
pub proof fn law_checked_session_goes_on(
    step: SessionStep,
    worked: Result<(Result<UserData, String>, Token), String>,
    next: Result<SaveStep, Status>,
)
    requires
        call_ensures(SessionStep::checked, (step, worked), next),
    ensures
        next is Ok <==> worked matches Ok((Ok(_), _)),
        worked matches Ok((Ok(_), token)) ==> (next matches Ok(save) && save.profile_id@
            == step.profile_id@ && save.game_id == step.game_id && save.access_token@
            == token.access_token@ && session::token_read(save.credentials@) == Ok::<
            session::TokenView,
            Seq<char>,
        >(token@)),
        worked matches Ok((Err(err), _)) ==> (next matches Err(status) && status.code
            == error::Code::Unauthenticated && status.message@
            == "GOG session is no longer valid: "@ + err@),
        worked matches Err(err) ==> (next matches Err(status) && status.code
            == error::Code::Internal && status.message@ == "GOG worker task panicked: "@ + err@),
{
}

/// Once the credentials are saved, the Windows builds of the game are asked for.
pub proof fn law_saved_session_goes_on(
    step: SaveStep,
    saved: Result<(), String>,
    next: Result<BuildsStep, Status>,
)
    requires
        call_ensures(SaveStep::saved, (step, saved), next),
    ensures
        next is Ok <==> saved is Ok,
        next matches Ok(builds) ==> builds.game_id == step.game_id && builds.access_token@
            == step.access_token@ && builds.url@ == "https://content-system.gog.com"@
            + "/products/"@ + text::int_text(step.game_id as int)
            + "/os/windows/builds?generation=2"@,
        next matches Err(status) ==> status.code == error::Code::Internal && status.message@
            == "GOG credentials error: "@ + saved->Err_0@,
{
}

/// The `i`th build is the first without a branch, or, if all have one, the first.
pub open spec fn is_best_build(builds: Seq<depot::Build>, i: int) -> bool {
    &&& 0 <= i < builds.len()
    &&& forall|j: int| 0 <= j < i ==> (#[trigger] builds[j]).branch is Some
    &&& builds[i].branch is Some ==> i == 0 && forall|j: int|
        0 <= j < builds.len() ==> (#[trigger] builds[j]).branch is Some
}

/// A build of the list is chosen, if GOG says that there are builds and names one: the
/// first of the main line, or else the first. Its id is the version, and its link is
/// asked for.
pub proof fn law_build_is_chosen(
    step: BuildsStep,
    fetched: Result<BuildsResponse, String>,
    next: Result<BuildStep, Status>,
)
    requires
        call_ensures(BuildsStep::fetched, (step, fetched), next),
    ensures
        next is Ok <==> fetched is Ok && fetched->Ok_0.total_count != 0
            && fetched->Ok_0.items@.len() > 0,
        next matches Ok(build) ==> build.game_id == step.game_id && build.access_token@
            == step.access_token@ && exists|i: int| #[trigger]
            is_best_build(fetched->Ok_0.items@, i) && build.version@
                == fetched->Ok_0.items@[i].build_id@ && build.url@ == fetched->Ok_0.items@[i].link@,
        fetched matches Err(err) ==> (next matches Err(status) && status.code
            == error::Code::Unavailable && status.message@ == "GOG builds lookup failed: "@ + (
        "HTTP request failed: "@ + err@)),
        fetched matches Ok(response) ==> (response.total_count == 0 ==> (next matches Err(status)
            && status.code == error::Code::Unavailable && status.message@
            == "GOG builds lookup failed: "@ + "no builds available for this product"@)),
        fetched matches Ok(response) ==> (response.total_count != 0 && response.items@.len() == 0
            ==> (next matches Err(status) && status.code == error::Code::NotFound && status.message@
            == "no builds available for GOG game "@ + text::int_text(step.game_id as int))),
{
    if let Ok(build) = next {
        let items = fetched->Ok_0.items@;
        let chosen = choose|chosen: depot::Build| #[trigger]
            depot::is_chosen_build(items, chosen) && build.version == chosen.build_id && build.url
                == chosen.link;
        if chosen.branch is None {
            let i = choose|i: int|
                {
                    &&& 0 <= i < items.len()
                    &&& chosen == #[trigger] items[i]
                    &&& depot::is_mainline(items[i])
                    &&& forall|j: int| 0 <= j < i ==> !depot::is_mainline(#[trigger] items[j])
                };
            assert forall|j: int| 0 <= j < i implies (#[trigger] items[j]).branch is Some by {
                assert(!depot::is_mainline(items[j]));
            }
            assert(is_best_build(items, i));
        } else {
            assert forall|j: int| 0 <= j < items.len() implies (#[trigger] items[j]).branch is Some by {
                assert(!depot::is_mainline(items[j]));
            }
            assert(is_best_build(items, 0));
        }
    }
}

/// The manifest of the build is what the fetched bytes decompress to.
pub proof fn law_build_manifest_is_unpacked(
    step: BuildStep,
    fetched: Result<Vec<u8>, String>,
    next: Result<BuildJsonStep, Status>,
)
    requires
        call_ensures(BuildStep::fetched, (step, fetched), next),
    ensures
        fetched matches Ok(bytes) ==> (next is Ok <==> depot::zlib_content(bytes@) is Ok),
        next matches Ok(json) ==> json.game_id == step.game_id && json.access_token@
            == step.access_token@ && json.version@ == step.version@ && fetched is Ok
            && depot::zlib_content(fetched->Ok_0@) == Ok::<Seq<u8>, Seq<char>>(json.json@),
        next matches Err(status) ==> status.code == error::Code::Unavailable,
        fetched matches Err(err) ==> (next matches Err(status) && status.message@
            == "GOG build manifest fetch failed: "@ + ("HTTP request failed: "@ + err@)),
        fetched matches Ok(bytes) ==> (next matches Err(status) ==> status.message@
            == "GOG build manifest fetch failed: "@ + ("failed to decompress response: "@
            + depot::zlib_content(bytes@)->Err_0)),
{
}

/// The `i`th depot is the first that isn't for something else than Windows.
pub open spec fn is_best_depot(depots: Seq<depot::DepotMeta>, i: int) -> bool {
    &&& 0 <= i < depots.len()
    &&& !depot::names_no_pc_bitness(depots[i])
    &&& forall|j: int| 0 <= j < i ==> depot::names_no_pc_bitness(#[trigger] depots[j])
}

/// The first depot that isn't for something else than Windows is chosen, if there is one,
/// and the install directory is that of the build.
pub proof fn law_depot_is_chosen(
    step: BuildJsonStep,
    parsed: Result<BuildMeta, String>,
    next: Result<DepotStep, Status>,
)
    requires
        call_ensures(BuildJsonStep::parsed, (step, parsed), next),
    ensures
        next is Ok <==> parsed is Ok && exists|i: int|
            0 <= i < parsed->Ok_0.depots@.len() && !depot::names_no_pc_bitness(
                #[trigger] parsed->Ok_0.depots@[i],
            ),
        next matches Ok(found) ==> found.game_id == step.game_id && found.access_token@
            == step.access_token@ && found.version@ == step.version@ && found.install_directory@
            == parsed->Ok_0.install_directory@ && exists|i: int| #[trigger]
            is_best_depot(parsed->Ok_0.depots@, i) && found.manifest@
                == parsed->Ok_0.depots@[i].manifest@,
        parsed matches Err(err) ==> (next matches Err(status) && status.code
            == error::Code::Unavailable && status.message@ == "GOG build manifest fetch failed: "@
            + ("failed to parse response: "@ + err@)),
        parsed is Ok ==> (next matches Err(status) ==> status.code
            == error::Code::FailedPrecondition && status.message@
            == "no compatible depot for GOG game "@ + text::int_text(step.game_id as int)),
{
    if let Ok(meta) = parsed {
        let depots = meta.depots@;
        assert forall|j: int| 0 <= j < depots.len() implies (depot::names_no_pc_bitness(
            #[trigger] depots[j],
        ) <==> !depots[j].fits_windows()) by {
            depot::lemma_names_no_pc_bitness(depots[j]);
        }
        if let Ok(found) = next {
            let chosen = choose|chosen: depot::DepotMeta| #[trigger]
                depot::is_chosen_depot(depots, chosen) && found.manifest == chosen.manifest;
            let i = choose|i: int|
                {
                    &&& 0 <= i < depots.len()
                    &&& chosen == #[trigger] depots[i]
                    &&& depots[i].fits_windows()
                    &&& forall|j: int| 0 <= j < i ==> !(#[trigger] depots[j]).fits_windows()
                };
            assert(is_best_depot(depots, i));
        }
    }
}

/// Where the manifest of the chosen depot is.
pub proof fn law_depot_manifest_is_on_the_cdn(step: DepotStep, url: String)
    requires
        depot::can_shard(step.manifest@),
        call_ensures(DepotStep::url, (&step,), url),
    ensures
        url@ == "https://gog-cdn-fastly.gog.com"@ + "/content-system/v2/meta/"@
            + depot::galaxy_text(step.manifest@),
{
}

/// The manifest of the depot is what the fetched bytes decompress to.
pub proof fn law_depot_manifest_is_unpacked(
    step: DepotStep,
    fetched: Result<Vec<u8>, String>,
    next: Result<DepotJsonStep, Status>,
)
    requires
        call_ensures(DepotStep::fetched, (step, fetched), next),
    ensures
        fetched matches Ok(bytes) ==> (next is Ok <==> depot::zlib_content(bytes@) is Ok),
        next matches Ok(json) ==> json.game_id == step.game_id && json.access_token@
            == step.access_token@ && json.version@ == step.version@ && json.install_directory@
            == step.install_directory@ && fetched is Ok && depot::zlib_content(fetched->Ok_0@)
            == Ok::<Seq<u8>, Seq<char>>(json.json@),
        next matches Err(status) ==> status.code == error::Code::Unavailable,
        fetched matches Err(err) ==> (next matches Err(status) && status.message@
            == "GOG depot manifest fetch failed: "@ + ("HTTP request failed: "@ + err@)),
        fetched matches Ok(bytes) ==> (next matches Err(status) ==> status.message@
            == "GOG depot manifest fetch failed: "@ + ("failed to decompress response: "@
            + depot::zlib_content(bytes@)->Err_0)),
{
}

/// The like for manifests whose decompression is given.
pub proof fn law_unpacked_manifests_go_on(
    build: BuildStep,
    build_json: Result<Vec<u8>, depot::Error>,
    build_next: Result<BuildJsonStep, Status>,
    depot_step: DepotStep,
    depot_json: Result<Vec<u8>, depot::Error>,
    depot_next: Result<DepotJsonStep, Status>,
)
    requires
        call_ensures(BuildStep::unpacked, (build, build_json), build_next),
        call_ensures(DepotStep::unpacked, (depot_step, depot_json), depot_next),
    ensures
        build_next is Ok <==> build_json is Ok,
        build_next matches Ok(next) ==> next.game_id == build.game_id && next.access_token
            == build.access_token && next.version == build.version && next.json
            == build_json->Ok_0,
        build_next matches Err(status) ==> status.code == error::Code::Unavailable,
        build_json matches Err(depot::Error::Decompress(err)) ==> build_next->Err_0.message@
            == "GOG build manifest fetch failed: "@ + ("failed to decompress response: "@ + err@),
        depot_next is Ok <==> depot_json is Ok,
        depot_next matches Ok(next) ==> next.game_id == depot_step.game_id && next.access_token
            == depot_step.access_token && next.version == depot_step.version
            && next.install_directory == depot_step.install_directory && next.json
            == depot_json->Ok_0,
        depot_next matches Err(status) ==> status.code == error::Code::Unavailable,
        depot_json matches Err(depot::Error::Decompress(err)) ==> depot_next->Err_0.message@
            == "GOG depot manifest fetch failed: "@ + ("failed to decompress response: "@ + err@),
{
}

/// All files of the depot go on, and the endpoints for the whole content of the game are
/// asked for.
pub proof fn law_depot_files_go_on(
    step: DepotJsonStep,
    parsed: Result<DepotManifestRoot, String>,
    next: Result<LinkStep, Status>,
)
    requires
        call_ensures(DepotJsonStep::parsed, (step, parsed), next),
    ensures
        next is Ok <==> parsed is Ok,
        next matches Ok(link) ==> link.access_token@ == step.access_token@ && link.version@
            == step.version@ && link.install_directory@ == step.install_directory@ && link.files@
            == depot::files_among(parsed->Ok_0.depot.items@) && link.url@
            == "https://content-system.gog.com"@ + "/products/"@ + text::int_text(
            step.game_id as int,
        ) + "/secure_link?_version=2&generation=2&path="@ + "/"@,
        next matches Err(status) ==> status.code == error::Code::Unavailable && status.message@
            == "GOG depot manifest fetch failed: "@ + ("failed to parse response: "@
            + parsed->Err_0@),
{
}

/// All endpoints go on, with everything that was found before.
pub proof fn law_endpoints_go_on(
    step: LinkStep,
    fetched: Result<SecureLinkResponse, String>,
    next: Result<AssembleStep, Status>,
)
    requires
        call_ensures(LinkStep::fetched, (step, fetched), next),
    ensures
        next is Ok <==> fetched is Ok,
        next matches Ok(last) ==> last.version == step.version && last.install_directory
            == step.install_directory && last.files == step.files && last.links
            == fetched->Ok_0.urls,
        next matches Err(status) ==> status.code == error::Code::Unavailable && status.message@
            == "GOG secure_link lookup failed: "@ + ("HTTP request failed: "@ + fetched->Err_0@),
{
}

/// The manifest is that of the version, the directory, the files and the endpoints of the
/// last step: it is what `assemble_manifest` makes of them.
pub proof fn law_last_step_is_assembled(
    step: AssembleStep,
    manifest: InstallManifest,
    same: InstallManifest,
)
    requires
        manifest::installable(step.files@, step.links.deep_view()),
        call_ensures(AssembleStep::manifest, (step,), manifest),
        call_ensures(
            assemble_manifest,
            (step.version, step.install_directory, &step.files, &step.links),
            same,
        ),
    ensures
        manifest.deep_view() == same.deep_view(),
        manifest.version@ == step.version@,
        manifest.install_directory@ == step.install_directory@,
        manifest.files@.len() == step.files@.len(),
{
    assert(manifest.deep_view().files.len() == manifest.files@.len());
}

} // verus!
