use std::io::Write;

use next_plugin_gog::depot::{
    Build, BuildMeta, BuildsResponse, DepotChunk, DepotFile, DepotItem, DepotManifestBody,
    DepotManifestRoot, DepotMeta, ParamValue, Parameters, SecureLinkEntry, SecureLinkResponse,
};
use next_plugin_gog::error::Code;
use next_plugin_gog::install::{
    get_install_manifest, BuildJsonStep, BuildStep, BuildsStep, DepotJsonStep, DepotStep,
    GetInstallManifestRequest, LinkStep, LoadStep, SaveStep, SessionStep,
};
use next_plugin_gog::manifest::{assemble_manifest, can_install};
use next_plugin_gog::session::{Token, UserData};

fn token(access: &str) -> Token {
    Token {
        expires_in: 1,
        scope: String::new(),
        token_type: String::new(),
        access_token: access.to_string(),
        user_id: String::new(),
        refresh_token: String::new(),
        session_id: String::new(),
        updated_at: 2,
    }
}

fn user() -> UserData {
    UserData { username: "u".to_string(), user_id: "1".to_string() }
}

fn packed(text: &[u8]) -> Vec<u8> {
    let mut encoder = flate2::write::ZlibEncoder::new(Vec::new(), flate2::Compression::best());
    encoder.write_all(text).unwrap();
    encoder.finish().unwrap()
}

fn chunk(hash: &str, size: u64) -> DepotChunk {
    DepotChunk { md5: format!("plain-{hash}"), compressed_md5: hash.to_string(), size }
}

fn file(path: &str, chunks: Vec<DepotChunk>) -> DepotFile {
    DepotFile { path: path.to_string(), chunks }
}

fn endpoint(template: Option<&str>, base: &str) -> SecureLinkEntry {
    let mut parameters = Parameters::new();
    parameters.insert("path".to_string(), ParamValue::string(base.to_string()));
    SecureLinkEntry { url: None, url_format: template.map(|t| t.to_string()), parameters }
}

fn request(game_id: &str) -> GetInstallManifestRequest {
    GetInstallManifestRequest { profile_id: "p".to_string(), game_id: game_id.to_string() }
}

fn load() -> LoadStep {
    get_install_manifest(request("42")).unwrap()
}

fn session() -> SessionStep {
    let json = "{\"expires_in\":1,\"scope\":\"\",\"token_type\":\"\",\"access_token\":\"old\",\"user_id\":\"\",\"refresh_token\":\"\",\"session_id\":\"\",\"updated_at\":2}";
    load().loaded(Ok(Some(json.to_string())), "none").unwrap()
}

fn save() -> SaveStep {
    session().checked(Ok((Ok(user()), token("new")))).unwrap()
}

fn builds() -> BuildsStep {
    save().saved(Ok(())).unwrap()
}

fn response(total_count: u64, items: Vec<Build>) -> BuildsResponse {
    BuildsResponse { total_count, items }
}

fn build_step() -> BuildStep {
    let items = vec![
        Build { build_id: "b1".to_string(), branch: Some("beta".to_string()), link: "l1".to_string() },
        Build { build_id: "b2".to_string(), branch: None, link: "l2".to_string() },
    ];
    builds().fetched(Ok(response(2, items))).unwrap()
}

fn build_json() -> BuildJsonStep {
    build_step().fetched(Ok(packed(b"{}"))).unwrap()
}

fn depot_step() -> DepotStep {
    let meta = BuildMeta {
        install_directory: "Dir".to_string(),
        depots: vec![
            DepotMeta { os_bitness: Some(vec![]), manifest: "aaaa1".to_string() },
            DepotMeta { os_bitness: None, manifest: "bbcc2".to_string() },
        ],
    };
    build_json().parsed(Ok(meta)).unwrap()
}

fn depot_json() -> DepotJsonStep {
    depot_step().fetched(Ok(packed(b"[1]"))).unwrap()
}

fn link_step() -> LinkStep {
    let root = DepotManifestRoot {
        depot: DepotManifestBody {
            items: vec![
                DepotItem::Other,
                DepotItem::DepotFile(file("a.exe", vec![chunk("abcdef", 5), chunk("ab1234", 7)])),
                DepotItem::DepotFile(file("empty", vec![])),
            ],
        },
    };
    depot_json().parsed(Ok(root)).unwrap()
}

#[test]
fn the_whole_way() {
    assert_eq!(session().token.access_token, "old");
    let saving = save();
    assert_eq!(saving.access_token, "new");
    assert!(saving.credentials.contains("\"access_token\":\"new\""));
    assert_eq!(
        builds().url,
        "https://content-system.gog.com/products/42/os/windows/builds?generation=2"
    );
    assert_eq!(build_step().url, "l2");
    assert_eq!(build_json().json, b"{}");
    assert_eq!(
        depot_step().url(),
        "https://gog-cdn-fastly.gog.com/content-system/v2/meta/bb/cc/bbcc2"
    );
    assert_eq!(depot_json().json, b"[1]");
    let asking = link_step();
    assert_eq!(asking.access_token, "new");
    assert_eq!(
        asking.url,
        "https://content-system.gog.com/products/42/secure_link?_version=2&generation=2&path=/"
    );
    let urls = vec![endpoint(None, "/x"), endpoint(Some("https://c{path}"), "/s"), endpoint(Some("no"), "")];
    let last = asking.fetched(Ok(SecureLinkResponse { urls })).unwrap();
    assert!(can_install(&last.files, &last.links));
    let manifest = last.manifest();
    assert_eq!(manifest.version, "b2");
    assert_eq!(manifest.install_directory, "Dir");
    assert_eq!(manifest.install_size_bytes, Some(12));
    assert_eq!(manifest.primary_executable, None);
    assert!(manifest.prerequisite.is_none());
    assert_eq!(manifest.files.len(), 2);
    let first = &manifest.files[0];
    assert_eq!(first.relative_path, "a.exe");
    assert_eq!(first.size_bytes, Some(12));
    assert_eq!(first.chunks.len(), 2);
    assert_eq!(first.chunks[0].download_url, "https://c/s/ab/cd/abcdef");
    assert_eq!(first.chunks[1].download_url, "https://c/s/ab/12/ab1234");
    assert_eq!(first.chunks[1].size_bytes, Some(7));
    assert_eq!(first.chunks[1].md5.as_deref(), Some("plain-ab1234"));
    assert!(first.chunks[0].compressed);
    assert_eq!(manifest.files[1].size_bytes, Some(0));
    assert!(manifest.files[1].chunks.is_empty());
}

#[test]
fn game_id_must_be_a_number() {
    let status = get_install_manifest(request("portal")).unwrap_err();
    assert_eq!(status.code, Code::InvalidArgument);
    assert_eq!(status.message, "game_id must be a GOG numeric product id");
    assert_eq!(load().game_id, 42);
    assert_eq!(load().profile_id, "p");
}

#[test]
fn session_failures_end_the_way() {
    let status = load().loaded(Ok(None), "none").unwrap_err();
    assert_eq!(status.message, "GOG credentials error: none");
    let status = session().checked(Ok((Err("401".to_string()), token("t")))).unwrap_err();
    assert_eq!(status.message, "GOG session is no longer valid: 401");
    let status = session().checked(Err("boom".to_string())).unwrap_err();
    assert_eq!(status.message, "GOG worker task panicked: boom");
    let status = save().saved(Err("full".to_string())).unwrap_err();
    assert_eq!(status.message, "GOG credentials error: full");
}

#[test]
fn build_failures_end_the_way() {
    let status = builds().fetched(Err("404".to_string())).unwrap_err();
    assert_eq!(status.code, Code::Unavailable);
    assert_eq!(status.message, "GOG builds lookup failed: HTTP request failed: 404");
    let status = builds().fetched(Ok(response(0, vec![]))).unwrap_err();
    assert_eq!(status.code, Code::Unavailable);
    assert_eq!(status.message, "GOG builds lookup failed: no builds available for this product");
    let status = builds().fetched(Ok(response(3, vec![]))).unwrap_err();
    assert_eq!(status.code, Code::NotFound);
    assert_eq!(status.message, "no builds available for GOG game 42");
}

#[test]
fn manifest_failures_end_the_way() {
    let status = build_step().fetched(Err("404".to_string())).unwrap_err();
    assert_eq!(status.message, "GOG build manifest fetch failed: HTTP request failed: 404");
    let status = build_step().fetched(Ok(b"junk".to_vec())).unwrap_err();
    assert!(status.message.starts_with("GOG build manifest fetch failed: failed to decompress response: "));
    let status = build_json().parsed(Err("EOF".to_string())).unwrap_err();
    assert_eq!(status.message, "GOG build manifest fetch failed: failed to parse response: EOF");
    let none = BuildMeta { install_directory: String::new(), depots: vec![] };
    let status = build_json().parsed(Ok(none)).unwrap_err();
    assert_eq!(status.code, Code::FailedPrecondition);
    assert_eq!(status.message, "no compatible depot for GOG game 42");
    let status = depot_step().fetched(Err("404".to_string())).unwrap_err();
    assert_eq!(status.message, "GOG depot manifest fetch failed: HTTP request failed: 404");
    let status = depot_step().fetched(Ok(vec![])).unwrap_err();
    assert!(status.message.starts_with("GOG depot manifest fetch failed: failed to decompress response: "));
    let status = depot_json().parsed(Err("EOF".to_string())).unwrap_err();
    assert_eq!(status.message, "GOG depot manifest fetch failed: failed to parse response: EOF");
    let status = link_step().fetched(Err("403".to_string())).unwrap_err();
    assert_eq!(status.code, Code::Unavailable);
    assert_eq!(status.message, "GOG secure_link lookup failed: HTTP request failed: 403");
}

#[test]
fn chunks_without_an_endpoint_are_skipped() {
    let files = vec![file("a", vec![chunk("a\u{e9}bc", u64::MAX), chunk("abcd", 1)])];
    let links = vec![endpoint(None, "/x")];
    assert!(can_install(&files, &links));
    let manifest = assemble_manifest("v".to_string(), "d".to_string(), &files, &links);
    assert_eq!(manifest.install_size_bytes, Some(0));
    assert_eq!(manifest.files[0].size_bytes, Some(0));
    assert!(manifest.files[0].chunks.is_empty());
}

#[test]
fn what_cannot_be_assembled() {
    let links = vec![endpoint(Some("{path}"), "")];
    assert!(!can_install(&vec![file("a", vec![chunk("a\u{e9}bc", 1)])], &links));
    let huge = vec![file("a", vec![chunk("abcd", u64::MAX)]), file("b", vec![chunk("abcd", 1)])];
    assert!(!can_install(&huge, &links));
    let full = vec![file("a", vec![chunk("abcd", u64::MAX - 1)]), file("b", vec![chunk("abcd", 1)])];
    assert!(can_install(&full, &links));
    let manifest = assemble_manifest(String::new(), String::new(), &full, &links);
    assert_eq!(manifest.install_size_bytes, Some(u64::MAX));
}
