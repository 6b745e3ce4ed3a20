use std::io::Write;

use next_plugin_gog::depot::{
    build_chunk_url, builds_url, depot_manifest_url, galaxy_path, get_build_meta, get_builds,
    get_depot_files, get_secure_link, is_shardable, manifest_json, secure_link_url, select_build, select_depot, Build,
    BuildMeta, BuildsResponse, DepotChunk, DepotFile, DepotItem, DepotManifestBody, DepotManifestRoot,
    DepotMeta, Error, ParamValue, Parameters, SecureLinkEntry, SecureLinkResponse,
};

fn build(id: &str, branch: Option<&str>) -> Build {
    Build {
        build_id: id.to_string(),
        branch: branch.map(|b| b.to_string()),
        link: format!("https://example.com/{id}"),
    }
}

fn depot(bitness: Option<Vec<&str>>, manifest: &str) -> DepotMeta {
    DepotMeta {
        os_bitness: bitness.map(|list| list.into_iter().map(|b| b.to_string()).collect()),
        manifest: manifest.to_string(),
    }
}

fn text(value: &str) -> ParamValue {
    ParamValue::string(value.to_string())
}

fn number(value: i64) -> ParamValue {
    ParamValue { text: None, signed: Some(value), unsigned: u64::try_from(value).ok() }
}

fn entry(url: Option<&str>, url_format: Option<&str>, params: Vec<(&str, ParamValue)>) -> SecureLinkEntry {
    let mut parameters = Parameters::new();
    for (key, value) in params {
        parameters.insert(key.to_string(), value);
    }
    SecureLinkEntry {
        url: url.map(|u| u.to_string()),
        url_format: url_format.map(|u| u.to_string()),
        parameters,
    }
}

#[test]
fn hash_is_sharded_by_its_first_four_characters() {
    assert_eq!(galaxy_path("ab12cd"), "ab/12/ab12cd");
    assert_eq!(galaxy_path("ab12"), "ab/12/ab12");
}

#[test]
fn short_hash_and_path_stay_as_they_are() {
    assert_eq!(galaxy_path("ab1"), "ab1");
    assert_eq!(galaxy_path(""), "");
    assert_eq!(galaxy_path("ab/12/ab12cd"), "ab/12/ab12cd");
}

#[test]
fn shards_are_cut_by_bytes() {
    assert_eq!(galaxy_path("\u{e9}\u{e9}x"), "\u{e9}/\u{e9}/\u{e9}\u{e9}x");
    assert!(is_shardable("\u{e9}\u{e9}x"));
    assert!(!is_shardable("a\u{e9}bc"));
    assert!(!is_shardable("ab1\u{e9}"));
    assert!(is_shardable("a\u{e9}"));
    assert!(is_shardable("a\u{e9}/bc"));
}

#[test]
fn sharded_path_is_not_sharded_again() {
    for hash in ["ab12cd", "ab1", "", "ab/12/ab12cd", "\u{e9}\u{e9}x"] {
        let once = galaxy_path(hash);
        assert!(is_shardable(&once));
        assert_eq!(galaxy_path(&once), once);
    }
}

#[test]
fn urls_of_the_content_system() {
    assert_eq!(
        builds_url(1207658924),
        "https://content-system.gog.com/products/1207658924/os/windows/builds?generation=2"
    );
    assert_eq!(
        secure_link_url(-5, "/"),
        "https://content-system.gog.com/products/-5/secure_link?_version=2&generation=2&path=/"
    );
    assert_eq!(
        depot_manifest_url("00ff11"),
        "https://gog-cdn-fastly.gog.com/content-system/v2/meta/00/ff/00ff11"
    );
}

#[test]
fn manifest_is_decompressed() {
    let mut encoder = flate2::write::ZlibEncoder::new(Vec::new(), flate2::Compression::default());
    encoder.write_all(b"{\"depots\": []}").unwrap();
    let packed = encoder.finish().unwrap();
    assert_eq!(manifest_json(Ok(packed)).unwrap(), b"{\"depots\": []}");
}

#[test]
fn bad_manifest_is_an_error() {
    match manifest_json(Ok(b"not zlib at all".to_vec())) {
        Err(Error::Decompress(err)) => assert!(!err.is_empty()),
        other => panic!("unexpected: {other:?}"),
    }
    match manifest_json(Err("timed out".to_string())) {
        Err(err) => assert_eq!(err.message(), "HTTP request failed: timed out"),
        Ok(_) => panic!("no manifest was fetched"),
    }
}

#[test]
fn error_messages() {
    assert_eq!(Error::Http("x".to_string()).message(), "HTTP request failed: x");
    assert_eq!(Error::Decompress("x".to_string()).message(), "failed to decompress response: x");
    assert_eq!(Error::Parse("x".to_string()).message(), "failed to parse response: x");
    assert_eq!(Error::NoBuilds.message(), "no builds available for this product");
}

#[test]
fn builds_come_out_of_the_response() {
    let response = BuildsResponse { total_count: 1, items: vec![build("1", None)] };
    assert_eq!(get_builds(Ok(response)).unwrap().len(), 1);
    let none = BuildsResponse { total_count: 0, items: vec![build("1", None)] };
    assert!(matches!(get_builds(Ok(none)), Err(Error::NoBuilds)));
    assert!(matches!(get_builds(Err("no".to_string())), Err(Error::Http(e)) if e == "no"));
}

#[test]
fn mainline_build_is_preferred() {
    let builds = vec![build("1", Some("beta")), build("2", None), build("3", None)];
    assert_eq!(select_build(&builds).unwrap().build_id, "2");
}

#[test]
fn without_mainline_the_first_build_is_taken() {
    let builds = vec![build("1", Some("beta")), build("2", Some("alpha"))];
    assert_eq!(select_build(&builds).unwrap().build_id, "1");
    assert!(select_build(&[]).is_none());
}

#[test]
fn depot_for_windows_is_selected() {
    assert!(depot(None, "a").is_windows_compatible());
    assert!(depot(Some(vec!["32"]), "a").is_windows_compatible());
    assert!(depot(Some(vec!["arm", "64"]), "a").is_windows_compatible());
    assert!(!depot(Some(vec![]), "a").is_windows_compatible());
    assert!(!depot(Some(vec!["128"]), "a").is_windows_compatible());
    let meta = BuildMeta {
        install_directory: "Game".to_string(),
        depots: vec![depot(Some(vec!["arm"]), "a"), depot(Some(vec!["64"]), "b"), depot(None, "c")],
    };
    assert_eq!(select_depot(&meta).unwrap().manifest, "b");
    let none = BuildMeta { install_directory: String::new(), depots: vec![depot(Some(vec![]), "a")] };
    assert!(select_depot(&none).is_none());
}

#[test]
fn only_files_are_listed() {
    let file = |path: &str| DepotFile {
        path: path.to_string(),
        chunks: vec![DepotChunk { md5: String::new(), compressed_md5: String::new(), size: 1 }],
    };
    let root = DepotManifestRoot {
        depot: DepotManifestBody {
            items: vec![DepotItem::DepotFile(file("a")), DepotItem::Other, DepotItem::DepotFile(file("b"))],
        },
    };
    let files = get_depot_files(Ok(root)).unwrap();
    let paths: Vec<&str> = files.iter().map(|f| f.path.as_str()).collect();
    assert_eq!(paths, vec!["a", "b"]);
    assert!(matches!(get_depot_files(Err("EOF".to_string())), Err(Error::Parse(e)) if e == "EOF"));
}

#[test]
fn build_that_cannot_be_parsed() {
    let meta = BuildMeta { install_directory: "Game".to_string(), depots: vec![] };
    assert_eq!(get_build_meta(Ok(meta)).unwrap().install_directory, "Game");
    assert!(matches!(get_build_meta(Err("EOF".to_string())), Err(Error::Parse(e)) if e == "EOF"));
}

#[test]
fn endpoints_come_out_of_the_response() {
    let response = SecureLinkResponse { urls: vec![entry(None, None, vec![])] };
    assert_eq!(get_secure_link(Ok(response)).unwrap().len(), 1);
    assert!(matches!(get_secure_link(Err("no".to_string())), Err(Error::Http(e)) if e == "no"));
}

#[test]
fn chunk_url_fills_the_template() {
    let link = entry(
        None,
        Some("{base_url}/token=nva={expires_at}~dirs={dirs}~token={token}{path}"),
        vec![
            ("base_url", text("https://cdn.example.com")),
            ("path", text("/content-system/v2/store")),
            ("token", text("0abc")),
            ("expires_at", number(1700000000)),
            ("dirs", number(4)),
        ],
    );
    assert_eq!(
        build_chunk_url(&link, "deadbeef").unwrap(),
        "https://cdn.example.com/token=nva=1700000000~dirs=4~token=0abc/content-system/v2/store/de/ad/deadbeef"
    );
}

#[test]
fn order_of_parameters_makes_no_difference() {
    let one = entry(None, Some("{a}-{path}-{b}"), vec![("a", text("1")), ("path", text("p")), ("b", text("2"))]);
    let two = entry(None, Some("{a}-{path}-{b}"), vec![("b", text("2")), ("a", text("1")), ("path", text("p"))]);
    assert_eq!(build_chunk_url(&one, "abcd").unwrap(), "1-p/ab/cd/abcd-2");
    assert_eq!(build_chunk_url(&one, "abcd"), build_chunk_url(&two, "abcd"));
}

#[test]
fn chunk_url_without_a_base_path() {
    let link = entry(Some("https://x{path}"), None, vec![]);
    assert_eq!(build_chunk_url(&link, "abcdef").unwrap(), "https://x/ab/cd/abcdef");
    let not_text = entry(Some("https://x{path}"), None, vec![("path", number(7))]);
    assert_eq!(build_chunk_url(&not_text, "abcdef").unwrap(), "https://x/ab/cd/abcdef");
}

#[test]
fn url_format_goes_before_url() {
    let link = entry(Some("plain"), Some("format"), vec![]);
    assert_eq!(build_chunk_url(&link, "abcdef").unwrap(), "format");
    assert!(build_chunk_url(&entry(None, None, vec![]), "abcdef").is_none());
}

#[test]
fn parameter_without_text_leaves_its_slot() {
    let nothing = ParamValue { text: None, signed: None, unsigned: None };
    let huge = ParamValue { text: None, signed: None, unsigned: Some(u64::MAX) };
    let link = entry(None, Some("{a}{b}{c}{d}"), vec![("a", nothing), ("b", huge), ("c", number(-3))]);
    assert_eq!(build_chunk_url(&link, "abcd").unwrap(), "{a}18446744073709551615-3{d}");
}

#[test]
fn stray_braces_stay() {
    let params = || vec![("a", text("1}")), ("b", text("2"))];
    let link = entry(None, Some("}{ {a}-{c {b}} {"), params());
    assert_eq!(build_chunk_url(&link, "abcd").unwrap(), "}{ 1}-{c 2} {");
}

#[test]
fn cloned_endpoint_gives_the_same_urls() {
    let link = entry(Some("u"), Some("{a}{path}{n}"), vec![("a", text("1")), ("n", number(-2))]);
    let copy = link.clone();
    assert_eq!(copy.url, link.url);
    assert_eq!(copy.url_format, link.url_format);
    assert_eq!(build_chunk_url(&copy, "abcd").unwrap(), "1/ab/cd/abcd-2");
    assert_eq!(build_chunk_url(&copy, "abcd"), build_chunk_url(&link, "abcd"));
}

#[test]
fn later_value_of_a_key_replaces_the_earlier() {
    let link = entry(None, Some("{a}"), vec![("a", text("1")), ("a", text("2"))]);
    assert_eq!(build_chunk_url(&link, "abcd").unwrap(), "2");
}
