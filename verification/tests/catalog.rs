use next_plugin_gog::games::{fetch_games, game_from_release, resolve_game, Storefront};
use next_plugin_gog::gamesdb::{
    parse_release_date, release_url, to_timestamp, Company, GameDetails, Genre, Image, Localized, Release, Timestamp,
};

fn localized(default: Option<&str>, en_us: Option<&str>) -> Localized {
    Localized { default: default.map(|t| t.to_string()), en_us: en_us.map(|t| t.to_string()) }
}

fn image(url: &str) -> Image {
    Image { url_format: url.to_string() }
}

fn release() -> Release {
    Release {
        title: localized(Some("Der Titel"), Some("The Title")),
        summary: Some(localized(Some("summary"), None)),
        icon: Some(image("https://i/icon{formatter}.{ext}")),
        game: GameDetails {
            cover: Some(image("https://i/cover{formatter}.{ext}")),
            vertical_cover: None,
            background: Some(image("https://i/back.{ext}")),
            developers: vec![Company { name: "Dev One".to_string() }, Company { name: "Dev Two".to_string() }],
            publishers: vec![],
            genres: vec![
                Genre { name: localized(Some("RPG"), None) },
                Genre { name: localized(None, None) },
                Genre { name: localized(Some("x"), Some("Strategy")) },
            ],
            first_release_date: Some("2012-04-17T00:00:00+0000".to_string()),
            aggregated_rating: Some("87.5".to_string()),
        },
    }
}

#[test]
fn english_text_goes_before_the_fallback() {
    assert_eq!(localized(Some("a"), Some("b")).resolve().unwrap(), "b");
    assert_eq!(localized(Some("a"), None).resolve().unwrap(), "a");
    assert_eq!(localized(None, Some("b")).resolve().unwrap(), "b");
    assert!(localized(None, None).resolve().is_none());
}

#[test]
fn image_url_in_default_size() {
    assert_eq!(image("https://i/a{formatter}.{ext}").resolve(), "https://i/a.jpg");
    assert_eq!(image("https://i/a.png").resolve(), "https://i/a.png");
    assert_eq!(image("{ext}{ext}{formatter}{other}").resolve(), "jpgjpg{other}");
    assert_eq!(image("{e{formatter}xt}").resolve(), "jpg");
    assert_eq!(image("{e{ext}xt}{").resolve(), "{ejpgxt}{");
    assert_eq!(image("{form{formatter}atter}").resolve(), "{formatter}");
}

#[test]
fn release_date_is_parsed() {
    let at = |seconds: i64| Some(Timestamp { seconds, nanos: 0 });
    assert_eq!(parse_release_date("2012-04-17T00:00:00+0000"), at(1334620800));
    assert_eq!(parse_release_date("2012-04-17T00:00:00+0200"), at(1334613600));
    assert_eq!(parse_release_date("1969-12-31T23:59:59+0000"), at(-1));
    assert_eq!(parse_release_date("2016-12-31T23:59:60+0000"), at(1483228800));
}

#[test]
fn leap_second_counts_as_the_next_second() {
    assert_eq!(to_timestamp(Some((59, 1_500_000_000))), Some(Timestamp { seconds: 60, nanos: 500_000_000 }));
    assert_eq!(to_timestamp(Some((-1, 999_999_999))), Some(Timestamp { seconds: -1, nanos: 999_999_999 }));
    assert_eq!(to_timestamp(None), None);
}

#[test]
fn timestamps_are_those_of_protobuf() {
    for date in [
        "2012-04-17T00:00:00+0000", "1969-12-31T23:59:60-0130", "1601-01-01T00:00:00+0000",
        "1970-01-01T00:00:00+0000", "2016-12-31T23:59:60+0000", "9999-12-31T23:59:59-2359",
    ] {
        let parsed = chrono::DateTime::parse_from_str(date, "%Y-%m-%dT%H:%M:%S%z").unwrap();
        let expected = prost_wkt_types::Timestamp::from(std::time::SystemTime::from(parsed));
        let timestamp = parse_release_date(date).unwrap();
        assert_eq!((timestamp.seconds, timestamp.nanos), (expected.seconds, expected.nanos), "{date}");
    }
}

#[test]
fn unusual_dates_are_dropped() {
    assert_eq!(parse_release_date(""), None);
    assert_eq!(parse_release_date("2012-04-17"), None);
    assert_eq!(parse_release_date("2012-13-17T00:00:00+0000"), None);
    assert_eq!(parse_release_date("17 April 2012"), None);
}

#[test]
fn url_of_a_release() {
    assert_eq!(
        release_url(1207658924),
        "https://gamesdb.gog.com/platforms/gog/external_releases/1207658924"
    );
}

#[test]
fn game_has_what_the_catalog_says() {
    let game = resolve_game(42, &Ok(release()));
    assert_eq!(game.id, "42");
    assert_eq!(game.title, "The Title");
    assert_eq!(game.storefront, Storefront::Gog);
    assert_eq!(game.description.as_deref(), Some("summary"));
    assert_eq!(game.icon_url.as_deref(), Some("https://i/icon.jpg"));
    assert_eq!(game.cover_url.as_deref(), Some("https://i/cover.jpg"));
    assert_eq!(game.background_url.as_deref(), Some("https://i/back.jpg"));
    assert_eq!(game.developer.as_deref(), Some("Dev One"));
    assert_eq!(game.publisher, None);
    assert_eq!(game.genres, vec!["RPG".to_string(), "Strategy".to_string()]);
    assert_eq!(game.release_date, Some(Timestamp { seconds: 1334620800, nanos: 0 }));
    assert_eq!(game.rating.as_deref(), Some("87.5"));
    assert!(game.install_state.is_none());
}

#[test]
fn vertical_cover_goes_before_the_other() {
    let mut with_both = release();
    with_both.game.vertical_cover = Some(image("https://i/tall.{ext}"));
    assert_eq!(resolve_game(1, &Ok(with_both)).cover_url.as_deref(), Some("https://i/tall.jpg"));
    let mut with_none = release();
    with_none.game.cover = None;
    assert_eq!(resolve_game(1, &Ok(with_none)).cover_url, None);
}

#[test]
fn untitled_game_shows_its_id() {
    let mut untitled = release();
    untitled.title = localized(None, None);
    untitled.game.first_release_date = None;
    let date = Some(Timestamp { seconds: 5, nanos: 6 });
    let game = game_from_release(-7, &untitled, date);
    assert_eq!(game.title, "-7");
    assert_eq!(game.release_date, date);
    assert_eq!(resolve_game(-7, &Ok(untitled)).release_date, None);
}

#[test]
fn game_is_listed_without_catalog_data() {
    let game = resolve_game(1207658924, &Err("503".to_string()));
    assert_eq!(game.id, "1207658924");
    assert_eq!(game.title, "1207658924");
    assert!(game.description.is_none() && game.icon_url.is_none() && game.cover_url.is_none());
    assert!(game.genres.is_empty() && game.release_date.is_none() && game.rating.is_none());
    assert!(game.install_state.is_none());
}

#[test]
fn every_owned_game_is_listed() {
    let games = fetch_games(Ok(vec![(1, Ok(release())), (2, Err("x".to_string()))])).unwrap();
    let titles: Vec<&str> = games.iter().map(|g| g.title.as_str()).collect();
    assert_eq!(titles, vec!["The Title", "2"]);
    let status = fetch_games(Err("cancelled".to_string())).unwrap_err();
    assert_eq!(status.message, "GOG worker task panicked: cancelled");
}
