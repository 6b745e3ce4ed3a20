//! The games of a library, with what the catalog says of each.

use vstd::prelude::*;
use vstd::string::*;

use crate::error;
use crate::error::{Status, worker_panicked};
use crate::gamesdb::{Company, Genre, Image, Localized, Release, Timestamp, parse_release_date};
use crate::gamesdb;
use crate::text;

verus! {

/// The storefronts that this plugin serves.
#[derive(Clone, Copy, Debug, PartialEq, Eq, Structural)]
pub enum Storefront {
    Gog,
}

/// How far a game is installed. That is for core to know, so nothing is held of it
/// here, and no game is listed with one.
#[derive(Clone, Copy, Debug)]
pub struct InstallState;

/// A game of a library.
#[derive(Debug)]
pub struct Game {
    pub id: String,
    pub title: String,
    pub storefront: Storefront,
    pub description: Option<String>,
    pub icon_url: Option<String>,
    pub cover_url: Option<String>,
    pub background_url: Option<String>,
    pub developer: Option<String>,
    pub publisher: Option<String>,
    pub genres: Vec<String>,
    pub release_date: Option<Timestamp>,
    pub rating: Option<String>,
    pub install_state: Option<InstallState>,
}

/// The content of a `Game`.
#[verifier::ext_equal]
pub struct GameView {
    pub id: Seq<char>,
    pub title: Seq<char>,
    pub storefront: Storefront,
    pub description: Option<Seq<char>>,
    pub icon_url: Option<Seq<char>>,
    pub cover_url: Option<Seq<char>>,
    pub background_url: Option<Seq<char>>,
    pub developer: Option<Seq<char>>,
    pub publisher: Option<Seq<char>>,
    pub genres: Seq<Seq<char>>,
    pub release_date: Option<Timestamp>,
    pub rating: Option<Seq<char>>,
    pub install_state: Option<InstallState>,
}

impl DeepView for Game {
    type V = GameView;

    open spec fn deep_view(&self) -> GameView {
        GameView {
            id: self.id@,
            title: self.title@,
            storefront: self.storefront,
            description: self.description.deep_view(),
            icon_url: self.icon_url.deep_view(),
            cover_url: self.cover_url.deep_view(),
            background_url: self.background_url.deep_view(),
            developer: self.developer.deep_view(),
            publisher: self.publisher.deep_view(),
            genres: self.genres.deep_view(),
            release_date: self.release_date,
            rating: self.rating.deep_view(),
            install_state: self.install_state,
        }
    }
}

/// The text of an optional field.
pub open spec fn localized_text(text: Option<Localized>) -> Option<Seq<char>> {
    match text {
        Some(localized) => localized.shown(),
        None => None,
    }
}

/// The URL of an optional image.
pub open spec fn image_url(image: Option<Image>) -> Option<Seq<char>> {
    match image {
        Some(image) => Some(image.default_url()),
        None => None,
    }
}

/// The name of the first company.
pub open spec fn first_name(companies: Seq<Company>) -> Option<Seq<char>> {
    if companies.len() > 0 {
        Some(companies[0].name@)
    } else {
        None
    }
}

/// The names of the genres that have one, in their order.
pub open spec fn genre_names(genres: Seq<Genre>) -> Seq<Seq<char>>
    decreases genres.len(),
{
    if genres.len() == 0 {
        Seq::empty()
    } else {
        match genres.last().name.shown() {
            Some(name) => genre_names(genres.drop_last()).push(name),
            None => genre_names(genres.drop_last()),
        }
    }
}

/// What is known of a game whose catalog data couldn't be had.
pub open spec fn unresolved_game(id: i64) -> GameView {
    GameView {
        id: text::int_text(id as int),
        title: text::int_text(id as int),
        storefront: Storefront::Gog,
        description: None,
        icon_url: None,
        cover_url: None,
        background_url: None,
        developer: None,
        publisher: None,
        genres: Seq::empty(),
        release_date: None,
        rating: None,
        install_state: None,
    }
}

/// The game that the catalog data describe. A game without a title shows its id,
/// and one without a vertical cover its other cover.
pub open spec fn cataloged_game(
    id: i64,
    release: Release,
    release_date: Option<Timestamp>,
) -> GameView {
    GameView {
        id: text::int_text(id as int),
        title: match release.title.shown() {
            Some(title) => title,
            None => text::int_text(id as int),
        },
        storefront: Storefront::Gog,
        description: localized_text(release.summary),
        icon_url: image_url(release.icon),
        cover_url: match release.game.vertical_cover {
            Some(cover) => Some(cover.default_url()),
            None => image_url(release.game.cover),
        },
        background_url: image_url(release.game.background),
        developer: first_name(release.game.developers@),
        publisher: first_name(release.game.publishers@),
        genres: genre_names(release.game.genres@),
        release_date,
        rating: release.game.aggregated_rating.deep_view(),
        install_state: None,
    }
}

/// When the release says that it came out.
pub open spec fn stated_release_date(release: Release) -> Option<Timestamp> {
    match release.game.first_release_date {
        Some(date) => gamesdb::timestamp_of(
            gamesdb::time_read(date@, gamesdb::RELEASE_DATE_FORMAT@),
        ),
        None => None,
    }
}

/// The game that results from asking the catalog for its data.
pub open spec fn resolved_game(id: i64, fetched: Result<Release, String>) -> GameView {
    match fetched {
        Ok(release) => cataloged_game(id, release, stated_release_date(release)),
        Err(_) => unresolved_game(id),
    }
}

fn resolve_text(text: &Option<Localized>) -> (shown: Option<String>)
    ensures
        shown.deep_view() == localized_text(*text),
{
    match text {
        Some(localized) => localized.resolve(),
        None => None,
    }
}

fn resolve_image(image: &Option<Image>) -> (url: Option<String>)
    ensures
        url.deep_view() == image_url(*image),
{
    match image {
        Some(image) => Some(image.resolve()),
        None => None,
    }
}

fn resolve_company(companies: &Vec<Company>) -> (name: Option<String>)
    ensures
        name.deep_view() == first_name(companies@),
{
    if companies.len() > 0 {
        Some(companies[0].name.clone())
    } else {
        None
    }
}

fn resolve_genres(genres: &Vec<Genre>) -> (names: Vec<String>)
    ensures
        names.deep_view() == genre_names(genres@),
{
    let mut names: Vec<String> = Vec::new();
    let mut i: usize = 0;
    assert(genres@.take(0) =~= Seq::empty());
    assert(names.deep_view() =~= Seq::empty());
    while i < genres.len()
        invariant
            i <= genres@.len(),
            names.deep_view() == genre_names(genres@.take(i as int)),
        decreases genres@.len() - i,
    {
        let ghost before = names.deep_view();
        proof {
            let longer = genres@.take(i + 1);
            assert(longer.drop_last() =~= genres@.take(i as int));
            assert(longer.last() == genres@[i as int]);
        }
        if let Some(name) = genres[i].name.resolve() {
            names.push(name);
            assert(names.deep_view() =~= before.push(name@));
        }
        i = i + 1;
    }
    assert(genres@.take(i as int) =~= genres@);
    names
}

/// The game that the catalog data describe, with its release date as given.
pub fn game_from_release(id: i64, release: &Release, release_date: Option<Timestamp>) -> (game: Game)
    ensures
        game.deep_view() == cataloged_game(id, *release, release_date),
{
    let title = match release.title.resolve() {
        Some(title) => title,
        None => text::i64_text(id),
    };
    let cover_url = match &release.game.vertical_cover {
        Some(cover) => Some(cover.resolve()),
        None => resolve_image(&release.game.cover),
    };
    let rating = match &release.game.aggregated_rating {
        Some(rating) => Some(rating.clone()),
        None => None,
    };
    Game {
        id: text::i64_text(id),
        title,
        storefront: Storefront::Gog,
        description: resolve_text(&release.summary),
        icon_url: resolve_image(&release.icon),
        cover_url,
        background_url: resolve_image(&release.game.background),
        developer: resolve_company(&release.game.developers),
        publisher: resolve_company(&release.game.publishers),
        genres: resolve_genres(&release.game.genres),
        release_date,
        rating,
        install_state: None,
    }
}

/// Makes a game of one owned product id and of what the catalog answered for it.
/// Falls back to the numeric id as the title on failure rather than dropping the
/// game.
pub fn resolve_game(id: i64, fetched: &Result<Release, String>) -> (game: Game)
    ensures
        game.deep_view() == resolved_game(id, *fetched),
{
    match fetched {
        Ok(release) => {
            let release_date = match &release.game.first_release_date {
                Some(date) => parse_release_date(date.as_str()),
                None => None,
            };
            game_from_release(id, release, release_date)
        },
        Err(_) => {
            let game = Game {
                id: text::i64_text(id),
                title: text::i64_text(id),
                storefront: Storefront::Gog,
                description: None,
                icon_url: None,
                cover_url: None,
                background_url: None,
                developer: None,
                publisher: None,
                genres: Vec::new(),
                release_date: None,
                rating: None,
                install_state: None,
            };
            assert(game.genres.deep_view() =~= Seq::empty());
            game
        },
    }
}

/// The games of a library, in the order of their ids, out of what the worker that
/// asked the catalog for each of them brought back.
pub fn fetch_games(fetched: Result<Vec<(i64, Result<Release, String>)>, String>) -> (games: Result<
    Vec<Game>,
    Status,
>)
    ensures
        match fetched {
            Ok(answers) => {
                &&& games matches Ok(list)
                &&& list.deep_view() == answers@.map_values(
                    |answer: (i64, Result<Release, String>)| resolved_game(answer.0, answer.1),
                )
            },
            Err(err) => games matches Err(status) && status@ == error::worker_panicked_status(err@),
        },
{
    match fetched {
        Err(err) => Err(worker_panicked(err.as_str())),
        Ok(answers) => {
            let mut games: Vec<Game> = Vec::new();
            let mut i: usize = 0;
            while i < answers.len()
                invariant
                    i <= answers@.len(),
                    games@.len() == i,
                    forall|j: int|
                        0 <= j < i ==> (#[trigger] games@[j]).deep_view() == resolved_game(
                            answers@[j].0,
                            answers@[j].1,
                        ),
                decreases answers@.len() - i,
            {
                let answer = &answers[i];
                games.push(resolve_game(answer.0, &answer.1));
                i = i + 1;
            }
            assert(games.deep_view() =~= answers@.map_values(
                |answer: (i64, Result<Release, String>)| resolved_game(answer.0, answer.1),
            ));
            Ok(games)
        },
    }
}

/// Every owned product is listed, under its own id, whatever the catalog answered.
pub proof fn law_no_game_is_dropped(id: i64, fetched: Result<Release, String>)
    ensures
        resolved_game(id, fetched).id == text::int_text(id as int),
        resolved_game(id, fetched).storefront == Storefront::Gog,
        fetched is Err ==> resolved_game(id, fetched).title == text::int_text(id as int),
{
}

/// The text of a localized field as it is shown: the English one, or else the one for
/// every language.
pub open spec fn is_shown_as(localized: Localized, shown: Option<Seq<char>>) -> bool {
    match (localized.en_us, localized.default) {
        (Some(t), _) => shown == Some(t@),
        (None, Some(t)) => shown == Some(t@),
        (None, None) => shown is None,
    }
}

/// The URL of an image as it is shown.
pub open spec fn is_url_of(image: Image, url: Option<Seq<char>>) -> bool {
    url == Some(
        text::replaced(
            text::replaced(image.url_format@, "{formatter}"@, Seq::empty()),
            "{ext}"@,
            "jpg"@,
        ),
    )
}

/// Genres of two lists, one behind the other, are those of the first and then those of
/// the second. A genre is listed by its English name, or else by the one for every
/// language, and not at all if it has neither.
pub proof fn law_genres_keep_their_order(a: Seq<Genre>, b: Seq<Genre>, genre: Genre)
    ensures
        genre_names(Seq::empty()) == Seq::<Seq<char>>::empty(),
        genre_names(a + b) == genre_names(a) + genre_names(b),
        genre.name.en_us matches Some(t) ==> genre_names(seq![genre]) == seq![t@],
        genre.name.en_us is None ==> (genre.name.default matches Some(t) ==> genre_names(
            seq![genre],
        ) == seq![t@]),
        genre.name.en_us is None && genre.name.default is None ==> genre_names(seq![genre])
            == Seq::<Seq<char>>::empty(),
    decreases b.len(),
{
    reveal_with_fuel(genre_names, 2);
    assert(seq![genre].drop_last() =~= Seq::empty());
    if let Some(t) = genre.name.en_us {
        assert(genre_names(seq![genre]) =~= seq![t@]);
    } else if let Some(t) = genre.name.default {
        assert(genre_names(seq![genre]) =~= seq![t@]);
    }
    if b.len() == 0 {
        assert(a + b =~= a);
        assert(genre_names(a) + genre_names(b) =~= genre_names(a));
    } else {
        assert((a + b).drop_last() =~= a + b.drop_last());
        law_genres_keep_their_order(a, b.drop_last(), genre);
        assert(genre_names(a + b) =~= genre_names(a) + genre_names(b));
    }
}

/// The fields of a game are those of a release with this id and this date.
pub open spec fn shows_release(
    game: Game,
    id: i64,
    release: Release,
    release_date: Option<Timestamp>,
) -> bool {
    &&& game.id@ == text::int_text(id as int)
    &&& exists|title: Option<Seq<char>>|
        #![trigger is_shown_as(release.title, title)]
        is_shown_as(release.title, title) && game.title@ == match title {
            Some(t) => t,
            None => text::int_text(id as int),
        }
    &&& game.storefront == Storefront::Gog
    &&& match release.summary {
        Some(summary) => is_shown_as(summary, game.description.deep_view()),
        None => game.description is None,
    }
    &&& match release.icon {
        Some(icon) => is_url_of(icon, game.icon_url.deep_view()),
        None => game.icon_url is None,
    }
    &&& match (release.game.vertical_cover, release.game.cover) {
        (Some(cover), _) => is_url_of(cover, game.cover_url.deep_view()),
        (None, Some(cover)) => is_url_of(cover, game.cover_url.deep_view()),
        (None, None) => game.cover_url is None,
    }
    &&& match release.game.background {
        Some(background) => is_url_of(background, game.background_url.deep_view()),
        None => game.background_url is None,
    }
    &&& game.developer is Some <==> release.game.developers@.len() > 0
    &&& game.developer is Some ==> game.developer->0@ == release.game.developers@[0].name@
    &&& game.publisher is Some <==> release.game.publishers@.len() > 0
    &&& game.publisher is Some ==> game.publisher->0@ == release.game.publishers@[0].name@
    &&& game.genres@.len() == genre_names(release.game.genres@).len()
    &&& forall|i: int|
        0 <= i < game.genres@.len() ==> (#[trigger] game.genres@[i])@ == genre_names(
            release.game.genres@,
        )[i]
    &&& game.release_date == release_date
    &&& game.rating is Some <==> release.game.aggregated_rating is Some
    &&& game.rating is Some ==> game.rating->0@ == release.game.aggregated_rating->0@
    &&& game.install_state is None
}

proof fn lemma_cataloged_game(
    game: Game,
    id: i64,
    release: Release,
    release_date: Option<Timestamp>,
)
    requires
        game.deep_view() == cataloged_game(id, release, release_date),
    ensures
        shows_release(game, id, release, release_date),
{
    let view = game.deep_view();
    assert(is_shown_as(release.title, release.title.shown()));
    if let Some(t) = game.developer {
        assert(view.developer == Some(t@));
    }
    if let Some(t) = game.publisher {
        assert(view.publisher == Some(t@));
    }
    if let Some(t) = game.rating {
        assert(view.rating == Some(t@));
    }
    if game.developer is None {
        assert(view.developer is None);
    }
    if game.publisher is None {
        assert(view.publisher is None);
    }
    if game.rating is None {
        assert(view.rating is None);
    }
    assert(view.genres == game.genres.deep_view());
    assert forall|i: int| 0 <= i < game.genres@.len() implies (#[trigger] game.genres@[i])@
        == genre_names(release.game.genres@)[i] by {
        assert(game.genres.deep_view()[i] == game.genres@[i].deep_view());
    }
    if game.description is None {
        assert(view.description is None);
    }
    if game.icon_url is None {
        assert(view.icon_url is None);
    }
    if game.cover_url is None {
        assert(view.cover_url is None);
    }
    if game.background_url is None {
        assert(view.background_url is None);
    }
}

/// A game for which the catalog answered shows what the release says: the title, or else
/// the id; the summary; icon and background; the vertical cover before the other one; the
/// first developer and the first publisher; the names of the genres; the rating; and the
/// date, where the text of the release gives one.
pub proof fn law_game_shows_its_release(
    id: i64,
    fetched: Result<Release, String>,
    release: Release,
    game: Game,
)
    requires
        fetched == Ok::<Release, String>(release),
        call_ensures(resolve_game, (id, &fetched), game),
    ensures
        shows_release(game, id, release, game.release_date),
        release.game.first_release_date is None ==> game.release_date is None,
        release.game.first_release_date matches Some(date) ==> (game.release_date is Some
            <==> gamesdb::time_read(date@, "%Y-%m-%dT%H:%M:%S%z"@) is Some),
        release.game.first_release_date matches Some(date) ==> game.release_date
            == gamesdb::timestamp_of(gamesdb::time_read(date@, "%Y-%m-%dT%H:%M:%S%z"@)),
{
    lemma_cataloged_game(game, id, release, game.release_date);
}

/// The game made of a release with a date given shows the release, and that date.
pub proof fn law_game_of_a_release_shows_it(
    id: i64,
    release: Release,
    release_date: Option<Timestamp>,
    game: Game,
)
    requires
        call_ensures(game_from_release, (id, &release, release_date), game),
    ensures
        shows_release(game, id, release, release_date),
{
    lemma_cataloged_game(game, id, release, release_date);
}

/// A game for which the catalog didn't answer shows its id, also as its title, and
/// nothing else.
pub proof fn law_unanswered_game_shows_its_id(
    id: i64,
    fetched: Result<Release, String>,
    game: Game,
)
    requires
        fetched is Err,
        call_ensures(resolve_game, (id, &fetched), game),
    ensures
        game.id@ == text::int_text(id as int),
        game.title@ == text::int_text(id as int),
        game.storefront == Storefront::Gog,
        game.description is None,
        game.icon_url is None,
        game.cover_url is None,
        game.background_url is None,
        game.developer is None,
        game.publisher is None,
        game.genres@.len() == 0,
        game.release_date is None,
        game.rating is None,
        game.install_state is None,
{
    let view = game.deep_view();
    assert(view.genres.len() == game.genres@.len());
    assert(view.description is None ==> game.description is None);
    assert(view.icon_url is None ==> game.icon_url is None);
    assert(view.cover_url is None ==> game.cover_url is None);
    assert(view.background_url is None ==> game.background_url is None);
    assert(view.developer is None ==> game.developer is None);
    assert(view.publisher is None ==> game.publisher is None);
    assert(view.rating is None ==> game.rating is None);
}

/// The library is listed whole and in order: each game is what results from asking the
/// catalog for its id. A worker that didn't finish is an internal error.
pub proof fn law_library_is_listed_whole(
    fetched: Result<Vec<(i64, Result<Release, String>)>, String>,
    games: Result<Vec<Game>, Status>,
    i: int,
)
    requires
        call_ensures(fetch_games, (fetched,), games),
    ensures
        games is Ok <==> fetched is Ok,
        fetched matches Ok(answers) ==> games->Ok_0@.len() == answers@.len(),
        fetched matches Ok(answers) ==> (0 <= i < answers@.len() ==> games->Ok_0@[i].deep_view()
            == resolved_game(answers@[i].0, answers@[i].1)),
        fetched matches Ok(answers) ==> (0 <= i < answers@.len() ==> games->Ok_0@[i].id@
            == text::int_text(answers@[i].0 as int)),
        fetched matches Ok(answers) ==> (0 <= i < answers@.len() ==> (answers@[i].1 matches Ok(
            release,
        ) ==> shows_release(
            games->Ok_0@[i],
            answers@[i].0,
            release,
            games->Ok_0@[i].release_date,
        ))),
        fetched matches Err(err) ==> games->Err_0.code == error::Code::Internal
            && games->Err_0.message@ == "GOG worker task panicked: "@ + err@,
{
    if let Ok(answers) = fetched {
        let list = games->Ok_0;
        assert(list.deep_view().len() == list@.len());
        if 0 <= i < answers@.len() {
            assert(list.deep_view()[i] == list@[i].deep_view());
            if let Ok(release) = answers@[i].1 {
                lemma_cataloged_game(list@[i], answers@[i].0, release, list@[i].release_date);
            }
        }
    }
}

} // verus!
