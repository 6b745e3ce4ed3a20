//! GOG's GamesDB catalog: what its records hold, and how their texts, images and
//! dates are read. GamesDB is public, and tolerates one request per owned game.

use vstd::prelude::*;
use vstd::string::*;

use crate::template;
use crate::text;
use crate::text::{join3, replace_all};

verus! {

pub const EXTERNAL_RELEASES_URL: &'static str = "https://gamesdb.gog.com/platforms/gog/external_releases";

/// The form of GamesDB's dates, as `chrono` names its parts.
pub const RELEASE_DATE_FORMAT: &'static str = "%Y-%m-%dT%H:%M:%S%z";

/// A GOG release as returned by `GET .../external_releases/{id}`, keyed by GOG's
/// numeric product id.
#[derive(Debug)]
pub struct Release {
    pub title: Localized,
    pub summary: Option<Localized>,
    pub icon: Option<Image>,
    pub game: GameDetails,
}

/// The game that a release belongs to. The rating is in the form in which it is
/// shown.
#[derive(Debug)]
pub struct GameDetails {
    pub cover: Option<Image>,
    pub vertical_cover: Option<Image>,
    pub background: Option<Image>,
    pub developers: Vec<Company>,
    pub publishers: Vec<Company>,
    pub genres: Vec<Genre>,
    pub first_release_date: Option<String>,
    pub aggregated_rating: Option<String>,
}

#[derive(Debug)]
pub struct Company {
    pub name: String,
}

#[derive(Debug)]
pub struct Genre {
    pub name: Localized,
}

/// GamesDB text fields are keyed by locale, with `"*"` as the language-agnostic
/// fallback.
#[derive(Debug)]
pub struct Localized {
    pub default: Option<String>,
    pub en_us: Option<String>,
}

impl Localized {
    /// The English text, or else the one for every language.
    pub open spec fn shown(self) -> Option<Seq<char>> {
        match self.en_us {
            Some(text) => Some(text@),
            None => self.default.deep_view(),
        }
    }

    pub fn resolve(&self) -> (text: Option<String>)
        ensures
            text.deep_view() == self.shown(),
    {
        match &self.en_us {
            Some(text) => Some(text.clone()),
            None => match &self.default {
                Some(text) => Some(text.clone()),
                None => None,
            },
        }
    }
}

/// A sized-image reference. `url_format` carries `{formatter}` (a size/crop
/// variant selector) and `{ext}` placeholders; substituting them with nothing and
/// `jpg` yields a valid default-size image URL.
#[derive(Debug)]
pub struct Image {
    pub url_format: String,
}

impl Image {
    /// The URL of the image in its default size.
    pub open spec fn default_url(self) -> Seq<char> {
        text::replaced(
            text::replaced(self.url_format@, "{formatter}"@, Seq::empty()),
            "{ext}"@,
            "jpg"@,
        )
    }

    pub fn resolve(&self) -> (url: String)
        ensures
            url@ == self.default_url(),
    {
        proof {
            reveal_strlit("{formatter}");
            reveal_strlit("{ext}");
        }
        let nothing = String::new();
        let sized = replace_all(self.url_format.as_str(), "{formatter}", nothing.as_str());
        replace_all(sized.as_str(), "{ext}", "jpg")
    }
}

/// The texts that take the place of an image URL's slots.
pub open spec fn image_bindings() -> Seq<template::Binding> {
    seq![("formatter"@, Some(Seq::<char>::empty())), ("ext"@, Some("jpg"@))]
}

/// In an image URL in which neither slot stands by chance, the slot for the formatter
/// vanishes, the slot for the extension becomes `jpg`, and all else stays, stray braces
/// among it.
pub proof fn law_image_url_fills_slots(image: Image, pieces: Seq<template::Piece>)
    requires
        image.url_format@ == template::source_of(pieces),
        template::stays_clear(pieces, image_bindings()),
    ensures
        image.default_url() == template::source_of(template::all_filled(pieces, image_bindings())),
        template::bound_text(image_bindings(), "formatter"@) == Some(Seq::<char>::empty()),
        template::bound_text(image_bindings(), "ext"@) == Some("jpg"@),
{
    reveal_strlit("formatter");
    reveal_strlit("{formatter}");
    reveal_strlit("ext");
    reveal_strlit("{ext}");
    reveal_strlit("jpg");
    let bindings = image_bindings();
    assert(template::slot("formatter"@) =~= "{formatter}"@);
    assert(template::slot("ext"@) =~= "{ext}"@);
    assert("formatter"@.len() != "ext"@.len());
    template::law_substitution_fills_slots(pieces, bindings);
    let url = image.url_format@;
    let first = bindings.drop_last();
    assert(first.drop_last() =~= Seq::empty());
    assert(template::substituted(url, first.drop_last()) == url);
    assert(template::substituted(url, first) == text::replaced(
        url,
        "{formatter}"@,
        Seq::empty(),
    ));
    assert(bindings[0] == ("formatter"@, Some(Seq::<char>::empty())));
    assert(bindings[1] == ("ext"@, Some("jpg"@)));
    template::lemma_bound_text_unique(bindings, "formatter"@, Seq::empty());
    template::lemma_bound_text_unique(bindings, "ext"@, "jpg"@);
}

/// An image URL in its default size has no slot for the extension left, whatever
/// braces there are.
pub proof fn law_image_url_has_its_extension(image: Image)
    ensures
        !text::occurs(image.default_url(), "{ext}"@),
{
    reveal_strlit("{ext}");
    reveal_strlit("jpg");
    let sized = text::replaced(image.url_format@, "{formatter}"@, Seq::empty());
    text::law_replaced_pattern_is_gone(sized, "{ext}"@, "jpg"@);
}

/// A point in time, as protobuf counts it.
#[derive(Clone, Copy, Debug, PartialEq, Eq, Structural)]
pub struct Timestamp {
    pub seconds: i64,
    pub nanos: i32,
}

/// The whole seconds since the Unix epoch, and the nanoseconds on top of them, at
/// the time that `date` gives, if it has the form `format`. Stands for what
/// `chrono::DateTime::parse_from_str` reads.
pub uninterp spec fn time_read(date: Seq<char>, format: Seq<char>) -> Option<(i64, u32)>;

/// `chrono::DateTime::parse_from_str`; the time that it read is taken apart by
/// `timestamp` and `timestamp_subsec_nanos`. The contract claims that the outcome
/// depends on the two texts alone, that the seconds are those of a 32-bit number of
/// days, and that there are less than two seconds' worth of nanoseconds (a leap
/// second has more than one). Which texts are dates is left to `chrono`.
#[verifier::external_body]
fn parse_time(date: &str, format: &str) -> (time: Option<(i64, u32)>)
    ensures
        time == time_read(date@, format@),
        time matches Some(t) ==> -0x1_0000_0000_0000 < t.0 < 0x1_0000_0000_0000,
        time matches Some(t) ==> t.1 < 2_000_000_000,
{
    chrono::DateTime::parse_from_str(date, format)
        .ok()
        .map(|parsed| (parsed.timestamp(), parsed.timestamp_subsec_nanos()))
}

pub const NANOS_PER_SECOND: u32 = 1_000_000_000;

/// The timestamp of a time in seconds and nanoseconds: a whole second among the
/// nanoseconds counts as a second.
pub open spec fn timestamp_of(time: Option<(i64, u32)>) -> Option<Timestamp> {
    match time {
        Some(t) => Some(
            Timestamp {
                seconds: (t.0 + t.1 / NANOS_PER_SECOND) as i64,
                nanos: (t.1 % NANOS_PER_SECOND) as i32,
            },
        ),
        None => None,
    }
}

pub fn to_timestamp(time: Option<(i64, u32)>) -> (timestamp: Option<Timestamp>)
    requires
        time matches Some(t) ==> t.0 + t.1 / NANOS_PER_SECOND <= i64::MAX,
    ensures
        timestamp == timestamp_of(time),
{
    match time {
        Some(t) => Some(
            Timestamp {
                seconds: t.0 + (t.1 / NANOS_PER_SECOND) as i64,
                nanos: (t.1 % NANOS_PER_SECOND) as i32,
            },
        ),
        None => None,
    }
}

/// Parses GamesDB's `first_release_date` (e.g. `"2012-04-17T00:00:00+0000"`).
/// Returns `None` on any format surprise rather than failing the whole game:
/// this is decorative metadata.
pub fn parse_release_date(date: &str) -> (timestamp: Option<Timestamp>)
    ensures
        timestamp == timestamp_of(time_read(date@, RELEASE_DATE_FORMAT@)),
        timestamp matches Some(t) ==> 0 <= t.nanos < NANOS_PER_SECOND,
{
    to_timestamp(parse_time(date, RELEASE_DATE_FORMAT))
}

/// A timestamp stands for the same time as the seconds and nanoseconds that it was
/// made of, and its nanoseconds are those within a second.
pub proof fn law_timestamp_keeps_the_time(seconds: i64, nanos: u32)
    requires
        seconds + nanos / NANOS_PER_SECOND <= i64::MAX,
    ensures
        timestamp_of(Some((seconds, nanos))) matches Some(t) && t.seconds * NANOS_PER_SECOND
            + t.nanos == seconds * NANOS_PER_SECOND + nanos && 0 <= t.nanos < NANOS_PER_SECOND,
{
}

/// The URL of the catalog data of a GOG product.
pub open spec fn release_url_text(id: i64) -> Seq<char> {
    EXTERNAL_RELEASES_URL@ + "/"@ + text::int_text(id as int)
}

pub fn release_url(id: i64) -> (url: String)
    ensures
        url@ == release_url_text(id),
{
    let id = text::i64_text(id);
    join3(EXTERNAL_RELEASES_URL, "/", id.as_str())
}

/// The English text goes before the one for every language.
pub proof fn law_english_goes_first(localized: Localized, shown: Option<String>)
    requires
        call_ensures(Localized::resolve, (&localized,), shown),
    ensures
        localized.en_us matches Some(t) ==> (shown matches Some(s) && s@ == t@),
        localized.en_us is None ==> (localized.default matches Some(t) ==> (shown matches Some(s)
            && s@ == t@)),
        localized.en_us is None && localized.default is None ==> shown is None,
        shown.deep_view() == localized.shown(),
{
}

/// The URL of an image in its default size: nothing for the formatter, then `jpg` for the
/// extension.
pub proof fn law_image_urls(image: Image, url: String)
    requires
        call_ensures(Image::resolve, (&image,), url),
    ensures
        url@ == text::replaced(
            text::replaced(image.url_format@, "{formatter}"@, Seq::empty()),
            "{ext}"@,
            "jpg"@,
        ),
        url@ == image.default_url(),
        !text::occurs(url@, "{ext}"@),
        !text::occurs(image.url_format@, "{formatter}"@) && !text::occurs(
            image.url_format@,
            "{ext}"@,
        ) ==> url@ == image.url_format@,
{
    law_image_url_has_its_extension(image);
    if !text::occurs(image.url_format@, "{formatter}"@) && !text::occurs(
        image.url_format@,
        "{ext}"@,
    ) {
        text::law_replacing_nothing_changes_nothing(
            image.url_format@,
            "{formatter}"@,
            Seq::empty(),
        );
        text::law_replacing_nothing_changes_nothing(image.url_format@, "{ext}"@, "jpg"@);
    }
}

/// A release date is the time that the text gives in the form of GamesDB's dates, and
/// none if it hasn't that form. The nanoseconds are those within a second.
pub proof fn law_release_dates(date: &str, timestamp: Option<Timestamp>)
    requires
        call_ensures(parse_release_date, (date,), timestamp),
        time_read(date@, "%Y-%m-%dT%H:%M:%S%z"@) matches Some(t) ==> t.0 + 4 <= i64::MAX,
    ensures
        timestamp is Some <==> time_read(date@, "%Y-%m-%dT%H:%M:%S%z"@) is Some,
        timestamp matches Some(t) ==> 0 <= t.nanos < 1_000_000_000,
        timestamp matches Some(t) ==> (time_read(date@, "%Y-%m-%dT%H:%M:%S%z"@) matches Some(read)
            ==> t.seconds * 1_000_000_000 + t.nanos == read.0 * 1_000_000_000 + read.1),
{
    if let Some(read) = time_read(date@, "%Y-%m-%dT%H:%M:%S%z"@) {
        law_timestamp_keeps_the_time(read.0, read.1);
    }
}

/// A time becomes the timestamp of that very time.
pub proof fn law_times_become_timestamps(time: Option<(i64, u32)>, timestamp: Option<Timestamp>)
    requires
        time matches Some(t) ==> t.0 + t.1 / NANOS_PER_SECOND <= i64::MAX,
        call_ensures(to_timestamp, (time,), timestamp),
    ensures
        timestamp is Some <==> time is Some,
        timestamp matches Some(t) ==> 0 <= t.nanos < 1_000_000_000,
        timestamp matches Some(t) ==> (time matches Some((seconds, nanos)) ==> t.seconds
            * 1_000_000_000 + t.nanos == seconds * 1_000_000_000 + nanos),
{
    if let Some(t) = time {
        law_timestamp_keeps_the_time(t.0, t.1);
    }
}

/// Where the catalog data of a product are.
pub proof fn law_release_urls(id: i64, url: String)
    requires
        call_ensures(release_url, (id,), url),
    ensures
        url@ == "https://gamesdb.gog.com/platforms/gog/external_releases"@ + "/"@ + text::int_text(
            id as int,
        ),
{
}

} // verus!
