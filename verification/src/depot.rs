//! GOG Galaxy's builds/depot v2 API: the URLs it is asked with, and what is made
//! of its answers.

use std::io::Read;

use vstd::prelude::*;
use vstd::string::*;
use vstd::utf8::*;

use crate::template;
use crate::text;
use crate::text::{chars_of, join2};

verus! {

pub const CONTENT_SYSTEM: &'static str = "https://content-system.gog.com";

pub const CDN: &'static str = "https://gog-cdn-fastly.gog.com";

/// Why the depot API gave no answer.
#[derive(Debug)]
pub enum Error {
    /// The request failed, or its answer was not of the expected form.
    Http(String),
    /// The answer could not be decompressed.
    Decompress(String),
    /// The decompressed answer could not be parsed.
    Parse(String),
    /// The product has no builds.
    NoBuilds,
}

impl Error {
    pub open spec fn text(self) -> Seq<char> {
        match self {
            Error::Http(err) => "HTTP request failed: "@ + err@,
            Error::Decompress(err) => "failed to decompress response: "@ + err@,
            Error::Parse(err) => "failed to parse response: "@ + err@,
            Error::NoBuilds => "no builds available for this product"@,
        }
    }

    /// The error as it is shown to a user.
    pub fn message(&self) -> (message: String)
        ensures
            message@ == self.text(),
    {
        match self {
            Error::Http(err) => join2("HTTP request failed: ", err.as_str()),
            Error::Decompress(err) => join2("failed to decompress response: ", err.as_str()),
            Error::Parse(err) => join2("failed to parse response: ", err.as_str()),
            Error::NoBuilds => "no builds available for this product".to_owned(),
        }
    }
}

/// Whether `hash` is stored under its first four bytes.
pub open spec fn is_sharded(hash: Seq<char>) -> bool {
    !hash.contains('/') && encode_utf8(hash).len() >= 4
}

/// Whether the two shards of `hash` are made of whole characters. This holds of
/// every hexadecimal hash.
pub open spec fn can_shard(hash: Seq<char>) -> bool {
    is_sharded(hash) ==> is_char_boundary(encode_utf8(hash), 2) && is_char_boundary(
        encode_utf8(hash),
        4,
    )
}

/// The path of the content with this hash: `ab12cd` is at `ab/12/ab12cd`.
pub open spec fn galaxy_text(hash: Seq<char>) -> Seq<char> {
    let bytes = encode_utf8(hash);
    if is_sharded(hash) {
        decode_utf8(bytes.subrange(0, 2)) + seq!['/'] + decode_utf8(bytes.subrange(2, 4)) + seq!['/']
            + hash
    } else {
        hash
    }
}

fn has_slash(s: &str) -> (found: bool)
    ensures
        found == s@.contains('/'),
{
    let chars = chars_of(s);
    let mut i: usize = 0;
    while i < chars.len()
        invariant
            chars@ == s@,
            i <= chars@.len(),
            forall|j: int| 0 <= j < i ==> chars@[j] != '/',
        decreases chars@.len() - i,
    {
        if chars[i] == '/' {
            assert(s@[i as int] == '/');
            return true;
        }
        i = i + 1;
    }
    false
}

/// Behind a boundary, the boundaries are those of the whole.
proof fn lemma_boundary_behind(bytes: Seq<u8>, first: int, second: int)
    requires
        valid_utf8(bytes),
        0 <= first <= second <= bytes.len(),
        is_char_boundary(bytes, first),
        is_char_boundary(bytes, second),
    ensures
        valid_utf8(bytes.subrange(first, bytes.len() as int)),
        is_char_boundary(bytes.subrange(first, bytes.len() as int), second - first),
{
    let rest = bytes.subrange(first, bytes.len() as int);
    valid_utf8_split(bytes, first);
    if second == bytes.len() {
        is_char_boundary_start_end_of_seq(rest);
    } else {
        assert(rest[second - first] == bytes[second]);
        is_char_boundary_iff_not_is_continuation_byte(bytes, second);
        is_char_boundary_iff_not_is_continuation_byte(rest, second - first);
    }
}

/// Whether `galaxy_path` can be asked for this hash.
pub fn is_shardable(hash: &str) -> (shardable: bool)
    ensures
        shardable == can_shard(hash@),
{
    if has_slash(hash) || hash.as_bytes().len() < 4 {
        true
    } else {
        hash.is_char_boundary(2) && hash.is_char_boundary(4)
    }
}

/// GOG's CDN shards content by the first 4 hex chars of its hash:
/// `ab12cd...` -> `ab/12/ab12cd...`. A hash that already is a path, or is too
/// short, stays as it is.
pub fn galaxy_path(hash: &str) -> (path: String)
    requires
        can_shard(hash@),
    ensures
        path@ == galaxy_text(hash@),
{
    if has_slash(hash) || hash.as_bytes().len() < 4 {
        hash.to_owned()
    } else {
        let ghost bytes = encode_utf8(hash@);
        proof {
            encode_utf8_valid_utf8(hash@);
            lemma_boundary_behind(bytes, 2, 4);
        }
        let (first, behind) = hash.split_at(2);
        let (second, _rest) = behind.split_at(2);
        proof {
            encode_utf8_decode_utf8(first@);
            encode_utf8_decode_utf8(second@);
            assert(encode_utf8(second@) =~= bytes.subrange(2, 4));
        }
        let mut path = String::new();
        path.append(first);
        path.push('/');
        path.append(second);
        path.push('/');
        path.append(hash);
        assert(path@ =~= galaxy_text(hash@));
        path
    }
}

/// A hash of four or more ASCII characters without a slash is sharded by its
/// first two and its next two characters.
pub proof fn law_ascii_hash_path(hash: Seq<char>)
    requires
        is_ascii_chars(hash),
        !hash.contains('/'),
        hash.len() >= 4,
    ensures
        can_shard(hash),
        galaxy_text(hash) == hash.take(2) + seq!['/'] + hash.subrange(2, 4) + seq!['/'] + hash,
{
    let bytes = encode_utf8(hash);
    is_ascii_chars_encode_utf8(hash);
    encode_utf8_valid_utf8(hash);
    assert forall|i: int| 0 <= i < bytes.len() implies is_char_boundary(bytes, i) by {
        let b = bytes[i];
        assert(b == hash[i] as u8);
        assert(b < 128);
        assert(!is_continuation_byte(b));
        is_char_boundary_iff_not_is_continuation_byte(bytes, i);
    }
    if bytes.len() == 4 {
        is_char_boundary_start_end_of_seq(bytes);
    }
    let first = hash.take(2);
    let second = hash.subrange(2, 4);
    is_ascii_chars_encode_utf8(first);
    is_ascii_chars_encode_utf8(second);
    encode_utf8_decode_utf8(first);
    encode_utf8_decode_utf8(second);
    assert(encode_utf8(first) =~= bytes.subrange(0, 2));
    assert(encode_utf8(second) =~= bytes.subrange(2, 4));
}

/// A path that was sharded is not sharded again.
pub proof fn law_sharding_twice_is_sharding_once(hash: Seq<char>)
    ensures
        can_shard(galaxy_text(hash)),
        galaxy_text(galaxy_text(hash)) == galaxy_text(hash),
{
    if is_sharded(hash) {
        let first = decode_utf8(encode_utf8(hash).subrange(0, 2));
        assert(galaxy_text(hash)[first.len() as int] == '/');
    }
}

/// What a zlib stream decompresses to, or the decoder's error text. Stands for
/// what `flate2::read::ZlibDecoder` reads from those bytes.
pub uninterp spec fn zlib_content(bytes: Seq<u8>) -> Result<Seq<u8>, Seq<char>>;

/// Reads a `flate2::read::ZlibDecoder` over `bytes` to its end. The contract
/// claims only that content and error text depend on the bytes alone; what
/// they are is left to the decoder.
#[verifier::external_body]
fn zlib_decompress(bytes: &[u8]) -> (content: Result<Vec<u8>, String>)
    ensures
        match content {
            Ok(out) => zlib_content(bytes@) == Ok::<Seq<u8>, Seq<char>>(out@),
            Err(err) => zlib_content(bytes@) == Err::<Seq<u8>, Seq<char>>(err@),
        },
{
    let mut out = Vec::new();
    match flate2::read::ZlibDecoder::new(bytes).read_to_end(&mut out) {
        Ok(_) => Ok(out),
        Err(err) => Err(err.to_string()),
    }
}

/// What a failed decompression is reported as.
pub fn inflated(content: Result<Vec<u8>, String>) -> (result: Result<Vec<u8>, Error>)
    ensures
        match content {
            Ok(out) => result == Ok::<Vec<u8>, Error>(out),
            Err(err) => result == Err::<Vec<u8>, Error>(Error::Decompress(err)),
        },
{
    match content {
        Ok(out) => Ok(out),
        Err(err) => Err(Error::Decompress(err)),
    }
}

/// The JSON text of a manifest as it came over the network: build manifests and
/// depot manifests are both zlib-compressed.
pub fn manifest_json(fetched: Result<Vec<u8>, String>) -> (json: Result<Vec<u8>, Error>)
    ensures
        match fetched {
            Err(err) => json == Err::<Vec<u8>, Error>(Error::Http(err)),
            Ok(bytes) => match zlib_content(bytes@) {
                Ok(content) => json matches Ok(out) && out@ == content,
                Err(text) => json matches Err(Error::Decompress(err)) && err@ == text,
            },
        },
{
    match fetched {
        Ok(bytes) => inflated(zlib_decompress(bytes.as_slice())),
        Err(err) => Err(Error::Http(err)),
    }
}

/// The answer to a builds request.
#[derive(Debug)]
pub struct BuildsResponse {
    pub total_count: u64,
    pub items: Vec<Build>,
}

/// One build of a product. The mainline builds have no branch.
#[derive(Debug)]
pub struct Build {
    pub build_id: String,
    pub branch: Option<String>,
    pub link: String,
}

/// The URL that lists a product's Windows builds.
pub open spec fn builds_url_text(game_id: i64) -> Seq<char> {
    CONTENT_SYSTEM@ + "/products/"@ + text::int_text(game_id as int)
        + "/os/windows/builds?generation=2"@
}

pub fn builds_url(game_id: i64) -> (url: String)
    ensures
        url@ == builds_url_text(game_id),
{
    let mut url = join2(CONTENT_SYSTEM, "/products/");
    url.append(text::i64_text(game_id).as_str());
    url.append("/os/windows/builds?generation=2");
    url
}

/// The Windows builds of a product, newest/mainline first per GOG's own
/// ordering, out of the answer to a builds request.
pub fn get_builds(fetched: Result<BuildsResponse, String>) -> (builds: Result<Vec<Build>, Error>)
    ensures
        match fetched {
            Err(err) => builds == Err::<Vec<Build>, Error>(Error::Http(err)),
            Ok(response) => if response.total_count == 0 {
                builds == Err::<Vec<Build>, Error>(Error::NoBuilds)
            } else {
                builds == Ok::<Vec<Build>, Error>(response.items)
            },
        },
{
    match fetched {
        Err(err) => Err(Error::Http(err)),
        Ok(response) => if response.total_count == 0 {
            Err(Error::NoBuilds)
        } else {
            Ok(response.items)
        },
    }
}

pub open spec fn is_mainline(build: Build) -> bool {
    build.branch is None
}

/// `build` is the first mainline build, or, without one, the first build.
pub open spec fn is_chosen_build(builds: Seq<Build>, build: Build) -> bool {
    ||| exists|i: int|
        {
            &&& 0 <= i < builds.len()
            &&& build == #[trigger] builds[i]
            &&& is_mainline(builds[i])
            &&& forall|j: int| 0 <= j < i ==> !is_mainline(#[trigger] builds[j])
        }
    ||| {
        &&& builds.len() > 0
        &&& build == builds[0]
        &&& forall|j: int| 0 <= j < builds.len() ==> !is_mainline(#[trigger] builds[j])
    }
}

/// Prefers a mainline build to one of a branch, and an earlier build to a later.
pub fn select_build(builds: &[Build]) -> (chosen: Option<&Build>)
    ensures
        match chosen {
            None => builds@.len() == 0,
            Some(build) => is_chosen_build(builds@, *build),
        },
{
    let mut i: usize = 0;
    while i < builds.len()
        invariant
            i <= builds@.len(),
            forall|j: int| 0 <= j < i ==> !is_mainline(#[trigger] builds@[j]),
        decreases builds@.len() - i,
    {
        if builds[i].branch.is_none() {
            assert(is_mainline(builds@[i as int]));
            return Some(&builds[i]);
        }
        i = i + 1;
    }
    if builds.len() == 0 {
        None
    } else {
        Some(&builds[0])
    }
}

/// What a build consists of.
#[derive(Debug)]
pub struct BuildMeta {
    /// GOG's own canonical install folder name for this game. The depot files'
    /// relative paths are flat, with no game-named prefix of their own.
    pub install_directory: String,
    pub depots: Vec<DepotMeta>,
}

/// One depot of a build.
#[derive(Debug)]
pub struct DepotMeta {
    pub os_bitness: Option<Vec<String>>,
    pub manifest: String,
}

pub open spec fn is_pc_bitness(bitness: Seq<char>) -> bool {
    bitness == "64"@ || bitness == "32"@
}

impl DepotMeta {
    /// A depot fits Windows if it names no bitness, or names 32 or 64 bits.
    pub open spec fn fits_windows(self) -> bool {
        match self.os_bitness {
            None => true,
            Some(bitness) => exists|i: int|
                0 <= i < bitness@.len() && is_pc_bitness(#[trigger] bitness@[i]@),
        }
    }

    pub fn is_windows_compatible(&self) -> (compatible: bool)
        ensures
            compatible == self.fits_windows(),
    {
        match &self.os_bitness {
            None => true,
            Some(bitness) => {
                let mut i: usize = 0;
                while i < bitness.len()
                    invariant
                        self.os_bitness == Some(*bitness),
                        i <= bitness@.len(),
                        forall|j: int| 0 <= j < i ==> !is_pc_bitness(#[trigger] bitness@[j]@),
                    decreases bitness@.len() - i,
                {
                    if bitness[i] == "64".to_owned() || bitness[i] == "32".to_owned() {
                        assert(is_pc_bitness(self.os_bitness->0@[i as int]@));
                        return true;
                    }
                    i = i + 1;
                }
                false
            },
        }
    }
}

/// `depot` is the first of the build's depots that fits Windows.
pub open spec fn is_chosen_depot(depots: Seq<DepotMeta>, depot: DepotMeta) -> bool {
    exists|i: int|
        {
            &&& 0 <= i < depots.len()
            &&& depot == #[trigger] depots[i]
            &&& depots[i].fits_windows()
            &&& forall|j: int| 0 <= j < i ==> !(#[trigger] depots[j]).fits_windows()
        }
}

/// None of the depots fits Windows.
pub open spec fn none_fits(depots: Seq<DepotMeta>) -> bool {
    forall|j: int| 0 <= j < depots.len() ==> !(#[trigger] depots[j]).fits_windows()
}

/// What a build consists of, out of its manifest's JSON text, which was parsed or
/// wasn't of the expected form.
pub fn get_build_meta(parsed: Result<BuildMeta, String>) -> (meta: Result<BuildMeta, Error>)
    ensures
        match parsed {
            Ok(read) => meta == Ok::<BuildMeta, Error>(read),
            Err(err) => meta == Err::<BuildMeta, Error>(Error::Parse(err)),
        },
{
    match parsed {
        Ok(meta) => Ok(meta),
        Err(err) => Err(Error::Parse(err)),
    }
}

/// The first depot that fits Windows.
pub fn select_depot(meta: &BuildMeta) -> (chosen: Option<&DepotMeta>)
    ensures
        match chosen {
            None => none_fits(meta.depots@),
            Some(depot) => is_chosen_depot(meta.depots@, *depot),
        },
{
    let mut i: usize = 0;
    while i < meta.depots.len()
        invariant
            i <= meta.depots@.len(),
            forall|j: int| 0 <= j < i ==> !(#[trigger] meta.depots@[j]).fits_windows(),
        decreases meta.depots@.len() - i,
    {
        if meta.depots[i].is_windows_compatible() {
            return Some(&meta.depots[i]);
        }
        i = i + 1;
    }
    None
}

/// A depot's manifest.
#[derive(Debug)]
pub struct DepotManifestRoot {
    pub depot: DepotManifestBody,
}

#[derive(Debug)]
pub struct DepotManifestBody {
    pub items: Vec<DepotItem>,
}

/// An item of a depot's manifest. Only files matter here.
#[derive(Debug)]
pub enum DepotItem {
    DepotFile(DepotFile),
    Other,
}

/// A file of a depot, and the chunks that make it up.
#[derive(Debug)]
pub struct DepotFile {
    pub path: String,
    pub chunks: Vec<DepotChunk>,
}

/// A chunk of a file: the hashes of its content and of its compressed form, and
/// the size of its content.
#[derive(Debug)]
pub struct DepotChunk {
    pub md5: String,
    pub compressed_md5: String,
    pub size: u64,
}

/// The URL of the depot manifest with this hash.
pub open spec fn depot_manifest_url_text(manifest_hash: Seq<char>) -> Seq<char> {
    CDN@ + "/content-system/v2/meta/"@ + galaxy_text(manifest_hash)
}

pub fn depot_manifest_url(manifest_hash: &str) -> (url: String)
    requires
        can_shard(manifest_hash@),
    ensures
        url@ == depot_manifest_url_text(manifest_hash@),
{
    let mut url = join2(CDN, "/content-system/v2/meta/");
    url.append(galaxy_path(manifest_hash).as_str());
    url
}

/// The files among the items, in their order.
pub open spec fn files_among(items: Seq<DepotItem>) -> Seq<DepotFile>
    decreases items.len(),
{
    if items.len() == 0 {
        Seq::empty()
    } else {
        match items.last() {
            DepotItem::DepotFile(file) => files_among(items.drop_last()).push(file),
            DepotItem::Other => files_among(items.drop_last()),
        }
    }
}

/// The files that a depot's manifest lists, out of its JSON text, which was parsed
/// or wasn't of the expected form.
pub fn get_depot_files(parsed: Result<DepotManifestRoot, String>) -> (files: Result<
    Vec<DepotFile>,
    Error,
>)
    ensures
        match parsed {
            Ok(root) => files matches Ok(list) && list@ == files_among(root.depot.items@),
            Err(err) => files == Err::<Vec<DepotFile>, Error>(Error::Parse(err)),
        },
{
    match parsed {
        Err(err) => Err(Error::Parse(err)),
        Ok(root) => {
            let mut files: Vec<DepotFile> = Vec::new();
            let ghost items = root.depot.items@;
            assert(items.take(0) =~= Seq::empty());
            for item in it: root.depot.items
                invariant
                    it.seq() == items,
                    files@ == files_among(items.take(it.index() as int)),
            {
                proof {
                    let longer = items.take(it.index() + 1);
                    assert(longer.drop_last() =~= items.take(it.index() as int));
                    assert(longer.last() == item);
                }
                match item {
                    DepotItem::DepotFile(file) => {
                        files.push(file);
                    },
                    DepotItem::Other => {},
                }
            }
            assert(items.take(items.len() as int) =~= items);
            Ok(files)
        },
    }
}

/// A parameter's JSON value, as far as a template can show it: what it is as a
/// string, as a signed and as an unsigned 64-bit number.
#[derive(Debug)]
pub struct ParamValue {
    pub text: Option<String>,
    pub signed: Option<i64>,
    pub unsigned: Option<u64>,
}

/// The content of a `ParamValue`.
pub struct ParamValueView {
    pub text: Option<Seq<char>>,
    pub signed: Option<i64>,
    pub unsigned: Option<u64>,
}

impl ParamValueView {
    /// The text that takes the place of the parameter's slot: a string as it is,
    /// a whole number in decimal. Anything else has no text.
    pub open spec fn shown(self) -> Option<Seq<char>> {
        match (self.text, self.signed, self.unsigned) {
            (Some(text), _, _) => Some(text),
            (None, Some(n), _) => Some(text::int_text(n as int)),
            (None, None, Some(n)) => Some(text::int_text(n as int)),
            (None, None, None) => None,
        }
    }
}

impl View for ParamValue {
    type V = ParamValueView;

    open spec fn view(&self) -> ParamValueView {
        ParamValueView {
            text: self.text.deep_view(),
            signed: self.signed,
            unsigned: self.unsigned,
        }
    }
}

impl ParamValue {
    /// A string value.
    pub fn string(text: String) -> (value: ParamValue)
        ensures
            value@ == string_value(text@),
    {
        ParamValue { text: Some(text), signed: None, unsigned: None }
    }

    /// The text that takes the place of the parameter's slot.
    pub fn substitution(&self) -> (shown: Option<String>)
        ensures
            shown.deep_view() == self@.shown(),
    {
        match &self.text {
            Some(text) => Some(text.clone()),
            None => match self.signed {
                Some(n) => Some(text::i64_text(n)),
                None => match self.unsigned {
                    Some(n) => Some(text::u64_text(n)),
                    None => None,
                },
            },
        }
    }

}

impl Clone for ParamValue {
    fn clone(&self) -> (copy: ParamValue)
        ensures
            copy@ == self@,
    {
        let text = match &self.text {
            Some(text) => Some(text.clone()),
            None => None,
        };
        ParamValue { text, signed: self.signed, unsigned: self.unsigned }
    }
}

pub open spec fn string_value(text: Seq<char>) -> ParamValueView {
    ParamValueView { text: Some(text), signed: None, unsigned: None }
}

/// The content of `Parameters`: keys and values, each key once.
pub type ParametersView = Seq<(Seq<char>, ParamValueView)>;

/// `key` is among the keys.
pub open spec fn has_key(params: ParametersView, key: Seq<char>) -> bool {
    exists|i: int| 0 <= i < params.len() && (#[trigger] params[i]).0 == key
}

/// Where `key` stands among the keys.
pub open spec fn key_index(params: ParametersView, key: Seq<char>) -> int {
    choose|i: int| 0 <= i < params.len() && (#[trigger] params[i]).0 == key
}

pub open spec fn each_key_once(params: ParametersView) -> bool {
    forall|i: int, j: int|
        0 <= i < j < params.len() ==> (#[trigger] params[i]).0 != (#[trigger] params[j]).0
}

/// The parameters after `key` was given `value`: in its old place, or at the end.
pub open spec fn with_value(
    params: ParametersView,
    key: Seq<char>,
    value: ParamValueView,
) -> ParametersView {
    if has_key(params, key) {
        params.update(key_index(params, key), (key, value))
    } else {
        params.push((key, value))
    }
}

/// The parameters of an endpoint's URL template.
#[derive(Debug)]
pub struct Parameters {
    entries: Vec<(String, ParamValue)>,
}

impl View for Parameters {
    type V = ParametersView;

    closed spec fn view(&self) -> ParametersView {
        self.entries@.map_values(|entry: (String, ParamValue)| (entry.0@, entry.1@))
    }
}

impl Parameters {
    /// Each key stands in the list once.
    #[verifier::type_invariant]
    spec fn keys_are_distinct(self) -> bool {
        each_key_once(self@)
    }

    pub fn new() -> (params: Parameters)
        ensures
            params@ == Seq::<(Seq<char>, ParamValueView)>::empty(),
    {
        let entries: Vec<(String, ParamValue)> = Vec::new();
        assert((Parameters { entries })@ =~= Seq::empty());
        Parameters { entries }
    }

    fn find(&self, key: &str) -> (found: Option<usize>)
        ensures
            match found {
                Some(i) => has_key(self@, key@) && i == key_index(self@, key@) && i
                    < self.entries@.len(),
                None => !has_key(self@, key@),
            },
    {
        proof {
            use_type_invariant(self);
        }
        let wanted = key.to_owned();
        let mut i: usize = 0;
        while i < self.entries.len()
            invariant
                each_key_once(self@),
                wanted@ == key@,
                i <= self.entries@.len(),
                self@.len() == self.entries@.len(),
                forall|j: int| 0 <= j < i ==> (#[trigger] self@[j]).0 != key@,
            decreases self.entries@.len() - i,
        {
            assert(self@[i as int].0 == self.entries@[i as int].0@);
            if self.entries[i].0 == wanted {
                proof {
                    let k = key_index(self@, key@);
                    assert(self@[k].0 == key@);
                    if k < i {
                    } else if i < k {
                        assert(self@[i as int].0 != self@[k].0);
                    }
                }
                return Some(i);
            }
            i = i + 1;
        }
        None
    }

    /// What the value of `key` is as a string.
    pub fn get_text(&self, key: &str) -> (text: Option<String>)
        ensures
            text.deep_view() == text_at(self@, key@),
    {
        match self.find(key) {
            Some(i) => {
                assert(self@[i as int].1 == self.entries@[i as int].1@);
                match &self.entries[i].1.text {
                    Some(text) => Some(text.clone()),
                    None => None,
                }
            },
            None => None,
        }
    }

    /// Gives `key` a value, in place of the one that it may have.
    pub fn insert(&mut self, key: String, value: ParamValue)
        ensures
            final(self)@ == with_value(old(self)@, key@, value@),
    {
        let ghost before = self@;
        let ghost entry = (key@, value@);
        proof {
            use_type_invariant(&*self);
            lemma_with_value(before, key@, value@);
        }
        let found = self.find(key.as_str());
        let mut entries: Vec<(String, ParamValue)> = Vec::new();
        assert((Parameters { entries })@ =~= Seq::empty());
        std::mem::swap(&mut entries, &mut self.entries);
        match found {
            Some(i) => {
                entries.set(i, (key, value));
                assert((Parameters { entries })@ =~= before.update(i as int, entry));
            },
            None => {
                entries.push((key, value));
                assert((Parameters { entries })@ =~= before.push(entry));
            },
        }
        self.entries = entries;
    }

    /// Fills the slots of `template` that the parameters have a text for.
    pub fn substitute(&self, template: &str) -> (url: String)
        ensures
            url@ == template::substituted(template@, bindings_of(self@)),
    {
        let mut url = template.to_owned();
        let mut i: usize = 0;
        let ghost bindings = bindings_of(self@);
        assert(bindings.take(0) =~= Seq::empty());
        while i < self.entries.len()
            invariant
                i <= self.entries@.len(),
                bindings == bindings_of(self@),
                bindings.len() == self.entries@.len(),
                url@ == template::substituted(template@, bindings.take(i as int)),
            decreases self.entries@.len() - i,
        {
            let key = &self.entries[i].0;
            let shown = self.entries[i].1.substitution();
            proof {
                let longer = bindings.take(i + 1);
                assert(longer.drop_last() =~= bindings.take(i as int));
                assert(longer.last() == (key@, shown.deep_view()));
            }
            if let Some(value) = shown {
                let mut slot = String::new();
                slot.push('{');
                slot.append(key.as_str());
                slot.push('}');
                assert(slot@ =~= template::slot(key@));
                url = text::replace_all(url.as_str(), slot.as_str(), value.as_str());
            }
            i = i + 1;
        }
        assert(bindings.take(i as int) =~= bindings);
        url
    }
}

impl Clone for Parameters {
    fn clone(&self) -> (copy: Parameters)
        ensures
            copy@ == self@,
    {
        let mut entries: Vec<(String, ParamValue)> = Vec::new();
        let mut i: usize = 0;
        while i < self.entries.len()
            invariant
                i <= self.entries@.len(),
                entries@.len() == i,
                forall|j: int|
                    0 <= j < i ==> (#[trigger] entries@[j]).0@ == self.entries@[j].0@
                        && entries@[j].1@ == self.entries@[j].1@,
            decreases self.entries@.len() - i,
        {
            entries.push((self.entries[i].0.clone(), self.entries[i].1.clone()));
            i = i + 1;
        }
        proof {
            use_type_invariant(self);
            assert((Parameters { entries })@ =~= self@);
        }
        let copy = Parameters { entries };
        copy
    }
}

pub open spec fn text_at(params: ParametersView, key: Seq<char>) -> Option<Seq<char>> {
    if has_key(params, key) {
        params[key_index(params, key)].1.text
    } else {
        None
    }
}

/// The parameters as the template's substitution sees them.
pub open spec fn bindings_of(params: ParametersView) -> Seq<template::Binding> {
    params.map_values(|param: (Seq<char>, ParamValueView)| (param.0, param.1.shown()))
}

/// The answer to a secure link request.
#[derive(Debug)]
pub struct SecureLinkResponse {
    pub urls: Vec<SecureLinkEntry>,
}

/// A CDN endpoint: a URL template, or a plain URL, and the parameters for it.
#[derive(Debug)]
pub struct SecureLinkEntry {
    pub url: Option<String>,
    pub url_format: Option<String>,
    pub parameters: Parameters,
}

/// The content of a `SecureLinkEntry`.
pub struct SecureLinkEntryView {
    pub url: Option<Seq<char>>,
    pub url_format: Option<Seq<char>>,
    pub parameters: ParametersView,
}

impl View for SecureLinkEntry {
    type V = SecureLinkEntryView;

    open spec fn view(&self) -> SecureLinkEntryView {
        SecureLinkEntryView {
            url: self.url.deep_view(),
            url_format: self.url_format.deep_view(),
            parameters: self.parameters@,
        }
    }
}

impl DeepView for SecureLinkEntry {
    type V = SecureLinkEntryView;

    open spec fn deep_view(&self) -> SecureLinkEntryView {
        self@
    }
}

impl Clone for SecureLinkEntry {
    fn clone(&self) -> (copy: SecureLinkEntry)
        ensures
            copy@ == self@,
    {
        let url = match &self.url {
            Some(url) => Some(url.clone()),
            None => None,
        };
        let url_format = match &self.url_format {
            Some(template) => Some(template.clone()),
            None => None,
        };
        SecureLinkEntry { url, url_format, parameters: self.parameters.clone() }
    }
}

impl SecureLinkEntryView {
    /// The URL template, if the endpoint has one.
    pub open spec fn template(self) -> Option<Seq<char>> {
        match self.url_format {
            Some(template) => Some(template),
            None => self.url,
        }
    }
}

/// The URL that asks for the CDN endpoints of a product's content under `path`.
pub open spec fn secure_link_url_text(game_id: i64, path: Seq<char>) -> Seq<char> {
    CONTENT_SYSTEM@ + "/products/"@ + text::int_text(game_id as int)
        + "/secure_link?_version=2&generation=2&path="@ + path
}

pub fn secure_link_url(game_id: i64, path: &str) -> (url: String)
    ensures
        url@ == secure_link_url_text(game_id, path@),
{
    let mut url = join2(CONTENT_SYSTEM, "/products/");
    url.append(text::i64_text(game_id).as_str());
    url.append("/secure_link?_version=2&generation=2&path=");
    url.append(path);
    url
}

/// The CDN endpoints out of the answer to a secure link request.
pub fn get_secure_link(fetched: Result<SecureLinkResponse, String>) -> (entries: Result<
    Vec<SecureLinkEntry>,
    Error,
>)
    ensures
        match fetched {
            Ok(response) => entries == Ok::<Vec<SecureLinkEntry>, Error>(response.urls),
            Err(err) => entries == Err::<Vec<SecureLinkEntry>, Error>(Error::Http(err)),
        },
{
    match fetched {
        Ok(response) => Ok(response.urls),
        Err(err) => Err(Error::Http(err)),
    }
}

/// The endpoint's base path.
pub open spec fn base_path(params: ParametersView) -> Seq<char> {
    match text_at(params, "path"@) {
        Some(path) => path,
        None => Seq::empty(),
    }
}

/// The parameters for a chunk: its sharded hash is appended to the base path.
pub open spec fn chunk_parameters(
    params: ParametersView,
    compressed_md5: Seq<char>,
) -> ParametersView {
    with_value(
        params,
        "path"@,
        string_value(base_path(params) + seq!['/'] + galaxy_text(compressed_md5)),
    )
}

/// The URL of a chunk at this endpoint, if the endpoint has a template.
pub open spec fn chunk_url(entry: SecureLinkEntryView, compressed_md5: Seq<char>) -> Option<
    Seq<char>,
> {
    match entry.template() {
        Some(template) => Some(
            template::substituted(
                template,
                bindings_of(chunk_parameters(entry.parameters, compressed_md5)),
            ),
        ),
        None => None,
    }
}

/// Builds the final downloadable URL for one chunk: append the chunk's
/// compressed-bytes hash (galaxy-sharded) onto the endpoint's base path, then
/// substitute the resulting parameters into its `{placeholder}` URL template.
pub fn build_chunk_url(entry: &SecureLinkEntry, compressed_md5: &str) -> (url: Option<String>)
    requires
        entry@.template() is Some ==> can_shard(compressed_md5@),
    ensures
        url.deep_view() == chunk_url(entry@, compressed_md5@),
        each_key_once(entry@.parameters),
{
    proof {
        use_type_invariant(&entry.parameters);
    }
    let template: &String = match &entry.url_format {
        Some(template) => template,
        None => match &entry.url {
            Some(url) => url,
            None => {
                return None;
            },
        },
    };
    let mut path = match entry.parameters.get_text("path") {
        Some(path) => path,
        None => String::new(),
    };
    path.push('/');
    path.append(galaxy_path(compressed_md5).as_str());
    let mut parameters = entry.parameters.clone();
    assert(path@ =~= base_path(entry@.parameters) + seq!['/'] + galaxy_text(compressed_md5@));
    parameters.insert("path".to_owned(), ParamValue::string(path));
    Some(parameters.substitute(template.as_str()))
}

proof fn lemma_key_index(params: ParametersView, key: Seq<char>, i: int)
    requires
        each_key_once(params),
        0 <= i < params.len(),
        params[i].0 == key,
    ensures
        has_key(params, key),
        key_index(params, key) == i,
{
    let k = key_index(params, key);
    assert(params[k].0 == key);
    if i < k {
        assert(params[i].0 != params[k].0);
    } else if k < i {
        assert(params[k].0 != params[i].0);
    }
}

proof fn lemma_with_value(params: ParametersView, key: Seq<char>, value: ParamValueView)
    requires
        each_key_once(params),
    ensures
        each_key_once(with_value(params, key, value)),
        forall|p: (Seq<char>, ParamValueView)|
            #[trigger] with_value(params, key, value).contains(p) <==> p == (key, value) || (p.0
                != key && params.contains(p)),
{
    let after = with_value(params, key, value);
    let at = if has_key(params, key) {
        key_index(params, key)
    } else {
        params.len() as int
    };
    assert(after[at] == (key, value));
    assert forall|i: int| 0 <= i < after.len() && i != at implies #[trigger] after[i] == params[i]
        && params[i].0 != key by {
        if params[i].0 == key {
            lemma_key_index(params, key, i);
        }
    }
    assert forall|i: int, j: int| 0 <= i < j < after.len() implies (#[trigger] after[i]).0 != (
    #[trigger] after[j]).0 by {
        if i != at && j != at {
            assert(params[i].0 != params[j].0);
        }
    }
    assert forall|p: (Seq<char>, ParamValueView)| #[trigger] after.contains(p) <==> p == (key, value)
        || (p.0 != key && params.contains(p)) by {
        if after.contains(p) {
            let i = choose|i: int| 0 <= i < after.len() && after[i] == p;
            if i != at {
                assert(params[i] == p);
            }
        }
        if p.0 != key && params.contains(p) {
            let i = choose|i: int| 0 <= i < params.len() && params[i] == p;
            if i == at {
                lemma_key_index(params, params[i].0, i);
            }
            assert(i != at);
            assert(after[i] == p);
        }
    }
}

proof fn lemma_bindings_of(params: ParametersView)
    requires
        each_key_once(params),
    ensures
        template::distinct_keys(bindings_of(params)),
        forall|b: template::Binding| #[trigger]
            bindings_of(params).contains(b) <==> exists|p: (Seq<char>, ParamValueView)| #[trigger]
                params.contains(p) && b == (p.0, p.1.shown()),
{
    let bindings = bindings_of(params);
    assert forall|i: int, j: int| 0 <= i < j < bindings.len() implies (#[trigger] bindings[i]).0 != (
    #[trigger] bindings[j]).0 by {
        assert(params[i].0 != params[j].0);
    }
    assert forall|b: template::Binding| #[trigger]
        bindings.contains(b) <==> exists|p: (Seq<char>, ParamValueView)| #[trigger] params.contains(p)
            && b == (p.0, p.1.shown()) by {
        if bindings.contains(b) {
            let i = choose|i: int| 0 <= i < bindings.len() && bindings[i] == b;
            assert(params.contains(params[i]));
        }
        if exists|p: (Seq<char>, ParamValueView)| #[trigger] params.contains(p) && b == (
            p.0,
            p.1.shown(),
        ) {
            let p = choose|p: (Seq<char>, ParamValueView)| #[trigger] params.contains(p) && b == (
                p.0,
                p.1.shown(),
            );
            let i = choose|i: int| 0 <= i < params.len() && params[i] == p;
            assert(bindings[i] == b);
        }
    }
}

/// Where no slot stands in an endpoint's template by chance, a chunk's URL is the
/// template with each slot filled in: `{path}` with the base path, a slash and the
/// chunk's sharded hash, every other slot with the value of its parameter. Stray braces
/// stay.
pub proof fn law_chunk_url_fills_slots(
    entry: SecureLinkEntryView,
    pieces: Seq<template::Piece>,
    compressed_md5: Seq<char>,
)
    requires
        each_key_once(entry.parameters),
        entry.template() == Some(template::source_of(pieces)),
        template::stays_clear(
            pieces,
            bindings_of(chunk_parameters(entry.parameters, compressed_md5)),
        ),
    ensures
        ({
            let bindings = bindings_of(chunk_parameters(entry.parameters, compressed_md5));
            &&& chunk_url(entry, compressed_md5) == Some(
                template::source_of(template::all_filled(pieces, bindings)),
            )
            &&& template::bound_text(bindings, "path"@) == Some(
                base_path(entry.parameters) + seq!['/'] + galaxy_text(compressed_md5),
            )
            &&& forall|i: int|
                0 <= i < entry.parameters.len() && (#[trigger] entry.parameters[i]).0 != "path"@
                    ==> template::bound_text(bindings, entry.parameters[i].0)
                    == entry.parameters[i].1.shown()
        }),
{
    let params = entry.parameters;
    let path = base_path(params) + seq!['/'] + galaxy_text(compressed_md5);
    let after = chunk_parameters(params, compressed_md5);
    let bindings = bindings_of(after);
    lemma_with_value(params, "path"@, string_value(path));
    lemma_bindings_of(after);
    template::law_substitution_fills_slots(pieces, bindings);
    assert(after.contains(("path"@, string_value(path))));
    assert(bindings.contains(("path"@, Some(path))));
    template::lemma_bound_text_unique(bindings, "path"@, path);
    assert forall|i: int| 0 <= i < params.len() && (#[trigger] params[i]).0 != "path"@ implies
        template::bound_text(bindings, params[i].0) == params[i].1.shown() by {
        let p = params[i];
        assert(params.contains(p));
        assert(after.contains(p));
        assert(bindings.contains((p.0, p.1.shown())));
        match p.1.shown() {
            Some(value) => {
                template::lemma_bound_text_unique(bindings, p.0, value);
            },
            None => {
                assert forall|v: Seq<char>| !(#[trigger] bindings.contains((p.0, Some(v)))) by {
                    if bindings.contains((p.0, Some(v))) {
                        let j = choose|j: int| 0 <= j < bindings.len() && bindings[j] == (p.0, Some(v));
                        let k = choose|k: int| 0 <= k < bindings.len() && bindings[k] == (p.0, p.1.shown());
                        if j < k {
                            assert(bindings[j].0 != bindings[k].0);
                        } else if k < j {
                            assert(bindings[k].0 != bindings[j].0);
                        }
                    }
                }
            },
        }
    }
}

/// Where no slot stands in an endpoint's template by chance, in the one order of its
/// parameters or in the other, the order makes no difference to a chunk's URL.
pub proof fn law_chunk_url_parameter_order(
    first: SecureLinkEntryView,
    second: SecureLinkEntryView,
    pieces: Seq<template::Piece>,
    compressed_md5: Seq<char>,
)
    requires
        each_key_once(first.parameters),
        each_key_once(second.parameters),
        forall|p: (Seq<char>, ParamValueView)| #[trigger]
            first.parameters.contains(p) <==> second.parameters.contains(p),
        first.template() == Some(template::source_of(pieces)),
        second.template() == first.template(),
        template::stays_clear(
            pieces,
            bindings_of(chunk_parameters(first.parameters, compressed_md5)),
        ),
        template::stays_clear(
            pieces,
            bindings_of(chunk_parameters(second.parameters, compressed_md5)),
        ),
    ensures
        chunk_url(first, compressed_md5) == chunk_url(second, compressed_md5),
{
    let a = first.parameters;
    let b = second.parameters;
    assert(text_at(a, "path"@) == text_at(b, "path"@)) by {
        if has_key(a, "path"@) {
            let p = a[key_index(a, "path"@)];
            assert(a.contains(p));
            assert(b.contains(p));
            let j = choose|j: int| 0 <= j < b.len() && b[j] == p;
            lemma_key_index(b, "path"@, j);
        } else if has_key(b, "path"@) {
            let p = b[key_index(b, "path"@)];
            assert(b.contains(p));
            assert(a.contains(p));
            let j = choose|j: int| 0 <= j < a.len() && a[j] == p;
            lemma_key_index(a, "path"@, j);
        }
    }
    let path = string_value(base_path(a) + seq!['/'] + galaxy_text(compressed_md5));
    lemma_with_value(a, "path"@, path);
    lemma_with_value(b, "path"@, path);
    let after_a = chunk_parameters(a, compressed_md5);
    let after_b = chunk_parameters(b, compressed_md5);
    lemma_bindings_of(after_a);
    lemma_bindings_of(after_b);
    assert forall|p: (Seq<char>, ParamValueView)| #[trigger] after_a.contains(p) <==> after_b.contains(p) by {
        assert(a.contains(p) <==> b.contains(p));
    }
    assert forall|x: template::Binding| #[trigger] bindings_of(after_a).contains(x) <==> bindings_of(
        after_b,
    ).contains(x) by {
        if bindings_of(after_a).contains(x) {
            let p = choose|p: (Seq<char>, ParamValueView)| #[trigger] after_a.contains(p) && x == (
                p.0,
                p.1.shown(),
            );
            assert(after_b.contains(p));
        }
        if bindings_of(after_b).contains(x) {
            let p = choose|p: (Seq<char>, ParamValueView)| #[trigger] after_b.contains(p) && x == (
                p.0,
                p.1.shown(),
            );
            assert(after_a.contains(p));
        }
    }
    template::law_substitution_order(pieces, bindings_of(after_a), bindings_of(after_b));
}

/// An error says what failed, and ends with what the failing side said.
pub proof fn law_error_messages(err: Error, message: String)
    requires
        call_ensures(Error::message, (&err,), message),
    ensures
        err matches Error::Http(cause) ==> message@ == "HTTP request failed: "@ + cause@,
        err matches Error::Decompress(cause) ==> message@ == "failed to decompress response: "@
            + cause@,
        err matches Error::Parse(cause) ==> message@ == "failed to parse response: "@ + cause@,
        err is NoBuilds ==> message@ == "no builds available for this product"@,
{
}

/// A hash that is a path already, or has less than four bytes, stays as it is. Any other
/// is put behind its first two and its next two bytes, with slashes between.
pub proof fn law_path_is_the_hash_behind_its_shards(hash: &str, path: String)
    requires
        can_shard(hash@),
        call_ensures(galaxy_path, (hash,), path),
    ensures
        hash@.contains('/') || encode_utf8(hash@).len() < 4 ==> path@ == hash@,
        !hash@.contains('/') && encode_utf8(hash@).len() >= 4 ==> exists|first: Seq<char>, second: Seq<char>|
            {
                &&& path@ == #[trigger] (first + seq!['/'] + second + seq!['/'] + hash@)
                &&& encode_utf8(first) == encode_utf8(hash@).subrange(0, 2)
                &&& encode_utf8(second) == encode_utf8(hash@).subrange(2, 4)
            },
        path@.len() >= hash@.len(),
        path@.skip(path@.len() - hash@.len()) == hash@,
        path@ == hash@ <==> hash@.contains('/') || encode_utf8(hash@).len() < 4,
{
    let bytes = encode_utf8(hash@);
    if hash@.contains('/') || bytes.len() < 4 {
        assert(path@.skip(0) =~= hash@);
    } else {
        encode_utf8_valid_utf8(hash@);
        let first = decode_utf8(bytes.subrange(0, 2));
        let second = decode_utf8(bytes.subrange(2, 4));
        valid_utf8_split(bytes, 4);
        let front = bytes.subrange(0, 4);
        if bytes.len() > 4 {
            is_char_boundary_iff_not_is_continuation_byte(bytes, 2);
        } else {
            is_char_boundary_iff_not_is_continuation_byte(bytes, 2);
        }
        assert(front[2] == bytes[2]);
        is_char_boundary_iff_not_is_continuation_byte(front, 2);
        valid_utf8_split(front, 2);
        assert(front.subrange(0, 2) =~= bytes.subrange(0, 2));
        assert(front.subrange(2, 4) =~= bytes.subrange(2, 4));
        decode_utf8_encode_utf8(bytes.subrange(0, 2));
        decode_utf8_encode_utf8(bytes.subrange(2, 4));
        assert(path@ == first + seq!['/'] + second + seq!['/'] + hash@);
        assert(path@.skip(path@.len() - hash@.len()) =~= hash@);
    }
}

/// A path can be asked for exactly if it isn't sharded, or if both shards end between
/// two characters.
pub proof fn law_shardable_hashes(hash: &str, shardable: bool)
    requires
        call_ensures(is_shardable, (hash,), shardable),
    ensures
        shardable <==> hash@.contains('/') || encode_utf8(hash@).len() < 4 || (is_char_boundary(
            encode_utf8(hash@),
            2,
        ) && is_char_boundary(encode_utf8(hash@), 4)),
        shardable <==> can_shard(hash@),
{
}

/// The URLs of the depot API: where it is, and where in them the arguments stand.
pub proof fn law_urls_of_the_depot_api(
    game_id: i64,
    path: &str,
    manifest_hash: &str,
    builds: String,
    links: String,
    manifest: String,
)
    requires
        can_shard(manifest_hash@),
        call_ensures(builds_url, (game_id,), builds),
        call_ensures(secure_link_url, (game_id, path), links),
        call_ensures(depot_manifest_url, (manifest_hash,), manifest),
    ensures
        builds@ == "https://content-system.gog.com"@ + "/products/"@ + text::int_text(
            game_id as int,
        ) + "/os/windows/builds?generation=2"@,
        links@ == "https://content-system.gog.com"@ + "/products/"@ + text::int_text(game_id as int)
            + "/secure_link?_version=2&generation=2&path="@ + path@,
        manifest@ == "https://gog-cdn-fastly.gog.com"@ + "/content-system/v2/meta/"@ + galaxy_text(
            manifest_hash@,
        ),
{
}

/// What a manifest that came over the network is taken for: what its bytes decompress
/// to, or the failure of the side that failed.
pub proof fn law_manifests_are_decompressed(
    fetched: Result<Vec<u8>, String>,
    json: Result<Vec<u8>, Error>,
)
    requires
        call_ensures(manifest_json, (fetched,), json),
    ensures
        fetched matches Err(err) ==> json == Err::<Vec<u8>, Error>(Error::Http(err)),
        fetched matches Ok(bytes) ==> (json is Ok <==> zlib_content(bytes@) is Ok),
        fetched matches Ok(bytes) ==> (json matches Ok(out) ==> zlib_content(bytes@) == Ok::<
            Seq<u8>,
            Seq<char>,
        >(out@)),
        fetched matches Ok(bytes) ==> (json matches Err(err) ==> err is Decompress && zlib_content(
            bytes@,
        ) == Err::<Seq<u8>, Seq<char>>(err->Decompress_0@)),
{
}

/// The answers of the depot API that are lists: all of the list, unless the request
/// failed or GOG says that there are no builds.
pub proof fn law_lists_are_handed_on(
    builds: Result<BuildsResponse, String>,
    got_builds: Result<Vec<Build>, Error>,
    links: Result<SecureLinkResponse, String>,
    got_links: Result<Vec<SecureLinkEntry>, Error>,
    meta: Result<BuildMeta, String>,
    got_meta: Result<BuildMeta, Error>,
)
    requires
        call_ensures(get_builds, (builds,), got_builds),
        call_ensures(get_secure_link, (links,), got_links),
        call_ensures(get_build_meta, (meta,), got_meta),
    ensures
        builds matches Ok(response) ==> (got_builds is Ok <==> response.total_count != 0),
        builds matches Ok(response) ==> (got_builds matches Ok(list) ==> list == response.items),
        builds matches Ok(response) ==> (got_builds matches Err(err) ==> err is NoBuilds),
        builds matches Err(cause) ==> got_builds == Err::<Vec<Build>, Error>(Error::Http(cause)),
        links matches Ok(response) ==> got_links == Ok::<Vec<SecureLinkEntry>, Error>(
            response.urls,
        ),
        links matches Err(cause) ==> got_links == Err::<Vec<SecureLinkEntry>, Error>(
            Error::Http(cause),
        ),
        meta matches Ok(read) ==> got_meta == Ok::<BuildMeta, Error>(read),
        meta matches Err(cause) ==> got_meta == Err::<BuildMeta, Error>(Error::Parse(cause)),
{
}

/// A build is chosen exactly if there is one, and it is one of the list. A build of the
/// main line has none of its kind before it; a build of a branch is chosen only if all
/// are of branches, and is then the first. So the first build of the list is chosen
/// whenever it is of the main line.
pub proof fn law_newest_mainline_build_is_chosen(builds: &[Build], chosen: Option<&Build>)
    requires
        call_ensures(select_build, (builds,), chosen),
    ensures
        chosen is Some <==> builds@.len() > 0,
        chosen matches Some(build) ==> exists|i: int|
            0 <= i < builds@.len() && *build == #[trigger] builds@[i] && (forall|j: int|
                0 <= j < i ==> (#[trigger] builds@[j]).branch is Some),
        chosen matches Some(build) ==> (build.branch is Some ==> *build == builds@[0] && (forall|
            j: int,
        |
            0 <= j < builds@.len() ==> (#[trigger] builds@[j]).branch is Some)),
        builds@.len() > 0 && builds@[0].branch is None ==> chosen == Some(&builds@[0]),
{
}

/// The choice doesn't depend on what stands behind the first build of the main line.
pub proof fn law_older_builds_do_not_matter(
    builds: &[Build],
    more: &[Build],
    first: int,
    chosen: Option<&Build>,
    again: Option<&Build>,
)
    requires
        0 <= first < builds@.len(),
        builds@[first].branch is None,
        forall|j: int| 0 <= j < first ==> (#[trigger] builds@[j]).branch is Some,
        first < more@.len(),
        more@.take(first + 1) == builds@.take(first + 1),
        call_ensures(select_build, (builds,), chosen),
        call_ensures(select_build, (more,), again),
    ensures
        chosen == Some(&builds@[first]),
        again == Some(&builds@[first]),
{
    assert(builds@.take(first + 1)[first] == builds@[first]);
    assert(more@.take(first + 1)[first] == more@[first]);
    assert forall|j: int| 0 <= j < first implies (#[trigger] more@[j]).branch is Some by {
        assert(more@.take(first + 1)[j] == more@[j]);
        assert(builds@.take(first + 1)[j] == builds@[j]);
    }
    assert(is_mainline(builds@[first]));
    assert(is_mainline(more@[first]));
    assert forall|k: int| 0 <= k < builds@.len() && is_mainline(#[trigger] builds@[k]) implies first
        <= k by {}
    assert forall|k: int| 0 <= k < more@.len() && is_mainline(#[trigger] more@[k]) implies first
        <= k by {}
}

/// A depot is for Windows unless it names bitnesses and none of them is 32 or 64.
pub proof fn law_windows_depots(depot: DepotMeta, compatible: bool)
    requires
        call_ensures(DepotMeta::is_windows_compatible, (&depot,), compatible),
    ensures
        depot.os_bitness is None ==> compatible,
        depot.os_bitness matches Some(list) ==> (compatible <==> exists|i: int|
            0 <= i < list@.len() && ((#[trigger] list@[i])@ == "64"@ || list@[i]@ == "32"@)),
{
    if let Some(list) = depot.os_bitness {
        if compatible {
            let i = choose|i: int|
                0 <= i < list@.len() && is_pc_bitness(#[trigger] list@[i]@);
            assert(list@[i]@ == "64"@ || list@[i]@ == "32"@);
        }
        if exists|i: int|
            0 <= i < list@.len() && ((#[trigger] list@[i])@ == "64"@ || list@[i]@ == "32"@) {
            let i = choose|i: int|
                0 <= i < list@.len() && ((#[trigger] list@[i])@ == "64"@ || list@[i]@ == "32"@);
            assert(is_pc_bitness(list@[i]@));
        }
    }
}

/// The depot names bitnesses, and neither 32 nor 64 is among them.
pub open spec fn names_no_pc_bitness(depot: DepotMeta) -> bool {
    depot.os_bitness matches Some(list) && forall|i: int|
        0 <= i < list@.len() ==> (#[trigger] list@[i])@ != "64"@ && list@[i]@ != "32"@
}

pub proof fn lemma_names_no_pc_bitness(depot: DepotMeta)
    ensures
        names_no_pc_bitness(depot) <==> !depot.fits_windows(),
{
    if let Some(list) = depot.os_bitness {
        if names_no_pc_bitness(depot) {
            assert forall|i: int| 0 <= i < list@.len() implies !is_pc_bitness(
                #[trigger] list@[i]@,
            ) by {
                assert(list@[i]@ != "64"@);
            }
        }
        if !depot.fits_windows() {
            assert forall|i: int| 0 <= i < list@.len() implies (#[trigger] list@[i])@ != "64"@
                && list@[i]@ != "32"@ by {
                assert(!is_pc_bitness(list@[i]@));
            }
        }
    }
}

/// The depot that is chosen is the first of the build that isn't for something else than
/// Windows; none is chosen only if all are for something else.
pub proof fn law_first_windows_depot_is_chosen(meta: BuildMeta, chosen: Option<&DepotMeta>)
    requires
        call_ensures(select_depot, (&meta,), chosen),
    ensures
        chosen is None <==> forall|j: int|
            0 <= j < meta.depots@.len() ==> names_no_pc_bitness(#[trigger] meta.depots@[j]),
        chosen matches Some(depot) ==> !names_no_pc_bitness(*depot),
        chosen matches Some(depot) ==> exists|i: int|
            0 <= i < meta.depots@.len() && *depot == #[trigger] meta.depots@[i] && (forall|j: int|
                0 <= j < i ==> names_no_pc_bitness(#[trigger] meta.depots@[j])),
        meta.depots@.len() > 0 && meta.depots@[0].os_bitness is None ==> chosen == Some(
            &meta.depots@[0],
        ),
{
    assert forall|j: int| 0 <= j < meta.depots@.len() implies (names_no_pc_bitness(
        #[trigger] meta.depots@[j],
    ) <==> !meta.depots@[j].fits_windows()) by {
        lemma_names_no_pc_bitness(meta.depots@[j]);
    }
    if let Some(depot) = chosen {
        lemma_names_no_pc_bitness(*depot);
    }
}

/// The files of two lists of items, one behind the other, are those of the first and then
/// those of the second; a file is one, and anything else is none.
pub proof fn law_files_keep_their_order(a: Seq<DepotItem>, b: Seq<DepotItem>, file: DepotFile)
    ensures
        files_among(a + b) == files_among(a) + files_among(b),
        files_among(seq![DepotItem::DepotFile(file)]) == seq![file],
        files_among(seq![DepotItem::Other]) == Seq::<DepotFile>::empty(),
        files_among(Seq::empty()) == Seq::<DepotFile>::empty(),
    decreases b.len(),
{
    reveal_with_fuel(files_among, 2);
    assert(seq![DepotItem::DepotFile(file)].drop_last() =~= Seq::empty());
    assert(seq![DepotItem::Other].drop_last() =~= Seq::empty());
    assert(files_among(seq![DepotItem::DepotFile(file)]) =~= seq![file]);
    if b.len() == 0 {
        assert(a + b =~= a);
        assert(files_among(a) + files_among(b) =~= files_among(a));
    } else {
        assert((a + b).drop_last() =~= a + b.drop_last());
        law_files_keep_their_order(a, b.drop_last(), file);
        assert(files_among(a + b) =~= files_among(a) + files_among(b));
    }
}

/// A parsed manifest lists all its files, and a manifest that wasn't parsed is an error.
pub proof fn law_depot_files_are_those_of_the_manifest(
    parsed: Result<DepotManifestRoot, String>,
    files: Result<Vec<DepotFile>, Error>,
    file: DepotFile,
    i: int,
)
    requires
        call_ensures(get_depot_files, (parsed,), files),
    ensures
        parsed matches Err(cause) ==> files == Err::<Vec<DepotFile>, Error>(Error::Parse(cause)),
        parsed matches Ok(root) ==> (files matches Ok(list) && list@ == files_among(
            root.depot.items@,
        )),
        parsed matches Ok(root) ==> (0 <= i < root.depot.items@.len() && root.depot.items@[i]
            == DepotItem::DepotFile(file) ==> files->Ok_0@.contains(file)),
{
    if let Ok(root) = parsed {
        let items = root.depot.items@;
        if 0 <= i < items.len() && items[i] == DepotItem::DepotFile(file) {
            let one = seq![DepotItem::DepotFile(file)];
            assert(items =~= items.take(i) + one + items.skip(i + 1));
            law_files_keep_their_order(items.take(i) + one, items.skip(i + 1), file);
            law_files_keep_their_order(items.take(i), one, file);
            let front = files_among(items.take(i));
            assert(files->Ok_0@[front.len() as int] == file);
        }
    }
}

/// A value is shown as its text if it is a string, else as the signed, else as the
/// unsigned number that it is, and else not at all.
pub proof fn law_values_are_shown(value: ParamValue, shown: Option<String>)
    requires
        call_ensures(ParamValue::substitution, (&value,), shown),
    ensures
        value.text matches Some(t) ==> (shown matches Some(s) && s@ == t@),
        value.text is None ==> (value.signed matches Some(n) ==> (shown matches Some(s) && s@
            == text::int_text(n as int))),
        value.text is None && value.signed is None ==> (value.unsigned matches Some(n) ==> (
        shown matches Some(s) && s@ == text::int_text(n as int))),
        value.text is None && value.signed is None && value.unsigned is None ==> shown is None,
        shown.deep_view() == value@.shown(),
{
}

/// A string value is that string, and no number.
pub proof fn law_string_values(content: String, value: ParamValue)
    requires
        call_ensures(ParamValue::string, (content,), value),
    ensures
        value.text matches Some(t) && t@ == content@,
        value.signed is None,
        value.unsigned is None,
{
}

/// The view of a value holds what the value holds.
pub proof fn law_value_views(value: ParamValue)
    ensures
        value.text matches Some(t) ==> value@.text == Some(t@),
        value.text is None ==> value@.text is None,
        value@.signed == value.signed,
        value@.unsigned == value.unsigned,
{
}

/// New parameters have no key. One that is given a value has it from then on, in place of
/// an earlier one, and all others keep theirs, and their order.
pub proof fn law_parameters_hold_what_they_were_given(
    empty: Parameters,
    before: Parameters,
    key: String,
    value: ParamValue,
    after: Parameters,
)
    requires
        call_ensures(Parameters::new, (), empty),
        each_key_once(before@),
        exists|params: &mut Parameters|
            *params == before && *final(params) == after && #[trigger] call_ensures(
                Parameters::insert,
                (params, key, value),
                (),
            ),
    ensures
        empty@.len() == 0,
        each_key_once(after@),
        after@.contains((key@, value@)),
        forall|p: (Seq<char>, ParamValueView)|
            p.0 != key@ ==> (#[trigger] after@.contains(p) <==> before@.contains(p)),
        forall|p: (Seq<char>, ParamValueView)|
            p.0 == key@ && p.1 != value@ ==> !(#[trigger] after@.contains(p)),
        (forall|i: int| 0 <= i < before@.len() ==> (#[trigger] before@[i]).0 != key@) ==> after@
            == before@.push((key@, value@)),
        (exists|i: int| 0 <= i < before@.len() && (#[trigger] before@[i]).0 == key@) ==> after@.len()
            == before@.len() && (forall|i: int|
            0 <= i < before@.len() ==> (#[trigger] after@[i]).0 == before@[i].0),
{
    lemma_with_value(before@, key@, value@);
    assert(after@ == with_value(before@, key@, value@));
    if has_key(before@, key@) {
        let k = key_index(before@, key@);
        assert(before@[k].0 == key@);
        assert(after@[k] == (key@, value@));
    } else {
        assert(after@[before@.len() as int] == (key@, value@));
    }
}

/// The text of a key is that of its value, if it has one and it is a string.
pub proof fn law_texts_of_keys(params: Parameters, key: &str, found: Option<String>, i: int)
    requires
        each_key_once(params@),
        call_ensures(Parameters::get_text, (&params, key), found),
    ensures
        0 <= i < params@.len() && params@[i].0 == key@ ==> found.deep_view() == params@[i].1.text,
        (forall|k: int| 0 <= k < params@.len() ==> (#[trigger] params@[k]).0 != key@)
            ==> found is None,
{
    if 0 <= i < params@.len() && params@[i].0 == key@ {
        lemma_key_index(params@, key@, i);
    }
}

/// Substituting parameters replaces, in their order, the slot of each that is shown.
pub proof fn law_parameters_are_substituted(
    params: Parameters,
    template: &str,
    url: String,
    bindings: Seq<template::Binding>,
)
    requires
        call_ensures(Parameters::substitute, (&params, template), url),
        bindings.len() == params@.len(),
        forall|i: int|
            0 <= i < bindings.len() ==> (#[trigger] bindings[i]).0 == params@[i].0 && bindings[i].1
                == params@[i].1.shown(),
    ensures
        url@ == template::substituted(template@, bindings),
{
    assert(bindings =~= bindings_of(params@));
}

/// The view of an endpoint holds what the endpoint holds, and its template is its format,
/// or without one its URL.
pub proof fn law_endpoint_templates(entry: SecureLinkEntry)
    ensures
        entry@.parameters == entry.parameters@,
        entry.deep_view() == entry@,
        entry.url_format matches Some(t) ==> entry@.template() == Some(t@),
        entry.url_format is None ==> (entry.url matches Some(u) ==> entry@.template() == Some(u@)),
        entry.url_format is None && entry.url is None ==> entry@.template() is None,
{
}

/// A copy of an endpoint is like the endpoint.
pub proof fn law_copies_are_alike(
    entry: SecureLinkEntry,
    entry_copy: SecureLinkEntry,
    params: Parameters,
    params_copy: Parameters,
    value: ParamValue,
    value_copy: ParamValue,
)
    requires
        call_ensures(SecureLinkEntry::clone, (&entry,), entry_copy),
        call_ensures(Parameters::clone, (&params,), params_copy),
        call_ensures(ParamValue::clone, (&value,), value_copy),
    ensures
        entry_copy.url.deep_view() == entry.url.deep_view(),
        entry_copy.url_format.deep_view() == entry.url_format.deep_view(),
        entry_copy.parameters@ == entry.parameters@,
        params_copy@ == params@,
        value_copy.text.deep_view() == value.text.deep_view(),
        value_copy.signed == value.signed,
        value_copy.unsigned == value.unsigned,
{
    assert(entry_copy@ == entry@);
    assert(value_copy@ == value@);
}

/// The base path of an endpoint is the value of its parameter `path`, if that is a
/// string, and else empty.
pub proof fn law_base_paths(params: ParametersView, i: int)
    requires
        each_key_once(params),
    ensures
        0 <= i < params.len() && params[i].0 == "path"@ ==> base_path(params)
            == match params[i].1.text {
            Some(path) => path,
            None => Seq::empty(),
        },
        (forall|k: int| 0 <= k < params.len() ==> (#[trigger] params[k]).0 != "path"@)
            ==> base_path(params) == Seq::<char>::empty(),
{
    if 0 <= i < params.len() && params[i].0 == "path"@ {
        lemma_key_index(params, "path"@, i);
    }
}

/// What stands for a parameter when a chunk's URL is made: its key, and what it shows,
/// but for `path`, which shows the base path, a slash and the chunk's sharded hash, and
/// is there even if the endpoint has no such parameter.
pub open spec fn are_chunk_bindings(
    params: ParametersView,
    compressed_md5: Seq<char>,
    bindings: Seq<template::Binding>,
) -> bool {
    let path = base_path(params) + seq!['/'] + galaxy_text(compressed_md5);
    let named = exists|i: int| 0 <= i < params.len() && (#[trigger] params[i]).0 == "path"@;
    &&& bindings.len() == if named {
        params.len()
    } else {
        params.len() + 1
    }
    &&& forall|i: int|
        0 <= i < params.len() ==> (#[trigger] bindings[i]) == (
            params[i].0,
            if params[i].0 == "path"@ {
                Some(path)
            } else {
                params[i].1.shown()
            },
        )
    &&& !named ==> bindings[params.len() as int] == ("path"@, Some(path))
}

/// An endpoint gives a chunk a URL exactly if it has a format or a URL. The URL is that
/// template, in which the slots of the endpoint's parameters are replaced in turn by what
/// these show: `{path}` by the base path, a slash and the chunk's sharded hash.
pub proof fn law_chunk_urls_are_substituted_templates(
    entry: SecureLinkEntry,
    compressed_md5: &str,
    url: Option<String>,
    bindings: Seq<template::Binding>,
)
    requires
        entry@.template() is Some ==> can_shard(compressed_md5@),
        each_key_once(entry.parameters@),
        call_ensures(build_chunk_url, (&entry, compressed_md5), url),
        are_chunk_bindings(entry.parameters@, compressed_md5@, bindings),
    ensures
        url is Some <==> entry.url_format is Some || entry.url is Some,
        entry.url_format matches Some(t) ==> (url matches Some(u) && u@ == template::substituted(
            t@,
            bindings,
        )),
        entry.url_format is None ==> (entry.url matches Some(t) ==> (url matches Some(u) && u@
            == template::substituted(t@, bindings))),
{
    let params = entry.parameters@;
    let after = chunk_parameters(params, compressed_md5@);
    let path = base_path(params) + seq!['/'] + galaxy_text(compressed_md5@);
    lemma_with_value(params, "path"@, string_value(path));
    if has_key(params, "path"@) {
        let k = key_index(params, "path"@);
        assert(params[k].0 == "path"@);
        assert forall|i: int| 0 <= i < params.len() implies #[trigger] bindings[i] == bindings_of(
            after,
        )[i] by {
            if params[i].0 == "path"@ {
                lemma_key_index(params, "path"@, i);
            }
        }
    }
    assert(bindings =~= bindings_of(after));
}

/// Decompressed content is handed on as it is, and a failure is a decompression error.
pub proof fn law_inflated_content_is_handed_on(
    content: Result<Vec<u8>, String>,
    result: Result<Vec<u8>, Error>,
)
    requires
        call_ensures(inflated, (content,), result),
    ensures
        content matches Ok(out) ==> result == Ok::<Vec<u8>, Error>(out),
        content matches Err(cause) ==> result == Err::<Vec<u8>, Error>(Error::Decompress(cause)),
{
}

} // verus!
