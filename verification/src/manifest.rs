//! Install manifests: the files of a depot, with the chunks to download for each.
//! No installer ever runs: every file is downloaded and written directly at its
//! relative path.

use vstd::prelude::*;
use vstd::string::*;

use crate::depot;
use crate::depot::{
    DepotChunk, DepotFile, SecureLinkEntry, SecureLinkEntryView, build_chunk_url, is_shardable,
};

verus! {

/// A chunk to download.
#[derive(Debug)]
pub struct Chunk {
    pub download_url: String,
    pub compressed: bool,
    pub size_bytes: Option<u64>,
    pub md5: Option<String>,
}

/// The content of a `Chunk`.
pub struct ChunkView {
    pub download_url: Seq<char>,
    pub compressed: bool,
    pub size_bytes: Option<u64>,
    pub md5: Option<Seq<char>>,
}

impl DeepView for Chunk {
    type V = ChunkView;

    open spec fn deep_view(&self) -> ChunkView {
        ChunkView {
            download_url: self.download_url@,
            compressed: self.compressed,
            size_bytes: self.size_bytes,
            md5: self.md5.deep_view(),
        }
    }
}

/// A file to install.
#[derive(Debug)]
pub struct InstallFile {
    pub relative_path: String,
    pub size_bytes: Option<u64>,
    pub chunks: Vec<Chunk>,
}

/// The content of an `InstallFile`.
#[verifier::ext_equal]
pub struct InstallFileView {
    pub relative_path: Seq<char>,
    pub size_bytes: Option<u64>,
    pub chunks: Seq<ChunkView>,
}

impl DeepView for InstallFile {
    type V = InstallFileView;

    open spec fn deep_view(&self) -> InstallFileView {
        InstallFileView {
            relative_path: self.relative_path@,
            size_bytes: self.size_bytes,
            chunks: self.chunks.deep_view(),
        }
    }
}

/// What has to be installed before a game. GOG's depots name nothing of the kind, so
/// nothing is held of it here, and no manifest has one.
#[derive(Clone, Copy, Debug)]
pub struct Prerequisite;

/// What is to be installed. `primary_executable` is left unset: GOG doesn't expose
/// it in the manifest, only inside a file that ships as one of the depot's own.
#[derive(Debug)]
pub struct InstallManifest {
    pub version: String,
    pub install_size_bytes: Option<u64>,
    pub files: Vec<InstallFile>,
    pub install_directory: String,
    pub primary_executable: Option<String>,
    pub prerequisite: Option<Prerequisite>,
}

/// The content of an `InstallManifest`.
#[verifier::ext_equal]
pub struct InstallManifestView {
    pub version: Seq<char>,
    pub install_size_bytes: Option<u64>,
    pub files: Seq<InstallFileView>,
    pub install_directory: Seq<char>,
    pub primary_executable: Option<Seq<char>>,
    pub prerequisite: Option<Prerequisite>,
}

impl DeepView for InstallManifest {
    type V = InstallManifestView;

    open spec fn deep_view(&self) -> InstallManifestView {
        InstallManifestView {
            version: self.version@,
            install_size_bytes: self.install_size_bytes,
            files: self.files.deep_view(),
            install_directory: self.install_directory@,
            primary_executable: self.primary_executable.deep_view(),
            prerequisite: self.prerequisite,
        }
    }
}

pub type Links = Seq<SecureLinkEntryView>;

/// One of the endpoints has a template.
pub open spec fn usable(links: Links) -> bool {
    exists|i: int| 0 <= i < links.len() && (#[trigger] links[i]).template() is Some
}

/// The URL of a chunk at the first endpoint that has a template.
pub open spec fn download_url(links: Links, compressed_md5: Seq<char>) -> Option<Seq<char>>
    decreases links.len(),
{
    if links.len() == 0 {
        None
    } else {
        match depot::chunk_url(links[0], compressed_md5) {
            Some(url) => Some(url),
            None => download_url(links.skip(1), compressed_md5),
        }
    }
}

/// A chunk of a depot as it is downloaded.
pub open spec fn chunk_from(chunk: DepotChunk, url: Seq<char>) -> ChunkView {
    ChunkView {
        download_url: url,
        compressed: true,
        size_bytes: Some(chunk.size),
        md5: Some(chunk.md5@),
    }
}

/// The chunks that an endpoint serves, in their order. The others are skipped.
pub open spec fn served_chunks(chunks: Seq<DepotChunk>, links: Links) -> Seq<ChunkView>
    decreases chunks.len(),
{
    if chunks.len() == 0 {
        Seq::empty()
    } else {
        let before = served_chunks(chunks.drop_last(), links);
        match download_url(links, chunks.last().compressed_md5@) {
            Some(url) => before.push(chunk_from(chunks.last(), url)),
            None => before,
        }
    }
}

/// The size of the chunks together.
pub open spec fn chunk_sizes(chunks: Seq<ChunkView>) -> nat
    decreases chunks.len(),
{
    if chunks.len() == 0 {
        0
    } else {
        chunk_sizes(chunks.drop_last()) + (match chunks.last().size_bytes {
            Some(size) => size as nat,
            None => 0,
        })
    }
}

/// The size of the files together.
pub open spec fn file_sizes(files: Seq<InstallFileView>) -> nat
    decreases files.len(),
{
    if files.len() == 0 {
        0
    } else {
        file_sizes(files.drop_last()) + (match files.last().size_bytes {
            Some(size) => size as nat,
            None => 0,
        })
    }
}

/// A file of a depot as it is installed.
pub open spec fn file_from(file: DepotFile, links: Links) -> InstallFileView {
    let chunks = served_chunks(file.chunks@, links);
    InstallFileView {
        relative_path: file.path@,
        size_bytes: Some(chunk_sizes(chunks) as u64),
        chunks,
    }
}

pub open spec fn files_from(files: Seq<DepotFile>, links: Links) -> Seq<InstallFileView> {
    files.map_values(|file: DepotFile| file_from(file, links))
}

/// The manifest of these files at these endpoints.
pub open spec fn manifest_from(
    version: Seq<char>,
    install_directory: Seq<char>,
    files: Seq<DepotFile>,
    links: Links,
) -> InstallManifestView {
    InstallManifestView {
        version,
        install_size_bytes: Some(file_sizes(files_from(files, links)) as u64),
        files: files_from(files, links),
        install_directory,
        primary_executable: None,
        prerequisite: None,
    }
}

/// The size of the content of a file's chunks.
pub open spec fn content_of_chunks(chunks: Seq<DepotChunk>) -> nat
    decreases chunks.len(),
{
    if chunks.len() == 0 {
        0
    } else {
        content_of_chunks(chunks.drop_last()) + chunks.last().size as nat
    }
}

/// The size of the content of the files.
pub open spec fn content_of_files(files: Seq<DepotFile>) -> nat
    decreases files.len(),
{
    if files.len() == 0 {
        0
    } else {
        content_of_files(files.drop_last()) + content_of_chunks(files.last().chunks@)
    }
}

pub open spec fn chunks_can_shard(chunks: Seq<DepotChunk>) -> bool {
    forall|j: int| 0 <= j < chunks.len() ==> depot::can_shard((#[trigger] chunks[j]).compressed_md5@)
}

/// The files can be put into a manifest: the chunks' hashes can be sharded, and
/// the size of it all is a 64-bit number. Without a usable endpoint nothing is
/// asked of them, for every chunk is skipped.
pub open spec fn installable(files: Seq<DepotFile>, links: Links) -> bool {
    usable(links) ==> {
        &&& forall|i: int| 0 <= i < files.len() ==> chunks_can_shard((#[trigger] files[i]).chunks@)
        &&& content_of_files(files) <= u64::MAX
    }
}

proof fn lemma_download_url(links: Links, compressed_md5: Seq<char>)
    ensures
        download_url(links, compressed_md5) is Some <==> usable(links),
    decreases links.len(),
{
    if links.len() > 0 {
        lemma_download_url(links.skip(1), compressed_md5);
        if links[0].template() is None {
            if usable(links) {
                let i = choose|i: int| 0 <= i < links.len() && (#[trigger] links[i]).template() is Some;
                assert(links.skip(1)[i - 1].template() is Some);
            }
            if usable(links.skip(1)) {
                let i = choose|i: int|
                    0 <= i < links.skip(1).len() && (#[trigger] links.skip(1)[i]).template() is Some;
                assert(links[i + 1].template() is Some);
            }
        }
    }
}

proof fn lemma_served_size(chunks: Seq<DepotChunk>, links: Links)
    ensures
        usable(links) ==> chunk_sizes(served_chunks(chunks, links)) == content_of_chunks(chunks)
            && served_chunks(chunks, links).len() == chunks.len(),
        !usable(links) ==> served_chunks(chunks, links).len() == 0,
    decreases chunks.len(),
{
    if chunks.len() > 0 {
        lemma_served_size(chunks.drop_last(), links);
        lemma_download_url(links, chunks.last().compressed_md5@);
        if usable(links) {
            let all = served_chunks(chunks, links);
            assert(all.drop_last() =~= served_chunks(chunks.drop_last(), links));
        }
    }
}

proof fn lemma_content_of_chunks_grows(chunks: Seq<DepotChunk>, k: int)
    requires
        0 <= k <= chunks.len(),
    ensures
        content_of_chunks(chunks.take(k)) <= content_of_chunks(chunks),
    decreases chunks.len(),
{
    if k == chunks.len() {
        assert(chunks.take(k) =~= chunks);
    } else {
        assert(chunks.drop_last().take(k) =~= chunks.take(k));
        lemma_content_of_chunks_grows(chunks.drop_last(), k);
    }
}

proof fn lemma_content_of_files_grows(files: Seq<DepotFile>, k: int)
    requires
        0 <= k <= files.len(),
    ensures
        content_of_files(files.take(k)) <= content_of_files(files),
    decreases files.len(),
{
    if k == files.len() {
        assert(files.take(k) =~= files);
    } else {
        assert(files.drop_last().take(k) =~= files.take(k));
        lemma_content_of_files_grows(files.drop_last(), k);
    }
}

/// The sizes in a manifest are those of the content that is served.
proof fn lemma_file_sizes(files: Seq<DepotFile>, links: Links)
    requires
        usable(links) ==> content_of_files(files) <= u64::MAX,
    ensures
        usable(links) ==> file_sizes(files_from(files, links)) == content_of_files(files),
        !usable(links) ==> file_sizes(files_from(files, links)) == 0,
    decreases files.len(),
{
    if files.len() > 0 {
        let last = files.last();
        lemma_file_sizes(files.drop_last(), links);
        lemma_served_size(last.chunks@, links);
        assert(files_from(files, links).drop_last() =~= files_from(files.drop_last(), links));
        assert(files_from(files, links).last() == file_from(last, links));
        if !usable(links) {
            assert(served_chunks(last.chunks@, links) =~= Seq::empty());
        }
    }
}

fn has_usable(links: &Vec<SecureLinkEntry>) -> (found: bool)
    ensures
        found == usable(links.deep_view()),
{
    let mut i: usize = 0;
    while i < links.len()
        invariant
            i <= links@.len(),
            forall|j: int| 0 <= j < i ==> (#[trigger] links.deep_view()[j]).template() is None,
        decreases links@.len() - i,
    {
        if links[i].url_format.is_some() || links[i].url.is_some() {
            assert(links.deep_view()[i as int].template() is Some);
            return true;
        }
        assert(links.deep_view()[i as int].template() is None);
        i = i + 1;
    }
    false
}

/// The size of the content of these chunks on top of `before`, if their hashes
/// can be sharded and the size is a 64-bit number.
fn checked_content(chunks: &Vec<DepotChunk>, before: u64) -> (size: Option<u64>)
    ensures
        match size {
            Some(n) => chunks_can_shard(chunks@) && n == before + content_of_chunks(chunks@),
            None => !chunks_can_shard(chunks@) || before + content_of_chunks(chunks@) > u64::MAX,
        },
{
    let mut size: u64 = before;
    let mut i: usize = 0;
    assert(chunks@.take(0) =~= Seq::empty());
    while i < chunks.len()
        invariant
            i <= chunks@.len(),
            size == before + content_of_chunks(chunks@.take(i as int)),
            forall|j: int|
                0 <= j < i ==> depot::can_shard((#[trigger] chunks@[j]).compressed_md5@),
        decreases chunks@.len() - i,
    {
        if !is_shardable(chunks[i].compressed_md5.as_str()) {
            assert(!depot::can_shard(chunks@[i as int].compressed_md5@));
            return None;
        }
        proof {
            let longer = chunks@.take(i + 1);
            assert(longer.drop_last() =~= chunks@.take(i as int));
            assert(longer.last() == chunks@[i as int]);
            lemma_content_of_chunks_grows(chunks@, i + 1);
        }
        match size.checked_add(chunks[i].size) {
            Some(sum) => {
                size = sum;
            },
            None => {
                return None;
            },
        }
        i = i + 1;
    }
    assert(chunks@.take(i as int) =~= chunks@);
    Some(size)
}

/// Whether `assemble_manifest` can be asked for these files.
pub fn can_install(files: &Vec<DepotFile>, links: &Vec<SecureLinkEntry>) -> (can: bool)
    ensures
        can == installable(files@, links.deep_view()),
{
    if !has_usable(links) {
        return true;
    }
    let mut size: u64 = 0;
    let mut i: usize = 0;
    assert(files@.take(0) =~= Seq::empty());
    while i < files.len()
        invariant
            usable(links.deep_view()),
            i <= files@.len(),
            size == content_of_files(files@.take(i as int)),
            forall|j: int| 0 <= j < i ==> chunks_can_shard((#[trigger] files@[j]).chunks@),
        decreases files@.len() - i,
    {
        proof {
            let longer = files@.take(i + 1);
            assert(longer.drop_last() =~= files@.take(i as int));
            assert(longer.last() == files@[i as int]);
            lemma_content_of_files_grows(files@, i + 1);
        }
        match checked_content(&files[i].chunks, size) {
            Some(sum) => {
                size = sum;
            },
            None => {
                return false;
            },
        }
        i = i + 1;
    }
    assert(files@.take(i as int) =~= files@);
    true
}

fn first_url(links: &Vec<SecureLinkEntry>, compressed_md5: &str) -> (url: Option<String>)
    requires
        usable(links.deep_view()) ==> depot::can_shard(compressed_md5@),
    ensures
        url.deep_view() == download_url(links.deep_view(), compressed_md5@),
{
    let mut i: usize = 0;
    let ghost views = links.deep_view();
    assert(views.skip(0) =~= views);
    while i < links.len()
        invariant
            views == links.deep_view(),
            views.len() == links@.len(),
            usable(views) ==> depot::can_shard(compressed_md5@),
            i <= links@.len(),
            download_url(views, compressed_md5@) == download_url(
                views.skip(i as int),
                compressed_md5@,
            ),
        decreases links@.len() - i,
    {
        assert(views[i as int] == links@[i as int]@);
        assert(views.skip(i as int)[0] == views[i as int]);
        assert(views.skip(i as int).skip(1) =~= views.skip(i + 1));
        let url = build_chunk_url(&links[i], compressed_md5);
        if url.is_some() {
            return url;
        }
        i = i + 1;
    }
    None
}

/// The chunks that an endpoint serves, and their size together.
fn install_chunks(chunks: &Vec<DepotChunk>, links: &Vec<SecureLinkEntry>) -> (result: (Vec<Chunk>, u64))
    requires
        usable(links.deep_view()) ==> chunks_can_shard(chunks@) && content_of_chunks(chunks@)
            <= u64::MAX,
    ensures
        result.0.deep_view() == served_chunks(chunks@, links.deep_view()),
        result.1 == chunk_sizes(served_chunks(chunks@, links.deep_view())),
{
    let mut served: Vec<Chunk> = Vec::new();
    let mut size: u64 = 0;
    let mut i: usize = 0;
    let ghost views = links.deep_view();
    assert(chunks@.take(0) =~= Seq::empty());
    assert(served.deep_view() =~= Seq::empty());
    while i < chunks.len()
        invariant
            views == links.deep_view(),
            usable(views) ==> chunks_can_shard(chunks@) && content_of_chunks(chunks@) <= u64::MAX,
            i <= chunks@.len(),
            served.deep_view() == served_chunks(chunks@.take(i as int), views),
            size == chunk_sizes(served.deep_view()),
        decreases chunks@.len() - i,
    {
        let chunk = &chunks[i];
        let ghost before = served.deep_view();
        proof {
            let longer = chunks@.take(i + 1);
            assert(longer.drop_last() =~= chunks@.take(i as int));
            assert(longer.last() == *chunk);
            lemma_download_url(views, chunk.compressed_md5@);
            lemma_served_size(longer, views);
            lemma_served_size(chunks@.take(i as int), views);
            lemma_content_of_chunks_grows(chunks@, i + 1);
            assert(usable(views) ==> depot::can_shard(chunks@[i as int].compressed_md5@));
        }
        if let Some(url) = first_url(links, chunk.compressed_md5.as_str()) {
            size = size + chunk.size;
            served.push(
                Chunk {
                    download_url: url,
                    compressed: true,
                    size_bytes: Some(chunk.size),
                    md5: Some(chunk.md5.clone()),
                },
            );
            assert(served.deep_view() =~= before.push(chunk_from(*chunk, url@)));
            assert(served.deep_view().drop_last() =~= before);
        }
        i = i + 1;
    }
    assert(chunks@.take(i as int) =~= chunks@);
    (served, size)
}

/// The install manifest of a build: each file with the chunks that an endpoint
/// serves, and the sizes that follow from them.
pub fn assemble_manifest(
    version: String,
    install_directory: String,
    files: &Vec<DepotFile>,
    links: &Vec<SecureLinkEntry>,
) -> (manifest: InstallManifest)
    requires
        installable(files@, links.deep_view()),
    ensures
        manifest.deep_view() == manifest_from(
            version@,
            install_directory@,
            files@,
            links.deep_view(),
        ),
{
    let mut list: Vec<InstallFile> = Vec::new();
    let mut total: u64 = 0;
    let mut i: usize = 0;
    let ghost views = links.deep_view();
    assert(files_from(files@.take(0), views) =~= Seq::empty());
    assert(list.deep_view() =~= Seq::empty());
    while i < files.len()
        invariant
            views == links.deep_view(),
            installable(files@, views),
            i <= files@.len(),
            list.deep_view() == files_from(files@.take(i as int), views),
            total == file_sizes(list.deep_view()),
        decreases files@.len() - i,
    {
        let file = &files[i];
        let ghost before = list.deep_view();
        let ghost longer = files@.take(i + 1);
        proof {
            assert(longer.drop_last() =~= files@.take(i as int));
            assert(longer.last() == *file);
            lemma_content_of_files_grows(files@, i + 1);
            assert(usable(views) ==> chunks_can_shard(files@[i as int].chunks@));
            assert(usable(views) ==> content_of_files(longer) == content_of_files(
                files@.take(i as int),
            ) + content_of_chunks(file.chunks@));
            lemma_file_sizes(files@.take(i as int), views);
            lemma_file_sizes(longer, views);
            lemma_served_size(file.chunks@, views);
        }
        let (chunks, size) = install_chunks(&file.chunks, links);
        proof {
            if !usable(views) {
                assert(chunks.deep_view() =~= Seq::empty());
                assert(size == 0);
            }
        }
        total = total + size;
        list.push(
            InstallFile { relative_path: file.path.clone(), size_bytes: Some(size), chunks },
        );
        assert(list.deep_view() =~= before.push(file_from(*file, views)));
        assert(list.deep_view() =~= files_from(longer, views));
        assert(list.deep_view().drop_last() =~= before);
        i = i + 1;
    }
    assert(files@.take(i as int) =~= files@);
    InstallManifest {
        version,
        install_size_bytes: Some(total),
        files: list,
        install_directory,
        primary_executable: None,
        prerequisite: None,
    }
}

/// Every file of the depot is in the manifest, in its place and under its path.
pub proof fn law_no_file_is_dropped(
    version: Seq<char>,
    install_directory: Seq<char>,
    files: Seq<DepotFile>,
    links: Links,
)
    ensures
        ({
            let manifest = manifest_from(version, install_directory, files, links);
            &&& manifest.files.len() == files.len()
            &&& forall|i: int|
                0 <= i < files.len() ==> (#[trigger] manifest.files[i]).relative_path
                    == files[i].path@
        }),
{
}

pub open spec fn is_size(size: Option<u64>, n: nat) -> bool {
    size is Some && size->0 == n
}

/// In an install manifest the sizes add up: a file's is that of its chunks
/// together, and the manifest's is that of its files together.
pub proof fn law_sizes_add_up(
    version: Seq<char>,
    install_directory: Seq<char>,
    files: Seq<DepotFile>,
    links: Links,
)
    requires
        installable(files, links),
    ensures
        ({
            let manifest = manifest_from(version, install_directory, files, links);
            &&& is_size(manifest.install_size_bytes, file_sizes(manifest.files))
            &&& forall|i: int|
                0 <= i < manifest.files.len() ==> is_size(
                    (#[trigger] manifest.files[i]).size_bytes,
                    chunk_sizes(manifest.files[i].chunks),
                )
        }),
{
    let manifest = manifest_from(version, install_directory, files, links);
    lemma_file_sizes(files, links);
    assert forall|i: int| 0 <= i < manifest.files.len() implies is_size(
        (#[trigger] manifest.files[i]).size_bytes,
        chunk_sizes(manifest.files[i].chunks),
    ) by {
        let chunks = files[i].chunks@;
        lemma_served_size(chunks, links);
        assert(manifest.files[i] == file_from(files[i], links));
        if usable(links) {
            lemma_content_of_files_grows(files, i + 1);
            assert(files.take(i + 1).last() == files[i]);
        } else {
            assert(served_chunks(chunks, links) =~= Seq::empty());
        }
    }
}

proof fn lemma_served_chunk(chunks: Seq<DepotChunk>, links: Links, j: int)
    requires
        usable(links),
        0 <= j < chunks.len(),
    ensures
        served_chunks(chunks, links).len() == chunks.len(),
        download_url(links, chunks[j].compressed_md5@) matches Some(url) && served_chunks(
            chunks,
            links,
        )[j] == chunk_from(chunks[j], url),
    decreases chunks.len(),
{
    lemma_served_size(chunks, links);
    lemma_served_size(chunks.drop_last(), links);
    lemma_download_url(links, chunks.last().compressed_md5@);
    if j < chunks.len() - 1 {
        lemma_served_chunk(chunks.drop_last(), links, j);
    }
}

/// With an endpoint that has a template no chunk is skipped: each is in the
/// manifest, in its place, with its own size and hash, and with its URL at the
/// first such endpoint. The manifest's size is then that of the whole content.
pub proof fn law_no_chunk_is_skipped(
    version: Seq<char>,
    install_directory: Seq<char>,
    files: Seq<DepotFile>,
    links: Links,
    first: int,
    i: int,
    j: int,
)
    requires
        0 <= first < links.len(),
        links[first].template() is Some,
        forall|k: int| 0 <= k < first ==> (#[trigger] links[k]).template() is None,
        installable(files, links),
        0 <= i < files.len(),
        0 <= j < files[i].chunks@.len(),
    ensures
        ({
            let manifest = manifest_from(version, install_directory, files, links);
            let chunk = files[i].chunks@[j];
            let served = manifest.files[i].chunks;
            &&& served.len() == files[i].chunks@.len()
            &&& depot::chunk_url(links[first], chunk.compressed_md5@) matches Some(url) && served[j]
                == chunk_from(chunk, url)
            &&& is_size(manifest.install_size_bytes, content_of_files(files))
        }),
{
    let manifest = manifest_from(version, install_directory, files, links);
    let chunks = files[i].chunks@;
    assert(manifest.files[i] == file_from(files[i], links));
    lemma_served_chunk(chunks, links, j);
    lemma_first_endpoint(links, first, chunks[j].compressed_md5@);
    lemma_file_sizes(files, links);
}

proof fn lemma_first_endpoint(links: Links, first: int, compressed_md5: Seq<char>)
    requires
        0 <= first < links.len(),
        links[first].template() is Some,
        forall|k: int| 0 <= k < first ==> (#[trigger] links[k]).template() is None,
    ensures
        download_url(links, compressed_md5) == depot::chunk_url(links[first], compressed_md5),
    decreases first,
{
    if first > 0 {
        let rest = links.skip(1);
        assert(rest[first - 1] == links[first]);
        assert forall|k: int| 0 <= k < first - 1 implies (#[trigger] rest[k]).template() is None by {
            assert(rest[k] == links[k + 1]);
        }
        lemma_first_endpoint(rest, first - 1, compressed_md5);
        assert(links[0].template() is None);
    }
}

/// The content of two lists of chunks, or of files, together is that of the first and of
/// the second; that of one chunk is its size, and that of one file is that of its chunks.
pub proof fn law_content_adds_up(
    a: Seq<DepotChunk>,
    b: Seq<DepotChunk>,
    chunk: DepotChunk,
    c: Seq<DepotFile>,
    d: Seq<DepotFile>,
    file: DepotFile,
)
    ensures
        content_of_chunks(Seq::empty()) == 0,
        content_of_chunks(a + b) == content_of_chunks(a) + content_of_chunks(b),
        content_of_chunks(seq![chunk]) == chunk.size,
        content_of_files(Seq::empty()) == 0,
        content_of_files(c + d) == content_of_files(c) + content_of_files(d),
        content_of_files(seq![file]) == content_of_chunks(file.chunks@),
    decreases b.len() + d.len(),
{
    reveal_with_fuel(content_of_chunks, 2);
    reveal_with_fuel(content_of_files, 2);
    assert(seq![chunk].drop_last() =~= Seq::empty());
    assert(seq![file].drop_last() =~= Seq::empty());
    if b.len() > 0 {
        assert((a + b).drop_last() =~= a + b.drop_last());
        law_content_adds_up(a, b.drop_last(), chunk, c, d, file);
    } else {
        assert(a + b =~= a);
        if d.len() > 0 {
            law_content_adds_up(a, b, chunk, c, d.drop_last(), file);
        }
    }
    if d.len() > 0 {
        assert((c + d).drop_last() =~= c + d.drop_last());
        law_content_adds_up(a, b, chunk, c, d.drop_last(), file);
    } else {
        assert(c + d =~= c);
    }
}

/// One of the endpoints has a format or a URL.
pub open spec fn some_endpoint_serves(links: Seq<SecureLinkEntry>) -> bool {
    exists|k: int|
        0 <= k < links.len() && ((#[trigger] links[k]).url_format is Some || links[k].url is Some)
}

proof fn lemma_endpoints(links: Vec<SecureLinkEntry>)
    ensures
        usable(links.deep_view()) <==> some_endpoint_serves(links@),
        links.deep_view().len() == links@.len(),
        forall|k: int|
            0 <= k < links@.len() ==> ((#[trigger] links.deep_view()[k]).template() is Some <==> (
            links@[k].url_format is Some || links@[k].url is Some)),
{
    let views = links.deep_view();
    assert forall|k: int| 0 <= k < links@.len() implies ((#[trigger] views[k]).template() is Some
        <==> (links@[k].url_format is Some || links@[k].url is Some)) by {
        assert(views[k] == links@[k]@);
    }
    if usable(views) {
        let k = choose|k: int| 0 <= k < views.len() && (#[trigger] views[k]).template() is Some;
        assert(links@[k].url_format is Some || links@[k].url is Some);
    }
    if some_endpoint_serves(links@) {
        let k = choose|k: int|
            0 <= k < links@.len() && ((#[trigger] links@[k]).url_format is Some || links@[k].url is Some);
        assert(views[k].template() is Some);
    }
}

/// Files can be put into a manifest exactly if no endpoint serves anything, or else if
/// all hashes of chunks can be sharded and the content of all is a 64-bit number.
pub proof fn law_installable_files(files: Vec<DepotFile>, links: Vec<SecureLinkEntry>, can: bool)
    requires
        call_ensures(can_install, (&files, &links), can),
    ensures
        !some_endpoint_serves(links@) ==> can,
        some_endpoint_serves(links@) ==> (can <==> (forall|i: int, j: int|
            0 <= i < files@.len() && 0 <= j < files@[i].chunks@.len() ==> depot::can_shard(
                (#[trigger] files@[i].chunks@[j]).compressed_md5@,
            )) && content_of_files(files@) <= 0xffff_ffff_ffff_ffff),
{
    lemma_endpoints(links);
    if forall|i: int, j: int|
        0 <= i < files@.len() && 0 <= j < files@[i].chunks@.len() ==> depot::can_shard(
            (#[trigger] files@[i].chunks@[j]).compressed_md5@,
        ) {
        assert forall|i: int| 0 <= i < files@.len() implies chunks_can_shard(
            (#[trigger] files@[i]).chunks@,
        ) by {
            assert forall|j: int| 0 <= j < files@[i].chunks@.len() implies depot::can_shard(
                (#[trigger] files@[i].chunks@[j]).compressed_md5@,
            ) by {}
        }
    }
}

/// The parts of a manifest that come from the build, and its files: one for each file of
/// the depot, in its place and under its path. Executable and prerequisite are unset.
pub proof fn law_manifest_lists_the_depot(
    version: String,
    install_directory: String,
    files: Vec<DepotFile>,
    links: Vec<SecureLinkEntry>,
    manifest: InstallManifest,
    i: int,
)
    requires
        installable(files@, links.deep_view()),
        call_ensures(assemble_manifest, (version, install_directory, &files, &links), manifest),
    ensures
        manifest.version@ == version@,
        manifest.install_directory@ == install_directory@,
        manifest.primary_executable is None,
        manifest.prerequisite is None,
        manifest.files@.len() == files@.len(),
        0 <= i < files@.len() ==> manifest.files@[i].relative_path@ == files@[i].path@,
{
    let view = manifest.deep_view();
    assert(view.files.len() == manifest.files@.len());
    assert(view.primary_executable is None ==> manifest.primary_executable is None);
    if 0 <= i < files@.len() {
        assert(view.files[i] == manifest.files@[i].deep_view());
        assert(files_from(files@, links.deep_view())[i] == file_from(files@[i], links.deep_view()));
    }
}

/// Every chunk of a manifest is marked as compressed, for GOG's CDN serves no other.
pub proof fn law_every_chunk_is_compressed(
    version: String,
    install_directory: String,
    files: Vec<DepotFile>,
    links: Vec<SecureLinkEntry>,
    manifest: InstallManifest,
    i: int,
    j: int,
)
    requires
        installable(files@, links.deep_view()),
        call_ensures(assemble_manifest, (version, install_directory, &files, &links), manifest),
        0 <= i < manifest.files@.len(),
        0 <= j < manifest.files@[i].chunks@.len(),
    ensures
        manifest.files@[i].chunks@[j].compressed,
{
    let views = links.deep_view();
    let view = manifest.deep_view();
    assert(view.files[i] == manifest.files@[i].deep_view());
    assert(files_from(files@, views)[i] == file_from(files@[i], views));
    let served = served_chunks(files@[i].chunks@, views);
    assert(view.files[i].chunks == served);
    assert(manifest.files@[i].chunks.deep_view()[j] == manifest.files@[i].chunks@[j].deep_view());
    lemma_served_size(files@[i].chunks@, views);
    if usable(views) {
        lemma_served_chunk(files@[i].chunks@, views, j);
    }
}

/// With an endpoint that serves, the chunks of a file in the manifest are those of the
/// file in the depot, one for one: each with the size and the hash of its content, and
/// with its URL at the first such endpoint. The size of the file is that of its content,
/// and the size of the whole is that of all content.
pub proof fn law_manifest_lists_every_chunk(
    version: String,
    install_directory: String,
    files: Vec<DepotFile>,
    links: Vec<SecureLinkEntry>,
    manifest: InstallManifest,
    first: int,
    i: int,
    j: int,
)
    requires
        installable(files@, links.deep_view()),
        call_ensures(assemble_manifest, (version, install_directory, &files, &links), manifest),
        0 <= first < links@.len(),
        links@[first].url_format is Some || links@[first].url is Some,
        forall|k: int|
            0 <= k < first ==> (#[trigger] links@[k]).url_format is None && links@[k].url is None,
    ensures
        manifest.install_size_bytes matches Some(size) && size == content_of_files(files@),
        0 <= i < files@.len() ==> {
            let file = manifest.files@[i];
            &&& file.size_bytes matches Some(size) && size == content_of_chunks(files@[i].chunks@)
            &&& file.chunks@.len() == files@[i].chunks@.len()
            &&& 0 <= j < file.chunks@.len() ==> {
                let chunk = file.chunks@[j];
                let source = files@[i].chunks@[j];
                &&& chunk.compressed
                &&& chunk.size_bytes == Some(source.size)
                &&& chunk.md5 matches Some(md5) && md5@ == source.md5@
                &&& depot::chunk_url(links@[first]@, source.compressed_md5@) == Some(
                    chunk.download_url@,
                )
            }
        },
{
    let views = links.deep_view();
    let view = manifest.deep_view();
    lemma_endpoints(links);
    assert(views[first].template() is Some);
    assert(usable(views));
    lemma_file_sizes(files@, views);
    assert forall|k: int| 0 <= k < first implies (#[trigger] views[k]).template() is None by {
        assert(views[k] == links@[k]@);
    }
    if 0 <= i < files@.len() {
        let chunks = files@[i].chunks@;
        assert(view.files[i] == manifest.files@[i].deep_view());
        assert(files_from(files@, views)[i] == file_from(files@[i], views));
        lemma_served_size(chunks, views);
        lemma_content_of_files_grows(files@, i + 1);
        assert(files@.take(i + 1).last() == files@[i]);
        let listed = manifest.files@[i].chunks;
        assert(listed.deep_view().len() == listed@.len());
        assert(listed.deep_view() == served_chunks(chunks, views));
        if 0 <= j < listed@.len() {
            assert(listed.deep_view()[j] == listed@[j].deep_view());
            lemma_served_chunk(chunks, views, j);
            lemma_first_endpoint(views, first, chunks[j].compressed_md5@);
            assert(views[first] == links@[first]@);
            let chunk = listed@[j];
            assert(chunk.deep_view().md5 == Some(chunks[j].md5@));
            assert(chunk.md5 is Some);
        }
    }
}

/// Without an endpoint that serves, every file is listed without chunks, and all sizes
/// are zero.
pub proof fn law_manifest_without_endpoints(
    version: String,
    install_directory: String,
    files: Vec<DepotFile>,
    links: Vec<SecureLinkEntry>,
    manifest: InstallManifest,
    i: int,
)
    requires
        call_ensures(assemble_manifest, (version, install_directory, &files, &links), manifest),
        forall|k: int|
            0 <= k < links@.len() ==> (#[trigger] links@[k]).url_format is None && links@[k].url is None,
    ensures
        manifest.install_size_bytes == Some(0u64),
        manifest.files@.len() == files@.len(),
        0 <= i < files@.len() ==> manifest.files@[i].chunks@.len() == 0
            && manifest.files@[i].size_bytes == Some(0u64),
{
    let views = links.deep_view();
    let view = manifest.deep_view();
    lemma_endpoints(links);
    assert(!usable(views));
    lemma_file_sizes(files@, views);
    assert(view.files.len() == manifest.files@.len());
    if 0 <= i < files@.len() {
        assert(view.files[i] == manifest.files@[i].deep_view());
        assert(files_from(files@, views)[i] == file_from(files@[i], views));
        lemma_served_size(files@[i].chunks@, views);
        assert(served_chunks(files@[i].chunks@, views) =~= Seq::empty());
        assert(manifest.files@[i].chunks.deep_view().len() == manifest.files@[i].chunks@.len());
    }
}

} // verus!
