//! The bundle transcoder: repacks a tar archive into the zip container that
//! the device's installer expects, entirely in memory.

use vstd::prelude::*;
use vstd::seq_lib::to_multiset_contains;
use vstd::utf8::valid_utf8;

verus! {

/// What kind of entry a source archive lists.
#[derive(Clone, Copy, Debug, PartialEq, Eq, Structural)]
pub enum EntryKind {
    /// A regular file.
    File,
    /// A directory.
    Directory,
    /// Anything else: a link, a device, a pipe.
    Other,
}

/// One entry of the source archive.
pub struct SourceEntry {
    /// The entry's relative path, as the archive spells it.
    pub path: Vec<u8>,
    /// The type flag of the entry's header.
    pub type_flag: u8,
    /// The entry's contents.
    pub content: Vec<u8>,
}

/// One entry of the install media. A directory is an entry whose path ends
/// in a slash and whose contents are empty.
pub struct MediaEntry {
    /// The entry's relative path.
    pub path: Vec<u8>,
    /// The entry's contents.
    pub content: Vec<u8>,
}

/// A source entry as plain values.
pub struct SourceEntryView {
    pub path: Seq<u8>,
    pub type_flag: u8,
    pub content: Seq<u8>,
}

/// A media entry as plain values.
pub struct MediaEntryView {
    pub path: Seq<u8>,
    pub content: Seq<u8>,
}

impl View for SourceEntry {
    type V = SourceEntryView;

    open spec fn view(&self) -> SourceEntryView {
        SourceEntryView { path: self.path@, type_flag: self.type_flag, content: self.content@ }
    }
}

impl View for MediaEntry {
    type V = MediaEntryView;

    open spec fn view(&self) -> MediaEntryView {
        MediaEntryView { path: self.path@, content: self.content@ }
    }
}

/// Why an archive could not be transcoded.
#[derive(Clone, Copy, Debug, PartialEq, Eq, Structural)]
pub enum TranscodeError {
    /// The source archive is malformed or truncated.
    MalformedArchive,
    /// An entry cannot be represented in the destination container.
    UnrepresentableEntry,
}

/// The type flag of a regular file in a tar header.
pub const TYPE_FLAG_FILE: u8 = 0x30;

/// The type flag of a directory in a tar header.
pub const TYPE_FLAG_DIRECTORY: u8 = 0x35;

/// The longest path, in bytes, that the destination container can record.
pub const MAX_PATH_BYTES: usize = 0xFFFF;

/// The largest contents, in bytes, that the destination container can record
/// for one entry.
pub const MAX_CONTENT_BYTES: u64 = 0xFFFF_FFFF;

/// The byte that separates the components of a path.
pub const PATH_SEPARATOR: u8 = 0x2F;

/// The entries as plain values, in order.
pub open spec fn source_views(entries: Seq<SourceEntry>) -> Seq<SourceEntryView> {
    Seq::new(entries.len(), |i: int| entries[i]@)
}

/// The entries as plain values, in order.
pub open spec fn media_views(entries: Seq<MediaEntry>) -> Seq<MediaEntryView> {
    Seq::new(entries.len(), |i: int| entries[i]@)
}

/// The kind of entry that a type flag stands for.
pub open spec fn kind_of(type_flag: u8) -> EntryKind {
    if type_flag == TYPE_FLAG_FILE {
        EntryKind::File
    } else if type_flag == TYPE_FLAG_DIRECTORY {
        EntryKind::Directory
    } else {
        EntryKind::Other
    }
}

/// Whether the destination container can record `path` as a name: it is not
/// empty, it is within the container's limit, and it is UTF-8.
pub open spec fn recordable_path(path: Seq<u8>) -> bool {
    0 < path.len() <= MAX_PATH_BYTES && valid_utf8(path)
}

/// The path under which a directory is recorded: its own path, closed by a
/// separator if it does not end in one.
pub open spec fn directory_path(path: Seq<u8>) -> Seq<u8> {
    if path.len() > 0 && path.last() == PATH_SEPARATOR {
        path
    } else {
        path.push(PATH_SEPARATOR)
    }
}

/// The media entry that stands for a source entry, where the destination
/// container can represent it. A file keeps its path and its contents, byte
/// for byte. A directory keeps its path and has no contents. Nothing else can
/// be represented, nor a path that cannot be recorded, nor contents beyond
/// the container's limit.
pub open spec fn planned_entry(source: SourceEntryView) -> Option<MediaEntryView> {
    match kind_of(source.type_flag) {
        EntryKind::File => if recordable_path(source.path) && source.content.len()
            <= MAX_CONTENT_BYTES {
            Some(MediaEntryView { path: source.path, content: source.content })
        } else {
            None
        },
        EntryKind::Directory => if 0 < source.path.len() && recordable_path(
            directory_path(source.path),
        ) {
            Some(MediaEntryView { path: directory_path(source.path), content: Seq::empty() })
        } else {
            None
        },
        EntryKind::Other => None,
    }
}

/// The install media planned for a source archive: one entry for each source
/// entry, in order, or nothing if any entry cannot be represented.
pub open spec fn planned_media(sources: Seq<SourceEntryView>) -> Option<Seq<MediaEntryView>> {
    if forall|i: int| 0 <= i < sources.len() ==> (#[trigger] planned_entry(sources[i])) is Some {
        Some(Seq::new(sources.len(), |i: int| planned_entry(sources[i])->Some_0))
    } else {
        None
    }
}

/// `std::str::from_utf8` accepts exactly the byte strings that are valid
/// UTF-8; the contract says so in the terms of `vstd`.
#[verifier::external_body]
fn is_utf8(bytes: &[u8]) -> (valid: bool)
    ensures
        valid == valid_utf8(bytes@),
{
    std::str::from_utf8(bytes).is_ok()
}

/// Tells the kind of entry that a type flag stands for.
pub fn entry_kind(type_flag: u8) -> (kind: EntryKind)
    ensures
        kind == kind_of(type_flag),
{
    if type_flag == TYPE_FLAG_FILE {
        EntryKind::File
    } else if type_flag == TYPE_FLAG_DIRECTORY {
        EntryKind::Directory
    } else {
        EntryKind::Other
    }
}

/// Tells whether the destination container can record `path` as a name.
pub fn path_is_recordable(path: &Vec<u8>) -> (recordable: bool)
    ensures
        recordable == recordable_path(path@),
{
    0 < path.len() && path.len() <= MAX_PATH_BYTES && is_utf8(path.as_slice())
}

/// Plans the media entry for one source entry; `None` where the destination
/// container cannot represent it.
pub fn plan_entry(source: &SourceEntry) -> (planned: Option<MediaEntry>)
    ensures
        match planned {
            Some(entry) => planned_entry(source@) == Some(entry@),
            None => planned_entry(source@) is None,
        },
{
    match entry_kind(source.type_flag) {
        EntryKind::File => {
            if !path_is_recordable(&source.path) {
                return None;
            }
            if source.content.len() as u64 > MAX_CONTENT_BYTES {
                return None;
            }
            Some(MediaEntry { path: source.path.clone(), content: source.content.clone() })
        },
        EntryKind::Directory => {
            let len: usize = source.path.len();
            if len == 0 || len > MAX_PATH_BYTES {
                return None;
            }
            let mut path = source.path.clone();
            if source.path[len - 1] != PATH_SEPARATOR {
                path.push(PATH_SEPARATOR);
            }
            if !path_is_recordable(&path) {
                return None;
            }
            Some(MediaEntry { path, content: Vec::new() })
        },
        EntryKind::Other => None,
    }
}

/// Plans the install media for a source archive: every entry is carried over
/// in order, or the whole plan fails if one of them cannot be represented.
pub fn plan_media(sources: &Vec<SourceEntry>) -> (planned: Option<Vec<MediaEntry>>)
    ensures
        match planned {
            Some(media) => planned_media(source_views(sources@)) == Some(media_views(media@)),
            None => planned_media(source_views(sources@)) is None,
        },
{
    let mut media: Vec<MediaEntry> = Vec::new();
    let mut i: usize = 0;
    while i < sources.len()
        invariant
            i <= sources.len(),
            media@.len() == i,
            forall|j: int|
                0 <= j < i ==> (#[trigger] planned_entry(source_views(sources@)[j])) == Some(
                    media@[j]@,
                ),
        decreases sources.len() - i,
    {
        match plan_entry(&sources[i]) {
            Some(entry) => {
                media.push(entry);
            },
            None => {
                assert(planned_entry(source_views(sources@)[i as int]) is None);
                return None;
            },
        }
        i += 1;
    }
    proof {
        let views = source_views(sources@);
        let want = Seq::new(views.len(), |i: int| planned_entry(views[i])->Some_0);
        assert(media_views(media@) =~= want);
    }
    Some(media)
}

/// What reading `bytes` as a tar archive yields: its entries in archive
/// order, or nothing where the archive is malformed or truncated.
pub uninterp spec fn tar_listing(bytes: Seq<u8>) -> Option<Seq<SourceEntryView>>;

/// The zip archive written for `entries`, in order, with fixed timestamps;
/// nothing where the writer refuses an entry.
pub uninterp spec fn zip_image(entries: Seq<MediaEntryView>) -> Option<Seq<u8>>;

/// What reading `image` as a zip archive yields: its entries in the order of
/// its directory, or nothing where the reader fails.
pub uninterp spec fn zip_listing(image: Seq<u8>) -> Option<Seq<MediaEntryView>>;

/// Reads a tar archive held in memory with `tar::Archive::entries`. For each
/// entry the reader yields, the path is `Entry::path_bytes`, the type flag
/// is the byte of `Header::entry_type`, and the contents are everything the
/// entry reads. The contract claims only that the listing depends on the
/// bytes alone, and that any error of the reader gives `None`.
#[verifier::external_body]
fn read_tar(bytes: &[u8]) -> (listing: Option<Vec<SourceEntry>>)
    ensures
        match listing {
            Some(entries) => tar_listing(bytes@) == Some(source_views(entries@)),
            None => tar_listing(bytes@) is None,
        },
{
    let mut archive = tar::Archive::new(bytes);
    let mut entries = Vec::new();
    for item in archive.entries().ok()? {
        let mut item = item.ok()?;
        let path = item.path_bytes().into_owned();
        let type_flag = item.header().entry_type().as_byte();
        let mut content = Vec::new();
        std::io::Read::read_to_end(&mut item, &mut content).ok()?;
        entries.push(SourceEntry { path, type_flag, content });
    }
    Some(entries)
}

/// Writes a zip archive into memory with `zip::ZipWriter`: `start_file` and
/// `write_all` for each entry in order, then `finish`. Every path must be
/// UTF-8 and within the container's limit: the writer takes names as text,
/// and does not return on a longer one. Timestamps are fixed, so the
/// contract claims that the image depends on the entries alone, and that any
/// refusal of the writer (a name used twice, contents too large) gives
/// `None`.
#[verifier::external_body]
fn write_zip(entries: &Vec<MediaEntry>) -> (image: Option<Vec<u8>>)
    requires
        forall|i: int|
            0 <= i < entries@.len() ==> (#[trigger] entries@[i]).path@.len() <= MAX_PATH_BYTES
                && valid_utf8(entries@[i].path@),
    ensures
        match image {
            Some(bytes) => zip_image(media_views(entries@)) == Some(bytes@),
            None => zip_image(media_views(entries@)) is None,
        },
{
    let mut writer = zip::ZipWriter::new(std::io::Cursor::new(Vec::new()));
    let options = zip::write::SimpleFileOptions::default().last_modified_time(
        zip::DateTime::default(),
    );
    for entry in entries.iter() {
        let name = std::str::from_utf8(&entry.path).ok()?;
        writer.start_file(name, options).ok()?;
        std::io::Write::write_all(&mut writer, &entry.content).ok()?;
    }
    Some(writer.finish().ok()?.into_inner())
}

/// Reads back a zip archive that `write_zip` wrote, with `zip::ZipArchive`:
/// `by_index` for each entry of its directory in order, with the name as
/// `ZipFile::name_raw` and the contents as everything the entry reads. The
/// contract claims only that the listing depends on the image alone, and
/// that any error of the reader gives `None`.
#[verifier::external_body]
fn read_zip(image: &[u8]) -> (listing: Option<Vec<MediaEntry>>)
    requires
        exists|entries: Seq<MediaEntryView>| #[trigger] zip_image(entries) == Some(image@),
    ensures
        match listing {
            Some(entries) => zip_listing(image@) == Some(media_views(entries@)),
            None => zip_listing(image@) is None,
        },
{
    let mut archive = zip::ZipArchive::new(std::io::Cursor::new(image)).ok()?;
    let mut entries = Vec::new();
    for index in 0..archive.len() {
        let mut file = archive.by_index(index).ok()?;
        let path = file.name_raw().to_vec();
        let mut content = Vec::new();
        std::io::Read::read_to_end(&mut file, &mut content).ok()?;
        entries.push(MediaEntry { path, content });
    }
    Some(entries)
}

/// Tells whether two byte strings are equal.
fn same_bytes(left: &Vec<u8>, right: &Vec<u8>) -> (same: bool)
    ensures
        same == (left@ == right@),
{
    if left.len() != right.len() {
        return false;
    }
    let mut i: usize = 0;
    while i < left.len()
        invariant
            i <= left.len(),
            left.len() == right.len(),
            forall|j: int| 0 <= j < i ==> left@[j] == right@[j],
        decreases left.len() - i,
    {
        if left[i] != right[i] {
            return false;
        }
        i += 1;
    }
    assert(left@ =~= right@);
    true
}

/// Tells whether two lists hold the same entries in the same order: every
/// path and all contents equal, byte for byte.
pub fn same_entries(left: &Vec<MediaEntry>, right: &Vec<MediaEntry>) -> (same: bool)
    ensures
        same == (media_views(left@) == media_views(right@)),
{
    if left.len() != right.len() {
        assert(media_views(left@).len() != media_views(right@).len());
        return false;
    }
    let mut i: usize = 0;
    while i < left.len()
        invariant
            i <= left.len(),
            left.len() == right.len(),
            forall|j: int| 0 <= j < i ==> left@[j]@ == right@[j]@,
        decreases left.len() - i,
    {
        let equal = same_bytes(&left[i].path, &right[i].path) && same_bytes(
            &left[i].content,
            &right[i].content,
        );
        if !equal {
            assert(media_views(left@)[i as int] != media_views(right@)[i as int]);
            return false;
        }
        i += 1;
    }
    assert(media_views(left@) =~= media_views(right@));
    true
}

/// The result of transcoding a source listing. Malformed input fails. An
/// entry that cannot be planned or written fails. The image that was written
/// is read back, and the install media are that image only if it lists
/// exactly the planned entries; otherwise transcoding fails.
pub open spec fn transcode_outcome(listing: Option<Seq<SourceEntryView>>) -> Result<
    Seq<u8>,
    TranscodeError,
> {
    match listing {
        None => Err(TranscodeError::MalformedArchive),
        Some(sources) => match planned_media(sources) {
            None => Err(TranscodeError::UnrepresentableEntry),
            Some(media) => match zip_image(media) {
                None => Err(TranscodeError::UnrepresentableEntry),
                Some(image) => if zip_listing(image) == Some(media) {
                    Ok(image)
                } else {
                    Err(TranscodeError::UnrepresentableEntry)
                },
            },
        },
    }
}

/// The listing as plain values.
pub open spec fn listing_view(listing: Option<Vec<SourceEntry>>) -> Option<Seq<SourceEntryView>> {
    match listing {
        None => None,
        Some(entries) => Some(source_views(entries@)),
    }
}

/// Produces the install media for a source listing, or fails as a whole:
/// no partial archive is ever returned, nor one that does not read back as
/// the entries that were planned.
pub fn transcode_listing(listing: Option<Vec<SourceEntry>>) -> (media: Result<
    Vec<u8>,
    TranscodeError,
>)
    ensures
        match media {
            Ok(bytes) => transcode_outcome(listing_view(listing)) == Ok::<
                Seq<u8>,
                TranscodeError,
            >(bytes@),
            Err(e) => transcode_outcome(listing_view(listing)) == Err::<Seq<u8>, TranscodeError>(e),
        },
{
    let sources = match listing {
        None => {
            return Err(TranscodeError::MalformedArchive);
        },
        Some(sources) => sources,
    };
    let planned = match plan_media(&sources) {
        None => {
            return Err(TranscodeError::UnrepresentableEntry);
        },
        Some(planned) => planned,
    };
    proof {
        lemma_planned_paths_are_recordable(source_views(sources@));
        assert forall|i: int| 0 <= i < planned@.len() implies (#[trigger] planned@[i]).path@.len()
            <= MAX_PATH_BYTES && valid_utf8(planned@[i].path@) by {
            assert(media_views(planned@)[i] == planned@[i]@);
        }
    }
    let image = match write_zip(&planned) {
        None => {
            return Err(TranscodeError::UnrepresentableEntry);
        },
        Some(image) => image,
    };
    match read_zip(image.as_slice()) {
        None => Err(TranscodeError::UnrepresentableEntry),
        Some(listed) => if same_entries(&listed, &planned) {
            Ok(image)
        } else {
            Err(TranscodeError::UnrepresentableEntry)
        },
    }
}

/// Repacks a tar archive into zip-format install media, in memory.
pub fn repack_tar_to_zip(bytes: &[u8]) -> (media: Result<Vec<u8>, TranscodeError>)
    ensures
        match media {
            Ok(image) => transcode_outcome(tar_listing(bytes@)) == Ok::<Seq<u8>, TranscodeError>(
                image@,
            ),
            Err(e) => transcode_outcome(tar_listing(bytes@)) == Err::<Seq<u8>, TranscodeError>(e),
        },
{
    transcode_listing(read_tar(bytes))
}

/// Every path of a plan can be recorded by the destination container.
pub proof fn lemma_planned_paths_are_recordable(sources: Seq<SourceEntryView>)
    requires
        planned_media(sources) is Some,
    ensures
        forall|i: int|
            0 <= i < planned_media(sources)->Some_0.len() ==> recordable_path(
                (#[trigger] planned_media(sources)->Some_0[i]).path,
            ),
{
    assert forall|i: int| 0 <= i < sources.len() implies (#[trigger] planned_entry(
        sources[i],
    )) is Some by {}
}

/// The path and contents of a source entry, as the media would hold them
/// unchanged.
pub open spec fn carried_over(source: SourceEntryView) -> MediaEntryView {
    MediaEntryView { path: source.path, content: source.content }
}

/// What planning promises for each entry: the media list the entries of the
/// source one for one and in order; a file keeps its path and its contents
/// byte for byte, and a directory keeps its path up to the closing separator.
pub proof fn lemma_plan_keeps_every_entry(sources: Seq<SourceEntryView>)
    requires
        planned_media(sources) is Some,
    ensures
        planned_media(sources)->Some_0.len() == sources.len(),
        forall|i: int|
            0 <= i < sources.len() && kind_of(sources[i].type_flag) == EntryKind::File ==> (
            #[trigger] planned_media(sources)->Some_0[i]) == carried_over(sources[i]),
        forall|i: int|
            0 <= i < sources.len() && kind_of(sources[i].type_flag) == EntryKind::Directory ==> (
            #[trigger] planned_media(sources)->Some_0[i]).path == directory_path(sources[i].path),
{
    assert forall|i: int| 0 <= i < sources.len() implies (#[trigger] planned_entry(
        sources[i],
    )) is Some by {}
}

/// Whatever is handed out as install media reads back as the plan: the zip
/// image lists one entry for each entry of the source, in order, each as
/// planned.
pub proof fn lemma_media_read_back_as_planned(sources: Seq<SourceEntryView>, image: Seq<u8>)
    requires
        transcode_outcome(Some(sources)) == Ok::<Seq<u8>, TranscodeError>(image),
    ensures
        planned_media(sources) is Some,
        zip_listing(image) == planned_media(sources),
{
}

/// Round trip for an archive of files: whenever install media are handed
/// out, the set of (path, contents) pairs read back from them is the set
/// that the source archive holds; nothing is added, dropped or changed.
pub proof fn lemma_files_survive_transcoding(sources: Seq<SourceEntryView>, image: Seq<u8>)
    requires
        forall|i: int|
            0 <= i < sources.len() ==> kind_of((#[trigger] sources[i]).type_flag)
                == EntryKind::File,
        transcode_outcome(Some(sources)) == Ok::<Seq<u8>, TranscodeError>(image),
    ensures
        zip_listing(image) == Some(
            sources.map_values(|source: SourceEntryView| carried_over(source)),
        ),
        zip_listing(image)->Some_0.to_set() == sources.map_values(
            |source: SourceEntryView| carried_over(source),
        ).to_set(),
{
    lemma_plan_keeps_every_entry(sources);
    let media = planned_media(sources)->Some_0;
    let kept = sources.map_values(|source: SourceEntryView| carried_over(source));
    assert(media =~= kept);
}

/// The order of the source entries does not matter to the plan: two archives
/// that hold the same entries, in any order, are both planned or both
/// refused, and where planned their plans hold the same set of entries.
pub proof fn lemma_plan_ignores_entry_order(
    first: Seq<SourceEntryView>,
    second: Seq<SourceEntryView>,
)
    requires
        first.to_multiset() == second.to_multiset(),
    ensures
        planned_media(first) is Some <==> planned_media(second) is Some,
        planned_media(first) is Some ==> planned_media(first)->Some_0.to_set() == planned_media(
            second,
        )->Some_0.to_set(),
{
    lemma_same_entries_same_plan(first, second);
    lemma_same_entries_same_plan(second, first);
    if planned_media(first) is Some {
        assert(planned_media(first)->Some_0.to_set() =~= planned_media(second)->Some_0.to_set());
    }
}

/// The order of the source entries does not matter to what reaches the
/// installer: when two archives that hold the same entries, in any order,
/// both yield install media, the two images read back as the same set of
/// entries.
pub proof fn lemma_entry_order_is_immaterial(
    first: Seq<SourceEntryView>,
    second: Seq<SourceEntryView>,
    first_image: Seq<u8>,
    second_image: Seq<u8>,
)
    requires
        first.to_multiset() == second.to_multiset(),
        transcode_outcome(Some(first)) == Ok::<Seq<u8>, TranscodeError>(first_image),
        transcode_outcome(Some(second)) == Ok::<Seq<u8>, TranscodeError>(second_image),
    ensures
        zip_listing(first_image) is Some,
        zip_listing(second_image) is Some,
        zip_listing(first_image)->Some_0.to_set() == zip_listing(second_image)->Some_0.to_set(),
{
    lemma_plan_ignores_entry_order(first, second);
}

/// One direction of the law on plans: what the plan of `second` holds, the
/// plan of `first` holds too, where both archives hold the same entries.
proof fn lemma_same_entries_same_plan(first: Seq<SourceEntryView>, second: Seq<SourceEntryView>)
    requires
        first.to_multiset() == second.to_multiset(),
    ensures
        planned_media(first) is Some ==> planned_media(second) is Some,
        planned_media(first) is Some ==> forall|entry: MediaEntryView|
            planned_media(second)->Some_0.contains(entry) ==> #[trigger] planned_media(
                first,
            )->Some_0.contains(entry),
{
    if planned_media(first) is Some {
        let planned = planned_media(first)->Some_0;
        assert forall|j: int| 0 <= j < second.len() implies (#[trigger] planned_entry(
            second[j],
        )) is Some && planned.contains(planned_entry(second[j])->Some_0) by {
            to_multiset_contains(first, second[j]);
            to_multiset_contains(second, second[j]);
            assert(second.contains(second[j]));
            let i = choose|i: int| 0 <= i < first.len() && first[i] == second[j];
            assert(planned_entry(first[i]) is Some);
            assert(planned[i] == planned_entry(second[j])->Some_0);
        }
        let other = planned_media(second)->Some_0;
        assert forall|entry: MediaEntryView| other.contains(entry) implies planned.contains(
            entry,
        ) by {
            let j = choose|j: int| 0 <= j < other.len() && other[j] == entry;
            assert(planned.contains(planned_entry(second[j])->Some_0));
        }
    }
}

} // verus!
