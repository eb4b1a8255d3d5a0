//! Containers: the verdict on one, and the operations that make, change,
//! compact, unpack and describe one. Each operation takes the container as
//! it was read and says what is to be written.

use crate::archive::{
    entry_names, find_entry, find_first_fault, first_fault, index_for_name, manifest_name,
    plan_rebuild, rebuild_plan, ArchiveEntry, FaultKind, PlannedEntry,
};
use crate::file_util::{
    get_funscript_duration, get_hash_string, hex_lower, greatest_action_time, sha256, GetDurationError,
};
use crate::funscript::Funscript;
use crate::metadata::{
    any_named_in, has_work_named, item_names, not_named_in, remove_named, script_views,
    subtitle_views, video_views, work_not_named, work_views, CreatorInfo, CreatorInfoView, CreatorsMetadataView, FsvMetadata, FsvMetadataView, ScriptVariant,
    ScriptVariantView, SubtitleTrack, SubtitleTrackView, VideoFormat, VideoFormatView,
    WorkCreatorsMetadata, WorkCreatorsMetadataView, WorkItem,
};
use crate::semver::{lemma_parse_version_text, parse_version, precedes, version_text, Version};
use crate::text::{
    is_blank, is_blank_str, lemma_index_of, listed, parse_list, split_once, split_once_str, trim,
    trimmed, views,
};
use std::path::{Path, PathBuf};
use vstd::prelude::*;
use vstd::string::StringExecFns;

verus! {

/// An owned path of the file system, carried through as it is.
#[verifier::external_type_specification]
#[verifier::external_body]
pub struct ExPathBuf(std::path::PathBuf);

/// A borrowed path of the file system, carried through as it is.
#[verifier::external_type_specification]
#[verifier::external_body]
pub struct ExPath(std::path::Path);

/// The newest version of the format that this library writes and reads.
pub open spec fn latest_format_version() -> Version {
    Version { major: 1, minor: 0, patch: 0 }
}

/// The oldest version of the format that this library reads.
pub open spec fn minimum_format_version() -> Version {
    Version { major: 1, minor: 0, patch: 0 }
}

pub fn latest_fsv_format_version() -> (v: Version)
    ensures
        v == latest_format_version(),
{
    Version::new(1, 0, 0)
}

pub fn minimum_fsv_format_version() -> (v: Version)
    ensures
        v == minimum_format_version(),
{
    Version::new(1, 0, 0)
}

/// The kinds of item that a container holds.
#[derive(Debug, Clone, Copy, PartialEq, Eq, Structural)]
pub enum ItemType {
    Video,
    Script,
    Subtitle,
}

impl ItemType {
    pub open spec fn name(self) -> Seq<char> {
        match self {
            ItemType::Video => "Video"@,
            ItemType::Script => "Script"@,
            ItemType::Subtitle => "Subtitle"@,
        }
    }

    pub open spec fn name_lower(self) -> Seq<char> {
        match self {
            ItemType::Video => "video"@,
            ItemType::Script => "script"@,
            ItemType::Subtitle => "subtitle"@,
        }
    }

    pub fn get_name(&self) -> (name: &'static str)
        ensures
            name@ == self.name(),
    {
        match self {
            ItemType::Video => "Video",
            ItemType::Script => "Script",
            ItemType::Subtitle => "Subtitle",
        }
    }

    pub fn get_name_lower(&self) -> (name: &'static str)
        ensures
            name@ == self.name_lower(),
    {
        match self {
            ItemType::Video => "video",
            ItemType::Script => "script",
            ItemType::Subtitle => "subtitle",
        }
    }
}

/// The kinds of thing that can be taken out of a container.
#[derive(Debug, Clone, Copy, PartialEq, Eq, Structural)]
pub enum EntryType {
    Creator,
    Video,
    Script,
    Subtitle,
}

impl EntryType {
    pub open spec fn name(self) -> Seq<char> {
        match self {
            EntryType::Creator => "Creator"@,
            EntryType::Video => "Video"@,
            EntryType::Script => "Script"@,
            EntryType::Subtitle => "Subtitle"@,
        }
    }

    pub fn get_name(&self) -> (name: &'static str)
        ensures
            name@ == self.name(),
    {
        match self {
            EntryType::Creator => "Creator",
            EntryType::Video => "Video",
            EntryType::Script => "Script",
            EntryType::Subtitle => "Subtitle",
        }
    }
}

/// What a container is worth.
#[derive(Debug, Clone, PartialEq)]
pub enum FsvState {
    /// The manifest is sound and everything it names is there.
    Valid,
    /// The manifest is sound, but not all that it names can be had.
    ContentIncomplete(ContentIncompleteReason),
    /// The manifest is not sound.
    MetadataInvalid(MetadataInvalidReason),
}

/// What is wrong with the content, and with which kind of item.
#[derive(Debug, Clone, Copy, PartialEq, Eq, Structural)]
pub enum ContentIncompleteReason {
    UnableToReadItem(ItemType),
    MissingItemFile(ItemType),
    ItemPasswordProtected(ItemType),
    DuplicateItemEntry(ItemType),
}

/// What is wrong with the manifest.
#[derive(Debug, Clone, PartialEq)]
pub enum MetadataInvalidReason {
    /// The version of the format is no version.
    InvalidFormatVersion,
    /// The manifest does not follow the schema; the text says where.
    MalformedJson(String),
    /// The version of the format is outside what this library reads.
    UnsupportedFormatVersion(Version),
    /// No video format has a name.
    MissingVideoFormat,
    /// No script variant has a name.
    MissingScriptVariant,
}

/// Why a container could not be opened or written.
#[derive(Debug, Clone, PartialEq)]
pub enum FsvError {
    Io(String),
    Zip(String),
    SerdeJson(String),
    DbClient(String),
    MetadataFileNotFound,
    CreatorInfoNotFound(String),
}

/// Why no verdict could be given.
#[derive(Debug, Clone, PartialEq)]
pub enum FsvValidationError {
    Io(String),
    Zip(String),
    SerdeJson(String),
    MetadataNotFound,
}

/// Why a container could not be unpacked.
#[derive(Debug, Clone, PartialEq)]
pub enum FsvExtractError {
    Io(String),
    Zip(String),
    SerdeJson(String),
    Validation(FsvValidationError),
    MetadataNotFound,
    InvalidState(FsvState),
}

/// Why a container could not be made.
#[derive(Debug, PartialEq)]
pub enum FsvCreateError {
    Io(String),
    Zip(String),
    SerdeJson(String),
    FromUtf8(String),
    DbClient(String),
    Fsv(FsvError),
    GetDurationError(GetDurationError),
    FsvAlreadyExists(PathBuf),
    CreatorInfoNotFound(ItemType, String),
}

/// Why nothing could be added to a container.
#[derive(Debug, PartialEq)]
pub enum FsvAddError {
    Io(String),
    Zip(String),
    SerdeJson(String),
    DbClient(String),
    Fsv(FsvError),
    GetVideoDuration(GetDurationError),
    UnableToGetFileName(PathBuf),
    CreatorInfoNotFound(String),
}

/// Why nothing could be taken out of a container.
#[derive(Debug, Clone, PartialEq)]
pub enum FsvRemoveError {
    Io(String),
    Zip(String),
    SerdeJson(String),
    DbClient(String),
    Fsv(FsvError),
    EntryNotFound(String),
}

/// Why a container could not be compacted.
#[derive(Debug, Clone, PartialEq)]
pub enum FsvRebuildError {
    Io(String),
    Zip(String),
    SerdeJson(String),
    DbClient(String),
    Fsv(FsvError),
}

/// What is asked for when a container is made.
#[derive(Debug)]
pub struct CreateArgs {
    pub path: PathBuf,
    pub title: String,
    pub tags: Vec<String>,
    pub video: Option<PathBuf>,
    pub script: Option<PathBuf>,
    pub video_creator_key: Option<String>,
    pub script_creator_key: Option<String>,
}

impl CreateArgs {
    pub fn new(
        path: PathBuf,
        title: String,
        tags: Vec<String>,
        video: Option<PathBuf>,
        script: Option<PathBuf>,
        video_creator_key: Option<String>,
        script_creator_key: Option<String>,
    ) -> (args: CreateArgs)
        ensures
            args.path == path,
            args.title == title,
            args.tags == tags,
            args.video == video,
            args.script == script,
            args.video_creator_key == video_creator_key,
            args.script_creator_key == script_creator_key,
    {
        CreateArgs { path, title, tags, video, script, video_creator_key, script_creator_key }
    }
}

/// What is asked for when an item is added.
#[derive(Debug)]
pub struct AddArgs {
    pub path: PathBuf,
    pub item_type: ItemType,
    pub item_path: PathBuf,
    pub creator_key: Option<String>,
}

impl AddArgs {
    pub fn new(path: PathBuf, item_type: ItemType, item_path: PathBuf, creator_key: Option<String>) -> (args:
        AddArgs)
        ensures
            args.path == path,
            args.item_type == item_type,
            args.item_path == item_path,
            args.creator_key == creator_key,
    {
        AddArgs { path, item_type, item_path, creator_key }
    }
}

/// A file to put into an archive under a name.
#[derive(Debug)]
pub struct AddFile<'a> {
    pub name: &'a str,
    pub path: &'a Path,
}

impl<'a> AddFile<'a> {
    pub fn new(name: &'a str, path: &'a Path) -> (file: AddFile<'a>)
        ensures
            file.name == name,
            file.path == path,
    {
        AddFile { name, path }
    }
}

/// The checksum of an item: `sha256:` and the digest of its bytes in
/// lower-case hexadecimal.
pub open spec fn file_hash(data: Seq<u8>) -> Seq<char> {
    "sha256:"@ + hex_lower(sha256(data))
}

/// The checksum of an item: 71 characters.
pub fn get_file_hash(data: &[u8]) -> (hash: String)
    ensures
        hash@ == file_hash(data@),
        hash@.len() == 71,
{
    let digest = get_hash_string(data);
    let mut hash = "sha256:".to_owned();
    hash.append(digest.as_str());
    proof {
        reveal_strlit("sha256:");
    }
    hash
}

// ---------------------------------------------------------------------------
// The container as it was read
// ---------------------------------------------------------------------------

/// What reading the manifest entry as a manifest gave.
#[derive(Debug, Clone, PartialEq)]
pub enum ManifestRead {
    /// The manifest.
    Parsed(FsvMetadata),
    /// The entry reads as a manifest, but the text of its format version is
    /// no version; the text here is the message of the version error.
    InvalidVersion(String),
    /// The entry does not read as a manifest; the text is the reader's
    /// message.
    Malformed(String),
}

/// What a manifest gives whose format version is still the text that
/// stood in its place: the manifest with the version that the text stands
/// for, or the version error where it stands for none.
pub open spec fn manifest_as_read(
    format_version: Seq<char>,
    manifest: FsvMetadata,
    read: ManifestRead,
) -> bool {
    match parse_version(format_version) {
        Ok(version) => read == ManifestRead::Parsed(
            FsvMetadata { format_version: version, ..manifest },
        ),
        Err(fault) => read matches ManifestRead::InvalidVersion(message) && message@
            == fault.message(),
    }
}

/// Finishes the reading of a manifest: `format_version` is the text of its
/// format version, and `manifest` is all the rest, with any version in the
/// place of the one that the text is read for here.
pub fn read_manifest(format_version: &str, manifest: FsvMetadata) -> (read: ManifestRead)
    ensures
        manifest_as_read(format_version@, manifest, read),
{
    match Version::parse(format_version) {
        Ok(version) => {
            let mut manifest = manifest;
            manifest.format_version = version;
            ManifestRead::Parsed(manifest)
        },
        Err(e) => ManifestRead::InvalidVersion(e.to_string()),
    }
}

/// A container as it was read: the entries of its archive, and what reading
/// the manifest gave. The latter counts only where the archive has an
/// entry for the manifest and that entry opens.
#[derive(Debug, Clone, PartialEq)]
pub struct Container {
    pub entries: Vec<ArchiveEntry>,
    pub manifest: ManifestRead,
}

impl Container {
    pub fn new(entries: Vec<ArchiveEntry>, manifest: ManifestRead) -> (container: Container)
        ensures
            container.entries == entries,
            container.manifest == manifest,
    {
        Container { entries, manifest }
    }
}

/// Opening a container: the manifest, or why there is none. The archive
/// must hold an entry for the manifest, the entry must open, and it must
/// read as a manifest.
pub open spec fn opened(container: Container) -> Result<FsvMetadata, FsvError> {
    match find_entry(container.entries@, manifest_name()) {
        None => Err(FsvError::MetadataFileNotFound),
        Some(i) => match container.entries@[i].fault {
            Some(fault) => Err(FsvError::Zip(fault.detail)),
            None => match container.manifest {
                ManifestRead::Malformed(message) => Err(FsvError::SerdeJson(message)),
                ManifestRead::InvalidVersion(message) => Err(FsvError::SerdeJson(message)),
                ManifestRead::Parsed(metadata) => Ok(metadata),
            },
        },
    }
}

/// Opens a container: gives its entries and its manifest.
pub fn open_fsv(container: Container) -> (r: Result<(Vec<ArchiveEntry>, FsvMetadata), FsvError>)
    ensures
        match r {
            Ok((entries, metadata)) => entries == container.entries && opened(container) == Ok::<
                FsvMetadata,
                FsvError,
            >(metadata),
            Err(e) => opened(container) == Err::<FsvMetadata, FsvError>(e),
        },
{
    let Container { entries, manifest } = container;
    match index_for_name(&entries, "metadata.json") {
        None => Err(FsvError::MetadataFileNotFound),
        Some(i) => {
            match &entries[i].fault {
                Some(fault) => {
                    let detail = fault.detail.clone();
                    Err(FsvError::Zip(detail))
                },
                None => match manifest {
                    ManifestRead::Malformed(message) => Err(FsvError::SerdeJson(message)),
                    ManifestRead::InvalidVersion(message) => Err(FsvError::SerdeJson(message)),
                    ManifestRead::Parsed(metadata) => Ok((entries, metadata)),
                },
            }
        },
    }
}

// ---------------------------------------------------------------------------
// The verdict
// ---------------------------------------------------------------------------

/// Whether a version of the format is one that this library reads.
pub open spec fn version_supported(v: Version) -> bool {
    !precedes(latest_format_version(), v) && !precedes(v, minimum_format_version())
}

/// Whether one of `names` is not blank.
pub open spec fn has_named(names: Seq<Seq<char>>) -> bool {
    exists|i: int| 0 <= i < names.len() && !is_blank(#[trigger] names[i])
}

/// Whether the name at place `i`, trimmed, was met before that place.
pub open spec fn seen_before(names: Seq<Seq<char>>, i: int) -> bool {
    exists|j: int| 0 <= j < i && trimmed(#[trigger] names[j]) == trimmed(names[i])
}

/// What looking for one item in the archive says of the container: nothing
/// where the entry is there and opens.
pub open spec fn lookup_verdict(item_type: ItemType, entries: Seq<ArchiveEntry>, name: Seq<char>) -> Option<
    Result<FsvState, FsvValidationError>,
> {
    match find_entry(entries, name) {
        None => Some(
            Ok(FsvState::ContentIncomplete(ContentIncompleteReason::MissingItemFile(item_type))),
        ),
        Some(i) => match entries[i].fault {
            None => None,
            Some(fault) => match fault.kind {
                FaultKind::Io => Some(
                    Ok(
                        FsvState::ContentIncomplete(
                            ContentIncompleteReason::UnableToReadItem(item_type),
                        ),
                    ),
                ),
                FaultKind::PasswordProtected => Some(
                    Ok(
                        FsvState::ContentIncomplete(
                            ContentIncompleteReason::ItemPasswordProtected(item_type),
                        ),
                    ),
                ),
                FaultKind::Other => Some(Err(FsvValidationError::Zip(fault.detail))),
            },
        },
    }
}

/// The verdict on the items of one kind from place `from` on, in order:
/// a blank name is passed over; a name met before ends the check as a
/// duplicate; then the archive is asked for the entry, and the first entry
/// that is not there or does not open ends the check.
pub open spec fn check_items(
    item_type: ItemType,
    names: Seq<Seq<char>>,
    entries: Seq<ArchiveEntry>,
    from: int,
) -> Result<FsvState, FsvValidationError>
    decreases names.len() - from,
{
    if from < 0 || from >= names.len() {
        Ok(FsvState::Valid)
    } else if is_blank(names[from]) {
        check_items(item_type, names, entries, from + 1)
    } else if seen_before(names, from) {
        Ok(FsvState::ContentIncomplete(ContentIncompleteReason::DuplicateItemEntry(item_type)))
    } else {
        match lookup_verdict(item_type, entries, trimmed(names[from])) {
            Some(verdict) => verdict,
            None => check_items(item_type, names, entries, from + 1),
        }
    }
}

/// The verdict on the items of one kind.
pub fn validate_item_contents<Item: WorkItem>(
    item_type: ItemType,
    items: &Vec<Item>,
    entries: &Vec<ArchiveEntry>,
) -> (r: Result<FsvState, FsvValidationError>)
    ensures
        r == check_items(item_type, item_names(items@), entries@, 0),
{
    let ghost names = item_names(items@);
    let n: usize = items.len();
    let mut i: usize = 0;
    while i < n
        invariant
            i <= n == items.len(),
            names == item_names(items@),
            check_items(item_type, names, entries@, 0) == check_items(
                item_type,
                names,
                entries@,
                i as int,
            ),
        decreases n - i,
    {
        let file_name = trim(items[i].get_name());
        assert(names[i as int] == items@[i as int].item_name());
        if file_name.unicode_len() == 0 {
            i = i + 1;
            continue ;
        }
        let key = file_name.to_owned();
        let mut duplicate: bool = false;
        let mut j: usize = 0;
        while j < i
            invariant
                j <= i < items.len(),
                names == item_names(items@),
                key@ == trimmed(names[i as int]),
                duplicate == (exists|k: int|
                    0 <= k < j && trimmed(#[trigger] names[k]) == trimmed(names[i as int])),
            decreases i - j,
        {
            let other = trim(items[j].get_name()).to_owned();
            assert(names[j as int] == items@[j as int].item_name());
            if other == key {
                duplicate = true;
            }
            j = j + 1;
        }
        if duplicate {
            return Ok(
                FsvState::ContentIncomplete(ContentIncompleteReason::DuplicateItemEntry(item_type)),
            );
        }
        match index_for_name(entries, file_name) {
            None => {
                return Ok(
                    FsvState::ContentIncomplete(
                        ContentIncompleteReason::MissingItemFile(item_type),
                    ),
                );
            },
            Some(k) => {
                match &entries[k].fault {
                    None => {},
                    Some(fault) => {
                        match fault.kind {
                            FaultKind::Io => {
                                return Ok(
                                    FsvState::ContentIncomplete(
                                        ContentIncompleteReason::UnableToReadItem(item_type),
                                    ),
                                );
                            },
                            FaultKind::PasswordProtected => {
                                return Ok(
                                    FsvState::ContentIncomplete(
                                        ContentIncompleteReason::ItemPasswordProtected(item_type),
                                    ),
                                );
                            },
                            FaultKind::Other => {
                                let detail = fault.detail.clone();
                                return Err(FsvValidationError::Zip(detail));
                            },
                        }
                    },
                }
            },
        }
        i = i + 1;
    }
    Ok(FsvState::Valid)
}

/// The verdict on a manifest that was read, against the archive: the
/// version of the format must be one that this library reads; a video
/// format and a script variant must have a name; then the videos, the
/// scripts and the subtitles are checked in this order, and the first kind
/// that is not in order gives the verdict.
pub open spec fn manifest_verdict(metadata: FsvMetadata, entries: Seq<ArchiveEntry>) -> Result<
    FsvState,
    FsvValidationError,
> {
    if !version_supported(metadata.format_version) {
        Ok(
            FsvState::MetadataInvalid(
                MetadataInvalidReason::UnsupportedFormatVersion(metadata.format_version),
            ),
        )
    } else if !has_named(item_names(metadata.video_formats@)) {
        Ok(FsvState::MetadataInvalid(MetadataInvalidReason::MissingVideoFormat))
    } else if !has_named(item_names(metadata.script_variants@)) {
        Ok(FsvState::MetadataInvalid(MetadataInvalidReason::MissingScriptVariant))
    } else {
        let videos = check_items(ItemType::Video, item_names(metadata.video_formats@), entries, 0);
        if videos != Ok::<FsvState, FsvValidationError>(FsvState::Valid) {
            videos
        } else {
            let scripts = check_items(
                ItemType::Script,
                item_names(metadata.script_variants@),
                entries,
                0,
            );
            if scripts != Ok::<FsvState, FsvValidationError>(FsvState::Valid) {
                scripts
            } else {
                check_items(ItemType::Subtitle, item_names(metadata.subtitle_tracks@), entries, 0)
            }
        }
    }
}

/// The verdict on a container, or why none can be given. Without an entry
/// for the manifest there is no container to judge, and the same holds
/// where that entry does not open. A manifest that does not read makes
/// the container invalid: by its format version where the text of that is
/// no version, and as malformed, with the reader's message, for any other
/// failure of the reader.
pub open spec fn verdict(container: Container) -> Result<FsvState, FsvValidationError> {
    match find_entry(container.entries@, manifest_name()) {
        None => Err(FsvValidationError::MetadataNotFound),
        Some(i) => match container.entries@[i].fault {
            Some(fault) => Err(FsvValidationError::Zip(fault.detail)),
            None => match container.manifest {
                ManifestRead::Malformed(message) => Ok(
                    FsvState::MetadataInvalid(MetadataInvalidReason::MalformedJson(message)),
                ),
                ManifestRead::InvalidVersion(_) => Ok(
                    FsvState::MetadataInvalid(MetadataInvalidReason::InvalidFormatVersion),
                ),
                ManifestRead::Parsed(metadata) => manifest_verdict(metadata, container.entries@),
            },
        },
    }
}

/// Whether one of the items has a name that is not blank.
fn any_named<Item: WorkItem>(items: &Vec<Item>) -> (r: bool)
    ensures
        r == has_named(item_names(items@)),
{
    let ghost names = item_names(items@);
    let n: usize = items.len();
    let mut i: usize = 0;
    while i < n
        invariant
            i <= n == items.len(),
            names == item_names(items@),
            forall|k: int| 0 <= k < i ==> is_blank(#[trigger] names[k]),
        decreases n - i,
    {
        assert(names[i as int] == items@[i as int].item_name());
        if !is_blank_str(items[i].get_name()) {
            return true;
        }
        i = i + 1;
    }
    false
}

/// The verdict on a manifest that was read, against the archive.
pub fn validate_metadata(metadata: &FsvMetadata, entries: &Vec<ArchiveEntry>) -> (r: Result<
    FsvState,
    FsvValidationError,
>)
    ensures
        r == manifest_verdict(*metadata, entries@),
{
    if metadata.format_version > latest_fsv_format_version() || metadata.format_version
        < minimum_fsv_format_version() {
        return Ok(
            FsvState::MetadataInvalid(
                MetadataInvalidReason::UnsupportedFormatVersion(metadata.format_version),
            ),
        );
    }
    if !any_named(&metadata.video_formats) {
        return Ok(FsvState::MetadataInvalid(MetadataInvalidReason::MissingVideoFormat));
    }
    if !any_named(&metadata.script_variants) {
        return Ok(FsvState::MetadataInvalid(MetadataInvalidReason::MissingScriptVariant));
    }
    let videos = validate_item_contents(ItemType::Video, &metadata.video_formats, entries);
    match videos {
        Ok(FsvState::Valid) => {},
        _ => {
            return videos;
        },
    }
    let scripts = validate_item_contents(ItemType::Script, &metadata.script_variants, entries);
    match scripts {
        Ok(FsvState::Valid) => {},
        _ => {
            return scripts;
        },
    }
    validate_item_contents(ItemType::Subtitle, &metadata.subtitle_tracks, entries)
}

/// The verdict on a container, or why none can be given.
pub fn validate_fsv(container: &Container) -> (r: Result<FsvState, FsvValidationError>)
    ensures
        r == verdict(*container),
{
    match index_for_name(&container.entries, "metadata.json") {
        None => Err(FsvValidationError::MetadataNotFound),
        Some(i) => {
            match &container.entries[i].fault {
                Some(fault) => {
                    let detail = fault.detail.clone();
                    Err(FsvValidationError::Zip(detail))
                },
                None => match &container.manifest {
                    ManifestRead::Malformed(message) => Ok(
                        FsvState::MetadataInvalid(
                            MetadataInvalidReason::MalformedJson(message.clone()),
                        ),
                    ),
                    ManifestRead::InvalidVersion(_) => Ok(
                        FsvState::MetadataInvalid(MetadataInvalidReason::InvalidFormatVersion),
                    ),
                    ManifestRead::Parsed(metadata) => validate_metadata(metadata, &container.entries),
                },
            }
        },
    }
}

// ---------------------------------------------------------------------------
// Writing
// ---------------------------------------------------------------------------

/// What is to be written: the manifest, and where each entry of the new
/// archive comes from.
#[derive(Debug, Clone, PartialEq)]
pub struct Rewrite {
    pub metadata: FsvMetadata,
    pub plan: Vec<PlannedEntry>,
}

/// The plan of a first archive: the manifest, then the files to add in
/// their order.
pub fn build_archive(added: usize) -> (plan: Vec<PlannedEntry>)
    ensures
        plan@ == rebuild_plan(Seq::empty(), Seq::empty(), added as nat),
{
    let entries: Vec<ArchiveEntry> = Vec::new();
    let remove: Vec<String> = Vec::new();
    let plan = plan_rebuild(&entries, &remove, added);
    assert(entry_names(entries@) =~= Seq::<Seq<char>>::empty());
    assert(views(remove@) =~= Seq::<Seq<char>>::empty());
    plan
}

/// The plan by which an archive is written anew, or the fault of the first
/// entry that does not open: every entry is opened before it is looked at,
/// so one that does not open fails the whole.
pub open spec fn archive_rebuilt(
    entries: Seq<ArchiveEntry>,
    remove: Seq<Seq<char>>,
    added: nat,
) -> Result<Seq<PlannedEntry>, FsvError> {
    match first_fault(entries) {
        Some(i) => Err(FsvError::Zip(entries[i].fault->0.detail)),
        None => Ok(rebuild_plan(entry_names(entries), remove, added)),
    }
}

/// The plan by which an archive is written anew: the manifest first, then
/// every old entry but the manifest and those named in `remove_files`,
/// then `added` files.
pub fn rebuild_archive(entries: &Vec<ArchiveEntry>, added: usize, remove_files: &Vec<String>) -> (r:
    Result<Vec<PlannedEntry>, FsvError>)
    ensures
        match r {
            Ok(plan) => archive_rebuilt(entries@, views(remove_files@), added as nat) == Ok::<
                Seq<PlannedEntry>,
                FsvError,
            >(plan@),
            Err(e) => archive_rebuilt(entries@, views(remove_files@), added as nat) == Err::<
                Seq<PlannedEntry>,
                FsvError,
            >(e),
        },
{
    match find_first_fault(entries) {
        Some(i) => {
            match &entries[i].fault {
                Some(fault) => {
                    let detail = fault.detail.clone();
                    Err(FsvError::Zip(detail))
                },
                None => {
                    proof {
                        crate::archive::lemma_first_fault(entries@);
                    }
                    Ok(Vec::new())
                },
            }
        },
        None => Ok(plan_rebuild(entries, remove_files, added)),
    }
}

// ---------------------------------------------------------------------------
// Taking out
// ---------------------------------------------------------------------------

/// The axes that a script can be split by, each in a file of its own.
pub open spec fn axis_names() -> Seq<Seq<char>> {
    seq![
        "pitch"@,
        "roll"@,
        "suckManual"@,
        "surge"@,
        "sway"@,
        "twist"@,
        "valve"@,
        "vib"@,
        "lube"@,
        "suck"@,
        "max"@,
    ]
}

/// The name of the axis at place `k`.
fn axis_name(k: usize) -> (name: &'static str)
    requires
        k < 11,
    ensures
        name@ == axis_names()[k as int],
{
    if k == 0 {
        "pitch"
    } else if k == 1 {
        "roll"
    } else if k == 2 {
        "suckManual"
    } else if k == 3 {
        "surge"
    } else if k == 4 {
        "sway"
    } else if k == 5 {
        "twist"
    } else if k == 6 {
        "valve"
    } else if k == 7 {
        "vib"
    } else if k == 8 {
        "lube"
    } else if k == 9 {
        "suck"
    } else {
        "max"
    }
}

/// What stands before the first dot of a name: the whole name where it has
/// no dot.
pub open spec fn name_stem(name: Seq<char>) -> Seq<char> {
    match split_once(name, '.') {
        Some((stem, _)) => stem,
        None => name,
    }
}

/// What stands after the first dot of a name, or `default` where it has no
/// dot.
pub open spec fn name_extension(name: Seq<char>, default: Seq<char>) -> Seq<char> {
    match split_once(name, '.') {
        Some((_, extension)) => extension,
        None => default,
    }
}

/// The name of the file that holds one axis of a script.
pub open spec fn companion_name(stem: Seq<char>, axis: Seq<char>, extension: Seq<char>) -> Seq<
    char,
> {
    stem + seq!['.'] + axis + seq!['.'] + extension
}

/// The files of the script named `entry_id`: the name itself, and where
/// its extension is `funscript`, the file of each axis beside it.
pub open spec fn script_file_names(entry_id: Seq<char>) -> Seq<Seq<char>> {
    let stem = name_stem(entry_id);
    let extension = name_extension(entry_id, "funscript"@);
    if extension != "funscript"@ {
        seq![entry_id]
    } else {
        seq![entry_id] + axis_names().map_values(
            |axis: Seq<char>| companion_name(stem, axis, extension),
        )
    }
}

/// The stem and the extension of a name.
pub fn split_name(name: &str, default_extension: &str) -> (r: (String, String))
    ensures
        r.0@ == name_stem(name@),
        r.1@ == name_extension(name@, default_extension@),
{
    match split_once_str(name, '.') {
        Some((stem, extension)) => (stem, extension),
        None => (name.to_owned(), default_extension.to_owned()),
    }
}

/// The files of the script named `entry_id`.
pub fn script_names(entry_id: &str) -> (names: Vec<String>)
    ensures
        views(names@) == script_file_names(entry_id@),
{
    let (stem, extension) = split_name(entry_id, "funscript");
    let plain = "funscript".to_owned();
    let mut names: Vec<String> = Vec::new();
    names.push(entry_id.to_owned());
    if extension != plain {
        assert(views(names@) =~= seq![entry_id@]);
        return names;
    }
    let ghost companions = axis_names().map_values(
        |axis: Seq<char>| companion_name(stem@, axis, extension@),
    );
    let mut k: usize = 0;
    assert(views(names@) =~= seq![entry_id@] + companions.take(0));
    while k < 11
        invariant
            k <= 11,
            companions == axis_names().map_values(
                |axis: Seq<char>| companion_name(stem@, axis, extension@),
            ),
            views(names@) == seq![entry_id@] + companions.take(k as int),
        decreases 11 - k,
    {
        let mut name = stem.clone();
        name.push('.');
        name.append(axis_name(k));
        name.push('.');
        name.append(extension.as_str());
        assert(name@ =~= companions[k as int]);
        let ghost before = names@;
        names.push(name);
        assert(views(names@) =~= views(before).push(companions[k as int]));
        assert(companions.take(k + 1) =~= companions.take(k as int).push(companions[k as int]));
        assert(views(names@) =~= seq![entry_id@] + companions.take(k + 1));
        k = k + 1;
    }
    assert(companions.take(11) =~= companions);
    names
}

/// The names of the archive entries that go with what is taken out.
pub open spec fn removed_names(entry_type: EntryType, entry_id: Seq<char>) -> Seq<Seq<char>> {
    match entry_type {
        EntryType::Creator => Seq::empty(),
        EntryType::Video => seq![entry_id],
        EntryType::Script => script_file_names(entry_id),
        EntryType::Subtitle => seq![entry_id],
    }
}

/// Whether the manifest holds what is to be taken out: a work of that name
/// for a creator, a descriptor of that name for a video or a subtitle, a
/// descriptor of one of the files of the script for a script.
pub open spec fn removal_applies(metadata: FsvMetadata, entry_type: EntryType, entry_id: Seq<char>) -> bool {
    match entry_type {
        EntryType::Creator => has_work_named(metadata.creators.videos@, entry_id)
            || has_work_named(metadata.creators.scripts@, entry_id) || has_work_named(
            metadata.creators.subtitles@,
            entry_id,
        ),
        EntryType::Video => any_named_in(metadata.video_formats@, seq![entry_id]),
        EntryType::Script => any_named_in(metadata.script_variants@, script_file_names(entry_id)),
        EntryType::Subtitle => any_named_in(metadata.subtitle_tracks@, seq![entry_id]),
    }
}

/// The manifest after taking out: what matched is gone, everything else is
/// as it was and in the old order.
pub open spec fn after_removal(
    old: FsvMetadata,
    new: FsvMetadata,
    entry_type: EntryType,
    entry_id: Seq<char>,
) -> bool {
    match entry_type {
        EntryType::Creator => new@ == (FsvMetadataView {
            creators: CreatorsMetadataView {
                videos: work_views(old.creators.videos@.filter(work_not_named(entry_id))),
                scripts: work_views(old.creators.scripts@.filter(work_not_named(entry_id))),
                subtitles: work_views(old.creators.subtitles@.filter(work_not_named(entry_id))),
                extra: old.creators.extra@,
            },
            ..old@
        }),
        EntryType::Video => new@ == (FsvMetadataView {
            video_formats: video_views(
                old.video_formats@.filter(not_named_in::<VideoFormat>(seq![entry_id])),
            ),
            ..old@
        }),
        EntryType::Script => new@ == (FsvMetadataView {
            script_variants: script_views(
                old.script_variants@.filter(
                    not_named_in::<ScriptVariant>(script_file_names(entry_id)),
                ),
            ),
            ..old@
        }),
        EntryType::Subtitle => new@ == (FsvMetadataView {
            subtitle_tracks: subtitle_views(
                old.subtitle_tracks@.filter(not_named_in::<SubtitleTrack>(seq![entry_id])),
            ),
            ..old@
        }),
    }
}

/// Takes a creator, a video, a script or a subtitle out of a container.
/// With a script go the files of its axes. The result is the manifest
/// without what matched and the plan of the archive without the files that
/// went with it; where nothing matched, the entry was not found.
pub fn remove_from_fsv(container: Container, entry_type: EntryType, entry_id: &str) -> (r: Result<
    Rewrite,
    FsvRemoveError,
>)
    ensures
        match r {
            Ok(rewrite) => {
                &&& opened(container) matches Ok(old)
                &&& removal_applies(old, entry_type, entry_id@)
                &&& after_removal(old, rewrite.metadata, entry_type, entry_id@)
                &&& archive_rebuilt(
                    container.entries@,
                    removed_names(entry_type, entry_id@),
                    0,
                ) == Ok::<Seq<PlannedEntry>, FsvError>(rewrite.plan@)
            },
            Err(FsvRemoveError::EntryNotFound(id)) => {
                &&& opened(container) matches Ok(old)
                &&& !removal_applies(old, entry_type, entry_id@)
                &&& id@ == entry_id@
            },
            Err(FsvRemoveError::Fsv(e)) => {
                ||| opened(container) == Err::<FsvMetadata, FsvError>(e)
                ||| {
                    &&& opened(container) matches Ok(old)
                    &&& removal_applies(old, entry_type, entry_id@)
                    &&& archive_rebuilt(
                        container.entries@,
                        removed_names(entry_type, entry_id@),
                        0,
                    ) == Err::<Seq<PlannedEntry>, FsvError>(e)
                }
            },
            Err(_) => false,
        },
{
    let (entries, mut metadata) = match open_fsv(container) {
        Ok(opened) => opened,
        Err(e) => {
            return Err(FsvRemoveError::Fsv(e));
        },
    };
    let ghost old = metadata;
    let mut remove_files: Vec<String> = Vec::new();
    let found: bool = match entry_type {
        EntryType::Creator => {
            let dropped = metadata.creators.remove_works_named(entry_id);
            assert(views(remove_files@) =~= removed_names(entry_type, entry_id@));
            dropped
        },
        EntryType::Video => {
            remove_files.push(entry_id.to_owned());
            assert(views(remove_files@) =~= removed_names(entry_type, entry_id@));
            let mut formats: Vec<VideoFormat> = Vec::new();
            std::mem::swap(&mut metadata.video_formats, &mut formats);
            let (kept, dropped) = remove_named(formats, &remove_files);
            metadata.video_formats = kept;
            dropped
        },
        EntryType::Script => {
            remove_files = script_names(entry_id);
            let mut variants: Vec<ScriptVariant> = Vec::new();
            std::mem::swap(&mut metadata.script_variants, &mut variants);
            let (kept, dropped) = remove_named(variants, &remove_files);
            metadata.script_variants = kept;
            dropped
        },
        EntryType::Subtitle => {
            remove_files.push(entry_id.to_owned());
            assert(views(remove_files@) =~= removed_names(entry_type, entry_id@));
            let mut tracks: Vec<SubtitleTrack> = Vec::new();
            std::mem::swap(&mut metadata.subtitle_tracks, &mut tracks);
            let (kept, dropped) = remove_named(tracks, &remove_files);
            metadata.subtitle_tracks = kept;
            dropped
        },
    };
    if !found {
        return Err(FsvRemoveError::EntryNotFound(entry_id.to_owned()));
    }
    match rebuild_archive(&entries, 0, &remove_files) {
        Ok(plan) => Ok(Rewrite { metadata, plan }),
        Err(e) => Err(FsvRemoveError::Fsv(e)),
    }
}

// ---------------------------------------------------------------------------
// Compacting
// ---------------------------------------------------------------------------

/// Whether a lookup by one of `names`, as it stands or trimmed, finds the
/// entry named `name`.
pub open spec fn finds_entry(names: Seq<Seq<char>>, name: Seq<char>) -> bool {
    exists|i: int|
        0 <= i < names.len() && (#[trigger] names[i] == name || trimmed(names[i]) == name)
}

/// Whether a lookup by the name of a descriptor, as it stands or trimmed,
/// finds the entry named `name`. The verdict looks entries up by trimmed
/// names, so it can see every such entry.
pub open spec fn is_reachable(metadata: FsvMetadata, name: Seq<char>) -> bool {
    finds_entry(item_names(metadata.video_formats@), name) || finds_entry(
        item_names(metadata.script_variants@),
        name,
    ) || finds_entry(item_names(metadata.subtitle_tracks@), name)
}

/// Whether an entry of this name is a stray: neither the manifest nor
/// found by the name of a descriptor, as it stands or trimmed.
pub open spec fn is_stray(metadata: FsvMetadata, name: Seq<char>) -> bool {
    name != manifest_name() && !is_reachable(metadata, name)
}

/// The names of the strays among the first `n` entries, in order.
pub open spec fn stray_names(metadata: FsvMetadata, names: Seq<Seq<char>>, n: int) -> Seq<
    Seq<char>,
>
    decreases n,
{
    if n <= 0 {
        Seq::empty()
    } else {
        let before = stray_names(metadata, names, n - 1);
        if is_stray(metadata, names[n - 1]) {
            before.push(names[n - 1])
        } else {
            before
        }
    }
}

/// The strays are exactly the names of entries that are strays.
pub proof fn lemma_stray_names(metadata: FsvMetadata, names: Seq<Seq<char>>, n: int)
    requires
        0 <= n <= names.len(),
    ensures
        forall|name: Seq<char>|
            #[trigger] stray_names(metadata, names, n).contains(name) <==> (is_stray(
                metadata,
                name,
            ) && names.take(n).contains(name)),
    decreases n,
{
    if n > 0 {
        lemma_stray_names(metadata, names, n - 1);
        let before = stray_names(metadata, names, n - 1);
        let now = stray_names(metadata, names, n);
        let prior = names.take(n - 1);
        let current = names.take(n);
        assert forall|name: Seq<char>| #[trigger]
            now.contains(name) <==> (is_stray(metadata, name) && names.take(n).contains(
                name,
            )) by {
            if now.contains(name) {
                let p = choose|p: int| 0 <= p < now.len() && now[p] == name;
                if p < before.len() {
                    assert(before.contains(now[p]));
                    let q = choose|q: int| 0 <= q < prior.len() && prior[q] == name;
                    assert(current[q] == name);
                } else {
                    assert(current[n - 1] == name);
                }
            }
            if is_stray(metadata, name) && names.take(n).contains(name) {
                let q = choose|q: int| 0 <= q < current.len() && current[q] == name;
                if q < n - 1 {
                    assert(prior[q] == name);
                    assert(before.contains(name));
                    let p = choose|p: int| 0 <= p < before.len() && before[p] == name;
                    assert(now[p] == name);
                } else {
                    assert(now[now.len() - 1] == name);
                }
            }
        }
    } else {
        assert(names.take(0) =~= Seq::<Seq<char>>::empty());
    }
}

/// Whether a lookup by the name of one of the items, as it stands or
/// trimmed, finds the entry named `name`.
fn names_entry<Item: WorkItem>(items: &Vec<Item>, name: &String) -> (r: bool)
    ensures
        r == finds_entry(item_names(items@), name@),
{
    let ghost names = item_names(items@);
    let n: usize = items.len();
    let mut i: usize = 0;
    while i < n
        invariant
            i <= n == items.len(),
            names == item_names(items@),
            forall|k: int|
                0 <= k < i ==> !(#[trigger] names[k] == name@ || trimmed(names[k]) == name@),
        decreases n - i,
    {
        assert(names[i as int] == items@[i as int].item_name());
        let plain = items[i].get_name().to_owned();
        let bare = trim(items[i].get_name()).to_owned();
        if plain == *name || bare == *name {
            return true;
        }
        i = i + 1;
    }
    false
}

/// The names of the entries that are strays, in the order of the archive.
pub fn stray_files(metadata: &FsvMetadata, entries: &Vec<ArchiveEntry>) -> (strays: Vec<String>)
    ensures
        views(strays@) == stray_names(*metadata, entry_names(entries@), entries@.len() as int),
{
    let ghost names = entry_names(entries@);
    let manifest = "metadata.json".to_owned();
    let mut strays: Vec<String> = Vec::new();
    let n: usize = entries.len();
    let mut i: usize = 0;
    assert(views(strays@) =~= stray_names(*metadata, names, 0));
    while i < n
        invariant
            i <= n == entries.len(),
            names == entry_names(entries@),
            manifest@ == manifest_name(),
            views(strays@) == stray_names(*metadata, names, i as int),
        decreases n - i,
    {
        assert(names[i as int] == entries@[i as int].name@);
        let name = &entries[i].name;
        if !(*name == manifest) && !names_entry(&metadata.video_formats, name) && !names_entry(
            &metadata.script_variants,
            name,
        ) && !names_entry(&metadata.subtitle_tracks, name) {
            let ghost before = strays@;
            strays.push(name.clone());
            assert(views(strays@) =~= views(before).push(names[i as int]));
        }
        i = i + 1;
    }
    strays
}

/// Compacts a container: writes it anew with its manifest as it is and
/// without the strays, so that the entries left are the manifest and
/// those that a descriptor names.
pub fn rebuild_fsv(container: Container) -> (r: Result<Rewrite, FsvRebuildError>)
    ensures
        match r {
            Ok(rewrite) => {
                &&& opened(container) == Ok::<FsvMetadata, FsvError>(rewrite.metadata)
                &&& archive_rebuilt(
                    container.entries@,
                    stray_names(
                        rewrite.metadata,
                        entry_names(container.entries@),
                        container.entries@.len() as int,
                    ),
                    0,
                ) == Ok::<Seq<PlannedEntry>, FsvError>(rewrite.plan@)
            },
            Err(FsvRebuildError::Fsv(e)) => {
                ||| opened(container) == Err::<FsvMetadata, FsvError>(e)
                ||| {
                    &&& opened(container) matches Ok(old)
                    &&& archive_rebuilt(
                        container.entries@,
                        stray_names(
                            old,
                            entry_names(container.entries@),
                            container.entries@.len() as int,
                        ),
                        0,
                    ) == Err::<Seq<PlannedEntry>, FsvError>(e)
                }
            },
            Err(_) => false,
        },
{
    let (entries, metadata) = match open_fsv(container) {
        Ok(opened) => opened,
        Err(e) => {
            return Err(FsvRebuildError::Fsv(e));
        },
    };
    let strays = stray_files(&metadata, &entries);
    match rebuild_archive(&entries, 0, &strays) {
        Ok(plan) => Ok(Rewrite { metadata, plan }),
        Err(e) => Err(FsvRebuildError::Fsv(e)),
    }
}

/// After compaction the archive holds the manifest first and then, in the
/// old order, exactly the old entries that the name of a descriptor finds:
/// no stray is left, and no entry that the verdict can see is lost.
pub proof fn lemma_compaction_strips_strays(metadata: FsvMetadata, names: Seq<Seq<char>>)
    requires
        names.len() <= usize::MAX,
    ensures
        ({
            let plan = rebuild_plan(names, stray_names(metadata, names, names.len() as int), 0);
            &&& plan[0] == PlannedEntry::Manifest
            &&& forall|p: int|
                1 <= p < plan.len() ==> (#[trigger] plan[p] matches PlannedEntry::Existing(i) && i
                    < names.len() && names[i as int] != manifest_name() && is_reachable(
                    metadata,
                    names[i as int],
                ))
            &&& forall|i: int|
                0 <= i < names.len() && #[trigger] names[i] != manifest_name() && is_reachable(
                    metadata,
                    names[i],
                ) ==> plan.contains(PlannedEntry::Existing(i as usize))
        }),
{
    let n = names.len() as int;
    let strays = stray_names(metadata, names, n);
    let kept = crate::archive::kept_entries(names, strays, n);
    let plan = rebuild_plan(names, strays, 0);
    lemma_stray_names(metadata, names, n);
    crate::archive::lemma_kept_entries(names, strays, n);
    assert(names.take(n) =~= names);
    assert(plan =~= seq![PlannedEntry::Manifest] + kept);
    assert forall|p: int| 1 <= p < plan.len() implies (#[trigger] plan[p] matches PlannedEntry::Existing(
        i,
    ) && i < names.len() && names[i as int] != manifest_name() && is_reachable(
        metadata,
        names[i as int],
    )) by {
        assert(plan[p] == kept[p - 1]);
        let i = kept[p - 1]->Existing_0;
        assert(names.contains(names[i as int]));
    }
    assert forall|i: int|
        0 <= i < names.len() && #[trigger] names[i] != manifest_name() && is_reachable(
            metadata,
            names[i],
        ) implies plan.contains(PlannedEntry::Existing(i as usize)) by {
        assert(!strays.contains(names[i]));
        assert(crate::archive::is_kept(names[i], strays));
        let q = choose|q: int| 0 <= q < kept.len() && kept[q] == PlannedEntry::Existing(i as usize);
        assert(plan[q + 1] == PlannedEntry::Existing(i as usize));
    }
}

// ---------------------------------------------------------------------------
// Extras
// ---------------------------------------------------------------------------

/// Whether a descriptor of the manifest has the name `name`, as it stands.
pub open spec fn is_named(metadata: FsvMetadata, name: Seq<char>) -> bool {
    item_names(metadata.video_formats@).contains(name) || item_names(
        metadata.script_variants@,
    ).contains(name) || item_names(metadata.subtitle_tracks@).contains(name)
}

/// Whether an entry of this name is an extra: neither the manifest nor the
/// name of a descriptor.
pub open spec fn is_extra(metadata: FsvMetadata, name: Seq<char>) -> bool {
    name != manifest_name() && !is_named(metadata, name)
}

/// The names of the extras among the first `n` entries, in order.
pub open spec fn extra_names(metadata: FsvMetadata, names: Seq<Seq<char>>, n: int) -> Seq<
    Seq<char>,
>
    decreases n,
{
    if n <= 0 {
        Seq::empty()
    } else {
        let before = extra_names(metadata, names, n - 1);
        if is_extra(metadata, names[n - 1]) {
            before.push(names[n - 1])
        } else {
            before
        }
    }
}

/// The names of the entries that are extras, in the order of the archive.
pub fn extra_files(metadata: &FsvMetadata, entries: &Vec<ArchiveEntry>) -> (extras: Vec<String>)
    ensures
        views(extras@) == extra_names(*metadata, entry_names(entries@), entries@.len() as int),
{
    let ghost names = entry_names(entries@);
    let manifest = "metadata.json".to_owned();
    let mut extras: Vec<String> = Vec::new();
    let n: usize = entries.len();
    let mut i: usize = 0;
    assert(views(extras@) =~= extra_names(*metadata, names, 0));
    while i < n
        invariant
            i <= n == entries.len(),
            names == entry_names(entries@),
            manifest@ == manifest_name(),
            views(extras@) == extra_names(*metadata, names, i as int),
        decreases n - i,
    {
        assert(names[i as int] == entries@[i as int].name@);
        let name = &entries[i].name;
        if !(*name == manifest) && !has_name(&metadata.video_formats, name.as_str()) && !has_name(
            &metadata.script_variants,
            name.as_str(),
        ) && !has_name(&metadata.subtitle_tracks, name.as_str()) {
            let ghost before = extras@;
            extras.push(name.clone());
            assert(views(extras@) =~= views(before).push(names[i as int]));
        }
        i = i + 1;
    }
    extras
}

/// Every stray is an extra: what compaction strips, the description lists.
pub proof fn lemma_stray_is_extra(metadata: FsvMetadata, name: Seq<char>)
    requires
        is_stray(metadata, name),
    ensures
        is_extra(metadata, name),
{
    let videos = item_names(metadata.video_formats@);
    let scripts = item_names(metadata.script_variants@);
    let subtitles = item_names(metadata.subtitle_tracks@);
    if videos.contains(name) {
        let i = choose|i: int| 0 <= i < videos.len() && videos[i] == name;
        assert(finds_entry(videos, name));
    }
    if scripts.contains(name) {
        let i = choose|i: int| 0 <= i < scripts.len() && scripts[i] == name;
        assert(finds_entry(scripts, name));
    }
    if subtitles.contains(name) {
        let i = choose|i: int| 0 <= i < subtitles.len() && subtitles[i] == name;
        assert(finds_entry(subtitles, name));
    }
}

// ---------------------------------------------------------------------------
// Describing
// ---------------------------------------------------------------------------

/// What a container holds: each descriptor by name with whether its entry
/// is there and opens, and the extras.
#[derive(Debug, Clone, PartialEq)]
pub struct FsvInfo {
    pub title: String,
    pub videos: Vec<(String, bool)>,
    pub scripts: Vec<(String, bool)>,
    pub subtitles: Vec<(String, bool)>,
    pub extra_files: Vec<String>,
}

/// The state of a container as its description shows it.
#[derive(Debug, Clone, Copy, PartialEq, Eq, Structural)]
pub enum ContainerState {
    /// It has no video descriptor or no script descriptor.
    Invalid,
    /// An entry that a descriptor names is not there.
    ContentIncomplete,
    ContentComplete,
}

/// The names and marks of `listing`, in order.
pub open spec fn listing_view(listing: Seq<(String, bool)>) -> Seq<(Seq<char>, bool)> {
    listing.map_values(|item: (String, bool)| (item.0@, item.1))
}

/// Whether some item of `listing` is marked as not there.
pub open spec fn has_missing(listing: Seq<(String, bool)>) -> bool {
    exists|i: int| 0 <= i < listing.len() && !(#[trigger] listing[i]).1
}

/// Whether the archive has an entry named `name` that opens.
pub open spec fn is_present(entries: Seq<ArchiveEntry>, name: Seq<char>) -> bool {
    match find_entry(entries, name) {
        Some(i) => entries[i].fault is None,
        None => false,
    }
}

/// Each of `names` with whether its entry is there and opens.
pub open spec fn presence(names: Seq<Seq<char>>, entries: Seq<ArchiveEntry>) -> Seq<
    (Seq<char>, bool),
> {
    names.map_values(|name: Seq<char>| (name, is_present(entries, name)))
}

impl FsvInfo {
    pub fn new(
        title: String,
        videos: Vec<(String, bool)>,
        scripts: Vec<(String, bool)>,
        subtitles: Vec<(String, bool)>,
        extra_files: Vec<String>,
    ) -> (info: FsvInfo)
        ensures
            info.title == title,
            info.videos == videos,
            info.scripts == scripts,
            info.subtitles == subtitles,
            info.extra_files == extra_files,
    {
        FsvInfo { title, videos, scripts, subtitles, extra_files }
    }

    /// The state that the description shows.
    pub open spec fn state(self) -> ContainerState {
        if self.videos@.len() == 0 || self.scripts@.len() == 0 {
            ContainerState::Invalid
        } else if has_missing(self.videos@) || has_missing(self.scripts@) || has_missing(
            self.subtitles@,
        ) {
            ContainerState::ContentIncomplete
        } else {
            ContainerState::ContentComplete
        }
    }

    /// The state that the description shows: invalid without a video or
    /// without a script descriptor, else incomplete where an entry that a
    /// descriptor names is not there, else complete.
    pub fn display_state(&self) -> (state: ContainerState)
        ensures
            state == self.state(),
    {
        if self.videos.len() == 0 || self.scripts.len() == 0 {
            ContainerState::Invalid
        } else if any_missing(&self.videos) || any_missing(&self.scripts) || any_missing(
            &self.subtitles,
        ) {
            ContainerState::ContentIncomplete
        } else {
            ContainerState::ContentComplete
        }
    }
}

/// Whether some item of `listing` is marked as not there.
pub fn any_missing(listing: &Vec<(String, bool)>) -> (r: bool)
    ensures
        r == has_missing(listing@),
{
    let n: usize = listing.len();
    let mut i: usize = 0;
    while i < n
        invariant
            i <= n == listing.len(),
            forall|k: int| 0 <= k < i ==> (#[trigger] listing@[k]).1,
        decreases n - i,
    {
        if !listing[i].1 {
            return true;
        }
        i = i + 1;
    }
    false
}

/// Each item by name with whether its entry is there and opens.
fn list_items<Item: WorkItem>(items: &Vec<Item>, entries: &Vec<ArchiveEntry>) -> (listing: Vec<
    (String, bool),
>)
    ensures
        listing_view(listing@) == presence(item_names(items@), entries@),
{
    let ghost names = item_names(items@);
    let mut listing: Vec<(String, bool)> = Vec::new();
    let n: usize = items.len();
    let mut i: usize = 0;
    assert(listing_view(listing@) =~= presence(names.take(0), entries@));
    while i < n
        invariant
            i <= n == items.len(),
            names == item_names(items@),
            listing_view(listing@) == presence(names.take(i as int), entries@),
        decreases n - i,
    {
        assert(names[i as int] == items@[i as int].item_name());
        let name = items[i].get_name();
        let present: bool = match index_for_name(entries, name) {
            Some(k) => entries[k].fault.is_none(),
            None => false,
        };
        let ghost before = listing@;
        listing.push((name.to_owned(), present));
        assert(listing_view(listing@) =~= listing_view(before).push((names[i as int], present)));
        assert(presence(names.take(i + 1), entries@) =~= presence(
            names.take(i as int),
            entries@,
        ).push((names[i as int], present)));
        i = i + 1;
    }
    assert(names.take(n as int) =~= names);
    listing
}

/// Whether `info` describes the container of this manifest and archive,
/// whose file is named `container_stem` without its extension: the title
/// is that of the manifest, or the stem where that is blank.
pub open spec fn describes(
    info: FsvInfo,
    metadata: FsvMetadata,
    entries: Seq<ArchiveEntry>,
    container_stem: Seq<char>,
) -> bool {
    &&& info.title@ == (if is_blank(metadata.title@) {
        container_stem
    } else {
        metadata.title@
    })
    &&& listing_view(info.videos@) == presence(item_names(metadata.video_formats@), entries)
    &&& listing_view(info.scripts@) == presence(item_names(metadata.script_variants@), entries)
    &&& listing_view(info.subtitles@) == presence(item_names(metadata.subtitle_tracks@), entries)
    &&& views(info.extra_files@) == extra_names(
        metadata,
        entry_names(entries),
        entries.len() as int,
    )
}

/// Describes a container without judging it. Every entry of the archive is
/// opened for it, so one that does not open fails the description.
pub fn get_fsv_info(container: &Container, container_stem: &str) -> (r: Result<FsvInfo, FsvError>)
    ensures
        match r {
            Ok(info) => {
                &&& opened(*container) matches Ok(metadata)
                &&& first_fault(container.entries@) is None
                &&& describes(info, metadata, container.entries@, container_stem@)
            },
            Err(e) => {
                ||| opened(*container) == Err::<FsvMetadata, FsvError>(e)
                ||| {
                    &&& opened(*container) is Ok
                    &&& first_fault(container.entries@) matches Some(i)
                    &&& e == FsvError::Zip(container.entries@[i].fault->0.detail)
                }
            },
        },
{
    let metadata = match open_ref(container) {
        Ok(metadata) => metadata,
        Err(e) => {
            return Err(e);
        },
    };
    let entries = &container.entries;
    let title = if is_blank_str(metadata.title.as_str()) {
        container_stem.to_owned()
    } else {
        metadata.title.clone()
    };
    let videos = list_items(&metadata.video_formats, entries);
    let scripts = list_items(&metadata.script_variants, entries);
    let subtitles = list_items(&metadata.subtitle_tracks, entries);
    match find_first_fault(entries) {
        Some(i) => {
            proof {
                crate::archive::lemma_first_fault(entries@);
            }
            match &entries[i].fault {
                Some(fault) => {
                    let detail = fault.detail.clone();
                    return Err(FsvError::Zip(detail));
                },
                None => {},
            }
        },
        None => {},
    }
    let extras = extra_files(metadata, entries);
    Ok(FsvInfo::new(title, videos, scripts, subtitles, extras))
}

/// Opens a container that is only read.
pub fn open_ref(container: &Container) -> (r: Result<&FsvMetadata, FsvError>)
    ensures
        match r {
            Ok(metadata) => opened(*container) == Ok::<FsvMetadata, FsvError>(*metadata),
            Err(e) => opened(*container) == Err::<FsvMetadata, FsvError>(e),
        },
{
    match index_for_name(&container.entries, "metadata.json") {
        None => Err(FsvError::MetadataFileNotFound),
        Some(i) => {
            match &container.entries[i].fault {
                Some(fault) => {
                    let detail = fault.detail.clone();
                    Err(FsvError::Zip(detail))
                },
                None => match &container.manifest {
                    ManifestRead::Malformed(message) => Err(FsvError::SerdeJson(message.clone())),
                    ManifestRead::InvalidVersion(message) => Err(
                        FsvError::SerdeJson(message.clone()),
                    ),
                    ManifestRead::Parsed(metadata) => Ok(metadata),
                },
            }
        },
    }
}

// ---------------------------------------------------------------------------
// Putting in
// ---------------------------------------------------------------------------

/// The attribution of the work named `name` to `creator`, without a source.
pub open spec fn work_of(name: Seq<char>, creator: CreatorInfoView) -> WorkCreatorsMetadataView {
    WorkCreatorsMetadataView {
        work_name: name,
        source_url: Seq::empty(),
        creator_info: creator,
        extra: Map::empty(),
    }
}

/// `works` with the work named `name` attributed to `creator`, where there
/// is one.
pub open spec fn with_work(
    works: Seq<WorkCreatorsMetadataView>,
    name: Seq<char>,
    creator: Option<CreatorInfoView>,
) -> Seq<WorkCreatorsMetadataView> {
    match creator {
        Some(c) => works.push(work_of(name, c)),
        None => works,
    }
}

/// The manifest with one more video: its descriptor comes last, as does
/// the attribution to its creator, where one is given.
pub open spec fn with_video(
    old: FsvMetadataView,
    name: Seq<char>,
    content: Seq<u8>,
    duration: u64,
    creator: Option<CreatorInfoView>,
) -> FsvMetadataView {
    FsvMetadataView {
        creators: CreatorsMetadataView {
            videos: with_work(old.creators.videos, name, creator),
            ..old.creators
        },
        video_formats: old.video_formats.push(
            VideoFormatView {
                name,
                description: Seq::empty(),
                duration,
                checksum: file_hash(content),
                extra: Map::empty(),
            },
        ),
        ..old
    }
}

/// The manifest with one more script, which starts with the video and has
/// no axis beside its own.
pub open spec fn with_script(
    old: FsvMetadataView,
    name: Seq<char>,
    content: Seq<u8>,
    duration: u64,
    creator: Option<CreatorInfoView>,
) -> FsvMetadataView {
    FsvMetadataView {
        creators: CreatorsMetadataView {
            scripts: with_work(old.creators.scripts, name, creator),
            ..old.creators
        },
        script_variants: old.script_variants.push(
            ScriptVariantView {
                name,
                description: Seq::empty(),
                additional_axes: Seq::empty(),
                duration,
                start_offset: 0,
                checksum: file_hash(content),
                extra: Map::empty(),
            },
        ),
        ..old
    }
}

/// The manifest with one more subtitle track, of no stated language.
pub open spec fn with_subtitle(
    old: FsvMetadataView,
    name: Seq<char>,
    content: Seq<u8>,
    creator: Option<CreatorInfoView>,
) -> FsvMetadataView {
    FsvMetadataView {
        creators: CreatorsMetadataView {
            subtitles: with_work(old.creators.subtitles, name, creator),
            ..old.creators
        },
        subtitle_tracks: old.subtitle_tracks.push(
            SubtitleTrackView {
                name,
                language: Seq::empty(),
                description: Seq::empty(),
                checksum: file_hash(content),
                extra: Map::empty(),
            },
        ),
        ..old
    }
}

/// The view of the creator, where there is one.
pub open spec fn creator_view(creator: Option<CreatorInfo>) -> Option<CreatorInfoView> {
    match creator {
        Some(c) => Some(c@),
        None => None,
    }
}

/// Puts a video into the manifest.
pub fn put_video(
    metadata: &mut FsvMetadata,
    name: &str,
    content: &[u8],
    duration: u64,
    creator: Option<CreatorInfo>,
)
    ensures
        final(metadata)@ == with_video(
            old(metadata)@,
            name@,
            content@,
            duration,
            creator_view(creator),
        ),
{
    let hash = get_file_hash(content);
    match creator {
        Some(creator_info) => {
            let work = WorkCreatorsMetadata::new(name.to_owned(), String::new(), creator_info);
            metadata.add_video_creator(work);
        },
        None => {},
    }
    metadata.add_video_format(VideoFormat::new(name.to_owned(), String::new(), duration, hash));
}

/// Puts a script into the manifest.
pub fn put_script(
    metadata: &mut FsvMetadata,
    name: &str,
    content: &[u8],
    duration: u64,
    creator: Option<CreatorInfo>,
)
    ensures
        final(metadata)@ == with_script(
            old(metadata)@,
            name@,
            content@,
            duration,
            creator_view(creator),
        ),
{
    let hash = get_file_hash(content);
    match creator {
        Some(creator_info) => {
            let work = WorkCreatorsMetadata::new(name.to_owned(), String::new(), creator_info);
            metadata.add_script_creator(work);
        },
        None => {},
    }
    let axes: Vec<String> = Vec::new();
    assert(views(axes@) =~= Seq::<Seq<char>>::empty());
    metadata.add_script_variant(
        ScriptVariant::new(name.to_owned(), String::new(), axes, duration, 0, hash),
    );
}

/// Puts a subtitle track into the manifest.
pub fn put_subtitle(
    metadata: &mut FsvMetadata,
    name: &str,
    content: &[u8],
    creator: Option<CreatorInfo>,
)
    ensures
        final(metadata)@ == with_subtitle(old(metadata)@, name@, content@, creator_view(creator)),
{
    let hash = get_file_hash(content);
    match creator {
        Some(creator_info) => {
            let work = WorkCreatorsMetadata::new(name.to_owned(), String::new(), creator_info);
            metadata.add_subtitle_creator(work);
        },
        None => {},
    }
    metadata.add_subtitle_track(
        SubtitleTrack::new(name.to_owned(), String::new(), String::new(), hash),
    );
}

/// What is known of an item that is to be put in, beside its name and its
/// bytes.
#[derive(Debug, Clone, PartialEq)]
pub enum ItemDetail {
    /// A video, with its duration in milliseconds.
    Video(u64),
    /// A script, with what it holds.
    Script(Funscript),
    Subtitle,
}

impl ItemDetail {
    pub open spec fn kind(self) -> ItemType {
        match self {
            ItemDetail::Video(_) => ItemType::Video,
            ItemDetail::Script(_) => ItemType::Script,
            ItemDetail::Subtitle => ItemType::Subtitle,
        }
    }

    /// The kind of the item.
    pub fn item_type(&self) -> (kind: ItemType)
        ensures
            kind == self.kind(),
    {
        match self {
            ItemDetail::Video(_) => ItemType::Video,
            ItemDetail::Script(_) => ItemType::Script,
            ItemDetail::Subtitle => ItemType::Subtitle,
        }
    }
}

/// Whether the manifest has a descriptor of that kind and name.
pub open spec fn has_item(metadata: FsvMetadata, item_type: ItemType, name: Seq<char>) -> bool {
    match item_type {
        ItemType::Video => item_names(metadata.video_formats@).contains(name),
        ItemType::Script => item_names(metadata.script_variants@).contains(name),
        ItemType::Subtitle => item_names(metadata.subtitle_tracks@).contains(name),
    }
}

/// Whether one of the items has the name `name`.
fn has_name<Item: WorkItem>(items: &Vec<Item>, name: &str) -> (r: bool)
    ensures
        r == item_names(items@).contains(name@),
{
    let ghost names = item_names(items@);
    let key = name.to_owned();
    let n: usize = items.len();
    let mut i: usize = 0;
    while i < n
        invariant
            i <= n == items.len(),
            key@ == name@,
            names == item_names(items@),
            forall|k: int| 0 <= k < i ==> names[k] != name@,
        decreases n - i,
    {
        assert(names[i as int] == items@[i as int].item_name());
        if items[i].get_name().to_owned() == key {
            return true;
        }
        i = i + 1;
    }
    false
}

/// Whether the manifest has a descriptor of that kind and name.
pub fn contains_item(metadata: &FsvMetadata, item_type: ItemType, name: &str) -> (r: bool)
    ensures
        r == has_item(*metadata, item_type, name@),
{
    match item_type {
        ItemType::Video => has_name(&metadata.video_formats, name),
        ItemType::Script => has_name(&metadata.script_variants, name),
        ItemType::Subtitle => has_name(&metadata.subtitle_tracks, name),
    }
}

/// The manifest after an item was put in.
pub open spec fn after_addition(
    old: FsvMetadataView,
    name: Seq<char>,
    content: Seq<u8>,
    detail: ItemDetail,
    creator: Option<CreatorInfoView>,
) -> FsvMetadataView {
    match detail {
        ItemDetail::Video(duration) => with_video(old, name, content, duration, creator),
        ItemDetail::Script(funscript) => with_script(
            old,
            name,
            content,
            greatest_action_time(funscript.actions@),
            creator,
        ),
        ItemDetail::Subtitle => with_subtitle(old, name, content, creator),
    }
}

/// Puts an item into a container under the name `name`. Where the
/// manifest has an item of that kind and name already, nothing is to be
/// done and nothing is given back. A script without actions has no
/// duration and is refused. Else the result is the manifest with the new
/// descriptor and the plan of the archive with one file more.
pub fn add_to_fsv(
    container: Container,
    name: &str,
    content: &[u8],
    detail: ItemDetail,
    creator: Option<CreatorInfo>,
) -> (r: Result<Option<Rewrite>, FsvAddError>)
    ensures
        match r {
            Ok(None) => opened(container) matches Ok(old) && has_item(old, detail.kind(), name@),
            Ok(Some(rewrite)) => {
                &&& opened(container) matches Ok(old)
                &&& !has_item(old, detail.kind(), name@)
                &&& rewrite.metadata@ == after_addition(
                    old@,
                    name@,
                    content@,
                    detail,
                    creator_view(creator),
                )
                &&& archive_rebuilt(container.entries@, Seq::empty(), 1) == Ok::<
                    Seq<PlannedEntry>,
                    FsvError,
                >(rewrite.plan@)
            },
            Err(FsvAddError::GetVideoDuration(e)) => {
                &&& opened(container) matches Ok(old)
                &&& !has_item(old, detail.kind(), name@)
                &&& detail matches ItemDetail::Script(funscript)
                &&& funscript.actions@.len() == 0
                &&& e == GetDurationError::FunscriptMissingActions
            },
            Err(FsvAddError::Fsv(e)) => {
                ||| opened(container) == Err::<FsvMetadata, FsvError>(e)
                ||| {
                    &&& opened(container) matches Ok(old)
                    &&& !has_item(old, detail.kind(), name@)
                    &&& !(detail matches ItemDetail::Script(funscript)
                        && funscript.actions@.len() == 0)
                    &&& archive_rebuilt(container.entries@, Seq::empty(), 1) == Err::<
                        Seq<PlannedEntry>,
                        FsvError,
                    >(e)
                }
            },
            Err(_) => false,
        },
{
    let (entries, mut metadata) = match open_fsv(container) {
        Ok(opened) => opened,
        Err(e) => {
            return Err(FsvAddError::Fsv(e));
        },
    };
    if contains_item(&metadata, detail.item_type(), name) {
        return Ok(None);
    }
    match detail {
        ItemDetail::Video(duration) => {
            put_video(&mut metadata, name, content, duration, creator);
        },
        ItemDetail::Script(funscript) => {
            let duration: u64 = match get_funscript_duration(&funscript) {
                Ok(duration) => duration,
                Err(e) => {
                    return Err(FsvAddError::GetVideoDuration(e));
                },
            };
            put_script(&mut metadata, name, content, duration, creator);
        },
        ItemDetail::Subtitle => {
            put_subtitle(&mut metadata, name, content, creator);
        },
    }
    let remove: Vec<String> = Vec::new();
    assert(views(remove@) =~= Seq::<Seq<char>>::empty());
    match rebuild_archive(&entries, 1, &remove) {
        Ok(plan) => Ok(Some(Rewrite { metadata, plan })),
        Err(e) => Err(FsvAddError::Fsv(e)),
    }
}

/// The manifest with one more attribution of a work of the given kind.
pub open spec fn with_creator(
    old: FsvMetadataView,
    work_type: ItemType,
    work: WorkCreatorsMetadataView,
) -> FsvMetadataView {
    match work_type {
        ItemType::Video => FsvMetadataView {
            creators: CreatorsMetadataView {
                videos: old.creators.videos.push(work),
                ..old.creators
            },
            ..old
        },
        ItemType::Script => FsvMetadataView {
            creators: CreatorsMetadataView {
                scripts: old.creators.scripts.push(work),
                ..old.creators
            },
            ..old
        },
        ItemType::Subtitle => FsvMetadataView {
            creators: CreatorsMetadataView {
                subtitles: old.creators.subtitles.push(work),
                ..old.creators
            },
            ..old
        },
    }
}

/// Attributes a work of a container to the creator that the store holds
/// under `creator_key`; `creator` is what the store gave for the key. The
/// archive is written anew with the same entries.
pub fn add_creator_to_fsv(
    container: Container,
    work_type: ItemType,
    creator_key: &str,
    creator: Option<CreatorInfo>,
    work_name: &str,
    source_url: &str,
) -> (r: Result<Rewrite, FsvAddError>)
    ensures
        match r {
            Ok(rewrite) => {
                &&& opened(container) matches Ok(old)
                &&& creator matches Some(c)
                &&& rewrite.metadata@ == with_creator(
                    old@,
                    work_type,
                    WorkCreatorsMetadataView {
                        work_name: work_name@,
                        source_url: source_url@,
                        creator_info: c@,
                        extra: Map::empty(),
                    },
                )
                &&& archive_rebuilt(container.entries@, Seq::empty(), 0) == Ok::<
                    Seq<PlannedEntry>,
                    FsvError,
                >(rewrite.plan@)
            },
            Err(FsvAddError::CreatorInfoNotFound(key)) => {
                &&& opened(container) is Ok
                &&& creator is None
                &&& key@ == creator_key@
            },
            Err(FsvAddError::Fsv(e)) => {
                ||| opened(container) == Err::<FsvMetadata, FsvError>(e)
                ||| {
                    &&& opened(container) is Ok
                    &&& creator is Some
                    &&& archive_rebuilt(container.entries@, Seq::empty(), 0) == Err::<
                        Seq<PlannedEntry>,
                        FsvError,
                    >(e)
                }
            },
            Err(_) => false,
        },
{
    let (entries, mut metadata) = match open_fsv(container) {
        Ok(opened) => opened,
        Err(e) => {
            return Err(FsvAddError::Fsv(e));
        },
    };
    let creator_info = match creator {
        Some(info) => info,
        None => {
            return Err(FsvAddError::CreatorInfoNotFound(creator_key.to_owned()));
        },
    };
    let work = WorkCreatorsMetadata::new(work_name.to_owned(), source_url.to_owned(), creator_info);
    match work_type {
        ItemType::Video => metadata.add_video_creator(work),
        ItemType::Script => metadata.add_script_creator(work),
        ItemType::Subtitle => metadata.add_subtitle_creator(work),
    }
    let remove: Vec<String> = Vec::new();
    assert(views(remove@) =~= Seq::<Seq<char>>::empty());
    match rebuild_archive(&entries, 0, &remove) {
        Ok(plan) => Ok(Rewrite { metadata, plan }),
        Err(e) => Err(FsvAddError::Fsv(e)),
    }
}

// ---------------------------------------------------------------------------
// Making
// ---------------------------------------------------------------------------

/// A video to start a container with.
#[derive(Debug, Clone, PartialEq)]
pub struct NewVideo {
    pub name: String,
    pub content: Vec<u8>,
    /// Milliseconds.
    pub duration: u64,
    pub creator: Option<CreatorInfo>,
}

/// A script to start a container with.
#[derive(Debug, Clone, PartialEq)]
pub struct NewScript {
    pub name: String,
    pub content: Vec<u8>,
    pub funscript: Funscript,
    pub creator: Option<CreatorInfo>,
}

/// The manifest of a container that holds nothing yet.
pub open spec fn titled(title: Seq<char>, tags: Seq<Seq<char>>) -> FsvMetadataView {
    FsvMetadataView {
        format_version: latest_format_version(),
        extensions: Seq::empty(),
        tags,
        title,
        creators: CreatorsMetadataView {
            videos: Seq::empty(),
            scripts: Seq::empty(),
            subtitles: Seq::empty(),
            extra: Map::empty(),
        },
        video_formats: Seq::empty(),
        script_variants: Seq::empty(),
        subtitle_tracks: Seq::empty(),
        extra: Map::empty(),
    }
}

/// The manifest of a new container: of the newest format, with the title
/// and the tags given, and with the video and the script where there are
/// such.
pub open spec fn created(
    title: Seq<char>,
    tags: Seq<Seq<char>>,
    video: Option<NewVideo>,
    script: Option<NewScript>,
) -> FsvMetadataView {
    let empty = titled(title, tags);
    let with_v = match video {
        Some(v) => with_video(empty, v.name@, v.content@, v.duration, creator_view(v.creator)),
        None => empty,
    };
    match script {
        Some(s) => with_script(
            with_v,
            s.name@,
            s.content@,
            greatest_action_time(s.funscript.actions@),
            creator_view(s.creator),
        ),
        None => with_v,
    }
}

/// How many files a new container starts with.
pub open spec fn created_files(video: Option<NewVideo>, script: Option<NewScript>) -> nat {
    (if video is Some { 1nat } else { 0nat }) + (if script is Some { 1nat } else { 0nat })
}

/// Makes a container: gives its manifest and the plan of its archive, in
/// which the video comes before the script. A container without a video
/// or without a script is made all the same. A script without actions has
/// no duration and is refused.
pub fn create_fsv(
    title: String,
    tags: Vec<String>,
    video: Option<NewVideo>,
    script: Option<NewScript>,
) -> (r: Result<Rewrite, FsvCreateError>)
    ensures
        match r {
            Ok(rewrite) => {
                &&& !(script matches Some(s) && s.funscript.actions@.len() == 0)
                &&& rewrite.metadata@ == created(title@, views(tags@), video, script)
                &&& rewrite.plan@ == rebuild_plan(
                    Seq::empty(),
                    Seq::empty(),
                    created_files(video, script),
                )
            },
            Err(FsvCreateError::GetDurationError(e)) => {
                &&& script matches Some(s)
                &&& s.funscript.actions@.len() == 0
                &&& e == GetDurationError::FunscriptMissingActions
            },
            Err(_) => false,
        },
{
    let mut metadata = FsvMetadata::new(latest_fsv_format_version());
    metadata.title = title;
    metadata.tags = tags;
    let mut added: usize = 0;
    assert(metadata@ == titled(title@, views(tags@)));
    match video {
        Some(v) => {
            let NewVideo { name, content, duration, creator } = v;
            put_video(&mut metadata, name.as_str(), content.as_slice(), duration, creator);
            added = added + 1;
        },
        None => {},
    }
    match script {
        Some(s) => {
            let NewScript { name, content, funscript, creator } = s;
            let duration: u64 = match get_funscript_duration(&funscript) {
                Ok(duration) => duration,
                Err(e) => {
                    return Err(FsvCreateError::GetDurationError(e));
                },
            };
            put_script(&mut metadata, name.as_str(), content.as_slice(), duration, creator);
            added = added + 1;
        },
        None => {},
    }
    let plan = build_archive(added);
    Ok(Rewrite { metadata, plan })
}

// ---------------------------------------------------------------------------
// Unpacking
// ---------------------------------------------------------------------------

/// One video with one script, and the names of the two files that they
/// are written to.
#[derive(Debug, Clone, PartialEq)]
pub struct ExtractPair {
    /// The entry that holds the video.
    pub video_entry: String,
    /// The entry that holds the script.
    pub script_entry: String,
    pub video_file: String,
    pub script_file: String,
}

pub struct ExtractPairView {
    pub video_entry: Seq<char>,
    pub script_entry: Seq<char>,
    pub video_file: Seq<char>,
    pub script_file: Seq<char>,
}

impl View for ExtractPair {
    type V = ExtractPairView;

    open spec fn view(&self) -> ExtractPairView {
        ExtractPairView {
            video_entry: self.video_entry@,
            script_entry: self.script_entry@,
            video_file: self.video_file@,
            script_file: self.script_file@,
        }
    }
}

/// The views of `pairs`, in order.
pub open spec fn pair_views(pairs: Seq<ExtractPair>) -> Seq<ExtractPairView> {
    pairs.map_values(|p: ExtractPair| p@)
}

/// What is to be unpacked: the directory to make, the pairs to write in
/// this order, and the failure to end with after them, if there is one.
#[derive(Debug, Clone, PartialEq)]
pub struct ExtractPlan {
    pub directory: String,
    pub pairs: Vec<ExtractPair>,
    /// What the archive reported of an entry that stops the unpacking.
    pub failure: Option<String>,
}

/// The name of an unpacked file: the stems of the video and of the script
/// with `_` between them, a dot, and the extension.
pub open spec fn output_name(video: Seq<char>, script: Seq<char>, extension: Seq<char>) -> Seq<
    char,
> {
    name_stem(video) + seq!['_'] + name_stem(script) + seq!['.'] + extension
}

/// The pair of a video and a script, by the names of their entries.
pub open spec fn pair_of(video: Seq<char>, script: Seq<char>) -> ExtractPairView {
    ExtractPairView {
        video_entry: video,
        script_entry: script,
        video_file: output_name(video, script, name_extension(video, "mp4"@)),
        script_file: output_name(video, script, name_extension(script, "funscript"@)),
    }
}

/// What can be done with the item of a descriptor when unpacking.
pub enum Availability {
    /// Its entry is there and opens.
    Ready,
    /// It is passed over: its name is blank, or its entry is not there,
    /// cannot be read or is encrypted.
    Skipped,
    /// Its entry stops the unpacking.
    Failed(String),
}

/// What can be done with the item named `name` when unpacking.
pub open spec fn availability(entries: Seq<ArchiveEntry>, name: Seq<char>) -> Availability {
    if is_blank(name) {
        Availability::Skipped
    } else {
        match find_entry(entries, trimmed(name)) {
            None => Availability::Skipped,
            Some(k) => match entries[k].fault {
                None => Availability::Ready,
                Some(fault) => if fault.kind == FaultKind::Other {
                    Availability::Failed(fault.detail)
                } else {
                    Availability::Skipped
                },
            },
        }
    }
}

/// Pairs to write, and the failure that ends the unpacking after them.
pub struct Extraction {
    pub pairs: Seq<ExtractPairView>,
    pub failure: Option<String>,
}

/// The pairs of one video with the scripts from place `from` on.
pub open spec fn script_pairs(
    video: Seq<char>,
    scripts: Seq<Seq<char>>,
    entries: Seq<ArchiveEntry>,
    from: int,
) -> Extraction
    decreases scripts.len() - from,
{
    if from < 0 || from >= scripts.len() {
        Extraction { pairs: Seq::empty(), failure: None }
    } else {
        match availability(entries, scripts[from]) {
            Availability::Skipped => script_pairs(video, scripts, entries, from + 1),
            Availability::Failed(detail) => Extraction {
                pairs: Seq::empty(),
                failure: Some(detail),
            },
            Availability::Ready => {
                let rest = script_pairs(video, scripts, entries, from + 1);
                Extraction {
                    pairs: seq![pair_of(video, trimmed(scripts[from]))] + rest.pairs,
                    failure: rest.failure,
                }
            },
        }
    }
}

/// The pairs of the videos from place `from` on with all the scripts:
/// video by video, and for each video script by script.
pub open spec fn video_pairs(
    videos: Seq<Seq<char>>,
    scripts: Seq<Seq<char>>,
    entries: Seq<ArchiveEntry>,
    from: int,
) -> Extraction
    decreases videos.len() - from,
{
    if from < 0 || from >= videos.len() {
        Extraction { pairs: Seq::empty(), failure: None }
    } else {
        match availability(entries, videos[from]) {
            Availability::Skipped => video_pairs(videos, scripts, entries, from + 1),
            Availability::Failed(detail) => Extraction {
                pairs: Seq::empty(),
                failure: Some(detail),
            },
            Availability::Ready => {
                let here = script_pairs(trimmed(videos[from]), scripts, entries, 0);
                if here.failure is Some {
                    here
                } else {
                    let rest = video_pairs(videos, scripts, entries, from + 1);
                    Extraction { pairs: here.pairs + rest.pairs, failure: rest.failure }
                }
            },
        }
    }
}

/// What can be done with the item named `name` when unpacking; with it
/// comes the name trimmed.
fn probe<'a>(entries: &Vec<ArchiveEntry>, name: &'a str) -> (r: (Availability, &'a str))
    ensures
        r.0 == availability(entries@, name@),
        r.1@ == trimmed(name@),
{
    let bare = trim(name);
    if bare.unicode_len() == 0 {
        return (Availability::Skipped, bare);
    }
    match index_for_name(entries, bare) {
        None => (Availability::Skipped, bare),
        Some(k) => match &entries[k].fault {
            None => (Availability::Ready, bare),
            Some(fault) => match fault.kind {
                FaultKind::Other => (Availability::Failed(fault.detail.clone()), bare),
                _ => (Availability::Skipped, bare),
            },
        },
    }
}

/// The name of an unpacked file.
fn make_output_name(video_stem: &String, script_stem: &String, extension: &String) -> (name: String)
    ensures
        name@ == video_stem@ + seq!['_'] + script_stem@ + seq!['.'] + extension@,
{
    let mut name = video_stem.clone();
    name.push('_');
    name.append(script_stem.as_str());
    name.push('.');
    name.append(extension.as_str());
    name
}

/// The pairs of one video, by the trimmed name of its entry, with all the
/// scripts.
fn pairs_for_video(video: &str, scripts: &Vec<ScriptVariant>, entries: &Vec<ArchiveEntry>) -> (r: (
    Vec<ExtractPair>,
    Option<String>,
))
    ensures
        pair_views(r.0@) == script_pairs(video@, item_names(scripts@), entries@, 0).pairs,
        r.1 == script_pairs(video@, item_names(scripts@), entries@, 0).failure,
{
    let ghost names = item_names(scripts@);
    let (video_stem, video_extension) = split_name(video, "mp4");
    let mut pairs: Vec<ExtractPair> = Vec::new();
    let n: usize = scripts.len();
    let mut j: usize = 0;
    assert(pair_views(pairs@) =~= Seq::<ExtractPairView>::empty());
    while j < n
        invariant
            j <= n == scripts.len(),
            names == item_names(scripts@),
            video_stem@ == name_stem(video@),
            video_extension@ == name_extension(video@, "mp4"@),
            script_pairs(video@, names, entries@, 0).pairs == pair_views(pairs@) + script_pairs(
                video@,
                names,
                entries@,
                j as int,
            ).pairs,
            script_pairs(video@, names, entries@, 0).failure == script_pairs(
                video@,
                names,
                entries@,
                j as int,
            ).failure,
        decreases n - j,
    {
        assert(names[j as int] == scripts@[j as int].item_name());
        let (available, script) = probe(entries, scripts[j].get_name());
        match available {
            Availability::Skipped => {},
            Availability::Failed(detail) => {
                assert(pair_views(pairs@) + Seq::<ExtractPairView>::empty() =~= pair_views(
                    pairs@,
                ));
                return (pairs, Some(detail));
            },
            Availability::Ready => {
                let (script_stem, script_extension) = split_name(script, "funscript");
                let pair = ExtractPair {
                    video_entry: video.to_owned(),
                    script_entry: script.to_owned(),
                    video_file: make_output_name(&video_stem, &script_stem, &video_extension),
                    script_file: make_output_name(&video_stem, &script_stem, &script_extension),
                };
                assert(pair@ == pair_of(video@, script@));
                let ghost before = pairs@;
                pairs.push(pair);
                assert(pair_views(pairs@) =~= pair_views(before).push(pair@));
                assert(pair_views(pairs@) + script_pairs(
                    video@,
                    names,
                    entries@,
                    j + 1,
                ).pairs =~= pair_views(before) + script_pairs(video@, names, entries@, j as int).pairs);
            },
        }
        j = j + 1;
    }
    assert(pair_views(pairs@) + Seq::<ExtractPairView>::empty() =~= pair_views(pairs@));
    (pairs, None)
}

/// The pairs of all the videos with all the scripts.
pub fn pair_items(
    videos: &Vec<VideoFormat>,
    scripts: &Vec<ScriptVariant>,
    entries: &Vec<ArchiveEntry>,
) -> (r: (Vec<ExtractPair>, Option<String>))
    ensures
        pair_views(r.0@) == video_pairs(
            item_names(videos@),
            item_names(scripts@),
            entries@,
            0,
        ).pairs,
        r.1 == video_pairs(item_names(videos@), item_names(scripts@), entries@, 0).failure,
{
    let ghost names = item_names(videos@);
    let ghost script_names = item_names(scripts@);
    let mut pairs: Vec<ExtractPair> = Vec::new();
    let n: usize = videos.len();
    let mut i: usize = 0;
    assert(pair_views(pairs@) =~= Seq::<ExtractPairView>::empty());
    while i < n
        invariant
            i <= n == videos.len(),
            names == item_names(videos@),
            script_names == item_names(scripts@),
            video_pairs(names, script_names, entries@, 0).pairs == pair_views(pairs@)
                + video_pairs(names, script_names, entries@, i as int).pairs,
            video_pairs(names, script_names, entries@, 0).failure == video_pairs(
                names,
                script_names,
                entries@,
                i as int,
            ).failure,
        decreases n - i,
    {
        assert(names[i as int] == videos@[i as int].item_name());
        let (available, video) = probe(entries, videos[i].get_name());
        match available {
            Availability::Skipped => {},
            Availability::Failed(detail) => {
                assert(pair_views(pairs@) + Seq::<ExtractPairView>::empty() =~= pair_views(
                    pairs@,
                ));
                return (pairs, Some(detail));
            },
            Availability::Ready => {
                let (mut here, failure) = pairs_for_video(video, scripts, entries);
                let ghost before = pairs@;
                let ghost added = here@;
                pairs.append(&mut here);
                assert(pair_views(pairs@) =~= pair_views(before) + pair_views(added));
                if failure.is_some() {
                    return (pairs, failure);
                }
                assert(pair_views(pairs@) + video_pairs(
                    names,
                    script_names,
                    entries@,
                    i + 1,
                ).pairs =~= pair_views(before) + video_pairs(
                    names,
                    script_names,
                    entries@,
                    i as int,
                ).pairs);
            },
        }
        i = i + 1;
    }
    assert(pair_views(pairs@) + Seq::<ExtractPairView>::empty() =~= pair_views(pairs@));
    (pairs, None)
}

/// Whether a container of this state is unpacked.
pub open spec fn may_extract(state: FsvState, allow_content_incomplete_extract: bool) -> bool {
    match state {
        FsvState::Valid => true,
        FsvState::ContentIncomplete(_) => allow_content_incomplete_extract,
        FsvState::MetadataInvalid(_) => false,
    }
}

/// Plans the unpacking of a container whose file is named
/// `container_stem` without its extension. The container is judged first:
/// one with an invalid manifest is never unpacked, one with incomplete
/// content only where that is allowed. The directory is named by the
/// title, trimmed, or by the stem where the title is blank. Each video
/// goes with each script.
pub fn extract_fsv(
    container: &Container,
    container_stem: &str,
    allow_content_incomplete_extract: bool,
) -> (r: Result<ExtractPlan, FsvExtractError>)
    ensures
        match r {
            Ok(plan) => {
                &&& verdict(*container) matches Ok(state)
                &&& may_extract(state, allow_content_incomplete_extract)
                &&& container.manifest matches ManifestRead::Parsed(metadata)
                &&& plan.directory@ == (if is_blank(metadata.title@) {
                    container_stem@
                } else {
                    trimmed(metadata.title@)
                })
                &&& pair_views(plan.pairs@) == video_pairs(
                    item_names(metadata.video_formats@),
                    item_names(metadata.script_variants@),
                    container.entries@,
                    0,
                ).pairs
                &&& plan.failure == video_pairs(
                    item_names(metadata.video_formats@),
                    item_names(metadata.script_variants@),
                    container.entries@,
                    0,
                ).failure
            },
            Err(FsvExtractError::Validation(e)) => verdict(*container) == Err::<
                FsvState,
                FsvValidationError,
            >(e),
            Err(FsvExtractError::InvalidState(state)) => {
                &&& verdict(*container) == Ok::<FsvState, FsvValidationError>(state)
                &&& !may_extract(state, allow_content_incomplete_extract)
            },
            Err(_) => false,
        },
{
    let state = match validate_fsv(container) {
        Ok(state) => state,
        Err(e) => {
            return Err(FsvExtractError::Validation(e));
        },
    };
    let allowed: bool = match &state {
        FsvState::Valid => true,
        FsvState::ContentIncomplete(_) => allow_content_incomplete_extract,
        FsvState::MetadataInvalid(_) => false,
    };
    if !allowed {
        return Err(FsvExtractError::InvalidState(state));
    }
    match &container.manifest {
        ManifestRead::Parsed(metadata) => {
            let title = trim(metadata.title.as_str());
            let directory = if title.unicode_len() == 0 {
                container_stem.to_owned()
            } else {
                title.to_owned()
            };
            let (pairs, failure) = pair_items(
                &metadata.video_formats,
                &metadata.script_variants,
                &container.entries,
            );
            Ok(ExtractPlan { directory, pairs, failure })
        },
        _ => {
            proof {
                crate::archive::lemma_find_entry(container.entries@, manifest_name());
            }
            Err(FsvExtractError::InvalidState(state))
        },
    }
}

/// Whether the item of each of `names` can be unpacked.
pub open spec fn all_ready(entries: Seq<ArchiveEntry>, names: Seq<Seq<char>>) -> bool {
    forall|i: int| 0 <= i < names.len() ==> availability(entries, #[trigger] names[i]) is Ready
}

/// One video whose scripts are all ready is paired with each of them, in
/// their order.
pub proof fn lemma_script_pairs_all_ready(
    video: Seq<char>,
    scripts: Seq<Seq<char>>,
    entries: Seq<ArchiveEntry>,
    from: int,
)
    requires
        0 <= from <= scripts.len(),
        all_ready(entries, scripts),
    ensures
        script_pairs(video, scripts, entries, from).failure is None,
        script_pairs(video, scripts, entries, from).pairs.len() == scripts.len() - from,
        forall|k: int|
            0 <= k < scripts.len() - from ==> #[trigger] script_pairs(
                video,
                scripts,
                entries,
                from,
            ).pairs[k] == pair_of(video, trimmed(scripts[from + k])),
    decreases scripts.len() - from,
{
    if from < scripts.len() {
        lemma_script_pairs_all_ready(video, scripts, entries, from + 1);
        assert(availability(entries, scripts[from]) is Ready);
        let rest = script_pairs(video, scripts, entries, from + 1);
        let here = script_pairs(video, scripts, entries, from);
        assert forall|k: int| 0 <= k < scripts.len() - from implies #[trigger] here.pairs[k]
            == pair_of(video, trimmed(scripts[from + k])) by {
            if k > 0 {
                assert(here.pairs[k] == rest.pairs[k - 1]);
            }
        }
    }
}

/// The place of the pair of video `i` with script `j` among the pairs of
/// videos that have `count` scripts each.
pub open spec fn pair_index(i: int, j: int, count: int) -> int {
    i * count + j
}

/// Where every video and every script is ready, unpacking gives one pair
/// for each video with each script and no failure: as many pairs as there
/// are videos times scripts, video by video, and each pair is named by the
/// stems of its two items.
pub proof fn lemma_extract_all_pairs(
    videos: Seq<Seq<char>>,
    scripts: Seq<Seq<char>>,
    entries: Seq<ArchiveEntry>,
    from: int,
)
    requires
        0 <= from <= videos.len(),
        all_ready(entries, videos),
        all_ready(entries, scripts),
    ensures
        video_pairs(videos, scripts, entries, from).failure is None,
        video_pairs(videos, scripts, entries, from).pairs.len() == (videos.len() - from)
            * scripts.len(),
        forall|i: int, j: int|
            0 <= i < videos.len() - from && 0 <= j < scripts.len() ==> {
                &&& 0 <= #[trigger] pair_index(i, j, scripts.len() as int) < video_pairs(
                    videos,
                    scripts,
                    entries,
                    from,
                ).pairs.len()
                &&& video_pairs(videos, scripts, entries, from).pairs[pair_index(
                    i,
                    j,
                    scripts.len() as int,
                )] == pair_of(trimmed(videos[from + i]), trimmed(scripts[j]))
            },
    decreases videos.len() - from,
{
    let m = scripts.len() as int;
    if from < videos.len() {
        lemma_extract_all_pairs(videos, scripts, entries, from + 1);
        assert(availability(entries, videos[from]) is Ready);
        let video = trimmed(videos[from]);
        lemma_script_pairs_all_ready(video, scripts, entries, 0);
        let here = script_pairs(video, scripts, entries, 0);
        let rest = video_pairs(videos, scripts, entries, from + 1);
        let all = video_pairs(videos, scripts, entries, from);
        assert(all.pairs == here.pairs + rest.pairs);
        assert((videos.len() - from) * m == m + (videos.len() - (from + 1)) * m)
            by (nonlinear_arith);
        assert forall|i: int, j: int| 0 <= i < videos.len() - from && 0 <= j < m implies {
            &&& 0 <= #[trigger] pair_index(i, j, m) < all.pairs.len()
            &&& all.pairs[pair_index(i, j, m)] == pair_of(
                trimmed(videos[from + i]),
                trimmed(scripts[j]),
            )
        } by {
            if i == 0 {
                assert(pair_index(i, j, m) == j) by (nonlinear_arith)
                    requires
                        i == 0,
                        pair_index(i, j, m) == i * m + j,
                ;
                assert(all.pairs[j] == here.pairs[j]);
            } else {
                let k = pair_index(i - 1, j, m);
                assert(pair_index(i, j, m) == m + k) by (nonlinear_arith)
                    requires
                        pair_index(i, j, m) == i * m + j,
                        k == (i - 1) * m + j,
                ;
                assert(0 <= k < rest.pairs.len());
                assert(all.pairs[m + k] == rest.pairs[k]);
            }
        }
    } else {
        assert((videos.len() - from) * m == 0) by (nonlinear_arith)
            requires
                videos.len() - from == 0,
        ;
    }
}

// ---------------------------------------------------------------------------
// Creators
// ---------------------------------------------------------------------------

/// What is to be done about the creator of an item.
#[derive(Debug, Clone, PartialEq)]
pub enum CreatorLookup {
    /// No creator was named.
    NotAsked,
    /// The store holds the creator.
    Found(CreatorInfo),
    /// The store holds nothing under this key, and the user is to be asked.
    AskUser(String),
}

/// Decides about the creator of an item from the key that was given, if
/// any, and from what the store holds under it: without a key there is no
/// creator; a creator that the store holds is taken; for one that it does
/// not hold the user is asked, where that can be done, and the key is
/// not found otherwise.
pub fn get_creator_info_from_key(
    creator_key: Option<&str>,
    found: Option<CreatorInfo>,
    interactive: bool,
) -> (r: Result<CreatorLookup, FsvError>)
    ensures
        match creator_key {
            None => r == Ok::<CreatorLookup, FsvError>(CreatorLookup::NotAsked),
            Some(key) => match found {
                Some(info) => r == Ok::<CreatorLookup, FsvError>(CreatorLookup::Found(info)),
                None => if interactive {
                    r matches Ok(CreatorLookup::AskUser(asked)) && asked@ == key@
                } else {
                    r matches Err(FsvError::CreatorInfoNotFound(missing)) && missing@ == key@
                },
            },
        },
{
    match creator_key {
        None => Ok(CreatorLookup::NotAsked),
        Some(key) => match found {
            Some(info) => Ok(CreatorLookup::Found(info)),
            None => if interactive {
                Ok(CreatorLookup::AskUser(key.to_owned()))
            } else {
                Err(FsvError::CreatorInfoNotFound(key.to_owned()))
            },
        },
    }
}

/// A creator as the user described it, and the key to keep it under in the
/// store, if it is to be kept.
#[derive(Debug, Clone, PartialEq)]
pub struct EnteredCreator {
    pub info: CreatorInfo,
    pub store_key: Option<String>,
}

/// The key under which an entered creator is kept: the key that was asked
/// for, or else the one that the user entered; none where that is empty.
pub open spec fn store_key_of(creator_key: Option<&str>, entered_key: Seq<char>) -> Option<
    Seq<char>,
> {
    let key = match creator_key {
        Some(k) => k@,
        None => entered_key,
    };
    if key.len() == 0 {
        None
    } else {
        Some(key)
    }
}

/// The name of a creator as the user entered it: an empty answer gives no
/// name, and the user is to be asked again.
pub fn entered_name(answer: &str) -> (name: Option<String>)
    ensures
        answer@.len() == 0 <==> name is None,
        name matches Some(n) ==> n@ == answer@,
{
    if answer.unicode_len() == 0 {
        None
    } else {
        Some(answer.to_owned())
    }
}

/// Makes a creator of what the user entered: the name, the socials in one
/// line between commas, and a key, which counts only where none was asked
/// for.
pub fn get_creator_info_from_user(
    name: String,
    socials_input: &str,
    creator_key: Option<&str>,
    entered_key: &str,
) -> (entered: EnteredCreator)
    ensures
        entered.info@ == (CreatorInfoView {
            name: name@,
            socials: listed(socials_input@),
            extra: Map::empty(),
        }),
        match entered.store_key {
            Some(key) => store_key_of(creator_key, entered_key@) == Some(key@),
            None => store_key_of(creator_key, entered_key@) is None,
        },
{
    let socials = parse_list(socials_input);
    let info = CreatorInfo::new(name, socials);
    let key: &str = match creator_key {
        Some(k) => k,
        None => entered_key,
    };
    let store_key = if key.unicode_len() == 0 {
        None
    } else {
        Some(key.to_owned())
    };
    EnteredCreator { info, store_key }
}

// ---------------------------------------------------------------------------
// Saying it
// ---------------------------------------------------------------------------

/// What is wrong with the content, in words.
pub open spec fn content_message(reason: ContentIncompleteReason) -> Seq<char> {
    match reason {
        ContentIncompleteReason::UnableToReadItem(item) => "Unable to read "@ + item.name_lower()
            + " file"@,
        ContentIncompleteReason::MissingItemFile(item) => "Missing "@ + item.name_lower()
            + " file in archive"@,
        ContentIncompleteReason::ItemPasswordProtected(item) => item.name()
            + " file is password protected"@,
        ContentIncompleteReason::DuplicateItemEntry(item) => "Duplicate "@ + item.name_lower()
            + " entry in metadata"@,
    }
}

/// What is wrong with the manifest, in words.
pub open spec fn metadata_message(reason: MetadataInvalidReason) -> Seq<char> {
    match reason {
        MetadataInvalidReason::InvalidFormatVersion => "Invalid format version in metadata."@,
        MetadataInvalidReason::MalformedJson(detail) => "Malformed JSON in metadata: "@ + detail@,
        MetadataInvalidReason::UnsupportedFormatVersion(version) =>
            "Unsupported format version in metadata: "@ + version_text(version),
        MetadataInvalidReason::MissingVideoFormat => "Missing video format in metadata."@,
        MetadataInvalidReason::MissingScriptVariant => "Missing script variant in metadata."@,
    }
}

/// The verdict in words, for the user.
pub open spec fn state_message(state: FsvState) -> Seq<char> {
    match state {
        FsvState::Valid => "FSV file is valid."@,
        FsvState::ContentIncomplete(reason) => content_message(reason),
        FsvState::MetadataInvalid(reason) => metadata_message(reason),
    }
}

/// The verdict in words, for the user.
pub fn describe_state(state: &FsvState) -> (message: String)
    ensures
        message@ == state_message(*state),
{
    match state {
        FsvState::Valid => "FSV file is valid.".to_owned(),
        FsvState::ContentIncomplete(reason) => match reason {
            ContentIncompleteReason::UnableToReadItem(item) => {
                let mut message = "Unable to read ".to_owned();
                message.append(item.get_name_lower());
                message.append(" file");
                message
            },
            ContentIncompleteReason::MissingItemFile(item) => {
                let mut message = "Missing ".to_owned();
                message.append(item.get_name_lower());
                message.append(" file in archive");
                message
            },
            ContentIncompleteReason::ItemPasswordProtected(item) => {
                let mut message = item.get_name().to_owned();
                message.append(" file is password protected");
                message
            },
            ContentIncompleteReason::DuplicateItemEntry(item) => {
                let mut message = "Duplicate ".to_owned();
                message.append(item.get_name_lower());
                message.append(" entry in metadata");
                message
            },
        },
        FsvState::MetadataInvalid(reason) => match reason {
            MetadataInvalidReason::InvalidFormatVersion => "Invalid format version in metadata.".to_owned(),
            MetadataInvalidReason::MalformedJson(detail) => {
                let mut message = "Malformed JSON in metadata: ".to_owned();
                message.append(detail.as_str());
                message
            },
            MetadataInvalidReason::UnsupportedFormatVersion(version) => {
                let mut message = "Unsupported format version in metadata: ".to_owned();
                let text = version.to_string();
                message.append(text.as_str());
                message
            },
            MetadataInvalidReason::MissingVideoFormat => "Missing video format in metadata.".to_owned(),
            MetadataInvalidReason::MissingScriptVariant => "Missing script variant in metadata.".to_owned(),
        },
    }
}

// ---------------------------------------------------------------------------
// What holds of every verdict
// ---------------------------------------------------------------------------

/// Whether the archive has an entry for the manifest, and that entry opens.
pub open spec fn manifest_opens(entries: Seq<ArchiveEntry>) -> bool {
    find_entry(entries, manifest_name()) matches Some(i) && entries[i].fault is None
}

/// A container whose archive has no entry for the manifest is none: it
/// cannot be opened, and it gets no verdict, whatever else it holds.
pub proof fn lemma_no_manifest_entry(container: Container)
    requires
        forall|i: int|
            0 <= i < container.entries@.len() ==> (#[trigger] container.entries@[i]).name@
                != manifest_name(),
    ensures
        verdict(container) == Err::<FsvState, FsvValidationError>(
            FsvValidationError::MetadataNotFound,
        ),
        opened(container) == Err::<FsvMetadata, FsvError>(FsvError::MetadataFileNotFound),
{
    crate::archive::lemma_find_entry(container.entries@, manifest_name());
}

/// What the text of the format version decides: where it stands for no
/// version, the container is invalid by its format version, whatever the
/// rest of the manifest holds; where it stands for one, the verdict is that
/// on the manifest with that version.
pub proof fn lemma_verdict_by_version_text(
    container: Container,
    format_version: Seq<char>,
    manifest: FsvMetadata,
)
    requires
        manifest_opens(container.entries@),
        manifest_as_read(format_version, manifest, container.manifest),
    ensures
        match parse_version(format_version) {
            Err(_) => verdict(container) == Ok::<FsvState, FsvValidationError>(
                FsvState::MetadataInvalid(MetadataInvalidReason::InvalidFormatVersion),
            ),
            Ok(version) => verdict(container) == manifest_verdict(
                FsvMetadata { format_version: version, ..manifest },
                container.entries@,
            ),
        },
{
}

/// A manifest that the reader refused makes the container invalid as
/// malformed, with the reader's message, whatever that message holds.
pub proof fn lemma_reader_failure_is_malformed(container: Container, message: String)
    requires
        manifest_opens(container.entries@),
        container.manifest == ManifestRead::Malformed(message),
    ensures
        verdict(container) == Ok::<FsvState, FsvValidationError>(
            FsvState::MetadataInvalid(MetadataInvalidReason::MalformedJson(message)),
        ),
{
}

/// A manifest of a version that this library does not read makes the
/// container invalid, and the verdict names the version.
pub proof fn lemma_unsupported_version(container: Container, metadata: FsvMetadata)
    requires
        manifest_opens(container.entries@),
        container.manifest == ManifestRead::Parsed(metadata),
        precedes(latest_format_version(), metadata.format_version) || precedes(
            metadata.format_version,
            minimum_format_version(),
        ),
    ensures
        verdict(container) == Ok::<FsvState, FsvValidationError>(
            FsvState::MetadataInvalid(
                MetadataInvalidReason::UnsupportedFormatVersion(metadata.format_version),
            ),
        ),
{
}

/// A manifest of a version that is read, none of whose video formats has a
/// name, makes the container invalid for want of a video format.
pub proof fn lemma_blank_video_names(container: Container, metadata: FsvMetadata)
    requires
        manifest_opens(container.entries@),
        container.manifest == ManifestRead::Parsed(metadata),
        version_supported(metadata.format_version),
        forall|i: int|
            0 <= i < metadata.video_formats@.len() ==> is_blank(
                (#[trigger] metadata.video_formats@[i]).name@,
            ),
    ensures
        verdict(container) == Ok::<FsvState, FsvValidationError>(
            FsvState::MetadataInvalid(MetadataInvalidReason::MissingVideoFormat),
        ),
{
    let names = item_names(metadata.video_formats@);
    assert forall|i: int| 0 <= i < names.len() implies is_blank(#[trigger] names[i]) by {
        assert(names[i] == metadata.video_formats@[i].name@);
    }
}

/// Two video formats of one name, whose entry is there and opens, make the
/// content incomplete by a duplicate video, whatever the script variants
/// and the subtitle tracks are and whether their entries are there.
pub proof fn lemma_duplicate_video(container: Container, metadata: FsvMetadata)
    requires
        manifest_opens(container.entries@),
        container.manifest == ManifestRead::Parsed(metadata),
        version_supported(metadata.format_version),
        has_named(item_names(metadata.script_variants@)),
        metadata.video_formats@.len() >= 2,
        !is_blank(metadata.video_formats@[0].name@),
        trimmed(metadata.video_formats@[0].name@) == trimmed(metadata.video_formats@[1].name@),
        is_present(container.entries@, trimmed(metadata.video_formats@[0].name@)),
    ensures
        verdict(container) == Ok::<FsvState, FsvValidationError>(
            FsvState::ContentIncomplete(
                ContentIncompleteReason::DuplicateItemEntry(ItemType::Video),
            ),
        ),
{
    let names = item_names(metadata.video_formats@);
    let entries = container.entries@;
    assert(names[0] == metadata.video_formats@[0].name@);
    assert(names[1] == metadata.video_formats@[1].name@);
    assert(!is_blank(names[0]));
    assert(has_named(names));
    assert(!seen_before(names, 0));
    assert(lookup_verdict(ItemType::Video, entries, trimmed(names[0])) is None);
    assert(seen_before(names, 1)) by {
        assert(trimmed(names[0]) == trimmed(names[1]));
    }
    assert(check_items(ItemType::Video, names, entries, 1) == Ok::<FsvState, FsvValidationError>(
        FsvState::ContentIncomplete(ContentIncompleteReason::DuplicateItemEntry(ItemType::Video)),
    ));
    assert(check_items(ItemType::Video, names, entries, 0) == check_items(
        ItemType::Video,
        names,
        entries,
        1,
    ));
}

/// Whether no two of `names` are the same.
pub open spec fn distinct(names: Seq<Seq<char>>) -> bool {
    forall|i: int, j: int| 0 <= i < j < names.len() ==> names[i] != names[j]
}

/// The names of the descriptors of one kind, in order.
pub open spec fn names_of_kind(metadata: FsvMetadataView, item_type: ItemType) -> Seq<Seq<char>> {
    match item_type {
        ItemType::Video => metadata.video_formats.map_values(|v: VideoFormatView| v.name),
        ItemType::Script => metadata.script_variants.map_values(|v: ScriptVariantView| v.name),
        ItemType::Subtitle => metadata.subtitle_tracks.map_values(|v: SubtitleTrackView| v.name),
    }
}

/// Putting in an item under a name that the manifest does not have for its
/// kind adds that name to the names of the kind and leaves the other kinds
/// as they were; so names that were distinct within each kind stay so.
pub proof fn lemma_addition_keeps_names_distinct(
    old: FsvMetadata,
    name: Seq<char>,
    content: Seq<u8>,
    detail: ItemDetail,
    creator: Option<CreatorInfoView>,
    item_type: ItemType,
)
    requires
        !has_item(old, detail.kind(), name),
        distinct(names_of_kind(old@, item_type)),
    ensures
        names_of_kind(after_addition(old@, name, content, detail, creator), detail.kind())
            == names_of_kind(old@, detail.kind()).push(name),
        item_type != detail.kind() ==> names_of_kind(
            after_addition(old@, name, content, detail, creator),
            item_type,
        ) == names_of_kind(old@, item_type),
        distinct(names_of_kind(after_addition(old@, name, content, detail, creator), item_type)),
{
    let new = after_addition(old@, name, content, detail, creator);
    let before = names_of_kind(old@, detail.kind());
    assert(names_of_kind(new, detail.kind()) =~= before.push(name));
    if item_type != detail.kind() {
        assert(names_of_kind(new, item_type) =~= names_of_kind(old@, item_type));
    } else {
        match detail.kind() {
            ItemType::Video => {
                assert(before =~= item_names(old.video_formats@));
            },
            ItemType::Script => {
                assert(before =~= item_names(old.script_variants@));
            },
            ItemType::Subtitle => {
                assert(before =~= item_names(old.subtitle_tracks@));
            },
        }
        let all = before.push(name);
        assert forall|i: int, j: int| 0 <= i < j < all.len() implies all[i] != all[j] by {
            if j == before.len() {
                assert(before.contains(before[i]));
            }
        }
    }
}

/// With the script `stem.funscript` go the files of all its axes: for a
/// stem without a dot and each axis, the file `stem.axis.funscript` is among
/// the files of the script.
pub proof fn lemma_script_has_axis_files(stem: Seq<char>, k: int)
    requires
        forall|i: int| 0 <= i < stem.len() ==> stem[i] != '.',
        0 <= k < axis_names().len(),
    ensures
        script_file_names(stem + ".funscript"@)[0] == stem + ".funscript"@,
        script_file_names(stem + ".funscript"@).contains(
            companion_name(stem, axis_names()[k], "funscript"@),
        ),
{
    reveal_strlit(".funscript");
    reveal_strlit("funscript");
    let id = stem + ".funscript"@;
    lemma_index_of(id, '.', stem.len() as int);
    assert(id.take(stem.len() as int) =~= stem);
    assert(id.skip(stem.len() as int + 1) =~= "funscript"@);
    assert(name_stem(id) == stem);
    assert(name_extension(id, "funscript"@) == "funscript"@);
    let names = script_file_names(id);
    let companions = axis_names().map_values(
        |axis: Seq<char>| companion_name(stem, axis, "funscript"@),
    );
    assert(names == seq![id] + companions);
    assert(names[k + 1] == companions[k]);
}

// ---------------------------------------------------------------------------
// Every state has a message of its own
// ---------------------------------------------------------------------------

/// A state with its texts as sequences of characters.
pub enum FsvStateView {
    Valid,
    ContentIncomplete(ContentIncompleteReason),
    InvalidFormatVersion,
    MalformedJson(Seq<char>),
    UnsupportedFormatVersion(Version),
    MissingVideoFormat,
    MissingScriptVariant,
}

impl View for FsvState {
    type V = FsvStateView;

    open spec fn view(&self) -> FsvStateView {
        match self {
            FsvState::Valid => FsvStateView::Valid,
            FsvState::ContentIncomplete(reason) => FsvStateView::ContentIncomplete(*reason),
            FsvState::MetadataInvalid(reason) => match reason {
                MetadataInvalidReason::InvalidFormatVersion => FsvStateView::InvalidFormatVersion,
                MetadataInvalidReason::MalformedJson(detail) => FsvStateView::MalformedJson(
                    detail@,
                ),
                MetadataInvalidReason::UnsupportedFormatVersion(version) =>
                    FsvStateView::UnsupportedFormatVersion(*version),
                MetadataInvalidReason::MissingVideoFormat => FsvStateView::MissingVideoFormat,
                MetadataInvalidReason::MissingScriptVariant => FsvStateView::MissingScriptVariant,
            },
        }
    }
}

/// The kind of item whose name, in small letters, stands in `message` at
/// place `at`.
pub open spec fn item_at(message: Seq<char>, at: int) -> ItemType {
    if message[at] == 'v' {
        ItemType::Video
    } else if message[at + 1] == 'c' {
        ItemType::Script
    } else {
        ItemType::Subtitle
    }
}

/// The state that a message tells of, read from the characters that tell
/// the messages apart.
pub open spec fn state_told(message: Seq<char>) -> FsvStateView {
    if message[0] == 'F' {
        FsvStateView::Valid
    } else if message[0] == 'I' {
        FsvStateView::InvalidFormatVersion
    } else if message[0] == 'D' {
        FsvStateView::ContentIncomplete(
            ContentIncompleteReason::DuplicateItemEntry(item_at(message, 10)),
        )
    } else if message[0] == 'V' {
        FsvStateView::ContentIncomplete(
            ContentIncompleteReason::ItemPasswordProtected(ItemType::Video),
        )
    } else if message[0] == 'S' {
        FsvStateView::ContentIncomplete(
            ContentIncompleteReason::ItemPasswordProtected(
                if message[1] == 'c' {
                    ItemType::Script
                } else {
                    ItemType::Subtitle
                },
            ),
        )
    } else if message[0] == 'U' {
        if message[2] == 'a' {
            FsvStateView::ContentIncomplete(
                ContentIncompleteReason::UnableToReadItem(item_at(message, 15)),
            )
        } else {
            match parse_version(
                message.skip("Unsupported format version in metadata: "@.len() as int),
            ) {
                Ok(version) => FsvStateView::UnsupportedFormatVersion(version),
                Err(_) => FsvStateView::Valid,
            }
        }
    } else if message[1] == 'a' {
        FsvStateView::MalformedJson(message.skip("Malformed JSON in metadata: "@.len() as int))
    } else if message[8] == 'v' {
        if message[15] == 'i' {
            FsvStateView::ContentIncomplete(
                ContentIncompleteReason::MissingItemFile(ItemType::Video),
            )
        } else {
            FsvStateView::MissingVideoFormat
        }
    } else if message[9] == 'u' {
        FsvStateView::ContentIncomplete(
            ContentIncompleteReason::MissingItemFile(ItemType::Subtitle),
        )
    } else if message[15] == 'f' {
        FsvStateView::ContentIncomplete(ContentIncompleteReason::MissingItemFile(ItemType::Script))
    } else {
        FsvStateView::MissingScriptVariant
    }
}

proof fn lemma_item_names(item: ItemType)
    ensures
        item.name_lower().len() >= 5,
        item.name().len() >= 5,
        item.name_lower()[0] == (if item == ItemType::Video {
            'v'
        } else {
            's'
        }),
        item.name_lower()[1] == (match item {
            ItemType::Video => 'i',
            ItemType::Script => 'c',
            ItemType::Subtitle => 'u',
        }),
        item.name()[0] == (if item == ItemType::Video {
            'V'
        } else {
            'S'
        }),
        item.name()[1] == (match item {
            ItemType::Video => 'i',
            ItemType::Script => 'c',
            ItemType::Subtitle => 'u',
        }),
        item.name_lower() == "video"@ || item.name_lower() == "script"@ || item.name_lower()
            == "subtitle"@,
{
    reveal_strlit("video");
    reveal_strlit("script");
    reveal_strlit("subtitle");
    reveal_strlit("Video");
    reveal_strlit("Script");
    reveal_strlit("Subtitle");
}

/// The message of a state tells of that state and of no other.
pub proof fn lemma_message_tells_state(state: FsvState)
    ensures
        state_told(state_message(state)) == state@,
{
    let m = state_message(state);
    match state {
        FsvState::Valid => {
            reveal_strlit("FSV file is valid.");
        },
        FsvState::ContentIncomplete(reason) => {
            match reason {
                ContentIncompleteReason::UnableToReadItem(item) => {
                    lemma_item_names(item);
                    reveal_strlit("Unable to read ");
                    reveal_strlit(" file");
                    let head = "Unable to read "@;
                    assert(m[0] == head[0] && m[2] == head[2]);
                    assert(m[15] == item.name_lower()[0]);
                    assert(m[16] == item.name_lower()[1]);
                },
                ContentIncompleteReason::MissingItemFile(item) => {
                    lemma_item_names(item);
                    reveal_strlit("Missing ");
                    reveal_strlit(" file in archive");
                    reveal_strlit("video");
                    reveal_strlit("script");
                    reveal_strlit("subtitle");
                    let head = "Missing "@;
                    let tail = " file in archive"@;
                    assert(m[0] == head[0] && m[1] == head[1]);
                    assert(m[8] == item.name_lower()[0]);
                    assert(m[9] == item.name_lower()[1]);
                    match item {
                        ItemType::Video => {
                            assert(m[15] == tail[2]);
                        },
                        ItemType::Script => {
                            assert(m[15] == tail[1]);
                        },
                        ItemType::Subtitle => {},
                    }
                },
                ContentIncompleteReason::ItemPasswordProtected(item) => {
                    lemma_item_names(item);
                    reveal_strlit(" file is password protected");
                    assert(m[0] == item.name()[0]);
                    assert(m[1] == item.name()[1]);
                },
                ContentIncompleteReason::DuplicateItemEntry(item) => {
                    lemma_item_names(item);
                    reveal_strlit("Duplicate ");
                    reveal_strlit(" entry in metadata");
                    let head = "Duplicate "@;
                    assert(m[0] == head[0]);
                    assert(m[10] == item.name_lower()[0]);
                    assert(m[11] == item.name_lower()[1]);
                },
            }
        },
        FsvState::MetadataInvalid(reason) => {
            match reason {
                MetadataInvalidReason::InvalidFormatVersion => {
                    reveal_strlit("Invalid format version in metadata.");
                },
                MetadataInvalidReason::MalformedJson(detail) => {
                    reveal_strlit("Malformed JSON in metadata: ");
                    let head = "Malformed JSON in metadata: "@;
                    assert(m[0] == head[0] && m[1] == head[1]);
                    assert(m.skip(head.len() as int) =~= detail@);
                },
                MetadataInvalidReason::UnsupportedFormatVersion(version) => {
                    reveal_strlit("Unsupported format version in metadata: ");
                    let head = "Unsupported format version in metadata: "@;
                    assert(m[0] == head[0] && m[2] == head[2]);
                    assert(m.skip(head.len() as int) =~= version_text(version));
                    lemma_parse_version_text(version);
                },
                MetadataInvalidReason::MissingVideoFormat => {
                    reveal_strlit("Missing video format in metadata.");
                },
                MetadataInvalidReason::MissingScriptVariant => {
                    reveal_strlit("Missing script variant in metadata.");
                },
            }
        },
    }
}

/// Different states have different messages: states of different kinds,
/// of different reasons or about different kinds of item, and states that
/// differ in the text or in the version that they carry.
pub proof fn lemma_messages_are_distinct(a: FsvState, b: FsvState)
    requires
        state_message(a) == state_message(b),
    ensures
        a@ == b@,
{
    lemma_message_tells_state(a);
    lemma_message_tells_state(b);
}

} // verus!
