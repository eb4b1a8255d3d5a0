//! The manifest of a container: root metadata, creator attributions and the
//! descriptors of the items, each with a bag for the fields that this
//! version of the schema does not know.

use crate::semver::Version;
use crate::text::views;
use serde_json::Value;
use std::collections::HashMap;
use vstd::prelude::*;
use vstd::std_specs::iter::IteratorSpec;

verus! {

/// A JSON value of `serde_json`, carried through as it is.
#[verifier::external_type_specification]
#[verifier::external_body]
pub struct ExValue(serde_json::Value);

/// A named item with a checksum: what the three kinds of descriptor share.
pub trait WorkItem {
    /// The name of the item, which is the name of its archive entry.
    spec fn item_name(&self) -> Seq<char>;

    fn get_name(&self) -> (name: &str)
        ensures
            name@ == self.item_name(),
    ;
}

/// The names of `items`, in order.
pub open spec fn item_names<T: WorkItem>(items: Seq<T>) -> Seq<Seq<char>> {
    items.map_values(|item: T| item.item_name())
}

/// The items whose name is none of `names`.
pub open spec fn not_named_in<T: WorkItem>(names: Seq<Seq<char>>) -> spec_fn(T) -> bool {
    |item: T| !names.contains(item.item_name())
}

/// Whether the name of one of `items` is among `names`.
pub open spec fn any_named_in<T: WorkItem>(items: Seq<T>, names: Seq<Seq<char>>) -> bool {
    exists|i: int| 0 <= i < items.len() && names.contains((#[trigger] items[i]).item_name())
}

/// Whether `name` is among `names`.
pub fn is_listed(names: &Vec<String>, name: &str) -> (r: bool)
    ensures
        r == views(names@).contains(name@),
{
    let key = name.to_owned();
    let n: usize = names.len();
    let mut i: usize = 0;
    while i < n
        invariant
            i <= n == names.len(),
            key@ == name@,
            forall|k: int| 0 <= k < i ==> views(names@)[k] != name@,
        decreases n - i,
    {
        assert(views(names@)[i as int] == names@[i as int]@);
        if names[i] == key {
            assert(views(names@).contains(name@));
            return true;
        }
        i = i + 1;
    }
    false
}

/// `items` without those whose name is among `names`, in the old order,
/// and whether there was such an item.
pub fn remove_named<T: WorkItem>(items: Vec<T>, names: &Vec<String>) -> (r: (Vec<T>, bool))
    ensures
        r.0@ == items@.filter(not_named_in::<T>(views(names@))),
        r.1 == any_named_in(items@, views(names@)),
{
    let ghost all = items@;
    let ghost gone = views(names@);
    let mut kept: Vec<T> = Vec::new();
    let mut found: bool = false;
    proof {
        reveal(Seq::filter);
        assert(all.take(0).filter(not_named_in::<T>(gone)) =~= Seq::<T>::empty());
    }
    for item in it: items
        invariant
            it.seq() == all,
            gone == views(names@),
            kept@ == all.take(it.index()).filter(not_named_in::<T>(gone)),
            found == any_named_in(all.take(it.index()), gone),
    {
        proof {
            reveal(Seq::filter);
            assert(all.take(it.index() + 1).drop_last() =~= all.take(it.index()));
        }
        let ghost before = all.take(it.index());
        let ghost now = all.take(it.index() + 1);
        if is_listed(names, item.get_name()) {
            assert(gone.contains(now[it.index()].item_name()));
            found = true;
        } else {
            proof {
                if any_named_in(now, gone) {
                    let k = choose|k: int|
                        0 <= k < now.len() && gone.contains((#[trigger] now[k]).item_name());
                    assert(before[k] == now[k]);
                }
                if any_named_in(before, gone) {
                    let k = choose|k: int|
                        0 <= k < before.len() && gone.contains((#[trigger] before[k]).item_name());
                    assert(before[k] == now[k]);
                }
            }
            kept.push(item);
        }
        proof {
            if found && any_named_in(before, gone) {
                let k = choose|k: int|
                    0 <= k < before.len() && gone.contains((#[trigger] before[k]).item_name());
                assert(before[k] == now[k]);
            }
        }
    }
    assert(all.take(all.len() as int) =~= all);
    (kept, found)
}

// ---------------------------------------------------------------------------
// Creators
// ---------------------------------------------------------------------------

/// A creator: a name and the places where the creator is found.
#[derive(Debug, Clone, PartialEq)]
pub struct CreatorInfo {
    pub name: String,
    pub socials: Vec<String>,
    pub extra: HashMap<String, Value>,
}

pub struct CreatorInfoView {
    pub name: Seq<char>,
    pub socials: Seq<Seq<char>>,
    pub extra: Map<String, Value>,
}

impl View for CreatorInfo {
    type V = CreatorInfoView;

    open spec fn view(&self) -> CreatorInfoView {
        CreatorInfoView { name: self.name@, socials: views(self.socials@), extra: self.extra@ }
    }
}

impl CreatorInfo {
    pub fn new(name: String, socials: Vec<String>) -> (info: CreatorInfo)
        ensures
            info@ == (CreatorInfoView {
                name: name@,
                socials: views(socials@),
                extra: Map::empty(),
            }),
    {
        CreatorInfo { name, socials, extra: HashMap::new() }
    }
}

/// Who made one work of the container.
#[derive(Debug, Clone, PartialEq)]
pub struct WorkCreatorsMetadata {
    pub work_name: String,
    pub source_url: String,
    pub creator_info: CreatorInfo,
    pub extra: HashMap<String, Value>,
}

pub struct WorkCreatorsMetadataView {
    pub work_name: Seq<char>,
    pub source_url: Seq<char>,
    pub creator_info: CreatorInfoView,
    pub extra: Map<String, Value>,
}

impl View for WorkCreatorsMetadata {
    type V = WorkCreatorsMetadataView;

    open spec fn view(&self) -> WorkCreatorsMetadataView {
        WorkCreatorsMetadataView {
            work_name: self.work_name@,
            source_url: self.source_url@,
            creator_info: self.creator_info@,
            extra: self.extra@,
        }
    }
}

impl WorkCreatorsMetadata {
    pub fn new(work_name: String, source_url: String, creator_info: CreatorInfo) -> (work:
        WorkCreatorsMetadata)
        ensures
            work@ == (WorkCreatorsMetadataView {
                work_name: work_name@,
                source_url: source_url@,
                creator_info: creator_info@,
                extra: Map::empty(),
            }),
    {
        WorkCreatorsMetadata { work_name, source_url, creator_info, extra: HashMap::new() }
    }
}

/// The views of `works`, in order.
pub open spec fn work_views(works: Seq<WorkCreatorsMetadata>) -> Seq<WorkCreatorsMetadataView> {
    works.map_values(|w: WorkCreatorsMetadata| w@)
}

/// The works that are not named `name`.
pub open spec fn work_not_named(name: Seq<char>) -> spec_fn(WorkCreatorsMetadata) -> bool {
    |work: WorkCreatorsMetadata| work.work_name@ != name
}

/// Whether one of `works` is named `name`.
pub open spec fn has_work_named(works: Seq<WorkCreatorsMetadata>, name: Seq<char>) -> bool {
    exists|i: int| 0 <= i < works.len() && (#[trigger] works[i]).work_name@ == name
}

/// `works` without those named `name`, in the old order, and whether there
/// was such a work.
pub fn remove_works(works: Vec<WorkCreatorsMetadata>, name: &str) -> (r: (
    Vec<WorkCreatorsMetadata>,
    bool,
))
    ensures
        r.0@ == works@.filter(work_not_named(name@)),
        r.1 == has_work_named(works@, name@),
{
    let ghost all = works@;
    let key = name.to_owned();
    let mut kept: Vec<WorkCreatorsMetadata> = Vec::new();
    let mut found: bool = false;
    proof {
        reveal(Seq::filter);
        assert(all.take(0).filter(work_not_named(name@)) =~= Seq::<WorkCreatorsMetadata>::empty());
    }
    for work in it: works
        invariant
            it.seq() == all,
            key@ == name@,
            kept@ == all.take(it.index()).filter(work_not_named(name@)),
            found == has_work_named(all.take(it.index()), name@),
    {
        proof {
            reveal(Seq::filter);
            assert(all.take(it.index() + 1).drop_last() =~= all.take(it.index()));
        }
        let ghost before = all.take(it.index());
        let ghost now = all.take(it.index() + 1);
        if work.work_name == key {
            assert(now[it.index()].work_name@ == name@);
            found = true;
        } else {
            proof {
                if has_work_named(now, name@) {
                    let k = choose|k: int|
                        0 <= k < now.len() && (#[trigger] now[k]).work_name@ == name@;
                    assert(before[k] == now[k]);
                }
                if has_work_named(before, name@) {
                    let k = choose|k: int|
                        0 <= k < before.len() && (#[trigger] before[k]).work_name@ == name@;
                    assert(before[k] == now[k]);
                }
            }
            kept.push(work);
        }
        proof {
            if found && has_work_named(before, name@) {
                let k = choose|k: int|
                    0 <= k < before.len() && (#[trigger] before[k]).work_name@ == name@;
                assert(before[k] == now[k]);
            }
        }
    }
    assert(all.take(all.len() as int) =~= all);
    (kept, found)
}

/// Those of `items` that `keep` marks, in the old order.
pub open spec fn chosen<T>(items: Seq<T>, keep: Seq<bool>) -> Seq<T>
    decreases items.len(),
{
    if items.len() == 0 {
        items
    } else {
        let before = chosen(items.drop_last(), keep.drop_last());
        if keep.last() {
            before.push(items.last())
        } else {
            before
        }
    }
}

/// Whether `keep` holds, for each of `works`, an answer that `f` can give
/// for it.
pub open spec fn answers<F: Fn(&WorkCreatorsMetadata) -> bool>(
    f: F,
    works: Seq<WorkCreatorsMetadata>,
    keep: Seq<bool>,
) -> bool {
    keep.len() == works.len() && forall|i: int|
        0 <= i < works.len() ==> call_ensures(f, (&#[trigger] works[i],), keep[i])
}

/// Whether `new` is what is left of `old` when each work stays for which
/// `f` answers yes.
pub open spec fn retained_by<F: Fn(&WorkCreatorsMetadata) -> bool>(
    f: F,
    old: Seq<WorkCreatorsMetadata>,
    new: Seq<WorkCreatorsMetadata>,
) -> bool {
    exists|keep: Seq<bool>| answers(f, old, keep) && new == chosen(old, keep)
}

/// The works for which `f` answers yes, in the old order.
fn retain_works<F: Fn(&WorkCreatorsMetadata) -> bool>(works: Vec<WorkCreatorsMetadata>, f: &F) -> (kept:
    Vec<WorkCreatorsMetadata>)
    requires
        forall|work: WorkCreatorsMetadata| call_requires(*f, (&work,)),
    ensures
        retained_by(*f, works@, kept@),
{
    let ghost all = works@;
    let ghost mut keep: Seq<bool> = Seq::empty();
    let mut kept: Vec<WorkCreatorsMetadata> = Vec::new();
    assert(all.take(0) =~= Seq::<WorkCreatorsMetadata>::empty());
    for work in it: works
        invariant
            it.seq() == all,
            forall|work: WorkCreatorsMetadata| call_requires(*f, (&work,)),
            keep.len() == it.index(),
            forall|i: int| 0 <= i < it.index() ==> call_ensures(*f, (&#[trigger] all[i],), keep[i]),
            kept@ == chosen(all.take(it.index()), keep),
    {
        let stays: bool = f(&work);
        proof {
            let ghost before = keep;
            keep = keep.push(stays);
            assert(keep.drop_last() =~= before);
            assert(all.take(it.index() + 1).drop_last() =~= all.take(it.index()));
        }
        if stays {
            kept.push(work);
        }
    }
    proof {
        assert(all.take(all.len() as int) =~= all);
        assert(answers(*f, all, keep));
    }
    kept
}

/// The creators of the works of a container, by kind of work.
#[derive(Debug, Clone, PartialEq)]
pub struct CreatorsMetadata {
    pub videos: Vec<WorkCreatorsMetadata>,
    pub scripts: Vec<WorkCreatorsMetadata>,
    pub subtitles: Vec<WorkCreatorsMetadata>,
    pub extra: HashMap<String, Value>,
}

pub struct CreatorsMetadataView {
    pub videos: Seq<WorkCreatorsMetadataView>,
    pub scripts: Seq<WorkCreatorsMetadataView>,
    pub subtitles: Seq<WorkCreatorsMetadataView>,
    pub extra: Map<String, Value>,
}

impl View for CreatorsMetadata {
    type V = CreatorsMetadataView;

    open spec fn view(&self) -> CreatorsMetadataView {
        CreatorsMetadataView {
            videos: work_views(self.videos@),
            scripts: work_views(self.scripts@),
            subtitles: work_views(self.subtitles@),
            extra: self.extra@,
        }
    }
}

impl CreatorsMetadata {
    pub fn new() -> (creators: CreatorsMetadata)
        ensures
            creators@ == (CreatorsMetadataView {
                videos: Seq::empty(),
                scripts: Seq::empty(),
                subtitles: Seq::empty(),
                extra: Map::empty(),
            }),
    {
        let creators = CreatorsMetadata {
            videos: Vec::new(),
            scripts: Vec::new(),
            subtitles: Vec::new(),
            extra: HashMap::new(),
        };
        assert(work_views(creators.videos@) =~= Seq::empty());
        assert(work_views(creators.scripts@) =~= Seq::empty());
        assert(work_views(creators.subtitles@) =~= Seq::empty());
        creators
    }

    /// Whether no work of any kind has a creator.
    pub fn is_empty(&self) -> (r: bool)
        ensures
            r == (self@.videos.len() == 0 && self@.scripts.len() == 0 && self@.subtitles.len()
                == 0),
    {
        self.videos.is_empty() && self.scripts.is_empty() && self.subtitles.is_empty()
    }

    /// Keeps the works for which `f` answers yes, in each of the three
    /// lists and in the old order.
    pub fn retain<F: Fn(&WorkCreatorsMetadata) -> bool>(&mut self, f: F)
        requires
            forall|work: WorkCreatorsMetadata| call_requires(f, (&work,)),
        ensures
            retained_by(f, old(self).videos@, final(self).videos@),
            retained_by(f, old(self).scripts@, final(self).scripts@),
            retained_by(f, old(self).subtitles@, final(self).subtitles@),
            final(self).extra == old(self).extra,
    {
        let mut videos: Vec<WorkCreatorsMetadata> = Vec::new();
        std::mem::swap(&mut self.videos, &mut videos);
        self.videos = retain_works(videos, &f);
        let mut scripts: Vec<WorkCreatorsMetadata> = Vec::new();
        std::mem::swap(&mut self.scripts, &mut scripts);
        self.scripts = retain_works(scripts, &f);
        let mut subtitles: Vec<WorkCreatorsMetadata> = Vec::new();
        std::mem::swap(&mut self.subtitles, &mut subtitles);
        self.subtitles = retain_works(subtitles, &f);
    }

    /// Keeps the works that are not named `work_name`, in each of the three
    /// lists and in the old order, and says whether a work was dropped.
    pub fn remove_works_named(&mut self, work_name: &str) -> (dropped: bool)
        ensures
            final(self).videos@ == old(self).videos@.filter(work_not_named(work_name@)),
            final(self).scripts@ == old(self).scripts@.filter(work_not_named(work_name@)),
            final(self).subtitles@ == old(self).subtitles@.filter(work_not_named(work_name@)),
            final(self).extra == old(self).extra,
            dropped == (has_work_named(old(self).videos@, work_name@) || has_work_named(
                old(self).scripts@,
                work_name@,
            ) || has_work_named(old(self).subtitles@, work_name@)),
    {
        let mut videos: Vec<WorkCreatorsMetadata> = Vec::new();
        std::mem::swap(&mut self.videos, &mut videos);
        let (videos, in_videos) = remove_works(videos, work_name);
        self.videos = videos;
        let mut scripts: Vec<WorkCreatorsMetadata> = Vec::new();
        std::mem::swap(&mut self.scripts, &mut scripts);
        let (scripts, in_scripts) = remove_works(scripts, work_name);
        self.scripts = scripts;
        let mut subtitles: Vec<WorkCreatorsMetadata> = Vec::new();
        std::mem::swap(&mut self.subtitles, &mut subtitles);
        let (subtitles, in_subtitles) = remove_works(subtitles, work_name);
        self.subtitles = subtitles;
        in_videos || in_scripts || in_subtitles
    }

    pub fn add_video_creator(&mut self, work_creator: WorkCreatorsMetadata)
        ensures
            final(self)@ == (CreatorsMetadataView {
                videos: old(self)@.videos.push(work_creator@),
                ..old(self)@
            }),
    {
        self.videos.push(work_creator);
        assert(work_views(self.videos@) =~= work_views(old(self).videos@).push(work_creator@));
    }

    pub fn add_script_creator(&mut self, work_creator: WorkCreatorsMetadata)
        ensures
            final(self)@ == (CreatorsMetadataView {
                scripts: old(self)@.scripts.push(work_creator@),
                ..old(self)@
            }),
    {
        self.scripts.push(work_creator);
        assert(work_views(self.scripts@) =~= work_views(old(self).scripts@).push(work_creator@));
    }

    pub fn add_subtitle_creator(&mut self, work_creator: WorkCreatorsMetadata)
        ensures
            final(self)@ == (CreatorsMetadataView {
                subtitles: old(self)@.subtitles.push(work_creator@),
                ..old(self)@
            }),
    {
        self.subtitles.push(work_creator);
        assert(work_views(self.subtitles@) =~= work_views(old(self).subtitles@).push(
            work_creator@,
        ));
    }
}

impl Default for CreatorsMetadata {
    fn default() -> (creators: CreatorsMetadata)
        ensures
            creators@ == (CreatorsMetadataView {
                videos: Seq::empty(),
                scripts: Seq::empty(),
                subtitles: Seq::empty(),
                extra: Map::empty(),
            }),
    {
        CreatorsMetadata::new()
    }
}

// ---------------------------------------------------------------------------
// Descriptors
// ---------------------------------------------------------------------------

/// One rendition of the video.
#[derive(Debug, Clone, PartialEq)]
pub struct VideoFormat {
    pub name: String,
    pub description: String,
    /// Milliseconds.
    pub duration: u64,
    pub checksum: String,
    pub extra: HashMap<String, Value>,
}

pub struct VideoFormatView {
    pub name: Seq<char>,
    pub description: Seq<char>,
    pub duration: u64,
    pub checksum: Seq<char>,
    pub extra: Map<String, Value>,
}

impl View for VideoFormat {
    type V = VideoFormatView;

    open spec fn view(&self) -> VideoFormatView {
        VideoFormatView {
            name: self.name@,
            description: self.description@,
            duration: self.duration,
            checksum: self.checksum@,
            extra: self.extra@,
        }
    }
}

impl VideoFormat {
    pub fn new(name: String, description: String, duration_ms: u64, checksum: String) -> (format:
        VideoFormat)
        ensures
            format@ == (VideoFormatView {
                name: name@,
                description: description@,
                duration: duration_ms,
                checksum: checksum@,
                extra: Map::empty(),
            }),
    {
        VideoFormat { name, description, duration: duration_ms, checksum, extra: HashMap::new() }
    }
}

impl WorkItem for VideoFormat {
    open spec fn item_name(&self) -> Seq<char> {
        self.name@
    }

    fn get_name(&self) -> (name: &str) {
        self.name.as_str()
    }
}

/// One variant of the script.
#[derive(Debug, Clone, PartialEq)]
pub struct ScriptVariant {
    pub name: String,
    pub description: String,
    pub additional_axes: Vec<String>,
    /// Milliseconds.
    pub duration: u64,
    /// Milliseconds, before or after the start of the video.
    pub start_offset: i64,
    pub checksum: String,
    pub extra: HashMap<String, Value>,
}

pub struct ScriptVariantView {
    pub name: Seq<char>,
    pub description: Seq<char>,
    pub additional_axes: Seq<Seq<char>>,
    pub duration: u64,
    pub start_offset: i64,
    pub checksum: Seq<char>,
    pub extra: Map<String, Value>,
}

impl View for ScriptVariant {
    type V = ScriptVariantView;

    open spec fn view(&self) -> ScriptVariantView {
        ScriptVariantView {
            name: self.name@,
            description: self.description@,
            additional_axes: views(self.additional_axes@),
            duration: self.duration,
            start_offset: self.start_offset,
            checksum: self.checksum@,
            extra: self.extra@,
        }
    }
}

impl ScriptVariant {
    pub fn new(
        name: String,
        description: String,
        additional_axes: Vec<String>,
        duration: u64,
        start_offset: i64,
        checksum: String,
    ) -> (variant: ScriptVariant)
        ensures
            variant@ == (ScriptVariantView {
                name: name@,
                description: description@,
                additional_axes: views(additional_axes@),
                duration,
                start_offset,
                checksum: checksum@,
                extra: Map::empty(),
            }),
    {
        ScriptVariant {
            name,
            description,
            additional_axes,
            duration,
            start_offset,
            checksum,
            extra: HashMap::new(),
        }
    }
}

impl WorkItem for ScriptVariant {
    open spec fn item_name(&self) -> Seq<char> {
        self.name@
    }

    fn get_name(&self) -> (name: &str) {
        self.name.as_str()
    }
}

/// One subtitle track.
#[derive(Debug, Clone, PartialEq)]
pub struct SubtitleTrack {
    pub name: String,
    pub language: String,
    pub description: String,
    pub checksum: String,
    pub extra: HashMap<String, Value>,
}

pub struct SubtitleTrackView {
    pub name: Seq<char>,
    pub language: Seq<char>,
    pub description: Seq<char>,
    pub checksum: Seq<char>,
    pub extra: Map<String, Value>,
}

impl View for SubtitleTrack {
    type V = SubtitleTrackView;

    open spec fn view(&self) -> SubtitleTrackView {
        SubtitleTrackView {
            name: self.name@,
            language: self.language@,
            description: self.description@,
            checksum: self.checksum@,
            extra: self.extra@,
        }
    }
}

impl SubtitleTrack {
    pub fn new(name: String, language: String, description: String, checksum: String) -> (track:
        SubtitleTrack)
        ensures
            track@ == (SubtitleTrackView {
                name: name@,
                language: language@,
                description: description@,
                checksum: checksum@,
                extra: Map::empty(),
            }),
    {
        SubtitleTrack { name, language, description, checksum, extra: HashMap::new() }
    }
}

impl WorkItem for SubtitleTrack {
    open spec fn item_name(&self) -> Seq<char> {
        self.name@
    }

    fn get_name(&self) -> (name: &str) {
        self.name.as_str()
    }
}

/// The views of `formats`, in order.
pub open spec fn video_views(formats: Seq<VideoFormat>) -> Seq<VideoFormatView> {
    formats.map_values(|f: VideoFormat| f@)
}

/// The views of `variants`, in order.
pub open spec fn script_views(variants: Seq<ScriptVariant>) -> Seq<ScriptVariantView> {
    variants.map_values(|v: ScriptVariant| v@)
}

/// The views of `tracks`, in order.
pub open spec fn subtitle_views(tracks: Seq<SubtitleTrack>) -> Seq<SubtitleTrackView> {
    tracks.map_values(|t: SubtitleTrack| t@)
}

// ---------------------------------------------------------------------------
// The manifest
// ---------------------------------------------------------------------------

/// The root of the manifest.
#[derive(Debug, Clone, PartialEq)]
pub struct FsvMetadata {
    pub format_version: Version,
    pub extensions: Vec<String>,
    pub tags: Vec<String>,
    /// Blank where the container has no title of its own.
    pub title: String,
    pub creators: CreatorsMetadata,
    pub video_formats: Vec<VideoFormat>,
    pub script_variants: Vec<ScriptVariant>,
    pub subtitle_tracks: Vec<SubtitleTrack>,
    pub extra: HashMap<String, Value>,
}

pub struct FsvMetadataView {
    pub format_version: Version,
    pub extensions: Seq<Seq<char>>,
    pub tags: Seq<Seq<char>>,
    pub title: Seq<char>,
    pub creators: CreatorsMetadataView,
    pub video_formats: Seq<VideoFormatView>,
    pub script_variants: Seq<ScriptVariantView>,
    pub subtitle_tracks: Seq<SubtitleTrackView>,
    pub extra: Map<String, Value>,
}

impl View for FsvMetadata {
    type V = FsvMetadataView;

    open spec fn view(&self) -> FsvMetadataView {
        FsvMetadataView {
            format_version: self.format_version,
            extensions: views(self.extensions@),
            tags: views(self.tags@),
            title: self.title@,
            creators: self.creators@,
            video_formats: video_views(self.video_formats@),
            script_variants: script_views(self.script_variants@),
            subtitle_tracks: subtitle_views(self.subtitle_tracks@),
            extra: self.extra@,
        }
    }
}

impl FsvMetadata {
    /// A manifest of the given version that describes nothing yet.
    pub fn new(format_version: Version) -> (metadata: FsvMetadata)
        ensures
            metadata@ == (FsvMetadataView {
                format_version,
                extensions: Seq::empty(),
                tags: Seq::empty(),
                title: Seq::empty(),
                creators: CreatorsMetadataView {
                    videos: Seq::empty(),
                    scripts: Seq::empty(),
                    subtitles: Seq::empty(),
                    extra: Map::empty(),
                },
                video_formats: Seq::empty(),
                script_variants: Seq::empty(),
                subtitle_tracks: Seq::empty(),
                extra: Map::empty(),
            }),
    {
        let metadata = FsvMetadata {
            format_version,
            extensions: Vec::new(),
            tags: Vec::new(),
            title: String::new(),
            creators: CreatorsMetadata::new(),
            video_formats: Vec::new(),
            script_variants: Vec::new(),
            subtitle_tracks: Vec::new(),
            extra: HashMap::new(),
        };
        assert(metadata@.extensions =~= Seq::empty());
        assert(metadata@.tags =~= Seq::empty());
        assert(metadata@.video_formats =~= Seq::empty());
        assert(metadata@.script_variants =~= Seq::empty());
        assert(metadata@.subtitle_tracks =~= Seq::empty());
        metadata
    }

    pub fn add_video_creator(&mut self, work_creator: WorkCreatorsMetadata)
        ensures
            final(self)@ == (FsvMetadataView {
                creators: CreatorsMetadataView {
                    videos: old(self)@.creators.videos.push(work_creator@),
                    ..old(self)@.creators
                },
                ..old(self)@
            }),
    {
        self.creators.add_video_creator(work_creator);
    }

    pub fn add_script_creator(&mut self, work_creator: WorkCreatorsMetadata)
        ensures
            final(self)@ == (FsvMetadataView {
                creators: CreatorsMetadataView {
                    scripts: old(self)@.creators.scripts.push(work_creator@),
                    ..old(self)@.creators
                },
                ..old(self)@
            }),
    {
        self.creators.add_script_creator(work_creator);
    }

    pub fn add_subtitle_creator(&mut self, work_creator: WorkCreatorsMetadata)
        ensures
            final(self)@ == (FsvMetadataView {
                creators: CreatorsMetadataView {
                    subtitles: old(self)@.creators.subtitles.push(work_creator@),
                    ..old(self)@.creators
                },
                ..old(self)@
            }),
    {
        self.creators.add_subtitle_creator(work_creator);
    }

    pub fn add_video_format(&mut self, video_format: VideoFormat)
        ensures
            final(self)@ == (FsvMetadataView {
                video_formats: old(self)@.video_formats.push(video_format@),
                ..old(self)@
            }),
    {
        self.video_formats.push(video_format);
        assert(video_views(self.video_formats@) =~= video_views(old(self).video_formats@).push(
            video_format@,
        ));
    }

    pub fn add_script_variant(&mut self, script_variant: ScriptVariant)
        ensures
            final(self)@ == (FsvMetadataView {
                script_variants: old(self)@.script_variants.push(script_variant@),
                ..old(self)@
            }),
    {
        self.script_variants.push(script_variant);
        assert(script_views(self.script_variants@) =~= script_views(
            old(self).script_variants@,
        ).push(script_variant@));
    }

    pub fn add_subtitle_track(&mut self, subtitle_track: SubtitleTrack)
        ensures
            final(self)@ == (FsvMetadataView {
                subtitle_tracks: old(self)@.subtitle_tracks.push(subtitle_track@),
                ..old(self)@
            }),
    {
        self.subtitle_tracks.push(subtitle_track);
        assert(subtitle_views(self.subtitle_tracks@) =~= subtitle_views(
            old(self).subtitle_tracks@,
        ).push(subtitle_track@));
    }
}

} // verus!
