use funscriptvideo::archive::{plan_rebuild, ArchiveEntry, FaultKind, PlannedEntry};
use funscriptvideo::file_util::GetDurationError;
use funscriptvideo::fsv::{
    add_creator_to_fsv, add_to_fsv, build_archive, contains_item, create_fsv, extra_files,
    extract_fsv, get_fsv_info, open_fsv, rebuild_archive, rebuild_fsv, remove_from_fsv,
    script_names, stray_files, Container, ContainerState, ContentIncompleteReason, EntryType, FsvAddError,
    FsvCreateError, FsvError, FsvExtractError, FsvRebuildError, FsvRemoveError, FsvState,
    ItemDetail, ItemType, ManifestRead, MetadataInvalidReason, NewScript, NewVideo,
};
use funscriptvideo::funscript::{Funscript, FunscriptAction};
use funscriptvideo::metadata::{
    CreatorInfo, FsvMetadata, ScriptVariant, SubtitleTrack, VideoFormat, WorkCreatorsMetadata,
};
use funscriptvideo::semver::Version;

fn video(name: &str) -> VideoFormat {
    VideoFormat::new(name.to_string(), String::new(), 1000, String::new())
}

fn script(name: &str) -> ScriptVariant {
    ScriptVariant::new(name.to_string(), String::new(), vec![], 1000, 0, String::new())
}

fn subtitle(name: &str) -> SubtitleTrack {
    SubtitleTrack::new(name.to_string(), "en".to_string(), String::new(), String::new())
}

fn manifest(videos: Vec<&str>, scripts: Vec<&str>, subtitles: Vec<&str>) -> FsvMetadata {
    let mut m = FsvMetadata::new(Version::new(1, 0, 0));
    m.title = "Scene".to_string();
    for v in videos {
        m.add_video_format(video(v));
    }
    for s in scripts {
        m.add_script_variant(script(s));
    }
    for t in subtitles {
        m.add_subtitle_track(subtitle(t));
    }
    m
}

fn entries(names: Vec<&str>) -> Vec<ArchiveEntry> {
    names.into_iter().map(|n| ArchiveEntry::new(n.to_string())).collect()
}

fn container(names: Vec<&str>, m: FsvMetadata) -> Container {
    Container::new(entries(names), ManifestRead::Parsed(m))
}

fn funscript(times: Vec<u64>) -> Funscript {
    Funscript {
        actions: times.into_iter().map(|at| FunscriptAction { at, pos: 1 }).collect(),
        inverted: false,
        metadata: None,
        range: 100,
        version: "1.0".to_string(),
    }
}

fn creator(name: &str) -> CreatorInfo {
    CreatorInfo::new(name.to_string(), vec!["https://example.org/me".to_string()])
}

fn names_of(
    plan: &Vec<PlannedEntry>,
    old: &Vec<ArchiveEntry>,
    added: Vec<&str>,
) -> Vec<String> {
    plan.iter()
        .map(|p| match p {
            PlannedEntry::Manifest => "metadata.json".to_string(),
            PlannedEntry::Existing(i) => old[*i].name.clone(),
            PlannedEntry::Added(k) => added[*k].to_string(),
        })
        .collect()
}

#[test]
fn opening_gives_the_manifest() {
    let m = manifest(vec!["a.mp4"], vec!["a.funscript"], vec![]);
    let c = container(vec!["metadata.json", "a.mp4"], m.clone());
    let (list, opened) = open_fsv(c).unwrap();
    assert_eq!(opened, m);
    assert_eq!(list, entries(vec!["metadata.json", "a.mp4"]));
}

#[test]
fn opening_fails_by_cause() {
    let m = manifest(vec![], vec![], vec![]);
    assert_eq!(
        open_fsv(container(vec!["a.mp4"], m.clone())),
        Err(FsvError::MetadataFileNotFound)
    );
    let broken = Container::new(
        vec![ArchiveEntry::faulty(
            "metadata.json".to_string(),
            FaultKind::Other,
            "bad header".to_string(),
        )],
        ManifestRead::Parsed(m),
    );
    assert_eq!(open_fsv(broken), Err(FsvError::Zip("bad header".to_string())));
    let unread = Container::new(
        entries(vec!["metadata.json"]),
        ManifestRead::Malformed("expected value".to_string()),
    );
    assert_eq!(open_fsv(unread), Err(FsvError::SerdeJson("expected value".to_string())));
}

#[test]
fn rebuild_keeps_order_and_drops_what_is_removed() {
    let old = entries(vec!["a.mp4", "metadata.json", "b.funscript", "c.srt", "b.funscript"]);
    let plan = rebuild_archive(&old, 2, &vec!["c.srt".to_string()]).unwrap();
    assert_eq!(
        plan,
        vec![
            PlannedEntry::Manifest,
            PlannedEntry::Existing(0),
            PlannedEntry::Existing(2),
            PlannedEntry::Existing(4),
            PlannedEntry::Added(0),
            PlannedEntry::Added(1),
        ]
    );
    assert_eq!(
        names_of(&plan, &old, vec!["new.mp4", "new.funscript"]),
        vec!["metadata.json", "a.mp4", "b.funscript", "b.funscript", "new.mp4", "new.funscript"]
    );
    assert_eq!(plan_rebuild(&old, &vec![], 0).len(), 5);
}

#[test]
fn rebuild_fails_on_an_entry_that_does_not_open() {
    let old = vec![
        ArchiveEntry::new("metadata.json".to_string()),
        ArchiveEntry::new("a.mp4".to_string()),
        ArchiveEntry::faulty("x".to_string(), FaultKind::Io, "first".to_string()),
        ArchiveEntry::faulty("y".to_string(), FaultKind::Other, "second".to_string()),
    ];
    assert_eq!(
        rebuild_archive(&old, 0, &vec!["x".to_string(), "y".to_string()]),
        Err(FsvError::Zip("first".to_string()))
    );
}

#[test]
fn first_archive_is_manifest_then_files() {
    assert_eq!(build_archive(0), vec![PlannedEntry::Manifest]);
    assert_eq!(
        build_archive(2),
        vec![PlannedEntry::Manifest, PlannedEntry::Added(0), PlannedEntry::Added(1)]
    );
}

#[test]
fn script_goes_with_the_files_of_its_axes() {
    let names = script_names("scene.funscript");
    assert_eq!(names.len(), 12);
    assert_eq!(names[0], "scene.funscript");
    assert_eq!(names[1], "scene.pitch.funscript");
    assert_eq!(names[2], "scene.roll.funscript");
    assert_eq!(names[3], "scene.suckManual.funscript");
    assert_eq!(names[11], "scene.max.funscript");
    assert_eq!(script_names("scene"), {
        let mut v = vec!["scene".to_string()];
        for axis in [
            "pitch", "roll", "suckManual", "surge", "sway", "twist", "valve", "vib", "lube",
            "suck", "max",
        ] {
            v.push(format!("scene.{}.funscript", axis));
        }
        v
    });
    assert_eq!(script_names("scene.roll.funscript"), vec!["scene.roll.funscript".to_string()]);
    assert_eq!(script_names("scene.txt"), vec!["scene.txt".to_string()]);
}

#[test]
fn removing_a_script_removes_its_axis_files_too() {
    let m = manifest(
        vec!["a.mp4"],
        vec!["other.funscript", "scene.funscript", "scene.roll.funscript", "scene.bak"],
        vec![],
    );
    let names = vec![
        "metadata.json",
        "a.mp4",
        "scene.funscript",
        "other.funscript",
        "scene.roll.funscript",
        "scene.bak",
    ];
    let old = entries(names.clone());
    let r = remove_from_fsv(container(names, m.clone()), EntryType::Script, "scene.funscript")
        .unwrap();
    let left: Vec<&str> = r.metadata.script_variants.iter().map(|s| s.name.as_str()).collect();
    assert_eq!(left, vec!["other.funscript", "scene.bak"]);
    assert_eq!(r.metadata.video_formats, m.video_formats);
    assert_eq!(r.metadata.title, m.title);
    assert_eq!(
        names_of(&r.plan, &old, vec![]),
        vec!["metadata.json", "a.mp4", "other.funscript", "scene.bak"]
    );
}

#[test]
fn removing_one_axis_leaves_the_others() {
    let m = manifest(vec!["a.mp4"], vec!["scene.funscript", "scene.roll.funscript"], vec![]);
    let names = vec!["metadata.json", "a.mp4", "scene.funscript", "scene.roll.funscript"];
    let old = entries(names.clone());
    let r = remove_from_fsv(container(names, m), EntryType::Script, "scene.roll.funscript")
        .unwrap();
    assert_eq!(r.metadata.script_variants.len(), 1);
    assert_eq!(r.metadata.script_variants[0].name, "scene.funscript");
    assert_eq!(
        names_of(&r.plan, &old, vec![]),
        vec!["metadata.json", "a.mp4", "scene.funscript"]
    );
}

#[test]
fn removing_a_video_or_a_subtitle() {
    let m = manifest(vec!["a.mp4", "b.mp4", "a.mp4"], vec!["s.funscript"], vec!["en.srt"]);
    let names = vec!["metadata.json", "a.mp4", "b.mp4", "s.funscript", "en.srt"];
    let old = entries(names.clone());
    let r = remove_from_fsv(container(names.clone(), m.clone()), EntryType::Video, "a.mp4")
        .unwrap();
    assert_eq!(r.metadata.video_formats, vec![video("b.mp4")]);
    assert_eq!(r.metadata.subtitle_tracks, m.subtitle_tracks);
    assert_eq!(
        names_of(&r.plan, &old, vec![]),
        vec!["metadata.json", "b.mp4", "s.funscript", "en.srt"]
    );
    let r = remove_from_fsv(container(names, m.clone()), EntryType::Subtitle, "en.srt").unwrap();
    assert!(r.metadata.subtitle_tracks.is_empty());
    assert_eq!(r.metadata.video_formats, m.video_formats);
    assert_eq!(
        names_of(&r.plan, &old, vec![]),
        vec!["metadata.json", "a.mp4", "b.mp4", "s.funscript"]
    );
}

#[test]
fn removing_a_creator_by_work_name() {
    let mut m = manifest(vec!["a.mp4"], vec!["s.funscript"], vec![]);
    let work = |n: &str| WorkCreatorsMetadata::new(n.to_string(), String::new(), creator("C"));
    m.add_video_creator(work("a.mp4"));
    m.add_video_creator(work("keep"));
    m.add_script_creator(work("a.mp4"));
    m.add_subtitle_creator(work("other"));
    let names = vec!["metadata.json", "a.mp4", "s.funscript"];
    let old = entries(names.clone());
    let r = remove_from_fsv(container(names, m.clone()), EntryType::Creator, "a.mp4").unwrap();
    assert_eq!(r.metadata.creators.videos, vec![work("keep")]);
    assert!(r.metadata.creators.scripts.is_empty());
    assert_eq!(r.metadata.creators.subtitles, vec![work("other")]);
    assert_eq!(r.metadata.video_formats, m.video_formats);
    assert_eq!(names_of(&r.plan, &old, vec![]), vec!["metadata.json", "a.mp4", "s.funscript"]);
}

#[test]
fn removing_what_is_not_there() {
    let m = manifest(vec!["a.mp4"], vec!["s.funscript"], vec![]);
    let names = vec!["metadata.json", "a.mp4", "s.funscript", "loose.mp4"];
    for (kind, id) in vec![
        (EntryType::Video, "loose.mp4"),
        (EntryType::Video, "s.funscript"),
        (EntryType::Script, "a.mp4"),
        (EntryType::Subtitle, "a.mp4"),
        (EntryType::Creator, "a.mp4"),
        (EntryType::Video, " a.mp4"),
    ] {
        assert_eq!(
            remove_from_fsv(container(names.clone(), m.clone()), kind, id),
            Err(FsvRemoveError::EntryNotFound(id.to_string()))
        );
    }
    assert_eq!(
        remove_from_fsv(container(vec!["a.mp4"], m), EntryType::Video, "a.mp4"),
        Err(FsvRemoveError::Fsv(FsvError::MetadataFileNotFound))
    );
}

#[test]
fn compaction_strips_entries_that_nothing_names() {
    let m = manifest(vec!["a.mp4", " b.mp4 "], vec!["s.funscript"], vec!["en.srt"]);
    let names = vec![
        "debug.txt",
        "metadata.json",
        "a.mp4",
        "b.mp4",
        "s.funscript",
        "notes/readme.md",
        "en.srt",
    ];
    let old = entries(names.clone());
    assert_eq!(
        stray_files(&m, &old),
        vec!["debug.txt".to_string(), "notes/readme.md".to_string()]
    );
    assert_eq!(
        extra_files(&m, &old),
        vec!["debug.txt".to_string(), "b.mp4".to_string(), "notes/readme.md".to_string()]
    );
    let r = rebuild_fsv(container(names, m.clone())).unwrap();
    assert_eq!(r.metadata, m);
    assert_eq!(
        names_of(&r.plan, &old, vec![]),
        vec!["metadata.json", "a.mp4", "b.mp4", "s.funscript", "en.srt"]
    );
    assert!(!names_of(&r.plan, &old, vec![]).contains(&"debug.txt".to_string()));
}

#[test]
fn compaction_of_a_clean_container_changes_nothing_but_the_order_of_the_manifest() {
    let m = manifest(vec!["a.mp4"], vec!["s.funscript"], vec![]);
    let names = vec!["a.mp4", "s.funscript", "metadata.json"];
    let old = entries(names.clone());
    let r = rebuild_fsv(container(names, m)).unwrap();
    assert_eq!(names_of(&r.plan, &old, vec![]), vec!["metadata.json", "a.mp4", "s.funscript"]);
}

#[test]
fn compaction_fails_where_opening_fails() {
    let m = manifest(vec!["a.mp4"], vec!["s.funscript"], vec![]);
    assert_eq!(
        rebuild_fsv(container(vec!["a.mp4"], m.clone())),
        Err(FsvRebuildError::Fsv(FsvError::MetadataFileNotFound))
    );
    let c = Container::new(
        vec![
            ArchiveEntry::new("metadata.json".to_string()),
            ArchiveEntry::faulty("a.mp4".to_string(), FaultKind::PasswordProtected, "pw".to_string()),
        ],
        ManifestRead::Parsed(m),
    );
    assert_eq!(rebuild_fsv(c), Err(FsvRebuildError::Fsv(FsvError::Zip("pw".to_string()))));
}

#[test]
fn adding_what_is_there_already_does_nothing() {
    let m = manifest(vec!["a.mp4"], vec!["s.funscript"], vec!["en.srt"]);
    let names = vec!["metadata.json", "a.mp4", "s.funscript", "en.srt"];
    assert!(contains_item(&m, ItemType::Video, "a.mp4"));
    assert!(!contains_item(&m, ItemType::Script, "a.mp4"));
    assert_eq!(
        add_to_fsv(
            container(names.clone(), m.clone()),
            "a.mp4",
            b"other bytes",
            ItemDetail::Video(5),
            Some(creator("C"))
        ),
        Ok(None)
    );
    assert_eq!(
        add_to_fsv(
            container(names.clone(), m.clone()),
            "s.funscript",
            b"x",
            ItemDetail::Script(funscript(vec![])),
            None
        ),
        Ok(None)
    );
    assert_eq!(
        add_to_fsv(container(names, m), "en.srt", b"x", ItemDetail::Subtitle, None),
        Ok(None)
    );
}

#[test]
fn adding_a_video() {
    let m = manifest(vec!["a.mp4"], vec!["s.funscript"], vec![]);
    let names = vec!["metadata.json", "a.mp4", "s.funscript", "extra.bin"];
    let old = entries(names.clone());
    let r = add_to_fsv(
        container(names, m.clone()),
        "b.mp4",
        b"video-bytes",
        ItemDetail::Video(61500),
        Some(creator("Vid")),
    )
    .unwrap()
    .unwrap();
    assert_eq!(r.metadata.video_formats.len(), 2);
    assert_eq!(r.metadata.video_formats[0], m.video_formats[0]);
    let added = &r.metadata.video_formats[1];
    assert_eq!(added.name, "b.mp4");
    assert_eq!(added.description, "");
    assert_eq!(added.duration, 61500);
    assert_eq!(
        added.checksum,
        "sha256:79fd615a866fe7f9eb4da8d9c41ab57e3bd48056df42fd2c13e4d461a87afbe3"
    );
    assert!(added.extra.is_empty());
    assert_eq!(
        r.metadata.creators.videos,
        vec![WorkCreatorsMetadata::new("b.mp4".to_string(), String::new(), creator("Vid"))]
    );
    assert_eq!(r.metadata.script_variants, m.script_variants);
    assert_eq!(
        names_of(&r.plan, &old, vec!["b.mp4"]),
        vec!["metadata.json", "a.mp4", "s.funscript", "extra.bin", "b.mp4"]
    );
}

#[test]
fn adding_a_script_or_a_subtitle() {
    let m = manifest(vec!["a.mp4"], vec![], vec![]);
    let names = vec!["metadata.json", "a.mp4"];
    let r = add_to_fsv(
        container(names.clone(), m.clone()),
        "s.funscript",
        b"abc",
        ItemDetail::Script(funscript(vec![100, 90000, 4000])),
        None,
    )
    .unwrap()
    .unwrap();
    assert_eq!(r.metadata.script_variants.len(), 1);
    let s = &r.metadata.script_variants[0];
    assert_eq!(s.name, "s.funscript");
    assert_eq!(s.duration, 90000);
    assert_eq!(s.start_offset, 0);
    assert!(s.additional_axes.is_empty());
    assert_eq!(
        s.checksum,
        "sha256:ba7816bf8f01cfea414140de5dae2223b00361a396177a9cb410ff61f20015ad"
    );
    assert!(r.metadata.creators.is_empty());
    assert_eq!(r.plan.last(), Some(&PlannedEntry::Added(0)));

    let r = add_to_fsv(
        container(names, m),
        "en.srt",
        b"",
        ItemDetail::Subtitle,
        Some(creator("Sub")),
    )
    .unwrap()
    .unwrap();
    let t = &r.metadata.subtitle_tracks[0];
    assert_eq!(t.name, "en.srt");
    assert_eq!(t.language, "");
    assert_eq!(
        t.checksum,
        "sha256:e3b0c44298fc1c149afbf4c8996fb92427ae41e4649b934ca495991b7852b855"
    );
    assert_eq!(r.metadata.creators.subtitles[0].work_name, "en.srt");
    assert_eq!(r.metadata.creators.subtitles[0].creator_info, creator("Sub"));
}

#[test]
fn adding_fails_by_cause() {
    let m = manifest(vec!["a.mp4"], vec![], vec![]);
    assert_eq!(
        add_to_fsv(
            container(vec!["metadata.json"], m.clone()),
            "s.funscript",
            b"x",
            ItemDetail::Script(funscript(vec![])),
            None
        ),
        Err(FsvAddError::GetVideoDuration(GetDurationError::FunscriptMissingActions))
    );
    assert_eq!(
        add_to_fsv(container(vec![], m.clone()), "b.mp4", b"x", ItemDetail::Video(1), None),
        Err(FsvAddError::Fsv(FsvError::MetadataFileNotFound))
    );
    let c = Container::new(
        vec![
            ArchiveEntry::new("metadata.json".to_string()),
            ArchiveEntry::faulty("a.mp4".to_string(), FaultKind::Io, "torn".to_string()),
        ],
        ManifestRead::Parsed(m),
    );
    assert_eq!(
        add_to_fsv(c, "b.mp4", b"x", ItemDetail::Video(1), None),
        Err(FsvAddError::Fsv(FsvError::Zip("torn".to_string())))
    );
}

#[test]
fn attributing_a_work() {
    let m = manifest(vec!["a.mp4"], vec!["s.funscript"], vec![]);
    let names = vec!["metadata.json", "a.mp4", "s.funscript"];
    let old = entries(names.clone());
    let r = add_creator_to_fsv(
        container(names.clone(), m.clone()),
        ItemType::Script,
        "key1",
        Some(creator("Scripter")),
        "s.funscript",
        "https://example.org/s",
    )
    .unwrap();
    assert!(r.metadata.creators.videos.is_empty());
    assert_eq!(r.metadata.creators.scripts.len(), 1);
    assert_eq!(r.metadata.creators.scripts[0].work_name, "s.funscript");
    assert_eq!(r.metadata.creators.scripts[0].source_url, "https://example.org/s");
    assert_eq!(r.metadata.creators.scripts[0].creator_info, creator("Scripter"));
    assert_eq!(r.metadata.video_formats, m.video_formats);
    assert_eq!(names_of(&r.plan, &old, vec![]), vec!["metadata.json", "a.mp4", "s.funscript"]);
    assert_eq!(
        add_creator_to_fsv(container(names, m.clone()), ItemType::Video, "key1", None, "a", ""),
        Err(FsvAddError::CreatorInfoNotFound("key1".to_string()))
    );
    assert_eq!(
        add_creator_to_fsv(container(vec![], m), ItemType::Video, "key1", None, "a", ""),
        Err(FsvAddError::Fsv(FsvError::MetadataFileNotFound))
    );
}

#[test]
fn making_a_container() {
    let r = create_fsv(
        "My scene".to_string(),
        vec!["tag1".to_string(), "tag2".to_string()],
        Some(NewVideo {
            name: "v.mp4".to_string(),
            content: b"video-bytes".to_vec(),
            duration: 1234,
            creator: Some(creator("Vid")),
        }),
        Some(NewScript {
            name: "v.funscript".to_string(),
            content: b"abc".to_vec(),
            funscript: funscript(vec![5, 10]),
            creator: None,
        }),
    )
    .unwrap();
    let m = &r.metadata;
    assert_eq!(m.format_version, Version::new(1, 0, 0));
    assert_eq!(m.title, "My scene");
    assert_eq!(m.tags, vec!["tag1".to_string(), "tag2".to_string()]);
    assert!(m.extensions.is_empty());
    assert!(m.extra.is_empty());
    assert_eq!(m.video_formats.len(), 1);
    assert_eq!(m.video_formats[0].duration, 1234);
    assert_eq!(
        m.video_formats[0].checksum,
        "sha256:79fd615a866fe7f9eb4da8d9c41ab57e3bd48056df42fd2c13e4d461a87afbe3"
    );
    assert_eq!(m.script_variants.len(), 1);
    assert_eq!(m.script_variants[0].duration, 10);
    assert_eq!(m.creators.videos.len(), 1);
    assert!(m.creators.scripts.is_empty());
    assert!(m.subtitle_tracks.is_empty());
    assert_eq!(
        r.plan,
        vec![PlannedEntry::Manifest, PlannedEntry::Added(0), PlannedEntry::Added(1)]
    );
}

#[test]
fn making_an_incomplete_container() {
    let r = create_fsv("t".to_string(), vec![], None, None).unwrap();
    assert_eq!(r.plan, vec![PlannedEntry::Manifest]);
    assert!(r.metadata.video_formats.is_empty());
    assert!(r.metadata.script_variants.is_empty());
    let r = create_fsv(
        "t".to_string(),
        vec![],
        None,
        Some(NewScript {
            name: "s.funscript".to_string(),
            content: vec![],
            funscript: funscript(vec![1]),
            creator: Some(creator("S")),
        }),
    )
    .unwrap();
    assert_eq!(r.plan, vec![PlannedEntry::Manifest, PlannedEntry::Added(0)]);
    assert_eq!(r.metadata.creators.scripts.len(), 1);
}

#[test]
fn making_with_a_script_without_actions_fails() {
    let r = create_fsv(
        "t".to_string(),
        vec![],
        None,
        Some(NewScript {
            name: "s.funscript".to_string(),
            content: vec![],
            funscript: funscript(vec![]),
            creator: None,
        }),
    );
    assert_eq!(
        r,
        Err(FsvCreateError::GetDurationError(GetDurationError::FunscriptMissingActions))
    );
}

#[test]
fn unpacking_pairs_every_video_with_every_script() {
    let m = manifest(
        vec!["clip.mp4", "clip.hd.mkv"],
        vec!["clip.funscript", "clip.roll.funscript"],
        vec![],
    );
    let c = container(
        vec!["metadata.json", "clip.mp4", "clip.hd.mkv", "clip.funscript", "clip.roll.funscript"],
        m,
    );
    let plan = extract_fsv(&c, "file-stem", false).unwrap();
    assert_eq!(plan.directory, "Scene");
    assert_eq!(plan.failure, None);
    assert_eq!(plan.pairs.len(), 4);
    let got: Vec<(&str, &str, &str, &str)> = plan
        .pairs
        .iter()
        .map(|p| {
            (
                p.video_entry.as_str(),
                p.script_entry.as_str(),
                p.video_file.as_str(),
                p.script_file.as_str(),
            )
        })
        .collect();
    assert_eq!(
        got,
        vec![
            ("clip.mp4", "clip.funscript", "clip_clip.mp4", "clip_clip.funscript"),
            ("clip.mp4", "clip.roll.funscript", "clip_clip.mp4", "clip_clip.roll.funscript"),
            ("clip.hd.mkv", "clip.funscript", "clip_clip.hd.mkv", "clip_clip.funscript"),
            ("clip.hd.mkv", "clip.roll.funscript", "clip_clip.hd.mkv", "clip_clip.roll.funscript"),
        ]
    );
}

#[test]
fn unpacking_names_without_extension_get_the_usual_one() {
    let m = manifest(vec!["movie"], vec!["moves"], vec![]);
    let c = container(vec!["metadata.json", "movie", "moves"], m);
    let plan = extract_fsv(&c, "stem", false).unwrap();
    assert_eq!(plan.pairs.len(), 1);
    assert_eq!(plan.pairs[0].video_file, "movie_moves.mp4");
    assert_eq!(plan.pairs[0].script_file, "movie_moves.funscript");
}

#[test]
fn unpacking_directory_is_title_or_stem() {
    let mut m = manifest(vec!["a.mp4"], vec!["a.funscript"], vec![]);
    m.title = "  Spaced title \n".to_string();
    let names = vec!["metadata.json", "a.mp4", "a.funscript"];
    assert_eq!(
        extract_fsv(&container(names.clone(), m.clone()), "stem", false).unwrap().directory,
        "Spaced title"
    );
    m.title = " \t ".to_string();
    assert_eq!(
        extract_fsv(&container(names, m), "stem", false).unwrap().directory,
        "stem"
    );
}

#[test]
fn unpacking_is_refused_by_state() {
    let m = manifest(vec!["a.mp4", "gone.mp4"], vec!["a.funscript"], vec![]);
    let names = vec!["metadata.json", "a.mp4", "a.funscript"];
    let incomplete = FsvState::ContentIncomplete(ContentIncompleteReason::MissingItemFile(
        ItemType::Video,
    ));
    assert_eq!(
        extract_fsv(&container(names.clone(), m.clone()), "stem", false),
        Err(FsvExtractError::InvalidState(incomplete))
    );
    let plan = extract_fsv(&container(names.clone(), m), "stem", true).unwrap();
    assert_eq!(plan.pairs.len(), 1);
    assert_eq!(plan.pairs[0].video_entry, "a.mp4");

    let invalid = manifest(vec![], vec!["a.funscript"], vec![]);
    for allow in vec![false, true] {
        assert_eq!(
            extract_fsv(&container(names.clone(), invalid.clone()), "stem", allow),
            Err(FsvExtractError::InvalidState(FsvState::MetadataInvalid(
                MetadataInvalidReason::MissingVideoFormat
            )))
        );
    }
    assert_eq!(
        extract_fsv(&container(vec!["a.mp4"], invalid), "stem", true),
        Err(FsvExtractError::Validation(
            funscriptvideo::fsv::FsvValidationError::MetadataNotFound
        ))
    );
}

#[test]
fn unpacking_passes_over_what_cannot_be_had() {
    let m = manifest(vec![" ", "a.mp4", "locked.mp4"], vec!["gone.funscript", "a.funscript"], vec![]);
    let c = Container::new(
        vec![
            ArchiveEntry::new("metadata.json".to_string()),
            ArchiveEntry::new("a.mp4".to_string()),
            ArchiveEntry::faulty(
                "locked.mp4".to_string(),
                FaultKind::PasswordProtected,
                "pw".to_string(),
            ),
            ArchiveEntry::new("a.funscript".to_string()),
        ],
        ManifestRead::Parsed(m),
    );
    let plan = extract_fsv(&c, "stem", true).unwrap();
    assert_eq!(plan.failure, None);
    assert_eq!(plan.pairs.len(), 1);
    assert_eq!(plan.pairs[0].video_entry, "a.mp4");
    assert_eq!(plan.pairs[0].script_entry, "a.funscript");
}

#[test]
fn description_of_a_container() {
    let mut m = manifest(vec!["a.mp4", "gone.mp4"], vec!["s.funscript"], vec!["en.srt"]);
    let names = vec!["metadata.json", "a.mp4", "s.funscript", "en.srt", "debug.txt"];
    let info = get_fsv_info(&container(names.clone(), m.clone()), "stem").unwrap();
    assert_eq!(info.title, "Scene");
    assert_eq!(
        info.videos,
        vec![("a.mp4".to_string(), true), ("gone.mp4".to_string(), false)]
    );
    assert_eq!(info.scripts, vec![("s.funscript".to_string(), true)]);
    assert_eq!(info.subtitles, vec![("en.srt".to_string(), true)]);
    assert_eq!(info.extra_files, vec!["debug.txt".to_string()]);
    assert_eq!(info.display_state(), ContainerState::ContentIncomplete);

    m.title = "  ".to_string();
    m.video_formats.pop();
    let info = get_fsv_info(&container(names.clone(), m.clone()), "stem").unwrap();
    assert_eq!(info.title, "stem");
    assert_eq!(info.display_state(), ContainerState::ContentComplete);

    m.script_variants.clear();
    let info = get_fsv_info(&container(names, m), "stem").unwrap();
    assert_eq!(info.display_state(), ContainerState::Invalid);
    assert_eq!(info.extra_files, vec!["s.funscript".to_string(), "debug.txt".to_string()]);
}

#[test]
fn description_goes_by_names_as_they_stand() {
    let m = manifest(vec![" a.mp4 "], vec!["s.funscript"], vec![]);
    let names = vec!["metadata.json", "a.mp4", "s.funscript"];
    let info = get_fsv_info(&container(names, m), "x").unwrap();
    assert_eq!(info.videos, vec![(" a.mp4 ".to_string(), false)]);
    assert_eq!(info.extra_files, vec!["a.mp4".to_string()]);
    assert_eq!(info.display_state(), ContainerState::ContentIncomplete);
}

#[test]
fn opening_a_manifest_whose_version_is_none() {
    let c = Container::new(
        entries(vec!["metadata.json"]),
        ManifestRead::InvalidVersion("Invalid version format".to_string()),
    );
    assert_eq!(open_fsv(c), Err(FsvError::SerdeJson("Invalid version format".to_string())));
}

#[test]
fn description_counts_a_missing_subtitle() {
    let m = manifest(vec!["a.mp4"], vec!["s.funscript"], vec!["gone.srt"]);
    let info =
        get_fsv_info(&container(vec!["metadata.json", "a.mp4", "s.funscript"], m), "x").unwrap();
    assert_eq!(info.subtitles, vec![("gone.srt".to_string(), false)]);
    assert_eq!(info.display_state(), ContainerState::ContentIncomplete);
}

#[test]
fn description_fails_where_an_entry_does_not_open() {
    let m = manifest(vec!["a.mp4"], vec!["s.funscript"], vec![]);
    let c = Container::new(
        vec![
            ArchiveEntry::new("metadata.json".to_string()),
            ArchiveEntry::faulty("a.mp4".to_string(), FaultKind::Io, "torn".to_string()),
        ],
        ManifestRead::Parsed(m.clone()),
    );
    assert_eq!(get_fsv_info(&c, "x"), Err(FsvError::Zip("torn".to_string())));
    assert_eq!(
        get_fsv_info(&container(vec!["a.mp4"], m), "x"),
        Err(FsvError::MetadataFileNotFound)
    );
}
