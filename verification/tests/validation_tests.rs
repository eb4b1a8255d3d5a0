use funscriptvideo::archive::{ArchiveEntry, FaultKind};
use funscriptvideo::fsv::{
    describe_state, read_manifest, validate_fsv, validate_item_contents, Container,
    ContentIncompleteReason, FsvState, FsvValidationError, ItemType, ManifestRead,
    MetadataInvalidReason,
};
use funscriptvideo::metadata::{FsvMetadata, ScriptVariant, SubtitleTrack, VideoFormat};
use funscriptvideo::semver::Version;

fn video(name: &str) -> VideoFormat {
    VideoFormat::new(name.to_string(), String::new(), 1000, String::new())
}

fn script(name: &str) -> ScriptVariant {
    ScriptVariant::new(name.to_string(), String::new(), vec![], 1000, 0, String::new())
}

fn subtitle(name: &str) -> SubtitleTrack {
    SubtitleTrack::new(name.to_string(), "en".to_string(), String::new(), String::new())
}

fn manifest(videos: Vec<&str>, scripts: Vec<&str>, subtitles: Vec<&str>) -> FsvMetadata {
    let mut m = FsvMetadata::new(Version::new(1, 0, 0));
    for v in videos {
        m.add_video_format(video(v));
    }
    for s in scripts {
        m.add_script_variant(script(s));
    }
    for t in subtitles {
        m.add_subtitle_track(subtitle(t));
    }
    m
}

fn entries(names: Vec<&str>) -> Vec<ArchiveEntry> {
    names.into_iter().map(|n| ArchiveEntry::new(n.to_string())).collect()
}

fn container(names: Vec<&str>, m: FsvMetadata) -> Container {
    Container::new(entries(names), ManifestRead::Parsed(m))
}

#[test]
fn container_without_manifest_entry_has_no_verdict() {
    let c = container(
        vec!["a.mp4", "a.funscript"],
        manifest(vec!["a.mp4"], vec!["a.funscript"], vec![]),
    );
    assert_eq!(validate_fsv(&c), Err(FsvValidationError::MetadataNotFound));
    let empty = Container::new(vec![], ManifestRead::Malformed("whatever".to_string()));
    assert_eq!(validate_fsv(&empty), Err(FsvValidationError::MetadataNotFound));
}

#[test]
fn manifest_entry_that_does_not_open_is_an_error() {
    let mut list = entries(vec!["a.mp4", "a.funscript"]);
    list.push(ArchiveEntry::faulty(
        "metadata.json".to_string(),
        FaultKind::Io,
        "unexpected end of file".to_string(),
    ));
    let c = Container::new(
        list,
        ManifestRead::Parsed(manifest(vec!["a.mp4"], vec!["a.funscript"], vec![])),
    );
    assert_eq!(
        validate_fsv(&c),
        Err(FsvValidationError::Zip("unexpected end of file".to_string()))
    );
}

#[test]
fn newer_format_version_is_unsupported() {
    let mut m = manifest(vec!["a.mp4"], vec!["a.funscript"], vec![]);
    m.format_version = Version::parse("2.0.0").unwrap();
    let c = container(vec!["metadata.json", "a.mp4", "a.funscript"], m);
    assert_eq!(
        validate_fsv(&c),
        Ok(FsvState::MetadataInvalid(MetadataInvalidReason::UnsupportedFormatVersion(
            Version::new(2, 0, 0)
        )))
    );
}

#[test]
fn older_and_slightly_newer_versions_are_unsupported() {
    for v in vec![Version::new(0, 9, 9), Version::new(1, 0, 1), Version::new(1, 1, 0)] {
        let mut m = manifest(vec!["a.mp4"], vec!["a.funscript"], vec![]);
        m.format_version = v;
        let c = container(vec!["metadata.json", "a.mp4", "a.funscript"], m);
        assert_eq!(
            validate_fsv(&c),
            Ok(FsvState::MetadataInvalid(MetadataInvalidReason::UnsupportedFormatVersion(v)))
        );
    }
}

#[test]
fn blank_video_names_mean_no_video_format() {
    let c = container(
        vec!["metadata.json", "a.funscript"],
        manifest(vec!["", "   ", "\t\n"], vec!["a.funscript"], vec![]),
    );
    assert_eq!(
        validate_fsv(&c),
        Ok(FsvState::MetadataInvalid(MetadataInvalidReason::MissingVideoFormat))
    );
    let none = container(vec!["metadata.json"], manifest(vec![], vec!["a.funscript"], vec![]));
    assert_eq!(
        validate_fsv(&none),
        Ok(FsvState::MetadataInvalid(MetadataInvalidReason::MissingVideoFormat))
    );
}

#[test]
fn blank_script_names_mean_no_script_variant() {
    let c = container(
        vec!["metadata.json", "a.mp4"],
        manifest(vec!["a.mp4"], vec![" "], vec![]),
    );
    assert_eq!(
        validate_fsv(&c),
        Ok(FsvState::MetadataInvalid(MetadataInvalidReason::MissingScriptVariant))
    );
}

#[test]
fn version_is_judged_before_the_descriptors() {
    let mut m = manifest(vec![], vec![], vec![]);
    m.format_version = Version::new(3, 0, 0);
    let c = container(vec!["metadata.json"], m);
    assert_eq!(
        validate_fsv(&c),
        Ok(FsvState::MetadataInvalid(MetadataInvalidReason::UnsupportedFormatVersion(
            Version::new(3, 0, 0)
        )))
    );
}

#[test]
fn duplicate_video_is_found_without_looking_at_scripts() {
    let c = container(
        vec!["metadata.json", "a.mp4"],
        manifest(vec!["a.mp4", "a.mp4"], vec!["missing.funscript"], vec!["missing.srt"]),
    );
    assert_eq!(
        validate_fsv(&c),
        Ok(FsvState::ContentIncomplete(ContentIncompleteReason::DuplicateItemEntry(
            ItemType::Video
        )))
    );
}

#[test]
fn duplicate_is_by_trimmed_name() {
    let c = container(
        vec!["metadata.json", "a.mp4", "s.funscript"],
        manifest(vec!["a.mp4", "", " a.mp4 "], vec!["s.funscript"], vec![]),
    );
    assert_eq!(
        validate_fsv(&c),
        Ok(FsvState::ContentIncomplete(ContentIncompleteReason::DuplicateItemEntry(
            ItemType::Video
        )))
    );
}

#[test]
fn first_problem_in_order_wins() {
    // The first video is missing, so the duplicate after it is never reached.
    let v = vec![video("gone.mp4"), video("a.mp4"), video("a.mp4")];
    let list = entries(vec!["metadata.json", "a.mp4"]);
    assert_eq!(
        validate_item_contents(ItemType::Video, &v, &list),
        Ok(FsvState::ContentIncomplete(ContentIncompleteReason::MissingItemFile(ItemType::Video)))
    );
}

#[test]
fn missing_script_file() {
    let c = container(
        vec!["metadata.json", "a.mp4"],
        manifest(vec!["a.mp4"], vec!["a.funscript"], vec![]),
    );
    assert_eq!(
        validate_fsv(&c),
        Ok(FsvState::ContentIncomplete(ContentIncompleteReason::MissingItemFile(
            ItemType::Script
        )))
    );
}

#[test]
fn subtitles_are_checked_last() {
    let c = container(
        vec!["metadata.json", "a.mp4", "a.funscript", "en.srt"],
        manifest(vec!["a.mp4"], vec!["a.funscript"], vec!["en.srt", "en.srt"]),
    );
    assert_eq!(
        validate_fsv(&c),
        Ok(FsvState::ContentIncomplete(ContentIncompleteReason::DuplicateItemEntry(
            ItemType::Subtitle
        )))
    );
}

#[test]
fn entry_faults_by_kind() {
    let m = manifest(vec!["a.mp4"], vec!["a.funscript"], vec![]);
    let make = |kind: FaultKind| {
        Container::new(
            vec![
                ArchiveEntry::new("metadata.json".to_string()),
                ArchiveEntry::faulty("a.mp4".to_string(), kind, "detail".to_string()),
                ArchiveEntry::new("a.funscript".to_string()),
            ],
            ManifestRead::Parsed(m.clone()),
        )
    };
    assert_eq!(
        validate_fsv(&make(FaultKind::Io)),
        Ok(FsvState::ContentIncomplete(ContentIncompleteReason::UnableToReadItem(
            ItemType::Video
        )))
    );
    assert_eq!(
        validate_fsv(&make(FaultKind::PasswordProtected)),
        Ok(FsvState::ContentIncomplete(ContentIncompleteReason::ItemPasswordProtected(
            ItemType::Video
        )))
    );
    assert_eq!(
        validate_fsv(&make(FaultKind::Other)),
        Err(FsvValidationError::Zip("detail".to_string()))
    );
}

#[test]
fn complete_container_is_valid() {
    let c = container(
        vec!["metadata.json", "a.mp4", "b.mkv", "a.funscript", "en.srt", "debug.txt"],
        manifest(vec!["a.mp4", " b.mkv ", ""], vec!["a.funscript"], vec!["en.srt"]),
    );
    assert_eq!(validate_fsv(&c), Ok(FsvState::Valid));
}

#[test]
fn manifest_with_a_version_that_is_none() {
    let body = manifest(vec!["a.mp4"], vec!["a.funscript"], vec![]);
    for text in vec!["1.2", "1.a.3", "", "1.0.0.0", "v1.0.0", "1.0.-1"] {
        let read = read_manifest(text, body.clone());
        let message = Version::parse(text).unwrap_err().to_string();
        assert_eq!(read, ManifestRead::InvalidVersion(message));
        let c = Container::new(entries(vec!["metadata.json", "a.mp4", "a.funscript"]), read);
        assert_eq!(
            validate_fsv(&c),
            Ok(FsvState::MetadataInvalid(MetadataInvalidReason::InvalidFormatVersion))
        );
    }
}

#[test]
fn manifest_with_a_version_is_read_whole() {
    let mut body = manifest(vec!["a.mp4"], vec!["a.funscript"], vec!["en.srt"]);
    body.title = "T".to_string();
    body.format_version = Version::new(0, 0, 0);
    let read = read_manifest("1.0.0", body.clone());
    let mut expected = body.clone();
    expected.format_version = Version::new(1, 0, 0);
    assert_eq!(read, ManifestRead::Parsed(expected));
    let c = Container::new(entries(vec!["metadata.json", "a.mp4", "a.funscript", "en.srt"]), read);
    assert_eq!(validate_fsv(&c), Ok(FsvState::Valid));
    match read_manifest("2.5.1", body) {
        ManifestRead::Parsed(m) => assert_eq!(m.format_version, Version::new(2, 5, 1)),
        other => panic!("unexpected {:?}", other),
    }
}

#[test]
fn any_other_failure_of_the_reader_is_malformed() {
    let list = entries(vec!["metadata.json"]);
    for message in vec![
        "missing field `video_formats` at line 1 column 28",
        "expected value at line 1 column 1",
        "invalid type: string \"Invalid version format\", expected a sequence at line 1 column 66",
        "Invalid number in version: a",
        "",
    ] {
        let c = Container::new(list.clone(), ManifestRead::Malformed(message.to_string()));
        assert_eq!(
            validate_fsv(&c),
            Ok(FsvState::MetadataInvalid(MetadataInvalidReason::MalformedJson(
                message.to_string()
            )))
        );
    }
}

#[test]
fn every_state_has_its_message() {
    let mut states = vec![
        FsvState::Valid,
        FsvState::MetadataInvalid(MetadataInvalidReason::InvalidFormatVersion),
        FsvState::MetadataInvalid(MetadataInvalidReason::MalformedJson("x".to_string())),
        FsvState::MetadataInvalid(MetadataInvalidReason::UnsupportedFormatVersion(Version::new(
            2, 0, 0,
        ))),
        FsvState::MetadataInvalid(MetadataInvalidReason::MissingVideoFormat),
        FsvState::MetadataInvalid(MetadataInvalidReason::MissingScriptVariant),
    ];
    for item in vec![ItemType::Video, ItemType::Script, ItemType::Subtitle] {
        states.push(FsvState::ContentIncomplete(ContentIncompleteReason::UnableToReadItem(item)));
        states.push(FsvState::ContentIncomplete(ContentIncompleteReason::MissingItemFile(item)));
        states.push(FsvState::ContentIncomplete(ContentIncompleteReason::ItemPasswordProtected(
            item,
        )));
        states.push(FsvState::ContentIncomplete(ContentIncompleteReason::DuplicateItemEntry(
            item,
        )));
    }
    let messages: Vec<String> = states.iter().map(describe_state).collect();
    for (i, a) in messages.iter().enumerate() {
        assert!(!a.is_empty());
        for (j, b) in messages.iter().enumerate() {
            if i != j {
                assert_ne!(a, b);
            }
        }
    }
    assert_eq!(messages[0], "FSV file is valid.");
    assert_eq!(messages[2], "Malformed JSON in metadata: x");
    assert_eq!(messages[3], "Unsupported format version in metadata: 2.0.0");
    assert_eq!(
        describe_state(&FsvState::ContentIncomplete(
            ContentIncompleteReason::ItemPasswordProtected(ItemType::Script)
        )),
        "Script file is password protected"
    );
    assert_eq!(
        describe_state(&FsvState::ContentIncomplete(ContentIncompleteReason::MissingItemFile(
            ItemType::Subtitle
        ))),
        "Missing subtitle file in archive"
    );
}
