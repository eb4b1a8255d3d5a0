use funscriptvideo::file_util::{get_funscript_duration, get_hash_string, GetDurationError};
use funscriptvideo::fsv::get_file_hash;
use funscriptvideo::funscript::{Funscript, FunscriptAction};

fn script(times: Vec<u64>) -> Funscript {
    Funscript {
        actions: times.into_iter().map(|at| FunscriptAction { at, pos: 50 }).collect(),
        inverted: false,
        metadata: None,
        range: 100,
        version: "1.0".to_string(),
    }
}

#[test]
fn digest_of_known_inputs() {
    assert_eq!(
        get_hash_string(b""),
        "e3b0c44298fc1c149afbf4c8996fb92427ae41e4649b934ca495991b7852b855"
    );
    assert_eq!(
        get_hash_string(b"abc"),
        "ba7816bf8f01cfea414140de5dae2223b00361a396177a9cb410ff61f20015ad"
    );
    assert_eq!(
        get_hash_string(b"hello world"),
        "b94d27b9934d3e08a52e52d7da7dabfac484efe37a5380ee9088f7ace2efcde9"
    );
}

#[test]
fn checksum_has_its_prefix() {
    assert_eq!(
        get_file_hash(b"video-bytes"),
        "sha256:79fd615a866fe7f9eb4da8d9c41ab57e3bd48056df42fd2c13e4d461a87afbe3"
    );
    assert_eq!(get_file_hash(b"x").len(), 7 + 64);
    assert_ne!(get_file_hash(b"x"), get_file_hash(b"y"));
}

#[test]
fn duration_is_the_last_action() {
    assert_eq!(get_funscript_duration(&script(vec![10, 500, 20])), Ok(500));
    assert_eq!(get_funscript_duration(&script(vec![0])), Ok(0));
    assert_eq!(get_funscript_duration(&script(vec![7, 7, 7])), Ok(7));
    assert_eq!(get_funscript_duration(&script(vec![u64::MAX, 1])), Ok(u64::MAX));
}

#[test]
fn script_without_actions_has_no_duration() {
    assert_eq!(
        get_funscript_duration(&script(vec![])),
        Err(GetDurationError::FunscriptMissingActions)
    );
}
