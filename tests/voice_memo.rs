use std::path::Path;
use voice_to_taskwarrior::voice_memo::VoiceMemo;

#[test]
fn new_voice_memo_invalid_file() {
    let path = "some/random/path";
    match VoiceMemo::new(path, Path::new(path).is_file()) {
        Ok(_res) => assert!(false, "No error emmitted as it should"),
        Err(e) => assert!(e.message().starts_with("Invalid path"), "Wrong error message"),
    }
}

#[test]
fn voice_memo_admits_regular_file() {
    let memo = VoiceMemo::new("memos/a.wav", true).unwrap();
    assert_eq!(memo.path, "memos/a.wav");
}

#[test]
fn voice_memo_message_names_path() {
    let e = VoiceMemo::new("x/y.wav", false).err().unwrap();
    assert_eq!(e.message(), "Invalid path to voice memo provided -> x/y.wav");
}
