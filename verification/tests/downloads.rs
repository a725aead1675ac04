use minecraft_launcher_core::assets::AssetObject;
use minecraft_launcher_core::checksum::Sha1Sum;
use minecraft_launcher_core::download::asset::{AssetDownloadable, AssetDownloadableStatus, AssetPhase};
use minecraft_launcher_core::download::checksummed::ChecksummedDownloadable;
use minecraft_launcher_core::download::downloadable::Downloadable;
use minecraft_launcher_core::download::etag::EtagDownloadable;
use minecraft_launcher_core::download::prehashed::{Phase, PreHashedDownloadable};
use minecraft_launcher_core::download::{status_of, Action, Error, Event, Response};
use minecraft_launcher_core::progress::ProgressUpdate;

const GZ: [u8; 32] = [
    31, 139, 8, 0, 0, 0, 0, 0, 2, 255, 203, 72, 205, 201, 201, 87, 72, 44, 46, 78, 45, 41, 6, 0, 11,
    39, 225, 11, 12, 0, 0, 0,
];
const PLAIN: &[u8] = b"hello assets";

fn answer(body: &[u8]) -> Event {
    Event::Response(Response { content_length: Some(body.len() as u64), etag: None, body: body.to_vec() })
}

fn tagged(body: &[u8], etag: Option<&str>) -> Event {
    Event::Response(Response { content_length: None, etag: etag.map(str::to_string), body: body.to_vec() })
}

fn is_get(action: &Action, wanted: &str) -> bool {
    matches!(action, Action::Get { url } if url == wanted)
}

fn is_write(action: &Action, file: &str, bytes: &[u8]) -> bool {
    matches!(action, Action::WriteFile { path, data } if path == file && data == bytes)
}

fn prehashed() -> PreHashedDownloadable {
    PreHashedDownloadable::new("https://example.org/a.jar", "/game/a.jar", false, Sha1Sum::from_reader(b"good"))
}

#[test]
fn a_new_task_has_made_no_attempt() {
    let task = prehashed();
    assert_eq!(task.attempts, 0);
    assert_eq!(task.start_time, None);
    assert_eq!(task.end_time, None);
    assert_eq!(task.phase, Phase::Idle);
    assert_eq!(task.monitor.get_current(), 0);
    assert_eq!(task.monitor.get_total(), 5242880);
    assert_eq!(task.url, "https://example.org/a.jar");
    assert_eq!(task.target_file, "/game/a.jar");
}

#[test]
fn a_matching_local_file_needs_no_request() {
    let mut task = prehashed();
    assert!(matches!(task.step(Event::Begin), Action::PrepareFolder { file } if file == "/game/a.jar"));
    assert_eq!(task.attempts, 1);
    assert!(matches!(task.step(Event::Done), Action::ReadFile { path } if path == "/game/a.jar"));
    assert!(matches!(task.step(Event::File(Some(b"good".to_vec()))), Action::Finish(Ok(()))));
    assert_eq!(task.phase, Phase::Idle);
}

#[test]
fn a_wrong_local_file_is_removed_and_fetched() {
    let mut task = prehashed();
    task.step(Event::Begin);
    task.step(Event::Done);
    assert!(matches!(task.step(Event::File(Some(b"bad".to_vec()))), Action::RemoveFile { path } if path == "/game/a.jar"));
    assert!(is_get(&task.step(Event::Done), "https://example.org/a.jar"));
    assert!(is_write(&task.step(answer(b"good")), "/game/a.jar", b"good"));
    assert_eq!(task.monitor.get_total(), 4);
    assert!(matches!(task.step(Event::Done), Action::Finish(Ok(()))));
}

#[test]
fn a_download_with_another_checksum_is_not_written() {
    let mut task = prehashed();
    task.step(Event::Begin);
    task.step(Event::Done);
    assert!(is_get(&task.step(Event::File(None)), "https://example.org/a.jar"));
    match task.step(answer(b"evil")) {
        Action::Finish(Err(Error::ChecksumMismatch { expected, actual })) => {
            assert!(expected == Sha1Sum::from_reader(b"good"));
            assert!(actual == Sha1Sum::from_reader(b"evil"));
        }
        other => panic!("unexpected: {:?}", other),
    }
    assert_eq!(task.phase, Phase::Idle);
}

#[test]
fn failures_are_named_after_what_failed() {
    let mut task = prehashed();
    task.step(Event::Begin);
    assert!(matches!(
        task.step(Event::Failed("denied".to_string())),
        Action::Finish(Err(Error::PrepareFolderError(message))) if message == "denied"
    ));
    task.step(Event::Begin);
    task.step(Event::Done);
    assert!(matches!(
        task.step(Event::Failed("unreadable".to_string())),
        Action::Finish(Err(Error::IoError(message))) if message == "unreadable"
    ));
    task.step(Event::Begin);
    task.step(Event::Done);
    task.step(Event::File(None));
    assert!(matches!(
        task.step(Event::Failed("timeout".to_string())),
        Action::Finish(Err(Error::DownloadError(message))) if message == "timeout"
    ));
    assert_eq!(task.attempts, 3);
}

#[test]
fn an_event_that_was_not_asked_for_ends_the_attempt() {
    let mut task = prehashed();
    assert!(matches!(
        task.step(Event::Done),
        Action::Finish(Err(Error::Other(message))) if message == "unexpected event"
    ));
    task.step(Event::Begin);
    assert!(matches!(task.step(Event::Begin), Action::Finish(Err(Error::Other(_)))));
    assert_eq!(task.phase, Phase::Idle);
    assert_eq!(task.attempts, 1);
}

fn checksummed() -> ChecksummedDownloadable {
    ChecksummedDownloadable::new("https://example.org/lib.jar", "/game/lib.jar", true)
}

#[test]
fn the_published_checksum_is_asked_for_first() {
    let mut task = checksummed();
    assert!(task.force_download);
    assert_eq!(task.get_checksum_url(), "https://example.org/lib.jar.sha1");
    assert!(matches!(task.step(Event::Begin), Action::PrepareFolder { .. }));
    assert!(matches!(task.step(Event::Done), Action::ReadFile { path } if path == "/game/lib.jar"));
    assert!(is_get(&task.step(Event::File(None)), "https://example.org/lib.jar.sha1"));
}

#[test]
fn without_checksum_and_local_file_the_file_is_still_fetched() {
    let mut task = checksummed();
    task.step(Event::Begin);
    task.step(Event::Done);
    task.step(Event::File(None));
    assert!(is_get(&task.step(Event::Failed("404".to_string())), "https://example.org/lib.jar"));
    assert!(is_write(&task.step(answer(b"anything")), "/game/lib.jar", b"anything"));
    assert!(matches!(task.step(Event::Done), Action::Finish(Ok(()))));
}

#[test]
fn without_checksum_a_local_file_is_trusted() {
    let mut task = checksummed();
    task.step(Event::Begin);
    task.step(Event::Done);
    task.step(Event::File(Some(b"local".to_vec())));
    assert!(matches!(task.step(Event::Failed("404".to_string())), Action::Finish(Ok(()))));
}

#[test]
fn a_checksum_that_is_no_checksum_counts_as_unknown() {
    let mut task = checksummed();
    task.step(Event::Begin);
    task.step(Event::Done);
    task.step(Event::File(Some(b"local".to_vec())));
    assert!(matches!(task.step(answer(b"<html>not found</html>")), Action::Finish(Ok(()))));
}

#[test]
fn a_local_file_with_the_published_checksum_is_kept() {
    let mut task = checksummed();
    task.step(Event::Begin);
    task.step(Event::Done);
    task.step(Event::File(Some(b"abc".to_vec())));
    assert!(matches!(
        task.step(answer(b"a9993e364706816aba3e25717850c26c9cd0d89d")),
        Action::Finish(Ok(()))
    ));
}

#[test]
fn a_local_file_with_another_checksum_is_fetched_again() {
    let mut task = checksummed();
    task.step(Event::Begin);
    task.step(Event::Done);
    task.step(Event::File(Some(b"old".to_vec())));
    assert!(is_get(
        &task.step(answer(b"a9993e364706816aba3e25717850c26c9cd0d89d")),
        "https://example.org/lib.jar"
    ));
    assert!(is_write(&task.step(answer(b"abc")), "/game/lib.jar", b"abc"));
    assert!(matches!(task.step(Event::Done), Action::Finish(Ok(()))));
}

#[test]
fn a_download_against_the_published_checksum_fails() {
    let mut task = checksummed();
    task.step(Event::Begin);
    task.step(Event::Done);
    task.step(Event::File(None));
    task.step(answer(b"a9993e364706816aba3e25717850c26c9cd0d89d"));
    match task.step(answer(b"abd")) {
        Action::Finish(Err(Error::ChecksumMismatch { expected, actual })) => {
            assert_eq!(expected.to_string(), "a9993e364706816aba3e25717850c26c9cd0d89d");
            assert!(actual == Sha1Sum::from_reader(b"abd"));
        }
        other => panic!("unexpected: {:?}", other),
    }
}

#[test]
fn tags_lose_their_quotation_marks() {
    assert_eq!(EtagDownloadable::get_etag(Some("\"abc\"")), "abc");
    assert_eq!(EtagDownloadable::get_etag(Some("abc")), "abc");
    assert_eq!(EtagDownloadable::get_etag(Some("\"abc")), "\"abc");
    assert_eq!(EtagDownloadable::get_etag(Some("\"\"")), "");
    assert_eq!(EtagDownloadable::get_etag(Some("\"")), "\"");
    assert_eq!(EtagDownloadable::get_etag(Some("")), "");
    assert_eq!(EtagDownloadable::get_etag(None), "-");
}

#[test]
fn a_tag_with_a_hyphen_accepts_anything() {
    assert!(EtagDownloadable::accepts("-", b"whatever"));
    assert!(EtagDownloadable::accepts("d41d8cd9-2", b"whatever"));
}

#[test]
fn a_tag_must_be_the_digest_in_hexadecimal() {
    assert!(EtagDownloadable::accepts("900150983cd24fb0d6963f7d28e17f72", b"abc"));
    assert!(EtagDownloadable::accepts("d41d8cd98f00b204e9800998ecf8427e", b""));
    assert!(EtagDownloadable::accepts(
        "9e107d9d372bb6826bd81d3542a419d6",
        b"The quick brown fox jumps over the lazy dog"
    ));
    assert!(!EtagDownloadable::accepts("900150983cd24fb0d6963f7d28e17f72", b"abd"));
    assert!(!EtagDownloadable::accepts("900150983CD24FB0D6963F7D28E17F72", b"abc"));
    assert!(!EtagDownloadable::accepts("900150983cd24fb0d6963f7d28e17f7", b"abc"));
    assert!(!EtagDownloadable::accepts("\"900150983cd24fb0d6963f7d28e17f72\"", b"abc"));
    assert!(!EtagDownloadable::accepts("", b"abc"));
}

#[test]
fn a_tag_that_matches_lets_the_body_be_written() {
    let mut task = EtagDownloadable::new("https://example.org/old.jar", "/game/old.jar", false);
    task.step(Event::Begin);
    task.step(Event::Done);
    let action = task.step(tagged(b"abc", Some("\"900150983cd24fb0d6963f7d28e17f72\"")));
    assert!(is_write(&action, "/game/old.jar", b"abc"));
    assert!(matches!(task.step(Event::Done), Action::Finish(Ok(()))));
}

#[test]
fn a_tagged_download_is_always_requested() {
    let mut task = EtagDownloadable::new("https://example.org/old.jar", "/game/old.jar", false);
    assert!(matches!(task.step(Event::Begin), Action::PrepareFolder { file } if file == "/game/old.jar"));
    assert!(is_get(&task.step(Event::Done), "https://example.org/old.jar"));
    assert!(is_write(&task.step(tagged(b"jar", None)), "/game/old.jar", b"jar"));
    assert!(matches!(task.step(Event::Done), Action::Finish(Ok(()))));
    assert_eq!(task.attempts, 1);
}

#[test]
fn a_tag_that_does_not_match_fails_the_attempt() {
    let mut task = EtagDownloadable::new("https://example.org/old.jar", "/game/old.jar", false);
    task.step(Event::Begin);
    task.step(Event::Done);
    match task.step(tagged(b"abd", Some("\"900150983cd24fb0d6963f7d28e17f72\""))) {
        Action::Finish(Err(Error::Other(message))) => assert_eq!(
            message,
            "ETag did not match downloaded file (ETag was 900150983cd24fb0d6963f7d28e17f72)"
        ),
        other => panic!("unexpected: {:?}", other),
    }
}

fn raw_object() -> AssetObject {
    AssetObject {
        hash: Sha1Sum::from_reader(PLAIN),
        size: PLAIN.len() as u64,
        reconstruct: None,
        compressed_hash: None,
        compressed_size: None,
    }
}

fn packed_object() -> AssetObject {
    AssetObject {
        compressed_hash: Some(Sha1Sum::from_reader(&GZ)),
        compressed_size: Some(GZ.len() as u64),
        ..raw_object()
    }
}

const BASE: &str = "https://resources.download.minecraft.net/";
const TARGET: &str = "/game/assets/objects/bf/bfcc3a146abdcd52987b25ef87b31f18c5199d20";
const PACKED: &str = "/game/assets/objects/06/0688e273bc2957fcee50c049cbf2211433432c7d";
const URL: &str = "https://resources.download.minecraft.net/bf/bfcc3a146abdcd52987b25ef87b31f18c5199d20";
const PACKED_URL: &str =
    "https://resources.download.minecraft.net/06/0688e273bc2957fcee50c049cbf2211433432c7d";

fn asset(object: &AssetObject) -> AssetDownloadable {
    AssetDownloadable::try_new("icons/icon.png", object, BASE, "/game/assets/objects").expect("a task")
}

#[test]
fn an_asset_task_knows_where_its_object_is() {
    let task = asset(&raw_object());
    assert_eq!(task.url, URL);
    assert_eq!(task.target_file, TARGET);
    assert_eq!(task.name, "icons/icon.png");
    assert_eq!(task.destination, "/game/assets/objects");
    assert_eq!(task.url_base, BASE);
    assert!(task.compressed.is_none());
    assert!(!task.url_error);
    assert!(!task.force_download);
    assert_eq!(task.get_status(), "Downloading icons/icon.png");
    let packed = asset(&packed_object());
    let source = packed.compressed.as_ref().expect("a compressed form");
    assert_eq!(source.url, PACKED_URL);
    assert_eq!(source.target, PACKED);
    let built = AssetDownloadable::new("icons/icon.png", &raw_object(), BASE, "/game/assets/objects");
    assert_eq!(built.url, URL);
}

#[test]
fn an_asset_task_needs_a_url() {
    assert!(AssetDownloadable::try_new("a", &raw_object(), "not a url", "/objects").is_none());
    assert!(AssetDownloadable::try_new("a", &raw_object(), "", "/objects").is_none());
}

#[test]
fn statuses_have_words() {
    assert_eq!(AssetDownloadableStatus::Downloading.as_str(), "Downloading");
    assert_eq!(AssetDownloadableStatus::Extracting.as_str(), "Extracting");
}

#[test]
fn a_local_asset_of_the_right_size_is_kept() {
    let mut task = asset(&raw_object());
    assert!(matches!(task.step(Event::Begin), Action::PrepareFolder { file } if file == TARGET));
    assert!(matches!(task.step(Event::Done), Action::StatFile { path } if path == TARGET));
    assert!(matches!(task.step(Event::FileSize(Some(12))), Action::Finish(Ok(()))));
}

#[test]
fn a_local_asset_of_another_size_is_removed_and_fetched() {
    let mut task = asset(&raw_object());
    task.step(Event::Begin);
    task.step(Event::Done);
    assert!(matches!(task.step(Event::FileSize(Some(11))), Action::RemoveFile { path } if path == TARGET));
    assert!(is_get(&task.step(Event::Done), URL));
    assert!(is_write(&task.step(answer(PLAIN)), TARGET, PLAIN));
    assert!(matches!(task.step(Event::Done), Action::Finish(Ok(()))));
}

#[test]
fn a_fetched_asset_with_another_checksum_is_not_written() {
    let mut task = asset(&raw_object());
    task.step(Event::Begin);
    task.step(Event::Done);
    assert!(is_get(&task.step(Event::FileSize(None)), URL));
    assert!(matches!(
        task.step(answer(b"hello assetz")),
        Action::Finish(Err(Error::ChecksumMismatch { .. }))
    ));
    assert_eq!(task.phase, AssetPhase::Idle);
}

#[test]
fn a_local_compressed_copy_is_unpacked() {
    let mut task = asset(&packed_object());
    assert!(matches!(task.step(Event::Begin), Action::PrepareFolder { file } if file == TARGET));
    assert!(matches!(task.step(Event::Done), Action::PrepareFolder { file } if file == PACKED));
    assert!(matches!(task.step(Event::Done), Action::StatFile { path } if path == TARGET));
    assert!(matches!(task.step(Event::FileSize(None)), Action::ReadFile { path } if path == PACKED));
    assert!(is_write(&task.step(Event::File(Some(GZ.to_vec()))), TARGET, PLAIN));
    assert_eq!(task.status, AssetDownloadableStatus::Extracting);
    assert_eq!(task.get_status(), "Extracting icons/icon.png");
    assert!(matches!(task.step(Event::Done), Action::Finish(Ok(()))));
}

#[test]
fn the_compressed_form_is_fetched_where_there_is_no_copy() {
    let mut task = asset(&packed_object());
    task.step(Event::Begin);
    task.step(Event::Done);
    task.step(Event::Done);
    task.step(Event::FileSize(None));
    assert!(is_get(&task.step(Event::File(None)), PACKED_URL));
    assert!(is_write(&task.step(answer(&GZ)), PACKED, &GZ));
    assert_eq!(task.monitor.get_total(), 32);
    assert!(is_write(&task.step(Event::Done), TARGET, PLAIN));
    assert!(matches!(task.step(Event::Done), Action::Finish(Ok(()))));
}

#[test]
fn a_wrong_compressed_copy_is_removed_and_fetched() {
    let mut task = asset(&packed_object());
    task.step(Event::Begin);
    task.step(Event::Done);
    task.step(Event::Done);
    task.step(Event::FileSize(None));
    assert!(matches!(
        task.step(Event::File(Some(b"junk".to_vec()))),
        Action::RemoveFile { path } if path == PACKED
    ));
    assert!(is_get(&task.step(Event::Done), PACKED_URL));
    match task.step(answer(b"junk")) {
        Action::Finish(Err(Error::ChecksumMismatch { expected, actual })) => {
            assert!(expected == Sha1Sum::from_reader(&GZ));
            assert!(actual == Sha1Sum::from_reader(b"junk"));
        }
        other => panic!("unexpected: {:?}", other),
    }
}

#[test]
fn what_unpacks_to_another_object_is_refused() {
    let mut object = packed_object();
    object.hash = Sha1Sum::from_reader(b"something else");
    let mut task = asset(&object);
    task.step(Event::Begin);
    task.step(Event::Done);
    task.step(Event::Done);
    task.step(Event::FileSize(None));
    task.step(Event::File(None));
    match task.step(answer(&GZ)) {
        Action::Finish(Err(Error::ChecksumMismatch { expected, actual })) => {
            assert!(expected == Sha1Sum::from_reader(b"something else"));
            assert!(actual == Sha1Sum::from_reader(PLAIN));
        }
        other => panic!("unexpected: {:?}", other),
    }
}

#[test]
fn what_is_no_gzip_stream_cannot_be_unpacked() {
    let mut object = packed_object();
    object.compressed_hash = Some(Sha1Sum::from_reader(b"not gzip"));
    let mut task = asset(&object);
    task.step(Event::Begin);
    task.step(Event::Done);
    task.step(Event::Done);
    task.step(Event::FileSize(None));
    assert!(matches!(
        task.step(Event::File(Some(b"not gzip".to_vec()))),
        Action::Finish(Err(Error::IoError(_)))
    ));
}

#[test]
fn statuses_name_the_file() {
    assert_eq!(status_of("/game/versions/1.20/1.20.jar", "https://x/y"), "Downloading 1.20.jar");
    assert_eq!(status_of("a.jar", "https://x/y"), "Downloading a.jar");
    assert_eq!(status_of("dir/", "https://x/y"), "Downloading dir");
    assert_eq!(status_of("", "https://x/y"), "Downloading https://x/y");
    assert_eq!(status_of("a/..", "https://x/y"), "Downloading https://x/y");
}

#[test]
fn every_kind_of_task_answers_the_same_questions() {
    let mut task = Downloadable::PreHashed(prehashed());
    assert_eq!(task.url(), "https://example.org/a.jar");
    assert_eq!(task.get_target_file(), "/game/a.jar");
    assert!(!task.force_download());
    assert_eq!(task.get_attempts(), 0);
    assert_eq!(task.get_status(), "Downloading a.jar");
    assert_eq!(task.get_start_time(), None);
    task.set_start_time(5);
    task.set_end_time(9);
    assert_eq!(task.get_start_time(), Some(5));
    assert_eq!(task.get_end_time(), Some(9));
    assert!(matches!(task.step(Event::Begin), Action::PrepareFolder { .. }));
    assert_eq!(task.get_attempts(), 1);
    task.rest();
    assert!(matches!(task.step(Event::Begin), Action::PrepareFolder { .. }));
    assert_eq!(task.get_attempts(), 2);
    task.complete_progress();
    assert_eq!(task.get_monitor().get_current(), 5242880);
    let asset = Downloadable::Asset(asset(&raw_object()));
    assert_eq!(asset.get_status(), "Downloading icons/icon.png");
    let checksummed = Downloadable::Checksummed(checksummed());
    assert!(checksummed.force_download());
    let etag = Downloadable::Etag(EtagDownloadable::new("u", "t", false));
    assert_eq!(etag.url(), "u");
}

#[test]
fn an_answer_with_a_length_sets_the_total() {
    let mut task = prehashed();
    task.step(Event::Begin);
    task.step(Event::Done);
    task.step(Event::File(None));
    task.step(answer(b"good"));
    let reported = task.monitor.take_reported();
    assert_eq!(reported.len(), 1);
    assert!(matches!(reported[0], ProgressUpdate::SetTotal(4)));
}

#[test]
fn errors_have_messages() {
    assert_eq!(Error::DownloadError("timeout".to_string()).to_string(), "failed to download: timeout");
    assert_eq!(Error::IoError("denied".to_string()).to_string(), "denied");
    assert_eq!(
        Error::PrepareFolderError("denied".to_string()).to_string(),
        "failed to prepare destination folder: denied"
    );
    assert_eq!(Error::UrlParseError("x y".to_string()).to_string(), "Couldn't parse URL: x y");
    assert_eq!(Error::Other("anything".to_string()).to_string(), "anything");
    assert_eq!(
        Error::ChecksumMismatch {
            expected: Sha1Sum::from_reader(b"abc"),
            actual: Sha1Sum::from_reader(b""),
        }
        .to_string(),
        "Checksum did not match downloaded file (Checksum was da39a3ee5e6b4b0d3255bfef95601890afd80709, downloaded a9993e364706816aba3e25717850c26c9cd0d89d)"
    );
    assert_eq!(
        Error::JobFailed { name: "Resources".to_string(), failures: 3, total_time: 12 }.to_string(),
        "Job 'Resources' finished with 3 failure(s)! (took 12s)"
    );
    let copy = Error::JobFailed { name: "x".to_string(), failures: 1, total_time: -4 }.clone();
    assert_eq!(copy.to_string(), "Job 'x' finished with 1 failure(s)! (took -4s)");
}
