//! The smaller pieces: paths, settings-derived addresses, decimal
//! text, the API envelope, and progress events.

use upload_transport::api::Response;
use upload_transport::fs_tree::FileNode;
use upload_transport::paths::UnixPath;
use upload_transport::settings::RemoteServerConfig;
use upload_transport::text::{i64_to_string, u64_to_string};
use upload_transport::upload_client::{next_event_key, UploadEvent};

#[test]
fn unix_path_join_inserts_single_slash() {
    let base = UnixPath::new("music/albums".to_string());
    assert_eq!(base.join("song.flac").to_string_lossy(), "music/albums/song.flac");
    let slashed = UnixPath::new("music/".to_string());
    assert_eq!(slashed.join("song.flac").to_string_lossy(), "music/song.flac");
    let empty = UnixPath::new(String::new());
    assert_eq!(empty.join("song.flac").to_string_lossy(), "song.flac");
}

#[test]
fn unix_path_file_name() {
    assert_eq!(
        UnixPath::new("/a/b/c.txt".to_string()).file_name(),
        Some("c.txt".to_string())
    );
    assert_eq!(
        UnixPath::new("name".to_string()).file_name(),
        Some("name".to_string())
    );
    assert_eq!(UnixPath::new("/a/b/".to_string()).file_name(), None);
    assert_eq!(UnixPath::new(String::new()).file_name(), None);
}

#[test]
fn remote_addresses_derive_from_the_host() {
    let conf = RemoteServerConfig {
        http: "10.0.0.2:8080".to_string(),
        tcp: "10.0.0.2:9000".to_string(),
    };
    assert_eq!(conf.api_load_structure(), "http://10.0.0.2:8080/api/fs/load_structure");
    assert_eq!(conf.api_load_dir_content(), "http://10.0.0.2:8080/api/fs/load_dir_content");
    assert_eq!(conf.url_delete_file(), "http://10.0.0.2:8080/api/fs/delete");
    assert_eq!(conf.url_create_dir(), "http://10.0.0.2:8080/api/fs/create_dir");
    assert_eq!(conf.url_move(), "http://10.0.0.2:8080/api/fs/move");
}

#[test]
fn decimal_text() {
    assert_eq!(u64_to_string(0), "0");
    assert_eq!(u64_to_string(7), "7");
    assert_eq!(u64_to_string(105), "105");
    assert_eq!(u64_to_string(u64::MAX), "18446744073709551615");
    assert_eq!(i64_to_string(0), "0");
    assert_eq!(i64_to_string(-1), "-1");
    assert_eq!(i64_to_string(1700000000), "1700000000");
    assert_eq!(i64_to_string(i64::MIN), "-9223372036854775808");
}

#[test]
fn event_keys_are_numbered() {
    assert_eq!(next_event_key(0), "upload-progress-0");
    assert_eq!(next_event_key(42), "upload-progress-42");
}

#[test]
fn progress_events() {
    let e = UploadEvent::progress("37.50".to_string());
    assert_eq!(e.percent().as_str(), "37.50");
    assert!(!e.is_done());
    let done = UploadEvent::completed();
    assert_eq!(done.percent().as_str(), "100");
    assert!(done.is_done());
}

#[test]
fn response_status_zero_is_success() {
    let r: Response<u32> = Response::success(5);
    assert_eq!(r.status, 0);
    let out = r.to_result();
    assert_eq!(out.ok(), Some(Some(5)));
}

#[test]
fn response_nonzero_status_is_an_error_with_the_message() {
    let r: Response<u32> = Response::failure("disk full".to_string());
    match r.to_result() {
        Ok(_) => panic!("a failure envelope must not turn into a success"),
        Err(e) => assert_eq!(e.message(), "disk full"),
    }
}

#[test]
fn file_nodes_distinguish_files_from_directories() {
    let file = FileNode::from_entry("a.txt".to_string(), "/r/a.txt".to_string(), 1700, false);
    assert!(file.children.is_none());
    assert_eq!(file.last_modified, "1700");
    let dir = FileNode::from_entry("sub".to_string(), "/r/sub".to_string(), -5, true);
    assert_eq!(dir.children.as_ref().map(|c| c.len()), Some(0));
    assert_eq!(dir.last_modified, "-5");
    let assembled = FileNode::dir_node("r".to_string(), "/r".to_string(), 0, vec![file, dir]);
    assert_eq!(assembled.children.map(|c| c.len()), Some(2));
}
