use std::io::Write;
use std::path::Path;

use docserver::config::{AppState, SetRootPathRequest};
use docserver::routes::clients::{client_files_dir, list_client_files, DirectoryEntry};
use docserver::routes::config::{set_root_path, PathProbe};
use docserver::path::{is_below_root, is_plain_file_name};
use docserver::routes::files::{
    found_file, get_file, saved_files, upload_files, FileError, IncomingFile, UploadPlan,
    MAX_UPLOAD_BYTES,
};
use tempfile::TempDir;

fn probe(path: &str) -> PathProbe {
    let path = Path::new(path);
    PathProbe {
        exists: path.exists(),
        is_dir: path.is_dir(),
        canonical: path.canonicalize().ok().map(|p| p.to_string_lossy().to_string()),
    }
}

fn state_at(dir: &TempDir) -> AppState {
    let mut state = AppState::default();
    let path = dir.path().to_string_lossy().to_string();
    let request = SetRootPathRequest { path: path.clone() };
    let response = set_root_path(&request, &probe(&path), &mut state);
    assert_eq!(response.status, "success");
    state
}

fn make_dir(parent: &Path, name: &str) -> bool {
    if parent.join(name).is_dir() {
        return true;
    }
    match tempfile::Builder::new().prefix(name).rand_bytes(0).tempdir_in(parent) {
        Ok(dir) => {
            let _ = dir.keep();
            true
        }
        Err(_) => false,
    }
}

fn write_file(target: &Path, content: &[u8]) -> bool {
    let parent = match target.parent() {
        Some(parent) => parent,
        None => return false,
    };
    let mut file = match tempfile::NamedTempFile::new_in(parent) {
        Ok(file) => file,
        Err(_) => return false,
    };
    file.write_all(content).is_ok() && file.persist(target).is_ok()
}

fn size_of(path: &Path) -> u64 {
    path.metadata().unwrap().len()
}

fn carry_out(plan: &UploadPlan, contents: &[&[u8]]) -> (bool, Vec<bool>) {
    let dir = Path::new(&plan.client_dir);
    let ready = match (dir.parent(), dir.file_name().and_then(|n| n.to_str())) {
        (Some(parent), Some(name)) => make_dir(parent, name),
        _ => false,
    };
    if !ready {
        return (false, Vec::new());
    }
    let written = plan
        .writes
        .iter()
        .map(|w| write_file(Path::new(&w.target), contents[w.source]))
        .collect();
    (true, written)
}

fn read_dir(dir: &str) -> Option<Vec<DirectoryEntry>> {
    let entries = Path::new(dir).read_dir().ok()?;
    Some(
        entries
            .filter_map(|entry| entry.ok())
            .map(|entry| DirectoryEntry {
                file_name: entry.file_name().into_string().ok(),
                is_file: entry.file_type().map(|t| t.is_file()).unwrap_or(false),
            })
            .collect(),
    )
}

fn named(name: &str, size: u64) -> IncomingFile {
    IncomingFile { file_name: Some(name.to_string()), size }
}

#[test]
fn test_get_file() {
    let dir = TempDir::new().expect("Failed to create temp directory");
    let state = state_at(&dir);

    let test_file = "test.txt";
    let test_content = "test content";
    assert!(write_file(&dir.path().join(test_file), test_content.as_bytes()));

    let resolved = get_file(test_file, &state).unwrap();
    let is_file = Path::new(&resolved).is_file();
    let served = found_file(resolved, is_file).unwrap();
    assert_eq!(size_of(Path::new(&served)), test_content.len() as u64);
    let root = state.get_root_path().unwrap();
    assert_eq!(served, format!("{}/{}", root, test_file));
}

#[test]
fn test_get_nonexistent_file() {
    let dir = TempDir::new().expect("Failed to create temp directory");
    let state = state_at(&dir);

    let resolved = get_file("nonexistent.txt", &state).unwrap();
    let is_file = Path::new(&resolved).is_file();
    assert_eq!(found_file(resolved, is_file), Err(FileError::NotFound));
    assert_eq!(FileError::NotFound.response().message, "File not found");
}

#[test]
fn a_directory_is_no_file_to_send() {
    let dir = TempDir::new().expect("Failed to create temp directory");
    let state = state_at(&dir);
    assert!(make_dir(dir.path(), "sub"));
    let resolved = get_file("sub", &state).unwrap();
    let is_file = Path::new(&resolved).is_file();
    assert_eq!(found_file(resolved, is_file), Err(FileError::NotFound));
    assert_eq!(found_file("/srv/a.txt".to_string(), true), Ok("/srv/a.txt".to_string()));
}

#[test]
fn test_file_upload() {
    let dir = TempDir::new().expect("Failed to create temp directory");
    let state = state_at(&dir);

    let test_file = "test.txt";
    let test_content = "test content";

    let incoming = vec![named(test_file, test_content.len() as u64)];
    let plan = upload_files("test_client", &incoming, MAX_UPLOAD_BYTES, &state).unwrap();
    let (ready, written) = carry_out(&plan, &[test_content.as_bytes()]);
    let files = saved_files(&plan, ready, &written).unwrap().files;

    assert_eq!(files.len(), 1);
    assert_eq!(files[0], test_file);
    let stored = dir.path().join("test_client").join(test_file);
    assert_eq!(size_of(&stored), test_content.len() as u64);
}

#[test]
fn test_file_upload_multiple_files() {
    let dir = TempDir::new().expect("Failed to create temp directory");
    let state = state_at(&dir);

    let incoming = vec![named("test1.txt", 13), named("test2.txt", 12)];
    let plan = upload_files("test-client", &incoming, MAX_UPLOAD_BYTES, &state).unwrap();
    let (ready, written) = carry_out(&plan, &[b"Hello, World!", b"Another file"]);
    let files = saved_files(&plan, ready, &written).unwrap().files;

    assert_eq!(files.len(), 2);
    assert!(files.iter().any(|f| f == "test1.txt"));
    assert!(files.iter().any(|f| f == "test2.txt"));
    assert_eq!(files, vec!["test1.txt".to_string(), "test2.txt".to_string()]);
}

#[test]
fn test_file_upload_no_files() {
    let dir = TempDir::new().expect("Failed to create temp directory");
    let state = state_at(&dir);

    let incoming: Vec<IncomingFile> = Vec::new();
    let plan = upload_files("test-client", &incoming, MAX_UPLOAD_BYTES, &state).unwrap();
    assert_eq!(plan.writes.len(), 0);
    let (ready, written) = carry_out(&plan, &[]);
    let files = saved_files(&plan, ready, &written).unwrap().files;
    assert_eq!(files.len(), 0);
}

#[test]
fn uploaded_report_is_listed_for_its_client() {
    let dir = TempDir::new().expect("Failed to create temp directory");
    let state = state_at(&dir);

    let incoming = vec![named("report.pdf", 4)];
    let plan = upload_files("42", &incoming, MAX_UPLOAD_BYTES, &state).unwrap();
    let (ready, written) = carry_out(&plan, &[b"%PDF"]);
    let saved = saved_files(&plan, ready, &written).unwrap().files;
    assert_eq!(saved, vec!["report.pdf".to_string()]);

    let client_dir = client_files_dir(&state, 42).unwrap();
    assert_eq!(client_dir, plan.client_dir);
    let listed = list_client_files(&read_dir(&client_dir));
    assert!(listed.contains(&"report.pdf".to_string()));
}

#[test]
fn listing_leaves_out_directories() {
    let dir = TempDir::new().expect("Failed to create temp directory");
    let state = state_at(&dir);
    let client_dir = client_files_dir(&state, 7).unwrap();
    assert!(make_dir(dir.path(), "7"));
    assert!(make_dir(Path::new(&client_dir), "nested"));
    assert!(write_file(&Path::new(&client_dir).join("nested").join("inner.txt"), b"x"));
    assert!(write_file(&Path::new(&client_dir).join("a.txt"), b"a"));

    let listed = list_client_files(&read_dir(&client_dir));
    assert_eq!(listed, vec!["a.txt".to_string()]);
}

#[test]
fn client_without_directory_has_no_files() {
    let dir = TempDir::new().expect("Failed to create temp directory");
    let state = state_at(&dir);
    let client_dir = client_files_dir(&state, 99).unwrap();
    assert!(read_dir(&client_dir).is_none());
    let listed = list_client_files(&read_dir(&client_dir));
    assert_eq!(listed.len(), 0);
}

#[test]
fn listing_keeps_order_and_skips_unnamed_entries() {
    let entries = vec![
        DirectoryEntry { file_name: Some("b.txt".to_string()), is_file: true },
        DirectoryEntry { file_name: Some("dir".to_string()), is_file: false },
        DirectoryEntry { file_name: None, is_file: true },
        DirectoryEntry { file_name: Some("a.txt".to_string()), is_file: true },
    ];
    let listed = list_client_files(&Some(entries));
    assert_eq!(listed, vec!["b.txt".to_string(), "a.txt".to_string()]);
}

#[test]
fn client_directory_bears_the_id_in_decimal() {
    let state = AppState::new("/srv/docs".to_string());
    assert_eq!(client_files_dir(&state, 42).unwrap(), "/srv/docs/42");
    assert_eq!(client_files_dir(&state, -5).unwrap(), "/srv/docs/-5");
    assert_eq!(client_files_dir(&state, 0).unwrap(), "/srv/docs/0");
    assert_eq!(
        client_files_dir(&state, i64::MIN).unwrap(),
        "/srv/docs/-9223372036854775808"
    );
    assert_eq!(client_files_dir(&state, i64::MAX).unwrap(), "/srv/docs/9223372036854775807");
    assert!(client_files_dir(&AppState::default(), 42).is_none());
}

#[test]
fn parent_segments_do_not_leave_the_root() {
    let dir = TempDir::new().expect("Failed to create temp directory");
    let outside = dir.path().join("secret.txt");
    assert!(write_file(&outside, b"secret"));
    let root = dir.path().join("root");
    assert!(make_dir(dir.path(), "root"));
    let mut state = AppState::default();
    state.set_root_path(root.to_string_lossy().to_string());

    assert_eq!(get_file("../secret.txt", &state), Err(FileError::OutsideRoot));
    assert_eq!(get_file("a/../../secret.txt", &state), Err(FileError::OutsideRoot));
    assert_eq!(get_file("a/..", &state), Err(FileError::OutsideRoot));
    assert_eq!(get_file("..", &state), Err(FileError::OutsideRoot));
    assert_eq!(get_file("a\\..\\b", &state), Err(FileError::OutsideRoot));
    assert_eq!(
        get_file(&outside.to_string_lossy(), &state),
        Err(FileError::OutsideRoot)
    );
    assert_eq!(get_file("/etc/passwd", &state), Err(FileError::OutsideRoot));
}

#[test]
fn dots_inside_names_are_no_parent_segments() {
    assert!(is_below_root("a..b/c"));
    assert!(is_below_root("..a"));
    assert!(is_below_root("a.."));
    assert!(is_below_root("..."));
    assert!(is_below_root("./a"));
    assert!(is_below_root("a/.b/c."));
    assert!(is_below_root(""));
    assert!(is_below_root("a//b"));
    assert!(!is_below_root(".."));
    assert!(!is_below_root("../"));
    assert!(!is_below_root("a/../b"));
    assert!(!is_below_root("a/.."));
    assert!(!is_below_root("/a"));
    assert!(!is_below_root("\\a"));
    assert!(!is_below_root("é/../x"));
}

#[test]
fn file_requests_need_a_root() {
    let state = AppState::default();
    assert_eq!(get_file("test.txt", &state), Err(FileError::RootNotConfigured));
    let incoming = vec![named("a.txt", 1)];
    assert!(matches!(
        upload_files("c", &incoming, MAX_UPLOAD_BYTES, &state),
        Err(FileError::RootNotConfigured)
    ));
    assert_eq!(
        FileError::OutsideRoot.response().message,
        "Invalid path: outside the storage root"
    );
    assert_eq!(FileError::RootNotConfigured.response().status, "error");
    assert_eq!(FileError::RootNotConfigured.response().message, "Root path not configured");
}

#[test]
fn get_file_joins_root_and_path() {
    let state = AppState::new("/srv/docs".to_string());
    assert_eq!(get_file("42/report.pdf", &state).unwrap(), "/srv/docs/42/report.pdf");
    let state = AppState::new("/srv/docs/".to_string());
    assert_eq!(get_file("a.txt", &state).unwrap(), "/srv/docs/a.txt");
}

#[test]
fn oversized_parts_are_left_out() {
    let state = AppState::new("/srv/docs".to_string());
    let incoming = vec![
        named("small.txt", 10),
        named("huge.bin", MAX_UPLOAD_BYTES + 1),
        named("limit.bin", MAX_UPLOAD_BYTES),
    ];
    assert_eq!(MAX_UPLOAD_BYTES, 10 * 1024 * 1024);
    let plan = upload_files("c1", &incoming, MAX_UPLOAD_BYTES, &state).unwrap();
    assert_eq!(plan.client_dir, "/srv/docs/c1");
    assert_eq!(plan.writes.len(), 2);
    assert_eq!(plan.writes[0].source, 0);
    assert_eq!(plan.writes[0].file_name, "small.txt");
    assert_eq!(plan.writes[0].target, "/srv/docs/c1/small.txt");
    assert_eq!(plan.writes[1].source, 2);
    assert_eq!(plan.writes[1].file_name, "limit.bin");
    let saved = saved_files(&plan, true, &vec![true, true]).unwrap().files;
    assert_eq!(saved, vec!["small.txt".to_string(), "limit.bin".to_string()]);
}

#[test]
fn size_limit_is_the_callers_to_set() {
    let state = AppState::new("/srv/docs".to_string());
    let incoming = vec![named("a.txt", 5), named("b.txt", 6), named("c.txt", 0)];
    let plan = upload_files("c1", &incoming, 5, &state).unwrap();
    let sources: Vec<usize> = plan.writes.iter().map(|w| w.source).collect();
    assert_eq!(sources, vec![0, 2]);
    let plan = upload_files("c1", &incoming, 0, &state).unwrap();
    let sources: Vec<usize> = plan.writes.iter().map(|w| w.source).collect();
    assert_eq!(sources, vec![2]);
    let plan = upload_files("c1", &incoming, u64::MAX, &state).unwrap();
    assert_eq!(plan.writes.len(), 3);
}

#[test]
fn failed_write_leaves_the_others_in() {
    let state = AppState::new("/srv/docs".to_string());
    let incoming = vec![named("a.txt", 1), named("b.txt", 1), named("c.txt", 1)];
    let plan = upload_files("c1", &incoming, MAX_UPLOAD_BYTES, &state).unwrap();
    let saved = saved_files(&plan, true, &vec![true, false, true]).unwrap().files;
    assert_eq!(saved, vec!["a.txt".to_string(), "c.txt".to_string()]);
    let saved = saved_files(&plan, true, &vec![true]).unwrap().files;
    assert_eq!(saved, vec!["a.txt".to_string()]);
}

#[test]
fn upload_fails_without_the_client_directory() {
    let state = AppState::new("/srv/docs".to_string());
    let incoming = vec![named("a.txt", 1)];
    let plan = upload_files("c1", &incoming, MAX_UPLOAD_BYTES, &state).unwrap();
    match saved_files(&plan, false, &vec![true]) {
        Err(error) => {
            assert_eq!(error, FileError::DirectoryCreate);
            assert_eq!(error.response().message, "Failed to create client directory");
        }
        Ok(_) => panic!("the upload went through"),
    }
}

fn is_uuid_text(name: &str) -> bool {
    name.len() == 36
        && name.chars().enumerate().all(|(i, c)| {
            if i == 8 || i == 13 || i == 18 || i == 23 {
                c == '-'
            } else {
                c.is_ascii_digit() || ('a'..='f').contains(&c)
            }
        })
}

#[test]
fn unnamed_parts_get_generated_names() {
    let state = AppState::new("/srv/docs".to_string());
    let incoming = vec![
        IncomingFile { file_name: None, size: 1 },
        IncomingFile { file_name: Some(String::new()), size: 1 },
        named("kept.txt", 1),
    ];
    let plan = upload_files("c1", &incoming, MAX_UPLOAD_BYTES, &state).unwrap();
    assert_eq!(plan.writes.len(), 3);
    assert!(is_uuid_text(&plan.writes[0].file_name));
    assert!(is_uuid_text(&plan.writes[1].file_name));
    assert_ne!(plan.writes[0].file_name, plan.writes[1].file_name);
    assert_eq!(plan.writes[0].target, format!("/srv/docs/c1/{}", plan.writes[0].file_name));
    assert_eq!(plan.writes[2].file_name, "kept.txt");
}

#[test]
fn same_name_is_written_to_the_same_place() {
    let dir = TempDir::new().expect("Failed to create temp directory");
    let state = state_at(&dir);
    let incoming = vec![named("a.txt", 5), named("a.txt", 6)];
    let plan = upload_files("c1", &incoming, MAX_UPLOAD_BYTES, &state).unwrap();
    assert_eq!(plan.writes[0].target, plan.writes[1].target);
    let (ready, written) = carry_out(&plan, &[b"first", b"second"]);
    let saved = saved_files(&plan, ready, &written).unwrap().files;
    assert_eq!(saved, vec!["a.txt".to_string(), "a.txt".to_string()]);
    assert_eq!(size_of(Path::new(&plan.writes[0].target)), 6);
}

#[test]
fn suggested_name_that_is_no_file_name_gives_way_to_a_generated_one() {
    let state = AppState::new("/srv/docs".to_string());
    let incoming = vec![
        named("../x", 1),
        named("a/b", 1),
        named("..", 1),
        named(".", 1),
        named("a\\b", 1),
        named("/etc/passwd", 1),
        named("kept.txt", 1),
        named("..hidden", 1),
    ];
    let plan = upload_files("7", &incoming, MAX_UPLOAD_BYTES, &state).unwrap();
    assert_eq!(plan.client_dir, "/srv/docs/7");
    assert_eq!(plan.writes.len(), 8);
    for write in &plan.writes[..6] {
        assert!(is_uuid_text(&write.file_name));
        assert_eq!(write.target, format!("/srv/docs/7/{}", write.file_name));
    }
    assert_eq!(plan.writes[6].file_name, "kept.txt");
    assert_eq!(plan.writes[6].target, "/srv/docs/7/kept.txt");
    assert_eq!(plan.writes[7].file_name, "..hidden");
    for write in &plan.writes {
        assert!(is_plain_file_name(&write.file_name));
        assert!(!write.file_name.contains('/'));
        assert!(write.target.starts_with("/srv/docs/7/"));
    }
}

#[test]
fn client_id_that_is_no_file_name_is_turned_down() {
    let state = AppState::new("/srv/docs".to_string());
    let incoming = vec![named("a.txt", 1)];
    for client_id in ["..", ".", "", "a/b", "../7", "/7", "7/", "a\\b"] {
        assert!(matches!(
            upload_files(client_id, &incoming, MAX_UPLOAD_BYTES, &state),
            Err(FileError::OutsideRoot)
        ));
    }
    assert!(matches!(
        upload_files("..", &incoming, MAX_UPLOAD_BYTES, &AppState::default()),
        Err(FileError::RootNotConfigured)
    ));
    assert!(upload_files("..7", &incoming, MAX_UPLOAD_BYTES, &state).is_ok());
}

#[test]
fn upload_with_parent_segments_writes_nothing_outside_the_client_directory() {
    let dir = TempDir::new().expect("Failed to create temp directory");
    let state = state_at(&dir);
    assert!(make_dir(dir.path(), "8"));
    assert!(write_file(&dir.path().join("8").join("x"), b"other client"));
    assert!(write_file(&dir.path().join("x"), b"root"));

    let incoming = vec![named("../x", 3), named("../8/x", 3), named("../../x", 3)];
    let plan = upload_files("7", &incoming, MAX_UPLOAD_BYTES, &state).unwrap();
    let (ready, written) = carry_out(&plan, &[b"new", b"new", b"new"]);
    let saved = saved_files(&plan, ready, &written).unwrap().files;
    assert_eq!(saved.len(), 3);

    assert_eq!(size_of(&dir.path().join("8").join("x")), 12);
    assert_eq!(size_of(&dir.path().join("x")), 4);
    let listed = list_client_files(&read_dir(&plan.client_dir));
    assert_eq!(listed.len(), 3);
    for name in &saved {
        assert!(listed.contains(name));
        assert!(dir.path().join("7").join(name).is_file());
    }
    assert_eq!(list_client_files(&read_dir(&dir.path().join("8").to_string_lossy())).len(), 1);
}

#[test]
fn file_names_are_told_from_paths() {
    assert!(is_plain_file_name("report.pdf"));
    assert!(is_plain_file_name("..."));
    assert!(is_plain_file_name(".hidden"));
    assert!(is_plain_file_name("a..b"));
    assert!(is_plain_file_name("é"));
    assert!(!is_plain_file_name(""));
    assert!(!is_plain_file_name("."));
    assert!(!is_plain_file_name(".."));
    assert!(!is_plain_file_name("a/b"));
    assert!(!is_plain_file_name("/"));
    assert!(!is_plain_file_name("a\\b"));
    assert!(!is_plain_file_name("../x"));
}
