use chrisql::error::StoreError;
use chrisql::file_manager::FileManager;
use chrisql::names::is_valid_record_name;

#[test]
fn test_create_file() {
    let mut file_manager = FileManager::new("test_output").expect("store should open");

    let file_name = "test_file.txt";
    let result = file_manager.create_file(file_name);

    assert!(result.is_ok(), "File creation should succeed");
    assert!(
        file_manager.read_from_file(file_name).is_ok(),
        "File should exist after creation"
    );
}

#[test]
fn test_write_to_file() {
    let mut file_manager = FileManager::new("test_output").expect("store should open");

    let file_name = "test_write.txt";
    let content = "Hello, me!";

    let result = file_manager.write_to_file(file_name, content.as_bytes());
    assert!(result.is_ok(), "Writing to file should succeed.");

    let file_content = file_manager
        .read_from_file(file_name)
        .expect("failed to test file");
    assert_eq!(
        file_content,
        content.as_bytes().to_vec(),
        "File content should match expected content."
    );
}

#[test]
fn test_read_from_file() {
    let mut file_manager = FileManager::new("test_output").expect("store should open");
    let file_name = "test_read.txt";
    let expected_content = "This is a test.";

    file_manager
        .write_to_file(file_name, expected_content.as_bytes())
        .expect("Failed to write to test file");

    let result = file_manager.read_from_file(file_name);
    assert!(result.is_ok(), "Reading from file should succeed.");
    assert_eq!(
        result.unwrap(),
        expected_content.as_bytes().to_vec(),
        "Read content should match expected content"
    )
}

#[test]
fn open_fresh_then_write_then_read() {
    let mut store = FileManager::new("fresh_dir").expect("store should open");
    store
        .write_to_file("users", b"alice,bob")
        .expect("write should succeed");
    assert_eq!(store.read_from_file("users").unwrap(), b"alice,bob".to_vec());
}

#[test]
fn open_over_existing_record_then_read() {
    let mut store = FileManager::new("existing_dir").expect("store should open");
    store
        .load_record("orders", b"42")
        .expect("loading an existing file should succeed");
    assert_eq!(store.read_from_file("orders").unwrap(), b"42".to_vec());
}

#[test]
fn open_empty_root_fails() {
    let r = FileManager::new("");
    assert_eq!(r.err(), Some(StoreError::DirectoryUnavailable));
}

#[test]
fn create_is_idempotent() {
    let mut store = FileManager::new("db").expect("store should open");
    store.create_file("n").expect("first create should succeed");
    store.write_to_file("n", b"kept").expect("write should succeed");
    store.create_file("n").expect("second create should succeed");
    assert_eq!(
        store.read_from_file("n").unwrap(),
        b"kept".to_vec(),
        "a second create must not alter the content"
    );
}

#[test]
fn create_makes_an_empty_record() {
    let mut store = FileManager::new("db").expect("store should open");
    store.create_file("empty").expect("create should succeed");
    assert_eq!(store.read_from_file("empty").unwrap(), Vec::<u8>::new());
}

#[test]
fn read_of_unwritten_name_is_not_found() {
    let store = FileManager::new("db").expect("store should open");
    assert_eq!(
        store.read_from_file("never_written").err(),
        Some(StoreError::RecordNotFound)
    );
}

#[test]
fn overwrite_leaves_only_the_second_content() {
    let mut store = FileManager::new("db").expect("store should open");
    store
        .write_to_file("n", b"a much longer first content")
        .expect("first write should succeed");
    store.write_to_file("n", b"x").expect("second write should succeed");
    assert_eq!(
        store.read_from_file("n").unwrap(),
        b"x".to_vec(),
        "no residue of the first content may remain"
    );
}

#[test]
fn traversal_names_are_rejected() {
    let mut store = FileManager::new("db").expect("store should open");
    assert_eq!(
        store.create_file("../../etc/passwd").err(),
        Some(StoreError::RecordAccessError)
    );
    assert_eq!(
        store.write_to_file("a/b", b"x").err(),
        Some(StoreError::RecordAccessError)
    );
    assert_eq!(
        store.write_to_file("a\\b", b"x").err(),
        Some(StoreError::RecordAccessError)
    );
    assert_eq!(
        store.create_file("..").err(),
        Some(StoreError::RecordAccessError)
    );
    assert_eq!(
        store.create_file("").err(),
        Some(StoreError::RecordAccessError)
    );
    assert_eq!(
        store.read_from_file("../../etc/passwd").err(),
        Some(StoreError::RecordAccessError)
    );
}

#[test]
fn name_validation_decides_the_allow_list() {
    assert!(is_valid_record_name("users"));
    assert!(is_valid_record_name("a.b"));
    assert!(is_valid_record_name("..."));
    assert!(is_valid_record_name("."));
    assert!(!is_valid_record_name(""));
    assert!(!is_valid_record_name(".."));
    assert!(!is_valid_record_name("a/b"));
    assert!(!is_valid_record_name("a\\b"));
    assert!(!is_valid_record_name("/"));
}

#[test]
fn failed_atomic_write_keeps_prior_content() {
    let mut store = FileManager::new("db").expect("store should open");
    store.write_to_file("n", b"prior").expect("write should succeed");
    assert_eq!(
        store.atomic_write("n", b"half-written", false).err(),
        Some(StoreError::RecordAccessError)
    );
    assert_eq!(
        store.read_from_file("n").unwrap(),
        b"prior".to_vec(),
        "a failed attempt must leave the prior content"
    );
}

#[test]
fn failed_atomic_write_keeps_a_record_absent() {
    let mut store = FileManager::new("db").expect("store should open");
    assert_eq!(
        store.atomic_write("n", b"half-written", false).err(),
        Some(StoreError::RecordAccessError)
    );
    assert_eq!(
        store.read_from_file("n").err(),
        Some(StoreError::RecordNotFound)
    );
}

#[test]
fn successful_atomic_write_replaces_content() {
    let mut store = FileManager::new("db").expect("store should open");
    store.write_to_file("n", b"prior").expect("write should succeed");
    store
        .atomic_write("n", b"replaced", true)
        .expect("renamed write should succeed");
    assert_eq!(store.read_from_file("n").unwrap(), b"replaced".to_vec());
}

#[test]
fn record_paths_join_under_the_root() {
    let store = FileManager::new("db").expect("store should open");
    assert_eq!(store.record_path("users"), "db/users".to_string());
    assert_eq!(store.temp_record_path("users"), "db/users.tmp".to_string());
}

#[test]
fn error_messages_describe_each_failure() {
    assert_eq!(
        StoreError::DirectoryUnavailable.message(),
        "database directory unavailable"
    );
    assert_eq!(StoreError::RecordAccessError.message(), "record access error");
    assert_eq!(StoreError::RecordNotFound.message(), "record not found");
}
