use zipper::error::{exit_code, ArchiveError, USAGE};

#[test]
fn usage_message() {
    assert_eq!(
        ArchiveError::Usage.message(),
        "Usage: zipper <zip file> <file to archive> <file to archive> ..."
    );
    assert_eq!(ArchiveError::Usage.message(), USAGE);
}

#[test]
fn missing_input_message_names_the_file() {
    let e = ArchiveError::Input {
        path: "no/such/file.txt".to_string(),
        reason: "No such file or directory (os error 2)".to_string(),
    };
    assert_eq!(e.message(), "no/such/file.txt: No such file or directory (os error 2)");
}

#[test]
fn unwritable_output_message_names_the_archive() {
    let e = ArchiveError::CreateOutput {
        path: "/nonexistent-dir/out.zip".to_string(),
        reason: "Permission denied (os error 13)".to_string(),
    };
    assert_eq!(
        e.message(),
        "Error creating /nonexistent-dir/out.zip: Permission denied (os error 13)"
    );
}

#[test]
fn invalid_name_message() {
    let e = ArchiveError::InvalidFileName { path: "dir/..".to_string() };
    assert_eq!(e.message(), "dir/..: Invalid file name");
}

#[test]
fn output_message_names_the_archive() {
    let e = ArchiveError::Output { path: "out.zip".to_string(), reason: "disk full".to_string() };
    assert_eq!(e.message(), "out.zip: disk full");
}

#[test]
fn exit_codes() {
    assert_eq!(exit_code(&Ok(())), 0);
    assert_eq!(exit_code(&Err(ArchiveError::Usage)), 1);
    let e = ArchiveError::Input { path: "x".to_string(), reason: "r".to_string() };
    assert_eq!(exit_code(&Err(e)), 1);
}
