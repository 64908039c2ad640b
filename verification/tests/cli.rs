use swu::cli::{Cli, Source, SCAN_DIRECTORY};

#[test]
fn named_file_is_the_source() {
    let cli = Cli { file_name: Some(String::from("images/fw.bin")) };
    assert_eq!(cli.source(), Source::File(String::from("images/fw.bin")));
}

#[test]
fn without_a_file_the_current_directory_is_scanned() {
    let cli = Cli { file_name: None };
    assert_eq!(cli.source(), Source::Directory(String::from(".")));
    assert_eq!(SCAN_DIRECTORY, ".");
}
