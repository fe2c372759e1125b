use c0pl4nd::cli_cwd::{
    clear_startup_cwd, find_raw_value, parse_startup_cwd, set_startup_cwd, take_startup_cwd,
    CwdArgError, DirProbe, FLAG_LONG,
};
use std::path::Path;

fn argv(rest: &[&str]) -> Vec<String> {
    let mut args: Vec<String> = vec!["c0pl4nd.exe".to_string()];
    for a in rest {
        args.push(a.to_string());
    }
    args
}

fn probe(raw: &str) -> DirProbe {
    match std::path::absolute(raw) {
        Err(_) => DirProbe::Unresolvable,
        Ok(p) => {
            let text = p.to_string_lossy().to_string();
            if !p.exists() {
                DirProbe::Missing(text)
            } else if p.is_dir() {
                DirProbe::Directory(text)
            } else {
                DirProbe::Other(text)
            }
        }
    }
}

fn parse(rest: &[&str]) -> Result<Option<String>, CwdArgError> {
    let args = argv(rest);
    let found = match find_raw_value(&args) {
        Ok(Some(raw)) => probe(&raw),
        _ => DirProbe::Unresolvable,
    };
    parse_startup_cwd(&args, found)
}

#[test]
fn absent_flag_is_not_an_error() {
    assert_eq!(parse(&["--demo"]), Ok(None));
}

#[test]
fn a_real_directory_is_accepted_and_made_absolute() {
    let dir = tempfile::tempdir().expect("tempdir");
    let parsed = parse(&["--cwd", &dir.path().to_string_lossy()])
        .expect("a real directory must parse")
        .expect("the flag was present");
    assert!(Path::new(&parsed).is_absolute(), "got {parsed:?}");
    assert!(Path::new(&parsed).is_dir(), "got {parsed:?}");
    assert!(!parsed.starts_with(r"\\?\"), "verbatim prefix leaked: {parsed:?}");
}

#[test]
fn the_short_alias_matches_windows_terminal() {
    let dir = tempfile::tempdir().expect("tempdir");
    let parsed = parse(&["-d", &dir.path().to_string_lossy()])
        .expect("-d must parse")
        .expect("the flag was present");
    assert!(Path::new(&parsed).is_dir());
}

#[test]
fn the_joined_form_is_accepted() {
    let dir = tempfile::tempdir().expect("tempdir");
    let joined = format!("--cwd={}", dir.path().display());
    let parsed = parse(&[&joined])
        .expect("--cwd=<path> must parse")
        .expect("the flag was present");
    assert!(Path::new(&parsed).is_dir());
}

#[test]
fn a_trailing_flag_with_no_value_is_rejected() {
    assert_eq!(parse(&["--cwd"]), Err(CwdArgError::MissingValue));
    assert_eq!(parse(&["-d"]), Err(CwdArgError::MissingValue));
    assert_eq!(parse(&["--cwd="]), Err(CwdArgError::MissingValue));
}

#[test]
fn a_nonexistent_directory_is_rejected() {
    let dir = tempfile::tempdir().expect("tempdir");
    let missing = dir.path().join("no-such-folder");
    let err = parse(&["--cwd", &missing.to_string_lossy()])
        .expect_err("a nonexistent path must be refused, not silently ignored");
    assert!(matches!(err, CwdArgError::NotFound(_)), "got {err:?}");
    assert!(err.user_message().contains("doesn't exist"));
}

#[test]
fn a_file_is_rejected_as_not_a_directory() {
    let file = tempfile::NamedTempFile::new().expect("seed file");
    let err = parse(&["--cwd", &file.path().to_string_lossy()])
        .expect_err("a file must be refused, not used as a working directory");
    assert!(matches!(err, CwdArgError::NotADirectory(_)), "got {err:?}");
    assert!(err.user_message().contains("file, not a folder"));
}

#[test]
fn every_error_message_names_the_flag_and_a_fix() {
    for err in [
        CwdArgError::MissingValue,
        CwdArgError::Unresolvable("".to_string()),
        CwdArgError::NotFound("/nope".to_string()),
        CwdArgError::NotADirectory("/nope.txt".to_string()),
    ] {
        let msg = err.user_message();
        assert!(msg.contains(FLAG_LONG), "{msg}");
        assert!(msg.ends_with('.'), "{msg}");
    }
}

#[test]
fn the_store_is_one_shot_so_only_the_initial_pane_gets_it() {
    let mut slot: Option<String> = None;
    clear_startup_cwd(&mut slot);
    let dir = tempfile::tempdir().expect("tempdir");
    set_startup_cwd(&mut slot, &dir.path().to_string_lossy());
    assert_eq!(
        take_startup_cwd(&mut slot).as_deref(),
        Some(dir.path().to_string_lossy().as_ref()),
        "the first take must yield the startup directory",
    );
    assert_eq!(take_startup_cwd(&mut slot), None, "a second take must be empty");
}

#[test]
fn clear_empties_the_store() {
    let mut slot: Option<String> = None;
    let dir = tempfile::tempdir().expect("tempdir");
    set_startup_cwd(&mut slot, &dir.path().to_string_lossy());
    clear_startup_cwd(&mut slot);
    assert_eq!(take_startup_cwd(&mut slot), None);
}

#[test]
fn the_first_flag_decides() {
    let args = argv(&["-d", "one", "--cwd", "two"]);
    assert_eq!(find_raw_value(&args), Ok(Some("one".to_string())));
    let late = argv(&["--demo", "--cwd=two", "-d"]);
    assert_eq!(find_raw_value(&late), Ok(Some("two".to_string())));
    // The program's own name is no argument.
    assert_eq!(find_raw_value(&vec!["--cwd".to_string()]), Ok(None));
}

#[test]
fn an_unresolvable_path_is_quoted_in_the_message() {
    let err = parse_startup_cwd(&argv(&["-d", "a\"b"]), DirProbe::Unresolvable).unwrap_err();
    assert_eq!(err, CwdArgError::Unresolvable("a\"b".to_string()));
    assert!(err.user_message().contains("\"a\\\"b\""), "{}", err.user_message());
    let missing = CwdArgError::NotFound("/no\nwhere".to_string());
    assert!(missing.user_message().contains("/no"), "{}", missing.user_message());
}
