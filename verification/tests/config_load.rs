use mail_notifier::config_locate::{load, LoadError, Meta, ReadError};
use std::path::PathBuf;

fn found(contents: &str) -> Result<Meta<String>, ReadError<String>> {
    Ok(Meta {
        payload: contents.to_string(),
        path: PathBuf::from("config.yaml"),
    })
}

fn yaml(contents: String) -> Result<serde_yaml_bw::Value, serde_yaml_bw::Error> {
    serde_yaml_bw::from_str(&contents)
}

#[test]
fn rejects_invalid_yaml() {
    let yaml_text = r#"servers: ["#;

    let error = load(found(yaml_text), yaml).expect_err("invalid yaml should error");
    match error {
        LoadError::Load { path, source } => {
            assert_eq!(path, PathBuf::from("config.yaml"));
            let message = source.to_string();
            assert!(!message.is_empty());
        }
        LoadError::Read(error) => panic!("the file was read: {error:?}"),
    }
}

#[test]
fn what_the_loader_gives_is_returned_with_the_path() {
    let loaded = load(found("servers: []"), yaml).expect("the document is YAML");
    assert_eq!(loaded.path, PathBuf::from("config.yaml"));
    assert!(loaded.payload.get("servers").is_some());

    let loaded = load(found("a b c"), |contents: String| {
        Ok::<usize, String>(contents.split(' ').count())
    })
    .expect("the loader succeeds");
    assert_eq!(loaded.payload, 3);
    assert_eq!(loaded.path, PathBuf::from("config.yaml"));
}

#[test]
fn the_error_of_the_loader_is_returned_with_the_path() {
    let error = load(found("x"), |contents: String| Err::<(), String>(format!("no: {contents}")))
        .expect_err("the loader fails");
    assert!(matches!(
        error,
        LoadError::Load { path, source } if path == PathBuf::from("config.yaml") && source == "no: x"
    ));
}

#[test]
fn a_failed_search_is_returned_without_calling_the_loader() {
    let mut called = false;
    let missing: Result<Meta<String>, ReadError<String>> = Err(ReadError::NotFound {
        paths: vec![PathBuf::from("a.yaml"), PathBuf::from("b.yaml")],
    });
    let error = load(missing, |contents: String| {
        called = true;
        Ok::<String, String>(contents)
    })
    .expect_err("nothing was read");
    assert!(!called);
    assert!(matches!(
        error,
        LoadError::Read(ReadError::NotFound { paths }) if paths.len() == 2
    ));

    let unreadable: Result<Meta<String>, ReadError<String>> = Err(ReadError::Read {
        path: PathBuf::from("a.yaml"),
        source: "denied".to_string(),
    });
    let error = load(unreadable, yaml).expect_err("nothing was read");
    assert!(matches!(
        error,
        LoadError::Read(ReadError::Read { path, source })
            if path == PathBuf::from("a.yaml") && source == "denied"
    ));
}
