use neta::model::{
    check_extension, check_size, chosen_path, failed, loaded, quote, requested_path, Problem,
    MAX_BYTES,
};

#[test]
fn quoting_survives_a_hostile_filename() {
    assert_eq!(quote(r#"a"b"#), r#""a\"b""#);
    assert_eq!(quote(r"a\b"), r#""a\\b""#);
    assert_eq!(quote("a\nb"), r#""a\nb""#);
    assert_eq!(quote("a\u{2028}b"), r#""a\u2028b""#);
    assert_eq!(quote("a\u{7}b"), r#""ab""#);
}

#[test]
fn quoting_keeps_everything_else() {
    assert_eq!(quote(""), "\"\"");
    assert_eq!(quote("\r\u{2029}"), r#""\r\u2029""#);
    assert_eq!(quote("\\\""), r#""\\\"""#);
    assert_eq!(quote("é漢🚗 ~\u{7f}"), "\"é漢🚗 ~\u{7f}\"");
}

/// What the page is told of a path, where looking at the file fails with the
/// given words.
fn answer(path: &str, extension: Option<&str>, error: &str) -> String {
    let problem = match chosen_path(path) {
        Err(problem) => problem,
        Ok(_) => match check_extension(extension) {
            Err(problem) => problem,
            Ok(()) => Problem::Unopened(error.to_owned()),
        },
    };
    failed(&problem)
}

#[test]
fn a_missing_or_wrong_file_explains_itself_rather_than_failing_silently() {
    assert!(answer("", None, "").contains("__neta_model_failed"));
    assert!(answer("/nonexistent/model.obj", Some("obj"), "gone").contains("Cannot open"));
    let answer = answer("/nonexistent/model.txt", Some("txt"), "gone");
    assert!(answer.contains("not .txt"), "{answer}");
}

#[test]
fn paths_and_sizes_are_judged() {
    assert_eq!(chosen_path(" \t/a b.obj\u{3000}").unwrap(), "/a b.obj");
    assert!(matches!(chosen_path(" \n"), Err(Problem::NotChosen)));
    assert!(check_extension(Some("OBJ")).is_ok());
    assert!(check_extension(Some("oBj")).is_ok());
    assert_eq!(
        check_extension(None).unwrap_err().message(),
        "Neta reads .obj files, not ."
    );
    assert_eq!(
        check_extension(Some("GLB")).unwrap_err().message(),
        "Neta reads .obj files, not .glb"
    );
    assert!(check_size(MAX_BYTES).is_ok());
    assert_eq!(
        check_size(200 * 1_024 * 1_024 + 5).unwrap_err().message(),
        "That file is 200 MB. Neta loads models up to 96 MB."
    );
    assert_eq!(Problem::NoGeometry.message(), "That file has no usable geometry");
    assert_eq!(Problem::Unreadable("x".to_owned()).message(), "Cannot read it: x");
    assert_eq!(Problem::Malformed("y".to_owned()).message(), "That OBJ is malformed: y");
}

#[test]
fn scripts_are_exact() {
    assert_eq!(
        failed(&Problem::NotChosen),
        "window.__neta_model_failed&&window.__neta_model_failed(\"No file chosen\");"
    );
    let coordinates: Vec<String> = ["0.000", "-1.000", "0.500"].map(str::to_owned).to_vec();
    assert_eq!(
        loaded(Some("bo\"x"), &coordinates),
        "window.__neta_model&&window.__neta_model(\"bo\\\"x\",[0.000,-1.000,0.500]);"
    );
    assert_eq!(loaded(None, &[]), "window.__neta_model&&window.__neta_model(\"model\",[]);");
}

#[test]
fn only_a_model_message_asks_for_a_file() {
    assert_eq!(requested_path("model /a/b.obj").as_deref(), Some("/a/b.obj"));
    assert_eq!(requested_path("model ").as_deref(), Some(""));
    assert_eq!(requested_path("model"), None);
    assert_eq!(requested_path(" model /a/b.obj"), None);
    assert_eq!(requested_path("models /a"), None);
}
