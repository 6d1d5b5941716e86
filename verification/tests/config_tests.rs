use loop_lib::config_from_fields;
use loop_lib::default_config;
use loop_lib::effective_roots;

fn strings(v: &[&str]) -> Vec<String> {
    v.iter().map(|s| s.to_string()).collect()
}

/// Extract the recognized configuration fields from a parsed JSON value the
/// way the surrounding binary does: unknown fields are ignored, absent ones
/// are handed over as `None`.
fn fields_of(v: &serde_json::Value) -> (Option<Vec<String>>, Option<Vec<String>>, Option<bool>, Option<bool>, Option<bool>) {
    let string_list = |key: &str| -> Option<Vec<String>> {
        v.get(key).and_then(|x| x.as_array()).map(|a| {
            a.iter().filter_map(|e| e.as_str().map(|s| s.to_string())).collect()
        })
    };
    let flag = |key: &str| -> Option<bool> { v.get(key).and_then(|x| x.as_bool()) };
    (
        string_list("directories"),
        string_list("ignore"),
        flag("parallel"),
        flag("verbose"),
        flag("silent"),
    )
}

#[test]
fn default_config_values() {
    let c = default_config();
    assert!(c.directories.is_empty());
    assert_eq!(c.ignore, strings(&[".git"]));
    assert!(!c.parallel);
    assert!(!c.verbose);
    assert!(!c.silent);
}

#[test]
fn fields_all_absent_take_defaults() {
    let c = config_from_fields(None, None, None, None, None);
    assert!(c.directories.is_empty());
    assert_eq!(c.ignore, strings(&[".git"]));
    assert!(!c.parallel);
    assert!(!c.verbose);
    assert!(!c.silent);
}

#[test]
fn fields_present_override_defaults() {
    let c = config_from_fields(
        Some(strings(&["x", "y"])),
        Some(strings(&["target", ".git"])),
        Some(true),
        Some(true),
        Some(true),
    );
    assert_eq!(c.directories, strings(&["x", "y"]));
    assert_eq!(c.ignore, strings(&["target", ".git"]));
    assert!(c.parallel);
    assert!(c.verbose);
    assert!(c.silent);
}

#[test]
fn explicit_ignore_overrides_default_entirely() {
    let c = config_from_fields(None, Some(strings(&["target"])), None, None, None);
    assert_eq!(c.ignore, strings(&["target"]));
}

#[test]
fn config_file_round_trip() {
    let text = "{\"ignore\":[\".git\"],\"verbose\":true}";
    let v: serde_json::Value = serde_json::from_str(text).unwrap();
    let (directories, ignore, parallel, verbose, silent) = fields_of(&v);
    let c = config_from_fields(directories, ignore, parallel, verbose, silent);
    assert!(c.directories.is_empty());
    assert_eq!(c.ignore, strings(&[".git"]));
    assert!(c.verbose);
    assert!(!c.silent);
    assert!(!c.parallel);
}

#[test]
fn unknown_fields_are_ignored() {
    let text = "{\"colour\":\"green\",\"silent\":true,\"jobs\":4}";
    let v: serde_json::Value = serde_json::from_str(text).unwrap();
    let (directories, ignore, parallel, verbose, silent) = fields_of(&v);
    let c = config_from_fields(directories, ignore, parallel, verbose, silent);
    assert!(c.silent);
    assert_eq!(c.ignore, strings(&[".git"]));
    assert!(!c.parallel);
    assert!(!c.verbose);
}

#[test]
fn empty_directories_fall_back_to_current_directory() {
    let c = config_from_fields(None, None, None, None, None);
    let roots = effective_roots(&c);
    assert_eq!(roots, strings(&["."]));
}

#[test]
fn explicit_directories_are_the_roots() {
    let c = config_from_fields(Some(strings(&["a", "b"])), None, None, None, None);
    let roots = effective_roots(&c);
    assert_eq!(roots, strings(&["a", "b"]));
}
