use boxlib::config::{
    add_config_file, is_config_file_name, merge_configs, Config, ConfigError, ConfigFile,
};

fn config(name: &str, image: &str) -> Config {
    Config {
        name: name.to_string(),
        image: image.to_string(),
        container_name: None,
        dotfiles: None,
        default: None,
        podman: None,
        docker: None,
    }
}

fn names(cs: &[Config]) -> Vec<(String, String)> {
    cs.iter().map(|c| (c.name.clone(), c.image.clone())).collect()
}

#[test]
fn schema_version_absent_is_accepted() {
    let f = ConfigFile { version: None, config: Some(vec![config("a", "fedora")]) };
    let f = f.check_schema_version().ok().unwrap();
    assert_eq!(names(&f.config.unwrap()), vec![("a".to_string(), "fedora".to_string())]);
}

#[test]
fn schema_version_one_is_accepted() {
    let f = ConfigFile { version: Some(1), config: None };
    assert!(f.check_schema_version().is_ok());
}

#[test]
fn schema_version_other_is_refused() {
    let f = ConfigFile { version: Some(2), config: None };
    assert_eq!(f.check_schema_version().err(), Some(ConfigError::InvalidSchemaVersion(2)));
    let f = ConfigFile { version: Some(0), config: None };
    assert_eq!(f.check_schema_version().err(), Some(ConfigError::InvalidSchemaVersion(0)));
}

#[test]
fn config_file_names() {
    assert!(is_config_file_name("a.toml"));
    assert!(is_config_file_name("x.b.toml"));
    assert!(is_config_file_name("..toml"));
    assert!(!is_config_file_name(".toml"));
    assert!(!is_config_file_name("toml"));
    assert!(!is_config_file_name("a.tomlx"));
    assert!(!is_config_file_name("a.TOML"));
    assert!(!is_config_file_name("a.toml.bak"));
    assert!(!is_config_file_name(""));
}

#[test]
fn config_file_names_agree_with_std_path() {
    for n in ["a.toml", "x.b.toml", "..toml", ".toml", "toml", "a.tomlx", "a.", ".a.toml", "ü.toml"] {
        let std_says = std::path::Path::new(n).extension().unwrap_or_default() == "toml";
        assert_eq!(is_config_file_name(n), std_says, "{n}");
    }
}

#[test]
fn merge_first_wins_and_reports_duplicates() {
    let mut configs = vec![config("a", "fedora")];
    let ignored = merge_configs(
        &mut configs,
        vec![config("b", "debian"), config("a", "arch"), config("b", "alpine"), config("c", "ubuntu")],
    );
    assert_eq!(ignored, vec!["a".to_string(), "b".to_string()]);
    assert_eq!(
        names(&configs),
        vec![
            ("a".to_string(), "fedora".to_string()),
            ("b".to_string(), "debian".to_string()),
            ("c".to_string(), "ubuntu".to_string()),
        ]
    );
}

#[test]
fn merge_in_steps_equals_merge_at_once() {
    let mut stepwise = Vec::new();
    let mut ignored = merge_configs(&mut stepwise, vec![config("a", "1"), config("b", "2")]);
    ignored.extend(merge_configs(&mut stepwise, vec![config("b", "3"), config("c", "4")]));
    let mut at_once = Vec::new();
    let ignored_at_once = merge_configs(
        &mut at_once,
        vec![config("a", "1"), config("b", "2"), config("b", "3"), config("c", "4")],
    );
    assert_eq!(names(&stepwise), names(&at_once));
    assert_eq!(ignored, ignored_at_once);
}

#[test]
fn add_file_without_config_table() {
    let mut configs = vec![config("a", "fedora")];
    let ignored = add_config_file(&mut configs, ConfigFile { version: None, config: None });
    assert!(ignored.is_empty());
    assert_eq!(names(&configs), vec![("a".to_string(), "fedora".to_string())]);
}

#[test]
fn add_file_with_configs() {
    let mut configs = Vec::new();
    let ignored = add_config_file(
        &mut configs,
        ConfigFile { version: Some(1), config: Some(vec![config("x", "i"), config("x", "j")]) },
    );
    assert_eq!(ignored, vec!["x".to_string()]);
    assert_eq!(names(&configs), vec![("x".to_string(), "i".to_string())]);
}

#[test]
fn select_only_toml_entries_in_order() {
    let names: Vec<String> = ["b.txt", "a.toml", "c.toml.bak", "d.TOML", "README", "x.toml", ".toml"]
        .iter()
        .map(|s| s.to_string())
        .collect();
    assert_eq!(boxlib::config::select_config_files(&names), vec![1, 5]);
    assert!(boxlib::config::select_config_files(&Vec::new()).is_empty());
}
