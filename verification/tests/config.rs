use tork_core::config_tree::{insert_nested, override_path, secret_path, ConfigValue};
use tork_core::settings::{environment_name, environment_variable, resolve_file_path, variable_prefix};

fn path(parts: &[&str]) -> Vec<String> {
    parts.iter().map(|p| p.to_string()).collect()
}

fn leaf_at<'a>(entries: &'a [(String, ConfigValue<&'static str>)], parts: &[&str]) -> Option<&'a str> {
    let (first, rest) = parts.split_first()?;
    let (_, value) = entries.iter().find(|(k, _)| k == first)?;
    match value {
        ConfigValue::Leaf(v) if rest.is_empty() => Some(*v),
        ConfigValue::Table(inner) if !rest.is_empty() => leaf_at(inner, rest),
        _ => None,
    }
}

#[test]
fn read_secrets_and_insert_nested_cover_edge_cases() {
    let mut root: Vec<(String, ConfigValue<&'static str>)> = Vec::new();
    insert_nested(&mut root, &[], "ignored");
    assert!(root.is_empty());

    insert_nested(&mut root, &secret_path("TOKEN"), "shh");
    insert_nested(&mut root, &secret_path("DB__PORT"), "5432");
    assert_eq!(leaf_at(&root, &["token"]), Some("shh"));
    assert_eq!(leaf_at(&root, &["db", "port"]), Some("5432"));

    root.push(("cache".to_owned(), ConfigValue::Leaf("scalar")));
    insert_nested(&mut root, &path(&["cache", "host"]), "localhost");
    assert_eq!(leaf_at(&root, &["cache", "host"]), Some("localhost"));
    assert_eq!(leaf_at(&root, &["db", "port"]), Some("5432"));

    insert_nested(&mut root, &path(&["db"]), "replaced");
    assert_eq!(leaf_at(&root, &["db"]), Some("replaced"));
    assert_eq!(leaf_at(&root, &["db", "port"]), None);
    assert_eq!(root.len(), 3);
}

#[test]
fn paths_split_like_str_split() {
    assert_eq!(override_path("db.pool.size"), path(&["db", "pool", "size"]));
    assert_eq!(override_path("a..b"), path(&["a", "", "b"]));
    assert_eq!(override_path(""), path(&[""]));
    assert_eq!(secret_path("A___B"), path(&["a", "_b"]));
    assert_eq!(secret_path("DB__Host"), path(&["db", "host"]));
}

#[test]
fn environment_name_uses_prefix_and_default() {
    assert_eq!(environment_variable(None), "ENV");
    assert_eq!(environment_variable(Some("CFGTESTENV")), "CFGTESTENV_ENV");
    assert_eq!(environment_name(None), "development");
    assert_eq!(environment_name(Some("staging".to_owned())), "staging");
    assert_eq!(variable_prefix(Some("APP")), Some("APP_".to_owned()));
    assert_eq!(variable_prefix(None), None);
}

#[test]
fn environment_specific_files_name_the_environment() {
    assert_eq!(resolve_file_path("config/{env}.toml", "production"), "config/production.toml");
    assert_eq!(resolve_file_path("config/base.toml", "production"), "config/base.toml");
}
