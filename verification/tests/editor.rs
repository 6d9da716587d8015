use apollo::editor::{add, remove};
use apollo::error::DependencyError;
use toml::Table;

fn read(text: &str) -> Table {
    text.parse::<Table>().unwrap()
}

fn dependencies(text: &str) -> Table {
    read(text)["dependencies"].as_table().unwrap().clone()
}

const MANIFEST: &str =
    "[dependencies]\n\n[package]\nlib = \"init.luna\"\nname = \"mypkg\"\nversion = \"v0.1\"\n";

#[test]
fn add_to_an_empty_inline_table() {
    let text = add(Some("dependencies = {}\n"), "json").unwrap();
    let listed = dependencies(&text);
    assert_eq!(listed.len(), 1);
    assert_eq!(listed["json"].as_str(), Some("*"));
}

#[test]
fn add_text_is_exact() {
    assert_eq!(
        add(Some(MANIFEST), "json").unwrap(),
        "[dependencies]\njson = \"*\"\n\n[package]\nlib = \"init.luna\"\nname = \"mypkg\"\nversion = \"v0.1\"\n"
    );
}

#[test]
fn add_twice_leaves_one_entry() {
    let once = add(Some(MANIFEST), "foo").unwrap();
    let twice = add(Some(&once), "foo").unwrap();
    assert_eq!(twice, once);
    let listed = dependencies(&twice);
    assert_eq!(listed.len(), 1);
    assert_eq!(listed["foo"].as_str(), Some("*"));
}

#[test]
fn add_keeps_the_other_sections() {
    let text = "top = 1\n\n[package]\nname = \"p\"\nextra = [1, 2]\n\n[tool.thing]\non = true\n";
    let mut expected = read(text);
    let mut listed = Table::new();
    listed.insert("json".to_string(), toml::Value::String("*".to_string()));
    expected.insert("dependencies".to_string(), toml::Value::Table(listed));
    assert_eq!(read(&add(Some(text), "json").unwrap()), expected);
}

#[test]
fn add_without_a_manifest_is_no_package() {
    assert!(matches!(add(None, "json"), Err(DependencyError::NoPackage)));
}

#[test]
fn add_to_malformed_text_is_a_parse_error() {
    assert!(matches!(add(Some("[dependencies"), "json"), Err(DependencyError::ParsingTOML(_))));
}

#[test]
fn add_where_dependencies_is_a_string_fails() {
    let result = add(Some("dependencies = \"none\"\n"), "json");
    assert!(matches!(result, Err(DependencyError::DependenciesNotTable)));
}

#[test]
fn add_where_dependencies_is_an_array_fails() {
    let result = add(Some("dependencies = [\"json\"]\n"), "json");
    assert!(matches!(result, Err(DependencyError::DependenciesNotTable)));
}

#[test]
fn remove_of_an_unlisted_name_changes_nothing() {
    let text = "[dependencies]\nbar = \"*\"\n\n[package]\nname = \"p\"\n";
    let after = remove(Some(text), "foo").unwrap();
    assert_eq!(read(&after), read(text));
    assert_eq!(after, text);
}

#[test]
fn remove_from_a_manifest_without_the_section() {
    let after = remove(Some("[package]\nname = \"p\"\n"), "foo").unwrap();
    assert!(dependencies(&after).is_empty());
    assert_eq!(read(&after)["package"]["name"].as_str(), Some("p"));
}

#[test]
fn remove_undoes_add() {
    let text = "[dependencies]\nbar = \"1\"\n\n[package]\nname = \"p\"\n";
    let added = add(Some(text), "foo").unwrap();
    assert_eq!(dependencies(&added).len(), 2);
    let removed = remove(Some(&added), "foo").unwrap();
    assert_eq!(dependencies(&removed), dependencies(text));
    assert_eq!(read(&removed), read(text));
}

#[test]
fn remove_after_add_on_a_listed_name_drops_it() {
    let text = "[dependencies]\nfoo = \"1\"\n";
    let added = add(Some(text), "foo").unwrap();
    let removed = remove(Some(&added), "foo").unwrap();
    assert!(dependencies(&removed).is_empty());
}

#[test]
fn remove_text_is_exact() {
    let text = "[dependencies]\njson = \"*\"\n\n[package]\nlib = \"init.luna\"\nname = \"mypkg\"\nversion = \"v0.1\"\n";
    assert_eq!(remove(Some(text), "json").unwrap(), MANIFEST);
}

#[test]
fn remove_without_a_manifest_is_no_package() {
    assert!(matches!(remove(None, "json"), Err(DependencyError::NoPackage)));
}

#[test]
fn remove_from_malformed_text_is_a_parse_error() {
    assert!(matches!(remove(Some("a = "), "json"), Err(DependencyError::ParsingTOML(_))));
}

#[test]
fn remove_where_dependencies_is_a_string_fails() {
    let result = remove(Some("dependencies = \"none\"\n"), "json");
    assert!(matches!(result, Err(DependencyError::DependenciesNotTable)));
}
