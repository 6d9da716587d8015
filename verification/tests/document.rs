use apollo::document::Document;
use toml::{Table, Value};

fn read(text: &str) -> Table {
    text.parse::<Table>().unwrap()
}

fn text_at<'a>(table: &'a Table, section: &str, key: &str) -> Option<&'a str> {
    table.get(section)?.as_table()?.get(key)?.as_str()
}

#[test]
fn fresh_manifest_describes_the_package() {
    let written = read(&Document::fresh("mypkg").encode());
    assert_eq!(text_at(&written, "package", "name"), Some("mypkg"));
    assert_eq!(text_at(&written, "package", "version"), Some("v0.1"));
    assert_eq!(text_at(&written, "package", "lib"), Some("init.luna"));
    assert_eq!(written["package"].as_table().unwrap().len(), 3);
    assert!(written["dependencies"].as_table().unwrap().is_empty());
    assert_eq!(written.len(), 2);
}

#[test]
fn fresh_manifest_text_is_exact() {
    assert_eq!(
        Document::fresh("mypkg").encode(),
        "[dependencies]\n\n[package]\nlib = \"init.luna\"\nname = \"mypkg\"\nversion = \"v0.1\"\n"
    );
}

#[test]
fn fresh_manifest_is_the_table_built_by_hand() {
    let mut package = Table::new();
    package.insert("name".to_string(), Value::String("mypkg".to_string()));
    package.insert("version".to_string(), Value::String("v0.1".to_string()));
    package.insert("lib".to_string(), Value::String("init.luna".to_string()));
    let mut table = Table::new();
    table.insert("package".to_string(), Value::Table(package));
    table.insert("dependencies".to_string(), Value::Table(Table::new()));
    assert_eq!(Document::fresh("mypkg").encode(), table.to_string());
}

#[test]
fn scaffolded_manifest_survives_a_round_trip() {
    for name in ["mypkg", "a", "with space", "quote\"d", "back\\slash", "ünïcödé", "line\nbreak", ""] {
        let text = Document::fresh(name).encode();
        let again = Document::decode(&text).unwrap().encode();
        assert_eq!(again, text);
        let written = read(&again);
        assert_eq!(text_at(&written, "package", "name"), Some(name));
        assert_eq!(text_at(&written, "package", "version"), Some("v0.1"));
        assert_eq!(text_at(&written, "package", "lib"), Some("init.luna"));
        assert!(written["dependencies"].as_table().unwrap().is_empty());
    }
}

#[test]
fn decode_rejects_malformed_text() {
    assert!(Document::decode("name = ").is_err());
    assert!(Document::decode("[package").is_err());
    assert!(Document::decode("a = 1\na = 2").is_err());
}

#[test]
fn decode_accepts_the_empty_text() {
    assert_eq!(Document::decode("").unwrap().encode(), "");
}

#[test]
fn decode_keeps_what_it_does_not_know() {
    let text = "answer = 42\nratio = 0.5\nflag = true\nlist = [1, 2, 3]\nday = 1979-05-27\n\n[extra]\nkey = \"value\"\n\n[extra.deep]\nmore = [\"a\", \"b\"]\n";
    let before = read(text);
    let after = read(&Document::decode(text).unwrap().encode());
    assert_eq!(after, before);
}

#[test]
fn add_dependency_lists_the_name_at_any_version() {
    let document = Document::fresh("mypkg").add_dependency("json").unwrap();
    let written = read(&document.encode());
    assert_eq!(text_at(&written, "dependencies", "json"), Some("*"));
    assert_eq!(written["dependencies"].as_table().unwrap().len(), 1);
    assert_eq!(text_at(&written, "package", "name"), Some("mypkg"));
}

#[test]
fn add_dependency_creates_the_missing_section() {
    let document = Document::decode("[package]\nname = \"p\"\n").unwrap();
    let written = read(&document.add_dependency("json").unwrap().encode());
    assert_eq!(text_at(&written, "dependencies", "json"), Some("*"));
    assert_eq!(text_at(&written, "package", "name"), Some("p"));
    assert_eq!(written.len(), 2);
}

#[test]
fn add_dependency_overwrites_an_entry() {
    let document = Document::decode("[dependencies]\njson = \"1.2\"\nother = \"3\"\n").unwrap();
    let written = read(&document.add_dependency("json").unwrap().encode());
    assert_eq!(text_at(&written, "dependencies", "json"), Some("*"));
    assert_eq!(text_at(&written, "dependencies", "other"), Some("3"));
    assert_eq!(written["dependencies"].as_table().unwrap().len(), 2);
}

#[test]
fn add_dependency_refuses_a_section_that_is_no_table() {
    let document = Document::decode("dependencies = \"oops\"\n").unwrap();
    let error = document.add_dependency("json").unwrap_err();
    assert!(matches!(error, apollo::error::DependencyError::DependenciesNotTable));
}

#[test]
fn remove_dependency_takes_the_name_off() {
    let document = Document::decode("[dependencies]\njson = \"*\"\nother = \"*\"\n").unwrap();
    let written = read(&document.remove_dependency("json").unwrap().encode());
    assert_eq!(written["dependencies"].as_table().unwrap().len(), 1);
    assert_eq!(text_at(&written, "dependencies", "other"), Some("*"));
}

#[test]
fn remove_dependency_creates_the_missing_section() {
    let document = Document::decode("[package]\nname = \"p\"\n").unwrap();
    let written = read(&document.remove_dependency("json").unwrap().encode());
    assert!(written["dependencies"].as_table().unwrap().is_empty());
    assert_eq!(text_at(&written, "package", "name"), Some("p"));
}

#[test]
fn remove_dependency_refuses_a_section_that_is_no_table() {
    let document = Document::decode("dependencies = 3\n").unwrap();
    let error = document.remove_dependency("json").unwrap_err();
    assert!(matches!(error, apollo::error::DependencyError::DependenciesNotTable));
}
