use apollo::command::PackageCommand;

#[test]
fn init_with_a_name_uses_it() {
    let command = PackageCommand::Init { name: Some("given".to_string()) };
    assert_eq!(command.package_name(Some("dir")), Some("given".to_string()));
    assert_eq!(command.package_name(None), Some("given".to_string()));
}

#[test]
fn init_without_a_name_takes_the_directory_s() {
    let command = PackageCommand::Init { name: None };
    assert_eq!(command.package_name(Some("dir")), Some("dir".to_string()));
}

#[test]
fn init_without_any_name_has_none() {
    let command = PackageCommand::Init { name: None };
    assert_eq!(command.package_name(None), None);
}

#[test]
fn new_add_and_remove_name_their_argument() {
    let name = "json".to_string();
    assert_eq!(
        PackageCommand::New { name: name.clone() }.package_name(Some("dir")),
        Some(name.clone())
    );
    assert_eq!(
        PackageCommand::Add { name: name.clone() }.package_name(None),
        Some(name.clone())
    );
    assert_eq!(
        PackageCommand::Remove { name: name.clone() }.package_name(Some("dir")),
        Some(name)
    );
}

#[test]
fn update_names_nothing() {
    assert_eq!(PackageCommand::Update.package_name(Some("dir")), None);
}
