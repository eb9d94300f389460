use dotfile::{
    package_managers_from_toml_string, CommandProxy, ErrorKind, PackageManager, RunStatus,
};

const VALID: &str = "name = \"pacman\"\n\n[install_command]\ncommand = \"sudo\"\nargs = [\"pacman\", \"-S\", \"--needed\", \"--noconfirm\"]\n\n[list_command]\ncommand = \"pacman\"\nargs = [\"-Qqen\"]\n";

const INVALID: &str = "name = \"pacman\"\n\n[install_command]\nargs = [\"pacman\", \"-S\"]\n";

fn strings(items: &[&str]) -> Vec<String> {
    items.iter().map(|s| s.to_string()).collect()
}

#[test]
fn valid_package_manager() {
    let package_manager = PackageManager::from_toml_string(VALID).unwrap();
    assert_eq!(package_manager.install_command.command, "sudo");
    assert_eq!(package_manager.install_command.args, vec!["pacman", "-S", "--needed", "--noconfirm"]);
    assert_eq!(package_manager.list_command.command, "pacman");
    assert_eq!(package_manager.list_command.args, ["-Qqen"]);
}

#[test]
#[should_panic]
fn invalid_package_manager() {
    PackageManager::from_toml_string(INVALID).unwrap();
}

#[test]
fn definition_errors_name_the_format() {
    let e = PackageManager::from_toml_string(INVALID).err().unwrap();
    assert_eq!(e.kind, ErrorKind::InvalidDefinitionFormat);
    let e = PackageManager::from_toml_string("this is = = not toml").err().unwrap();
    assert_eq!(e.kind, ErrorKind::InvalidDefinitionFormat);
    let mistyped = "name = 3\n[install_command]\ncommand = \"a\"\nargs = []\n[list_command]\ncommand = \"b\"\nargs = []\n";
    assert!(PackageManager::from_toml_string(mistyped).is_err());
    let bad_args = "name = \"x\"\n[install_command]\ncommand = \"a\"\nargs = [1]\n[list_command]\ncommand = \"b\"\nargs = []\n";
    assert!(PackageManager::from_toml_string(bad_args).is_err());
}

#[test]
fn pacman_definition_commands() {
    let text = "name = \"pacman\"\n[install_command]\ncommand = \"sudo\"\nargs = [\"pacman\",\"-S\",\"--needed\"]\n[list_command]\ncommand = \"pacman\"\nargs = [\"-Qqen\"]\n";
    let pm = PackageManager::from_toml_string(text).unwrap();
    assert_eq!(pm.name, "pacman");
    let invocation = pm.install(&strings(&["nano"]));
    assert_eq!(invocation.command, "sudo");
    assert_eq!(invocation.args, vec!["pacman", "-S", "--needed", "nano"]);
    assert_eq!(pm.list_command.command, "pacman");
    assert_eq!(pm.list_command.args, vec!["-Qqen"]);
    let listed = pm.list(Some(b"nano\tvim\n  git\r\nnano\n".to_vec())).unwrap();
    assert_eq!(listed, vec!["nano", "vim", "git", "nano"]);
}

#[test]
fn list_errors() {
    let pm = PackageManager::from_toml_string(VALID).unwrap();
    let e = pm.list(None).err().unwrap();
    assert_eq!(e.kind, ErrorKind::CommandFailedToRun);
    assert_eq!(e.subject, "pacman");
    let e = pm.list(Some(vec![0x66, 0xff, 0x20])).err().unwrap();
    assert_eq!(e.kind, ErrorKind::InvalidOutputEncoding);
    assert_eq!(pm.list(Some(Vec::new())).unwrap(), Vec::<String>::new());
    assert_eq!(pm.list(Some("ä\u{a0}ö".as_bytes().to_vec())).unwrap(), vec!["ä", "ö"]);
}

#[test]
fn install_results() {
    let pm = PackageManager::from_toml_string(VALID).unwrap();
    assert!(pm.install_result(RunStatus::Exited(true)).is_ok());
    assert_eq!(pm.install_result(RunStatus::Exited(false)).err().unwrap().kind, ErrorKind::CommandReturnedError);
    assert_eq!(pm.install_result(RunStatus::NotStarted).err().unwrap().kind, ErrorKind::CommandFailedToRun);
}

#[test]
fn check_for_packages_uses_listing() {
    let pm = PackageManager::from_toml_string(VALID).unwrap();
    let out = || Some(b"nano vim git".to_vec());
    assert!(pm.check_for_packages(out(), &strings(&["vim", "nano"])).unwrap());
    assert!(!pm.check_for_packages(out(), &strings(&["vim", "emacs"])).unwrap());
    assert!(pm.check_for_packages(out(), &Vec::new()).unwrap());
    assert_eq!(pm.check_for_packages(None, &strings(&["vim"])).err().unwrap().kind, ErrorKind::CommandFailedToRun);
}

#[test]
fn build_keeps_commands() {
    let install = CommandProxy { command: "yay".to_string(), args: strings(&["-S"]) };
    let list = CommandProxy { command: "pacman".to_string(), args: strings(&["-Qqem"]) };
    let pm = PackageManager::build("yay", install, list);
    assert_eq!(pm.name, "yay");
    assert_eq!(pm.install_command.command, "yay");
    assert_eq!(pm.list_command.args, vec!["-Qqem"]);
}

#[test]
fn multi_definition_file() {
    let text = "[[package_managers]]\nname = \"pacman\"\n[package_managers.install_command]\ncommand = \"sudo\"\nargs = [\"pacman\", \"-S\"]\n[package_managers.list_command]\ncommand = \"pacman\"\nargs = [\"-Qqen\"]\n\n[[package_managers]]\nname = \"yay\"\n[package_managers.install_command]\ncommand = \"yay\"\nargs = [\"-S\"]\n[package_managers.list_command]\ncommand = \"pacman\"\nargs = [\"-Qqem\"]\n";
    let managers = package_managers_from_toml_string(text).unwrap();
    assert_eq!(managers.len(), 2);
    assert_eq!(managers[0].name, "pacman");
    assert_eq!(managers[1].name, "yay");
    assert_eq!(managers[1].list_command.args, vec!["-Qqem"]);
}

#[test]
fn duplicate_names_in_one_file_are_rejected() {
    let entry = "[[package_managers]]\nname = \"pacman\"\n[package_managers.install_command]\ncommand = \"sudo\"\nargs = []\n[package_managers.list_command]\ncommand = \"pacman\"\nargs = []\n";
    let text = format!("{}\n{}", entry, entry);
    let e = package_managers_from_toml_string(&text).err().unwrap();
    assert_eq!(e.kind, ErrorKind::DuplicateManagerName);
    assert_eq!(e.subject, "pacman");
    let e = package_managers_from_toml_string("package_managers = 3").err().unwrap();
    assert_eq!(e.kind, ErrorKind::InvalidDefinitionFormat);
}
