use dotfile::{
    check_installed, check_not_installed, contains_all, contains_none, new_package_system_files,
    package_systems_from_folder, CommandProxy, Effect, ErrorKind, Event, FileContents,
    FolderEntry, ListFile, Operation, PacCommand, PackageManager, PackageManagerArgs,
    PackageSystem, PathRemover, RunStatus, WriteStatus, EXCLUDED_PACKAGES_FILENAME,
    PACKAGES_FILENAME, PACKAGE_MANAGER_FILENAME,
};

fn definition(name: &str, install: &str, install_args: &[&str], list: &str, list_args: &[&str]) -> String {
    let quote = |a: &[&str]| a.iter().map(|s| format!("\"{}\"", s)).collect::<Vec<_>>().join(", ");
    format!(
        "name = \"{}\"\n\n[install_command]\ncommand = \"{}\"\nargs = [{}]\n\n[list_command]\ncommand = \"{}\"\nargs = [{}]\n",
        name,
        install,
        quote(install_args),
        list,
        quote(list_args)
    )
}

fn pacman_definition() -> String {
    definition("pacman", "sudo", &["pacman", "-S", "--needed", "--noconfirm"], "pacman", &["-Qqen"])
}

fn folder(path: &str, name: &str, definition: FileContents) -> FolderEntry {
    FolderEntry { path: path.to_string(), name: Some(name.to_string()), definition }
}

fn strings(items: &[&str]) -> Vec<String> {
    items.iter().map(|s| s.to_string()).collect()
}

fn pacman_system() -> PackageSystem {
    PackageSystem::from_folder(folder("systems/pacman", "pacman", FileContents::Text(pacman_definition()))).unwrap()
}

#[test]
fn works() {
    let name = "pacman";
    let files = new_package_system_files(name);
    let file_names: Vec<&str> = files.iter().map(|(n, _)| n.as_str()).collect();
    for file in [PACKAGES_FILENAME, EXCLUDED_PACKAGES_FILENAME, PACKAGE_MANAGER_FILENAME] {
        assert!(file_names.contains(&file), "Missing file: {}", file);
    }
    let correct = "name = \"pacman\"\n\n[install_command]\ncommand = \"\"\nargs = []\n\n[list_command]\ncommand = \"\"\nargs = []\n";
    let (_, contents) = files.iter().find(|(n, _)| n == PACKAGE_MANAGER_FILENAME).unwrap();
    assert_eq!(contents, correct);
    let (_, packages) = files.iter().find(|(n, _)| n == PACKAGES_FILENAME).unwrap();
    assert_eq!(packages, "");
    // the template parses once its commands are filled in
    let filled = contents.replace("command = \"\"", "command = \"x\"");
    assert_eq!(PackageManager::from_toml_string(&filled).unwrap().name, "pacman");
}

#[test]
fn build() {
    let folder = "package_systems";
    let empty = || CommandProxy { command: String::new(), args: Vec::new() };
    let package_system = PackageSystem::build(String::from("pacman"), folder, PackageManager::build("pacman", empty(), empty()));
    assert_eq!(package_system.get_folder(), folder);
    assert_eq!(package_system.get_name(), "pacman");
}

#[test]
fn from_folder() {
    let name = "test_package_system";
    let text = definition(name, "sudo", &["pacman", "-S"], "pacman", &["-Qq"]);
    let package_system = PackageSystem::from_folder(folder("pac/test_package_system", name, FileContents::Text(text))).unwrap();
    assert_eq!(package_system.get_name(), name);
}

#[test]
fn from_folder_errors() {
    let e = PackageSystem::from_folder(folder("p/x", "x", FileContents::Missing)).err().unwrap();
    assert_eq!((e.kind, e.subject.as_str()), (ErrorKind::NoPackageManagerFile, "p/x"));
    let e = PackageSystem::from_folder(folder("p/x", "x", FileContents::Unreadable)).err().unwrap();
    assert_eq!(e.kind, ErrorKind::FileUnreadable);
    let e = PackageSystem::from_folder(folder("p/x", "x", FileContents::Text("name =".to_string()))).err().unwrap();
    assert_eq!(e.kind, ErrorKind::InvalidDefinitionFormat);
    let e = PackageSystem::from_folder(folder("p/yay", "yay", FileContents::Text(pacman_definition()))).err().unwrap();
    assert_eq!(e.kind, ErrorKind::NameMismatch);
    let no_name = FolderEntry { path: "/".to_string(), name: None, definition: FileContents::Text(pacman_definition()) };
    assert_eq!(PackageSystem::from_folder(no_name).err().unwrap().kind, ErrorKind::InvalidFolder);
}

#[test]
fn test_package_systems_from_folder() {
    let yay_definition = definition("yay", "yay", &["-S", "--needed", "--noconfirm"], "pacman", &["-Qqem"]);
    let entries = vec![
        folder("parser/test_package_systems/pacman", "pacman", FileContents::Text(pacman_definition())),
        folder("parser/test_package_systems/yay", "yay", FileContents::Text(yay_definition)),
    ];
    let package_managers = package_systems_from_folder(entries).unwrap();
    assert_eq!(package_managers.len(), 2);

    let pacman = package_managers.get("pacman").unwrap();
    assert_eq!(pacman.get_name(), "pacman");
    let pacman_manager = pacman.get_package_manager();
    assert_eq!(pacman_manager.install_command.command, "sudo");
    assert_eq!(pacman_manager.install_command.args, vec!["pacman", "-S", "--needed", "--noconfirm"]);
    assert_eq!(pacman_manager.list_command.command, "pacman");
    assert_eq!(pacman_manager.list_command.args, vec!["-Qqen"]);

    let yay = package_managers.get("yay").unwrap();
    assert_eq!(yay.get_name(), "yay");
    let yay_manager = yay.get_package_manager();
    assert_eq!(yay_manager.install_command.command, "yay");
    assert_eq!(yay_manager.install_command.args, vec!["-S", "--needed", "--noconfirm"]);
    assert_eq!(yay_manager.list_command.command, "pacman");
    assert_eq!(yay_manager.list_command.args, vec!["-Qqem"]);
}

#[test]
fn loader_fails_on_a_folder_without_definition() {
    let entries = vec![
        folder("root/pacman", "pacman", FileContents::Text(pacman_definition())),
        folder("root/empty", "empty", FileContents::Missing),
        folder("root/other", "other", FileContents::Text("broken".to_string())),
    ];
    let e = package_systems_from_folder(entries).err().unwrap();
    assert_eq!(e.kind, ErrorKind::NoPackageManagerFile);
    assert_eq!(e.subject, "root/empty");
    assert_eq!(package_systems_from_folder(Vec::new()).unwrap().len(), 0);
}

#[test]
fn loader_keeps_duplicate_names() {
    let entries = vec![
        folder("a/pacman", "pacman", FileContents::Text(pacman_definition())),
        folder("b/pacman", "pacman", FileContents::Text(pacman_definition())),
    ];
    let systems = package_systems_from_folder(entries).unwrap();
    assert_eq!(systems.len(), 1);
    assert_eq!(systems.get("pacman").unwrap().get_folder(), "b/pacman");
}

fn expect_run_interactive(effect: Effect) -> CommandProxy {
    match effect {
        Effect::RunInteractive(c) => c,
        _ => panic!("expected an interactive run"),
    }
}

#[test]
fn install_runs_install_command_with_listed_names() {
    let system = pacman_system();
    let (mut session, effect) = system.install();
    assert!(matches!(effect, Effect::ReadFile(ListFile::Packages)));
    let effect = system.advance(&mut session, Event::Read(FileContents::Text("nano\n\nvim\nnano\n".to_string())));
    let command = expect_run_interactive(effect);
    assert_eq!(command.command, "sudo");
    assert_eq!(command.args, vec!["pacman", "-S", "--needed", "--noconfirm", "nano", "vim"]);
    let effect = system.advance(&mut session, Event::Ran(RunStatus::Exited(true)));
    assert!(matches!(effect, Effect::Finished(Ok(()))));
    assert!(session.is_done());
}

#[test]
fn install_errors() {
    let system = pacman_system();
    let (mut session, _) = system.start(Operation::Install);
    match system.advance(&mut session, Event::Read(FileContents::Missing)) {
        Effect::Finished(Err(e)) => assert_eq!(e.kind, ErrorKind::PackagesFileUnreadable),
        _ => panic!("expected a failure"),
    }
    let (mut session, _) = system.start(Operation::Install);
    system.advance(&mut session, Event::Read(FileContents::Text(String::new())));
    match system.advance(&mut session, Event::Ran(RunStatus::Exited(false))) {
        Effect::Finished(Err(e)) => assert_eq!((e.kind, e.subject.as_str()), (ErrorKind::CommandReturnedError, "pacman")),
        _ => panic!("expected a failure"),
    }
    let (mut session, _) = system.start(Operation::Install);
    system.advance(&mut session, Event::Read(FileContents::Text(String::new())));
    match system.advance(&mut session, Event::Ran(RunStatus::NotStarted)) {
        Effect::Finished(Err(e)) => assert_eq!(e.kind, ErrorKind::CommandFailedToRun),
        _ => panic!("expected a failure"),
    }
}

#[test]
fn upload() {
    let system = pacman_system();
    let (mut session, effect) = system.upload();
    match effect {
        Effect::RunCaptured(c) => {
            assert_eq!(c.command, "pacman");
            assert_eq!(c.args, vec!["-Qqen"]);
        }
        _ => panic!("expected a captured run"),
    }
    let output = b"nano\ntrash-cli\ngit\nzsh\ngit\n".to_vec();
    let effect = system.advance(&mut session, Event::Captured(Some(output)));
    assert!(matches!(effect, Effect::ReadFile(ListFile::Excluded)));
    let effect = system.advance(&mut session, Event::Read(FileContents::Text("nano\ntrash-cli\nnano\n".to_string())));
    let written = match effect {
        Effect::WriteFile(ListFile::Packages, text) => text,
        _ => panic!("expected a write"),
    };
    assert_eq!(written, "git\nzsh\n");
    let uploaded = dotfile::read_names(&written);
    assert!(contains_none(&uploaded, &strings(&["nano", "trash-cli"])));
    assert!(contains_all(&strings(&["nano", "trash-cli", "git", "zsh"]), &uploaded));
    let effect = system.advance(&mut session, Event::Wrote(WriteStatus::Written));
    assert!(matches!(effect, Effect::Finished(Ok(()))));
}

#[test]
fn upload_errors() {
    let system = pacman_system();
    let kind_of = |effect: Effect| match effect {
        Effect::Finished(Err(e)) => e.kind,
        _ => panic!("expected a failure"),
    };
    let (mut s, _) = system.start(Operation::Upload);
    assert_eq!(kind_of(system.advance(&mut s, Event::Captured(None))), ErrorKind::CommandFailedToRun);
    let (mut s, _) = system.start(Operation::Upload);
    assert_eq!(kind_of(system.advance(&mut s, Event::Captured(Some(vec![0xc3])))), ErrorKind::InvalidOutputEncoding);
    let (mut s, _) = system.start(Operation::Upload);
    system.advance(&mut s, Event::Captured(Some(b"a".to_vec())));
    assert_eq!(kind_of(system.advance(&mut s, Event::Read(FileContents::Unreadable))), ErrorKind::ExcludedFileUnreadable);
    let (mut s, _) = system.start(Operation::Upload);
    system.advance(&mut s, Event::Captured(Some(b"a".to_vec())));
    system.advance(&mut s, Event::Read(FileContents::Text(String::new())));
    assert_eq!(kind_of(system.advance(&mut s, Event::Wrote(WriteStatus::CreateFailed))), ErrorKind::FileCreateFailed);
    let (mut s, _) = system.start(Operation::Upload);
    system.advance(&mut s, Event::Captured(Some(b"a".to_vec())));
    system.advance(&mut s, Event::Read(FileContents::Text(String::new())));
    assert_eq!(kind_of(system.advance(&mut s, Event::Wrote(WriteStatus::WriteFailed))), ErrorKind::WriteFailed);
}

#[test]
fn sync_installs_then_uploads() {
    let system = pacman_system();
    let (mut session, effect) = system.sync();
    assert!(matches!(effect, Effect::ReadFile(ListFile::Packages)));
    let effect = system.advance(&mut session, Event::Read(FileContents::Text("git\n".to_string())));
    assert_eq!(expect_run_interactive(effect).args.last().unwrap(), "git");
    let effect = system.advance(&mut session, Event::Ran(RunStatus::Exited(true)));
    assert!(matches!(effect, Effect::RunCaptured(_)));
    let effect = system.advance(&mut session, Event::Captured(Some(b"git vim".to_vec())));
    assert!(matches!(effect, Effect::ReadFile(ListFile::Excluded)));
    let effect = system.advance(&mut session, Event::Read(FileContents::Text("vim\n".to_string())));
    assert!(matches!(effect, Effect::WriteFile(ListFile::Packages, ref t) if t == "git\n"));
    let effect = system.advance(&mut session, Event::Wrote(WriteStatus::Written));
    assert!(matches!(effect, Effect::Finished(Ok(()))));
}

#[test]
fn sync_stops_when_install_fails() {
    let system = pacman_system();
    let (mut session, _) = system.start(Operation::Sync);
    system.advance(&mut session, Event::Read(FileContents::Text("git\n".to_string())));
    let effect = system.advance(&mut session, Event::Ran(RunStatus::Exited(false)));
    assert!(matches!(effect, Effect::Finished(Err(ref e)) if e.kind == ErrorKind::CommandReturnedError));
    assert!(session.is_done());
    assert!(!session.expects(&Event::Captured(None)));
}

#[test]
fn exclude_and_reinclude() {
    let system = pacman_system();
    let update = system
        .exclude(FileContents::Text("nano\n".to_string()), Ok(strings(&["nano", "vim"])), &strings(&["vim", "emacs", "nano"]))
        .unwrap();
    assert_eq!(update.contents, "nano\nvim\nemacs\n");
    assert_eq!(update.warnings, vec!["emacs"]);
    let e = system.exclude(FileContents::Missing, Ok(Vec::new()), &strings(&["vim"])).err().unwrap();
    assert_eq!(e.kind, ErrorKind::ExcludedFileUnreadable);
    let listed_error = dotfile::PacError::new(ErrorKind::CommandFailedToRun, "pacman".to_string());
    let e = system.exclude(FileContents::Missing, Err(listed_error), &strings(&["vim"])).err().unwrap();
    assert_eq!(e.kind, ErrorKind::CommandFailedToRun);

    let update = system.reinclude(FileContents::Text("nano\nvim\nemacs\n".to_string()), &strings(&["vim", "zsh"])).unwrap();
    assert_eq!(update.contents, "nano\nemacs\n");
    assert_eq!(update.warnings, vec!["zsh"]);
}

#[test]
fn list_membership() {
    let installed = ["nano", "vim", "git"];
    assert!(check_installed(&installed, &["vim", "nano"]));
    assert!(!check_installed(&installed, &["vim", "emacs"]));
    assert!(check_not_installed(&installed, &["emacs", "zsh"]));
    assert!(!check_not_installed(&installed, &["emacs", "git"]));
    assert!(contains_all(&[1, 2, 3], &[3, 1]));
    assert!(!contains_all(&[1, 2, 3], &[4]));
    assert!(contains_none(&[1, 2, 3], &[4, 5]));
    assert!(!contains_none(&[1, 2, 3], &[5, 2]));
    assert!(contains_all::<u8>(&[], &[]));
}

#[test]
fn path_remover_records_path() {
    let remover = PathRemover::new("tmp/upload/installed-packages.txt");
    assert_eq!(remover.get_path(), "tmp/upload/installed-packages.txt");
}

#[test]
fn command_requests() {
    let named = PacCommand::Sync(PackageManagerArgs { package_manager_name: Some("yay".to_string()) });
    assert_eq!(named.target().as_deref(), Some("yay"));
    assert_eq!(named.operation(), Some(Operation::Sync));
    let exclude = PacCommand::Exclude { target: PackageManagerArgs { package_manager_name: None }, packages: strings(&["vim"]) };
    assert_eq!(exclude.target(), &None);
    assert_eq!(exclude.operation(), None);
}
