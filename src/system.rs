//! Package systems: a package manager bound to the folder that holds its
//! package lists, and their discovery in a folder of such folders.

use vstd::prelude::*;

use crate::command::{ManagerView, PackageManager};
use crate::definition::definition_of;
use crate::error::{ErrorKind, PacError};

verus! {

/// Name of the package-manager definition file in a package-system folder.
pub const PACKAGE_MANAGER_FILENAME: &'static str = "package-manager.toml";

/// Name of the desired-packages file in a package-system folder.
pub const PACKAGES_FILENAME: &'static str = "installed-packages.txt";

/// Name of the excluded-packages file in a package-system folder.
pub const EXCLUDED_PACKAGES_FILENAME: &'static str = "excluded-packages.txt";

/// The start of a new definition file, before the package manager's name.
pub const TEMPLATE_HEAD: &'static str = "name = \"";

/// The rest of a new definition file, after the package manager's name.
pub const TEMPLATE_TAIL: &'static str = "\"\n\n[install_command]\ncommand = \"\"\nargs = []\n\n[list_command]\ncommand = \"\"\nargs = []\n";

/// The text of a new definition file for a package manager named `name`.
pub fn definition_template(name: &str) -> (r: String)
    ensures
        r@ == TEMPLATE_HEAD@ + name@ + TEMPLATE_TAIL@,
{
    let mut r = String::from_str(TEMPLATE_HEAD);
    r.append(name);
    r.append(TEMPLATE_TAIL);
    r
}

/// The files of a new package-system folder for a package manager named
/// `name`, with their texts: two empty package lists and a definition file
/// from the template.
pub fn new_package_system_files(name: &str) -> (r: Vec<(String, String)>)
    ensures
        r@.len() == 3,
        r@[0].0@ == PACKAGES_FILENAME@ && r@[0].1@ == Seq::<char>::empty(),
        r@[1].0@ == EXCLUDED_PACKAGES_FILENAME@ && r@[1].1@ == Seq::<char>::empty(),
        r@[2].0@ == PACKAGE_MANAGER_FILENAME@ && r@[2].1@ == TEMPLATE_HEAD@ + name@
            + TEMPLATE_TAIL@,
{
    let mut r: Vec<(String, String)> = Vec::new();
    r.push((String::from_str(PACKAGES_FILENAME), String::new()));
    r.push((String::from_str(EXCLUDED_PACKAGES_FILENAME), String::new()));
    r.push((String::from_str(PACKAGE_MANAGER_FILENAME), definition_template(name)));
    r
}

/// Package systems by name.
pub type PackageSystems = vstd::hash_map::StringHashMap<PackageSystem>;

/// What an attempt to read a text file found.
pub enum FileContents {
    /// There is no such file.
    Missing,
    /// The file exists but cannot be read as text.
    Unreadable,
    /// The file's text.
    Text(String),
}

/// What reading a file found, as values.
pub enum FileView {
    Missing,
    Unreadable,
    Text(Seq<char>),
}

impl View for FileContents {
    type V = FileView;

    open spec fn view(&self) -> FileView {
        match self {
            FileContents::Missing => FileView::Missing,
            FileContents::Unreadable => FileView::Unreadable,
            FileContents::Text(t) => FileView::Text(t@),
        }
    }
}

/// A candidate package-system folder: its path, its own name (the final
/// component of the path, where there is one) and what reading its
/// definition file found.
pub struct FolderEntry {
    pub path: String,
    pub name: Option<String>,
    pub definition: FileContents,
}

/// A candidate package-system folder, as values.
pub struct FolderView {
    pub path: Seq<char>,
    pub name: Option<Seq<char>>,
    pub definition: FileView,
}

impl View for FolderEntry {
    type V = FolderView;

    open spec fn view(&self) -> FolderView {
        FolderView {
            path: self.path@,
            name: match self.name {
                Some(n) => Some(n@),
                None => None,
            },
            definition: self.definition@,
        }
    }
}

/// A package manager and the folder that holds its package lists.
pub struct PackageSystem {
    name: String,
    package_manager: PackageManager,
    folder: String,
}

/// A package system, as values.
pub struct SystemView {
    pub name: Seq<char>,
    pub manager: ManagerView,
    pub folder: Seq<char>,
}

impl View for PackageSystem {
    type V = SystemView;

    closed spec fn view(&self) -> SystemView {
        SystemView { name: self.name@, manager: self.package_manager@, folder: self.folder@ }
    }
}

/// The package system that a folder yields, or the error it fails with. The
/// system is named after its folder, and its definition must give the same
/// name.
pub open spec fn system_from(e: FolderView) -> Result<SystemView, (ErrorKind, Seq<char>)> {
    match e.definition {
        FileView::Missing => Err((ErrorKind::NoPackageManagerFile, e.path)),
        FileView::Unreadable => Err((ErrorKind::FileUnreadable, e.path)),
        FileView::Text(t) => match definition_of(t) {
            None => Err((ErrorKind::InvalidDefinitionFormat, e.path)),
            Some(m) => match e.name {
                None => Err((ErrorKind::InvalidFolder, e.path)),
                Some(n) => if m.name == n {
                    Ok(SystemView { name: n, manager: m, folder: e.path })
                } else {
                    Err((ErrorKind::NameMismatch, e.path))
                },
            },
        },
    }
}

/// The package systems that the folders `es` yield, by name, a later folder
/// replacing an earlier one of the same name; or the error of the first
/// folder that fails.
pub open spec fn load(es: Seq<FolderView>) -> Result<Map<Seq<char>, SystemView>, (ErrorKind, Seq<char>)>
    decreases es.len(),
{
    if es.len() == 0 {
        Ok(Map::empty())
    } else {
        match load(es.drop_last()) {
            Err(e) => Err(e),
            Ok(m) => match system_from(es.last()) {
                Err(e) => Err(e),
                Ok(s) => Ok(m.insert(s.name, s)),
            },
        }
    }
}

/// The views of the package systems of a map.
pub open spec fn systems_view(m: Map<Seq<char>, PackageSystem>) -> Map<Seq<char>, SystemView> {
    m.map_values(|s: PackageSystem| s@)
}

impl PackageSystem {
    /// A package system named `name` whose package lists lie in `folder`.
    pub fn build(name: String, folder: &str, package_manager: PackageManager) -> (r: Self)
        ensures
            r@ == (SystemView { name: name@, manager: package_manager@, folder: folder@ }),
    {
        PackageSystem { name, package_manager, folder: String::from_str(folder) }
    }

    /// The package system of a folder: its definition file gives the package
    /// manager, the folder its name.
    pub fn from_folder(entry: FolderEntry) -> (r: Result<Self, PacError>)
        ensures
            match system_from(entry@) {
                Ok(s) => r matches Ok(p) && p@ == s,
                Err(e) => r matches Err(f) && f@ == e,
            },
    {
        let FolderEntry { path, name, definition } = entry;
        let text = match definition {
            FileContents::Missing => {
                return Err(PacError::new(ErrorKind::NoPackageManagerFile, path));
            },
            FileContents::Unreadable => {
                return Err(PacError::new(ErrorKind::FileUnreadable, path));
            },
            FileContents::Text(t) => t,
        };
        let manager = match PackageManager::from_toml_string(text.as_str()) {
            Ok(m) => m,
            Err(_) => {
                return Err(PacError::new(ErrorKind::InvalidDefinitionFormat, path));
            },
        };
        let name = match name {
            Some(n) => n,
            None => {
                return Err(PacError::new(ErrorKind::InvalidFolder, path));
            },
        };
        if manager.name != name {
            return Err(PacError::new(ErrorKind::NameMismatch, path));
        }
        Ok(PackageSystem { name, package_manager: manager, folder: path })
    }

    /// The package system's name.
    pub fn get_name(&self) -> (r: &String)
        ensures
            r@ == self@.name,
    {
        &self.name
    }

    /// The package manager.
    pub fn get_package_manager(&self) -> (r: &PackageManager)
        ensures
            r@ == self@.manager,
    {
        &self.package_manager
    }

    /// The folder that holds the package lists.
    pub fn get_folder(&self) -> (r: &String)
        ensures
            r@ == self@.folder,
    {
        &self.folder
    }
}

/// Builds the package systems of the folders `entries`, by name. The first
/// folder that fails fails the whole load. Two folders of the same name are
/// not refused: the later one stays.
pub fn package_systems_from_folder(entries: Vec<FolderEntry>) -> (r: Result<
    vstd::hash_map::StringHashMap<PackageSystem>,
    PacError,
>)
    ensures
        match load(entries@.map_values(|e: FolderEntry| e@)) {
            Ok(m) => r matches Ok(p) && systems_view(p@) == m,
            Err(e) => r matches Err(f) && f@ == e,
        },
{
    let ghost all = entries@.map_values(|e: FolderEntry| e@);
    let mut systems = vstd::hash_map::StringHashMap::<PackageSystem>::new();
    let mut rest = entries;
    let n = rest.len();
    let mut i: usize = 0;
    assert(all.take(0) =~= Seq::<FolderView>::empty());
    assert(systems_view(systems@) =~= Map::<Seq<char>, SystemView>::empty());
    while rest.len() > 0
        invariant
            i + rest.len() == n,
            n == all.len(),
            all == entries@.map_values(|e: FolderEntry| e@),
            forall|k: int| 0 <= k < rest.len() ==> (#[trigger] rest@[k])@ == all[i + k],
            load(all.take(i as int)) == Ok::<Map<Seq<char>, SystemView>, (ErrorKind, Seq<char>)>(
                systems_view(systems@),
            ),
        decreases rest.len(),
    {
        let ghost r0 = rest@;
        let entry = rest.remove(0);
        assert(entry@ == all[i as int]);
        assert forall|k: int| 0 <= k < rest.len() implies (#[trigger] rest@[k])@ == all[i + 1 + k] by {
            assert(rest@[k] == r0[k + 1]);
        }
        assert(all.take(i + 1).drop_last() =~= all.take(i as int));
        assert(all.take(i + 1).last() == all[i as int]);
        let system = match PackageSystem::from_folder(entry) {
            Ok(s) => s,
            Err(e) => {
                proof {
                    lemma_load_fails_on(all, i as int + 1);
                }
                return Err(e);
            },
        };
        let ghost before = systems@;
        let key = String::from_str(system.name.as_str());
        systems.insert(key, system);
        assert(systems_view(systems@) =~= systems_view(before).insert(system@.name, system@));
        i = i + 1;
    }
    assert(all.take(i as int) =~= all);
    Ok(systems)
}

/// Once a prefix fails to load, every longer one fails with the same error.
proof fn lemma_load_fails_on(all: Seq<FolderView>, j: int)
    requires
        0 < j <= all.len(),
        load(all.take(j)) is Err,
    ensures
        load(all) == load(all.take(j)),
    decreases all.len() - j,
{
    if j < all.len() {
        assert(all.take(j + 1).drop_last() =~= all.take(j));
        lemma_load_fails_on(all, j + 1);
    } else {
        assert(all.take(j) =~= all);
    }
}

/// Discovery in a folder never refuses package systems for sharing a name:
/// where every folder yields a package system, the load succeeds, holds each
/// of their names, and gives for each name the system of the last folder
/// with it. No load fails with `DuplicateManagerName`.
pub proof fn law_loader_keeps_duplicate_names(es: Seq<FolderView>)
    ensures
        !(load(es) matches Err(e) && e.0 == ErrorKind::DuplicateManagerName),
        (forall|i: int| 0 <= i < es.len() ==> (#[trigger] system_from(es[i])) is Ok) ==> {
            &&& load(es) is Ok
            &&& forall|i: int|
                0 <= i < es.len() ==> (load(es)->Ok_0).contains_key(
                    (#[trigger] system_from(es[i]))->Ok_0.name,
                )
            &&& forall|i: int|
                0 <= i < es.len() && (forall|j: int|
                    i < j < es.len() ==> (#[trigger] system_from(es[j]))->Ok_0.name != system_from(
                        es[i],
                    )->Ok_0.name) ==> (load(es)->Ok_0)[(#[trigger] system_from(es[i]))->Ok_0.name]
                    == system_from(es[i])->Ok_0
        },
    decreases es.len(),
{
    if es.len() > 0 {
        let init = es.drop_last();
        law_loader_keeps_duplicate_names(init);
        if forall|i: int| 0 <= i < es.len() ==> (#[trigger] system_from(es[i])) is Ok {
            assert forall|i: int| 0 <= i < init.len() implies (#[trigger] system_from(init[i])) is Ok by {
                assert(init[i] == es[i]);
                assert(system_from(es[i]) is Ok);
            }
            assert(system_from(es[es.len() - 1]) is Ok);
            let m = load(init)->Ok_0;
            let last = system_from(es.last())->Ok_0;
            assert(load(es) == Ok::<Map<Seq<char>, SystemView>, (ErrorKind, Seq<char>)>(
                m.insert(last.name, last),
            ));
            assert forall|i: int| 0 <= i < es.len() implies (load(es)->Ok_0).contains_key(
                (#[trigger] system_from(es[i]))->Ok_0.name,
            ) by {
                if i < init.len() {
                    assert(init[i] == es[i]);
                    assert(m.contains_key(system_from(init[i])->Ok_0.name));
                }
            }
            assert forall|i: int|
                0 <= i < es.len() && (forall|j: int|
                    i < j < es.len() ==> (#[trigger] system_from(es[j]))->Ok_0.name != system_from(
                        es[i],
                    )->Ok_0.name) implies (load(es)->Ok_0)[(#[trigger] system_from(
                es[i],
            ))->Ok_0.name] == system_from(es[i])->Ok_0 by {
                if i < init.len() {
                    assert(init[i] == es[i]);
                    assert(system_from(es[es.len() - 1])->Ok_0.name != system_from(es[i])->Ok_0.name);
                    assert forall|j: int| i < j < init.len() implies (#[trigger] system_from(
                        init[j],
                    ))->Ok_0.name != system_from(init[i])->Ok_0.name by {
                        assert(init[j] == es[j]);
                        assert(system_from(es[j])->Ok_0.name != system_from(es[i])->Ok_0.name);
                    }
                }
            }
        }
    }
}

} // verus!
