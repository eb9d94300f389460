//! Package-manager definition files, in TOML.
//!
//! A definition is a table with a string `name` and two tables
//! `install_command` and `list_command`, each with a string `command` and an
//! array of strings `args`. Other keys are ignored.

use vstd::prelude::*;

use crate::command::{CommandProxy, CommandView, ManagerView, PackageManager, PackageManagerProxy};
use crate::error::{ErrorKind, PacError};
use crate::text::names_of;

verus! {

#[verifier::external_type_specification]
#[verifier::external_body]
pub struct ExTomlValue(toml::Value);

#[verifier::external_type_specification]
#[verifier::external_body]
#[verifier::reject_recursive_types(K)]
#[verifier::reject_recursive_types(V)]
pub struct ExTomlMap<K, V>(toml::map::Map<K, V>);

#[verifier::external_type_specification]
#[verifier::external_body]
pub struct ExTomlError(toml::de::Error);

/// The top-level entries of the TOML document `text`, or `None` where `text`
/// is not a TOML document.
pub uninterp spec fn document_entries(text: Seq<char>) -> Option<Map<Seq<char>, toml::Value>>;

/// The entries of a TOML table, by key.
pub uninterp spec fn table_entries(t: toml::Table) -> Map<Seq<char>, toml::Value>;

/// The string a TOML value holds, if it is a string.
pub uninterp spec fn value_text(v: toml::Value) -> Option<Seq<char>>;

/// The items a TOML value holds, if it is an array.
pub uninterp spec fn value_items(v: toml::Value) -> Option<Seq<toml::Value>>;

/// The entries a TOML value holds, if it is a table.
pub uninterp spec fn value_entries(v: toml::Value) -> Option<Map<Seq<char>, toml::Value>>;

/// Relies on `toml::from_str` into a `toml::Table`: it parses a whole TOML
/// document and fails on text that is not one.
#[verifier::external_body]
fn parse_document(text: &str) -> (r: Result<toml::Table, toml::de::Error>)
    ensures
        r is Ok <==> document_entries(text@) is Some,
        r matches Ok(t) ==> Some(table_entries(t)) == document_entries(text@),
{
    toml::from_str::<toml::Table>(text)
}

/// Relies on `toml::map::Map::get`: the value stored under `key`, if any.
#[verifier::external_body]
fn entry<'a>(t: &'a toml::Table, key: &str) -> (r: Option<&'a toml::Value>)
    ensures
        r is Some <==> table_entries(*t).contains_key(key@),
        r matches Some(v) ==> *v == table_entries(*t)[key@],
{
    t.get(key)
}

/// Relies on `toml::Value::as_str`: the string of a string value.
pub assume_specification<'a>[ toml::Value::as_str ](v: &'a toml::Value) -> (r: Option<&'a str>)
    ensures
        r is Some <==> value_text(*v) is Some,
        r matches Some(s) ==> Some(s@) == value_text(*v),
;

/// Relies on `toml::Value::as_array`: the items of an array value.
pub assume_specification<'a>[ toml::Value::as_array ](v: &'a toml::Value) -> (r: Option<
    &'a Vec<toml::Value>,
>)
    ensures
        r is Some <==> value_items(*v) is Some,
        r matches Some(a) ==> Some(a@) == value_items(*v),
;

/// Relies on `toml::Value::as_table`: the table of a table value.
pub assume_specification<'a>[ toml::Value::as_table ](v: &'a toml::Value) -> (r: Option<
    &'a toml::Table,
>)
    ensures
        r is Some <==> value_entries(*v) is Some,
        r matches Some(t) ==> Some(table_entries(*t)) == value_entries(*v),
;

/// The strings that `items` hold, where every one of them is a string.
pub open spec fn texts_of(items: Seq<toml::Value>) -> Option<Seq<Seq<char>>> {
    if forall|i: int| 0 <= i < items.len() ==> (#[trigger] value_text(items[i])) is Some {
        Some(items.map_values(|v: toml::Value| value_text(v)->Some_0))
    } else {
        None
    }
}

/// The string stored under `key` in `m`, if there is one.
pub open spec fn text_at(m: Map<Seq<char>, toml::Value>, key: Seq<char>) -> Option<Seq<char>> {
    if m.contains_key(key) {
        value_text(m[key])
    } else {
        None
    }
}

/// The strings of the array stored under `key` in `m`, if it is one of strings.
pub open spec fn texts_at(m: Map<Seq<char>, toml::Value>, key: Seq<char>) -> Option<Seq<Seq<char>>> {
    if m.contains_key(key) && value_items(m[key]) is Some {
        texts_of(value_items(m[key])->Some_0)
    } else {
        None
    }
}

/// The command that a table with entries `m` states.
pub open spec fn command_in(m: Map<Seq<char>, toml::Value>) -> Option<CommandView> {
    match (text_at(m, "command"@), texts_at(m, "args"@)) {
        (Some(program), Some(args)) => Some(CommandView { program, args }),
        _ => None,
    }
}

/// The command stored as a table under `key` in `m`.
pub open spec fn command_at(m: Map<Seq<char>, toml::Value>, key: Seq<char>) -> Option<CommandView> {
    if m.contains_key(key) && value_entries(m[key]) is Some {
        command_in(value_entries(m[key])->Some_0)
    } else {
        None
    }
}

/// The package manager that a table with entries `m` defines.
pub open spec fn manager_in(m: Map<Seq<char>, toml::Value>) -> Option<ManagerView> {
    match (text_at(m, "name"@), command_at(m, "install_command"@), command_at(m, "list_command"@)) {
        (Some(name), Some(install), Some(list)) => Some(ManagerView { name, install, list }),
        _ => None,
    }
}

/// The package manager that the definition file with text `text` defines.
pub open spec fn definition_of(text: Seq<char>) -> Option<ManagerView> {
    match document_entries(text) {
        Some(m) => manager_in(m),
        None => None,
    }
}

/// The strings of the array stored under `key` in `t`.
fn read_texts(t: &toml::Table, key: &str) -> (r: Option<Vec<String>>)
    ensures
        r is Some <==> texts_at(table_entries(*t), key@) is Some,
        r matches Some(v) ==> Some(names_of(v@)) == texts_at(table_entries(*t), key@),
{
    let items = match entry(t, key) {
        Some(v) => match v.as_array() {
            Some(a) => a,
            None => return None,
        },
        None => return None,
    };
    let ghost want = items@.map_values(|v: toml::Value| value_text(v)->Some_0);
    let mut r: Vec<String> = Vec::new();
    let mut i: usize = 0;
    while i < items.len()
        invariant
            i <= items.len(),
            want == items@.map_values(|v: toml::Value| value_text(v)->Some_0),
            table_entries(*t).contains_key(key@),
            Some(items@) == value_items(table_entries(*t)[key@]),
            forall|j: int| 0 <= j < i ==> (#[trigger] value_text(items@[j])) is Some,
            names_of(r@) == want.take(i as int),
        decreases items.len() - i,
    {
        match items[i].as_str() {
            Some(s) => {
                let ghost before = r@;
                r.push(String::from_str(s));
                assert(want[i as int] == s@);
                assert(names_of(r@) =~= want.take(i + 1)) by {
                    assert(names_of(r@) =~= names_of(before).push(s@));
                }
            },
            None => {
                assert(value_text(items@[i as int]) is None);
                return None;
            },
        }
        i = i + 1;
    }
    assert(want.take(i as int) =~= want);
    Some(r)
}

/// The string stored under `key` in `t`.
fn read_text(t: &toml::Table, key: &str) -> (r: Option<String>)
    ensures
        r is Some <==> text_at(table_entries(*t), key@) is Some,
        r matches Some(s) ==> Some(s@) == text_at(table_entries(*t), key@),
{
    match entry(t, key) {
        Some(v) => match v.as_str() {
            Some(s) => Some(String::from_str(s)),
            None => None,
        },
        None => None,
    }
}

/// The command stored as a table under `key` in `t`.
fn read_command(t: &toml::Table, key: &str) -> (r: Option<CommandProxy>)
    ensures
        r is Some <==> command_at(table_entries(*t), key@) is Some,
        r matches Some(c) ==> Some(c@) == command_at(table_entries(*t), key@),
{
    let inner = match entry(t, key) {
        Some(v) => match v.as_table() {
            Some(inner) => inner,
            None => return None,
        },
        None => return None,
    };
    let command = read_text(inner, "command");
    let args = read_texts(inner, "args");
    match (command, args) {
        (Some(command), Some(args)) => Some(CommandProxy { command, args }),
        _ => None,
    }
}

impl PackageManagerProxy {
    /// The package manager that the table `t` defines, if it is a definition.
    pub fn from_table(t: &toml::Table) -> (r: Option<PackageManagerProxy>)
        ensures
            r is Some <==> manager_in(table_entries(*t)) is Some,
            r matches Some(p) ==> Some(p@) == manager_in(table_entries(*t)),
    {
        let name = read_text(t, "name");
        let install_command = read_command(t, "install_command");
        let list_command = read_command(t, "list_command");
        match (name, install_command, list_command) {
            (Some(name), Some(install_command), Some(list_command)) => Some(
                PackageManagerProxy { name, install_command, list_command },
            ),
            _ => None,
        }
    }
}

impl PackageManager {
    /// Parses a definition file's text into a package manager.
    pub fn from_toml_string(text: &str) -> (r: Result<PackageManager, PacError>)
        ensures
            r is Ok <==> definition_of(text@) is Some,
            r matches Ok(m) ==> Some(m@) == definition_of(text@),
            r matches Err(e) ==> e@ == (ErrorKind::InvalidDefinitionFormat, Seq::<char>::empty()),
    {
        let invalid = PacError::new(ErrorKind::InvalidDefinitionFormat, String::new());
        match parse_document(text) {
            Ok(t) => match PackageManagerProxy::from_table(&t) {
                Some(p) => Ok(PackageManager::from(p)),
                None => Err(invalid),
            },
            Err(_) => Err(invalid),
        }
    }
}

/// The views of a sequence of package managers.
pub open spec fn managers_view(v: Seq<PackageManager>) -> Seq<ManagerView> {
    v.map_values(|m: PackageManager| m@)
}

/// The package managers that the tables `items` define, where each is a definition.
pub open spec fn managers_in(items: Seq<toml::Value>) -> Option<Seq<ManagerView>> {
    if forall|i: int|
        0 <= i < items.len() ==> (#[trigger] value_entries(items[i])) is Some && manager_in(
            value_entries(items[i])->Some_0,
        ) is Some {
        Some(items.map_values(|v: toml::Value| manager_in(value_entries(v)->Some_0)->Some_0))
    } else {
        None
    }
}

/// The package managers that a file of several definitions, an array of tables
/// under `package_managers`, defines.
pub open spec fn definitions_of(text: Seq<char>) -> Option<Seq<ManagerView>> {
    match document_entries(text) {
        Some(m) => if m.contains_key("package_managers"@) && value_items(
            m["package_managers"@],
        ) is Some {
            managers_in(value_items(m["package_managers"@])->Some_0)
        } else {
            None
        },
        None => None,
    }
}

/// Whether the `j`th of `ms` has the name of one before it.
pub open spec fn repeats_earlier(ms: Seq<ManagerView>, j: int) -> bool {
    exists|i: int| 0 <= i < j && (#[trigger] ms[i]).name == ms[j].name
}

/// Whether no two of `ms` share a name.
pub open spec fn names_distinct(ms: Seq<ManagerView>) -> bool {
    forall|j: int| 0 <= j < ms.len() ==> !(#[trigger] repeats_earlier(ms, j))
}

/// Parses a file that defines several package managers. The whole file is
/// rejected where two of them share a name.
pub fn package_managers_from_toml_string(text: &str) -> (r: Result<Vec<PackageManager>, PacError>)
    ensures
        r is Ok <==> definitions_of(text@) is Some && names_distinct(definitions_of(text@)->Some_0),
        r matches Ok(v) ==> Some(managers_view(v@)) == definitions_of(text@),
        r matches Err(e) ==> match definitions_of(text@) {
            None => e@ == (ErrorKind::InvalidDefinitionFormat, Seq::<char>::empty()),
            Some(ms) => e.kind == ErrorKind::DuplicateManagerName && exists|j: int|
                0 <= j < ms.len() && #[trigger] repeats_earlier(ms, j) && e.subject@ == ms[j].name
                    && forall|k: int| 0 <= k < j ==> !repeats_earlier(ms, k),
        },
{
    let invalid = PacError::new(ErrorKind::InvalidDefinitionFormat, String::new());
    let t = match parse_document(text) {
        Ok(t) => t,
        Err(_) => return Err(invalid),
    };
    let items = match entry(&t, "package_managers") {
        Some(v) => match v.as_array() {
            Some(a) => a,
            None => return Err(invalid),
        },
        None => return Err(invalid),
    };
    let ghost want = items@.map_values(
        |v: toml::Value| manager_in(value_entries(v)->Some_0)->Some_0,
    );
    let mut r: Vec<PackageManager> = Vec::new();
    let mut i: usize = 0;
    while i < items.len()
        invariant
            i <= items.len(),
            want == items@.map_values(
                |v: toml::Value| manager_in(value_entries(v)->Some_0)->Some_0,
            ),
            document_entries(text@) == Some(table_entries(t)),
            table_entries(t).contains_key("package_managers"@),
            Some(items@) == value_items(table_entries(t)["package_managers"@]),
            forall|j: int|
                0 <= j < i ==> (#[trigger] value_entries(items@[j])) is Some && manager_in(
                    value_entries(items@[j])->Some_0,
                ) is Some,
            managers_view(r@) == want.take(i as int),
            invalid@ == (ErrorKind::InvalidDefinitionFormat, Seq::<char>::empty()),
        decreases items.len() - i,
    {
        let parsed = match items[i].as_table() {
            Some(inner) => PackageManagerProxy::from_table(inner),
            None => None,
        };
        match parsed {
            Some(p) => {
                let ghost before = r@;
                r.push(PackageManager::from(p));
                assert(managers_view(r@) =~= want.take(i + 1)) by {
                    assert(managers_view(r@) =~= managers_view(before).push(p@));
                }
            },
            None => {
                assert(!(value_entries(items@[i as int]) is Some && manager_in(
                    value_entries(items@[i as int])->Some_0,
                ) is Some));
                return Err(invalid);
            },
        }
        i = i + 1;
    }
    assert(want.take(i as int) =~= want);
    let ghost ms = want;
    assert(definitions_of(text@) == Some(ms));
    let mut seen = vstd::hash_set::StringHashSet::new();
    let mut j: usize = 0;
    while j < r.len()
        invariant
            j <= r.len(),
            managers_view(r@) == ms,
            definitions_of(text@) == Some(ms),
            forall|k: int| 0 <= k < j ==> !(#[trigger] repeats_earlier(ms, k)),
            forall|m: Seq<char>| #[trigger]
                seen@.contains(m) <==> exists|k: int| 0 <= k < j && (#[trigger] ms[k]).name == m,
        decreases r.len() - j,
    {
        let name = r[j].name.as_str();
        assert(ms[j as int].name == name@);
        if seen.contains(name) {
            let subject = String::from_str(name);
            assert(repeats_earlier(ms, j as int));
            return Err(PacError::new(ErrorKind::DuplicateManagerName, subject));
        }
        seen.insert(String::from_str(name));
        assert(!repeats_earlier(ms, j as int));
        j = j + 1;
    }
    Ok(r)
}

} // verus!
