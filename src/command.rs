//! Commands as data, and package managers built from them.

use vstd::prelude::*;

use vstd::utf8::{decode_utf8, valid_utf8};

use crate::error::{ErrorKind, PacError};
use crate::protocol::RunStatus;
use crate::text::{decode_text, names_of, split_words, words};

verus! {

/// A command: a program and the arguments it always gets.
pub struct CommandProxy {
    pub command: String,
    pub args: Vec<String>,
}

/// What a command is: its program and arguments.
pub struct CommandView {
    pub program: Seq<char>,
    pub args: Seq<Seq<char>>,
}

impl View for CommandProxy {
    type V = CommandView;

    open spec fn view(&self) -> CommandView {
        CommandView { program: self.command@, args: names_of(self.args@) }
    }
}

/// A copy of a sequence of strings.
pub fn copy_strings(v: &Vec<String>) -> (r: Vec<String>)
    ensures
        names_of(r@) == names_of(v@),
{
    let mut r: Vec<String> = Vec::new();
    let mut i: usize = 0;
    while i < v.len()
        invariant
            i <= v.len(),
            names_of(r@) == names_of(v@).take(i as int),
        decreases v.len() - i,
    {
        let ghost before = r@;
        r.push(String::from_str(v[i].as_str()));
        assert(names_of(r@) =~= names_of(v@).take(i + 1)) by {
            assert(names_of(r@) =~= names_of(before).push(v@[i as int]@));
        }
        i = i + 1;
    }
    assert(names_of(v@).take(i as int) =~= names_of(v@));
    r
}

impl CommandProxy {
    /// This command with `extra` appended to its arguments.
    pub fn with_trailing_args(&self, extra: &Vec<String>) -> (r: CommandProxy)
        ensures
            r@.program == self@.program,
            r@.args == self@.args + names_of(extra@),
    {
        let mut args = copy_strings(&self.args);
        let mut more = copy_strings(extra);
        let ghost a = args@;
        let ghost m = more@;
        args.append(&mut more);
        assert(names_of(args@) =~= names_of(a) + names_of(m));
        CommandProxy { command: String::from_str(self.command.as_str()), args }
    }

    /// A copy of this command.
    pub fn duplicate(&self) -> (r: CommandProxy)
        ensures
            r@ == self@,
    {
        CommandProxy { command: String::from_str(self.command.as_str()), args: copy_strings(&self.args) }
    }
}

/// A package manager as a definition file states it.
pub struct PackageManagerProxy {
    pub name: String,
    pub install_command: CommandProxy,
    pub list_command: CommandProxy,
}

/// What a package manager is: its name and its two commands.
pub struct ManagerView {
    pub name: Seq<char>,
    pub install: CommandView,
    pub list: CommandView,
}

impl View for PackageManagerProxy {
    type V = ManagerView;

    open spec fn view(&self) -> ManagerView {
        ManagerView { name: self.name@, install: self.install_command@, list: self.list_command@ }
    }
}

/// A system's package manager: a name, the command that installs packages
/// (they are appended to its arguments) and the command that lists the
/// installed ones.
pub struct PackageManager {
    pub name: String,
    pub install_command: CommandProxy,
    pub list_command: CommandProxy,
}

impl View for PackageManager {
    type V = ManagerView;

    open spec fn view(&self) -> ManagerView {
        ManagerView { name: self.name@, install: self.install_command@, list: self.list_command@ }
    }
}

impl From<PackageManagerProxy> for PackageManager {
    fn from(proxy: PackageManagerProxy) -> (r: PackageManager)
        ensures
            r@ == proxy@,
    {
        PackageManager {
            name: proxy.name,
            install_command: proxy.install_command,
            list_command: proxy.list_command,
        }
    }
}

impl vstd::std_specs::convert::FromSpecImpl<PackageManagerProxy> for PackageManager {
    open spec fn obeys_from_spec() -> bool {
        true
    }

    open spec fn from_spec(proxy: PackageManagerProxy) -> PackageManager {
        PackageManager {
            name: proxy.name,
            install_command: proxy.install_command,
            list_command: proxy.list_command,
        }
    }
}

impl PackageManager {
    /// A package manager named `name` with the two commands.
    pub fn build(name: &str, install_command: CommandProxy, list_command: CommandProxy) -> (r: Self)
        ensures
            r@ == (ManagerView { name: name@, install: install_command@, list: list_command@ }),
    {
        PackageManager { name: String::from_str(name), install_command, list_command }
    }

    /// A copy of this package manager.
    pub fn duplicate(&self) -> (r: Self)
        ensures
            r@ == self@,
    {
        PackageManager {
            name: String::from_str(self.name.as_str()),
            install_command: self.install_command.duplicate(),
            list_command: self.list_command.duplicate(),
        }
    }
}

/// What the list command's output `output` yields: the installed packages
/// (the words of the output), or the error it fails with.
pub open spec fn listing_of(m: ManagerView, output: Option<Seq<u8>>) -> Result<
    Seq<Seq<char>>,
    (ErrorKind, Seq<char>),
> {
    match output {
        None => Err((ErrorKind::CommandFailedToRun, m.name)),
        Some(b) => if valid_utf8(b) {
            Ok(words(decode_utf8(b)))
        } else {
            Err((ErrorKind::InvalidOutputEncoding, m.name))
        },
    }
}

impl PackageManager {
    /// The command that installs `packages`: the install command, with them
    /// appended to its arguments. Running it is the caller's part; its
    /// outcome is judged by `install_result`.
    pub fn install(&self, packages: &Vec<String>) -> (r: CommandProxy)
        ensures
            r@.program == self@.install.program,
            r@.args == self@.install.args + names_of(packages@),
    {
        self.install_command.with_trailing_args(packages)
    }

    /// The outcome of running the install command.
    pub fn install_result(&self, status: RunStatus) -> (r: Result<(), PacError>)
        ensures
            status == RunStatus::Exited(true) ==> r is Ok,
            status == RunStatus::Exited(false) ==> (r matches Err(e) && e@ == (
                ErrorKind::CommandReturnedError,
                self@.name,
            )),
            status == RunStatus::NotStarted ==> (r matches Err(e) && e@ == (
                ErrorKind::CommandFailedToRun,
                self@.name,
            )),
    {
        match status {
            RunStatus::Exited(true) => Ok(()),
            RunStatus::Exited(false) => Err(
                PacError::new(ErrorKind::CommandReturnedError, String::from_str(self.name.as_str())),
            ),
            RunStatus::NotStarted => Err(
                PacError::new(ErrorKind::CommandFailedToRun, String::from_str(self.name.as_str())),
            ),
        }
    }

    /// The installed packages that the list command reported: its standard
    /// output split at white space. `output` is `None` where the command could
    /// not be run or its output not captured.
    pub fn list(&self, output: Option<Vec<u8>>) -> (r: Result<Vec<String>, PacError>)
        ensures
            match listing_of(
                self@,
                match output {
                    Some(b) => Some(b@),
                    None => None,
                },
            ) {
                Ok(ws) => r matches Ok(v) && names_of(v@) == ws,
                Err(e) => r matches Err(f) && f@ == e,
            },
    {
        match output {
            None => Err(
                PacError::new(ErrorKind::CommandFailedToRun, String::from_str(self.name.as_str())),
            ),
            Some(bytes) => match decode_text(bytes) {
                Some(text) => Ok(split_words(text.as_str())),
                None => Err(
                    PacError::new(
                        ErrorKind::InvalidOutputEncoding,
                        String::from_str(self.name.as_str()),
                    ),
                ),
            },
        }
    }

    /// Whether every package of `packages` is installed, by the list command's
    /// output `output`; the errors are those of `list`.
    pub fn check_for_packages(&self, output: Option<Vec<u8>>, packages: &Vec<String>) -> (r: Result<
        bool,
        PacError,
    >)
        ensures
            match listing_of(
                self@,
                match output {
                    Some(b) => Some(b@),
                    None => None,
                },
            ) {
                Ok(ws) => r matches Ok(b) && (b <==> names_of(packages@).to_set().subset_of(
                    ws.to_set(),
                )),
                Err(e) => r matches Err(f) && f@ == e,
            },
    {
        let installed = match self.list(output) {
            Ok(v) => v,
            Err(e) => {
                return Err(e);
            },
        };
        let have = crate::text::string_set(&installed);
        Ok(all_in(&have, packages))
    }
}

/// Whether every string of `packages` is in `have`.
fn all_in(have: &vstd::hash_set::StringHashSet, packages: &Vec<String>) -> (r: bool)
    ensures
        r <==> names_of(packages@).to_set().subset_of(have@),
{
    let mut i: usize = 0;
    while i < packages.len()
        invariant
            i <= packages.len(),
            forall|k: int| 0 <= k < i ==> have@.contains(#[trigger] names_of(packages@)[k]),
        decreases packages.len() - i,
    {
        if !have.contains(packages[i].as_str()) {
            let ghost p = names_of(packages@)[i as int];
            assert(p == packages@[i as int]@);
            assert(names_of(packages@).to_set().contains(p));
            return false;
        }
        i = i + 1;
    }
    assert forall|p: Seq<char>| names_of(packages@).to_set().contains(p) implies have@.contains(
        p,
    ) by {
        let k = choose|k: int| 0 <= k < names_of(packages@).len() && names_of(packages@)[k] == p;
    }
    true
}

} // verus!
