use vstd::prelude::*;
use vstd::string::StringExecFns;
use crate::config::{Config, CommandSet, CommandSetView, copy_strings};
use crate::split::{split_commands, commands_spec};

verus! {

pub const CURRENT_DIRECTORY_ITEM: &'static str = "Current Directory";

pub const NEW_DIRECTORY_ITEM: &'static str = "Enter New Directory";

pub const NEW_SET_ITEM: &'static str = "Create new command set";

/// What an entry of the directory menu stands for.
#[derive(PartialEq, Eq, Structural, Clone, Copy, Debug)]
pub enum DirectoryChoice {
    /// The first entry: the process's working directory.
    Current,
    /// A stored directory, by its position in the stored list.
    Stored(usize),
    /// The last entry: a directory typed in by the user.
    New,
}

/// What an entry of the command-set menu stands for.
#[derive(PartialEq, Eq, Structural, Clone, Copy, Debug)]
pub enum SetChoice {
    /// A stored set, by its position.
    Existing(usize),
    /// The last entry: a set to be named and filled by the user.
    New,
}

/// The entry chosen at `selection` in a directory menu over `stored`
/// directories; `None` past the last entry.
pub fn directory_choice(selection: usize, stored: usize) -> (r: Option<DirectoryChoice>)
    ensures
        selection == 0 ==> r == Some(DirectoryChoice::Current),
        0 < selection <= stored ==> r == Some(DirectoryChoice::Stored((selection - 1) as usize)),
        stored < usize::MAX && selection == stored + 1 ==> r == Some(DirectoryChoice::New),
        selection > stored + 1 ==> r is None,
{
    if selection == 0 {
        Some(DirectoryChoice::Current)
    } else if selection <= stored {
        Some(DirectoryChoice::Stored(selection - 1))
    } else if selection - 1 == stored {
        Some(DirectoryChoice::New)
    } else {
        None
    }
}

/// The entry chosen at `selection` in a command-set menu over `stored` sets;
/// `None` past the last entry.
pub fn set_choice(selection: usize, stored: usize) -> (r: Option<SetChoice>)
    ensures
        selection < stored ==> r == Some(SetChoice::Existing(selection)),
        selection == stored ==> r == Some(SetChoice::New),
        selection > stored ==> r is None,
{
    if selection < stored {
        Some(SetChoice::Existing(selection))
    } else if selection == stored {
        Some(SetChoice::New)
    } else {
        None
    }
}

impl Config {
    /// The directory menu: the working directory, each stored directory in
    /// order, then the entry for typing a new one.
    pub fn directory_menu(&self) -> (r: Vec<String>)
        ensures
            r.deep_view() == seq![CURRENT_DIRECTORY_ITEM@] + self@.directories + seq![
                NEW_DIRECTORY_ITEM@,
            ],
    {
        let mut items: Vec<String> = Vec::new();
        items.push(String::from_str(CURRENT_DIRECTORY_ITEM));
        let mut stored = copy_strings(&self.directories);
        items.append(&mut stored);
        items.push(String::from_str(NEW_DIRECTORY_ITEM));
        proof {
            assert(items.deep_view() =~= seq![CURRENT_DIRECTORY_ITEM@] + self@.directories + seq![
                NEW_DIRECTORY_ITEM@,
            ]);
        }
        items
    }

    /// The command-set menu: each stored set's name in order, then the entry
    /// for creating a new one.
    pub fn set_menu(&self) -> (r: Vec<String>)
        ensures
            r.deep_view() == self@.command_sets.map_values(|c: CommandSetView| c.name) + seq![
                NEW_SET_ITEM@,
            ],
    {
        let mut items = self.command_set_names();
        let ghost names = items.deep_view();
        items.push(String::from_str(NEW_SET_ITEM));
        proof {
            assert(items.deep_view() =~= names + seq![NEW_SET_ITEM@]);
        }
        items
    }

    /// The set menu is shown only when there is a stored set to pick; with
    /// none, a new set is created directly.
    pub fn offers_set_menu(&self) -> (r: bool)
        ensures
            r == (self@.command_sets.len() > 0),
    {
        self.command_sets.len() > 0
    }

    /// The directory that a menu choice stands for. `current` is the
    /// process's working directory, and `entered` what the user typed, read
    /// only for `DirectoryChoice::New`: that directory is also stored at the
    /// end of the list.
    pub fn resolve_directory(&mut self, choice: DirectoryChoice, current: String, entered: String) -> (r: String)
        requires
            choice matches DirectoryChoice::Stored(i) ==> i < old(self)@.directories.len(),
        ensures
            final(self)@.command_sets == old(self)@.command_sets,
            choice == DirectoryChoice::Current ==> r@ == current@
                && final(self)@.directories == old(self)@.directories,
            choice matches DirectoryChoice::Stored(i) ==> r@ == old(self)@.directories[i as int]
                && final(self)@.directories == old(self)@.directories,
            choice == DirectoryChoice::New ==> r@ == entered@
                && final(self)@.directories == old(self)@.directories.push(entered@),
    {
        match choice {
            DirectoryChoice::Current => current,
            DirectoryChoice::Stored(i) => self.directories[i].clone(),
            DirectoryChoice::New => {
                let dir = entered.clone();
                self.add_directory(entered);
                dir
            },
        }
    }

    /// Stores a new set called `name` whose commands are the trimmed
    /// comma-separated pieces of `input`, and returns its position.
    pub fn create_command_set(&mut self, name: String, input: &str) -> (r: usize)
        requires
            old(self)@.command_sets.len() < usize::MAX,
        ensures
            r == old(self)@.command_sets.len(),
            final(self)@.command_sets == old(self)@.command_sets.push(
                CommandSetView { name: name@, commands: commands_spec(input@) },
            ),
            final(self)@.directories == old(self)@.directories,
    {
        let r = self.command_sets.len();
        let commands = split_commands(input);
        self.add_command_set(CommandSet::new(name, commands));
        r
    }
}

} // verus!
