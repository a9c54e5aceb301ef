use vstd::prelude::*;

verus! {

/// A named, ordered list of shell command lines.
pub struct CommandSet {
    pub name: String,
    pub commands: Vec<String>,
}

/// The stored state: known working directories and the command sets.
pub struct Config {
    pub directories: Vec<String>,
    pub command_sets: Vec<CommandSet>,
}

pub struct CommandSetView {
    pub name: Seq<char>,
    pub commands: Seq<Seq<char>>,
}

pub struct ConfigView {
    pub directories: Seq<Seq<char>>,
    pub command_sets: Seq<CommandSetView>,
}

impl View for CommandSet {
    type V = CommandSetView;

    open spec fn view(&self) -> CommandSetView {
        CommandSetView { name: self.name@, commands: self.commands.deep_view() }
    }
}

/// The view of every set in `v`, in order.
pub open spec fn sets_view(v: Seq<CommandSet>) -> Seq<CommandSetView> {
    v.map_values(|c: CommandSet| c@)
}

impl View for Config {
    type V = ConfigView;

    open spec fn view(&self) -> ConfigView {
        ConfigView {
            directories: self.directories.deep_view(),
            command_sets: sets_view(self.command_sets@),
        }
    }
}

/// The sets that remain once every set called `name` is removed.
pub open spec fn without_name(sets: Seq<CommandSetView>, name: Seq<char>) -> Seq<CommandSetView> {
    sets.filter(|c: CommandSetView| c.name != name)
}

/// The position of the first set called `name`, if any.
pub open spec fn is_first_named(sets: Seq<CommandSetView>, name: Seq<char>, i: int) -> bool {
    &&& 0 <= i < sets.len()
    &&& sets[i].name == name
    &&& forall|j: int| 0 <= j < i ==> sets[j].name != name
}

pub open spec fn has_name(sets: Seq<CommandSetView>, name: Seq<char>) -> bool {
    exists|i: int| 0 <= i < sets.len() && sets[i].name == name
}

impl CommandSet {
    pub fn new(name: String, commands: Vec<String>) -> (r: CommandSet)
        ensures
            r.name == name,
            r.commands == commands,
    {
        CommandSet { name, commands }
    }
}

impl Config {
    /// The document used when nothing is stored yet: no directories, no sets.
    pub fn empty() -> (r: Config)
        ensures
            r@.directories.len() == 0,
            r@.command_sets.len() == 0,
    {
        Config { directories: Vec::new(), command_sets: Vec::new() }
    }

    /// Remembers a new working directory at the end of the list.
    pub fn add_directory(&mut self, dir: String)
        ensures
            final(self)@.directories == old(self)@.directories.push(dir@),
            final(self)@.command_sets == old(self)@.command_sets,
    {
        self.directories.push(dir);
        proof {
            assert(self@.directories =~= old(self)@.directories.push(dir@));
        }
    }

    /// The position of the first set called `name`, or `None` when no set has it.
    pub fn find_command_set(&self, name: &String) -> (r: Option<usize>)
        ensures
            match r {
                Some(i) => is_first_named(self@.command_sets, name@, i as int),
                None => !has_name(self@.command_sets, name@),
            },
    {
        let mut i: usize = 0;
        while i < self.command_sets.len()
            invariant
                i <= self.command_sets@.len(),
                forall|j: int| 0 <= j < i ==> self@.command_sets[j].name != name@,
            decreases self.command_sets@.len() - i,
        {
            if self.command_sets[i].name == *name {
                return Some(i);
            }
            i = i + 1;
        }
        None
    }

    /// The names of the stored sets, in order.
    pub fn command_set_names(&self) -> (r: Vec<String>)
        ensures
            r.deep_view() == self@.command_sets.map_values(|c: CommandSetView| c.name),
    {
        let mut names: Vec<String> = Vec::new();
        let mut i: usize = 0;
        while i < self.command_sets.len()
            invariant
                i <= self.command_sets@.len(),
                names.deep_view() == self@.command_sets.subrange(0, i as int).map_values(
                    |c: CommandSetView| c.name,
                ),
            decreases self.command_sets@.len() - i,
        {
            let ghost prev = names.deep_view();
            names.push(self.command_sets[i].name.clone());
            proof {
                assert(names.deep_view() =~= prev.push(self@.command_sets[i as int].name));
                assert(self@.command_sets.subrange(0, i + 1) =~= self@.command_sets.subrange(
                    0,
                    i as int,
                ).push(self@.command_sets[i as int]));
                assert(names.deep_view() =~= self@.command_sets.subrange(0, i + 1).map_values(
                    |c: CommandSetView| c.name,
                ));
            }
            i = i + 1;
        }
        proof {
            assert(self@.command_sets.subrange(0, i as int) =~= self@.command_sets);
        }
        names
    }

    /// Removes every set called `name`; the others keep their order. A name
    /// that no set has leaves the list as it was.
    pub fn delete_command_set(&mut self, name: &String)
        ensures
            final(self)@.command_sets == without_name(old(self)@.command_sets, name@),
            final(self)@.directories == old(self)@.directories,
    {
        let ghost before = self@.command_sets;
        let mut kept: Vec<CommandSet> = Vec::new();
        let n = self.command_sets.len();
        let mut i: usize = 0;
        while i < n
            invariant
                n == self.command_sets@.len(),
                i <= n,
                sets_view(self.command_sets@) == before,
                self@.directories == old(self)@.directories,
                sets_view(kept@) == without_name(before.subrange(0, i as int), name@),
            decreases n - i,
        {
            let ghost pre = before.subrange(0, i as int);
            proof {
                reveal(Seq::filter);
                assert(before.subrange(0, i + 1).drop_last() =~= pre);
                assert(before.subrange(0, i + 1).last() == before[i as int]);
            }
            if self.command_sets[i].name != *name {
                let set = CommandSet {
                    name: self.command_sets[i].name.clone(),
                    commands: copy_strings(&self.command_sets[i].commands),
                };
                kept.push(set);
                proof {
                    assert(sets_view(kept@) =~= without_name(pre, name@).push(before[i as int]));
                }
            }
            i = i + 1;
        }
        proof {
            assert(before.subrange(0, n as int) =~= before);
        }
        self.command_sets = kept;
    }

    /// Stores a new command set at the end of the list.
    pub fn add_command_set(&mut self, set: CommandSet)
        ensures
            final(self)@.command_sets == old(self)@.command_sets.push(set@),
            final(self)@.directories == old(self)@.directories,
    {
        self.command_sets.push(set);
        proof {
            assert(sets_view(self.command_sets@) =~= sets_view(old(self).command_sets@).push(set@));
        }
    }
}

/// A copy of `v`, string for string.
pub(crate) fn copy_strings(v: &Vec<String>) -> (r: Vec<String>)
    ensures
        r.deep_view() == v.deep_view(),
{
    let mut r: Vec<String> = Vec::new();
    let mut i: usize = 0;
    while i < v.len()
        invariant
            i <= v@.len(),
            r.deep_view() == v.deep_view().subrange(0, i as int),
        decreases v@.len() - i,
    {
        let ghost prev = r.deep_view();
        r.push(v[i].clone());
        proof {
            assert(r.deep_view() =~= prev.push(v@[i as int]@));
            assert(v.deep_view().subrange(0, i + 1) =~= v.deep_view().subrange(0, i as int).push(
                v@[i as int]@,
            ));
        }
        i = i + 1;
    }
    proof {
        assert(v.deep_view().subrange(0, i as int) =~= v.deep_view());
    }
    r
}

/// Deleting a name that no stored set carries changes nothing.
pub proof fn lemma_delete_absent_name(sets: Seq<CommandSetView>, name: Seq<char>)
    requires
        !has_name(sets, name),
    ensures
        without_name(sets, name) == sets,
    decreases sets.len(),
{
    reveal(Seq::filter);
    if sets.len() > 0 {
        let pre = sets.drop_last();
        assert(!has_name(pre, name)) by {
            if has_name(pre, name) {
                let i = choose|i: int| 0 <= i < pre.len() && pre[i].name == name;
                assert(sets[i].name == name);
            }
        }
        lemma_delete_absent_name(pre, name);
        assert(sets.last().name != name);
        assert(pre.push(sets.last()) =~= sets);
    }
}

} // verus!
