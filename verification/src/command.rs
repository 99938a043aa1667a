use vstd::prelude::*;
use vstd::string::*;

verus! {

/// A command that is waiting to be run with elevated rights: the program,
/// its arguments in order, the environment variables to set for it, each
/// name with its value, and the directory to run it in, if one was chosen.
#[derive(Clone, Debug, PartialEq, Eq)]
pub struct Command {
    pub program: String,
    pub args: Vec<String>,
    pub envs: Vec<(String, String)>,
    pub current_dir: Option<String>,
}

/// A `Command` as plain text.
pub struct CommandView {
    pub program: Seq<char>,
    pub args: Seq<Seq<char>>,
    pub envs: Seq<(Seq<char>, Seq<char>)>,
    pub current_dir: Option<Seq<char>>,
}

/// The environment entries `envs` as plain text, in their order.
pub open spec fn env_texts(envs: Seq<(String, String)>) -> Seq<(Seq<char>, Seq<char>)> {
    Seq::new(envs.len(), |i: int| (envs[i].0@, envs[i].1@))
}

impl View for Command {
    type V = CommandView;

    open spec fn view(&self) -> CommandView {
        CommandView {
            program: self.program@,
            args: self.args.deep_view(),
            envs: env_texts(self.envs@),
            current_dir: match self.current_dir {
                Some(dir) => Some(dir@),
                None => None,
            },
        }
    }
}

/// Whether `envs` has an entry for `name`.
pub open spec fn has_name(envs: Seq<(Seq<char>, Seq<char>)>, name: Seq<char>) -> bool {
    exists|i: int| 0 <= i < envs.len() && (#[trigger] envs[i]).0 == name
}

/// `envs` with `value` in the place of the value of `name`, as far as the
/// first `upto` entries go.
pub open spec fn with_value_upto(
    envs: Seq<(Seq<char>, Seq<char>)>,
    name: Seq<char>,
    value: Seq<char>,
    upto: int,
) -> Seq<(Seq<char>, Seq<char>)> {
    Seq::new(
        envs.len(),
        |i: int|
            if i < upto && envs[i].0 == name {
                (name, value)
            } else {
                envs[i]
            },
    )
}

/// `envs` after `name` has been set to `value`: the entry for `name` has the
/// new value and keeps its place; where there was none, a new entry stands
/// at the end. All other entries stay as they are.
pub open spec fn with_env(
    envs: Seq<(Seq<char>, Seq<char>)>,
    name: Seq<char>,
    value: Seq<char>,
) -> Seq<(Seq<char>, Seq<char>)> {
    if has_name(envs, name) {
        with_value_upto(envs, name, value, envs.len() as int)
    } else {
        envs.push((name, value))
    }
}

/// Whether no name occurs twice in `envs`: the entries are a mapping from
/// names to values.
pub open spec fn names_distinct(envs: Seq<(Seq<char>, Seq<char>)>) -> bool {
    forall|i: int, j: int|
        0 <= i < envs.len() && 0 <= j < envs.len() && i != j ==> (#[trigger] envs[i]).0 != (
        #[trigger] envs[j]).0
}

/// Setting a variable keeps the entries a mapping: no name comes to stand
/// twice. After it the name has the new value, and every other name has
/// the value it had.
pub proof fn lemma_with_env_is_a_mapping(
    envs: Seq<(Seq<char>, Seq<char>)>,
    name: Seq<char>,
    value: Seq<char>,
)
    requires
        names_distinct(envs),
    ensures
        names_distinct(with_env(envs, name, value)),
        has_name(with_env(envs, name, value), name),
        forall|i: int|
            0 <= i < with_env(envs, name, value).len() && (#[trigger] with_env(
                envs,
                name,
                value,
            )[i]).0 == name ==> with_env(envs, name, value)[i].1 == value,
        forall|i: int|
            0 <= i < envs.len() && (#[trigger] envs[i]).0 != name ==> with_env(envs, name, value)[i]
                == envs[i],
{
    let after = with_env(envs, name, value);
    if has_name(envs, name) {
        let at = choose|i: int| 0 <= i < envs.len() && (#[trigger] envs[i]).0 == name;
        assert(after[at].0 == name);
        assert forall|i: int, j: int|
            0 <= i < after.len() && 0 <= j < after.len() && i != j implies (#[trigger] after[i]).0
            != (#[trigger] after[j]).0 by {
            assert(after[i].0 == envs[i].0);
            assert(after[j].0 == envs[j].0);
        }
    } else {
        let last = envs.len() as int;
        assert(after[last].0 == name);
        assert forall|i: int, j: int|
            0 <= i < after.len() && 0 <= j < after.len() && i != j implies (#[trigger] after[i]).0
            != (#[trigger] after[j]).0 by {
            if i < last {
                assert(after[i] == envs[i]);
            }
            if j < last {
                assert(after[j] == envs[j]);
            }
        }
    }
}

impl CommandView {
    /// The program followed by its arguments: what the program will find as
    /// its argument vector.
    pub open spec fn argv(self) -> Seq<Seq<char>> {
        seq![self.program] + self.args
    }
}

impl Command {
    /// A command that runs `program` without arguments, with no environment
    /// variables set and no directory chosen.
    pub fn new(program: &str) -> (cmd: Command)
        ensures
            cmd@ == (CommandView {
                program: program@,
                args: Seq::empty(),
                envs: Seq::empty(),
                current_dir: None,
            }),
    {
        let cmd = Command {
            program: program.to_owned(),
            args: Vec::new(),
            envs: Vec::new(),
            current_dir: None,
        };
        assert(cmd@.args =~= Seq::<Seq<char>>::empty());
        assert(cmd@.envs =~= Seq::<(Seq<char>, Seq<char>)>::empty());
        cmd
    }

    /// Adds one argument behind those already given.
    pub fn arg(&mut self, arg: &str)
        ensures
            final(self)@ == (CommandView { args: old(self)@.args.push(arg@), ..old(self)@ }),
    {
        self.args.push(arg.to_owned());
        assert(self@.args =~= old(self)@.args.push(arg@));
        assert(self@.envs =~= old(self)@.envs);
    }

    /// Sets one environment variable. Where the name has a value already,
    /// the new value takes its place; otherwise the variable is added behind
    /// those already given.
    pub fn env(&mut self, name: &str, value: &str)
        ensures
            final(self)@ == (CommandView {
                envs: with_env(old(self)@.envs, name@, value@),
                ..old(self)@
            }),
    {
        let ghost before = self@.envs;
        let key = name.to_owned();
        let count = self.envs.len();
        let mut found = false;
        let mut i: usize = 0;
        assert(self@.envs =~= with_value_upto(before, name@, value@, 0));
        while i < count
            invariant
                i <= count,
                count == before.len(),
                key@ == name@,
                self.envs.len() == count,
                self@.envs == with_value_upto(before, name@, value@, i as int),
                self@.args == old(self)@.args,
                self@.program == old(self)@.program,
                self@.current_dir == old(self)@.current_dir,
                found == exists|k: int| 0 <= k < i && (#[trigger] before[k]).0 == name@,
            decreases count - i,
        {
            let ghost so_far = self@.envs;
            assert(so_far[i as int] == before[i as int]);
            if self.envs[i].0 == key {
                self.envs.set(i, (name.to_owned(), value.to_owned()));
                found = true;
            }
            assert(self@.envs =~= with_value_upto(before, name@, value@, i + 1)) by {
                assert forall|k: int| 0 <= k < count implies self@.envs[k] == with_value_upto(
                    before,
                    name@,
                    value@,
                    i + 1,
                )[k] by {
                    if k != i {
                        assert(self@.envs[k] == so_far[k]);
                    }
                }
            }
            assert(self@.args =~= old(self)@.args);
            i = i + 1;
        }
        assert(found == has_name(before, name@));
        if !found {
            assert(self@.envs =~= before);
            self.envs.push((name.to_owned(), value.to_owned()));
            assert(self@.envs =~= before.push((name@, value@)));
            assert(self@.args =~= old(self)@.args);
        }
    }

    /// Chooses the directory to run the command in.
    pub fn current_dir(&mut self, dir: &str)
        ensures
            final(self)@ == (CommandView { current_dir: Some(dir@), ..old(self)@ }),
    {
        self.current_dir = Some(dir.to_owned());
        assert(self@.args =~= old(self)@.args);
        assert(self@.envs =~= old(self)@.envs);
    }
}

} // verus!
