//! Descriptions of the external commands the manager runs.
use vstd::prelude::*;

verus! {

/// A process to start: the program, its arguments in order, and the
/// environment variables to set for it in order.
pub struct CommandSpec {
    pub program: String,
    pub args: Vec<String>,
    pub envs: Vec<(String, String)>,
}

/// The text of a `CommandSpec`.
#[verifier::ext_equal]
pub struct CommandView {
    pub program: Seq<char>,
    pub args: Seq<Seq<char>>,
    pub envs: Seq<(Seq<char>, Seq<char>)>,
}

impl View for CommandSpec {
    type V = CommandView;

    open spec fn view(&self) -> CommandView {
        CommandView {
            program: self.program@,
            args: self.args@.map_values(|a: String| a@),
            envs: self.envs@.map_values(|e: (String, String)| (e.0@, e.1@)),
        }
    }
}

/// A command with no arguments and no environment.
pub open spec fn command_of(program: Seq<char>) -> CommandView {
    CommandView { program, args: Seq::empty(), envs: Seq::empty() }
}

/// `c` with one more argument.
pub open spec fn with_arg(c: CommandView, a: Seq<char>) -> CommandView {
    CommandView { args: c.args.push(a), ..c }
}

/// `c` with one more environment variable.
pub open spec fn with_env(c: CommandView, k: Seq<char>, v: Seq<char>) -> CommandView {
    CommandView { envs: c.envs.push((k, v)), ..c }
}

impl CommandSpec {
    /// A command that runs `program` with no arguments.
    pub fn new(program: &str) -> (r: Self)
        ensures
            r@ == command_of(program@),
    {
        let r = CommandSpec { program: String::from_str(program), args: Vec::new(), envs: Vec::new() };
        assert(r@.args =~= Seq::<Seq<char>>::empty());
        assert(r@.envs =~= Seq::<(Seq<char>, Seq<char>)>::empty());
        r
    }

    /// Appends an argument.
    pub fn arg(&mut self, a: String)
        ensures
            final(self)@ == with_arg(old(self)@, a@),
    {
        let ghost before = self@;
        self.args.push(a);
        assert(self@.args =~= before.args.push(a@));
    }

    /// Appends an argument given as text.
    pub fn arg_str(&mut self, a: &str)
        ensures
            final(self)@ == with_arg(old(self)@, a@),
    {
        self.arg(String::from_str(a));
    }

    /// Sets an environment variable.
    pub fn env(&mut self, k: &str, v: String)
        ensures
            final(self)@ == with_env(old(self)@, k@, v@),
    {
        let ghost before = self@;
        self.envs.push((String::from_str(k), v));
        assert(self@.envs =~= before.envs.push((k@, v@)));
    }
}

} // verus!
