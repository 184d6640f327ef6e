//! A runner that starts nothing and answers from a script.

use vstd::prelude::*;
use vstd::string::*;

use crate::ops::process::{CommandRunner, CommandView, ToolCommand, ToolOutput};

verus! {

/// Answers each invocation with the next prepared outcome and remembers
/// what it was asked to run. Once the script is used up, every invocation
/// fails to start.
pub struct ScriptedRunner {
    outcomes: Vec<Result<ToolOutput, String>>,
    seen: Vec<ToolCommand>,
}

/// The runner as the specifications see it.
pub struct ScriptModel {
    /// The outcomes that have not been handed out yet, in order.
    pub remaining: Seq<Result<ToolOutput, String>>,
    /// The commands seen so far, in order.
    pub seen: Seq<CommandView>,
}

impl View for ScriptedRunner {
    type V = ScriptModel;

    closed spec fn view(&self) -> ScriptModel {
        ScriptModel {
            remaining: self.outcomes@,
            seen: self.seen@.map_values(|c: ToolCommand| c@),
        }
    }
}

/// What the scripted runner does with an invocation.
pub open spec fn script_performed(
    before: ScriptModel,
    command: CommandView,
    after: ScriptModel,
    answer: Result<ToolOutput, String>,
) -> bool {
    &&& after.seen == before.seen.push(command)
    &&& if before.remaining.len() > 0 {
        answer == before.remaining[0] && after.remaining == before.remaining.skip(1)
    } else {
        answer matches Err(reason) && reason@ == "no outcome prepared"@ && after.remaining
            == before.remaining
    }
}

fn copy_command(command: &ToolCommand) -> (r: ToolCommand)
    ensures
        r@ == command@,
{
    let mut args: Vec<String> = Vec::new();
    let mut i: usize = 0;
    while i < command.args.len()
        invariant
            i <= command.args.len(),
            args@ == command.args@.take(i as int),
        decreases command.args.len() - i,
    {
        args.push(command.args[i].clone());
        assert(args@ =~= command.args@.take(i + 1));
        i = i + 1;
    }
    assert(command.args@.take(command.args.len() as int) =~= command.args@);
    let dir = match &command.dir {
        Some(d) => Some(d.clone()),
        None => None,
    };
    ToolCommand { program: command.program.clone(), args, dir }
}

impl ScriptedRunner {
    /// A runner that will hand out `outcomes` in order.
    pub fn new(outcomes: Vec<Result<ToolOutput, String>>) -> (r: Self)
        ensures
            r@.remaining == outcomes@,
            r@.seen == Seq::<CommandView>::empty(),
    {
        let r = ScriptedRunner { outcomes, seen: Vec::new() };
        assert(r@.seen =~= Seq::<CommandView>::empty());
        r
    }

    /// The commands seen so far, in order.
    pub fn seen(&self) -> (r: &Vec<ToolCommand>)
        ensures
            r@.map_values(|c: ToolCommand| c@) == self@.seen,
    {
        &self.seen
    }

    /// How many prepared outcomes have not been handed out yet.
    pub fn remaining(&self) -> (r: usize)
        ensures
            r == self@.remaining.len(),
    {
        self.outcomes.len()
    }
}

impl CommandRunner for ScriptedRunner {
    open spec fn performed(
        before: Self,
        command: CommandView,
        after: Self,
        answer: Result<ToolOutput, String>,
    ) -> bool {
        script_performed(before@, command, after@, answer)
    }

    fn run(&mut self, command: &ToolCommand) -> (answer: Result<ToolOutput, String>) {
        let ghost before = self@;
        self.seen.push(copy_command(command));
        assert(self@.seen =~= before.seen.push(command@));
        if self.outcomes.len() > 0 {
            let answer = self.outcomes.remove(0);
            assert(self@.remaining =~= before.remaining.skip(1));
            answer
        } else {
            Err(String::from_str("no outcome prepared"))
        }
    }
}

} // verus!
