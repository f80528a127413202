//! The command to be run and monitored.

use vstd::prelude::*;
use vstd::string::*;
use crate::text::texts;
use crate::types::PeakMemError;

verus! {

/// The words of a list written one after the other, with a space between
/// each two.
pub open spec fn joined(words: Seq<Seq<char>>) -> Seq<char>
    decreases words.len(),
{
    if words.len() == 0 {
        Seq::empty()
    } else if words.len() == 1 {
        words[0]
    } else {
        joined(words.drop_last()) + " "@ + words.last()
    }
}

/// A command that can be spawned: a program and its arguments.
#[derive(Debug)]
pub struct ProcessRunner {
    command: Vec<String>,
}

impl ProcessRunner {
    /// The words of the command: the program first, then its arguments.
    pub closed spec fn words(&self) -> Seq<String> {
        self.command@
    }

    /// A runner holds at least the program.
    pub closed spec fn wf(&self) -> bool {
        self.command.len() > 0
    }

    /// A runner for `command`: the program, followed by its arguments. A
    /// command without a program is refused with `ProcessSpawn`.
    pub fn new(command: Vec<String>) -> (runner: Result<Self, PeakMemError>)
        ensures
            command.len() > 0 ==> (runner matches Ok(r) && r.words() == command@ && r.wf()),
            command.len() == 0 ==> (runner matches Err(PeakMemError::ProcessSpawn(m)) && m@
                == "No command provided"@),
    {
        if command.len() == 0 {
            return Err(PeakMemError::ProcessSpawn("No command provided".to_owned()));
        }
        Ok(ProcessRunner { command })
    }

    /// The program to spawn.
    pub fn program(&self) -> (program: &String)
        requires
            self.wf(),
        ensures
            *program == self.words()[0],
    {
        &self.command[0]
    }

    /// The arguments to hand to the program, in order.
    pub fn args(&self) -> (args: Vec<String>)
        requires
            self.wf(),
        ensures
            texts(args@) == texts(self.words()).skip(1),
    {
        let mut args: Vec<String> = Vec::new();
        let mut i: usize = 1;
        assert(texts(args@) =~= texts(self.command@).subrange(1, 1));
        while i < self.command.len()
            invariant
                1 <= i <= self.command.len(),
                texts(args@) == texts(self.command@).subrange(1, i as int),
            decreases self.command.len() - i,
        {
            let ghost before = args@;
            let word = self.command[i].clone();
            args.push(word);
            assert(texts(args@) =~= texts(before).push(word@));
            assert(texts(args@) =~= texts(self.command@).subrange(1, i + 1));
            i += 1;
        }
        assert(texts(self.command@).subrange(1, self.command.len() as int) =~= texts(
            self.command@,
        ).skip(1));
        args
    }

    /// The command as one line, for display: its words with a space
    /// between each two.
    pub fn command_string(&self) -> (line: String)
        ensures
            line@ == joined(texts(self.words())),
    {
        let mut line = String::new();
        let mut i: usize = 0;
        assert(texts(self.command@).take(0) =~= Seq::<Seq<char>>::empty());
        while i < self.command.len()
            invariant
                i <= self.command.len(),
                line@ == joined(texts(self.command@).take(i as int)),
            decreases self.command.len() - i,
        {
            proof {
                let upto = texts(self.command@).take(i + 1);
                assert(upto.drop_last() =~= texts(self.command@).take(i as int));
                assert(upto.last() == self.command[i as int]@);
                if i == 0 {
                    assert(line@ + self.command[i as int]@ =~= self.command[i as int]@);
                }
            }
            if i > 0 {
                line.append(" ");
            }
            line.append(self.command[i].as_str());
            i += 1;
        }
        assert(texts(self.command@).take(self.command.len() as int) =~= texts(self.command@));
        line
    }

    /// The error of a program that could not be spawned, with the reason
    /// the operating system gave.
    pub fn spawn_error(&self, reason: &str) -> (error: PeakMemError)
        requires
            self.wf(),
        ensures
            error matches PeakMemError::ProcessSpawn(m)
                && m@ == "Failed to spawn '"@ + self.words()[0]@
                + "': "@ + reason@,
    {
        let mut message = "Failed to spawn '".to_owned();
        message.append(self.command[0].as_str());
        message.append("': ");
        message.append(reason);
        PeakMemError::ProcessSpawn(message)
    }

    /// The pid of a spawned process, or `ProcessSpawn` where the
    /// operating system gave none.
    pub fn spawned_pid(&self, pid: Option<u32>) -> (spawned: Result<u32, PeakMemError>)
        ensures
            match pid {
                Some(p) => spawned == Ok::<u32, PeakMemError>(p),
                None => spawned matches Err(PeakMemError::ProcessSpawn(m)) && m@
                    == "Failed to get process ID"@,
            },
    {
        match pid {
            Some(p) => Ok(p),
            None => Err(PeakMemError::ProcessSpawn("Failed to get process ID".to_owned())),
        }
    }
}

} // verus!
