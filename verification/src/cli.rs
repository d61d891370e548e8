//! The dispatcher: handling an input line against the top-level
//! commands.

use vstd::prelude::*;

use crate::command::dispatch_post;
use crate::command::render_slice;
use crate::command::spec_render;
use crate::command::find_in;
use vstd::string::*;
use crate::command::find_named;
use crate::command::insert_command;
use crate::command::lemma_inserted_unique;
use crate::command::spec_displaced;
use crate::command::spec_inserted;
use crate::command::unique_names;
use crate::error::HandleError;
use crate::tokens::spec_tokenize;
use crate::tokens::split_line;
use crate::Command;
use crate::Handler;
use crate::CLI;

verus! {

/// What handling one line against a dispatcher guarantees.  The line is
/// tokenized; an empty token sequence and an unrecognized first token
/// are silently ignored, with success; otherwise the matching top-level
/// command dispatches the remaining tokens against the state.
pub open spec fn handle_post<H: Handler>(
    pre: CLI<H>,
    post: CLI<H>,
    line: Seq<char>,
    r: Result<(), HandleError<H::Error>>,
) -> bool {
    let toks = spec_tokenize(line);
    post.commands == pre.commands && if toks.len() == 0 {
        r is Ok && post.state == pre.state
    } else {
        match find_named(pre.commands@, toks[0]) {
            None => r is Ok && post.state == pre.state,
            Some(i) => dispatch_post(pre.commands@[i], pre.state, post.state, toks.drop_first(), r),
        }
    }
}

/// Handling a line whose first token is no registered command — in
/// particular any line on a dispatcher with no commands at all — is a
/// silent no-op: success, with the state and the commands untouched.
pub proof fn lemma_unrecognized_is_ok<H: Handler>(
    pre: CLI<H>,
    post: CLI<H>,
    line: Seq<char>,
    r: Result<(), HandleError<H::Error>>,
)
    requires
        handle_post(pre, post, line, r),
        spec_tokenize(line).len() == 0 || find_named(
            pre.commands@,
            spec_tokenize(line)[0],
        ) is None,
    ensures
        r is Ok,
        post.state == pre.state,
        post.commands == pre.commands,
{
}

impl<H: Handler> CLI<H> {
    /// The dispatcher's invariant: top-level command names are unique.
    pub open spec fn wf(&self) -> bool {
        unique_names(self.commands@)
    }

    /// Handle an input line.  The line gets split up into tokens and
    /// dispatched to the matching top-level command, if any; an empty
    /// line and an unrecognized command are silently ignored.
    pub fn handle(&mut self, line: &str) -> (r: Result<(), HandleError<H::Error>>)
        ensures
            handle_post(*old(self), *final(self), line@, r),
    {
        let prompt = split_line(line);
        if prompt.len() == 0 {
            return Ok(());
        }
        proof {
            assert(prompt.deep_view()[0] == prompt@[0]@);
        }
        match find_in(&self.commands, &prompt[0]) {
            None => Ok(()),
            Some(i) => {
                let command = &self.commands[i];
                let rest = vstd::slice::slice_subrange(prompt.as_slice(), 1, prompt.len());
                proof {
                    assert(rest.deep_view() =~= prompt.deep_view().drop_first());
                }
                command.handle(&mut self.state, rest)
            },
        }
    }

    /// Render all available commands as an indented tree, preceded by a
    /// header line, for human display.
    pub fn render(&self) -> (r: String)
        ensures
            r@ == "Available commands: \n\n"@ + spec_render(self.commands@, Seq::<char>::empty()),
    {
        let mut out = String::new();
        out.append("Available commands: \n\n");
        let body = render_slice(self.commands.as_slice(), "");
        out.append(body.as_str());
        proof {
            reveal_strlit("");
            assert(""@ =~= Seq::<char>::empty());
            assert(out@ =~= "Available commands: \n\n"@ + spec_render(
                self.commands@,
                Seq::<char>::empty(),
            ));
        }
        out
    }

    /// Add a new command to this CLI.  A command with the same name is
    /// displaced and returned, so the caller can detect a silent
    /// overwrite; the insertion happens regardless.
    pub fn add_command(&mut self, command: Command<H>) -> (r: Option<Command<H>>)
        ensures
            final(self).state == old(self).state,
            final(self).commands@ == spec_inserted(old(self).commands@, command),
            r == spec_displaced(old(self).commands@, command),
            old(self).wf() ==> final(self).wf(),
    {
        proof {
            if old(self).wf() {
                lemma_inserted_unique(old(self).commands@, command);
            }
        }
        insert_command(&mut self.commands, command)
    }
}

} // verus!
