//! An embeddable interactive command-line dispatcher.
//!
//! A host application registers a tree of named commands, feeds the
//! dispatcher raw input lines, and the dispatcher tokenizes each line,
//! resolves it to the most specific matching command, and invokes that
//! command's callback with the residual tokens and exclusive access to a
//! shared state value.

use vstd::prelude::*;

pub mod args;
pub mod cli;
pub mod command;
pub mod error;
pub mod render;
pub mod tokens;

pub use error::HandleError;
pub use tokens::spec_tokenize;
pub use tokens::split_line;

verus! {

/// A command callback, implemented by the host application.
///
/// Every callback receives exclusive access to the dispatcher's shared
/// state and the residual tokens not consumed by the subcommand-tree
/// walk, and either succeeds or reports an error of the host's own type.
///
/// `outcome` is the implementor's own description of what `call` may do:
/// each implementation states the relation it promises between the state
/// before the call, the residual tokens, the state after the call, and
/// the result, and proves `call` against it.
pub trait Handler: Sized {
    /// The shared state a callback works on.
    type State;

    /// The error type a callback may fail with.
    type Error;

    /// The relation this callback promises between its pre-state, its
    /// arguments, its post-state, and its outcome (`None` on success,
    /// `Some` with the error it failed with).  It defaults to the
    /// trivial relation, which promises nothing; an implementation that
    /// wants dispatch to carry a real contract overrides it and proves
    /// `call` against it.
    open spec fn outcome(
        &self,
        pre: Self::State,
        args: Seq<Seq<char>>,
        post: Self::State,
        failure: Option<Self::Error>,
    ) -> bool {
        true
    }

    /// Run the callback on the shared state with the residual tokens.
    fn call(&self, state: &mut Self::State, args: Vec<String>) -> (r: Result<(), Self::Error>)
        ensures
            self.outcome(*old(state), args.deep_view(), *final(state), failure_of(r)),
    ;
}

/// The failure a callback result carries: `None` on success.
pub open spec fn failure_of<E>(r: Result<(), E>) -> Option<E> {
    match r {
        Ok(_) => None,
        Err(e) => Some(e),
    }
}

/// A callback is either synchronous or asynchronous.
///
/// The synchronous dispatch path runs a `Sync` callback to completion;
/// reaching an `Async` callback through it is a usage error.  An
/// asynchronous front-end (outside this crate) drives `Async` callbacks
/// and may fall through to running a `Sync` callback directly.
pub enum FnType<H> {
    Sync(H),
    Async(H),
}

/// A named, described command holding a callback and a mapping of
/// subcommand name to child command.  Subcommand names are unique among
/// siblings for every tree built through [`Command::add_subcommand`].
pub struct Command<H> {
    /// The name of the command, as typed into the CLI.
    pub name: String,
    /// The help string describing this command.
    pub help: String,
    /// The function to call when this command matches.
    pub callback: FnType<H>,
    /// The subcommands of this command, looked up by name.
    pub subcommands: Vec<Command<H>>,
}

/// The main handle for a CLI interface: owns the shared state and the
/// top-level mapping of command name to command.
pub struct CLI<H: Handler> {
    /// The state that gets presented to callbacks.
    pub state: H::State,
    /// All the available top-level commands, looked up by name.
    pub commands: Vec<Command<H>>,
}

impl<H: Handler> CLI<H> {
    /// Create a new CLI with an internal state.
    pub fn new(state: H::State) -> (r: Self)
        ensures
            r.state == state,
            r.commands@ =~= Seq::<Command<H>>::empty(),
    {
        Self { state, commands: Vec::new() }
    }
}

impl<H: Handler> Command<H> {
    /// Create a new command with a name, a help string and a synchronous
    /// callback.
    pub fn new(name: &str, help: &str, callback: H) -> (r: Self)
        ensures
            r.name@ == name@,
            r.help@ == help@,
            r.callback == FnType::<H>::Sync(callback),
            r.subcommands@ =~= Seq::<Command<H>>::empty(),
    {
        Self {
            name: name.to_owned(),
            help: help.to_owned(),
            callback: FnType::Sync(callback),
            subcommands: Vec::new(),
        }
    }

    /// Create a new command with a name, a help string and an
    /// asynchronous callback.
    pub fn new_async(name: &str, help: &str, callback: H) -> (r: Self)
        ensures
            r.name@ == name@,
            r.help@ == help@,
            r.callback == FnType::<H>::Async(callback),
            r.subcommands@ =~= Seq::<Command<H>>::empty(),
    {
        Self {
            name: name.to_owned(),
            help: help.to_owned(),
            callback: FnType::Async(callback),
            subcommands: Vec::new(),
        }
    }
}

} // verus!
