//! Dispatch through the subcommand tree.
//!
//! Given a token sequence, a command recursively checks its subcommand
//! map against the first token: on a match it recurses into that child
//! with the remaining tokens, otherwise it invokes its own callback with
//! the full token sequence as residual arguments.

use vstd::prelude::*;

use crate::error::HandleError;
use crate::render::pad_dots;
use crate::render::pad_to_width;
use crate::render::spec_indent;
use crate::render::make_indent;
use crate::Command;
use crate::FnType;
use crate::Handler;
use vstd::string::*;

verus! {

/// The index of the first command named `name` in `cmds`, if any.
pub open spec fn find_named<H>(cmds: Seq<Command<H>>, name: Seq<char>) -> Option<int>
    decreases cmds.len(),
{
    if cmds.len() == 0 {
        None
    } else if cmds[0].name@ == name {
        Some(0int)
    } else {
        match find_named(cmds.drop_first(), name) {
            Some(i) => Some(i + 1),
            None => None,
        }
    }
}

/// `find_named` returns exactly the first matching index.
pub proof fn lemma_find_named<H>(cmds: Seq<Command<H>>, name: Seq<char>)
    ensures
        match find_named(cmds, name) {
            Some(i) => 0 <= i < cmds.len() && cmds[i].name@ == name && forall|j: int|
                0 <= j < i ==> cmds[j].name@ != name,
            None => forall|j: int| 0 <= j < cmds.len() ==> cmds[j].name@ != name,
        },
    decreases cmds.len(),
{
    if cmds.len() > 0 && cmds[0].name@ != name {
        lemma_find_named(cmds.drop_first(), name);
        assert forall|j: int| 1 <= j < cmds.len() implies cmds[j].name@ == cmds.drop_first()[
            j - 1
        ].name@ by {
            assert(cmds.drop_first()[j - 1] == cmds[j]);
        }
    }
}

/// Look a name up in a command list; the first match wins.
pub(crate) fn find_in<H>(cmds: &Vec<Command<H>>, name: &String) -> (r: Option<usize>)
    ensures
        match r {
            Some(i) => i < cmds@.len() && find_named(cmds@, name@) == Some(i as int),
            None => find_named(cmds@, name@) is None,
        },
{
    proof {
        lemma_find_named(cmds@, name@);
    }
    let n = cmds.len();
    let mut i: usize = 0;
    while i < n
        invariant
            n == cmds@.len(),
            i <= n,
            forall|j: int| 0 <= j < i ==> cmds@[j].name@ != name@,
            match find_named(cmds@, name@) {
                Some(k) => 0 <= k < cmds@.len() && cmds@[k].name@ == name@ && forall|j: int|
                    0 <= j < k ==> cmds@[j].name@ != name@,
                None => forall|j: int| 0 <= j < cmds@.len() ==> cmds@[j].name@ != name@,
            },
        decreases n - i,
    {
        if cmds[i].name.eq(name) {
            return Some(i);
        }
        i += 1;
    }
    None
}

/// Sibling names are unique: no two commands of the list share a name.
pub open spec fn unique_names<H>(cmds: Seq<Command<H>>) -> bool {
    forall|i: int, j: int| 0 <= i < j < cmds.len() ==> cmds[i].name@ != cmds[j].name@
}

/// How many commands of the list carry the given name.
pub open spec fn count_named<H>(cmds: Seq<Command<H>>, name: Seq<char>) -> nat
    decreases cmds.len(),
{
    if cmds.len() == 0 {
        0
    } else {
        (if cmds[0].name@ == name {
            1nat
        } else {
            0nat
        }) + count_named(cmds.drop_first(), name)
    }
}

/// The command list after registering `c`: an entry with the same name
/// is overwritten in place, otherwise `c` is appended.
pub open spec fn spec_inserted<H>(cmds: Seq<Command<H>>, c: Command<H>) -> Seq<Command<H>> {
    match find_named(cmds, c.name@) {
        Some(i) => cmds.update(i, c),
        None => cmds.push(c),
    }
}

/// The command registering `c` displaces: the previously registered
/// entry with the same name, if any.
pub open spec fn spec_displaced<H>(cmds: Seq<Command<H>>, c: Command<H>) -> Option<Command<H>> {
    match find_named(cmds, c.name@) {
        Some(i) => Some(cmds[i]),
        None => None,
    }
}

/// Registration keeps sibling names unique.
pub proof fn lemma_inserted_unique<H>(cmds: Seq<Command<H>>, c: Command<H>)
    requires
        unique_names(cmds),
    ensures
        unique_names(spec_inserted(cmds, c)),
{
    lemma_find_named(cmds, c.name@);
    let s = spec_inserted(cmds, c);
    match find_named(cmds, c.name@) {
        Some(i) => {
            assert forall|k: int, l: int| 0 <= k < l < s.len() implies s[k].name@ != s[l].name@ by {
                assert(cmds[i].name@ == c.name@);
            }
        },
        None => {
            assert forall|k: int, l: int| 0 <= k < l < s.len() implies s[k].name@ != s[l].name@ by {
                if l == cmds.len() {
                    assert(s[k] == cmds[k]);
                }
            }
        },
    }
}

proof fn lemma_count_named_zero<H>(cmds: Seq<Command<H>>, name: Seq<char>)
    requires
        forall|i: int| 0 <= i < cmds.len() ==> cmds[i].name@ != name,
    ensures
        count_named(cmds, name) == 0,
    decreases cmds.len(),
{
    if cmds.len() > 0 {
        lemma_count_named_zero(cmds.drop_first(), name);
    }
}

/// In a list with unique sibling names, a name that occurs occurs once.
pub proof fn lemma_count_named_unique<H>(cmds: Seq<Command<H>>, name: Seq<char>)
    requires
        unique_names(cmds),
    ensures
        count_named(cmds, name) == if exists|i: int|
            0 <= i < cmds.len() && cmds[i].name@ == name {
            1nat
        } else {
            0nat
        },
    decreases cmds.len(),
{
    if cmds.len() > 0 {
        let rest = cmds.drop_first();
        assert(forall|i: int| 0 <= i < rest.len() ==> rest[i] == cmds[i + 1]);
        if cmds[0].name@ == name {
            lemma_count_named_zero(rest, name);
        } else {
            lemma_count_named_unique(rest, name);
            if exists|i: int| 0 <= i < cmds.len() && cmds[i].name@ == name {
                let i = choose|i: int| 0 <= i < cmds.len() && cmds[i].name@ == name;
                assert(rest[i - 1].name@ == name);
            }
        }
    }
}

/// Registering the same command name twice returns the previously
/// registered command, overwrites it in place, and leaves exactly one
/// entry with that name: the second registration wins.
pub proof fn lemma_register_twice<H>(cmds: Seq<Command<H>>, c1: Command<H>, c2: Command<H>)
    requires
        unique_names(cmds),
        c1.name@ == c2.name@,
    ensures
        spec_displaced(spec_inserted(cmds, c1), c2) == Some(c1),
        spec_inserted(spec_inserted(cmds, c1), c2).len() == spec_inserted(cmds, c1).len(),
        count_named(spec_inserted(spec_inserted(cmds, c1), c2), c2.name@) == 1,
        unique_names(spec_inserted(spec_inserted(cmds, c1), c2)),
{
    lemma_find_named(cmds, c1.name@);
    lemma_inserted_unique(cmds, c1);
    let s1 = spec_inserted(cmds, c1);
    lemma_find_named(s1, c2.name@);
    lemma_inserted_unique(s1, c2);
    let s2 = spec_inserted(s1, c2);
    match find_named(cmds, c1.name@) {
        Some(i) => {
            assert(s1[i] == c1);
            assert(find_named(s1, c2.name@) == Some(i));
        },
        None => {
            let n = cmds.len() as int;
            assert(s1[n] == c1);
            assert(find_named(s1, c2.name@) == Some(n));
        },
    }
    let k = find_named(s1, c2.name@).unwrap();
    assert(s2[k].name@ == c2.name@);
    lemma_count_named_unique(s2, c2.name@);
}

/// Register a command in a list: an existing command with the same name
/// is displaced and returned; the insertion happens regardless.
pub(crate) fn insert_command<H>(cmds: &mut Vec<Command<H>>, command: Command<H>) -> (r: Option<
    Command<H>,
>)
    ensures
        final(cmds)@ == spec_inserted(old(cmds)@, command),
        r == spec_displaced(old(cmds)@, command),
{
    let found = find_in(cmds, &command.name);
    match found {
        Some(i) => {
            let n = cmds.len();
            proof {
                lemma_find_named(old(cmds)@, command.name@);
                assert(i < n);
            }
            cmds.insert(i, command);
            let displaced = cmds.remove(i + 1);
            proof {
                assert(cmds@ =~= spec_inserted(old(cmds)@, command));
            }
            Some(displaced)
        },
        None => {
            cmds.push(command);
            None
        },
    }
}

/// The command a token sequence resolves to, with the residual tokens:
/// walk into the first subcommand whose name matches the next token for
/// as long as there is one.
pub open spec fn spec_resolve<H>(c: Command<H>, toks: Seq<Seq<char>>) -> (Command<H>, Seq<
    Seq<char>,
>)
    decreases toks.len(),
{
    if toks.len() > 0 && find_named(c.subcommands@, toks[0]) is Some {
        spec_resolve(
            c.subcommands@[find_named(c.subcommands@, toks[0]).unwrap()],
            toks.drop_first(),
        )
    } else {
        (c, toks)
    }
}

/// What a synchronous dispatch of `toks` against `c` guarantees: the
/// walk resolves `toks` to a command and a residual.  If the resolved
/// callback is asynchronous, the dispatch fails with
/// [`HandleError::AsyncCallbackMisuse`] and the state is untouched.  If
/// it is synchronous, that callback ran once on the state with exactly
/// the residual tokens, and its own error, if any, is carried verbatim.
pub open spec fn dispatch_post<H: Handler>(
    c: Command<H>,
    pre: H::State,
    post: H::State,
    toks: Seq<Seq<char>>,
    r: Result<(), HandleError<H::Error>>,
) -> bool {
    let (node, rest) = spec_resolve(c, toks);
    match node.callback {
        FnType::Sync(h) => match r {
            Ok(_) => h.outcome(pre, rest, post, None),
            Err(HandleError::Callback(e)) => h.outcome(pre, rest, post, Some(e)),
            Err(HandleError::AsyncCallbackMisuse) => false,
        },
        FnType::Async(_) => r == Err::<(), HandleError<H::Error>>(
            HandleError::AsyncCallbackMisuse,
        ) && post == pre,
    }
}

/// A dispatch that resolves to a command whose callback is asynchronous
/// yields [`HandleError::AsyncCallbackMisuse`] through the synchronous
/// path, and the callback never runs: the state is exactly the state
/// before the call.
pub proof fn lemma_async_misuse<H: Handler>(
    c: Command<H>,
    pre: H::State,
    post: H::State,
    toks: Seq<Seq<char>>,
    r: Result<(), HandleError<H::Error>>,
)
    requires
        spec_resolve(c, toks).0.callback is Async,
        dispatch_post(c, pre, post, toks, r),
    ensures
        r == Err::<(), HandleError<H::Error>>(HandleError::AsyncCallbackMisuse),
        post == pre,
{
}

/// Clone a token slice into an owned argument vector.
pub(crate) fn tokens_to_vec(toks: &[String]) -> (r: Vec<String>)
    ensures
        r.deep_view() == toks.deep_view(),
{
    let n = toks.len();
    let mut out: Vec<String> = Vec::new();
    let mut i: usize = 0;
    while i < n
        invariant
            n == toks@.len(),
            i <= n,
            out@.len() == i,
            forall|j: int| 0 <= j < i ==> out@[j]@ == toks@[j]@,
        decreases n - i,
    {
        out.push(toks[i].clone());
        i += 1;
    }
    proof {
        assert(out.deep_view() =~= toks.deep_view());
    }
    out
}

/// The display line of one command at a given indent: the indented,
/// marked name, dot-padded to a fixed column, then the help text.
pub open spec fn spec_line<H>(c: Command<H>, ind: Seq<char>) -> Seq<char> {
    pad_dots(ind + "|-- "@ + c.name@ + " "@) + " "@ + c.help@ + "\n"@
}

/// The display of a command list at a given indent: each command's line
/// followed by the display of its subcommands, one indent level deeper.
pub open spec fn spec_render<H>(cmds: Seq<Command<H>>, ind: Seq<char>) -> Seq<char>
    decreases cmds,
{
    if cmds.len() == 0 {
        Seq::empty()
    } else {
        spec_line(cmds[0], ind) + spec_render(cmds[0].subcommands@, ind + "|  "@) + spec_render(
            cmds.drop_first(),
            ind,
        )
    }
}

/// The display of one command and all its descendants, starting at the
/// given depth.
pub open spec fn spec_info<H>(c: Command<H>, depth: nat) -> Seq<char> {
    spec_line(c, spec_indent(depth)) + spec_render(c.subcommands@, spec_indent(depth + 1))
}

fn render_line<H: Handler>(c: &Command<H>, ind: &str) -> (r: String)
    ensures
        r@ == spec_line(*c, ind@),
{
    let mut s = String::new();
    s.append(ind);
    s.append("|-- ");
    s.append(c.name.as_str());
    s.append(" ");
    proof {
        assert(s@ =~= ind@ + "|-- "@ + c.name@ + " "@);
    }
    let mut padded = pad_to_width(s);
    padded.append(" ");
    padded.append(c.help.as_str());
    padded.append("\n");
    proof {
        assert(padded@ =~= spec_line(*c, ind@));
    }
    padded
}

pub(crate) fn render_slice<H: Handler>(cmds: &[Command<H>], ind: &str) -> (r: String)
    ensures
        r@ == spec_render(cmds@, ind@),
    decreases cmds@,
{
    if cmds.len() == 0 {
        let out = String::new();
        proof {
            assert(out@ =~= spec_render(cmds@, ind@));
        }
        out
    } else {
        let first = vstd::slice::slice_index_get(cmds, 0);
        let mut out = render_line(first, ind);
        let mut child_ind = String::new();
        child_ind.append(ind);
        child_ind.append("|  ");
        let sub = render_slice(first.subcommands.as_slice(), child_ind.as_str());
        out.append(sub.as_str());
        let restsl = vstd::slice::slice_subrange(cmds, 1, cmds.len());
        let rest = render_slice(restsl, ind);
        out.append(rest.as_str());
        proof {
            assert(restsl@ =~= cmds@.drop_first());
            assert(out@ =~= spec_render(cmds@, ind@));
        }
        out
    }
}

impl<H: Handler> Command<H> {
    /// Render this command and all descendants as an indented tree, for
    /// human display: the indent marker is repeated once per depth, and
    /// each line shows the name and the help text at a fixed column.
    pub fn info(&self, depth: usize) -> (r: String)
        ensures
            r@ == spec_info(*self, depth as nat),
    {
        let ind = make_indent(depth);
        let mut out = render_line(self, ind.as_str());
        let mut child_ind = ind;
        child_ind.append("|  ");
        proof {
            assert(child_ind@ == spec_indent(depth as nat + 1));
        }
        let sub = render_slice(self.subcommands.as_slice(), child_ind.as_str());
        out.append(sub.as_str());
        out
    }

    /// The command's invariant: subcommand names are unique among its
    /// children.  Constructors establish it and registration keeps it.
    pub open spec fn wf(&self) -> bool {
        unique_names(self.subcommands@)
    }

    /// Add a new subcommand to this command.  A subcommand with the same
    /// name is displaced and returned, so the caller can detect a silent
    /// overwrite; the insertion happens regardless.
    pub fn add_subcommand(&mut self, command: Command<H>) -> (r: Option<Command<H>>)
        ensures
            final(self).name == old(self).name,
            final(self).help == old(self).help,
            final(self).callback == old(self).callback,
            final(self).subcommands@ == spec_inserted(old(self).subcommands@, command),
            r == spec_displaced(old(self).subcommands@, command),
            old(self).wf() ==> final(self).wf(),
    {
        proof {
            if old(self).wf() {
                lemma_inserted_unique(old(self).subcommands@, command);
            }
        }
        insert_command(&mut self.subcommands, command)
    }

    /// Handle a token sequence: walk into matching subcommands, then run
    /// this command's callback on the residual tokens.  If the resolved
    /// callback is asynchronous this fails, because the synchronous path
    /// will not drive it.
    pub fn handle(&self, state: &mut H::State, prompt: &[String]) -> (r: Result<
        (),
        HandleError<H::Error>,
    >)
        ensures
            dispatch_post(*self, *old(state), *final(state), prompt.deep_view(), r),
        decreases prompt.len(),
    {
        if prompt.len() > 0 {
            if let Some(i) = find_in(&self.subcommands, &prompt[0]) {
                let sub = &self.subcommands[i];
                let rest = vstd::slice::slice_subrange(prompt, 1, prompt.len());
                proof {
                    assert(rest.deep_view() =~= prompt.deep_view().drop_first());
                    assert(prompt.deep_view()[0] == prompt@[0]@);
                    assert(spec_resolve(*self, prompt.deep_view()) == spec_resolve(
                        *sub,
                        rest.deep_view(),
                    ));
                }
                return sub.handle(state, rest);
            }
        }
        proof {
            if prompt.deep_view().len() > 0 {
                assert(prompt.deep_view()[0] == prompt@[0]@);
            }
            assert(spec_resolve(*self, prompt.deep_view()) == (
                *self,
                prompt.deep_view(),
            ));
        }
        match &self.callback {
            FnType::Sync(h) => {
                let args = tokens_to_vec(prompt);
                let res = h.call(state, args);
                match res {
                    Ok(()) => Ok(()),
                    Err(e) => Err(HandleError::Callback(e)),
                }
            },
            FnType::Async(_) => Err(HandleError::AsyncCallbackMisuse),
        }
    }
}

} // verus!
