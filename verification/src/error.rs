//! The errors a dispatch or an argument binding can surface.

use vstd::prelude::*;

use crate::render::spec_digits;
use crate::render::usize_to_string;
use vstd::string::*;

verus! {

/// A failure surfaced by a dispatch.
///
/// An unrecognized top-level command is not an error: the dispatcher
/// silently ignores it.
pub enum HandleError<E> {
    /// The synchronous dispatch path reached a command whose callback is
    /// asynchronous.  The framework does not block on behalf of the
    /// caller; the callback is not run at all.
    AsyncCallbackMisuse,
    /// The command's own callback failed; its error is carried verbatim.
    Callback(E),
}

/// A binding failure: the first missing or unparsable argument.
#[derive(Debug)]
pub enum BindError {
    /// A token was required at a position but the token list was
    /// shorter.
    Missing(MissingArgumentError),
    /// A token existed but failed to parse into the declared type.
    Wrong(WrongArgumentError),
}

/// Describes an error where there is no argument at an expected position.
#[derive(Debug)]
pub struct MissingArgumentError {
    /// The name of the argument.
    pub name: String,
    /// The position of the argument.
    pub position: usize,
    /// The type of the argument in string form.
    pub ty: String,
}

/// The display text of a [`MissingArgumentError`].
pub open spec fn spec_missing_message(name: Seq<char>, position: nat, ty: Seq<char>) -> Seq<char> {
    "Argument '"@ + name + "' at position #"@ + spec_digits(position) + " of type '"@ + ty
        + "' not found"@
}

impl MissingArgumentError {
    /// The error rendered as text, for diagnostics.
    pub fn message(&self) -> (r: String)
        ensures
            r@ == spec_missing_message(self.name@, self.position as nat, self.ty@),
    {
        let mut out = String::new();
        out.append("Argument '");
        out.append(self.name.as_str());
        out.append("' at position #");
        let digits = usize_to_string(self.position);
        out.append(digits.as_str());
        out.append(" of type '");
        out.append(self.ty.as_str());
        out.append("' not found");
        proof {
            assert(out@ =~= spec_missing_message(self.name@, self.position as nat, self.ty@));
        }
        out
    }
}

/// Describes an error where there is an argument, but it cannot be
/// parsed to the desired type.
#[derive(Debug)]
pub struct WrongArgumentError {
    /// The name of the argument.
    pub name: String,
    /// The position of the argument.
    pub position: usize,
    /// The type of the argument in string form.
    pub ty: String,
    /// The inner error describing what exactly went wrong.
    pub inner: String,
}

/// The display text of a [`WrongArgumentError`].
pub open spec fn spec_wrong_message(
    name: Seq<char>,
    position: nat,
    ty: Seq<char>,
    inner: Seq<char>,
) -> Seq<char> {
    "Failed to parse argument '"@ + name + "' at position #"@ + spec_digits(position)
        + " of type '"@ + ty + "': "@ + inner
}

impl WrongArgumentError {
    /// The error rendered as text, for diagnostics.
    pub fn message(&self) -> (r: String)
        ensures
            r@ == spec_wrong_message(
                self.name@,
                self.position as nat,
                self.ty@,
                self.inner@,
            ),
    {
        let mut out = String::new();
        out.append("Failed to parse argument '");
        out.append(self.name.as_str());
        out.append("' at position #");
        let digits = usize_to_string(self.position);
        out.append(digits.as_str());
        out.append(" of type '");
        out.append(self.ty.as_str());
        out.append("': ");
        out.append(self.inner.as_str());
        proof {
            assert(out@ =~= spec_wrong_message(
                self.name@,
                self.position as nat,
                self.ty@,
                self.inner@,
            ));
        }
        out
    }
}

} // verus!
