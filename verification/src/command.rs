//! The model of one external mutation: a program and its arguments.
//!
//! The drivers execute a `Cmd` or, in dry-run mode, print it; `render`
//! fixes the printed form, so the dry-run log line is indistinguishable in
//! content from the command line of a real invocation.
use vstd::prelude::*;

use crate::strkit::{spec_join, views_of};

verus! {

broadcast use crate::strkit::lemma_views_push, crate::strkit::lemma_views_empty;

/// One external command: the program to spawn and its arguments, in order.
pub struct Cmd {
    pub program: String,
    pub args: Vec<String>,
}

#[verifier::ext_equal]
pub ghost struct CmdView {
    pub program: Seq<char>,
    pub args: Seq<Seq<char>>,
}

impl View for Cmd {
    type V = CmdView;

    open spec fn view(&self) -> CmdView {
        CmdView { program: self.program@, args: views_of(self.args@) }
    }
}

/// The command line of a command: the program, a space, and the arguments
/// joined by spaces.
pub open spec fn spec_render(c: CmdView) -> Seq<char> {
    c.program + " "@ + spec_join(c.args, " "@)
}

impl Cmd {
    /// The command line, as both the executing and the dry-run reporting
    /// paths print it: identical in content either way.
    pub fn render(&self) -> (r: String)
        ensures
            r@ == spec_render(self@),
    {
        let mut out = self.program.clone();
        out.append(" ");
        let joined = crate::strkit::join(&self.args, " ");
        out.append(joined.as_str());
        out
    }
}

/// Append one argument to an argument list.
pub fn push_arg(args: &mut Vec<String>, arg: &str)
    ensures
        views_of(final(args)@) == views_of(old(args)@).push(arg@),
{
    args.push(String::from_str(arg));
    proof {
        assert(views_of(args@) =~= views_of(old(args)@).push(arg@));
    }
}

/// The views of a vector of commands.
pub open spec fn cmd_views(v: Seq<Cmd>) -> Seq<CmdView> {
    Seq::new(v.len(), |i: int| v[i]@)
}

/// Appending a command appends its view.
pub broadcast proof fn lemma_cmd_views_push(v: Seq<Cmd>, c: Cmd)
    ensures
        #[trigger] cmd_views(v.push(c)) == cmd_views(v).push(c@),
{
    assert forall|idx: int| 0 <= idx < v.push(c).len() implies cmd_views(v.push(c))[idx]
        == cmd_views(v).push(c@)[idx] by {
        if idx < v.len() {
            assert(v.push(c)[idx] == v[idx]);
        } else {
            assert(v.push(c)[idx] == c);
        }
    }
    assert(cmd_views(v.push(c)) =~= cmd_views(v).push(c@));
}

/// An empty vector of commands has an empty view.
pub broadcast proof fn lemma_cmd_views_empty(v: Seq<Cmd>)
    ensures
        v.len() == 0 ==> #[trigger] cmd_views(v) == Seq::<CmdView>::empty(),
{
    if v.len() == 0 {
        assert(cmd_views(v) =~= Seq::<CmdView>::empty());
    }
}

/// Build a command from its program and arguments.
pub fn cmd1(program: &str, a0: &str) -> (r: Cmd)
    ensures
        r@.program == program@,
        r@.args == seq![a0@],
{
    let mut args: Vec<String> = Vec::new();
    push_arg(&mut args, a0);
    proof {
        assert(crate::strkit::views_of(args@) =~= seq![a0@]);
    }
    Cmd { program: String::from_str(program), args }
}

/// Build a command from its program and two arguments.
pub fn cmd2(program: &str, a0: &str, a1: &str) -> (r: Cmd)
    ensures
        r@.program == program@,
        r@.args == seq![a0@, a1@],
{
    let mut args: Vec<String> = Vec::new();
    push_arg(&mut args, a0);
    push_arg(&mut args, a1);
    proof {
        assert(crate::strkit::views_of(args@) =~= seq![a0@, a1@]);
    }
    Cmd { program: String::from_str(program), args }
}

/// The confirmation gate before a destructive step: under the flag that
/// skips prompts the answer is yes; otherwise the operator must be asked.
pub fn confirm_or_yes(yes: bool) -> (r: Option<bool>)
    ensures
        yes ==> r == Some(true),
        !yes ==> r is None,
{
    if yes {
        Some(true)
    } else {
        None
    }
}

} // verus!
