//! Work on a node over SSH, as the library sees it. Each procedure on a
//! node (starting a VM, setting up the hypervisor, ...) is a state
//! machine: from its stage and the reply to the last command it decides
//! the next stage and the one action the caller performs next. The caller
//! owns the connection, performs the action and hands back the reply.
use vstd::prelude::*;
use crate::text::{push_str, string_of};

verus! {

/// What came back from a command run on the node.
#[derive(Debug)]
pub struct Reply {
    pub output: String,
    pub status: i32,
}

pub struct ReplyView {
    pub output: Seq<char>,
    pub status: i32,
}

impl View for Reply {
    type V = ReplyView;

    open spec fn view(&self) -> ReplyView {
        ReplyView { output: self.output@, status: self.status }
    }
}

impl Reply {
    /// The reply handed back after an action that runs nothing.
    pub fn none() -> (r: Reply)
        ensures
            r@.output.len() == 0,
            r@.status == 0,
    {
        Reply { output: String::new(), status: 0 }
    }
}

/// The next thing the caller does for a procedure.
#[derive(Debug)]
pub enum Action {
    /// Run a command on the node; hand back its output and exit status
    /// (a failure to run it at all ends the procedure with that error).
    Run { command: String },
    /// Run a command on the node whose outcome does not matter.
    Send { command: String },
    /// Print a line on standard output.
    Say { text: String },
    /// Print a line on standard error.
    Warn { text: String },
    /// Wait this many seconds.
    Sleep { seconds: u64 },
    /// Let later commands take up to this many seconds.
    Timeout { seconds: u64 },
    /// The procedure succeeded.
    Finish,
    /// The procedure failed with this message.
    Fail { message: String },
}

pub enum ActionView {
    Run(Seq<char>),
    Send(Seq<char>),
    Say(Seq<char>),
    Warn(Seq<char>),
    Sleep(u64),
    Timeout(u64),
    Finish,
    Fail(Seq<char>),
}

impl View for Action {
    type V = ActionView;

    open spec fn view(&self) -> ActionView {
        match self {
            Action::Run { command } => ActionView::Run(command@),
            Action::Send { command } => ActionView::Send(command@),
            Action::Say { text } => ActionView::Say(text@),
            Action::Warn { text } => ActionView::Warn(text@),
            Action::Sleep { seconds } => ActionView::Sleep(*seconds),
            Action::Timeout { seconds } => ActionView::Timeout(*seconds),
            Action::Finish => ActionView::Finish,
            Action::Fail { message } => ActionView::Fail(message@),
        }
    }
}

pub fn run(command: String) -> (r: Action)
    ensures
        r@ == ActionView::Run(command@),
{
    Action::Run { command }
}

pub fn send(command: String) -> (r: Action)
    ensures
        r@ == ActionView::Send(command@),
{
    Action::Send { command }
}

pub fn say(text: String) -> (r: Action)
    ensures
        r@ == ActionView::Say(text@),
{
    Action::Say { text }
}

pub fn fail(message: String) -> (r: Action)
    ensures
        r@ == ActionView::Fail(message@),
{
    Action::Fail { message }
}

/// `a` followed by `b`.
pub fn cat2(a: &str, b: &str) -> (r: String)
    ensures
        r@ == a@ + b@,
{
    let mut v: Vec<char> = Vec::new();
    push_str(&mut v, a);
    push_str(&mut v, b);
    string_of(&v)
}

/// `a`, `b` and `c` in a row.
pub fn cat3(a: &str, b: &str, c: &str) -> (r: String)
    ensures
        r@ == a@ + b@ + c@,
{
    let mut v: Vec<char> = Vec::new();
    push_str(&mut v, a);
    push_str(&mut v, b);
    push_str(&mut v, c);
    string_of(&v)
}

/// Four pieces in a row.
pub fn cat4(a: &str, b: &str, c: &str, d: &str) -> (r: String)
    ensures
        r@ == a@ + b@ + c@ + d@,
{
    let mut v: Vec<char> = Vec::new();
    push_str(&mut v, a);
    push_str(&mut v, b);
    push_str(&mut v, c);
    push_str(&mut v, d);
    string_of(&v)
}

/// Five pieces in a row.
pub fn cat5(a: &str, b: &str, c: &str, d: &str, e: &str) -> (r: String)
    ensures
        r@ == a@ + b@ + c@ + d@ + e@,
{
    let mut v: Vec<char> = Vec::new();
    push_str(&mut v, a);
    push_str(&mut v, b);
    push_str(&mut v, c);
    push_str(&mut v, d);
    push_str(&mut v, e);
    string_of(&v)
}

} // verus!
