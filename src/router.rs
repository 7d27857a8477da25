//! The decision a tool takes once its top-level arguments are decoded.
use vstd::prelude::*;

use crate::listing::{list_lines, listing_of};
use crate::table::{CommandModel, CommandSpec, RouteTable};
use crate::text::{trim, trim_of};

verus! {

/// The status a process ends with after it showed the top-level help or the
/// listing of commands.
pub const ABORT_STATUS: i32 = -1;

/// The decoded top-level command line.
///
/// `selected`, when present, is the position of the chosen command in the
/// table the line was decoded against.
pub struct TopLevelParsed {
    pub selected: Option<usize>,
    pub forwarded_args: Vec<String>,
    pub help: bool,
    pub list: bool,
    pub verbose: bool,
}

/// The model of a [`TopLevelParsed`].
pub struct TopLevelModel {
    pub selected: Option<usize>,
    pub forwarded_args: Seq<Seq<char>>,
    pub help: bool,
    pub list: bool,
    pub verbose: bool,
}

/// The views of a sequence of strings.
pub open spec fn texts_of(v: Seq<String>) -> Seq<Seq<char>> {
    v.map_values(|s: String| s@)
}

impl View for TopLevelParsed {
    type V = TopLevelModel;

    open spec fn view(&self) -> TopLevelModel {
        TopLevelModel {
            selected: self.selected,
            forwarded_args: texts_of(self.forwarded_args@),
            help: self.help,
            list: self.list,
            verbose: self.verbose,
        }
    }
}

/// A selection, if any, names an entry of a table of `len` entries.
pub open spec fn selects_within(p: TopLevelModel, len: nat) -> bool {
    p.selected matches Some(i) ==> i < len
}

/// Why a command line could not be routed.
#[derive(Debug, PartialEq, Eq)]
pub enum RouteError {
    /// No entry of the table is named by the command token.
    UnknownCommand { token: String },
}

impl TopLevelParsed {
    /// Builds the decoded top-level line from its parts, the command given by
    /// the token that names it. A token that names no entry of `table` is
    /// refused, so that whatever reaches [`resolve`] selects an entry.
    pub fn new(
        table: &RouteTable,
        command: Option<&str>,
        forwarded_args: Vec<String>,
        help: bool,
        list: bool,
        verbose: bool,
    ) -> (r: Result<TopLevelParsed, RouteError>)
        ensures
            r is Err <==> (command matches Some(c) && forall|i: int|
                0 <= i < table@.len() ==> (#[trigger] table@[i]).name != Some(c@)),
            r matches Err(RouteError::UnknownCommand { token }) ==> command matches Some(c)
                && token@ == c@,
            r matches Ok(p) ==> {
                &&& selects_within(p@, table@.len())
                &&& p.selected is None <==> command is None
                &&& (p.selected matches Some(i) ==> command matches Some(c) && table@[i as int].name
                    == Some(c@))
                &&& p.forwarded_args@ == forwarded_args@
                &&& p.help == help && p.list == list && p.verbose == verbose
            },
    {
        let selected = match command {
            None => None,
            Some(c) => match table.find(c) {
                Some(i) => Some(i),
                None => {
                    return Err(RouteError::UnknownCommand { token: c.to_string() });
                },
            },
        };
        Ok(TopLevelParsed { selected, forwarded_args, help, list, verbose })
    }
}

/// What a tool does after its top-level line is decoded.
pub enum Action {
    /// Print the usage text of the entry at `index`; nothing is run.
    CommandHelp { index: usize, text: String },
    /// Print the tool's own usage text, then end with [`ABORT_STATUS`].
    TopHelp { text: String },
    /// Print these lines, then end with [`ABORT_STATUS`].
    List { lines: Vec<String> },
    /// Decode `args` by the usage of the entry at `index` and run that command.
    Dispatch { index: usize, args: Vec<String> },
    /// Print the tool's own usage text and end successfully.
    TopUsage { text: String },
}

/// The model of an [`Action`].
pub enum ActionModel {
    CommandHelp(usize, Seq<char>),
    TopHelp(Seq<char>),
    List(Seq<Seq<char>>),
    Dispatch(usize, Seq<Seq<char>>),
    TopUsage(Seq<char>),
}

impl View for Action {
    type V = ActionModel;

    open spec fn view(&self) -> ActionModel {
        match self {
            Action::CommandHelp { index, text } => ActionModel::CommandHelp(*index, text@),
            Action::TopHelp { text } => ActionModel::TopHelp(text@),
            Action::List { lines } => ActionModel::List(texts_of(lines@)),
            Action::Dispatch { index, args } => ActionModel::Dispatch(*index, texts_of(args@)),
            Action::TopUsage { text } => ActionModel::TopUsage(text@),
        }
    }
}

impl Action {
    /// The status the process ends with right after this action, if it ends
    /// there: the top-level help and the listing end it.
    pub fn exit_status(&self) -> (r: Option<i32>)
        ensures
            r == (match self@ {
                ActionModel::TopHelp(_) | ActionModel::List(_) => Some(ABORT_STATUS),
                _ => None::<i32>,
            }),
    {
        match self {
            Action::TopHelp { .. } | Action::List { .. } => Some(ABORT_STATUS),
            _ => None,
        }
    }
}

/// The arguments a command is handed: the forwarded ones, after the
/// command's own name if it has one.
pub open spec fn forwarded_of(e: CommandModel, args: Seq<Seq<char>>) -> Seq<Seq<char>> {
    match e.name {
        Some(n) => seq![n] + args,
        None => args,
    }
}

/// The action for the decoded line `p` of a tool with commands `t` and
/// usage text `top`.
///
/// Help comes first, the listing next; then the selected command runs, or
/// without one the tool's usage is shown.
pub open spec fn route_of(p: TopLevelModel, t: Seq<CommandModel>, top: Seq<char>) -> ActionModel {
    if p.help {
        match p.selected {
            Some(i) => ActionModel::CommandHelp(i, trim_of(t[i as int].usage)),
            None => ActionModel::TopHelp(trim_of(top)),
        }
    } else if p.list {
        ActionModel::List(listing_of(t))
    } else {
        match p.selected {
            Some(i) => ActionModel::Dispatch(i, forwarded_of(t[i as int], p.forwarded_args)),
            None => ActionModel::TopUsage(top),
        }
    }
}

/// Help on a selected command shows that command's usage, trimmed, and
/// nothing else; the listing flag does not matter then, and nothing runs.
pub proof fn lemma_help_on_command(p: TopLevelModel, t: Seq<CommandModel>, top: Seq<char>, i: usize)
    requires
        p.help,
        p.selected == Some(i),
        i < t.len(),
    ensures
        route_of(p, t, top) == ActionModel::CommandHelp(i, trim_of(t[i as int].usage)),
{
}

/// Help without a selected command shows the tool's usage, trimmed, and the
/// process then ends with a status other than 0.
pub proof fn lemma_help_on_tool(p: TopLevelModel, t: Seq<CommandModel>, top: Seq<char>)
    requires
        p.help,
        p.selected is None,
    ensures
        route_of(p, t, top) == ActionModel::TopHelp(trim_of(top)),
        ABORT_STATUS != 0,
{
}

/// A named command gets its own name in front of the forwarded arguments;
/// an unnamed one gets them unchanged.
pub proof fn lemma_forwarding(p: TopLevelModel, t: Seq<CommandModel>, top: Seq<char>, i: usize)
    requires
        !p.help,
        !p.list,
        p.selected == Some(i),
        i < t.len(),
    ensures
        route_of(p, t, top) matches ActionModel::Dispatch(j, args) && j == i && match t[i as int].name {
            Some(n) => args.len() == p.forwarded_args.len() + 1 && args[0] == n && args.drop_first()
                == p.forwarded_args,
            None => args == p.forwarded_args,
        },
{
    if let Some(n) = t[i as int].name {
        assert((seq![n] + p.forwarded_args).drop_first() =~= p.forwarded_args);
    }
}

/// Without flags and without a selected command the tool's usage is shown
/// as it is and the process goes on to end successfully.
pub proof fn lemma_no_selection(p: TopLevelModel, t: Seq<CommandModel>, top: Seq<char>)
    requires
        !p.help,
        !p.list,
        p.selected is None,
    ensures
        route_of(p, t, top) == ActionModel::TopUsage(top),
{
}

/// The arguments that `command` is run with.
pub fn forward_args(command: &CommandSpec, args: &Vec<String>) -> (r: Vec<String>)
    ensures
        texts_of(r@) == forwarded_of(command@, texts_of(args@)),
{
    let mut r: Vec<String> = Vec::new();
    match &command.name {
        Some(n) => r.push(n.clone()),
        None => {},
    }
    let ghost start = r@;
    let n = args.len();
    let mut i: usize = 0;
    while i < n
        invariant
            n == args@.len(),
            i <= n,
            r@.len() == start.len() + i,
            r@.subrange(0, start.len() as int) == start,
            forall|k: int| 0 <= k < i ==> (#[trigger] r@[start.len() + k])@ == args@[k]@,
        decreases n - i,
    {
        r.push(args[i].clone());
        assert(r@.subrange(0, start.len() as int) =~= start);
        i = i + 1;
    }
    proof {
        let want = forwarded_of(command@, texts_of(args@));
        let got = texts_of(r@);
        if command.name is Some {
            assert(r@[0] == start[0]);
            assert forall|k: int| 0 <= k < got.len() implies got[k] == want[k] by {
                if k >= 1 {
                    assert(r@[1 + (k - 1)] == r@[k]);
                }
            }
        } else {
            assert forall|k: int| 0 <= k < got.len() implies got[k] == want[k] by {
                assert(r@[0 + k] == r@[k]);
            }
        }
        assert(got =~= want);
    }
    r
}

/// Decides what to do with the decoded line `parsed` of a tool whose
/// commands are `table` and whose own usage text is `top_usage`.
pub fn resolve(parsed: &TopLevelParsed, table: &RouteTable, top_usage: &str) -> (r: Action)
    requires
        selects_within(parsed@, table@.len()),
    ensures
        r@ == route_of(parsed@, table@, top_usage@),
{
    if parsed.help {
        match parsed.selected {
            Some(i) => {
                let text = trim(table.get(i).usage.as_str()).to_string();
                Action::CommandHelp { index: i, text }
            },
            None => Action::TopHelp { text: trim(top_usage).to_string() },
        }
    } else if parsed.list {
        Action::List { lines: list_lines(table) }
    } else {
        match parsed.selected {
            Some(i) => Action::Dispatch {
                index: i,
                args: forward_args(table.get(i), &parsed.forwarded_args),
            },
            None => Action::TopUsage { text: top_usage.to_string() },
        }
    }
}

} // verus!
