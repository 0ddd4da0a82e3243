//! The command tree the parser builds, together with its mathematical
//! model: every node type has a ghost view, and the one normalization the
//! tree performs (collapsing a single-stage, non-inverted pipeline into the
//! bare command) is stated as a spec function.

use crate::token::Token;
use vstd::prelude::*;

verus! {

/// Ghost model of a parsed redirect list (the grammar subset attaches none).
pub ghost struct RedirectListView {}

/// Ghost model of one command node.
pub ghost struct CommandView {
    pub asynchronous: bool,
    pub command: CommandTypeView,
    pub redirects: Option<RedirectListView>,
}

/// Ghost model of the syntactic form of a command.
pub ghost enum CommandTypeView {
    Pipeline(PipelineView),
    SimpleCommand(SimpleCommandView),
    BraceGroup(Seq<CommandView>),
    Subshell(Seq<CommandView>),
    ForEach(ForEachView),
    If(IfView),
    UntilLoop(UntilLoopView),
    WhileLoop(WhileLoopView),
}

/// Ghost model of a pipeline: an optionally negated, nonempty stage list.
pub ghost struct PipelineView {
    pub inverted: bool,
    pub commands: Seq<CommandView>,
}

/// Ghost model of an `If` node; the `&&`/`||` shorthand populates exactly
/// one of the two branches.
pub ghost struct IfView {
    pub condition: Seq<CommandView>,
    pub true_part: Option<Seq<CommandView>>,
    pub false_part: Option<Seq<CommandView>>,
}

pub ghost struct UntilLoopView {
    pub body: Seq<CommandView>,
    pub condition: Seq<CommandView>,
}

pub ghost struct WhileLoopView {
    pub condition: Seq<CommandView>,
    pub body: Seq<CommandView>,
}

pub ghost struct ForEachView {
    pub wordlist: Seq<Token>,
    pub body: Seq<CommandView>,
}

/// Ghost model of a simple command.
pub ghost struct SimpleCommandView {
    pub assignments: Seq<Token>,
    pub file_redirects: Seq<FileRedirection>,
    pub fd_dups: Seq<FdDuplication>,
    pub words: Seq<Token>,
    pub asynchronous: bool,
}

/// One node of the command tree.
#[derive(Debug, PartialEq, Eq)]
pub struct Command {
    pub asynchronous: bool,
    pub command: CommandType,
    pub redirects: Option<RedirectList>,
}

/// Redirects attached to a compound command (none in this grammar subset).
#[derive(Debug, PartialEq, Eq)]
pub struct RedirectList {}

/// The syntactic form of a command.
#[derive(Debug, PartialEq, Eq)]
pub enum CommandType {
    Pipeline(Pipeline),
    SimpleCommand(SimpleCommand),
    BraceGroup(CompoundList),
    Subshell(CompoundList),
    ForEach(ForEach),
    If(If),
    UntilLoop(UntilLoop),
    WhileLoop(WhileLoop),
}

/// A `!`-negatable sequence of one or more commands joined by `|`.
#[derive(Debug, PartialEq, Eq)]
pub struct Pipeline {
    /// true if the pipeline starts with a bang
    pub inverted: bool,
    pub commands: Vec<Command>,
}

/// An ordered, possibly empty command list: a parsed script or sub-block.
#[derive(Debug, PartialEq, Eq)]
pub struct CompoundList {
    pub commands: Vec<Command>,
}

/// A conditional; built by the `&&`/`||` shorthand with exactly one of the
/// two optional branches populated.
#[derive(Debug, PartialEq, Eq)]
pub struct If {
    pub condition: CompoundList,
    pub true_part: Option<CompoundList>,
    pub false_part: Option<CompoundList>,
}

/// A loop whose body runs until the condition succeeds.
#[derive(Debug, PartialEq, Eq)]
pub struct UntilLoop {
    pub body: CompoundList,
    pub condition: CompoundList,
}

/// A loop whose body runs while the condition succeeds.
#[derive(Debug, PartialEq, Eq)]
pub struct WhileLoop {
    pub condition: CompoundList,
    pub body: CompoundList,
}

/// Iteration of a body over a word list.
#[derive(Debug, PartialEq, Eq)]
pub struct ForEach {
    pub wordlist: Vec<Token>,
    pub body: CompoundList,
}

/// A redirection of a file descriptor to or from a named file.
#[derive(Debug, Clone, PartialEq, Eq)]
pub struct FileRedirection {
    pub fd_number: usize,
    pub file_name: Token,
    /// `<` or `<>`
    pub input: bool,
    /// `>` or `<>`
    pub output: bool,
    /// `>|`
    pub clobber: bool,
    /// `>>`
    pub append: bool,
}

/// Duplicate `src_fd_number` into `dest_fd_number` for the child process.
#[derive(Debug, Clone, PartialEq, Eq)]
pub struct FdDuplication {
    pub src_fd_number: usize,
    pub dest_fd_number: usize,
}

/// A command word, its arguments, leading assignments, and redirections.
#[derive(Debug, Clone, PartialEq, Eq)]
pub struct SimpleCommand {
    /// Any assignment words to override the environment
    pub assignments: Vec<Token>,
    pub file_redirects: Vec<FileRedirection>,
    pub fd_dups: Vec<FdDuplication>,
    /// The words that will be expanded to form the argv
    pub words: Vec<Token>,
    /// true if `&` ended the command
    pub asynchronous: bool,
}

/// The ghost tree a command maps to.
pub open spec fn cmd_view(c: Command) -> CommandView
    decreases c,
{
    CommandView {
        asynchronous: c.asynchronous,
        command: cmd_type_view(c.command),
        redirects: match c.redirects {
            Some(_) => Some(RedirectListView {}),
            None => None,
        },
    }
}

/// The ghost form a command type maps to.
pub open spec fn cmd_type_view(t: CommandType) -> CommandTypeView
    decreases t,
{
    match t {
        CommandType::Pipeline(p) => CommandTypeView::Pipeline(
            PipelineView { inverted: p.inverted, commands: cmds_view(p.commands@) },
        ),
        CommandType::SimpleCommand(sc) => CommandTypeView::SimpleCommand(
            SimpleCommandView {
                assignments: sc.assignments@,
                file_redirects: sc.file_redirects@,
                fd_dups: sc.fd_dups@,
                words: sc.words@,
                asynchronous: sc.asynchronous,
            },
        ),
        CommandType::BraceGroup(l) => CommandTypeView::BraceGroup(cmds_view(l.commands@)),
        CommandType::Subshell(l) => CommandTypeView::Subshell(cmds_view(l.commands@)),
        CommandType::ForEach(f) => CommandTypeView::ForEach(
            ForEachView { wordlist: f.wordlist@, body: cmds_view(f.body.commands@) },
        ),
        CommandType::If(i) => CommandTypeView::If(
            IfView {
                condition: cmds_view(i.condition.commands@),
                true_part: match i.true_part {
                    Some(l) => Some(cmds_view(l.commands@)),
                    None => None,
                },
                false_part: match i.false_part {
                    Some(l) => Some(cmds_view(l.commands@)),
                    None => None,
                },
            },
        ),
        CommandType::UntilLoop(u) => CommandTypeView::UntilLoop(
            UntilLoopView {
                body: cmds_view(u.body.commands@),
                condition: cmds_view(u.condition.commands@),
            },
        ),
        CommandType::WhileLoop(w) => CommandTypeView::WhileLoop(
            WhileLoopView {
                condition: cmds_view(w.condition.commands@),
                body: cmds_view(w.body.commands@),
            },
        ),
    }
}

/// The ghost tree list a command sequence maps to, element by element.
pub open spec fn cmds_view(s: Seq<Command>) -> Seq<CommandView>
    decreases s,
{
    if s.len() == 0 {
        Seq::empty()
    } else {
        seq![cmd_view(s[0])] + cmds_view(s.subrange(1, s.len() as int))
    }
}

/// Element-wise shape of `cmds_view`.
pub broadcast proof fn lemma_cmds_view_len(s: Seq<Command>)
    ensures
        (#[trigger] cmds_view(s)).len() == s.len(),
    decreases s.len(),
{
    if s.len() > 0 {
        lemma_cmds_view_len(s.subrange(1, s.len() as int));
    }
}

/// `cmds_view` maps each element to its view.
pub broadcast proof fn lemma_cmds_view_index(s: Seq<Command>, i: int)
    requires
        0 <= i < s.len(),
    ensures
        #[trigger] cmds_view(s)[i] == cmd_view(s[i]),
    decreases s.len(),
{
    lemma_cmds_view_len(s.subrange(1, s.len() as int));
    if i > 0 {
        lemma_cmds_view_index(s.subrange(1, s.len() as int), i - 1);
    }
}

impl View for Command {
    type V = CommandView;

    open spec fn view(&self) -> CommandView {
        cmd_view(*self)
    }
}

impl View for CommandType {
    type V = CommandTypeView;

    open spec fn view(&self) -> CommandTypeView {
        cmd_type_view(*self)
    }
}

impl View for CompoundList {
    type V = Seq<CommandView>;

    open spec fn view(&self) -> Seq<CommandView> {
        cmds_view(self.commands@)
    }
}

impl View for Pipeline {
    type V = PipelineView;

    open spec fn view(&self) -> PipelineView {
        PipelineView { inverted: self.inverted, commands: cmds_view(self.commands@) }
    }
}

impl View for SimpleCommand {
    type V = SimpleCommandView;

    open spec fn view(&self) -> SimpleCommandView {
        SimpleCommandView {
            assignments: self.assignments@,
            file_redirects: self.file_redirects@,
            fd_dups: self.fd_dups@,
            words: self.words@,
            asynchronous: self.asynchronous,
        }
    }
}

/// The normalization applied whenever a pipeline becomes a command: a
/// single-stage, non-inverted pipeline is the bare stage itself; anything
/// else is wrapped as a `Pipeline` node.
pub open spec fn collapse_pipeline(p: PipelineView) -> CommandView {
    if !p.inverted && p.commands.len() == 1 {
        p.commands[0]
    } else {
        CommandView {
            asynchronous: false,
            command: CommandTypeView::Pipeline(p),
            redirects: None,
        }
    }
}

/// A single-stage, non-inverted pipeline always collapses to a bare command
/// equal to that one stage, never to a `Pipeline` wrapper.
pub proof fn lemma_single_stage_pipeline_collapses(p: PipelineView)
    requires
        !p.inverted,
        p.commands.len() == 1,
    ensures
        collapse_pipeline(p) == p.commands[0],
{
}

impl Command {
    /// Wrap a command type as a plain command: synchronous, no redirects.
    pub fn from(command: CommandType) -> (c: Command)
        ensures
            c == (Command { command, asynchronous: false, redirects: None }),
    {
        Command { command, redirects: None, asynchronous: false }
    }

    /// Turn a pipeline into a command, simplifying it to the single stage
    /// itself when it is non-inverted and has exactly one stage.
    pub fn from_pipeline(pipeline: Pipeline) -> (c: Command)
        ensures
            c@ == collapse_pipeline(pipeline@),
    {
        proof {
            broadcast use {lemma_cmds_view_len, lemma_cmds_view_index};
        }
        if !pipeline.inverted && pipeline.commands.len() == 1 {
            let mut commands = pipeline.commands;
            match commands.pop() {
                Some(c) => c,
                None => {
                    // unreachable: the stage list has exactly one element
                    Command {
                        command: CommandType::Pipeline(
                            Pipeline { inverted: false, commands },
                        ),
                        redirects: None,
                        asynchronous: false,
                    }
                },
            }
        } else {
            Command {
                command: CommandType::Pipeline(pipeline),
                redirects: None,
                asynchronous: false,
            }
        }
    }
}

impl CompoundList {
    /// Wrap one command as a one-element list.
    pub fn from(cmd: Command) -> (l: CompoundList)
        ensures
            l@ =~= seq![cmd@],
    {
        proof {
            broadcast use {lemma_cmds_view_len, lemma_cmds_view_index};
        }
        let mut commands: Vec<Command> = Vec::new();
        commands.push(cmd);
        CompoundList { commands }
    }
}

} // verus!
