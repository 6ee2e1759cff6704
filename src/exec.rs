//! The execution engine as a state machine. The tree of one line is walked
//! in post-order, as a stack of frames; whenever the walk needs the outside
//! world (a file, a pipe, a process, the working directory, the terminal)
//! `step` returns an `Action`, and the caller performs it and hands the
//! result back as the next `Event`.
use vstd::prelude::*;
use vstd::string::StringExecFns;
use crate::builtins::{Reply, STDIN_FD, STDOUT_FD, run_builtin, builtin_effect, texts_of};
use crate::config::{Builtin, Config, find_key, lookup};
use crate::number::{decimal, decimal_text};
use crate::parser::{Token, TokenType, WordType};
use crate::symbol_table::{same_tables, set_env_var, status_name};
use crate::text::{trim, trim_str};
use crate::tree::TreeNode;

verus! {

/// What one command (or one level of the tree) ended with.
#[derive(Clone, Copy, Debug, PartialEq, Eq, Structural)]
pub struct Outcome {
    /// 0 ends the read-eval loop; anything else continues it.
    pub should_continue: i32,
    pub status: i32,
    pub stdout: i32,
}

/// What the outside world answered to the last action.
#[derive(Debug)]
pub enum Event {
    /// The action was carried out (or there was none).
    Done,
    Opened(i32),
    OpenFailed,
    PipeMade(i32, i32),
    PipeFailed,
    /// The process was started and is left running.
    Started,
    /// The process ran to its end with this exit status.
    Exited(i32),
    /// The process ran with its output captured: exit status and output.
    Captured(i32, String),
    SpawnFailed,
    ChdirFailed,
}

/// What the caller is to do before the next step.
#[derive(Debug)]
pub enum Action {
    /// Nothing: call `step` again with `Event::Done`.
    Resume,
    /// Open `name` for writing, creating it; truncate it unless `append`.
    OpenFile { name: String, append: bool },
    MakePipe,
    /// Run `argv[0]` with the other elements as arguments. A stream given as
    /// `Some(fd)` is connected to that descriptor, `None` is inherited; with
    /// `capture` the standard output is collected instead. Without `wait`
    /// the process is only started, to be waited for at `WaitStarted`.
    Spawn { argv: Vec<String>, stdin: Option<i32>, stdout: Option<i32>, capture: bool, wait: bool },
    /// Wait for every process started without waiting.
    WaitStarted,
    Close(i32),
    ChangeDir(String),
    Print(String),
    /// The line is done.
    Finished(Outcome),
}

/// How an external command runs, given the context it was reached in and
/// the kind of its own node.
#[derive(Clone, Copy, Debug, PartialEq, Eq, Structural)]
pub enum SpawnMode {
    /// Started and left running: the sending side of a pipeline.
    Start,
    Wait,
    Capture,
    Skip,
}

pub open spec fn spawn_mode_of(ctx: TokenType, tag: TokenType) -> SpawnMode {
    if ctx != TokenType::QuotedStr && tag == TokenType::PipelineSendOuput {
        SpawnMode::Start
    } else if ctx != TokenType::QuotedStr && (tag == TokenType::Node || tag == TokenType::Word
        || tag == TokenType::PipelineGetInput) {
        SpawnMode::Wait
    } else if tag == TokenType::Subshell {
        SpawnMode::Capture
    } else {
        SpawnMode::Skip
    }
}

/// Decides how an external command runs.
pub fn spawn_mode(ctx: TokenType, tag: TokenType) -> (r: SpawnMode)
    ensures
        r == spawn_mode_of(ctx, tag),
{
    if ctx != TokenType::QuotedStr && tag == TokenType::PipelineSendOuput {
        SpawnMode::Start
    } else if ctx != TokenType::QuotedStr && (tag == TokenType::Node || tag == TokenType::Word
        || tag == TokenType::PipelineGetInput) {
        SpawnMode::Wait
    } else if tag == TokenType::Subshell {
        SpawnMode::Capture
    } else {
        SpawnMode::Skip
    }
}

/// A stream is redirected when it is not the shell's own and the command is
/// not a substitution.
pub open spec fn redirect_of(fd: i32, own: i32, tag: TokenType) -> Option<i32> {
    if fd != own && tag != TokenType::Subshell {
        Some(fd)
    } else {
        None
    }
}

pub fn redirect(fd: i32, own: i32, tag: TokenType) -> (r: Option<i32>)
    ensures
        r == redirect_of(fd, own, tag),
{
    if fd != own && tag != TokenType::Subshell {
        Some(fd)
    } else {
        None
    }
}

/// The texts of the nodes from index `from` on.
pub open spec fn texts_from(ns: Seq<TreeNode<Box<Token>>>, from: int) -> Seq<Seq<char>> {
    Seq::new((ns.len() - from) as nat, |k: int| ns[from + k].value.value@)
}

/// The texts of the nodes, joined with no separator.
pub open spec fn joined(ns: Seq<TreeNode<Box<Token>>>) -> Seq<char>
    decreases ns.len(),
{
    if ns.len() == 0 {
        Seq::empty()
    } else {
        joined(ns.drop_last()) + ns.last().value.value@
    }
}

pub fn text_of(n: &TreeNode<Box<Token>>) -> (r: String)
    ensures
        r@ == n.value.value@,
{
    let t: &String = &n.value.value;
    t.clone()
}

/// The texts of `ns` from index `from` on: the argument vector of a command.
pub fn texts(ns: &Vec<TreeNode<Box<Token>>>, from: usize) -> (r: Vec<String>)
    requires
        from <= ns@.len(),
    ensures
        r@.len() == ns@.len() - from,
        forall|k: int| 0 <= k < r@.len() ==> (#[trigger] r@[k])@ == texts_from(ns@, from as int)[k],
{
    let mut r: Vec<String> = Vec::new();
    let mut i: usize = from;
    while i < ns.len()
        invariant
            from <= i <= ns@.len(),
            r@.len() == i - from,
            forall|k: int| 0 <= k < r@.len() ==> (#[trigger] r@[k])@ == ns@[from + k].value.value@,
        decreases ns.len() - i,
    {
        r.push(text_of(&ns[i]));
        i = i + 1;
    }
    r
}

/// The texts of `ns` joined with no separator: how a quoted string is put
/// back together after its substitutions ran.
pub fn join_texts(ns: &Vec<TreeNode<Box<Token>>>) -> (r: String)
    ensures
        r@ == joined(ns@),
{
    let mut r = String::new();
    let mut i: usize = 0;
    while i < ns.len()
        invariant
            i <= ns@.len(),
            r@ == joined(ns@.subrange(0, i as int)),
        decreases ns.len() - i,
    {
        let t = text_of(&ns[i]);
        r.append(t.as_str());
        proof {
            let p = ns@.subrange(0, i + 1);
            assert(p.drop_last() =~= ns@.subrange(0, i as int));
        }
        i = i + 1;
    }
    assert(ns@.subrange(0, ns@.len() as int) =~= ns@);
    r
}

/// The same node with another text.
pub fn with_text(n: TreeNode<Box<Token>>, text: String) -> (r: TreeNode<Box<Token>>)
    ensures
        r.value.t_type == n.value.t_type,
        r.value.w_type == n.value.w_type,
        r.value.value@ == text@,
        r.children == n.children,
{
    let TreeNode { value, children } = n;
    let t_type = value.t_type;
    let w_type = value.w_type;
    TreeNode { value: Box::new(Token { t_type, w_type, value: Box::new(text) }), children }
}

/// The status that a spawn's answer carries: its exit status, or 1 when
/// the command could not be started.
pub open spec fn spawn_status(event: Event) -> int {
    match event {
        Event::Exited(c) => c as int,
        Event::Captured(c, _) => c as int,
        _ => 1,
    }
}

/// Records `status` as the variable `?`.
pub fn record_status(cfg: &mut Config, status: i32)
    ensures
        final(cfg).var(status_name()) == Some(decimal(status as int)),
        forall|k: Seq<char>| k != status_name() ==> final(cfg).var(k) == old(cfg).var(k),
        same_tables(*old(cfg), *final(cfg)),
{
    let text = decimal_text(status);
    proof {
        reveal_strlit("?");
        assert("?"@ =~= status_name());
    }
    set_env_var("?", text.as_str(), cfg);
}

/// Takes in what came of an external command: the status (1 if it could not
/// be started), recorded as `?`, and for a captured run the trimmed output
/// as the node's new text. A process left running changes nothing.
pub fn finish_spawn(cfg: &mut Config, node: TreeNode<Box<Token>>, result: Outcome, event: Event) -> (r: (
    TreeNode<Box<Token>>,
    Outcome,
))
    ensures
        event is Started ==> r.1 == result && *final(cfg) == *old(cfg),
        !(event is Started) ==> r.1 == (Outcome { status: spawn_status(event) as i32, ..result })
            && final(cfg).var(status_name()) == Some(decimal(spawn_status(event))) && (forall|
            k: Seq<char>,
        | k != status_name() ==> final(cfg).var(k) == old(cfg).var(k)) && same_tables(
            *old(cfg),
            *final(cfg),
        ),
        !(event is Captured) ==> r.0 == node,
        r.0.children == node.children,
        r.0.value.t_type == node.value.t_type,
        r.0.value.w_type == node.value.w_type,
        r.0.value.value@ == match event {
            Event::Captured(_, out) => trim(out@),
            _ => node.value.value@,
        },
{
    let (status, node) = match event {
        Event::Started => {
            return (node, result);
        },
        Event::Exited(c) => (c, node),
        Event::Captured(c, out) => {
            let t = trim_str(out.as_str());
            (c, with_text(node, t))
        },
        _ => (1, node),
    };
    record_status(cfg, status);
    (node, Outcome { status, ..result })
}

/// The builtin that a command's first word names, if the word was
/// classified as one and the table has it.
pub open spec fn builtin_named(argv: Seq<TreeNode<Box<Token>>>, cfg: Config) -> Option<Builtin> {
    if argv.len() > 0 && argv[0].value.w_type == WordType::Builtin {
        lookup(cfg.rsh_builtins@, argv[0].value.value@)
    } else {
        None
    }
}

/// Runs the command `argv` as a builtin, with the texts after the first as
/// its arguments, if its first word names one; `None` (and nothing done)
/// otherwise.
pub fn execute_builtin(argv: &Vec<TreeNode<Box<Token>>>, cfg: &mut Config) -> (r: Option<Reply>)
    ensures
        r is Some == builtin_named(argv@, *old(cfg)) is Some,
        r is None ==> *final(cfg) == *old(cfg),
        r is Some ==> builtin_effect(
            builtin_named(argv@, *old(cfg))->0,
            texts_from(argv@, 1),
            *old(cfg),
            *final(cfg),
            r->0,
        ),
{
    if argv.len() == 0 || argv[0].value.w_type != WordType::Builtin {
        return None;
    }
    let name = text_of(&argv[0]);
    let b = match find_key(&cfg.rsh_builtins, &name) {
        Some(i) => cfg.rsh_builtins[i].1,
        None => {
            return None;
        },
    };
    let args = texts(argv, 1);
    assert(texts_of(args@) =~= texts_from(argv@, 1));
    Some(run_builtin(b, &args, cfg))
}

/// Whether `argv` holds the texts of `words`, in order.
pub open spec fn argv_of(argv: Seq<String>, words: Seq<TreeNode<Box<Token>>>) -> bool {
    &&& argv.len() == words.len()
    &&& forall|k: int| 0 <= k < words.len() ==> (#[trigger] argv[k])@ == words[k].value.value@
}

/// The action that runs the external command made of `words`, reached in
/// context `ctx` from a node of kind `tag` with the streams `stdin` and
/// `stdout`.
pub open spec fn spawn_request(a: Action, words: Seq<TreeNode<Box<Token>>>, ctx: TokenType, tag: TokenType, stdin: i32, stdout: i32) -> bool {
    match spawn_mode_of(ctx, tag) {
        SpawnMode::Start => match a {
            Action::Spawn { argv, stdin: i, stdout: o, capture, wait } => argv_of(argv@, words) && i
                == redirect_of(stdin, STDIN_FD, tag) && o == redirect_of(stdout, STDOUT_FD, tag)
                && !capture && !wait,
            _ => false,
        },
        SpawnMode::Wait => match a {
            Action::Spawn { argv, stdin: i, stdout: o, capture, wait } => argv_of(argv@, words) && i
                == redirect_of(stdin, STDIN_FD, tag) && o == redirect_of(stdout, STDOUT_FD, tag)
                && !capture && wait,
            _ => false,
        },
        SpawnMode::Capture => match a {
            Action::Spawn { argv, stdin: i, stdout: o, capture, wait } => argv_of(argv@, words) && i
                is None && o is None && capture && wait,
            _ => false,
        },
        SpawnMode::Skip => a is Resume,
    }
}

/// The action that starts a redirection of the node `r`: opening the text
/// of its second subtree, for appending when `r` is an append.
pub open spec fn open_request(a: Action, r: TreeNode<Box<Token>>) -> bool {
    match a {
        Action::OpenFile { name, append } => name@ == r.children@[1].value.value@ && append == (
        r.value.t_type == TokenType::OutputRedirectAppend),
        _ => false,
    }
}

/// The action that follows a builtin's reply: the directory change it asks
/// for, else the message it prints, else nothing.
pub open spec fn reply_action(a: Action, r: Reply) -> bool {
    match r.chdir {
        Some(d) => match a {
            Action::ChangeDir(x) => x@ == d@,
            _ => false,
        },
        None => match r.message {
            Some(m) => match a {
                Action::Print(x) => x@ == m@,
                _ => false,
            },
            None => a is Resume,
        },
    }
}

/// Where a frame stands. A child that is being executed is taken out of
/// its parent's node (the redirection or pipeline node with it, held here)
/// and put back when its frame is done.
pub enum Stage {
    /// Looking at the child at `next`, or at the command once all are done.
    Scan,
    /// A child runs in the frame above.
    AwaitChild,
    /// The redirection target is being opened.
    AwaitOpen(TreeNode<Box<Token>>),
    /// The redirected command runs above, writing to the descriptor.
    AwaitRedirected(TreeNode<Box<Token>>, i32),
    /// The pipe is being made.
    AwaitPipe(TreeNode<Box<Token>>),
    /// The sending side runs above; the pipe's read and write ends.
    AwaitLeft(TreeNode<Box<Token>>, i32, i32),
    /// The write end is closed; the receiving side is next.
    StartRight(TreeNode<Box<Token>>, i32),
    /// The receiving side runs above, reading from the descriptor.
    AwaitRight(TreeNode<Box<Token>>, i32),
    /// The command's process was asked for.
    AwaitSpawn,
    /// The working directory was asked to change.
    AwaitChdir,
    /// The pipeline is done; the processes it started are to be waited for.
    Reap,
    /// The command is done; a quoted string is put back together.
    Finish,
}

/// One level of the walk: a node, the context it was reached in, its
/// streams, the next child to look at and the outcome so far.
pub struct Frame {
    pub node: TreeNode<Box<Token>>,
    pub ctx: TokenType,
    pub stdin: i32,
    pub stdout: i32,
    pub next: usize,
    pub result: Outcome,
    pub stage: Stage,
}

/// The execution of one command-structure tree: the frames of the walk,
/// innermost last, and the outcome of the whole once they are all done.
pub struct Execution {
    pub frames: Vec<Frame>,
    pub outcome: Outcome,
}

/// What a node's walk starts from: continue, status 0, the shell's output.
pub open spec fn initial() -> Outcome {
    Outcome { should_continue: 1, status: 0, stdout: STDOUT_FD }
}

/// The outcome of a step that could not get its file or pipe.
pub open spec fn failed(stdout: i32) -> Outcome {
    Outcome { should_continue: 1, status: 1, stdout }
}

/// `g` starts the walk of `node`, reached in context `ctx`.
pub open spec fn starts(g: Frame, node: TreeNode<Box<Token>>, ctx: TokenType, stdin: i32, stdout: i32) -> bool {
    &&& g.node == node
    &&& g.ctx == ctx
    &&& g.stdin == stdin
    &&& g.stdout == stdout
    &&& g.next == 0
    &&& g.result == initial()
    &&& g.stage is Scan
}

/// `g` walks the same node as `f`, in the same context, with the same streams.
pub open spec fn same_site(f: Frame, g: Frame) -> bool {
    &&& g.node.value == f.node.value
    &&& g.ctx == f.ctx
    &&& g.stdin == f.stdin
    &&& g.stdout == f.stdout
}

/// `g` is `f` with its children unchanged.
pub open spec fn kept(f: Frame, g: Frame) -> bool {
    same_site(f, g) && g.node.children@ == f.node.children@
}

/// `fs` is `base` with one frame more on top.
pub open spec fn one_more(base: Seq<Frame>, fs: Seq<Frame>) -> bool {
    fs.len() == base.len() + 1 && fs.drop_last() == base
}

/// `fs` is `base` with two frames more on top.
pub open spec fn two_more(base: Seq<Frame>, fs: Seq<Frame>) -> bool {
    fs.len() == base.len() + 2 && fs.subrange(0, base.len() as int) == base
}

/// Where a node put back at `at` among `len` others goes.
pub open spec fn clamp(at: int, len: int) -> int {
    if at <= len {
        at
    } else {
        len
    }
}

/// The index after `pos`, as the walk counts it.
pub open spec fn after(pos: int) -> int {
    if pos < usize::MAX {
        pos + 1
    } else {
        pos
    }
}

/// `s` is `before` with one node added at `clamp(at, before.len())`.
pub open spec fn put_in(s: Seq<TreeNode<Box<Token>>>, before: Seq<TreeNode<Box<Token>>>, at: int) -> bool {
    let pos = clamp(at, before.len() as int);
    &&& s.len() == before.len() + 1
    &&& s.subrange(0, pos) == before.subrange(0, pos)
    &&& s.subrange(pos + 1, s.len() as int) == before.subrange(pos, before.len() as int)
}

/// A finished subtree `child` with outcome `o` handed to the frame on top
/// of `base`: the frames go from `base` to `fs`, the outcome of the whole
/// from `out0` to `out1`, and `a` is the action that follows. With no frame
/// left the whole is finished with `o`. Otherwise the child goes back
/// where it came from, the waiting frame takes `o` as its outcome (but for
/// the sending side of a pipeline, whose outcome is dropped), and a
/// redirection file or pipe end that is no longer needed is closed.
pub open spec fn delivered(
    base: Seq<Frame>,
    out0: Outcome,
    child: TreeNode<Box<Token>>,
    o: Outcome,
    fs: Seq<Frame>,
    out1: Outcome,
    a: Action,
) -> bool {
    if base.len() == 0 {
        fs.len() == 0 && out1 == o && a == Action::Finished(o)
    } else {
        let p = base.last();
        let g = fs.last();
        let pos = clamp(p.next as int, p.node.children@.len() as int);
        &&& out1 == out0
        &&& fs.len() == base.len()
        &&& fs.drop_last() == base.drop_last()
        &&& same_site(p, g)
        &&& match p.stage {
            Stage::AwaitRedirected(r, fd) => {
                &&& a == Action::Close(fd)
                &&& g.stage is Scan
                &&& g.result == o
                &&& g.next == after(pos)
                &&& put_in(g.node.children@, p.node.children@, p.next as int)
                &&& g.node.children@[pos].value == r.value
                &&& g.node.children@[pos].children@ == r.children@.insert(0, child)
            },
            Stage::AwaitLeft(q, rd, wr) => {
                &&& a == Action::Close(wr)
                &&& g.result == p.result
                &&& g.next == p.next
                &&& g.node.children@ == p.node.children@
                &&& match g.stage {
                    Stage::StartRight(q2, rd2) => rd2 == rd && q2.value == q.value
                        && q2.children@ == q.children@.insert(0, child),
                    _ => false,
                }
            },
            Stage::AwaitRight(q, rd) => {
                &&& a == Action::Close(rd)
                &&& g.stage is Reap
                &&& g.result == o
                &&& g.next == after(pos)
                &&& put_in(g.node.children@, p.node.children@, p.next as int)
                &&& g.node.children@[pos].value == q.value
                &&& g.node.children@[pos].children@ == q.children@.insert(
                    clamp(1, q.children@.len() as int),
                    child,
                )
            },
            _ => {
                &&& a is Resume
                &&& g.stage is Scan
                &&& g.result == o
                &&& g.next == after(pos)
                &&& put_in(g.node.children@, p.node.children@, p.next as int)
                &&& g.node.children@[pos] == child
            },
        }
    }
}

/// A frame `f` at `Scan` looks at its child `f.next`: a word is passed
/// over; a redirection opens its target (or, without one, fails with status
/// 1); a pipeline asks for a pipe (or, without both sides, fails with
/// status 1); any other child starts a frame of its own.
pub open spec fn scanned_child(f: Frame, base: Seq<Frame>, fs: Seq<Frame>, a: Action) -> bool {
    let k = f.next as int;
    let kids = f.node.children@;
    let c = kids[k];
    let g = fs[base.len() as int];
    if c.value.t_type == TokenType::Word {
        a is Resume && one_more(base, fs) && kept(f, g) && g.next == k + 1 && g.result == f.result
            && g.stage is Scan
    } else if c.value.t_type == TokenType::OutputRedirect || c.value.t_type
        == TokenType::OutputRedirectAppend {
        if c.children@.len() < 2 {
            a is Print && one_more(base, fs) && kept(f, g) && g.next == k + 1 && g.result == failed(
                f.stdout,
            ) && g.stage is Scan
        } else {
            open_request(a, c) && one_more(base, fs) && same_site(f, g) && g.node.children@
                == kids.remove(k) && g.next == k && g.result == f.result && g.stage == Stage::AwaitOpen(c)
        }
    } else if c.value.t_type == TokenType::PipelineRedirect {
        if c.children@.len() < 2 {
            a is Resume && one_more(base, fs) && kept(f, g) && g.next == k + 1 && g.result == failed(
                f.stdout,
            ) && g.stage is Scan
        } else {
            a is MakePipe && one_more(base, fs) && same_site(f, g) && g.node.children@ == kids.remove(k)
                && g.next == k && g.result == f.result && g.stage == Stage::AwaitPipe(c)
        }
    } else {
        a is Resume && two_more(base, fs) && same_site(f, g) && g.node.children@ == kids.remove(k)
            && g.next == k && g.result == f.result && g.stage is AwaitChild && starts(
            fs.last(),
            c,
            c.value.t_type,
            f.stdin,
            f.stdout,
        )
    }
}

/// A frame `f` at `Scan` with all its children done: an empty node is
/// done with (1, 0, its output); a builtin runs and its reply becomes the
/// outcome; an external command is asked for (or, where none runs, the
/// status so far is recorded as `?`); anything else is done.
pub open spec fn scanned_command(
    f: Frame,
    base: Seq<Frame>,
    out0: Outcome,
    cfg0: Config,
    fs: Seq<Frame>,
    out1: Outcome,
    cfg1: Config,
    a: Action,
) -> bool {
    let kids = f.node.children@;
    let g = fs.last();
    if kids.len() == 0 {
        cfg1 == cfg0 && delivered(base, out0, f.node, Outcome { should_continue: 1, status: 0, stdout: f.stdout }, fs, out1, a)
    } else {
        &&& out1 == out0
        &&& one_more(base, fs)
        &&& kept(f, g)
        &&& g.next == f.next
        &&& if kids[0].value.t_type != TokenType::Word {
            a is Resume && cfg1 == cfg0 && g.result == f.result && g.stage is Finish
        } else if builtin_named(kids, cfg0) is Some {
            exists|r: Reply|
                {
                    &&& builtin_effect(builtin_named(kids, cfg0)->0, texts_from(kids, 1), cfg0, cfg1, r)
                    &&& #[trigger] reply_action(a, r)
                    &&& g.result == Outcome { should_continue: r.should_continue, status: r.status, stdout: r.stdout }
                    &&& if r.chdir is Some {
                        g.stage is AwaitChdir
                    } else {
                        g.stage is Finish
                    }
                }
        } else {
            &&& spawn_request(a, kids, f.ctx, f.node.value.t_type, f.stdin, f.stdout)
            &&& g.result == f.result
            &&& if spawn_mode_of(f.ctx, f.node.value.t_type) == SpawnMode::Skip {
                &&& g.stage is Finish
                &&& cfg1.var(status_name()) == Some(decimal(f.result.status as int))
                &&& forall|k: Seq<char>| k != status_name() ==> cfg1.var(k) == cfg0.var(k)
                &&& same_tables(cfg0, cfg1)
            } else {
                g.stage is AwaitSpawn && cfg1 == cfg0
            }
        }
    }
}

/// A child put back at `f.next` after its open or pipe failed: the frame
/// goes on past it with status 1.
pub open spec fn gave_up(f: Frame, c: TreeNode<Box<Token>>, base: Seq<Frame>, fs: Seq<Frame>) -> bool {
    let g = fs.last();
    let pos = clamp(f.next as int, f.node.children@.len() as int);
    &&& one_more(base, fs)
    &&& same_site(f, g)
    &&& put_in(g.node.children@, f.node.children@, f.next as int)
    &&& g.node.children@[pos] == c
    &&& g.next == after(pos)
    &&& g.result == failed(f.stdout)
    &&& g.stage is Scan
}

/// One step from the frame `f`, popped off the frames `base`, given the
/// answer `event`. The whole outcome goes from `out0` to `out1`, the
/// environment from `cfg0` to `cfg1`.
pub open spec fn advanced(
    f: Frame,
    event: Event,
    base: Seq<Frame>,
    out0: Outcome,
    cfg0: Config,
    fs: Seq<Frame>,
    out1: Outcome,
    cfg1: Config,
    a: Action,
) -> bool {
    let g = fs.last();
    match f.stage {
        Stage::Scan => if (f.next as int) < f.node.children@.len() {
            out1 == out0 && cfg1 == cfg0 && scanned_child(f, base, fs, a)
        } else {
            scanned_command(f, base, out0, cfg0, fs, out1, cfg1, a)
        },
        Stage::AwaitSpawn => {
            &&& a is Resume
            &&& out1 == out0
            &&& one_more(base, fs)
            &&& same_site(f, g) || (event is Captured && g.ctx == f.ctx && g.stdin == f.stdin && g.stdout
                == f.stdout)
            &&& g.node.value.t_type == f.node.value.t_type
            &&& g.node.value.w_type == f.node.value.w_type
            &&& g.node.children@ == f.node.children@
            &&& g.next == f.next
            &&& g.stage is Finish
            &&& g.node.value.value@ == match event {
                Event::Captured(_, out) => trim(out@),
                _ => f.node.value.value@,
            }
            &&& if event is Started {
                g.result == f.result && cfg1 == cfg0
            } else {
                &&& g.result == Outcome { status: spawn_status(event) as i32, ..f.result }
                &&& cfg1.var(status_name()) == Some(decimal(spawn_status(event)))
                &&& forall|k: Seq<char>| k != status_name() ==> cfg1.var(k) == cfg0.var(k)
                &&& same_tables(cfg0, cfg1)
            }
        },
        Stage::AwaitChdir => {
            &&& a is Resume
            &&& out1 == out0
            &&& cfg1 == cfg0
            &&& one_more(base, fs)
            &&& kept(f, g)
            &&& g.next == f.next
            &&& g.stage is Finish
            &&& g.result == if event is Done {
                f.result
            } else {
                Outcome { status: 1, ..f.result }
            }
        },
        Stage::AwaitOpen(r) => {
            &&& out1 == out0
            &&& cfg1 == cfg0
            &&& a is Resume
            &&& match event {
                Event::Opened(fd) if r.children@.len() > 0 => {
                    let h = fs[base.len() as int];
                    &&& two_more(base, fs)
                    &&& kept(f, h)
                    &&& h.next == f.next
                    &&& h.result == f.result
                    &&& match h.stage {
                        Stage::AwaitRedirected(r2, fd2) => fd2 == fd && r2.value == r.value
                            && r2.children@ == r.children@.drop_first(),
                        _ => false,
                    }
                    &&& starts(g, r.children@[0], TokenType::Node, f.stdin, fd)
                },
                _ => gave_up(f, r, base, fs),
            }
        },
        Stage::AwaitPipe(p) => {
            &&& out1 == out0
            &&& cfg1 == cfg0
            &&& a is Resume
            &&& match event {
                Event::PipeMade(rd, wr) if p.children@.len() >= 2 => {
                    let h = fs[base.len() as int];
                    &&& two_more(base, fs)
                    &&& kept(f, h)
                    &&& h.next == f.next
                    &&& h.result == f.result
                    &&& match h.stage {
                        Stage::AwaitLeft(p2, rd2, wr2) => rd2 == rd && wr2 == wr && p2.value == p.value
                            && p2.children@ == p.children@.drop_first(),
                        _ => false,
                    }
                    &&& starts(g, p.children@[0], TokenType::PipelineRedirect, f.stdin, wr)
                },
                _ => gave_up(f, p, base, fs),
            }
        },
        Stage::StartRight(p, rd) => {
            &&& out1 == out0
            &&& cfg1 == cfg0
            &&& if p.children@.len() >= 2 {
                let h = fs[base.len() as int];
                &&& a is Resume
                &&& two_more(base, fs)
                &&& kept(f, h)
                &&& h.next == f.next
                &&& h.result == f.result
                &&& match h.stage {
                    Stage::AwaitRight(p2, rd2) => rd2 == rd && p2.value == p.value && p2.children@
                        == p.children@.remove(1),
                    _ => false,
                }
                &&& starts(g, p.children@[1], TokenType::PipelineRedirect, rd, f.stdout)
            } else {
                let pos = clamp(f.next as int, f.node.children@.len() as int);
                &&& a == Action::Close(rd)
                &&& one_more(base, fs)
                &&& same_site(f, g)
                &&& put_in(g.node.children@, f.node.children@, f.next as int)
                &&& g.node.children@[pos] == p
                &&& g.next == after(pos)
                &&& g.result == f.result
                &&& g.stage is Scan
            }
        },
        Stage::Reap => {
            &&& a is WaitStarted
            &&& out1 == out0
            &&& cfg1 == cfg0
            &&& one_more(base, fs)
            &&& kept(f, g)
            &&& g.next == f.next
            &&& g.result == f.result
            &&& g.stage is Scan
        },
        Stage::Finish => {
            &&& cfg1 == cfg0
            &&& exists|c: TreeNode<Box<Token>>|
                {
                    &&& c.value.t_type == f.node.value.t_type
                    &&& c.value.w_type == f.node.value.w_type
                    &&& c.children == f.node.children
                    &&& c.value.value@ == if f.ctx == TokenType::QuotedStr {
                        joined(f.node.children@)
                    } else {
                        f.node.value.value@
                    }
                    &&& #[trigger] delivered(base, out0, c, f.result, fs, out1, a)
                }
        },
        _ => {
            &&& a is Resume
            &&& out1 == out0
            &&& cfg1 == cfg0
            &&& one_more(base, fs)
            &&& kept(f, g)
            &&& g.next == f.next
            &&& g.result == f.result
            &&& g.stage is Scan
        },
    }
}

broadcast use crate::tree::group_push;


fn fresh(node: TreeNode<Box<Token>>, ctx: TokenType, stdin: i32, stdout: i32) -> (g: Frame)
    ensures
        starts(g, node, ctx, stdin, stdout),
{
    Frame {
        node,
        ctx,
        stdin,
        stdout,
        next: 0,
        result: Outcome { should_continue: 1, status: 0, stdout: STDOUT_FD },
        stage: Stage::Scan,
    }
}

/// Puts `child` back among the children of `node` at `at` (or last), and
/// returns the index after it.
fn put_back(node: &mut TreeNode<Box<Token>>, at: usize, child: TreeNode<Box<Token>>) -> (r: usize)
    ensures
        final(node).value == old(node).value,
        final(node).children@ == old(node).children@.insert(clamp(at as int, old(node).children@.len() as int), child),
        put_in(final(node).children@, old(node).children@, at as int),
        r as int == after(clamp(at as int, old(node).children@.len() as int)),
{
    let n = node.children.len();
    let pos = if at <= n {
        at
    } else {
        n
    };
    node.children.insert(pos, child);
    assert(node.children@.subrange(0, pos as int) =~= old(node).children@.subrange(0, pos as int));
    assert(node.children@.subrange(pos + 1, node.children@.len() as int) =~= old(node).children@.subrange(pos as int, n as int));
    if pos < usize::MAX {
        pos + 1
    } else {
        pos
    }
}

impl Execution {
    /// Starts executing `tree` in context `Node`, with the shell's own
    /// standard streams.
    pub fn new(tree: TreeNode<Box<Token>>) -> (r: Execution)
        ensures
            r.frames@.len() == 1,
            starts(r.frames@[0], tree, TokenType::Node, STDIN_FD, STDOUT_FD),
            r.outcome == initial(),
    {
        let mut frames: Vec<Frame> = Vec::new();
        frames.push(fresh(tree, TokenType::Node, STDIN_FD, STDOUT_FD));
        Execution { frames, outcome: Outcome { should_continue: 1, status: 0, stdout: STDOUT_FD } }
    }

    /// Hands a finished subtree and its outcome to the frame that waits for it.
    fn deliver(&mut self, child: TreeNode<Box<Token>>, outcome: Outcome) -> (a: Action)
        ensures
            delivered(old(self).frames@, old(self).outcome, child, outcome, final(self).frames@, final(self).outcome, a),
    {
        let ghost base = self.frames@;
        match self.frames.pop() {
            None => {
                self.outcome = outcome;
                Action::Finished(outcome)
            },
            Some(p) => {
                let ghost pv = p;
                let Frame { mut node, ctx, stdin, stdout, next, result, stage } = p;
                match stage {
                    Stage::AwaitRedirected(mut rnode, fd) => {
                        put_back(&mut rnode, 0, child);
                        let pos = put_back(&mut node, next, rnode);
                        self.frames.push(
                            Frame { node, ctx, stdin, stdout, next: pos, result: outcome, stage: Stage::Scan },
                        );
                        Action::Close(fd)
                    },
                    Stage::AwaitLeft(mut pnode, read, write) => {
                        put_back(&mut pnode, 0, child);
                        self.frames.push(
                            Frame { node, ctx, stdin, stdout, next, result, stage: Stage::StartRight(pnode, read) },
                        );
                        Action::Close(write)
                    },
                    Stage::AwaitRight(mut pnode, read) => {
                        put_back(&mut pnode, 1, child);
                        let pos = put_back(&mut node, next, pnode);
                        self.frames.push(
                            Frame { node, ctx, stdin, stdout, next: pos, result: outcome, stage: Stage::Reap },
                        );
                        Action::Close(read)
                    },
                    _ => {
                        let pos = put_back(&mut node, next, child);
                        self.frames.push(
                            Frame { node, ctx, stdin, stdout, next: pos, result: outcome, stage: Stage::Scan },
                        );
                        Action::Resume
                    },
                }
            },
        }
    }

    /// Carries the walk one step further, given the answer to the last
    /// action. With no frame left it only repeats `Finished`.
    pub fn step(&mut self, event: Event, cfg: &mut Config) -> (a: Action)
        ensures
            old(self).frames@.len() == 0 ==> a == Action::Finished(old(self).outcome)
                && final(self).frames@.len() == 0 && final(self).outcome == old(self).outcome
                && *final(cfg) == *old(cfg),
            old(self).frames@.len() > 0 ==> advanced(
                old(self).frames@.last(),
                event,
                old(self).frames@.drop_last(),
                old(self).outcome,
                *old(cfg),
                final(self).frames@,
                final(self).outcome,
                *final(cfg),
                a,
            ),
    {
        match self.frames.pop() {
            None => Action::Finished(self.outcome),
            Some(f) => self.advance(f, event, cfg),
        }
    }

    fn advance(&mut self, f: Frame, event: Event, cfg: &mut Config) -> (a: Action)
        ensures
            advanced(f, event, old(self).frames@, old(self).outcome, *old(cfg), final(self).frames@, final(self).outcome, *final(cfg), a),
    {
        match f.stage {
            Stage::Scan => {
                if f.next < f.node.children.len() {
                    self.scan_child(f, event, cfg)
                } else {
                    self.scan_command(f, event, cfg)
                }
            },
            Stage::AwaitSpawn => self.take_spawn(f, event, cfg),
            Stage::AwaitOpen(_) => self.take_open(f, event, cfg),
            Stage::AwaitPipe(_) => self.take_pipe(f, event, cfg),
            Stage::StartRight(_, _) => self.start_right(f, event, cfg),
            Stage::Finish => self.finish(f, event, cfg),
            _ => self.settle(f, event, cfg),
        }
    }

    /// The stages that only pass on: after a directory change, after
    /// reaping, and those that never meet a step.
    fn settle(&mut self, f: Frame, event: Event, cfg: &Config) -> (a: Action)
        requires
            !(f.stage is Scan || f.stage is AwaitSpawn || f.stage is AwaitOpen || f.stage is AwaitPipe
                || f.stage is StartRight || f.stage is Finish),
        ensures
            advanced(f, event, old(self).frames@, old(self).outcome, *cfg, final(self).frames@, final(self).outcome, *cfg, a),
    {
        let Frame { node, ctx, stdin, stdout, next, result, stage } = f;
        match stage {
            Stage::AwaitChdir => {
                let result = match event {
                    Event::Done => result,
                    _ => Outcome { status: 1, ..result },
                };
                self.frames.push(Frame { node, ctx, stdin, stdout, next, result, stage: Stage::Finish });
                Action::Resume
            },
            Stage::Reap => {
                self.frames.push(Frame { node, ctx, stdin, stdout, next, result, stage: Stage::Scan });
                Action::WaitStarted
            },
            _ => {
                self.frames.push(Frame { node, ctx, stdin, stdout, next, result, stage: Stage::Scan });
                Action::Resume
            },
        }
    }

    /// The answer to a spawn.
    fn take_spawn(&mut self, f: Frame, event: Event, cfg: &mut Config) -> (a: Action)
        requires
            f.stage is AwaitSpawn,
        ensures
            advanced(f, event, old(self).frames@, old(self).outcome, *old(cfg), final(self).frames@, final(self).outcome, *final(cfg), a),
    {
        let ghost ev = event;
        let Frame { node, ctx, stdin, stdout, next, result, stage: _ } = f;
        let (node, result) = finish_spawn(cfg, node, result, event);
        self.frames.push(Frame { node, ctx, stdin, stdout, next, result, stage: Stage::Finish });
        proof {
            let g = self.frames@.last();
            if !(ev is Captured) {
                assert(g.node.value.value@ == f.node.value.value@);
            }
        }
        Action::Resume
    }

    /// The answer to opening a redirection target.
    fn take_open(&mut self, f: Frame, event: Event, cfg: &Config) -> (a: Action)
        requires
            f.stage is AwaitOpen,
        ensures
            advanced(f, event, old(self).frames@, old(self).outcome, *cfg, final(self).frames@, final(self).outcome, *cfg, a),
    {
        let Frame { mut node, ctx, stdin, stdout, next, result, stage } = f;
        let mut rnode = match stage {
            Stage::AwaitOpen(r) => r,
            _ => {
                proof {
                    assert(false);
                }
                return Action::Resume;
            },
        };
        match event {
            Event::Opened(fd) if rnode.children.len() > 0 => {
                let cmd = rnode.children.remove(0);
                proof {
                    assert(rnode.children@ =~= f.stage->AwaitOpen_0.children@.drop_first());
                }
                self.frames.push(
                    Frame { node, ctx, stdin, stdout, next, result, stage: Stage::AwaitRedirected(rnode, fd) },
                );
                self.frames.push(fresh(cmd, TokenType::Node, stdin, fd));
                Action::Resume
            },
            _ => {
                let pos = put_back(&mut node, next, rnode);
                let failed = Outcome { should_continue: 1, status: 1, stdout };
                self.frames.push(Frame { node, ctx, stdin, stdout, next: pos, result: failed, stage: Stage::Scan });
                Action::Resume
            },
        }
    }

    /// The answer to making a pipe.
    fn take_pipe(&mut self, f: Frame, event: Event, cfg: &Config) -> (a: Action)
        requires
            f.stage is AwaitPipe,
        ensures
            advanced(f, event, old(self).frames@, old(self).outcome, *cfg, final(self).frames@, final(self).outcome, *cfg, a),
    {
        let Frame { mut node, ctx, stdin, stdout, next, result, stage } = f;
        let mut pnode = match stage {
            Stage::AwaitPipe(p) => p,
            _ => {
                proof {
                    assert(false);
                }
                return Action::Resume;
            },
        };
        match event {
            Event::PipeMade(read, write) if pnode.children.len() >= 2 => {
                let left = pnode.children.remove(0);
                proof {
                    assert(pnode.children@ =~= f.stage->AwaitPipe_0.children@.drop_first());
                }
                self.frames.push(
                    Frame { node, ctx, stdin, stdout, next, result, stage: Stage::AwaitLeft(pnode, read, write) },
                );
                self.frames.push(fresh(left, TokenType::PipelineRedirect, stdin, write));
                Action::Resume
            },
            _ => {
                let pos = put_back(&mut node, next, pnode);
                let failed = Outcome { should_continue: 1, status: 1, stdout };
                self.frames.push(Frame { node, ctx, stdin, stdout, next: pos, result: failed, stage: Stage::Scan });
                Action::Resume
            },
        }
    }

    /// The sending side is done: the receiving side starts.
    fn start_right(&mut self, f: Frame, event: Event, cfg: &Config) -> (a: Action)
        requires
            f.stage is StartRight,
        ensures
            advanced(f, event, old(self).frames@, old(self).outcome, *cfg, final(self).frames@, final(self).outcome, *cfg, a),
    {
        let Frame { mut node, ctx, stdin, stdout, next, result, stage } = f;
        let (mut pnode, read) = match stage {
            Stage::StartRight(p, r) => (p, r),
            _ => {
                proof {
                    assert(false);
                }
                return Action::Resume;
            },
        };
        if pnode.children.len() >= 2 {
            let right = pnode.children.remove(1);
            self.frames.push(
                Frame { node, ctx, stdin, stdout, next, result, stage: Stage::AwaitRight(pnode, read) },
            );
            self.frames.push(fresh(right, TokenType::PipelineRedirect, read, stdout));
            Action::Resume
        } else {
            let pos = put_back(&mut node, next, pnode);
            self.frames.push(Frame { node, ctx, stdin, stdout, next: pos, result, stage: Stage::Scan });
            Action::Close(read)
        }
    }

    /// The command is done: a quoted string is put back together, and the
    /// node goes back to the frame that waits for it.
    fn finish(&mut self, f: Frame, event: Event, cfg: &Config) -> (a: Action)
        requires
            f.stage is Finish,
        ensures
            advanced(f, event, old(self).frames@, old(self).outcome, *cfg, final(self).frames@, final(self).outcome, *cfg, a),
    {
        let Frame { node, ctx, stdin: _, stdout: _, next: _, result, stage: _ } = f;
        let node = if ctx == TokenType::QuotedStr {
            let text = join_texts(&node.children);
            with_text(node, text)
        } else {
            node
        };
        let ghost c = node;
        let a = self.deliver(node, result);
        assert(delivered(old(self).frames@, old(self).outcome, c, f.result, self.frames@, self.outcome, a));
        a
    }

    /// A frame at `Scan` looks at its child `f.next`.
    fn scan_child(&mut self, f: Frame, event: Event, cfg: &Config) -> (a: Action)
        requires
            f.stage is Scan,
            f.next < f.node.children@.len(),
        ensures
            advanced(f, event, old(self).frames@, old(self).outcome, *cfg, final(self).frames@, final(self).outcome, *cfg, a),
    {
        let ghost base = self.frames@;
        let Frame { mut node, ctx, stdin, stdout, next, result, stage: _ } = f;
        let n = node.children.len();
        assert(next < n);
        let kind = node.children[next].value.t_type;
        match kind {
            TokenType::Word => {
                self.frames.push(Frame { node, ctx, stdin, stdout, next: next + 1, result, stage: Stage::Scan });
                Action::Resume
            },
            TokenType::OutputRedirect | TokenType::OutputRedirectAppend => {
                if node.children[next].children.len() < 2 {
                    let failed = Outcome { should_continue: 1, status: 1, stdout };
                    self.frames.push(
                        Frame { node, ctx, stdin, stdout, next: next + 1, result: failed, stage: Stage::Scan },
                    );
                    return Action::Print("rsh: missing redirection target".to_string());
                }
                let name = text_of(&node.children[next].children[1]);
                let rnode = node.children.remove(next);
                self.frames.push(Frame { node, ctx, stdin, stdout, next, result, stage: Stage::AwaitOpen(rnode) });
                Action::OpenFile { name, append: kind == TokenType::OutputRedirectAppend }
            },
            TokenType::PipelineRedirect => {
                if node.children[next].children.len() < 2 {
                    let failed = Outcome { should_continue: 1, status: 1, stdout };
                    self.frames.push(
                        Frame { node, ctx, stdin, stdout, next: next + 1, result: failed, stage: Stage::Scan },
                    );
                    return Action::Resume;
                }
                let pnode = node.children.remove(next);
                self.frames.push(Frame { node, ctx, stdin, stdout, next, result, stage: Stage::AwaitPipe(pnode) });
                Action::MakePipe
            },
            _ => {
                let child = node.children.remove(next);
                self.frames.push(Frame { node, ctx, stdin, stdout, next, result, stage: Stage::AwaitChild });
                self.frames.push(fresh(child, kind, stdin, stdout));
                Action::Resume
            },
        }
    }

    /// A frame at `Scan` with all its children done runs its command.
    fn scan_command(&mut self, f: Frame, event: Event, cfg: &mut Config) -> (a: Action)
        requires
            f.stage is Scan,
            f.next >= f.node.children@.len(),
        ensures
            advanced(f, event, old(self).frames@, old(self).outcome, *old(cfg), final(self).frames@, final(self).outcome, *final(cfg), a),
    {
        let Frame { node, ctx, stdin, stdout, next, result, stage: _ } = f;
        if node.children.len() == 0 {
            return self.deliver(node, Outcome { should_continue: 1, status: 0, stdout });
        }
        if node.children[0].value.t_type != TokenType::Word {
            self.frames.push(Frame { node, ctx, stdin, stdout, next, result, stage: Stage::Finish });
            return Action::Resume;
        }
        match execute_builtin(&node.children, cfg) {
            Some(reply) => {
                let ghost seen = reply;
                let Reply { should_continue, status, stdout: out, message, chdir } = reply;
                let result = Outcome { should_continue, status, stdout: out };
                let act = match chdir {
                    Some(dir) => {
                        self.frames.push(Frame { node, ctx, stdin, stdout, next, result, stage: Stage::AwaitChdir });
                        Action::ChangeDir(dir)
                    },
                    None => {
                        self.frames.push(Frame { node, ctx, stdin, stdout, next, result, stage: Stage::Finish });
                        match message {
                            Some(m) => Action::Print(m),
                            None => Action::Resume,
                        }
                    },
                };
                assert(reply_action(act, seen));
                act
            },
            None => {
                let tag = node.value.t_type;
                let mode = spawn_mode(ctx, tag);
                match mode {
                    SpawnMode::Start | SpawnMode::Wait => {
                        let wait = mode == SpawnMode::Wait;
                        let argv = texts(&node.children, 0);
                        let i = redirect(stdin, STDIN_FD, tag);
                        let o = redirect(stdout, STDOUT_FD, tag);
                        self.frames.push(Frame { node, ctx, stdin, stdout, next, result, stage: Stage::AwaitSpawn });
                        Action::Spawn { argv, stdin: i, stdout: o, capture: false, wait }
                    },
                    SpawnMode::Capture => {
                        let argv = texts(&node.children, 0);
                        self.frames.push(Frame { node, ctx, stdin, stdout, next, result, stage: Stage::AwaitSpawn });
                        Action::Spawn { argv, stdin: None, stdout: None, capture: true, wait: true }
                    },
                    SpawnMode::Skip => {
                        record_status(cfg, result.status);
                        self.frames.push(Frame { node, ctx, stdin, stdout, next, result, stage: Stage::Finish });
                        Action::Resume
                    },
                }
            },
        }
    }
}

} // verus!
