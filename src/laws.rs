//! Properties of the shell that relate several of its functions, proved
//! over their specifications.
use vstd::prelude::*;
use crate::builtins::{export_applies, single_eq};
use crate::parser::Token;
use crate::config::Config;
use crate::builtins::{Reply, STDIN_FD, STDOUT_FD, builtin_effect};
use crate::config::Builtin;
use crate::exec::{
    Action, Event, Execution, Frame, Outcome, advanced, builtin_named, delivered, joined,
    reply_action, starts, texts_from, clamp, Stage,
};
use crate::number::{is_digit, parse_i32, sign_len};
use crate::symbol_table::status_name;
use crate::tree::TreeNode;
use crate::number::{decimal, digits_of};
use crate::parser::{
    Parsed, TokenType, build, command_children, expand, has_meta, is_meta, leaf, words_from,
    white_from, quote_open_from, last_pair_below, lemma_quote_open, lemma_last_pair_below,
    lemma_white_from, is_quote,
};
use crate::text::{
    first_index_from, is_white, last_index_below, lemma_first_index_from, lemma_last_index_below,
    skip_white, trim,
};

verus! {

/// A string with no operator, quote, substitution or space in it, but for
/// a leading `$`, is one simple word.
proof fn lemma_one_word(s: Seq<char>, cfg: Config)
    requires
        s.len() > 0,
        forall|i: int| 0 <= i < s.len() ==> !is_meta(#[trigger] s[i]) || (i == 0 && s[i] == '$'),
    ensures
        command_children(s, cfg) == seq![leaf(expand(s, cfg), cfg)],
{
    let n = s.len() as int;
    lemma_last_index_below(s, '|', n);
    lemma_last_index_below(s, '>', n);
    lemma_last_index_below(s, ')', n);
    lemma_last_pair_below(s, '>', '>', n);
    lemma_quote_open(s, 0);
    if quote_open_from(s, 0) >= 0 {
        let q = quote_open_from(s, 0);
        assert(is_quote(s[q]));
        assert(!is_meta(s[q]) || (q == 0 && s[q] == '$'));
    }
    if last_index_below(s, '|', n) >= 0 {
        let q = last_index_below(s, '|', n);
        assert(!is_meta(s[q]) || (q == 0 && s[q] == '$'));
    }
    if last_index_below(s, '>', n) >= 0 {
        let q = last_index_below(s, '>', n);
        assert(!is_meta(s[q]) || (q == 0 && s[q] == '$'));
    }
    if last_index_below(s, ')', n) >= 0 {
        let q = last_index_below(s, ')', n);
        assert(!is_meta(s[q]) || (q == 0 && s[q] == '$'));
    }
    if last_pair_below(s, '>', '>', n) >= 0 {
        let q = last_pair_below(s, '>', '>', n);
        assert(!is_meta(s[q]) || (q == 0 && s[q] == '$'));
    }
    assert(!is_white(s[0]));
    assert(skip_white(s, 0) == 0);
    lemma_white_from(s, 0);
    if white_from(s, 0) < n {
        let q = white_from(s, 0);
        assert(!is_meta(s[q]) || (q == 0 && s[q] == '$'));
    }
    assert(white_from(s, 0) == n);
    assert(words_from(s, n) == Seq::<Seq<char>>::empty());
    assert(s.subrange(0, n) =~= s);
    assert(words_from(s, 0) =~= seq![s]);
    assert(command_children(s, cfg) =~= seq![leaf(expand(s, cfg), cfg)]);
}

/// A line without meta-characters is one command of plain words: the tree
/// is a `Word` with, unless the line is empty, the line itself as its one
/// child, a `Word` leaf with no substitution applied.
pub proof fn lemma_plain_line(s: Seq<char>, cfg: Config)
    requires
        !has_meta(s),
    ensures
        build(s, cfg).kind == TokenType::Word,
        build(s, cfg).text == s,
        s.len() == 0 ==> build(s, cfg).children.len() == 0,
        s.len() > 0 ==> build(s, cfg).children == seq![leaf(s, cfg)],
        s.len() > 0 ==> leaf(s, cfg).kind == TokenType::Word && leaf(s, cfg).children.len() == 0,
{
    assert(s != seq!['|']) by {
        if s == seq!['|'] {
            assert(is_meta(s[0]));
        }
    }
    assert(s != seq!['>']) by {
        if s == seq!['>'] {
            assert(is_meta(s[0]));
        }
    }
    assert(s != seq!['>', '>']) by {
        if s == seq!['>', '>'] {
            assert(is_meta(s[0]));
        }
    }
    if s.len() > 0 {
        assert forall|i: int| 0 <= i < s.len() implies !is_meta(#[trigger] s[i]) || (i == 0 && s[i]
            == '$') by {
            if is_meta(s[i]) {
                assert(has_meta(s));
            }
        }
        lemma_one_word(s, cfg);
        assert(s[0] != '$') by {
            if s[0] == '$' {
                assert(is_meta(s[0]));
                assert(has_meta(s));
            }
        }
        assert(expand(s, cfg) == s);
    } else {
        assert(words_from(s, 0) =~= Seq::<Seq<char>>::empty());
        assert(command_children(s, cfg) =~= Seq::<Parsed>::empty());
    }
}

/// After `export KEY=VALUE`, the word `$KEY` on a later line stands for
/// `VALUE`.
pub proof fn lemma_export_then_reference(before: Config, after: Config, key: Seq<char>, value: Seq<char>)
    requires
        key.len() > 0,
        !has_meta(key),
        forall|i: int| 0 <= i < key.len() ==> #[trigger] key[i] != '=',
        forall|i: int| 0 <= i < value.len() ==> #[trigger] value[i] != '=',
        export_applies(before, after, key + seq!['='] + value),
    ensures
        command_children(seq!['$'] + key, after) == seq![leaf(value, after)],
{
    let a = key + seq!['='] + value;
    let k = key.len() as int;
    lemma_first_index_from(a, '=', 0);
    lemma_first_index_from(a, '=', k + 1);
    assert(a[k] == '=');
    if first_index_from(a, '=', 0) != k {
        let q = first_index_from(a, '=', 0);
        if q >= 0 && q < k {
            assert(a[q] == key[q]);
        }
    }
    assert(first_index_from(a, '=', 0) == k);
    if first_index_from(a, '=', k + 1) >= 0 {
        let q = first_index_from(a, '=', k + 1);
        assert(a[q] == value[q - k - 1]);
    }
    assert(single_eq(a) == Some(k));
    assert(a.subrange(0, k) =~= key);
    assert(a.subrange(k + 1, a.len() as int) =~= value);
    let s = seq!['$'] + key;
    assert forall|i: int| 0 <= i < s.len() implies !is_meta(#[trigger] s[i]) || (i == 0 && s[i]
        == '$') by {
        if i > 0 {
            assert(s[i] == key[i - 1]);
            if is_meta(key[i - 1]) {
                assert(has_meta(key));
            }
        }
    }
    lemma_one_word(s, after);
    assert(s.subrange(1, s.len() as int) =~= key);
    assert(expand(s, after) == value);
}

/// An unset variable stands for the empty string: `$NAME` on a line gives
/// one empty word, not an error.
pub proof fn lemma_unset_variable(cfg: Config, name: Seq<char>)
    requires
        name.len() > 0,
        !has_meta(name),
        cfg.var(name) is None,
    ensures
        command_children(seq!['$'] + name, cfg) == seq![leaf(Seq::empty(), cfg)],
{
    let s = seq!['$'] + name;
    assert forall|i: int| 0 <= i < s.len() implies !is_meta(#[trigger] s[i]) || (i == 0 && s[i]
        == '$') by {
        if i > 0 {
            assert(s[i] == name[i - 1]);
            if is_meta(name[i - 1]) {
                assert(has_meta(name));
            }
        }
    }
    lemma_one_word(s, cfg);
    assert(s.subrange(1, s.len() as int) =~= name);
}

/// An empty command is a no-op success: the first step of an execution
/// started on a tree without children finishes it with (1, 0, the shell's
/// output), and changes nothing in the environment.
pub proof fn lemma_empty_command(
    tree: TreeNode<Box<Token>>,
    e: Execution,
    event: Event,
    cfg0: Config,
    fs: Seq<Frame>,
    out1: Outcome,
    cfg1: Config,
    a: Action,
)
    requires
        e.frames@.len() == 1,
        starts(e.frames@[0], tree, TokenType::Node, STDIN_FD, STDOUT_FD),
        tree.children@.len() == 0,
        advanced(e.frames@.last(), event, e.frames@.drop_last(), e.outcome, cfg0, fs, out1, cfg1, a),
    ensures
        a == Action::Finished(Outcome { should_continue: 1, status: 0, stdout: STDOUT_FD }),
        out1 == (Outcome { should_continue: 1, status: 0, stdout: STDOUT_FD }),
        fs.len() == 0,
        cfg1 == cfg0,
{
}

/// A top-level command that cannot be started keeps the shell running: the
/// answer `SpawnFailed` records `?` as `1`, and the next step finishes the
/// line with continue 1 and status 1.
pub proof fn lemma_missing_command(
    f: Frame,
    out0: Outcome,
    cfg0: Config,
    fs1: Seq<Frame>,
    out1: Outcome,
    cfg1: Config,
    a1: Action,
    event2: Event,
    fs2: Seq<Frame>,
    out2: Outcome,
    cfg2: Config,
    a2: Action,
)
    requires
        f.stage is AwaitSpawn,
        f.ctx != TokenType::QuotedStr,
        f.result.should_continue == 1,
        advanced(f, Event::SpawnFailed, Seq::empty(), out0, cfg0, fs1, out1, cfg1, a1),
        advanced(fs1.last(), event2, fs1.drop_last(), out1, cfg1, fs2, out2, cfg2, a2),
    ensures
        a1 is Resume,
        cfg1.var(status_name()) == Some(seq!['1']),
        a2 == Action::Finished(Outcome { should_continue: 1, status: 1, stdout: f.result.stdout }),
        out2 == (Outcome { should_continue: 1, status: 1, stdout: f.result.stdout }),
{
    assert(digits_of(1) == seq![crate::number::digit_char(1)]);
    assert(crate::number::digit_char(1) == '1');
    assert(fs1.drop_last() == Seq::<Frame>::empty());
    let g = fs1.last();
    assert(g.stage is Finish);
    let c = choose|c: TreeNode<Box<Token>>|
        {
            &&& c.value.t_type == g.node.value.t_type
            &&& c.value.w_type == g.node.value.w_type
            &&& c.children == g.node.children
            &&& c.value.value@ == if g.ctx == TokenType::QuotedStr {
                joined(g.node.children@)
            } else {
                g.node.value.value@
            }
            &&& #[trigger] delivered(fs1.drop_last(), out1, c, g.result, fs2, out2, a2)
        };
}

/// `exit abc` as a top-level command: the builtin prints its usage, the
/// environment (and so `?`) is unchanged, and the line finishes with
/// continue 1 and status 1.
pub proof fn lemma_exit_with_word(
    f: Frame,
    out0: Outcome,
    cfg0: Config,
    fs1: Seq<Frame>,
    out1: Outcome,
    cfg1: Config,
    a1: Action,
    event2: Event,
    fs2: Seq<Frame>,
    out2: Outcome,
    cfg2: Config,
    a2: Action,
)
    requires
        f.stage is Scan,
        f.ctx != TokenType::QuotedStr,
        f.next >= f.node.children@.len(),
        f.node.children@.len() == 2,
        f.node.children@[0].value.t_type == TokenType::Word,
        builtin_named(f.node.children@, cfg0) == Some(Builtin::Exit),
        f.node.children@[1].value.value@ == seq!['a', 'b', 'c'],
        advanced(f, Event::Done, Seq::empty(), out0, cfg0, fs1, out1, cfg1, a1),
        advanced(fs1.last(), event2, fs1.drop_last(), out1, cfg1, fs2, out2, cfg2, a2),
    ensures
        a1 is Print,
        cfg1 == cfg0,
        a2 == Action::Finished(Outcome { should_continue: 1, status: 1, stdout: STDOUT_FD }),
        out2 == (Outcome { should_continue: 1, status: 1, stdout: STDOUT_FD }),
{
    let args = texts_from(f.node.children@, 1);
    assert(args.len() == 1);
    assert(args[0] == seq!['a', 'b', 'c']);
    let body = args[0].subrange(sign_len(args[0]), args[0].len() as int);
    assert(sign_len(args[0]) == 0);
    assert(body =~= args[0]);
    assert(!is_digit(body[0]));
    assert(parse_i32(args[0]) is None);
    let r = choose|r: Reply|
        {
            &&& builtin_effect(builtin_named(f.node.children@, cfg0)->0, texts_from(f.node.children@, 1), cfg0, cfg1, r)
            &&& #[trigger] reply_action(a1, r)
            &&& fs1.last().result == Outcome { should_continue: r.should_continue, status: r.status, stdout: r.stdout }
            &&& if r.chdir is Some {
                fs1.last().stage is AwaitChdir
            } else {
                fs1.last().stage is Finish
            }
        };
    assert(fs1.drop_last() == Seq::<Frame>::empty());
    let g = fs1.last();
    let c = choose|c: TreeNode<Box<Token>>|
        {
            &&& c.value.t_type == g.node.value.t_type
            &&& c.value.w_type == g.node.value.w_type
            &&& c.children == g.node.children
            &&& c.value.value@ == if g.ctx == TokenType::QuotedStr {
                joined(g.node.children@)
            } else {
                g.node.value.value@
            }
            &&& #[trigger] delivered(fs1.drop_last(), out1, c, g.result, fs2, out2, a2)
        };
}

/// A quoted string is put back together when its frame finishes: the
/// frame waiting for it gets the node back, in its place, with the texts
/// of its fragments joined with no separator, and takes its outcome.
pub proof fn lemma_quoted_reassembly(
    f: Frame,
    event: Event,
    base: Seq<Frame>,
    out0: Outcome,
    cfg0: Config,
    fs: Seq<Frame>,
    out1: Outcome,
    cfg1: Config,
    a: Action,
)
    requires
        f.stage is Finish,
        f.ctx == TokenType::QuotedStr,
        base.len() > 0,
        base.last().stage is AwaitChild,
        advanced(f, event, base, out0, cfg0, fs, out1, cfg1, a),
    ensures
        a is Resume,
        fs.last().node.children@[clamp(base.last().next as int, base.last().node.children@.len() as int)].value.value@
            == joined(f.node.children@),
        fs.last().result == f.result,
{
}

/// The output of a command substitution becomes its text: when the
/// captured run answers, and the substitution's frame then finishes, the
/// frame waiting for it holds the trimmed output in the substitution's
/// place.
pub proof fn lemma_substitution_text(
    f: Frame,
    status: i32,
    output: String,
    base: Seq<Frame>,
    out0: Outcome,
    cfg0: Config,
    fs1: Seq<Frame>,
    out1: Outcome,
    cfg1: Config,
    a1: Action,
    event2: Event,
    fs2: Seq<Frame>,
    out2: Outcome,
    cfg2: Config,
    a2: Action,
)
    requires
        f.stage is AwaitSpawn,
        f.ctx == TokenType::Subshell,
        base.len() > 0,
        base.last().stage is AwaitChild,
        advanced(f, Event::Captured(status, output), base, out0, cfg0, fs1, out1, cfg1, a1),
        advanced(fs1.last(), event2, fs1.drop_last(), out1, cfg1, fs2, out2, cfg2, a2),
    ensures
        a2 is Resume,
        fs2.last().node.children@[clamp(base.last().next as int, base.last().node.children@.len() as int)].value.value@
            == trim(output@),
        fs2.last().result.status == status,
        cfg2.var(status_name()) == Some(decimal(status as int)),
{
    assert(fs1.drop_last() == base);
    let g = fs1.last();
    let c = choose|c: TreeNode<Box<Token>>|
        {
            &&& c.value.t_type == g.node.value.t_type
            &&& c.value.w_type == g.node.value.w_type
            &&& c.children == g.node.children
            &&& c.value.value@ == if g.ctx == TokenType::QuotedStr {
                joined(g.node.children@)
            } else {
                g.node.value.value@
            }
            &&& #[trigger] delivered(fs1.drop_last(), out1, c, g.result, fs2, out2, a2)
        };
}

/// When a redirected command or a pipeline side finishes, the descriptor
/// it no longer needs is closed: the redirection file, the write end after
/// the sending side, the read end after the receiving side. A redirection
/// and a pipeline take the outcome of their (receiving) command, and after
/// a pipeline the processes it started are waited for.
pub proof fn lemma_descriptors_closed(
    f: Frame,
    event: Event,
    base: Seq<Frame>,
    out0: Outcome,
    cfg0: Config,
    fs: Seq<Frame>,
    out1: Outcome,
    cfg1: Config,
    a: Action,
)
    requires
        f.stage is Finish,
        base.len() > 0,
        advanced(f, event, base, out0, cfg0, fs, out1, cfg1, a),
    ensures
        base.last().stage matches Stage::AwaitRedirected(_, fd) ==> a == Action::Close(fd)
            && fs.last().result == f.result && fs.last().stage is Scan,
        base.last().stage matches Stage::AwaitLeft(_, _, wr) ==> a == Action::Close(wr)
            && fs.last().result == base.last().result && fs.last().stage is StartRight,
        base.last().stage matches Stage::AwaitRight(_, rd) ==> a == Action::Close(rd)
            && fs.last().result == f.result && fs.last().stage is Reap,
        fs.last().stage is Reap ==> forall|e: Event, fs2: Seq<Frame>, o2: Outcome, c2: Config, a2: Action|
            #[trigger] advanced(fs.last(), e, fs.drop_last(), out1, cfg1, fs2, o2, c2, a2) ==> a2 is WaitStarted,
{
}

} // verus!
