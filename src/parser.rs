//! The command-structure builder: turns one input line into a tree of tokens
//! by the fixed precedence chain pipeline, quoting, command substitution,
//! append redirection, redirection and, last, a plain split into words.
use vstd::prelude::*;
use vstd::string::StrSliceExecFns;
use crate::config::{Config, lookup_value};
use crate::text::{
    is_white, skip_white, trim, last_index_below, first_index_from, is_white_char, trim_str,
    last_index_of, first_index_of, lemma_skip_white_bounds, lemma_back_white_bounds,
    lemma_last_index_below, lemma_first_index_from,
};
use crate::tree::TreeNode;

verus! {

#[derive(Clone, Copy, Debug, PartialEq, Eq, Structural)]
pub enum TokenType {
    Word,
    Node,
    PipelineRedirect,
    PipelineSendOuput,
    PipelineGetInput,
    OutputRedirect,
    OutputRedirectAppend,
    QuotedStr,
    Subshell,
}

#[derive(Clone, Copy, Debug, PartialEq, Eq, Structural)]
pub enum WordType {
    NotWord,
    Builtin,
    Function,
    Keyword,
    General,
}

pub struct Token {
    pub t_type: TokenType,
    pub w_type: WordType,
    pub value: Box<String>,
}

/// The mathematical picture of a parse tree.
pub struct Parsed {
    pub kind: TokenType,
    pub word: WordType,
    pub text: Seq<char>,
    pub children: Seq<Parsed>,
}

pub open spec fn view_tree(t: TreeNode<Box<Token>>) -> Parsed
    decreases t,
{
    Parsed {
        kind: t.value.t_type,
        word: t.value.w_type,
        text: t.value.value@,
        children: Seq::new(
            t.children@.len(),
            |i: int|
                if 0 <= i < t.children@.len() {
                    view_tree(t.children@[i])
                } else {
                    leaf_of(TokenType::Node, Seq::empty())
                },
        ),
    }
}

pub open spec fn view_all(ts: Seq<TreeNode<Box<Token>>>) -> Seq<Parsed> {
    Seq::new(ts.len(), |i: int| view_tree(ts[i]))
}

pub open spec fn leaf_of(kind: TokenType, text: Seq<char>) -> Parsed {
    Parsed { kind, word: WordType::NotWord, text, children: Seq::empty() }
}

pub open spec fn retag(p: Parsed, kind: TokenType) -> Parsed {
    Parsed { kind, word: p.word, text: p.text, children: p.children }
}

/// The characters that leave a token still to be decomposed.
pub open spec fn is_meta(c: char) -> bool {
    c == '|' || c == '>' || c == '<' || c == '\'' || c == '"' || c == '$' || c == '(' || c
        == ')' || is_white(c)
}

pub open spec fn has_meta(s: Seq<char>) -> bool {
    exists|i: int| 0 <= i < s.len() && is_meta(#[trigger] s[i])
}

/// The kind of a token and, for a word, what the environment makes of it.
pub open spec fn classify(s: Seq<char>, cfg: Config) -> (TokenType, WordType) {
    if s == seq!['|'] {
        (TokenType::PipelineRedirect, WordType::NotWord)
    } else if s == seq!['>'] {
        (TokenType::OutputRedirect, WordType::NotWord)
    } else if s == seq!['>', '>'] {
        (TokenType::OutputRedirectAppend, WordType::NotWord)
    } else if has_meta(s) {
        (TokenType::Node, WordType::NotWord)
    } else if cfg.has_builtin(s) {
        (TokenType::Word, WordType::Builtin)
    } else if cfg.has_function(s) {
        (TokenType::Word, WordType::Function)
    } else if cfg.has_keyword(s) {
        (TokenType::Word, WordType::Keyword)
    } else {
        (TokenType::Word, WordType::General)
    }
}

pub open spec fn leaf(s: Seq<char>, cfg: Config) -> Parsed {
    Parsed {
        kind: classify(s, cfg).0,
        word: classify(s, cfg).1,
        text: s,
        children: Seq::empty(),
    }
}

/// The first whitespace index at or after `i`, or the length.
pub open spec fn white_from(s: Seq<char>, i: int) -> int
    decreases s.len() - i,
{
    if i < 0 || i >= s.len() {
        s.len() as int
    } else if is_white(s[i]) {
        i
    } else {
        white_from(s, i + 1)
    }
}

/// The whitespace-separated words of `s` from index `i` on.
pub open spec fn words_from(s: Seq<char>, i: int) -> Seq<Seq<char>>
    decreases s.len() - i,
{
    let a = skip_white(s, i);
    if 0 <= i && a < s.len() {
        proof {
            lemma_skip_white_bounds(s, i);
            lemma_white_from(s, a);
        }
        seq![s.subrange(a, white_from(s, a))] + words_from(s, white_from(s, a))
    } else {
        Seq::empty()
    }
}

/// A word with a leading `$` replaced by the variable's value (empty when
/// unset).
pub open spec fn expand(w: Seq<char>, cfg: Config) -> Seq<char> {
    if w.len() > 0 && w[0] == '$' {
        match cfg.var(w.subrange(1, w.len() as int)) {
            Some(v) => v,
            None => Seq::empty(),
        }
    } else {
        w
    }
}

/// The last index `i` below `n - 1` with `s[i] == a` and `s[i + 1] == b`, or -1.
pub open spec fn last_pair_below(s: Seq<char>, a: char, b: char, n: int) -> int
    decreases n,
{
    if n < 2 {
        -1
    } else if s[n - 2] == a && s[n - 1] == b {
        n - 2
    } else {
        last_pair_below(s, a, b, n - 1)
    }
}

pub open spec fn is_quote(c: char) -> bool {
    c == '\'' || c == '"'
}

/// The opening quote of the first quoted span at or after `i`, or -1.
pub open spec fn quote_open_from(s: Seq<char>, i: int) -> int
    decreases s.len() - i,
{
    if i < 0 || i >= s.len() {
        -1
    } else if is_quote(s[i]) && first_index_from(s, s[i], i + 1) >= 0 {
        i
    } else {
        quote_open_from(s, i + 1)
    }
}

/// The closing parenthesis of a command substitution: the last `)`.
pub open spec fn subst_close(s: Seq<char>) -> int {
    last_index_below(s, ')', s.len() as int)
}

/// The `$(` that opens a command substitution: the last one before its close.
pub open spec fn subst_open(s: Seq<char>) -> int {
    if subst_close(s) < 0 {
        -1
    } else {
        last_pair_below(s, '$', '(', subst_close(s))
    }
}

/// The tree that `build_ast` makes of `s`.
pub open spec fn build(s: Seq<char>, cfg: Config) -> Parsed
    decreases s.len(), 1int,
{
    Parsed {
        kind: root_kind(s, cfg).0,
        word: root_kind(s, cfg).1,
        text: s,
        children: command_children(s, cfg),
    }
}

/// Whether a kind is that of an operator: a pipe or a redirection.
pub open spec fn is_operator(k: TokenType) -> bool {
    k == TokenType::PipelineRedirect || k == TokenType::OutputRedirect || k
        == TokenType::OutputRedirectAppend
}

/// The kind of the root of a tree: that of its text, except that a text
/// which is itself an operator makes a plain `Node` (the operator node is
/// then its child).
pub open spec fn root_kind(s: Seq<char>, cfg: Config) -> (TokenType, WordType) {
    if is_operator(classify(s, cfg).0) {
        (TokenType::Node, WordType::NotWord)
    } else {
        classify(s, cfg)
    }
}

/// The children of the tree of `s`, by the first rule of the chain that
/// applies to the whole of `s`.
pub open spec fn command_children(s: Seq<char>, cfg: Config) -> Seq<Parsed>
    decreases s.len(), 0int,
{
    let n = s.len() as int;
    let p = last_index_below(s, '|', n);
    let qo = quote_open_from(s, 0);
    let so = subst_open(s);
    let ap = last_pair_below(s, '>', '>', n);
    let rd = last_index_below(s, '>', n);
    if p >= 0 {
        proof {
            lemma_last_index_below(s, '|', n);
            lemma_trim(s.subrange(0, p));
            lemma_trim(s.subrange(p + 1, n));
        }
        seq![
            Parsed {
                kind: TokenType::PipelineRedirect,
                word: WordType::NotWord,
                text: seq!['|'],
                children: seq![
                    retag(build(trim(s.subrange(0, p)), cfg), TokenType::PipelineSendOuput),
                    retag(build(trim(s.subrange(p + 1, n)), cfg), TokenType::PipelineGetInput),
                ],
            },
        ]
    } else if qo >= 0 {
        let qc = first_index_from(s, s[qo], qo + 1);
        proof {
            lemma_quote_open(s, 0);
            lemma_first_index_from(s, s[qo], qo + 1);
            lemma_trim(s.subrange(0, qo));
            lemma_trim(s.subrange(qo + 1, qc));
            lemma_trim(s.subrange(qc + 1, n));
        }
        let b = trim(s.subrange(0, qo));
        let a = trim(s.subrange(qc + 1, n));
        (if b.len() == 0 {
            Seq::empty()
        } else {
            build(b, cfg).children
        }) + seq![quot(trim(s.subrange(qo + 1, qc)), cfg)] + (if a.len() == 0 {
            Seq::empty()
        } else {
            build(a, cfg).children
        })
    } else if so >= 0 {
        let sc = subst_close(s);
        proof {
            lemma_subst(s);
            lemma_trim(s.subrange(0, so));
            lemma_trim(s.subrange(so + 2, sc));
            lemma_trim(s.subrange(sc + 1, n));
        }
        let b = trim(s.subrange(0, so));
        let a = trim(s.subrange(sc + 1, n));
        (if b.len() == 0 {
            Seq::empty()
        } else {
            build(b, cfg).children
        }) + seq![retag(build(trim(s.subrange(so + 2, sc)), cfg), TokenType::Subshell)] + (if a.len()
            == 0 {
            Seq::empty()
        } else {
            build(a, cfg).children
        })
    } else if ap >= 0 {
        proof {
            lemma_last_pair_below(s, '>', '>', n);
            lemma_trim(s.subrange(0, ap));
            lemma_trim(s.subrange(ap + 2, n));
        }
        let b = trim(s.subrange(0, ap));
        let a = trim(s.subrange(ap + 2, n));
        seq![
            Parsed {
                kind: TokenType::OutputRedirectAppend,
                word: WordType::NotWord,
                text: seq!['>', '>'],
                children: (if b.len() == 0 {
                    Seq::empty()
                } else {
                    seq![build(b, cfg)]
                }) + (if a.len() == 0 {
                    Seq::empty()
                } else {
                    seq![build(a, cfg)]
                }),
            },
        ]
    } else if rd >= 0 {
        proof {
            lemma_last_index_below(s, '>', n);
            lemma_trim(s.subrange(0, rd));
            lemma_trim(s.subrange(rd + 1, n));
        }
        let b = trim(s.subrange(0, rd));
        let a = trim(s.subrange(rd + 1, n));
        seq![
            Parsed {
                kind: TokenType::OutputRedirect,
                word: WordType::NotWord,
                text: seq!['>'],
                children: (if b.len() == 0 {
                    Seq::empty()
                } else {
                    seq![build(b, cfg)]
                }) + (if a.len() == 0 {
                    Seq::empty()
                } else {
                    seq![build(a, cfg)]
                }),
            },
        ]
    } else {
        let ws = words_from(s, 0);
        Seq::new(ws.len(), |k: int| leaf(expand(ws[k], cfg), cfg))
    }
}

/// The tree of the inside of a quoted span: literal fragments around each
/// command substitution.
pub open spec fn quot(s: Seq<char>, cfg: Config) -> Parsed
    decreases s.len(), 1int,
{
    let n = s.len() as int;
    let so = subst_open(s);
    let sc = subst_close(s);
    Parsed {
        kind: TokenType::QuotedStr,
        word: WordType::NotWord,
        text: s,
        children: if so >= 0 {
            proof {
                lemma_subst(s);
            }
            seq![
                quot(s.subrange(0, so), cfg),
                retag(build(s.subrange(so + 2, sc), cfg), TokenType::Subshell),
                quot(s.subrange(sc + 1, n), cfg),
            ]
        } else {
            Seq::empty()
        },
    }
}

pub proof fn lemma_trim(s: Seq<char>)
    ensures
        trim(s).len() <= s.len(),
        trim(s) == s.subrange(skip_white(s, 0), skip_white(s, 0) + trim(s).len()),
{
    lemma_skip_white_bounds(s, 0);
    lemma_back_white_bounds(s, s.len() as int, skip_white(s, 0));
}

pub proof fn lemma_white_from(s: Seq<char>, i: int)
    requires
        0 <= i <= s.len(),
    ensures
        i <= white_from(s, i) <= s.len(),
        forall|k: int| i <= k < white_from(s, i) ==> !is_white(#[trigger] s[k]),
        white_from(s, i) < s.len() ==> is_white(s[white_from(s, i)]),
    decreases s.len() - i,
{
    if i < s.len() && !is_white(s[i]) {
        lemma_white_from(s, i + 1);
    }
}

pub proof fn lemma_last_pair_below(s: Seq<char>, a: char, b: char, n: int)
    requires
        n <= s.len(),
    ensures
        -1 <= last_pair_below(s, a, b, n) <= n - 2 || last_pair_below(s, a, b, n) == -1,
        last_pair_below(s, a, b, n) >= 0 ==> s[last_pair_below(s, a, b, n)] == a && s[last_pair_below(s, a, b, n) + 1] == b,
        forall|k: int|
            last_pair_below(s, a, b, n) < k && k + 1 < n ==> !(#[trigger] s[k] == a && s[k + 1] == b),
    decreases n,
{
    if n >= 2 && !(s[n - 2] == a && s[n - 1] == b) {
        lemma_last_pair_below(s, a, b, n - 1);
    }
}

pub proof fn lemma_quote_open(s: Seq<char>, i: int)
    requires
        0 <= i,
    ensures
        quote_open_from(s, i) == -1 || (i <= quote_open_from(s, i) < s.len() && is_quote(
            s[quote_open_from(s, i)],
        ) && first_index_from(s, s[quote_open_from(s, i)], quote_open_from(s, i) + 1) >= 0),
    decreases s.len() - i,
{
    if i < s.len() && !(is_quote(s[i]) && first_index_from(s, s[i], i + 1) >= 0) {
        lemma_quote_open(s, i + 1);
    }
}

pub proof fn lemma_subst(s: Seq<char>)
    ensures
        subst_open(s) >= 0 ==> 0 <= subst_open(s) && subst_open(s) + 2 <= subst_close(s) < s.len()
            && s[subst_open(s)] == '$' && s[subst_open(s) + 1] == '(' && s[subst_close(s)] == ')',
{
    lemma_last_index_below(s, ')', s.len() as int);
    if subst_close(s) >= 0 {
        lemma_last_pair_below(s, '$', '(', subst_close(s));
    }
}

fn is_meta_char(c: char) -> (r: bool)
    ensures
        r == is_meta(c),
{
    c == '|' || c == '>' || c == '<' || c == '\'' || c == '"' || c == '$' || c == '(' || c
        == ')' || is_white_char(c)
}

fn has_meta_str(s: &str) -> (r: bool)
    ensures
        r == has_meta(s@),
{
    let n = s.unicode_len();
    let mut i: usize = 0;
    while i < n
        invariant
            n == s@.len(),
            i <= n,
            forall|k: int| 0 <= k < i ==> !is_meta(#[trigger] s@[k]),
        decreases n - i,
    {
        if is_meta_char(s.get_char(i)) {
            return true;
        }
        i = i + 1;
    }
    false
}

/// Whether `s` is exactly the one character `c`.
fn is_single(s: &str, c: char) -> (r: bool)
    ensures
        r == (s@ == seq![c]),
{
    let n = s.unicode_len();
    if n == 1 && s.get_char(0) == c {
        assert(s@ =~= seq![c]);
        true
    } else {
        false
    }
}

/// Whether `s` is exactly `c` twice.
fn is_double(s: &str, c: char) -> (r: bool)
    ensures
        r == (s@ == seq![c, c]),
{
    let n = s.unicode_len();
    if n == 2 && s.get_char(0) == c && s.get_char(1) == c {
        assert(s@ =~= seq![c, c]);
        true
    } else {
        false
    }
}

/// Tells apart operators, text still to decompose, and the kinds of word.
fn classify_token(s: &String, cfg: &Config) -> (tok: Token)
    ensures
        tok.t_type == classify(s@, *cfg).0,
        tok.w_type == classify(s@, *cfg).1,
        tok.value@ == s@,
{
    let t = s.as_str();
    let (t_type, w_type) = if is_single(t, '|') {
        (TokenType::PipelineRedirect, WordType::NotWord)
    } else if is_single(t, '>') {
        (TokenType::OutputRedirect, WordType::NotWord)
    } else if is_double(t, '>') {
        (TokenType::OutputRedirectAppend, WordType::NotWord)
    } else if has_meta_str(t) {
        (TokenType::Node, WordType::NotWord)
    } else if cfg.is_builtin(s) {
        (TokenType::Word, WordType::Builtin)
    } else if cfg.is_function(s) {
        (TokenType::Word, WordType::Function)
    } else if cfg.is_keyword(s) {
        (TokenType::Word, WordType::Keyword)
    } else {
        (TokenType::Word, WordType::General)
    };
    Token { t_type, w_type, value: Box::new(s.clone()) }
}

/// A word with a leading `$` replaced by the value of the variable it names.
fn expand_word(w: &str, cfg: &Config) -> (r: String)
    ensures
        r@ == expand(w@, *cfg),
{
    let n = w.unicode_len();
    if n > 0 && w.get_char(0) == '$' {
        let name = w.substring_char(1, n).to_string();
        match lookup_value(&cfg.variables, &name) {
            Some(v) => v,
            None => String::new(),
        }
    } else {
        w.to_string()
    }
}

/// The words of a simple command, each `$NAME` replaced by its value.
pub fn split_simple_command(s: &String, cfg: &Config) -> (r: Vec<String>)
    ensures
        r@.len() == words_from(s@, 0).len(),
        forall|k: int| 0 <= k < r@.len() ==> (#[trigger] r@[k])@ == expand(words_from(s@, 0)[k], *cfg),
{
    let t = s.as_str();
    let n = t.unicode_len();
    let mut out: Vec<String> = Vec::new();
    let mut i: usize = 0;
    let ghost done: Seq<Seq<char>> = Seq::empty();
    loop
        invariant
            n == t@.len(),
            t@ == s@,
            i <= n,
            done + words_from(t@, i as int) == words_from(t@, 0),
            out@.len() == done.len(),
            forall|k: int| 0 <= k < out@.len() ==> (#[trigger] out@[k])@ == expand(done[k], *cfg),
        decreases n - i,
    {
        let mut a: usize = i;
        while a < n && is_white_char(t.get_char(a))
            invariant
                n == t@.len(),
                i <= a <= n,
                skip_white(t@, a as int) == skip_white(t@, i as int),
            decreases n - a,
        {
            a = a + 1;
        }
        if a >= n {
            assert(words_from(t@, i as int) == Seq::<Seq<char>>::empty());
            assert(done + Seq::<Seq<char>>::empty() =~= done);
            return out;
        }
        let mut e: usize = a;
        while e < n && !is_white_char(t.get_char(e))
            invariant
                n == t@.len(),
                a <= e <= n,
                white_from(t@, e as int) == white_from(t@, a as int),
            decreases n - e,
        {
            e = e + 1;
        }
        proof {
            lemma_skip_white_bounds(t@, i as int);
            lemma_white_from(t@, a as int);
        }
        let w = t.substring_char(a, e);
        let x = expand_word(w, cfg);
        out.push(x);
        proof {
            let wv = t@.subrange(a as int, e as int);
            assert(words_from(t@, i as int) == seq![wv] + words_from(t@, e as int));
            assert(done + words_from(t@, i as int) =~= done.push(wv) + words_from(t@, e as int));
            done = done.push(wv);
        }
        i = e;
    }
}


pub proof fn lemma_view_children(t: TreeNode<Box<Token>>)
    ensures
        view_tree(t).children == view_all(t.children@),
{
    assert(view_tree(t).children =~= view_all(t.children@));
}

pub proof fn lemma_view_all_concat(a: Seq<TreeNode<Box<Token>>>, b: Seq<TreeNode<Box<Token>>>)
    ensures
        view_all(a + b) == view_all(a) + view_all(b),
{
    assert(view_all(a + b) =~= view_all(a) + view_all(b));
}

pub proof fn lemma_view_all_push(a: Seq<TreeNode<Box<Token>>>, x: TreeNode<Box<Token>>)
    ensures
        view_all(a.push(x)) == view_all(a).push(view_tree(x)),
{
    assert(view_all(a.push(x)) =~= view_all(a).push(view_tree(x)));
}

/// The last index `i` below `n - 1` where `s` holds `a` followed by `b`.
fn last_pair(s: &str, a: char, b: char, n: usize) -> (r: Option<usize>)
    requires
        n <= s@.len(),
    ensures
        match r {
            Some(i) => i as int == last_pair_below(s@, a, b, n as int),
            None => last_pair_below(s@, a, b, n as int) == -1,
        },
{
    let mut k: usize = n;
    while k >= 2
        invariant
            k <= n <= s@.len(),
            last_pair_below(s@, a, b, k as int) == last_pair_below(s@, a, b, n as int),
        decreases k,
    {
        if s.get_char(k - 2) == a && s.get_char(k - 1) == b {
            return Some(k - 2);
        }
        k = k - 1;
    }
    None
}

/// The first quoted span: its opening and closing quote.
fn quote_span(s: &str) -> (r: Option<(usize, usize)>)
    ensures
        match r {
            Some((o, c)) => o as int == quote_open_from(s@, 0) && o < s@.len() && c as int
                == first_index_from(s@, s@[o as int], o + 1),
            None => quote_open_from(s@, 0) == -1,
        },
{
    let n = s.unicode_len();
    let mut i: usize = 0;
    while i < n
        invariant
            n == s@.len(),
            i <= n,
            quote_open_from(s@, i as int) == quote_open_from(s@, 0),
        decreases n - i,
    {
        let ch = s.get_char(i);
        if ch == '\'' || ch == '"' {
            match first_index_of(s, ch, i + 1) {
                Some(c) => {
                    return Some((i, c));
                },
                None => {},
            }
        }
        i = i + 1;
    }
    None
}

/// The command substitution `$( ... )` that the builder splits at.
fn subst_span(s: &str) -> (r: Option<(usize, usize)>)
    ensures
        match r {
            Some((o, c)) => o as int == subst_open(s@) && c as int == subst_close(s@) && o >= 0,
            None => subst_open(s@) < 0,
        },
{
    let n = s.unicode_len();
    match last_index_of(s, ')', n) {
        Some(c) => {
            proof {
                lemma_last_index_below(s@, ')', n as int);
            }
            match last_pair(s, '$', '(', c) {
                Some(o) => Some((o, c)),
                None => None,
            }
        },
        None => None,
    }
}

/// The same tree under another kind.
fn retag_node(t: TreeNode<Box<Token>>, kind: TokenType) -> (r: TreeNode<Box<Token>>)
    ensures
        view_tree(r) == retag(view_tree(t), kind),
{
    let ghost t0 = t;
    let TreeNode { value, children } = t;
    let tok = *value;
    let Token { t_type: _, w_type, value: text } = tok;
    let r = TreeNode { value: Box::new(Token { t_type: kind, w_type, value: text }), children };
    proof {
        lemma_view_children(r);
        lemma_view_children(t0);
        assert(view_tree(r).children =~= view_tree(t0).children);
    }
    r
}

fn text_token(kind: TokenType, text: String) -> (r: TreeNode<Box<Token>>)
    ensures
        view_tree(r) == leaf_of(kind, text@),
{
    let r = TreeNode {
        value: Box::new(Token { t_type: kind, w_type: WordType::NotWord, value: Box::new(text) }),
        children: Vec::new(),
    };
    assert(view_tree(r).children =~= Seq::<Parsed>::empty());
    r
}

/// The tree of one command line (or of a part of one).
fn build_node(s: &str, cfg: &Config) -> (r: TreeNode<Box<Token>>)
    ensures
        view_tree(r) == build(s@, *cfg),
    decreases s@.len(), 2int,
{
    let text = s.to_string();
    let tok = classify_token(&text, cfg);
    let tok = if tok.t_type == TokenType::PipelineRedirect || tok.t_type == TokenType::OutputRedirect
        || tok.t_type == TokenType::OutputRedirectAppend {
        Token { t_type: TokenType::Node, w_type: WordType::NotWord, value: tok.value }
    } else {
        tok
    };
    let children = command_children_of(s, cfg);
    let r = TreeNode { value: Box::new(tok), children };
    proof {
        lemma_view_children(r);
    }
    r
}

/// The children of `s` spliced in from the tree of `s`, if `s` is not empty.
fn spliced_children(s: &String, cfg: &Config) -> (r: Vec<TreeNode<Box<Token>>>)
    ensures
        view_all(r@) == (if s@.len() == 0 {
            Seq::empty()
        } else {
            build(s@, *cfg).children
        }),
    decreases s@.len(), 3int,
{
    let t = s.as_str();
    if t.unicode_len() == 0 {
        let r: Vec<TreeNode<Box<Token>>> = Vec::new();
        assert(view_all(r@) =~= Seq::<Parsed>::empty());
        r
    } else {
        let node = build_node(t, cfg);
        proof {
            lemma_view_children(node);
        }
        node.children
    }
}

/// The tree of `s` as a one-element list, or nothing if `s` is empty.
fn optional_tree(s: &String, cfg: &Config) -> (r: Vec<TreeNode<Box<Token>>>)
    ensures
        view_all(r@) == (if s@.len() == 0 {
            Seq::empty()
        } else {
            seq![build(s@, *cfg)]
        }),
    decreases s@.len(), 3int,
{
    let t = s.as_str();
    let mut r: Vec<TreeNode<Box<Token>>> = Vec::new();
    if t.unicode_len() != 0 {
        let node = build_node(t, cfg);
        r.push(node);
    }
    assert(view_all(r@) =~= (if s@.len() == 0 {
        Seq::empty()
    } else {
        seq![build(s@, *cfg)]
    }));
    r
}


/// A node for an operator, with the given subtrees.
fn operator_node(kind: TokenType, text: String, children: Vec<TreeNode<Box<Token>>>) -> (r: TreeNode<
    Box<Token>,
>)
    ensures
        view_tree(r) == (Parsed {
            kind,
            word: WordType::NotWord,
            text: text@,
            children: view_all(children@),
        }),
{
    let r = TreeNode {
        value: Box::new(Token { t_type: kind, w_type: WordType::NotWord, value: Box::new(text) }),
        children,
    };
    proof {
        lemma_view_children(r);
    }
    r
}

/// The children of `s` under the pipeline rule, split at `p`.
fn pipeline_children(s: &str, cfg: &Config, p: usize) -> (r: Vec<TreeNode<Box<Token>>>)
    requires
        p as int == last_index_below(s@, '|', s@.len() as int),
    ensures
        view_all(r@) == command_children(s@, *cfg),
    decreases s@.len(), 0int,
{
    let n = s.unicode_len();
    let ghost sv = s@;
    proof {
        lemma_last_index_below(sv, '|', n as int);
        lemma_trim(sv.subrange(0, p as int));
        lemma_trim(sv.subrange(p + 1, n as int));
        reveal_strlit("|");
    }
    let left = trim_str(s.substring_char(0, p));
    let right = trim_str(s.substring_char(p + 1, n));
    let l = retag_node(build_node(left.as_str(), cfg), TokenType::PipelineSendOuput);
    let rt = retag_node(build_node(right.as_str(), cfg), TokenType::PipelineGetInput);
    let mut kids: Vec<TreeNode<Box<Token>>> = Vec::new();
    kids.push(l);
    kids.push(rt);
    let node = operator_node(TokenType::PipelineRedirect, "|".to_string(), kids);
    let mut r: Vec<TreeNode<Box<Token>>> = Vec::new();
    r.push(node);
    proof {
        assert("|"@ =~= seq!['|']);
        assert(view_all(kids@) =~= seq![
            retag(build(trim(sv.subrange(0, p as int)), *cfg), TokenType::PipelineSendOuput),
            retag(build(trim(sv.subrange(p + 1, n as int)), *cfg), TokenType::PipelineGetInput),
        ]);
        assert(view_all(r@) =~= command_children(sv, *cfg));
    }
    r
}

/// The children of `s` under the quoting rule, for the span from `o` to `c`.
fn quoted_children(s: &str, cfg: &Config, o: usize, c: usize) -> (r: Vec<TreeNode<Box<Token>>>)
    requires
        last_index_below(s@, '|', s@.len() as int) < 0,
        o as int == quote_open_from(s@, 0),
        o < s@.len(),
        c as int == first_index_from(s@, s@[o as int], o + 1),
    ensures
        view_all(r@) == command_children(s@, *cfg),
    decreases s@.len(), 0int,
{
    let n = s.unicode_len();
    let ghost sv = s@;
    proof {
        lemma_quote_open(sv, 0);
        lemma_first_index_from(sv, sv[o as int], o + 1);
        lemma_trim(sv.subrange(0, o as int));
        lemma_trim(sv.subrange(o + 1, c as int));
        lemma_trim(sv.subrange(c + 1, n as int));
    }
    let before = trim_str(s.substring_char(0, o));
    let inner = trim_str(s.substring_char(o + 1, c));
    let after = trim_str(s.substring_char(c + 1, n));
    let mut r = spliced_children(&before, cfg);
    let mut q = parse_quot_string(inner.as_str(), cfg);
    let qn = q.remove(0);
    let mut tail = spliced_children(&after, cfg);
    let ghost r0 = r@;
    r.push(qn);
    let ghost r1 = r@;
    r.append(&mut tail);
    proof {
        lemma_view_all_push(r0, qn);
        lemma_view_all_concat(r1, tail@);
    }
    r
}

/// The children of `s` under the command-substitution rule.
fn subst_children(s: &str, cfg: &Config, o: usize, c: usize) -> (r: Vec<TreeNode<Box<Token>>>)
    requires
        last_index_below(s@, '|', s@.len() as int) < 0,
        quote_open_from(s@, 0) < 0,
        o as int == subst_open(s@),
        c as int == subst_close(s@),
    ensures
        view_all(r@) == command_children(s@, *cfg),
    decreases s@.len(), 0int,
{
    let n = s.unicode_len();
    let ghost sv = s@;
    proof {
        lemma_subst(sv);
        lemma_trim(sv.subrange(0, o as int));
        lemma_trim(sv.subrange(o + 2, c as int));
        lemma_trim(sv.subrange(c + 1, n as int));
    }
    let before = trim_str(s.substring_char(0, o));
    let inner = trim_str(s.substring_char(o + 2, c));
    let after = trim_str(s.substring_char(c + 1, n));
    let mut r = spliced_children(&before, cfg);
    let sub = retag_node(build_node(inner.as_str(), cfg), TokenType::Subshell);
    let mut tail = spliced_children(&after, cfg);
    let ghost r0 = r@;
    r.push(sub);
    let ghost r1 = r@;
    r.append(&mut tail);
    proof {
        lemma_view_all_push(r0, sub);
        lemma_view_all_concat(r1, tail@);
    }
    r
}

/// An output-redirection node over the text before `a` and from `e` on.
fn redirect_node(s: &str, cfg: &Config, a: usize, e: usize, kind: TokenType, op: String) -> (r:
    TreeNode<Box<Token>>)
    requires
        a < e <= s@.len(),
    ensures
        view_tree(r) == (Parsed {
            kind,
            word: WordType::NotWord,
            text: op@,
            children: (if trim(s@.subrange(0, a as int)).len() == 0 {
                Seq::empty()
            } else {
                seq![build(trim(s@.subrange(0, a as int)), *cfg)]
            }) + (if trim(s@.subrange(e as int, s@.len() as int)).len() == 0 {
                Seq::empty()
            } else {
                seq![build(trim(s@.subrange(e as int, s@.len() as int)), *cfg)]
            }),
        }),
    decreases s@.len(), 0int,
{
    let n = s.unicode_len();
    let ghost sv = s@;
    proof {
        lemma_trim(sv.subrange(0, a as int));
        lemma_trim(sv.subrange(e as int, n as int));
    }
    let before = trim_str(s.substring_char(0, a));
    let after = trim_str(s.substring_char(e, n));
    let mut kids = optional_tree(&before, cfg);
    let mut tail = optional_tree(&after, cfg);
    let ghost k0 = kids@;
    kids.append(&mut tail);
    proof {
        lemma_view_all_concat(k0, tail@);
    }
    let ghost expected = (if trim(sv.subrange(0, a as int)).len() == 0 {
        Seq::empty()
    } else {
        seq![build(trim(sv.subrange(0, a as int)), *cfg)]
    }) + (if trim(sv.subrange(e as int, sv.len() as int)).len() == 0 {
        Seq::empty()
    } else {
        seq![build(trim(sv.subrange(e as int, sv.len() as int)), *cfg)]
    });
    assert(view_all(kids@) == expected);
    operator_node(kind, op, kids)
}

/// The children of a simple command: one leaf per word.
fn word_children(s: &str, cfg: &Config) -> (r: Vec<TreeNode<Box<Token>>>)
    ensures
        view_all(r@) == Seq::new(
            words_from(s@, 0).len(),
            |j: int| leaf(expand(words_from(s@, 0)[j], *cfg), *cfg),
        ),
{
    let words = split_simple_command(&s.to_string(), cfg);
    let ghost ws = words_from(s@, 0);
    let mut r: Vec<TreeNode<Box<Token>>> = Vec::new();
    let mut k: usize = 0;
    while k < words.len()
        invariant
            k <= words@.len(),
            words@.len() == ws.len(),
            forall|j: int| 0 <= j < words@.len() ==> (#[trigger] words@[j])@ == expand(ws[j], *cfg),
            view_all(r@) == Seq::new(k as nat, |j: int| leaf(expand(ws[j], *cfg), *cfg)),
        decreases words.len() - k,
    {
        let tok = classify_token(&words[k], cfg);
        let node = TreeNode { value: Box::new(tok), children: Vec::new() };
        proof {
            assert(view_tree(node).children =~= Seq::<Parsed>::empty());
            lemma_view_all_push(r@, node);
        }
        r.push(node);
        proof {
            assert(view_all(r@) =~= Seq::new(
                (k + 1) as nat,
                |j: int| leaf(expand(ws[j], *cfg), *cfg),
            ));
        }
        k = k + 1;
    }
    r
}

/// The children of the tree of `s`.
fn command_children_of(s: &str, cfg: &Config) -> (r: Vec<TreeNode<Box<Token>>>)
    ensures
        view_all(r@) == command_children(s@, *cfg),
    decreases s@.len(), 1int,
{
    let n = s.unicode_len();
    let ghost sv = s@;
    if let Some(p) = last_index_of(s, '|', n) {
        return pipeline_children(s, cfg, p);
    }
    if let Some((o, c)) = quote_span(s) {
        return quoted_children(s, cfg, o, c);
    }
    if let Some((o, c)) = subst_span(s) {
        return subst_children(s, cfg, o, c);
    }
    proof {
        lemma_last_pair_below(sv, '>', '>', n as int);
        lemma_last_index_below(sv, '>', n as int);
        reveal_strlit(">>");
        reveal_strlit(">");
        assert(">>"@ =~= seq!['>', '>']);
        assert(">"@ =~= seq!['>']);
    }
    if let Some(a) = last_pair(s, '>', '>', n) {
        let node = redirect_node(s, cfg, a, a + 2, TokenType::OutputRedirectAppend, ">>".to_string());
        let mut r: Vec<TreeNode<Box<Token>>> = Vec::new();
        r.push(node);
        assert(view_all(r@) =~= command_children(sv, *cfg));
        return r;
    }
    if let Some(a) = last_index_of(s, '>', n) {
        let node = redirect_node(s, cfg, a, a + 1, TokenType::OutputRedirect, ">".to_string());
        let mut r: Vec<TreeNode<Box<Token>>> = Vec::new();
        r.push(node);
        assert(view_all(r@) =~= command_children(sv, *cfg));
        return r;
    }
    word_children(s, cfg)
}

/// The tree of the inside of a quoted span: a `QuotedStr` node whose children
/// are the literal fragments around a command substitution and the
/// substitution itself.
pub fn parse_quot_string(s: &str, cfg: &Config) -> (r: Vec<TreeNode<Box<Token>>>)
    ensures
        r@.len() == 1,
        view_tree(r@[0]) == quot(s@, *cfg),
    decreases s@.len(), 2int,
{
    let n = s.unicode_len();
    let mut children: Vec<TreeNode<Box<Token>>> = Vec::new();
    if let Some((o, c)) = subst_span(s) {
        proof {
            lemma_subst(s@);
        }
        let mut q1 = parse_quot_string(s.substring_char(0, o), cfg);
        let first = q1.remove(0);
        let sub = retag_node(build_node(s.substring_char(o + 2, c), cfg), TokenType::Subshell);
        let mut q2 = parse_quot_string(s.substring_char(c + 1, n), cfg);
        let last = q2.remove(0);
        children.push(first);
        children.push(sub);
        children.push(last);
    }
    let node = operator_node(TokenType::QuotedStr, s.to_string(), children);
    let mut r: Vec<TreeNode<Box<Token>>> = Vec::new();
    r.push(node);
    assert(view_tree(r@[0]).children =~= quot(s@, *cfg).children);
    r
}

/// The command-structure tree of one input line.
pub fn build_ast(command: &String, cfg: &Config) -> (r: Box<TreeNode<Box<Token>>>)
    ensures
        view_tree(*r) == build(command@, *cfg),
{
    Box::new(build_node(command.as_str(), cfg))
}

} // verus!
