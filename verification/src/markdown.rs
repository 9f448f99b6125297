//! A small markdown dialect — headings, bold, italic, plain text, links —
//! lexed into tokens, parsed into a document tree and rendered as HTML.
//! Each stage is specified by a recursive function over the token or node
//! views, and the executable code is proved to compute exactly that.

use vstd::prelude::*;

use crate::numfmt::{dec_rep, u64_to_string};
use crate::strings::string_push;

verus! {

/// One lexical token of the input text.
#[derive(Debug, PartialEq)]
pub enum Token {
    Heading(usize),
    BoldStart,
    BoldEnd,
    ItalicStart,
    ItalicEnd,
    Text(String),
    NewLine,
}

/// The mathematical shape of a token: text carried as a character sequence.
pub enum TokenV {
    Heading(usize),
    BoldStart,
    BoldEnd,
    ItalicStart,
    ItalicEnd,
    Text(Seq<char>),
    NewLine,
}

/// The view of one token.
pub open spec fn token_view(t: Token) -> TokenV {
    match t {
        Token::Heading(l) => TokenV::Heading(l),
        Token::BoldStart => TokenV::BoldStart,
        Token::BoldEnd => TokenV::BoldEnd,
        Token::ItalicStart => TokenV::ItalicStart,
        Token::ItalicEnd => TokenV::ItalicEnd,
        Token::Text(s) => TokenV::Text(s@),
        Token::NewLine => TokenV::NewLine,
    }
}

/// The view of a token sequence, token for token.
pub open spec fn tokens_view(ts: Seq<Token>) -> Seq<TokenV> {
    Seq::new(ts.len(), |i: int| token_view(ts[i]))
}

/// One node of the document tree.
#[derive(Debug, PartialEq)]
pub enum Node {
    Document(Vec<Node>),
    Heading(usize, Vec<Node>),
    Paragraph(Vec<Node>),
    Bold(Vec<Node>),
    Italic(Vec<Node>),
    Text(String),
    Link { text: String, url: String },
}

/// The mathematical shape of a node.
pub enum NodeV {
    Document(Seq<NodeV>),
    Heading(usize, Seq<NodeV>),
    Paragraph(Seq<NodeV>),
    Bold(Seq<NodeV>),
    Italic(Seq<NodeV>),
    Text(Seq<char>),
    Link { text: Seq<char>, url: Seq<char> },
}

/// The view of one node.
pub open spec fn node_view(n: Node) -> NodeV
    decreases n,
{
    match n {
        Node::Document(cs) => NodeV::Document(nodes_view(cs@)),
        Node::Heading(l, cs) => NodeV::Heading(l, nodes_view(cs@)),
        Node::Paragraph(cs) => NodeV::Paragraph(nodes_view(cs@)),
        Node::Bold(cs) => NodeV::Bold(nodes_view(cs@)),
        Node::Italic(cs) => NodeV::Italic(nodes_view(cs@)),
        Node::Text(s) => NodeV::Text(s@),
        Node::Link { text, url } => NodeV::Link { text: text@, url: url@ },
    }
}

/// The view of a node sequence, node for node.
pub open spec fn nodes_view(ns: Seq<Node>) -> Seq<NodeV>
    decreases ns,
{
    if ns.len() == 0 {
        Seq::empty()
    } else {
        seq![node_view(ns[0])] + nodes_view(ns.drop_first())
    }
}

proof fn lemma_nodes_view(ns: Seq<Node>)
    ensures
        nodes_view(ns).len() == ns.len(),
        forall|i: int| 0 <= i < ns.len() ==> nodes_view(ns)[i] == node_view(ns[i]),
    decreases ns.len(),
{
    if ns.len() > 0 {
        lemma_nodes_view(ns.drop_first());
    }
}

// ------------------------------------------------------------------
// Lexing
// ------------------------------------------------------------------

/// A character that ends a text run.
pub open spec fn is_stop_char(c: char) -> bool {
    c == '#' || c == '*' || c == '\n'
}

/// The first position at or after `i` holding a stop character, or the end.
pub open spec fn run_end(s: Seq<char>, i: int) -> int
    decreases s.len() - i,
{
    if i < 0 || i >= s.len() {
        s.len() as int
    } else if is_stop_char(s[i]) {
        i
    } else {
        run_end(s, i + 1)
    }
}

/// The first position at or after `i` not holding `'#'`, or the end.
pub open spec fn hashes_end(s: Seq<char>, i: int) -> int
    decreases s.len() - i,
{
    if i < 0 || i >= s.len() {
        s.len() as int
    } else if s[i] != '#' {
        i
    } else {
        hashes_end(s, i + 1)
    }
}



/// The tokens of `s` from position `i` on, with the given bold and italic
/// parity. A `#` run opens a heading whose level counts the hashes, with one
/// following space swallowed; `**` toggles bold, a single `*` toggles
/// italic, a newline stands alone, and anything else starts a text run up to
/// the next `#`, `*` or newline.
pub open spec fn lex_spec(s: Seq<char>, i: int, bold: bool, italic: bool) -> Seq<TokenV>
    decreases s.len() - i,
{
    if i < 0 || i >= s.len() {
        Seq::empty()
    } else if s[i] == '#' {
        let e = hashes_end(s, i + 1);
        let after = if e < s.len() && s[e] == ' ' {
            e + 1
        } else {
            e
        };
        if i < after <= s.len() {
            seq![TokenV::Heading((e - i) as usize)] + lex_spec(s, after, bold, italic)
        } else {
            Seq::empty()
        }
    } else if s[i] == '*' {
        if i + 1 < s.len() && s[i + 1] == '*' {
            seq![if bold { TokenV::BoldEnd } else { TokenV::BoldStart }] + lex_spec(
                s,
                i + 2,
                !bold,
                italic,
            )
        } else {
            seq![if italic { TokenV::ItalicEnd } else { TokenV::ItalicStart }] + lex_spec(
                s,
                i + 1,
                bold,
                !italic,
            )
        }
    } else if s[i] == '\n' {
        seq![TokenV::NewLine] + lex_spec(s, i + 1, bold, italic)
    } else {
        let e = run_end(s, i + 1);
        if i < e <= s.len() {
            seq![TokenV::Text(s.subrange(i, e))] + lex_spec(s, e, bold, italic)
        } else {
            Seq::empty()
        }
    }
}

/// Whether `c` ends a text run.
fn is_stop(c: char) -> (r: bool)
    ensures
        r == is_stop_char(c),
{
    c == '#' || c == '*' || c == '\n'
}

fn lex_from(s: &str, i: usize, bold: bool, italic: bool) -> (r: Vec<Token>)
    requires
        i <= s@.len(),
    ensures
        tokens_view(r@) == lex_spec(s@, i as int, bold, italic),
    decreases s@.len() - i,
{
    let n = s.unicode_len();
    if i >= n {
        let r: Vec<Token> = Vec::new();
        proof {
            assert(tokens_view(r@) =~= lex_spec(s@, i as int, bold, italic));
        }
        return r;
    }
    let c = s.get_char(i);
    if c == '#' {
        let mut j = i + 1;
        while j < n && s.get_char(j) == '#'
            invariant
                i + 1 <= j <= n,
                n == s@.len(),
                hashes_end(s@, i + 1) == hashes_end(s@, j as int),
            decreases n - j,
        {
            j += 1;
        }
        proof {
            assert(hashes_end(s@, j as int) == j);
        }
        let level = j - i;
        let after = if j < n && s.get_char(j) == ' ' {
            j + 1
        } else {
            j
        };
        let mut v: Vec<Token> = Vec::new();
        v.push(Token::Heading(level));
        let mut rest = lex_from(s, after, bold, italic);
        let ghost rest0 = rest@;
        v.append(&mut rest);
        proof {
            assert(v@ =~= seq![Token::Heading(level as usize)] + rest0);
            assert(tokens_view(v@) =~= seq![TokenV::Heading(level as usize)] + tokens_view(rest0));
            assert(tokens_view(v@) =~= lex_spec(s@, i as int, bold, italic));
        }
        v
    } else if c == '*' {
        let double = i + 1 < n && s.get_char(i + 1) == '*';
        if double {
            let tok = if bold {
                Token::BoldEnd
            } else {
                Token::BoldStart
            };
            let mut v: Vec<Token> = Vec::new();
            v.push(tok);
            let mut rest = lex_from(s, i + 2, !bold, italic);
            let ghost rest0 = rest@;
            v.append(&mut rest);
            proof {
                assert(tokens_view(v@) =~= seq![
                    if bold {
                        TokenV::BoldEnd
                    } else {
                        TokenV::BoldStart
                    },
                ] + tokens_view(rest0));
                assert(tokens_view(v@) =~= lex_spec(s@, i as int, bold, italic));
            }
            v
        } else {
            let tok = if italic {
                Token::ItalicEnd
            } else {
                Token::ItalicStart
            };
            let mut v: Vec<Token> = Vec::new();
            v.push(tok);
            let mut rest = lex_from(s, i + 1, bold, !italic);
            let ghost rest0 = rest@;
            v.append(&mut rest);
            proof {
                assert(tokens_view(v@) =~= seq![
                    if italic {
                        TokenV::ItalicEnd
                    } else {
                        TokenV::ItalicStart
                    },
                ] + tokens_view(rest0));
                assert(tokens_view(v@) =~= lex_spec(s@, i as int, bold, italic));
            }
            v
        }
    } else if c == '\n' {
        let mut v: Vec<Token> = Vec::new();
        v.push(Token::NewLine);
        let mut rest = lex_from(s, i + 1, bold, italic);
        let ghost rest0 = rest@;
        v.append(&mut rest);
        proof {
            assert(tokens_view(v@) =~= seq![TokenV::NewLine] + tokens_view(rest0));
            assert(tokens_view(v@) =~= lex_spec(s@, i as int, bold, italic));
        }
        v
    } else {
        let mut buff = String::new();
        string_push(&mut buff, c);
        let mut j = i + 1;
        proof {
            assert(buff@ =~= s@.subrange(i as int, j as int));
        }
        while j < n && !is_stop(s.get_char(j))
            invariant
                i + 1 <= j <= n,
                i < n,
                n == s@.len(),
                run_end(s@, i + 1) == run_end(s@, j as int),
                buff@ == s@.subrange(i as int, j as int),
            decreases n - j,
        {
            string_push(&mut buff, s.get_char(j));
            proof {
                assert(s@.subrange(i as int, j + 1) =~= s@.subrange(i as int, j as int).push(
                    s@[j as int],
                ));
            }
            j += 1;
        }
        proof {
            assert(run_end(s@, j as int) == j);
        }
        let mut v: Vec<Token> = Vec::new();
        v.push(Token::Text(buff));
        let mut rest = lex_from(s, j, bold, italic);
        let ghost rest0 = rest@;
        v.append(&mut rest);
        proof {
            assert(tokens_view(v@) =~= seq![TokenV::Text(s@.subrange(i as int, j as int))]
                + tokens_view(rest0));
            assert(tokens_view(v@) =~= lex_spec(s@, i as int, bold, italic));
        }
        v
    }
}

/// Lexes markdown text into tokens: exactly [`lex_spec`] of the input,
/// starting outside any bold or italic span.
pub fn lex(input: &str) -> (r: Vec<Token>)
    ensures
        tokens_view(r@) == lex_spec(input@, 0, false, false),
{
    lex_from(input, 0, false, false)
}

// ------------------------------------------------------------------
// Parsing
// ------------------------------------------------------------------

/// The first position at or after `i` holding a newline token, or the end.
pub open spec fn newline_end(ts: Seq<TokenV>, i: int) -> int
    decreases ts.len() - i,
{
    if i < 0 || i >= ts.len() {
        ts.len() as int
    } else if ts[i] is NewLine {
        i
    } else {
        newline_end(ts, i + 1)
    }
}


/// The first `BoldEnd` in `[i, to)`, or `to`.
pub open spec fn bold_end_in(ts: Seq<TokenV>, i: int, to: int) -> int
    decreases to - i,
{
    if i < 0 || i >= to {
        to
    } else if ts[i] is BoldEnd {
        i
    } else {
        bold_end_in(ts, i + 1, to)
    }
}

/// The first `ItalicEnd` in `[i, to)`, or `to`.
pub open spec fn italic_end_in(ts: Seq<TokenV>, i: int, to: int) -> int
    decreases to - i,
{
    if i < 0 || i >= to {
        to
    } else if ts[i] is ItalicEnd {
        i
    } else {
        italic_end_in(ts, i + 1, to)
    }
}



/// The inline nodes of the tokens in `[from, to)`: text becomes a text node;
/// a `BoldStart` wraps everything up to its matching `BoldEnd` (or the end)
/// in a bold node, recursively; likewise italic; stray structural tokens are
/// skipped.
pub open spec fn inlines_spec(ts: Seq<TokenV>, from: int, to: int) -> Seq<NodeV>
    decreases to - from,
{
    if from < 0 || from >= to || to > ts.len() {
        Seq::empty()
    } else {
        match ts[from] {
            TokenV::Text(t) => seq![NodeV::Text(t)] + inlines_spec(ts, from + 1, to),
            TokenV::BoldStart => {
                let e = bold_end_in(ts, from + 1, to);
                let cont = if e < to {
                    e + 1
                } else {
                    to
                };
                if from + 1 <= e <= to {
                    seq![NodeV::Bold(inlines_spec(ts, from + 1, e))] + inlines_spec(ts, cont, to)
                } else {
                    Seq::empty()
                }
            },
            TokenV::ItalicStart => {
                let e = italic_end_in(ts, from + 1, to);
                let cont = if e < to {
                    e + 1
                } else {
                    to
                };
                if from + 1 <= e <= to {
                    seq![NodeV::Italic(inlines_spec(ts, from + 1, e))] + inlines_spec(ts, cont, to)
                } else {
                    Seq::empty()
                }
            },
            _ => inlines_spec(ts, from + 1, to),
        }
    }
}

fn token_is_bold_end(t: &Token) -> (r: bool)
    ensures
        r == (token_view(*t) is BoldEnd),
{
    match t {
        Token::BoldEnd => true,
        _ => false,
    }
}

fn token_is_italic_end(t: &Token) -> (r: bool)
    ensures
        r == (token_view(*t) is ItalicEnd),
{
    match t {
        Token::ItalicEnd => true,
        _ => false,
    }
}

fn parse_inlines_range(tokens: &[Token], from: usize, to: usize) -> (r: Vec<Node>)
    requires
        from <= to <= tokens@.len(),
    ensures
        nodes_view(r@) == inlines_spec(tokens_view(tokens@), from as int, to as int),
    decreases to - from,
{
    let ghost tv = tokens_view(tokens@);
    if from >= to {
        let r: Vec<Node> = Vec::new();
        proof {
            assert(nodes_view(r@) =~= inlines_spec(tv, from as int, to as int));
        }
        return r;
    }
    match &tokens[from] {
        Token::Text(text) => {
            let mut v: Vec<Node> = Vec::new();
            v.push(Node::Text(text.clone()));
            let mut rest = parse_inlines_range(tokens, from + 1, to);
            let ghost rest0 = rest@;
            v.append(&mut rest);
            proof {
                assert(v@.drop_first() =~= rest0);
                assert(nodes_view(v@) =~= seq![node_view(v@[0])] + nodes_view(rest0));
                assert(node_view(v@[0]) == NodeV::Text(text@));
                assert(nodes_view(v@) =~= inlines_spec(tv, from as int, to as int));
            }
            v
        },
        Token::BoldStart => {
            let mut j = from + 1;
            while j < to && !token_is_bold_end(&tokens[j])
                invariant
                    from + 1 <= j <= to,
                    to <= tokens@.len(),
                    tv == tokens_view(tokens@),
                    bold_end_in(tv, from + 1, to as int) == bold_end_in(tv, j as int, to as int),
                decreases to - j,
            {
                j += 1;
            }
            proof {
                assert(bold_end_in(tv, j as int, to as int) == j);
            }
            let inner = parse_inlines_range(tokens, from + 1, j);
            let cont = if j < to {
                j + 1
            } else {
                to
            };
            let mut v: Vec<Node> = Vec::new();
            v.push(Node::Bold(inner));
            let mut rest = parse_inlines_range(tokens, cont, to);
            let ghost rest0 = rest@;
            v.append(&mut rest);
            proof {
                assert(v@.drop_first() =~= rest0);
                assert(nodes_view(v@) =~= seq![node_view(v@[0])] + nodes_view(rest0));
                assert(nodes_view(v@) =~= inlines_spec(tv, from as int, to as int));
            }
            v
        },
        Token::ItalicStart => {
            let mut j = from + 1;
            while j < to && !token_is_italic_end(&tokens[j])
                invariant
                    from + 1 <= j <= to,
                    to <= tokens@.len(),
                    tv == tokens_view(tokens@),
                    italic_end_in(tv, from + 1, to as int) == italic_end_in(
                        tv,
                        j as int,
                        to as int,
                    ),
                decreases to - j,
            {
                j += 1;
            }
            proof {
                assert(italic_end_in(tv, j as int, to as int) == j);
            }
            let inner = parse_inlines_range(tokens, from + 1, j);
            let cont = if j < to {
                j + 1
            } else {
                to
            };
            let mut v: Vec<Node> = Vec::new();
            v.push(Node::Italic(inner));
            let mut rest = parse_inlines_range(tokens, cont, to);
            let ghost rest0 = rest@;
            v.append(&mut rest);
            proof {
                assert(v@.drop_first() =~= rest0);
                assert(nodes_view(v@) =~= seq![node_view(v@[0])] + nodes_view(rest0));
                assert(nodes_view(v@) =~= inlines_spec(tv, from as int, to as int));
            }
            v
        },
        _ => {
            let r = parse_inlines_range(tokens, from + 1, to);
            proof {
                assert(nodes_view(r@) == inlines_spec(tv, from as int, to as int));
            }
            r
        },
    }
}

/// Parses a run of inline tokens into styled nodes: exactly
/// [`inlines_spec`] over the whole slice.
pub fn parse_inlines(tokens: &[Token]) -> (r: Vec<Node>)
    ensures
        nodes_view(r@) == inlines_spec(tokens_view(tokens@), 0, tokens@.len() as int),
{
    parse_inlines_range(tokens, 0, tokens.len())
}

/// The node of one non-empty line: a heading token opens a heading holding
/// the rest of the line's inlines; anything else is a paragraph of the whole
/// line's inlines.
pub open spec fn line_node(ts: Seq<TokenV>, from: int, to: int) -> NodeV {
    match ts[from] {
        TokenV::Heading(level) => NodeV::Heading(level, inlines_spec(ts, from + 1, to)),
        _ => NodeV::Paragraph(inlines_spec(ts, from, to)),
    }
}

/// The block nodes of the token lines from `i` on: tokens split at newlines,
/// empty lines skipped.
pub open spec fn parse_lines(ts: Seq<TokenV>, i: int) -> Seq<NodeV>
    decreases ts.len() - i,
{
    if i < 0 || i >= ts.len() {
        Seq::empty()
    } else {
        let e = newline_end(ts, i);
        if i <= e <= ts.len() {
            let here = if e == i {
                Seq::<NodeV>::empty()
            } else {
                seq![line_node(ts, i, e)]
            };
            if e < ts.len() {
                here + parse_lines(ts, e + 1)
            } else {
                here
            }
        } else {
            Seq::empty()
        }
    }
}

/// The document a token stream parses to.
pub open spec fn parse_spec(ts: Seq<TokenV>) -> NodeV {
    NodeV::Document(parse_lines(ts, 0))
}

fn token_is_newline(t: &Token) -> (r: bool)
    ensures
        r == (token_view(*t) is NewLine),
{
    match t {
        Token::NewLine => true,
        _ => false,
    }
}

/// Parses tokens into a document: lines split at newlines, a heading line
/// when it opens with a heading token, a paragraph otherwise — exactly
/// [`parse_spec`].
pub fn parse(tokens: &[Token]) -> (r: Node)
    ensures
        node_view(r) == parse_spec(tokens_view(tokens@)),
{
    let ghost tv = tokens_view(tokens@);
    let n = tokens.len();
    let mut nodes: Vec<Node> = Vec::new();
    let mut i: usize = 0;
    proof {
        assert(nodes_view(nodes@) =~= Seq::<NodeV>::empty());
    }
    while i < n
        invariant
            i <= n,
            n == tokens@.len(),
            tv == tokens_view(tokens@),
            nodes_view(nodes@) + parse_lines(tv, i as int) =~= parse_lines(tv, 0),
        decreases n - i,
    {
        let mut e = i;
        while e < n && !token_is_newline(&tokens[e])
            invariant
                i <= e <= n,
                n == tokens@.len(),
                tv == tokens_view(tokens@),
                newline_end(tv, i as int) == newline_end(tv, e as int),
            decreases n - e,
        {
            e += 1;
        }
        proof {
            assert(newline_end(tv, e as int) == e);
        }
        if e > i {
            let node = match &tokens[i] {
                Token::Heading(level) => Node::Heading(*level, parse_inlines_range(tokens, i + 1, e)),
                _ => Node::Paragraph(parse_inlines_range(tokens, i, e)),
            };
            let ghost pre = nodes@;
            nodes.push(node);
            proof {
                lemma_nodes_view(pre);
                lemma_nodes_view(nodes@);
                assert(nodes_view(nodes@) =~= nodes_view(pre) + seq![line_node(
                    tv,
                    i as int,
                    e as int,
                )]);
            }
        }
        proof {
            let here = if e == i {
                Seq::<NodeV>::empty()
            } else {
                seq![line_node(tv, i as int, e as int)]
            };
            if e < n {
                assert(parse_lines(tv, i as int) == here + parse_lines(tv, e + 1));
            } else {
                assert(parse_lines(tv, i as int) == here);
                assert(parse_lines(tv, e as int + 1) == Seq::<NodeV>::empty());
            }
            assert(nodes_view(nodes@) + parse_lines(tv, e as int + 1) =~= parse_lines(tv, 0));
        }
        i = if e < n {
            e + 1
        } else {
            n
        };
        proof {
            if e >= n {
                assert(parse_lines(tv, i as int) == Seq::<NodeV>::empty());
            }
        }
    }
    proof {
        assert(parse_lines(tv, i as int) =~= Seq::<NodeV>::empty());
        assert(nodes_view(nodes@) =~= parse_lines(tv, 0));
    }
    Node::Document(nodes)
}

// ------------------------------------------------------------------
// Rendering
// ------------------------------------------------------------------

/// The HTML of one node.
pub open spec fn render_spec(n: NodeV) -> Seq<char>
    decreases n,
{
    match n {
        NodeV::Document(cs) => render_doc(cs),
        NodeV::Heading(level, cs) => "<h"@ + dec_rep(level as u64) + ">"@ + render_seq(cs) + "</h"@
            + dec_rep(level as u64) + ">"@,
        NodeV::Paragraph(cs) => "<p>"@ + render_seq(cs) + "</p>"@,
        NodeV::Bold(cs) => "<strong>"@ + render_seq(cs) + "</strong>"@,
        NodeV::Italic(cs) => "<em>"@ + render_seq(cs) + "</em>"@,
        NodeV::Text(t) => t,
        NodeV::Link { text, url } => "<a href=\""@ + url + "\">"@ + text + "</a>"@,
    }
}

/// The HTML of a document's children, joined by newlines.
pub open spec fn render_doc(cs: Seq<NodeV>) -> Seq<char>
    decreases cs,
{
    if cs.len() == 0 {
        Seq::empty()
    } else if cs.len() == 1 {
        render_spec(cs[0])
    } else {
        render_spec(cs[0]) + seq!['\n'] + render_doc(cs.drop_first())
    }
}

/// The HTML of a node run, concatenated.
pub open spec fn render_seq(cs: Seq<NodeV>) -> Seq<char>
    decreases cs,
{
    if cs.len() == 0 {
        Seq::empty()
    } else {
        render_spec(cs[0]) + render_seq(cs.drop_first())
    }
}

fn render_doc_from(nodes: &Vec<Node>, i: usize) -> (r: String)
    requires
        i <= nodes@.len(),
    ensures
        r@ == render_doc(nodes_view(nodes@).skip(i as int)),
    decreases nodes@, nodes@.len() - i,
{
    proof {
        lemma_nodes_view(nodes@);
    }
    let n = nodes.len();
    if i >= n {
        let r = String::new();
        proof {
            assert(nodes_view(nodes@).skip(i as int) =~= Seq::<NodeV>::empty());
        }
        r
    } else if i == n - 1 {
        let r = render(&nodes[i]);
        proof {
            let tail = nodes_view(nodes@).skip(i as int);
            assert(tail.len() == 1);
            assert(tail[0] == node_view(nodes@[i as int]));
        }
        r
    } else {
        let mut r = render(&nodes[i]);
        r.append("\n");
        let rest = render_doc_from(nodes, i + 1);
        r.append(rest.as_str());
        proof {
            reveal_strlit("\n");
            let tail = nodes_view(nodes@).skip(i as int);
            assert(tail.len() >= 2);
            assert(tail[0] == node_view(nodes@[i as int]));
            assert(tail.drop_first() =~= nodes_view(nodes@).skip(i + 1));
            assert("\n"@ =~= seq!['\n']);
            assert(r@ =~= render_doc(tail));
        }
        r
    }
}

fn render_seq_from(nodes: &Vec<Node>, i: usize) -> (r: String)
    requires
        i <= nodes@.len(),
    ensures
        r@ == render_seq(nodes_view(nodes@).skip(i as int)),
    decreases nodes@, nodes@.len() - i,
{
    proof {
        lemma_nodes_view(nodes@);
    }
    let n = nodes.len();
    if i >= n {
        let r = String::new();
        proof {
            assert(nodes_view(nodes@).skip(i as int) =~= Seq::<NodeV>::empty());
        }
        r
    } else {
        let mut r = render(&nodes[i]);
        let rest = render_seq_from(nodes, i + 1);
        r.append(rest.as_str());
        proof {
            let tail = nodes_view(nodes@).skip(i as int);
            assert(tail[0] == node_view(nodes@[i as int]));
            assert(tail.drop_first() =~= nodes_view(nodes@).skip(i + 1));
            assert(r@ =~= render_seq(tail));
        }
        r
    }
}

/// Renders one node as HTML: exactly [`render_spec`] of its view.
pub fn render(node: &Node) -> (r: String)
    ensures
        r@ == render_spec(node_view(*node)),
    decreases *node,
{
    match node {
        Node::Document(children) => {
            let r = render_doc_from(children, 0);
            proof {
                assert(nodes_view(children@).skip(0) =~= nodes_view(children@));
            }
            r
        },
        Node::Heading(level, children) => {
            let mut r = String::new();
            r.append("<h");
            let l = u64_to_string(*level as u64);
            r.append(l.as_str());
            r.append(">");
            let body = render_seq_from(children, 0);
            r.append(body.as_str());
            r.append("</h");
            r.append(l.as_str());
            r.append(">");
            proof {
                assert(nodes_view(children@).skip(0) =~= nodes_view(children@));
                assert(r@ =~= render_spec(node_view(*node)));
            }
            r
        },
        Node::Paragraph(children) => {
            let mut r = String::new();
            r.append("<p>");
            let body = render_seq_from(children, 0);
            r.append(body.as_str());
            r.append("</p>");
            proof {
                assert(nodes_view(children@).skip(0) =~= nodes_view(children@));
                assert(r@ =~= render_spec(node_view(*node)));
            }
            r
        },
        Node::Bold(children) => {
            let mut r = String::new();
            r.append("<strong>");
            let body = render_seq_from(children, 0);
            r.append(body.as_str());
            r.append("</strong>");
            proof {
                assert(nodes_view(children@).skip(0) =~= nodes_view(children@));
                assert(r@ =~= render_spec(node_view(*node)));
            }
            r
        },
        Node::Italic(children) => {
            let mut r = String::new();
            r.append("<em>");
            let body = render_seq_from(children, 0);
            r.append(body.as_str());
            r.append("</em>");
            proof {
                assert(nodes_view(children@).skip(0) =~= nodes_view(children@));
                assert(r@ =~= render_spec(node_view(*node)));
            }
            r
        },
        Node::Text(text) => {
            let r = text.clone();
            r
        },
        Node::Link { text, url } => {
            let mut r = String::new();
            r.append("<a href=\"");
            r.append(url.as_str());
            r.append("\">");
            r.append(text.as_str());
            r.append("</a>");
            proof {
                assert(r@ =~= render_spec(node_view(*node)));
            }
            r
        },
    }
}

/// Renders a run of nodes as HTML, concatenated in order.
pub fn render_all(nodes: &Vec<Node>) -> (r: String)
    ensures
        r@ == render_seq(nodes_view(nodes@)),
{
    let r = render_seq_from(nodes, 0);
    proof {
        assert(nodes_view(nodes@).skip(0) =~= nodes_view(nodes@));
    }
    r
}

} // verus!
