//! Which trees a template source denotes: those that, written out as text and tags, are the
//! source's text and tags, with sections at most [`MAX_DEPTH`] deep.
use vstd::prelude::*;

use crate::identifier;
use crate::syntax;
use crate::syntax::{NodeView, Piece, TagView, MAX_DEPTH};
use crate::text;

verus! {

/// A stretch of text or a well-formed tag.
pub enum Token {
    Text(Seq<char>),
    Variable(Seq<char>),
    Open { name: Seq<char>, inverted: bool },
    Close(Seq<char>),
}

/// The text between two offsets, as a list of at most one token.
pub open spec fn text_token(source: Seq<char>, from: int, to: int) -> Seq<Token> {
    if from < to {
        seq![Token::Text(source.subrange(from, to))]
    } else {
        Seq::empty()
    }
}

/// A tag as a token, unless it is malformed.
pub open spec fn tag_token(tag: TagView) -> Option<Token> {
    match tag {
        TagView::Close(name) => Some(Token::Close(name)),
        TagView::Open { name, inverted } => Some(Token::Open { name, inverted }),
        TagView::Variable(name) => Some(Token::Variable(name)),
        TagView::Invalid => None,
    }
}

/// `first` followed by what the rest of the source consists of.
pub open spec fn followed(first: Seq<Token>, rest: Option<Seq<Token>>) -> Option<Seq<Token>> {
    match rest {
        Some(tokens) => Some(first + tokens),
        None => None,
    }
}

/// The text and tags that a source consists of from `offset` on, unless a tag is malformed or not
/// ended.
pub open spec fn tokens(source: Seq<char>, offset: int) -> Option<Seq<Token>>
    decreases source.len() - offset,
{
    if offset < 0 || offset >= source.len() {
        Some(Seq::empty())
    } else {
        proof {
            syntax::lemma_next_piece(source, offset);
        }
        match syntax::next_piece(source, offset) {
            Piece::Text => Some(text_token(source, offset, source.len() as int)),
            Piece::Unended => None,
            Piece::Tag { open, after, tag } => match tag_token(tag) {
                Some(token) => followed(
                    text_token(source, offset, open).push(token),
                    tokens(source, after),
                ),
                None => None,
            },
        }
    }
}

/// A tree written out as text and tags.
pub open spec fn written(nodes: Seq<NodeView>) -> Seq<Token>
    decreases nodes,
{
    if nodes.len() == 0 {
        Seq::empty()
    } else {
        written_node(nodes.first()) + written(nodes.drop_first())
    }
}

pub open spec fn written_node(node: NodeView) -> Seq<Token>
    decreases node,
{
    match node {
        NodeView::Text(value) => seq![Token::Text(value)],
        NodeView::Variable(name) => seq![Token::Variable(name)],
        NodeView::Section { name, inverted, children } => seq![Token::Open { name, inverted }]
            + written(children) + seq![Token::Close(name)],
    }
}

/// How many sections deep a tree goes.
pub open spec fn nesting(nodes: Seq<NodeView>) -> nat
    decreases nodes,
{
    if nodes.len() == 0 {
        0
    } else {
        let first = node_nesting(nodes.first());
        let rest = nesting(nodes.drop_first());
        if first > rest {
            first
        } else {
            rest
        }
    }
}

pub open spec fn node_nesting(node: NodeView) -> nat
    decreases node,
{
    match node {
        NodeView::Section { name, inverted, children } => nesting(children) + 1,
        _ => 0,
    }
}

/// `nodes` is what the source denotes.
pub open spec fn template(source: Seq<char>, nodes: Seq<NodeView>) -> bool {
    tokens(source, 0) == Some(written(nodes)) && nesting(nodes) <= MAX_DEPTH
}

/// The tree that a source denotes, if it denotes one.
pub open spec fn tree(source: Seq<char>) -> Option<Seq<NodeView>> {
    if exists|nodes: Seq<NodeView>| template(source, nodes) {
        Some(choose|nodes: Seq<NodeView>| template(source, nodes))
    } else {
        None
    }
}

/// The tag that a section ends with, as a list of at most one token.
spec fn ending(closing: Option<Seq<char>>) -> Seq<Token> {
    match closing {
        Some(name) => seq![Token::Close(name)],
        None => Seq::empty(),
    }
}

pub proof fn lemma_written_append(a: Seq<NodeView>, b: Seq<NodeView>)
    ensures
        written(a + b) == written(a) + written(b),
        nesting(a + b) == (if nesting(a) > nesting(b) {
            nesting(a)
        } else {
            nesting(b)
        }),
    decreases a.len(),
{
    if a.len() == 0 {
        assert(a + b =~= b);
        assert(written(a) + written(b) =~= written(b));
    } else {
        lemma_written_append(a.drop_first(), b);
        assert((a + b).drop_first() =~= a.drop_first() + b);
        assert(written(a + b) =~= written(a) + written(b));
    }
}

pub proof fn lemma_written_one(node: NodeView)
    ensures
        written(seq![node]) == written_node(node),
        nesting(seq![node]) == node_nesting(node),
{
    let one = seq![node];
    assert(one.drop_first() =~= Seq::<NodeView>::empty());
    assert(written(one.drop_first()) =~= Seq::<Token>::empty());
    assert(nesting(one.drop_first()) == 0);
    assert(written(one) =~= written_node(node));
}

proof fn lemma_names_append(a: Seq<NodeView>, b: Seq<NodeView>)
    ensures
        syntax::names_of(a + b) == syntax::names_of(a).union(syntax::names_of(b)),
    decreases b.len(),
{
    if b.len() == 0 {
        assert(a + b =~= a);
        assert(syntax::names_of(a).union(Set::empty()) =~= syntax::names_of(a));
    } else {
        lemma_names_append(a, b.drop_last());
        assert((a + b).drop_last() =~= a + b.drop_last());
        assert(syntax::names_of(a + b) =~= syntax::names_of(a).union(syntax::names_of(b)));
    }
}

proof fn lemma_names_one(node: NodeView)
    ensures
        syntax::names_of(seq![node]) == syntax::node_names(node),
{
    let one = seq![node];
    assert(one.drop_last() =~= Seq::<NodeView>::empty());
    assert(syntax::names_of(one.drop_last()) =~= Set::empty());
    assert(syntax::names_of(one) =~= syntax::node_names(node));
}

/// The text before a tag, written out.
proof fn lemma_text_before(source: Seq<char>, from: int, to: int)
    ensures
        written(syntax::text_before(source, from, to)) == text_token(source, from, to),
        nesting(syntax::text_before(source, from, to)) == 0,
        syntax::names_of(syntax::text_before(source, from, to)) == Set::<Seq<char>>::empty(),
{
    if from < to {
        let node = NodeView::Text(source.subrange(from, to));
        lemma_written_one(node);
        lemma_names_one(node);
    }
}

/// What a successful reading has read: the tokens up to where it stopped are the nodes read and
/// the tag that ends the section.
proof fn lemma_reading_sound(
    source: Seq<char>,
    offset: int,
    closing: Option<Seq<char>>,
    depth: int,
)
    requires
        0 <= offset <= source.len(),
        0 <= depth <= MAX_DEPTH,
    ensures
        ({
            let got = syntax::reading_items(source, offset, closing, depth);
            got.nodes matches Some(nodes) ==> {
                &&& tokens(source, offset) == followed(
                    written(nodes) + ending(closing),
                    tokens(source, got.offset),
                )
                &&& closing is None ==> got.offset == source.len()
                &&& nesting(nodes) + depth <= MAX_DEPTH
                &&& got.names == syntax::names_of(nodes)
            }
        }),
    decreases source.len() - offset,
{
    let got = syntax::reading_items(source, offset, closing, depth);
    if got.nodes is Some {
        let nodes = got.nodes->0;
        if offset >= source.len() {
            assert(written(nodes) + ending(closing) + Seq::<Token>::empty()
                =~= Seq::<Token>::empty());
        } else {
            syntax::lemma_next_piece(source, offset);
            match syntax::next_piece(source, offset) {
                Piece::Text => {
                    lemma_text_before(source, offset, source.len() as int);
                    assert(written(nodes) + ending(closing) + Seq::<Token>::empty()
                        =~= written(nodes));
                },
                Piece::Unended => {},
                Piece::Tag { open, after, tag } => {
                    let before = syntax::text_before(source, offset, open);
                    let front = text_token(source, offset, open);
                    lemma_text_before(source, offset, open);
                    match tag {
                        TagView::Close(name) => {
                            assert(front.push(Token::Close(name)) =~= written(nodes) + ending(
                                closing,
                            ));
                        },
                        TagView::Variable(name) => {
                            let node = NodeView::Variable(name);
                            let rest = syntax::reading_items(source, after, closing, depth);
                            lemma_reading_sound(source, after, closing, depth);
                            assert(front.push(Token::Variable(name)) =~= front + written_node(node));
                            lemma_sound_item(
                                before,
                                node,
                                rest.nodes->0,
                                closing,
                                tokens(source, rest.offset),
                            );
                        },
                        TagView::Open { name, inverted } => {
                            let inner = syntax::reading(source, after, Some(name), depth + 1);
                            syntax::lemma_reading_offset(source, after, Some(name), depth + 1);
                            lemma_reading_sound(source, after, Some(name), depth + 1);
                            let children = inner.nodes->0;
                            let node = NodeView::Section { name, inverted, children };
                            let rest = syntax::reading_items(source, inner.offset, closing, depth);
                            lemma_reading_sound(source, inner.offset, closing, depth);
                            let opened = front.push(Token::Open { name, inverted });
                            let body = written(children) + ending(Some(name));
                            lemma_followed(opened, body, tokens(source, inner.offset));
                            assert(opened + body =~= front + written_node(node));
                            lemma_sound_item(
                                before,
                                node,
                                rest.nodes->0,
                                closing,
                                tokens(source, rest.offset),
                            );
                        },
                        TagView::Invalid => {},
                    }
                },
            }
        }
    }
}

/// Text, one further node and the nodes after it, written out before further tokens.
proof fn lemma_sound_item(
    before: Seq<NodeView>,
    node: NodeView,
    rest: Seq<NodeView>,
    closing: Option<Seq<char>>,
    later: Option<Seq<Token>>,
)
    requires
        nesting(before) == 0,
        syntax::names_of(before) == Set::<Seq<char>>::empty(),
    ensures
        ({
            let all = before.push(node) + rest;
            &&& followed(
                written(before) + written_node(node),
                followed(written(rest) + ending(closing), later),
            ) == followed(written(all) + ending(closing), later)
            &&& nesting(all) == (if node_nesting(node) > nesting(rest) {
                node_nesting(node)
            } else {
                nesting(rest)
            })
            &&& syntax::names_of(all) == syntax::node_names(node).union(syntax::names_of(rest))
        }),
{
    let all = before.push(node) + rest;
    lemma_step(before, node, rest);
    lemma_followed(written(before) + written_node(node), written(rest) + ending(closing), later);
    assert(written(before) + written_node(node) + (written(rest) + ending(closing)) =~= written(all)
        + ending(closing));
}

proof fn lemma_followed(a: Seq<Token>, b: Seq<Token>, rest: Option<Seq<Token>>)
    ensures
        followed(a, followed(b, rest)) == followed(a + b, rest),
{
    if let Some(more) = rest {
        assert(a + (b + more) =~= (a + b) + more);
    }
}

/// Text, one further node and the nodes after it, written out.
proof fn lemma_step(before: Seq<NodeView>, node: NodeView, rest: Seq<NodeView>)
    requires
        nesting(before) == 0,
        syntax::names_of(before) == Set::<Seq<char>>::empty(),
    ensures
        ({
            let all = before.push(node) + rest;
            &&& written(all) == written(before) + written_node(node) + written(rest)
            &&& nesting(all) == (if node_nesting(node) > nesting(rest) {
                node_nesting(node)
            } else {
                nesting(rest)
            })
            &&& syntax::names_of(all) == syntax::node_names(node).union(syntax::names_of(rest))
        }),
{
    let one = seq![node];
    let all = before.push(node) + rest;
    assert(before.push(node) =~= before + one);
    lemma_written_append(before + one, rest);
    lemma_written_append(before, one);
    lemma_written_one(node);
    lemma_names_append(before + one, rest);
    lemma_names_append(before, one);
    lemma_names_one(node);
    assert(syntax::names_of(before + one) =~= syntax::node_names(node));
    assert(written(all) =~= written(before) + written_node(node) + written(rest));
}

/// The first token of a tree written out tells what its first node is.
proof fn lemma_first_token(nodes: Seq<NodeView>)
    requires
        nodes.len() > 0,
    ensures
        written(nodes).len() > 0,
        written(nodes) == written_node(nodes[0]) + written(nodes.drop_first()),
        match nodes[0] {
            NodeView::Text(value) => written(nodes)[0] == Token::Text(value),
            NodeView::Variable(name) => written(nodes)[0] == Token::Variable(name),
            NodeView::Section { name, inverted, children } => written(nodes)[0] == (Token::Open {
                name,
                inverted,
            }),
        },
{
    assert(written_node(nodes[0]).len() > 0);
}

/// A tree whose written form the source has is read.
proof fn lemma_reading_complete(
    source: Seq<char>,
    offset: int,
    closing: Option<Seq<char>>,
    depth: int,
    nodes: Seq<NodeView>,
    rest: Seq<Token>,
)
    requires
        0 <= offset <= source.len(),
        0 <= depth,
        nesting(nodes) + depth <= MAX_DEPTH,
        closing matches Some(name) ==> identifier::variable_name(name),
        closing is None ==> rest.len() == 0,
        tokens(source, offset) == Some(written(nodes) + ending(closing) + rest),
    ensures
        ({
            let got = syntax::reading_items(source, offset, closing, depth);
            &&& got.nodes == Some(nodes)
            &&& tokens(source, got.offset) == Some(rest)
        }),
    decreases source.len() - offset,
{
    let all = written(nodes) + ending(closing) + rest;
    let got = syntax::reading_items(source, offset, closing, depth);
    if nodes.len() > 0 {
        lemma_first_token(nodes);
        assert(all[0] == written(nodes)[0]);
    } else {
        assert(nodes =~= Seq::<NodeView>::empty());
        assert(all =~= ending(closing) + rest);
    }
    if offset >= source.len() {
        assert(all.len() == 0);
        assert(rest =~= Seq::<Token>::empty());
    } else {
        syntax::lemma_next_piece(source, offset);
        match syntax::next_piece(source, offset) {
            Piece::Text => {
                let value = source.subrange(offset, source.len() as int);
                assert(all =~= seq![Token::Text(value)]);
                assert(nodes.len() > 0 && nodes[0] == NodeView::Text(value));
                let others = nodes.drop_first();
                if others.len() > 0 {
                    lemma_first_token(others);
                }
                assert(written_node(nodes[0]).len() == 1);
                assert(written(others).len() == 0);
                assert(others.len() == 0);
                assert(ending(closing).len() == 0);
                assert(nodes =~= seq![NodeView::Text(value)]);
                assert(rest =~= Seq::<Token>::empty());
            },
            Piece::Unended => {},
            Piece::Tag { open, after, tag } => {
                let before = syntax::text_before(source, offset, open);
                let front = text_token(source, offset, open);
                let token = tag_token(tag)->0;
                let later = tokens(source, after)->0;
                assert(all == front.push(token) + later);
                // Take the text before the tag off both sides.
                let inner_nodes = if offset < open {
                    nodes.drop_first()
                } else {
                    nodes
                };
                if offset < open {
                    let value = source.subrange(offset, open);
                    assert(all[0] == Token::Text(value));
                    assert(nodes.len() > 0 && nodes[0] == NodeView::Text(value));
                    assert(nodes =~= before + inner_nodes);
                } else {
                    assert(nodes =~= before + inner_nodes);
                }
                lemma_text_before(source, offset, open);
                lemma_written_append(before, inner_nodes);
                let remaining = written(inner_nodes) + ending(closing) + rest;
                assert(all =~= front + remaining);
                assert(all =~= front + (seq![token] + later));
                assert(remaining =~= all.skip(front.len() as int));
                assert(seq![token] + later =~= all.skip(front.len() as int));
                assert(remaining[0] == token);
                assert(later =~= remaining.drop_first());
                if inner_nodes.len() > 0 {
                    lemma_first_token(inner_nodes);
                    assert(remaining[0] == written(inner_nodes)[0]);
                } else {
                    assert(written(inner_nodes).len() == 0);
                }
                lemma_complete_tag(
                    source,
                    offset,
                    closing,
                    depth,
                    open,
                    after,
                    tag,
                    inner_nodes,
                    rest,
                );
                if let Some(more) = got.nodes {
                    assert(before + inner_nodes =~= nodes);
                }
            },
        }
    }
}

/// The case of [`lemma_reading_complete`] in which a tag comes next, with the text before it taken
/// off.
proof fn lemma_complete_tag(
    source: Seq<char>,
    offset: int,
    closing: Option<Seq<char>>,
    depth: int,
    open: int,
    after: int,
    tag: TagView,
    nodes: Seq<NodeView>,
    rest: Seq<Token>,
)
    requires
        0 <= offset < source.len(),
        0 <= depth,
        syntax::next_piece(source, offset) == (Piece::Tag { open, after, tag }),
        nesting(nodes) + depth <= MAX_DEPTH,
        closing matches Some(name) ==> identifier::variable_name(name),
        closing is None ==> rest.len() == 0,
        tag_token(tag) is Some,
        tokens(source, after) is Some,
        seq![tag_token(tag)->0] + tokens(source, after)->0 == written(nodes) + ending(closing)
            + rest,
    ensures
        ({
            let got = syntax::reading_items(source, offset, closing, depth);
            &&& got.nodes == Some(syntax::text_before(source, offset, open) + nodes)
            &&& tokens(source, got.offset) == Some(rest)
        }),
    decreases source.len() - offset, 0int,
{
    syntax::lemma_next_piece(source, offset);
    let before = syntax::text_before(source, offset, open);
    let token = tag_token(tag)->0;
    let later = tokens(source, after)->0;
    let all = written(nodes) + ending(closing) + rest;
    assert(all[0] == token);
    assert(later =~= all.drop_first());
    if nodes.len() > 0 {
        lemma_first_token(nodes);
        assert(all[0] == written(nodes)[0]);
        let others = nodes.drop_first();
        assert(nodes =~= seq![nodes[0]] + others);
        lemma_written_append(seq![nodes[0]], others);
        lemma_written_one(nodes[0]);
        let tail = written(others) + ending(closing) + rest;
        match nodes[0] {
            NodeView::Text(value) => {},
            NodeView::Variable(name) => {
                assert(later =~= tail);
                lemma_reading_complete(source, after, closing, depth, others, rest);
                assert(before.push(nodes[0]) + others =~= before + nodes);
            },
            NodeView::Section { name, inverted, children } => {
                assert(later =~= written(children) + ending(Some(name)) + tail);
                assert(nesting(children) + 1 <= nesting(nodes));
                lemma_reading_complete(source, after, Some(name), depth + 1, children, tail);
                syntax::lemma_reading_offset(source, after, Some(name), depth + 1);
                let inner = syntax::reading(source, after, Some(name), depth + 1);
                assert(inner.nodes == Some(children));
                lemma_reading_complete(source, inner.offset, closing, depth, others, rest);
                assert(before.push(nodes[0]) + others =~= before + nodes);
            },
        }
    } else {
        assert(all =~= ending(closing) + rest);
        assert(later =~= rest);
        assert(before + nodes =~= before);
    }
}

/// Reading a whole source gives the tree that the source denotes, and fails only where it denotes
/// none.
pub proof fn law_reading_gives_the_template(source: Seq<char>, nodes: Seq<NodeView>)
    ensures
        syntax::reading(source, 0, None, 0).nodes == Some(nodes) <==> template(source, nodes),
        template(source, nodes) ==> syntax::reading(source, 0, None, 0).names == syntax::names_of(
            nodes,
        ),
{
    let got = syntax::reading(source, 0, None, 0);
    lemma_reading_sound(source, 0, None, 0);
    syntax::lemma_reading_offset(source, 0, None, 0);
    if got.nodes == Some(nodes) {
        assert(written(nodes) + ending(None) + Seq::<Token>::empty() =~= written(nodes));
    }
    if template(source, nodes) {
        let nothing = Seq::<Token>::empty();
        assert(written(nodes) + ending(None) + nothing =~= written(nodes));
        lemma_reading_complete(source, 0, None, 0, nodes, nothing);
    }
}

/// The tree that a source denotes is what reading the whole source gives.
pub proof fn lemma_tree(source: Seq<char>)
    ensures
        tree(source) == syntax::reading(source, 0, None, 0).nodes,
        tree(source) matches Some(nodes) ==> {
            &&& template(source, nodes)
            &&& syntax::reading(source, 0, None, 0).names == syntax::names_of(nodes)
        },
{
    let got = syntax::reading(source, 0, None, 0).nodes;
    if let Some(nodes) = got {
        law_reading_gives_the_template(source, nodes);
    }
    if let Some(nodes) = tree(source) {
        law_reading_gives_the_template(source, nodes);
    }
}

/// A source denotes at most one tree.
pub proof fn law_template_is_unique(source: Seq<char>, a: Seq<NodeView>, b: Seq<NodeView>)
    requires
        template(source, a),
        template(source, b),
    ensures
        a == b,
{
    law_reading_gives_the_template(source, a);
    law_reading_gives_the_template(source, b);
}

/// A source without tags denotes its text.
pub proof fn law_plain_text_denotes_itself(source: Seq<char>)
    requires
        source.len() > 0,
        !text::contains(source, syntax::opening()),
    ensures
        tree(source) == Some(seq![NodeView::Text(source)]),
{
    let nodes = seq![NodeView::Text(source)];
    text::lemma_find(source, syntax::opening(), 0);
    assert(syntax::next_piece(source, 0) == Piece::Text);
    lemma_written_one(nodes[0]);
    assert(source.subrange(0, source.len() as int) =~= source);
    assert(nodes.drop_first() =~= Seq::<NodeView>::empty());
    reveal_with_fuel(nesting, 2);
    assert(template(source, nodes));
    lemma_tree(source);
    law_template_is_unique(source, nodes, tree(source)->0);
}

} // verus!
