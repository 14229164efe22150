//! Templates written out in characters.
use vstd::prelude::*;

use crate::grammar;
use crate::grammar::Token;
use crate::identifier;
use crate::syntax;
use crate::syntax::{NodeView, Piece};
use crate::text;

verus! {

/// A tag with this between its braces.
pub open spec fn tag_text(content: Seq<char>) -> Seq<char> {
    syntax::opening() + content + syntax::closing_braces()
}

/// What stands between the braces of a section's first tag.
pub open spec fn section_content(name: Seq<char>, inverted: bool) -> Seq<char> {
    if inverted {
        seq!['^'] + name
    } else {
        seq!['#'] + name
    }
}

/// A tree written out in characters: text as it is, and tags without white space.
pub open spec fn unparse(nodes: Seq<NodeView>) -> Seq<char>
    decreases nodes,
{
    if nodes.len() == 0 {
        Seq::empty()
    } else {
        unparse_node(nodes.first()) + unparse(nodes.drop_first())
    }
}

pub open spec fn unparse_node(node: NodeView) -> Seq<char>
    decreases node,
{
    match node {
        NodeView::Text(value) => value,
        NodeView::Variable(name) => tag_text(name),
        NodeView::Section { name, inverted, children } => tag_text(section_content(name, inverted))
            + unparse(children) + tag_text(seq!['/'] + name),
    }
}

/// No tag of the source has white space just inside its braces, from `offset` on.
pub open spec fn tight(source: Seq<char>, offset: int) -> bool
    decreases source.len() - offset,
{
    if offset < 0 || offset >= source.len() {
        true
    } else {
        proof {
            syntax::lemma_next_piece(source, offset);
        }
        match syntax::next_piece(source, offset) {
            Piece::Tag { open, after, tag } => {
                let content = source.subrange(open + 2, after - 2);
                &&& content.len() > 0 ==> !text::whitespace(content.first()) && !text::whitespace(
                    content.last(),
                )
                &&& tight(source, after)
            },
            _ => true,
        }
    }
}

/// What stands between the braces of a tag.
spec fn token_content(token: Token) -> Seq<char> {
    match token {
        Token::Text(value) => value,
        Token::Variable(name) => name,
        Token::Open { name, inverted } => section_content(name, inverted),
        Token::Close(name) => seq!['/'] + name,
    }
}

/// A token written out in characters.
spec fn token_text(token: Token) -> Seq<char> {
    if token is Text {
        token_content(token)
    } else {
        tag_text(token_content(token))
    }
}

spec fn spelled(tokens: Seq<Token>) -> Seq<char>
    decreases tokens.len(),
{
    if tokens.len() == 0 {
        Seq::empty()
    } else {
        token_text(tokens.first()) + spelled(tokens.drop_first())
    }
}

/// A token that can come of a source: text is not empty and holds no tag, and names are names of
/// variables, if `closing` at the end of a section too.
spec fn sound_token(token: Token, closing: bool) -> bool {
    match token {
        Token::Text(value) => value.len() > 0 && !text::contains(value, syntax::opening()),
        Token::Variable(name) => identifier::variable_name(name),
        Token::Open { name, inverted } => identifier::variable_name(name),
        Token::Close(name) => closing ==> identifier::variable_name(name),
    }
}

/// Text is followed by a tag, and does not run into its braces.
spec fn apart(token: Token, next: Token) -> bool {
    token matches Token::Text(value) ==> !(next is Text) && value.last() != '{'
}

/// Tokens that can come of a source.
spec fn sound(tokens: Seq<Token>, closing: bool) -> bool {
    &&& forall|k: int| 0 <= k < tokens.len() ==> sound_token(#[trigger] tokens[k], closing)
    &&& forall|k: int|
        0 < k < tokens.len() ==> apart(tokens[k - 1], #[trigger] tokens[k])
}

proof fn lemma_spelled_append(a: Seq<Token>, b: Seq<Token>)
    ensures
        spelled(a + b) == spelled(a) + spelled(b),
    decreases a.len(),
{
    if a.len() == 0 {
        assert(a + b =~= b);
        assert(spelled(a) + spelled(b) =~= spelled(b));
    } else {
        lemma_spelled_append(a.drop_first(), b);
        assert((a + b).drop_first() =~= a.drop_first() + b);
        assert(spelled(a + b) =~= spelled(a) + spelled(b));
    }
}

proof fn lemma_spelled_one(token: Token)
    ensures
        spelled(seq![token]) == token_text(token),
{
    reveal_with_fuel(spelled, 2);
    assert(seq![token].drop_first() =~= Seq::<Token>::empty());
    assert(spelled(seq![token]) =~= token_text(token));
}

/// A tree written out in characters is its text and tags written out one after the other.
proof fn lemma_unparse(nodes: Seq<NodeView>)
    ensures
        unparse(nodes) == spelled(grammar::written(nodes)),
    decreases nodes,
{
    if nodes.len() > 0 {
        lemma_unparse_node(nodes.first());
        lemma_unparse(nodes.drop_first());
        lemma_spelled_append(
            grammar::written_node(nodes.first()),
            grammar::written(nodes.drop_first()),
        );
    }
}

proof fn lemma_unparse_node(node: NodeView)
    ensures
        unparse_node(node) == spelled(grammar::written_node(node)),
    decreases node,
{
    match node {
        NodeView::Text(value) => {
            lemma_spelled_one(Token::Text(value));
        },
        NodeView::Variable(name) => {
            lemma_spelled_one(Token::Variable(name));
        },
        NodeView::Section { name, inverted, children } => {
            let open = Token::Open { name, inverted };
            let close = Token::Close(name);
            let inner = grammar::written(children);
            lemma_unparse(children);
            lemma_spelled_one(open);
            lemma_spelled_one(close);
            lemma_spelled_append(seq![open], inner);
            lemma_spelled_append(seq![open] + inner, seq![close]);
        },
    }
}

/// What comes of a source is sound, but for the names at the ends of sections.
proof fn lemma_tokens_sound(source: Seq<char>, offset: int)
    requires
        0 <= offset <= source.len(),
        grammar::tokens(source, offset) is Some,
    ensures
        sound(grammar::tokens(source, offset)->0, false),
    decreases source.len() - offset,
{
    if offset < source.len() {
        syntax::lemma_next_piece(source, offset);
        text::lemma_find(source, syntax::opening(), offset);
        match syntax::next_piece(source, offset) {
            Piece::Text => {
                lemma_no_tag_inside(source, offset, source.len() as int);
            },
            Piece::Unended => {},
            Piece::Tag { open, after, tag } => {
                lemma_tokens_sound(source, after);
                let before = grammar::text_token(source, offset, open);
                let token = grammar::tag_token(tag)->0;
                let rest = grammar::tokens(source, after)->0;
                let all = grammar::tokens(source, offset)->0;
                assert(all == before.push(token) + rest);
                if offset < open {
                    lemma_no_tag_inside(source, offset, open);
                    let value = source.subrange(offset, open);
                    if value.last() == '{' {
                        assert(source.subrange(open, open + 2)[0] == '{');
                        assert(source.subrange(open - 1, open + 1) =~= syntax::opening());
                        assert(text::occurs_at(source, syntax::opening(), open - 1));
                    }
                }
                assert forall|k: int| 0 <= k < all.len() implies sound_token(
                    #[trigger] all[k],
                    false,
                ) by {
                    if k > before.len() {
                        assert(all[k] == rest[k - before.len() - 1]);
                    }
                }
                assert forall|k: int| 0 < k < all.len() implies apart(
                    all[k - 1],
                    #[trigger] all[k],
                ) by {
                    if k > before.len() + 1 {
                        assert(all[k] == rest[k - before.len() - 1]);
                        assert(all[k - 1] == rest[k - before.len() - 2]);
                    }
                }
            },
        }
    }
}

proof fn lemma_no_tag_inside(source: Seq<char>, from: int, to: int)
    requires
        0 <= from < to <= source.len(),
        forall|j: int| from <= j < to - 1 ==> !text::occurs_at(source, syntax::opening(), j),
    ensures
        !text::contains(source.subrange(from, to), syntax::opening()),
{
    let value = source.subrange(from, to);
    if text::contains(value, syntax::opening()) {
        let i = choose|i: int| text::occurs_at(value, syntax::opening(), i);
        assert(value.subrange(i, i + 2) =~= source.subrange(from + i, from + i + 2));
        assert(text::occurs_at(source, syntax::opening(), from + i));
    }
}

/// In a tree written out, a section ends with the name that it begins with.
proof fn lemma_closing_names(nodes: Seq<NodeView>)
    requires
        forall|k: int|
            0 <= k < grammar::written(nodes).len() ==> sound_token(
                #[trigger] grammar::written(nodes)[k],
                false,
            ),
    ensures
        forall|k: int|
            0 <= k < grammar::written(nodes).len() ==> sound_token(
                #[trigger] grammar::written(nodes)[k],
                true,
            ),
    decreases nodes,
{
    if nodes.len() > 0 {
        let all = grammar::written(nodes);
        let own = grammar::written_node(nodes.first());
        let rest = grammar::written(nodes.drop_first());
        assert(all == own + rest);
        assert forall|k: int| 0 <= k < own.len() implies sound_token(#[trigger] own[k], false) by {
            assert(all[k] == own[k]);
        }
        assert forall|k: int| 0 <= k < rest.len() implies sound_token(
            #[trigger] rest[k],
            false,
        ) by {
            assert(all[own.len() + k] == rest[k]);
        }
        lemma_closing_names_node(nodes.first());
        lemma_closing_names(nodes.drop_first());
        assert forall|k: int| 0 <= k < all.len() implies sound_token(#[trigger] all[k], true) by {
            if k < own.len() {
                assert(all[k] == own[k]);
            } else {
                assert(all[k] == rest[k - own.len()]);
            }
        }
    }
}

proof fn lemma_closing_names_node(node: NodeView)
    requires
        forall|k: int|
            0 <= k < grammar::written_node(node).len() ==> sound_token(
                #[trigger] grammar::written_node(node)[k],
                false,
            ),
    ensures
        forall|k: int|
            0 <= k < grammar::written_node(node).len() ==> sound_token(
                #[trigger] grammar::written_node(node)[k],
                true,
            ),
    decreases node,
{
    if let NodeView::Section { name, inverted, children } = node {
        let all = grammar::written_node(node);
        let inner = grammar::written(children);
        assert forall|k: int| 0 <= k < inner.len() implies sound_token(
            #[trigger] inner[k],
            false,
        ) by {
            assert(all[k + 1] == inner[k]);
        }
        lemma_closing_names(children);
        assert(all[0] == (Token::Open { name, inverted }));
        assert(sound_token(all[0], false));
        assert forall|k: int| 0 <= k < all.len() implies sound_token(#[trigger] all[k], true) by {
            if 0 < k <= inner.len() {
                assert(all[k] == inner[k - 1]);
            }
        }
    }
}

/// A tag without white space is read as what it was written out from.
proof fn lemma_tag_is_read(source: Seq<char>, p: int, token: Token)
    requires
        0 <= p,
        p + token_text(token).len() <= source.len(),
        source.subrange(p, p + token_text(token).len()) == token_text(token),
        !(token is Text),
        sound_token(token, true),
    ensures
        text::occurs_at(source, syntax::opening(), p),
        text::find(source, syntax::closing_braces(), p + 2) == Some(
            p + 2 + token_content(token).len(),
        ),
        grammar::tag_token(
            syntax::tag(
                text::trim(source.subrange(p + 2, p + 2 + token_content(token).len())),
            ),
        ) == Some(token),
{
    let whole = token_text(token);
    let content = token_content(token);
    let q = p + 2 + content.len();
    assert(whole.len() == content.len() + 4);
    assert forall|i: int| 0 <= i < whole.len() implies #[trigger] source[p + i] == whole[i] by {
        assert(source.subrange(p, p + whole.len())[i] == source[p + i]);
    }
    assert(source[p + 0] == '{');
    assert(source[p + 1] == '{');
    assert(source.subrange(p, p + 2) =~= syntax::opening());
    assert(source.subrange(p + 2, q) =~= content) by {
        assert forall|i: int| 0 <= i < content.len() implies source.subrange(p + 2, q)[i]
            == content[i] by {
            assert(source[p + (i + 2)] == whole[i + 2]);
        }
    }
    assert(source[p + (content.len() + 2)] == '}');
    assert(source[p + (content.len() + 3)] == '}');
    assert(source.subrange(q, q + 2) =~= syntax::closing_braces());
    assert(text::occurs_at(source, syntax::closing_braces(), q));
    assert forall|i: int| 0 <= i < content.len() implies #[trigger] content[i] != '}'
        && !text::whitespace(content[i]) by {
        match token {
            Token::Variable(name) => {
                assert(identifier::variable_name_char(name[i]));
            },
            Token::Open { name, inverted } => {
                if i > 0 {
                    assert(identifier::variable_name_char(name[i - 1]));
                }
            },
            Token::Close(name) => {
                if i > 0 {
                    assert(identifier::variable_name_char(name[i - 1]));
                }
            },
            Token::Text(value) => {},
        }
    }
    text::lemma_find(source, syntax::closing_braces(), p + 2);
    assert forall|j: int| p + 2 <= j < q implies !text::occurs_at(
        source,
        syntax::closing_braces(),
        j,
    ) by {
        assert(source[p + (j - p)] == whole[j - p]);
        assert(whole[j - p] == content[j - p - 2]);
        if text::occurs_at(source, syntax::closing_braces(), j) {
            assert(source.subrange(j, j + 2)[0] == '}');
        }
    }
    assert(content.len() > 0);
    assert(text::trim(content) == content);
    match token {
        Token::Open { name, inverted } => {
            assert(content.skip(1) =~= name);
        },
        Token::Close(name) => {
            assert(content.skip(1) =~= name);
        },
        _ => {},
    }
}

/// Sound tokens written out are read as those tokens.
proof fn lemma_spelled_is_read(source: Seq<char>, offset: int, tokens: Seq<Token>)
    requires
        0 <= offset <= source.len(),
        source.subrange(offset, source.len() as int) == spelled(tokens),
        sound(tokens, true),
    ensures
        grammar::tokens(source, offset) == Some(tokens),
    decreases tokens.len(), 0int,
{
    let end = source.len() as int;
    if tokens.len() == 0 {
        assert(spelled(tokens).len() == 0);
        assert(grammar::tokens(source, offset)->0 =~= tokens);
    } else {
        let first = tokens.first();
        let later = tokens.drop_first();
        assert(spelled(tokens) == token_text(first) + spelled(later));
        assert(sound_token(tokens[0], true));
        assert forall|i: int| 0 <= i < spelled(tokens).len() implies #[trigger] spelled(tokens)[i]
            == source[offset + i] by {
            assert(source.subrange(offset, end)[i] == source[offset + i]);
        }
        if let Token::Text(value) = first {
            let p = offset + value.len();
            assert(source.subrange(offset, p) =~= value) by {
                assert forall|i: int| 0 <= i < value.len() implies source.subrange(offset, p)[i]
                    == value[i] by {
                    assert(spelled(tokens)[i] == value[i]);
                }
            }
            assert forall|j: int| offset <= j < p - 1 implies !text::occurs_at(
                source,
                syntax::opening(),
                j,
            ) by {
                if text::occurs_at(source, syntax::opening(), j) {
                    assert(value.subrange(j - offset, j - offset + 2) =~= source.subrange(
                        j,
                        j + 2,
                    ));
                    assert(text::occurs_at(value, syntax::opening(), j - offset));
                }
            }
            text::lemma_find(source, syntax::opening(), offset);
            if tokens.len() == 1 {
                assert(spelled(later).len() == 0);
                assert(p == end);
                assert(syntax::next_piece(source, offset) == Piece::Text);
                assert(grammar::tokens(source, offset)->0 =~= tokens);
            } else {
                let second = later.first();
                let rest = later.drop_first();
                assert(apart(tokens[0], tokens[1]));
                assert(sound_token(tokens[1], true));
                assert(spelled(later) == token_text(second) + spelled(rest));
                assert(source.subrange(p, p + token_text(second).len()) =~= token_text(second)) by {
                    assert forall|i: int| 0 <= i < token_text(second).len() implies source[p + i]
                        == #[trigger] token_text(second)[i] by {
                        assert(spelled(tokens)[value.len() + i] == spelled(later)[i]);
                    }
                }
                lemma_tag_is_read(source, p, second);
                assert(source[p - 1] == value.last());
                if text::occurs_at(source, syntax::opening(), p - 1) {
                    assert(source.subrange(p - 1, p + 1)[0] == '{');
                }
                assert(text::find(source, syntax::opening(), offset) == Some(p));
                assert(tokens =~= seq![first].push(second) + rest);
                lemma_after(source, offset, p, second, rest, tokens, seq![first]);
            }
        } else {
            assert(source.subrange(offset, offset + token_text(first).len()) =~= token_text(
                first,
            )) by {
                assert forall|i: int| 0 <= i < token_text(first).len() implies source[offset + i]
                    == #[trigger] token_text(first)[i] by {
                    assert(spelled(tokens)[i] == token_text(first)[i]);
                }
            }
            lemma_tag_is_read(source, offset, first);
            assert(text::find(source, syntax::opening(), offset) == Some(offset));
            assert(tokens =~= Seq::<Token>::empty().push(first) + later);
            lemma_after(source, offset, offset, first, later, tokens, Seq::empty());
        }
    }
}

/// The case of [`lemma_spelled_is_read`] in which a tag stands at `p`, with nothing but text before
/// it.
proof fn lemma_after(
    source: Seq<char>,
    offset: int,
    p: int,
    tag: Token,
    rest: Seq<Token>,
    tokens: Seq<Token>,
    before: Seq<Token>,
)
    requires
        0 <= offset <= p,
        p + token_text(tag).len() <= source.len(),
        text::find(source, syntax::opening(), offset) == Some(p),
        text::find(source, syntax::closing_braces(), p + 2) == Some(
            p + 2 + token_content(tag).len(),
        ),
        grammar::tag_token(
            syntax::tag(text::trim(source.subrange(p + 2, p + 2 + token_content(tag).len()))),
        ) == Some(tag),
        !(tag is Text),
        tokens == before.push(tag) + rest,
        before == grammar::text_token(source, offset, p),
        source.subrange(offset, source.len() as int) == spelled(tokens),
        spelled(tokens).len() == p - offset + token_text(tag).len() + spelled(rest).len(),
        forall|i: int|
            0 <= i < spelled(rest).len() ==> spelled(tokens)[p - offset + token_text(tag).len() + i]
                == #[trigger] spelled(rest)[i],
        sound(tokens, true),
    ensures
        grammar::tokens(source, offset) == Some(tokens),
    decreases rest.len(), 1int,
{
    let after = p + token_text(tag).len();
    let end = source.len() as int;
    assert(source.subrange(after, end) =~= spelled(rest)) by {
        assert forall|i: int| 0 <= i < spelled(rest).len() implies source.subrange(after, end)[i]
            == #[trigger] spelled(rest)[i] by {
            assert(source.subrange(offset, end)[after - offset + i] == source[after + i]);
        }
    }
    assert forall|k: int| 0 <= k < rest.len() implies sound_token(#[trigger] rest[k], true) by {
        assert(rest[k] == tokens[before.len() + 1 + k]);
    }
    assert forall|k: int| 0 < k < rest.len() implies apart(rest[k - 1], #[trigger] rest[k]) by {
        assert(rest[k] == tokens[before.len() + 1 + k]);
        assert(rest[k - 1] == tokens[before.len() + k]);
    }
    lemma_spelled_is_read(source, after, rest);
    assert(grammar::tokens(source, offset)->0 =~= tokens);
}

/// A template that is written out from its tree is read as the same tree.
pub proof fn law_written_template_is_read_back(source: Seq<char>, nodes: Seq<NodeView>)
    requires
        grammar::tree(source) == Some(nodes),
    ensures
        grammar::tree(unparse(nodes)) == Some(nodes),
{
    grammar::lemma_tree(source);
    lemma_tokens_sound(source, 0);
    lemma_closing_names(nodes);
    lemma_unparse(nodes);
    let text = unparse(nodes);
    assert(text.subrange(0, text.len() as int) =~= text);
    lemma_spelled_is_read(text, 0, grammar::written(nodes));
    assert(grammar::template(text, nodes));
    grammar::lemma_tree(text);
    grammar::law_template_is_unique(text, nodes, grammar::tree(text)->0);
}

/// Tokens of a source whose tags have no white space inside, written out, are the source.
proof fn lemma_tight_is_spelled(source: Seq<char>, offset: int)
    requires
        0 <= offset <= source.len(),
        grammar::tokens(source, offset) is Some,
        tight(source, offset),
    ensures
        spelled(grammar::tokens(source, offset)->0) == source.subrange(
            offset,
            source.len() as int,
        ),
    decreases source.len() - offset,
{
    let end = source.len() as int;
    if offset < end {
        syntax::lemma_next_piece(source, offset);
        match syntax::next_piece(source, offset) {
            Piece::Text => {
                lemma_spelled_one(Token::Text(source.subrange(offset, end)));
            },
            Piece::Unended => {},
            Piece::Tag { open, after, tag } => {
                lemma_tight_is_spelled(source, after);
                let before = grammar::text_token(source, offset, open);
                let token = grammar::tag_token(tag)->0;
                let rest = grammar::tokens(source, after)->0;
                let content = source.subrange(open + 2, after - 2);
                text::lemma_find(source, syntax::opening(), offset);
                text::lemma_find(source, syntax::closing_braces(), open + 2);
                assert(text::trim(content) == content);
                assert(token_content(token) =~= content);
                assert(source.subrange(open, open + 2) == syntax::opening());
                assert(source.subrange(after - 2, after) == syntax::closing_braces());
                assert(token_text(token) =~= source.subrange(open, after)) by {
                    assert forall|i: int| 0 <= i < token_text(token).len() implies token_text(
                        token,
                    )[i] == source[open + i] by {
                        if i < 2 {
                            assert(source.subrange(open, open + 2)[i] == source[open + i]);
                        } else if i >= 2 + content.len() {
                            let k = i - 2 - content.len();
                            assert(source.subrange(after - 2, after)[k] == source[open + i]);
                        }
                    }
                }
                if offset < open {
                    lemma_spelled_one(Token::Text(source.subrange(offset, open)));
                } else {
                    assert(spelled(before) =~= Seq::<char>::empty());
                }
                assert(spelled(before) =~= source.subrange(offset, open));
                lemma_spelled_one(token);
                assert(before.push(token) =~= before + seq![token]);
                lemma_spelled_append(before, seq![token]);
                lemma_spelled_append(before.push(token), rest);
                assert(spelled(grammar::tokens(source, offset)->0) =~= source.subrange(
                    offset,
                    end,
                ));
            },
        }
    }
}

/// A source whose tags have no white space inside is its tree written out: no character is lost,
/// moved or invented.
pub proof fn law_tight_source_is_written_back(source: Seq<char>, nodes: Seq<NodeView>)
    requires
        grammar::tree(source) == Some(nodes),
        tight(source, 0),
    ensures
        unparse(nodes) == source,
{
    grammar::lemma_tree(source);
    lemma_tight_is_spelled(source, 0);
    lemma_unparse(nodes);
    assert(source.subrange(0, source.len() as int) =~= source);
}

/// A tree that can be written out: names are names of variables, texts are not empty, hold no two
/// opening braces in a row and do not end with one, and no text follows another.
pub open spec fn writable(nodes: Seq<NodeView>) -> bool
    decreases nodes,
{
    nodes.len() == 0 || {
        &&& writable_node(nodes.first())
        &&& writable(nodes.drop_first())
        &&& nodes.len() > 1 ==> !(nodes[0] is Text && nodes[1] is Text)
    }
}

pub open spec fn writable_node(node: NodeView) -> bool
    decreases node,
{
    match node {
        NodeView::Text(value) => {
            &&& value.len() > 0
            &&& value.last() != '{'
            &&& forall|i: int|
                0 <= i < value.len() - 1 ==> !(#[trigger] value[i] == '{' && value[i + 1] == '{')
        },
        NodeView::Variable(name) => identifier::variable_name(name),
        NodeView::Section { name, inverted, children } => identifier::variable_name(name)
            && writable(children),
    }
}

/// Tokens that can come of a source, and whose texts do not end with a brace.
spec fn firm(tokens: Seq<Token>) -> bool {
    &&& sound(tokens, true)
    &&& forall|k: int|
        0 <= k < tokens.len() ==> (#[trigger] tokens[k] matches Token::Text(value) ==> value.last()
            != '{')
}

proof fn lemma_firm_append(a: Seq<Token>, b: Seq<Token>)
    requires
        firm(a),
        firm(b),
        a.len() > 0 && b.len() > 0 ==> !(a.last() is Text && b.first() is Text),
    ensures
        firm(a + b),
{
    let all = a + b;
    assert forall|k: int| 0 <= k < all.len() implies {
        &&& sound_token(#[trigger] all[k], true)
        &&& all[k] matches Token::Text(value) ==> value.last() != '{'
    } by {
        if k < a.len() {
            assert(all[k] == a[k]);
            assert(sound_token(a[k], true));
        } else {
            assert(all[k] == b[k - a.len()]);
            assert(sound_token(b[k - a.len()], true));
        }
    }
    assert forall|k: int| 0 < k < all.len() implies apart(all[k - 1], #[trigger] all[k]) by {
        if k < a.len() {
            assert(apart(a[k - 1], a[k]));
        } else if k > a.len() {
            assert(apart(b[k - a.len() - 1], b[k - a.len()]));
        } else {
            assert(all[k - 1] == a.last());
            assert(all[k] == b.first());
            assert(a[a.len() - 1] == a.last());
        }
    }
}

proof fn lemma_writable_is_firm(nodes: Seq<NodeView>)
    requires
        writable(nodes),
    ensures
        firm(grammar::written(nodes)),
        nodes.len() > 0 ==> grammar::written(nodes).len() > 0 && (grammar::written(
            nodes,
        ).first() is Text <==> nodes.first() is Text),
    decreases nodes,
{
    if nodes.len() > 0 {
        let rest = nodes.drop_first();
        lemma_writable_node_is_firm(nodes.first());
        lemma_writable_is_firm(rest);
        lemma_firm_append(grammar::written_node(nodes.first()), grammar::written(rest));
    }
}

proof fn lemma_writable_node_is_firm(node: NodeView)
    requires
        writable_node(node),
    ensures
        firm(grammar::written_node(node)),
        grammar::written_node(node).len() > 0,
        grammar::written_node(node).first() is Text <==> node is Text,
        grammar::written_node(node).last() is Text <==> node is Text,
    decreases node,
{
    match node {
        NodeView::Text(value) => {
            if text::contains(value, syntax::opening()) {
                let i = choose|i: int| text::occurs_at(value, syntax::opening(), i);
                assert(value.subrange(i, i + 2)[0] == value[i]);
                assert(value.subrange(i, i + 2)[1] == value[i + 1]);
            }
        },
        NodeView::Variable(name) => {},
        NodeView::Section { name, inverted, children } => {
            let open = seq![Token::Open { name, inverted }];
            let close = seq![Token::Close(name)];
            lemma_writable_is_firm(children);
            lemma_firm_append(open, grammar::written(children));
            lemma_firm_append(open + grammar::written(children), close);
        },
    }
}

/// Every tree that can be written out, with sections at most sixteen deep, is read back from its
/// writing.
pub proof fn law_every_tree_is_read_from_its_writing(nodes: Seq<NodeView>)
    requires
        writable(nodes),
        grammar::nesting(nodes) <= 16,
    ensures
        grammar::tree(unparse(nodes)) == Some(nodes),
{
    let source = unparse(nodes);
    lemma_writable_is_firm(nodes);
    lemma_unparse(nodes);
    assert(source.subrange(0, source.len() as int) =~= source);
    lemma_spelled_is_read(source, 0, grammar::written(nodes));
    assert(grammar::template(source, nodes));
    grammar::lemma_tree(source);
    grammar::law_template_is_unique(source, nodes, grammar::tree(source)->0);
}

/// How the pieces of a template are written: a text as it is, a variable as its name in double
/// braces, a section as its content between its name behind `#`, or `^` if it is inverted, and its
/// name behind `/`.
pub proof fn law_writing_of_templates(
    value: Seq<char>,
    name: Seq<char>,
    inverted: bool,
    children: Seq<NodeView>,
    first: Seq<NodeView>,
    second: Seq<NodeView>,
)
    ensures
        unparse(seq![NodeView::Text(value)]) == value,
        unparse(seq![NodeView::Variable(name)]) == seq!['{', '{'] + name + seq!['}', '}'],
        unparse(seq![NodeView::Section { name, inverted, children }]) == seq![
            '{',
            '{',
            if inverted {
                '^'
            } else {
                '#'
            },
        ] + name + seq!['}', '}'] + unparse(children) + seq!['{', '{', '/'] + name + seq!['}', '}'],
        unparse(first + second) == unparse(first) + unparse(second),
{
    lemma_unparse_one(NodeView::Text(value));
    lemma_unparse_one(NodeView::Variable(name));
    lemma_unparse_one(NodeView::Section { name, inverted, children });
    let mark: char = if inverted {
        '^'
    } else {
        '#'
    };
    assert(unparse(seq![NodeView::Section { name, inverted, children }]) =~= seq!['{', '{', mark]
        + name + seq!['}', '}'] + unparse(children) + seq!['{', '{', '/'] + name + seq!['}', '}']);
    lemma_unparse_append(first, second);
}

proof fn lemma_unparse_one(node: NodeView)
    ensures
        unparse(seq![node]) == unparse_node(node),
{
    reveal_with_fuel(unparse, 2);
    assert(seq![node].drop_first() =~= Seq::<NodeView>::empty());
    assert(unparse(seq![node]) =~= unparse_node(node));
}

proof fn lemma_unparse_append(first: Seq<NodeView>, second: Seq<NodeView>)
    ensures
        unparse(first + second) == unparse(first) + unparse(second),
    decreases first.len(),
{
    if first.len() == 0 {
        assert(first + second =~= second);
        assert(unparse(first) + unparse(second) =~= unparse(second));
    } else {
        lemma_unparse_append(first.drop_first(), second);
        assert((first + second).drop_first() =~= first.drop_first() + second);
        assert(unparse(first + second) =~= unparse(first) + unparse(second));
    }
}

/// What is read of a source has sections at most sixteen deep and names of variables only.
pub proof fn law_what_is_read_is_well_formed(source: Seq<char>, nodes: Seq<NodeView>)
    requires
        grammar::tree(source) == Some(nodes),
    ensures
        grammar::nesting(nodes) <= 16,
        forall|name: Seq<char>| #[trigger]
            syntax::names_of(nodes).contains(name) ==> identifier::variable_name(name),
{
    grammar::lemma_tree(source);
    lemma_tokens_sound(source, 0);
    lemma_names_are_sound(nodes);
}

proof fn lemma_names_are_sound(nodes: Seq<NodeView>)
    requires
        forall|k: int|
            0 <= k < grammar::written(nodes).len() ==> sound_token(
                #[trigger] grammar::written(nodes)[k],
                false,
            ),
    ensures
        forall|name: Seq<char>| #[trigger]
            syntax::names_of(nodes).contains(name) ==> identifier::variable_name(name),
    decreases nodes,
{
    if nodes.len() > 0 {
        let rest = nodes.drop_last();
        let last = nodes.last();
        let all = grammar::written(nodes);
        let before = grammar::written(rest);
        let own = grammar::written_node(last);
        assert(nodes =~= rest + seq![last]);
        grammar::lemma_written_append(rest, seq![last]);
        grammar::lemma_written_one(last);
        assert forall|k: int| 0 <= k < before.len() implies sound_token(
            #[trigger] before[k],
            false,
        ) by {
            assert(all[k] == before[k]);
        }
        assert forall|k: int| 0 <= k < own.len() implies sound_token(#[trigger] own[k], false) by {
            assert(all[before.len() + k] == own[k]);
        }
        lemma_names_are_sound(rest);
        match last {
            NodeView::Text(value) => {},
            NodeView::Variable(name) => {
                assert(sound_token(own[0], false));
            },
            NodeView::Section { name, inverted, children } => {
                let inner = grammar::written(children);
                assert(sound_token(own[0], false));
                assert forall|k: int| 0 <= k < inner.len() implies sound_token(
                    #[trigger] inner[k],
                    false,
                ) by {
                    assert(own[k + 1] == inner[k]);
                }
                lemma_names_are_sound(children);
                assert forall|x: Seq<char>| #[trigger]
                    syntax::node_names(last).contains(x) implies identifier::variable_name(x) by {
                    if x != name {
                        assert(syntax::names_of(children).contains(x));
                    }
                }
            },
        }
        assert forall|x: Seq<char>| #[trigger]
            syntax::names_of(nodes).contains(x) implies identifier::variable_name(x) by {
            if !syntax::names_of(rest).contains(x) {
                assert(syntax::node_names(last).contains(x));
            }
        }
    }
}

} // verus!
