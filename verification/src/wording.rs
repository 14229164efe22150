//! What is written where, in rendered messages.
use vstd::prelude::*;

use crate::grammar;
use crate::grammar::Token;
use crate::identifier;
use crate::names;
use crate::render;
use crate::render::{DefinitionView, MessageView};
use crate::syntax;
use crate::syntax::{NodeView, Piece, RenderFailure};
use crate::text;

verus! {

/// A tree is rendered piece by piece: what its pieces come to stands one after the other.
pub proof fn law_rendering_is_piecewise(
    a: Seq<NodeView>,
    b: Seq<NodeView>,
    values: Map<Seq<char>, Seq<char>>,
    html: bool,
)
    ensures
        render::rendered(a + b, values, html) == render::rendered(a, values, html)
            + render::rendered(b, values, html),
    decreases b.len(),
{
    if b.len() == 0 {
        assert(a + b =~= a);
        assert(render::rendered(a, values, html) + render::rendered(b, values, html)
            =~= render::rendered(a, values, html));
    } else {
        law_rendering_is_piecewise(a, b.drop_last(), values, html);
        assert((a + b).drop_last() =~= a + b.drop_last());
        assert((a + b).last() == b.last());
        assert(render::rendered(a + b, values, html) =~= render::rendered(a, values, html)
            + render::rendered(b, values, html));
    }
}

proof fn lemma_rendered_one(node: NodeView, values: Map<Seq<char>, Seq<char>>, html: bool)
    ensures
        render::rendered(seq![node], values, html) == render::rendered_node(node, values, html),
{
    reveal_with_fuel(render::rendered, 2);
    assert(seq![node].drop_last() =~= Seq::<NodeView>::empty());
    assert(render::rendered(seq![node], values, html) =~= render::rendered_node(
        node,
        values,
        html,
    ));
}

/// Text stands as it is, and outside HTML a value does too, character for character.
pub proof fn law_values_are_verbatim_outside_html(
    before: Seq<char>,
    name: Seq<char>,
    after: Seq<char>,
    values: Map<Seq<char>, Seq<char>>,
    html: bool,
)
    ensures
        render::rendered(seq![NodeView::Text(before)], values, html) == before,
        render::rendered(seq![NodeView::Variable(name)], values, false) == values[name],
        render::rendered(
            seq![NodeView::Text(before), NodeView::Variable(name), NodeView::Text(after)],
            values,
            false,
        ) == before + values[name] + after,
{
    lemma_rendered_one(NodeView::Text(before), values, html);
    lemma_rendered_one(NodeView::Text(before), values, false);
    lemma_rendered_one(NodeView::Variable(name), values, false);
    lemma_rendered_one(NodeView::Text(after), values, false);
    let first = seq![NodeView::Text(before)];
    let second = seq![NodeView::Variable(name)];
    let third = seq![NodeView::Text(after)];
    law_rendering_is_piecewise(first, second, values, false);
    law_rendering_is_piecewise(first + second, third, values, false);
    assert(first + second + third =~= seq![
        NodeView::Text(before),
        NodeView::Variable(name),
        NodeView::Text(after),
    ]);
}

/// The plain rendering of texts and variables is the texts and the unchanged values, in their
/// order.
pub proof fn law_plain_rendering_joins_texts_and_values(
    nodes: Seq<NodeView>,
    values: Map<Seq<char>, Seq<char>>,
    pieces: Seq<Seq<char>>,
)
    requires
        pieces.len() == nodes.len(),
        forall|i: int|
            0 <= i < nodes.len() ==> {
                ||| #[trigger] nodes[i] == NodeView::Text(pieces[i])
                ||| nodes[i] matches NodeView::Variable(name) && values[name] == pieces[i]
            },
    ensures
        render::rendered(nodes, values, false) == pieces.flatten(),
    decreases nodes.len(),
{
    if nodes.len() == 0 {
        assert(pieces =~= Seq::<Seq<char>>::empty());
        assert(render::rendered(nodes, values, false) =~= pieces.flatten());
    } else {
        let n = nodes.len() - 1;
        let earlier = nodes.drop_last();
        assert forall|i: int| 0 <= i < earlier.len() implies {
            ||| #[trigger] earlier[i] == NodeView::Text(pieces.drop_last()[i])
            ||| earlier[i] matches NodeView::Variable(name) && values[name]
                == pieces.drop_last()[i]
        } by {
            assert(earlier[i] == nodes[i]);
        }
        law_plain_rendering_joins_texts_and_values(earlier, values, pieces.drop_last());
        assert(nodes[n] == nodes.last());
        assert(pieces[n] == pieces.last());
        assert(render::rendered_node(nodes[n], values, false) == pieces[n]);
        pieces.lemma_flatten_and_flatten_alt_are_equivalent();
        pieces.drop_last().lemma_flatten_and_flatten_alt_are_equivalent();
        assert(pieces.flatten_alt() == pieces.drop_last().flatten_alt() + pieces.last());
    }
}

/// In HTML a value stands escaped.
pub proof fn law_values_are_escaped_in_html(
    before: Seq<char>,
    name: Seq<char>,
    after: Seq<char>,
    values: Map<Seq<char>, Seq<char>>,
)
    ensures
        render::rendered(seq![NodeView::Variable(name)], values, true) == render::escaped(
            values[name],
        ),
        render::rendered(
            seq![NodeView::Text(before), NodeView::Variable(name), NodeView::Text(after)],
            values,
            true,
        ) == before + render::escaped(values[name]) + after,
{
    lemma_rendered_one(NodeView::Text(before), values, true);
    lemma_rendered_one(NodeView::Variable(name), values, true);
    lemma_rendered_one(NodeView::Text(after), values, true);
    let first = seq![NodeView::Text(before)];
    let second = seq![NodeView::Variable(name)];
    let third = seq![NodeView::Text(after)];
    law_rendering_is_piecewise(first, second, values, true);
    law_rendering_is_piecewise(first + second, third, values, true);
    assert(first + second + third =~= seq![
        NodeView::Text(before),
        NodeView::Variable(name),
        NodeView::Text(after),
    ]);
}

/// Escaping goes character by character. Five characters become entities, all others stay.
pub proof fn law_five_characters_are_escaped(a: Seq<char>, b: Seq<char>, c: char)
    ensures
        render::escaped(a + b) == render::escaped(a) + render::escaped(b),
        render::escaped(Seq::empty()) == Seq::<char>::empty(),
        render::escaped(seq!['&']) == seq!['&', 'a', 'm', 'p', ';'],
        render::escaped(seq!['<']) == seq!['&', 'l', 't', ';'],
        render::escaped(seq!['>']) == seq!['&', 'g', 't', ';'],
        render::escaped(seq!['"']) == seq!['&', 'q', 'u', 'o', 't', ';'],
        render::escaped(seq!['\'']) == seq!['&', '#', '3', '9', ';'],
        c != '&' && c != '<' && c != '>' && c != '"' && c != '\'' ==> render::escaped(seq![c])
            == seq![c],
    decreases b.len(),
{
    if b.len() == 0 {
        assert(a + b =~= a);
        assert(render::escaped(a) + render::escaped(b) =~= render::escaped(a));
    } else {
        law_five_characters_are_escaped(a, b.drop_last(), c);
        assert((a + b).drop_last() =~= a + b.drop_last());
        assert((a + b).last() == b.last());
        assert(render::escaped(a + b) =~= render::escaped(a) + render::escaped(b));
    }
    lemma_escaped_one('&');
    lemma_escaped_one('<');
    lemma_escaped_one('>');
    lemma_escaped_one('"');
    lemma_escaped_one('\'');
    lemma_escaped_one(c);
    reveal_strlit("&amp;");
    reveal_strlit("&lt;");
    reveal_strlit("&gt;");
    reveal_strlit("&quot;");
    reveal_strlit("&#39;");
    assert("&amp;"@ =~= seq!['&', 'a', 'm', 'p', ';']);
    assert("&lt;"@ =~= seq!['&', 'l', 't', ';']);
    assert("&gt;"@ =~= seq!['&', 'g', 't', ';']);
    assert("&quot;"@ =~= seq!['&', 'q', 'u', 'o', 't', ';']);
    assert("&#39;"@ =~= seq!['&', '#', '3', '9', ';']);
}

proof fn lemma_escaped_one(c: char)
    ensures
        render::escaped(seq![c]) == render::escaped_char(c),
{
    reveal_with_fuel(render::escaped, 2);
    assert(seq![c].drop_last() =~= Seq::<char>::empty());
    assert(render::escaped(seq![c]) =~= render::escaped_char(c));
}

/// A section is kept whole where its name has a value with a character that is not whitespace, and
/// an inverted section where it has none; otherwise nothing of it is left.
pub proof fn law_sections_are_kept_or_dropped(
    name: Seq<char>,
    children: Seq<NodeView>,
    values: Map<Seq<char>, Seq<char>>,
    html: bool,
)
    ensures
        ({
            let set = values.dom().contains(name) && exists|i: int|
                0 <= i < values[name].len() && !text::whitespace(#[trigger] values[name][i]);
            let section = seq![NodeView::Section { name, inverted: false, children }];
            let inverse = seq![NodeView::Section { name, inverted: true, children }];
            let content = render::rendered(children, values, html);
            &&& set ==> render::rendered(section, values, html) == content
            &&& set ==> render::rendered(inverse, values, html) == Seq::<char>::empty()
            &&& !set ==> render::rendered(section, values, html) == Seq::<char>::empty()
            &&& !set ==> render::rendered(inverse, values, html) == content
        }),
{
    lemma_rendered_one(NodeView::Section { name, inverted: false, children }, values, html);
    lemma_rendered_one(NodeView::Section { name, inverted: true, children }, values, html);
}

/// The names that a tree uses: those of its variables and of its sections, and those inside them.
pub proof fn law_names_of_a_tree(
    a: Seq<NodeView>,
    b: Seq<NodeView>,
    value: Seq<char>,
    name: Seq<char>,
    inverted: bool,
    children: Seq<NodeView>,
    x: Seq<char>,
)
    ensures
        syntax::names_of(a + b).contains(x) <==> syntax::names_of(a).contains(x)
            || syntax::names_of(b).contains(x),
        !syntax::names_of(Seq::empty()).contains(x),
        !syntax::names_of(seq![NodeView::Text(value)]).contains(x),
        syntax::names_of(seq![NodeView::Variable(name)]).contains(x) <==> x == name,
        syntax::names_of(seq![NodeView::Section { name, inverted, children }]).contains(x) <==> x
            == name || syntax::names_of(children).contains(x),
    decreases b.len(),
{
    if b.len() == 0 {
        assert(a + b =~= a);
    } else {
        law_names_of_a_tree(a, b.drop_last(), value, name, inverted, children, x);
        assert((a + b).drop_last() =~= a + b.drop_last());
        assert((a + b).last() == b.last());
    }
    lemma_names_of_one(NodeView::Text(value));
    lemma_names_of_one(NodeView::Variable(name));
    lemma_names_of_one(NodeView::Section { name, inverted, children });
}

proof fn lemma_names_of_one(node: NodeView)
    ensures
        syntax::names_of(seq![node]) == syntax::node_names(node),
{
    reveal_with_fuel(syntax::names_of, 2);
    assert(seq![node].drop_last() =~= Seq::<NodeView>::empty());
    assert(syntax::names_of(seq![node]) =~= syntax::node_names(node));
}

/// A text, as a list of at most one node.
pub open spec fn maybe_text(value: Seq<char>) -> Seq<NodeView> {
    if value.len() == 0 {
        Seq::empty()
    } else {
        seq![NodeView::Text(value)]
    }
}

/// A name in double braces, with or without whitespace around it, is read as a variable, and what
/// stands around the braces as text.
pub proof fn law_name_in_braces_is_a_variable(
    before: Seq<char>,
    left: Seq<char>,
    name: Seq<char>,
    right: Seq<char>,
    after: Seq<char>,
)
    requires
        !before.contains('{'),
        !after.contains('{'),
        text::blank(left),
        text::blank(right),
        identifier::variable_name(name),
    ensures
        grammar::tree(
            before + seq!['{', '{'] + left + name + right + seq!['}', '}'] + after,
        ) == Some(maybe_text(before) + seq![NodeView::Variable(name)] + maybe_text(after)),
{
    let content = left + name + right;
    let source = before + seq!['{', '{'] + left + name + right + seq!['}', '}'] + after;
    assert(source =~= before + seq!['{', '{'] + content + seq!['}', '}'] + after);
    lemma_name_is_solid(name);
    text::law_trimming_leaves_the_text(left, name, right);
    assert forall|i: int| 0 <= i < content.len() implies content[i] != '}' by {
        if i < left.len() {
            assert(text::whitespace(left[i]));
        } else if i < left.len() + name.len() {
            assert(content[i] == name[i - left.len()]);
        } else {
            assert(text::whitespace(right[i - left.len() - name.len()]));
        }
    }
    assert(name[0] != '/' && name[0] != '#' && name[0] != '^');
    let nodes = maybe_text(before) + seq![NodeView::Variable(name)] + maybe_text(after);
    lemma_one_tag(before, content, after);
    lemma_written_around(before, NodeView::Variable(name), after);
    grammar::lemma_tree(source);
    assert(grammar::written_node(NodeView::Variable(name)) =~= seq![Token::Variable(name)]);
    assert(maybe_token(before).push(Token::Variable(name)) + maybe_token(after) =~= maybe_token(
        before,
    ) + seq![Token::Variable(name)] + maybe_token(after));
    assert(grammar::template(source, nodes));
    grammar::law_template_is_unique(source, nodes, grammar::tree(source)->0);
}

/// A name holds neither whitespace nor braces nor the marks of sections.
proof fn lemma_name_is_solid(name: Seq<char>)
    requires
        identifier::variable_name(name),
    ensures
        forall|i: int|
            0 <= i < name.len() ==> !text::whitespace(#[trigger] name[i]) && name[i] != '}'
                && name[i] != '{' && name[i] != '/' && name[i] != '#' && name[i] != '^',
{
    assert forall|i: int| 0 <= i < name.len() implies !text::whitespace(#[trigger] name[i])
        && name[i] != '}' && name[i] != '{' && name[i] != '/' && name[i] != '#' && name[i]
        != '^' by {
        assert(i > 0 ==> identifier::variable_name_char(name[i]));
    }
}

/// The tokens of a source with one tag.
proof fn lemma_one_tag(before: Seq<char>, content: Seq<char>, after: Seq<char>)
    requires
        !before.contains('{'),
        !after.contains('{'),
        !content.contains('}'),
        grammar::tag_token(syntax::tag(text::trim(content))) is Some,
    ensures
        grammar::tokens(
            before + seq!['{', '{'] + content + seq!['}', '}'] + after,
            0,
        ) == Some(
            maybe_token(before).push(grammar::tag_token(syntax::tag(text::trim(content)))->0)
                + maybe_token(after),
        ),
{
    let source = before + seq!['{', '{'] + content + seq!['}', '}'] + after;
    let open = before.len() as int;
    let close = open + 2 + content.len();
    lemma_first_tag(before, content, after);
    let rest = close + 2;
    assert(source.subrange(rest, source.len() as int) =~= after);
    assert forall|j: int| rest <= j < source.len() implies #[trigger] source[j] != '{' by {
        assert(after[j - rest] == source[j]);
        assert(after.contains(after[j - rest]));
    }
    lemma_not_found(source, syntax::opening(), rest);
    assert(source.subrange(0, open) =~= before);
    assert(grammar::text_token(source, 0, open) =~= maybe_token(before));
    let tail = grammar::tokens(source, rest);
    assert(tail == Some(maybe_token(after)));
}

/// The text before and the tag in the first braces.
proof fn lemma_first_tag(before: Seq<char>, content: Seq<char>, after: Seq<char>)
    requires
        !before.contains('{'),
        !content.contains('}'),
    ensures
        syntax::next_piece(
            before + seq!['{', '{'] + content + seq!['}', '}'] + after,
            0,
        ) == (Piece::Tag {
            open: before.len() as int,
            after: (before.len() + content.len() + 4) as int,
            tag: syntax::tag(text::trim(content)),
        }),
{
    let source = before + seq!['{', '{'] + content + seq!['}', '}'] + after;
    let open = before.len() as int;
    let close = open + 2 + content.len();
    assert(source[open] == '{' && source[open + 1] == '{');
    assert(source[close] == '}' && source[close + 1] == '}');
    assert forall|j: int| 0 <= j < open implies #[trigger] source[j] != '{' by {
        assert(before[j] == source[j]);
        assert(before.contains(before[j]));
    }
    lemma_found_at(source, syntax::opening(), 0, open);
    assert forall|j: int| open + 2 <= j < close implies #[trigger] source[j] != '}' by {
        assert(content[j - open - 2] == source[j]);
        assert(content.contains(content[j - open - 2]));
    }
    lemma_found_at(source, syntax::closing_braces(), open + 2, close);
    assert(source.subrange(open + 2, close) =~= content);
}

/// Two characters are found where they stand, if the first of them does not stand before.
proof fn lemma_found_at(s: Seq<char>, pattern: Seq<char>, from: int, at: int)
    requires
        pattern.len() == 2,
        0 <= from <= at,
        at + 2 <= s.len(),
        s[at] == pattern[0],
        s[at + 1] == pattern[1],
        forall|j: int| from <= j < at ==> #[trigger] s[j] != pattern[0],
    ensures
        text::find(s, pattern, from) == Some(at),
{
    assert(s.subrange(at, at + 2) =~= pattern);
    assert(text::occurs_at(s, pattern, at));
    text::lemma_find(s, pattern, from);
    if let Some(i) = text::find(s, pattern, from) {
        if i < at {
            assert(s.subrange(i, i + 2)[0] == s[i]);
        }
    }
}

/// Two characters are not found where the first of them does not stand.
proof fn lemma_not_found(s: Seq<char>, pattern: Seq<char>, from: int)
    requires
        pattern.len() == 2,
        0 <= from,
        forall|j: int| from <= j < s.len() ==> #[trigger] s[j] != pattern[0],
    ensures
        text::find(s, pattern, from) is None,
{
    text::lemma_find(s, pattern, from);
    if let Some(i) = text::find(s, pattern, from) {
        assert(s.subrange(i, i + 2)[0] == s[i]);
    }
}

/// A text, as a list of at most one token.
spec fn maybe_token(value: Seq<char>) -> Seq<Token> {
    if value.len() == 0 {
        Seq::empty()
    } else {
        seq![Token::Text(value)]
    }
}

proof fn lemma_written_around(before: Seq<char>, node: NodeView, after: Seq<char>)
    requires
        node is Variable,
    ensures
        ({
            let nodes = maybe_text(before) + seq![node] + maybe_text(after);
            &&& grammar::written(nodes) == maybe_token(before) + grammar::written_node(node)
                + maybe_token(after)
            &&& grammar::nesting(nodes) == 0
        }),
{
    lemma_written_maybe(before);
    lemma_written_maybe(after);
    grammar::lemma_written_one(node);
    grammar::lemma_written_append(maybe_text(before), seq![node]);
    grammar::lemma_written_append(maybe_text(before) + seq![node], maybe_text(after));
}

proof fn lemma_written_maybe(value: Seq<char>)
    ensures
        grammar::written(maybe_text(value)) == maybe_token(value),
        grammar::nesting(maybe_text(value)) == 0,
{
    if value.len() > 0 {
        grammar::lemma_written_one(NodeView::Text(value));
    }
}

/// A tag at `open`, with nothing but text before it.
proof fn lemma_tag_at(source: Seq<char>, offset: int, open: int, close: int, token: Token)
    requires
        0 <= offset <= open,
        open + 2 <= close,
        close + 2 <= source.len(),
        source[open] == '{',
        source[open + 1] == '{',
        source[close] == '}',
        source[close + 1] == '}',
        forall|j: int| offset <= j < open ==> #[trigger] source[j] != '{',
        forall|j: int| open + 2 <= j < close ==> #[trigger] source[j] != '}',
        grammar::tag_token(syntax::tag(text::trim(source.subrange(open + 2, close)))) == Some(
            token,
        ),
    ensures
        grammar::tokens(source, offset) == grammar::followed(
            grammar::text_token(source, offset, open).push(token),
            grammar::tokens(source, close + 2),
        ),
{
    lemma_found_at(source, syntax::opening(), offset, open);
    lemma_found_at(source, syntax::closing_braces(), open + 2, close);
}

/// Text up to the end.
proof fn lemma_text_from(source: Seq<char>, offset: int)
    requires
        0 <= offset <= source.len(),
        forall|j: int| offset <= j < source.len() ==> #[trigger] source[j] != '{',
    ensures
        grammar::tokens(source, offset) == Some(
            maybe_token(source.subrange(offset, source.len() as int)),
        ),
{
    lemma_not_found(source, syntax::opening(), offset);
    if offset == source.len() {
        assert(source.subrange(offset, offset) =~= Seq::<char>::empty());
    }
}

/// A section between its tags, with or without whitespace inside their braces.
pub open spec fn section_source(
    left: Seq<char>,
    mark: char,
    name: Seq<char>,
    right: Seq<char>,
    content: Seq<char>,
    end_left: Seq<char>,
    end_right: Seq<char>,
) -> Seq<char> {
    seq!['{', '{'] + left + name_behind(mark, name) + right + seq!['}', '}'] + content + seq![
        '{',
        '{',
    ] + end_left + name_behind('/', name) + end_right + seq!['}', '}']
}

/// A mark and a name.
pub open spec fn name_behind(mark: char, name: Seq<char>) -> Seq<char> {
    seq![mark] + name
}

/// A name behind `#`, or `^` for an inverted section, opens a section, and the same name behind `/`
/// ends it, with or without whitespace inside the braces.
pub proof fn law_marked_names_enclose_a_section(
    before: Seq<char>,
    left: Seq<char>,
    inverted: bool,
    name: Seq<char>,
    right: Seq<char>,
    content: Seq<char>,
    end_left: Seq<char>,
    end_right: Seq<char>,
    after: Seq<char>,
)
    requires
        !before.contains('{'),
        !content.contains('{'),
        !after.contains('{'),
        text::blank(left),
        text::blank(right),
        text::blank(end_left),
        text::blank(end_right),
        identifier::variable_name(name),
    ensures
        ({
            let mark = if inverted {
                '^'
            } else {
                '#'
            };
            let source = before + section_source(
                left,
                mark,
                name,
                right,
                content,
                end_left,
                end_right,
            ) + after;
            let section = NodeView::Section { name, inverted, children: maybe_text(content) };
            grammar::tree(source) == Some(
                maybe_text(before) + seq![section] + maybe_text(after),
            )
        }),
{
    let mark = if inverted {
        '^'
    } else {
        '#'
    };
    let first = left + name_behind(mark, name) + right;
    let second = end_left + name_behind('/', name) + end_right;
    let source = before + section_source(left, mark, name, right, content, end_left, end_right)
        + after;
    let section = NodeView::Section { name, inverted, children: maybe_text(content) };
    let nodes = maybe_text(before) + seq![section] + maybe_text(after);
    lemma_section_source(before, left, mark, name, right, content, end_left, end_right, after);
    lemma_marked_content(left, mark, name, right);
    lemma_marked_content(end_left, '/', name, end_right);
    lemma_section_tokens(source, before, first, content, second, after, name, inverted);
    lemma_section_written(before, name, inverted, content, after);
    assert(grammar::template(source, nodes));
    grammar::lemma_tree(source);
    grammar::law_template_is_unique(source, nodes, grammar::tree(source)->0);
}

proof fn lemma_section_source(
    before: Seq<char>,
    left: Seq<char>,
    mark: char,
    name: Seq<char>,
    right: Seq<char>,
    content: Seq<char>,
    end_left: Seq<char>,
    end_right: Seq<char>,
    after: Seq<char>,
)
    ensures
        before + section_source(left, mark, name, right, content, end_left, end_right) + after
            == before + seq!['{', '{'] + (left + name_behind(mark, name) + right) + seq!['}', '}']
            + content + seq!['{', '{'] + (end_left + name_behind('/', name) + end_right) + seq![
            '}',
            '}',
        ] + after,
{
    let braces = seq!['{', '{'];
    let ends = seq!['}', '}'];
    let opened = name_behind(mark, name);
    let closed = name_behind('/', name);
    assert(braces + left + opened + right =~= braces + (left + opened + right));
    let front = braces + (left + opened + right) + ends + content + braces;
    assert(front + end_left + closed + end_right =~= front + (end_left + closed + end_right));
    assert(before + section_source(left, mark, name, right, content, end_left, end_right) + after
        =~= before + braces + (left + opened + right) + ends + content + braces + (end_left
        + closed + end_right) + ends + after);
}

/// The tokens of a source with one section.
proof fn lemma_section_tokens(
    source: Seq<char>,
    before: Seq<char>,
    first: Seq<char>,
    content: Seq<char>,
    second: Seq<char>,
    after: Seq<char>,
    name: Seq<char>,
    inverted: bool,
)
    requires
        source == before + seq!['{', '{'] + first + seq!['}', '}'] + content + seq!['{', '{']
            + second + seq!['}', '}'] + after,
        !before.contains('{'),
        !content.contains('{'),
        !after.contains('{'),
        !first.contains('}'),
        !second.contains('}'),
        identifier::variable_name(name),
        text::trim(first) == name_behind(
            if inverted {
                '^'
            } else {
                '#'
            },
            name,
        ),
        text::trim(second) == name_behind('/', name),
    ensures
        grammar::tokens(source, 0) == Some(
            maybe_token(before).push(Token::Open { name, inverted }) + (maybe_token(content).push(
                Token::Close(name),
            ) + maybe_token(after)),
        ),
{
    let open = before.len() as int;
    let close = open + 2 + first.len();
    let end_open = close + 2 + content.len();
    let end_close = end_open + 2 + second.len();
    lemma_section_characters(source, before, first, content, second, after);
    assert(text::trim(first).skip(1) =~= name);
    assert(text::trim(second).skip(1) =~= name);
    lemma_tag_at(source, 0, open, close, Token::Open { name, inverted });
    lemma_tag_at(source, close + 2, end_open, end_close, Token::Close(name));
    lemma_text_from(source, end_close + 2);
    assert(grammar::text_token(source, 0, open) =~= maybe_token(before));
    assert(grammar::text_token(source, close + 2, end_open) =~= maybe_token(content));
}

/// A section with text around it, written out.
proof fn lemma_section_written(
    before: Seq<char>,
    name: Seq<char>,
    inverted: bool,
    content: Seq<char>,
    after: Seq<char>,
)
    ensures
        ({
            let section = NodeView::Section { name, inverted, children: maybe_text(content) };
            let nodes = maybe_text(before) + seq![section] + maybe_text(after);
            &&& grammar::written(nodes) == maybe_token(before).push(
                Token::Open { name, inverted },
            ) + (maybe_token(content).push(Token::Close(name)) + maybe_token(after))
            &&& grammar::nesting(nodes) == 1
        }),
{
    let section = NodeView::Section { name, inverted, children: maybe_text(content) };
    let nodes = maybe_text(before) + seq![section] + maybe_text(after);
    lemma_written_maybe(before);
    lemma_written_maybe(content);
    lemma_written_maybe(after);
    grammar::lemma_written_one(section);
    grammar::lemma_written_append(maybe_text(before), seq![section]);
    grammar::lemma_written_append(maybe_text(before) + seq![section], maybe_text(after));
    assert(maybe_token(before).push(Token::Open { name, inverted }) + (maybe_token(content).push(
        Token::Close(name),
    ) + maybe_token(after)) =~= grammar::written(nodes));
}

/// What is inside the braces of a section's tag, once trimmed.
proof fn lemma_marked_content(left: Seq<char>, mark: char, name: Seq<char>, right: Seq<char>)
    requires
        text::blank(left),
        text::blank(right),
        identifier::variable_name(name),
        mark == '#' || mark == '^' || mark == '/',
    ensures
        text::trim(left + name_behind(mark, name) + right) == name_behind(mark, name),
        !(left + name_behind(mark, name) + right).contains('}'),
        name_behind(mark, name)[0] == mark,
        name_behind(mark, name).len() > 0,
{
    let inner = name_behind(mark, name);
    let content = left + inner + right;
    lemma_name_is_solid(name);
    assert(inner.last() == name[name.len() - 1]);
    text::law_trimming_leaves_the_text(left, inner, right);
    assert forall|i: int| 0 <= i < content.len() implies content[i] != '}' by {
        if i < left.len() {
            assert(text::whitespace(left[i]));
        } else if i < left.len() + inner.len() {
            assert(content[i] == inner[i - left.len()]);
            if i > left.len() {
                assert(inner[i - left.len()] == name[i - left.len() - 1]);
            }
        } else {
            assert(text::whitespace(right[i - left.len() - inner.len()]));
        }
    }
}

/// What stands where in a source with one section.
proof fn lemma_section_characters(
    source: Seq<char>,
    before: Seq<char>,
    first: Seq<char>,
    content: Seq<char>,
    second: Seq<char>,
    after: Seq<char>,
)
    requires
        source == before + seq!['{', '{'] + first + seq!['}', '}'] + content + seq!['{', '{']
            + second + seq!['}', '}'] + after,
        !before.contains('{'),
        !content.contains('{'),
        !after.contains('{'),
        !first.contains('}'),
        !second.contains('}'),
    ensures
        ({
            let open = before.len() as int;
            let close = open + 2 + first.len();
            let end_open = close + 2 + content.len();
            let end_close = end_open + 2 + second.len();
            &&& source.len() == end_close + 2 + after.len()
            &&& source[open] == '{'
            &&& source[open + 1] == '{'
            &&& source[close] == '}'
            &&& source[close + 1] == '}'
            &&& source[end_open] == '{'
            &&& source[end_open + 1] == '{'
            &&& source[end_close] == '}'
            &&& source[end_close + 1] == '}'
            &&& source.subrange(0, open) == before
            &&& source.subrange(open + 2, close) == first
            &&& source.subrange(close + 2, end_open) == content
            &&& source.subrange(end_open + 2, end_close) == second
            &&& source.subrange(end_close + 2, source.len() as int) == after
            &&& forall|j: int| 0 <= j < open ==> #[trigger] source[j] != '{'
            &&& forall|j: int| open + 2 <= j < close ==> #[trigger] source[j] != '}'
            &&& forall|j: int| close + 2 <= j < end_open ==> #[trigger] source[j] != '{'
            &&& forall|j: int| end_open + 2 <= j < end_close ==> #[trigger] source[j] != '}'
            &&& forall|j: int| end_close + 2 <= j < source.len() ==> #[trigger] source[j] != '{'
        }),
{
    let open = before.len() as int;
    let close = open + 2 + first.len();
    let end_open = close + 2 + content.len();
    let end_close = end_open + 2 + second.len();
    assert(source.subrange(0, open) =~= before);
    assert(source.subrange(open + 2, close) =~= first);
    assert(source.subrange(close + 2, end_open) =~= content);
    assert(source.subrange(end_open + 2, end_close) =~= second);
    assert(source.subrange(end_close + 2, source.len() as int) =~= after);
    assert forall|j: int| 0 <= j < open implies #[trigger] source[j] != '{' by {
        assert(source[j] == before[j]);
        assert(before.contains(before[j]));
    }
    assert forall|j: int| open + 2 <= j < close implies #[trigger] source[j] != '}' by {
        assert(source[j] == first[j - open - 2]);
        assert(first.contains(first[j - open - 2]));
    }
    assert forall|j: int| close + 2 <= j < end_open implies #[trigger] source[j] != '{' by {
        assert(source[j] == content[j - close - 2]);
        assert(content.contains(content[j - close - 2]));
    }
    assert forall|j: int| end_open + 2 <= j < end_close implies #[trigger] source[j] != '}' by {
        assert(source[j] == second[j - end_open - 2]);
        assert(second.contains(second[j - end_open - 2]));
    }
    assert forall|j: int| end_close + 2 <= j < source.len() implies #[trigger] source[j]
        != '{' by {
        assert(source[j] == after[j - end_close - 2]);
        assert(after.contains(after[j - end_close - 2]));
    }
}

/// A source with a name in double braces comes to its text with the value in the place of the
/// braces: as it is outside HTML, escaped in HTML.
pub proof fn law_value_takes_the_place_of_the_braces(
    before: Seq<char>,
    left: Seq<char>,
    name: Seq<char>,
    right: Seq<char>,
    after: Seq<char>,
    values: Map<Seq<char>, Seq<char>>,
)
    requires
        !before.contains('{'),
        !after.contains('{'),
        text::blank(left),
        text::blank(right),
        identifier::variable_name(name),
    ensures
        ({
            let source = before + seq!['{', '{'] + left + name + right + seq!['}', '}'] + after;
            &&& grammar::tree(source) is Some
            &&& render::rendered(grammar::tree(source)->0, values, false) == before + values[name]
                + after
            &&& render::rendered(grammar::tree(source)->0, values, true) == before
                + render::escaped(values[name]) + after
        }),
{
    law_name_in_braces_is_a_variable(before, left, name, right, after);
    let middle = seq![NodeView::Variable(name)];
    lemma_rendered_maybe(before, values, false);
    lemma_rendered_maybe(before, values, true);
    lemma_rendered_maybe(after, values, false);
    lemma_rendered_maybe(after, values, true);
    lemma_rendered_one(NodeView::Variable(name), values, false);
    lemma_rendered_one(NodeView::Variable(name), values, true);
    law_rendering_is_piecewise(maybe_text(before), middle, values, false);
    law_rendering_is_piecewise(maybe_text(before), middle, values, true);
    law_rendering_is_piecewise(maybe_text(before) + middle, maybe_text(after), values, false);
    law_rendering_is_piecewise(maybe_text(before) + middle, maybe_text(after), values, true);
}

proof fn lemma_rendered_maybe(
    value: Seq<char>,
    values: Map<Seq<char>, Seq<char>>,
    html: bool,
)
    ensures
        render::rendered(maybe_text(value), values, html) == value,
{
    if value.len() > 0 {
        lemma_rendered_one(NodeView::Text(value), values, html);
    } else {
        assert(render::rendered(maybe_text(value), values, html) =~= value);
    }
}

/// Braces that are not closed, and braces around what is neither a name nor a mark with a name,
/// make a source denote nothing.
pub proof fn law_malformed_braces_denote_nothing(
    before: Seq<char>,
    content: Seq<char>,
    after: Seq<char>,
)
    requires
        !before.contains('{'),
        !content.contains('}'),
    ensures
        grammar::tree(before + seq!['{', '{'] + content) is None,
        ({
            let inner = text::trim(content);
            let marked = inner.len() > 0 && (inner[0] == '#' || inner[0] == '^' || inner[0]
                == '/');
            ||| !marked && !identifier::variable_name(inner)
            ||| inner.len() > 0 && (inner[0] == '#' || inner[0] == '^')
                && !identifier::variable_name(inner.skip(1))
        }) ==> grammar::tree(
            before + seq!['{', '{'] + content + seq!['}', '}'] + after,
        ) is None,
{
    let open = before.len() as int;
    let unended = before + seq!['{', '{'] + content;
    assert forall|j: int| 0 <= j < open implies #[trigger] unended[j] != '{' by {
        assert(before[j] == unended[j]);
        assert(before.contains(before[j]));
    }
    lemma_found_at(unended, syntax::opening(), 0, open);
    assert forall|j: int| open + 2 <= j < unended.len() implies #[trigger] unended[j] != '}' by {
        assert(content[j - open - 2] == unended[j]);
        assert(content.contains(content[j - open - 2]));
    }
    lemma_not_found(unended, syntax::closing_braces(), open + 2);
    assert(grammar::tokens(unended, 0) is None);
    grammar::lemma_tree(unended);
    let closed = before + seq!['{', '{'] + content + seq!['}', '}'] + after;
    lemma_first_tag(before, content, after);
    grammar::lemma_tree(closed);
}

/// The list gives a value for the name.
pub open spec fn gives(variables: Seq<(String, String)>, name: Seq<char>) -> bool {
    exists|i: int| 0 <= i < variables.len() && (#[trigger] variables[i]).0@ == name
}

/// A message is rendered with the values that the list gives, each for its name.
pub proof fn law_values_are_those_given(variables: Seq<(String, String)>, i: int, x: Seq<char>)
    requires
        0 <= i < variables.len(),
        forall|j: int, k: int|
            0 <= j < k < variables.len() ==> (#[trigger] variables[j]).0@
                != (#[trigger] variables[k]).0@,
    ensures
        names::pairs_map(variables)[variables[i].0@] == variables[i].1@,
        names::pairs_map(variables).dom().contains(x) <==> gives(variables, x),
{
    names::lemma_pairs_map(variables, i);
    lemma_given(variables, x);
}

proof fn lemma_given(variables: Seq<(String, String)>, x: Seq<char>)
    ensures
        names::pairs_map(variables).dom().contains(x) <==> gives(variables, x),
{
    if names::pairs_map(variables).dom().contains(x) {
        let k = names::lemma_bound_name(variables, x);
        assert(variables[k].0@ == x);
    }
    if gives(variables, x) {
        let k = choose|k: int| 0 <= k < variables.len() && (#[trigger] variables[k]).0@ == x;
        names::lemma_name_bound(variables, k);
    }
}

/// One of the sources uses the name.
pub open spec fn uses(definition: DefinitionView, name: Seq<char>) -> bool {
    ||| syntax::names_of(grammar::tree(definition.subject)->0).contains(name)
    ||| syntax::names_of(grammar::tree(definition.text)->0).contains(name)
    ||| syntax::names_of(grammar::tree(definition.html)->0).contains(name)
}

/// Every name and value of the list can be rendered with, and no name is given twice.
pub open spec fn renders_with(variables: Seq<(String, String)>) -> bool {
    &&& forall|i: int|
        0 <= i < variables.len() ==> render::acceptable(
            (#[trigger] variables[i]).0@,
            variables[i].1@,
        )
    &&& forall|i: int, j: int|
        0 <= i < j < variables.len() ==> (#[trigger] variables[i]).0@
            != (#[trigger] variables[j]).0@
}

/// Why a message is not rendered: for its sources; else for a variable that cannot be rendered
/// with; else for a name that is used and not given; else for one that is given and not used; else
/// for a text that cannot be delivered.
pub proof fn law_reasons_come_in_order(
    definition: DefinitionView,
    variables: Seq<(String, String)>,
)
    ensures
        ({
            let failure = render::render_failure(definition, variables);
            let values = names::pairs_map(variables);
            let subject = render::rendered(grammar::tree(definition.subject)->0, values, false);
            let body = render::rendered(grammar::tree(definition.text)->0, values, false);
            let html = render::rendered(grammar::tree(definition.html)->0, values, true);
            let valid = render::valid_definition(definition);
            let safe = renders_with(variables);
            let missing = exists|x: Seq<char>| #[trigger]
                uses(definition, x) && !gives(variables, x);
            let unexpected = exists|x: Seq<char>| #[trigger]
                gives(variables, x) && !uses(definition, x);
            let blank = forall|i: int|
                0 <= i < subject.len() ==> text::whitespace(#[trigger] subject[i]);
            let broken = subject.contains('\r') || subject.contains('\n');
            let long = text::utf8_len(subject) > 998 || text::utf8_len(body) > 262_144
                || text::utf8_len(html) > 524_288;
            &&& !valid <==> failure == Some(RenderFailure::InvalidTemplate)
            &&& valid && !safe ==> failure == Some(RenderFailure::UnsafeVariable)
            &&& valid && safe && missing ==> failure == Some(RenderFailure::MissingVariable)
            &&& valid && safe && !missing && unexpected ==> failure == Some(
                RenderFailure::UnexpectedVariable,
            )
            &&& valid && safe && !missing && !unexpected && (blank || broken || long) ==> failure
                == Some(RenderFailure::UnsafeVariable)
            &&& valid && safe && !missing && !unexpected && !blank && !broken && !long ==> failure
                is None
        }),
{
    let used = render::definition_names(definition);
    let given = names::pairs_map(variables).dom();
    assert forall|x: Seq<char>| #[trigger] given.contains(x) <==> gives(variables, x) by {
        lemma_given(variables, x);
    }
    assert forall|x: Seq<char>| #[trigger] used.contains(x) <==> uses(definition, x) by {}
    let missing = exists|x: Seq<char>| #[trigger] uses(definition, x) && !gives(variables, x);
    let unexpected = exists|x: Seq<char>| #[trigger]
        gives(variables, x) && !uses(definition, x);
    if missing {
        let x = choose|x: Seq<char>| #[trigger] uses(definition, x) && !gives(variables, x);
        assert(used.contains(x) && !given.contains(x));
    } else {
        assert forall|x: Seq<char>| used.contains(x) implies given.contains(x) by {
            assert(uses(definition, x));
        }
        assert(used.subset_of(given));
    }
    if unexpected {
        let x = choose|x: Seq<char>| #[trigger] gives(variables, x) && !uses(definition, x);
        assert(given.contains(x) && !used.contains(x));
    }
    if !missing && !unexpected {
        assert forall|x: Seq<char>| given.contains(x) <==> used.contains(x) by {
            assert(given.contains(x) <==> gives(variables, x));
        }
        assert(given =~= used);
    }
}

/// What a message holds: the three sources rendered with the values, the names that they use, and
/// the digests of the sources and of the rendered texts.
pub proof fn law_message_holds_what_is_rendered(
    message: MessageView,
    definition: DefinitionView,
    variables: Seq<(String, String)>,
)
    requires
        render::is_message(message, definition, variables),
    ensures
        ({
            let values = names::pairs_map(variables);
            &&& message.subject == render::rendered(
                grammar::tree(definition.subject)->0,
                values,
                false,
            )
            &&& message.text == render::rendered(grammar::tree(definition.text)->0, values, false)
            &&& message.html == render::rendered(grammar::tree(definition.html)->0, values, true)
            &&& forall|x: Seq<char>| #[trigger]
                message.required_variables.contains(x) <==> uses(definition, x)
            &&& names::ascending(message.required_variables)
            &&& message.template_digest == render::digest_text(
                seq![definition.subject, definition.text, definition.html],
            )
            &&& message.content_digest == render::digest_text(
                seq![message.subject, message.text, message.html],
            )
        }),
{
    assert forall|x: Seq<char>| #[trigger] message.required_variables.contains(x) <==> uses(
        definition,
        x,
    ) by {
        assert(message.required_variables.to_set().contains(x)
            <==> message.required_variables.contains(x));
        assert(render::definition_names(definition).contains(x) <==> uses(definition, x));
    }
}

/// A definition can be stored if each source is not blank, no longer than allowed and without NUL,
/// the subject is one line, the HTML has no active content, each denotes a template, and together
/// they use between one and 64 names; and only then.
pub proof fn law_sources_that_can_be_stored(
    definition: DefinitionView,
    names_used: Set<Seq<char>>,
)
    requires
        forall|x: Seq<char>| #[trigger] names_used.contains(x) <==> uses(definition, x),
    ensures
        render::valid_definition(definition) <==> {
            &&& exists|i: int|
                0 <= i < definition.subject.len() && !text::whitespace(
                    #[trigger] definition.subject[i],
                )
            &&& exists|i: int|
                0 <= i < definition.text.len() && !text::whitespace(#[trigger] definition.text[i])
            &&& exists|i: int|
                0 <= i < definition.html.len() && !text::whitespace(#[trigger] definition.html[i])
            &&& vstd::utf8::encode_utf8(definition.subject).len() <= 998
            &&& vstd::utf8::encode_utf8(definition.text).len() <= 131_072
            &&& vstd::utf8::encode_utf8(definition.html).len() <= 262_144
            &&& forall|i: int|
                0 <= i < definition.subject.len() ==> {
                    let code = #[trigger] definition.subject[i] as int;
                    code != 0 && code != 10 && code != 13
                }
            &&& forall|i: int|
                0 <= i < definition.text.len() ==> #[trigger] definition.text[i] as int != 0
            &&& forall|i: int|
                0 <= i < definition.html.len() ==> #[trigger] definition.html[i] as int != 0
            &&& !render::active_content(definition.html)
            &&& grammar::tree(definition.subject) is Some
            &&& grammar::tree(definition.text) is Some
            &&& grammar::tree(definition.html) is Some
            &&& 1 <= names_used.len() <= 64
        },
{
    assert forall|x: Seq<char>| #[trigger]
        names_used.contains(x) <==> render::definition_names(definition).contains(x) by {
        assert(render::definition_names(definition).contains(x) <==> uses(definition, x));
    }
    assert(names_used =~= render::definition_names(definition));
    lemma_without(definition.subject, '\0');
    lemma_without(definition.subject, '\n');
    lemma_without(definition.subject, '\r');
    lemma_without(definition.text, '\0');
    lemma_without(definition.html, '\0');
    if forall|i: int|
        0 <= i < definition.subject.len() ==> {
            let code = #[trigger] definition.subject[i] as int;
            code != 0 && code != 10 && code != 13
        } {
        assert forall|i: int| 0 <= i < definition.subject.len() implies {
            let c = #[trigger] definition.subject[i];
            c as int != 0 && c as int != 10 && c as int != 13
        } by {
            let code = definition.subject[i] as int;
        }
    }
}

proof fn lemma_without(s: Seq<char>, c: char)
    ensures
        s.contains(c) <==> exists|i: int| 0 <= i < s.len() && #[trigger] s[i] as int == c as int,
{
    if s.contains(c) {
        let i = choose|i: int| 0 <= i < s.len() && s[i] == c;
        assert(s[i] as int == c as int);
    }
    if exists|i: int| 0 <= i < s.len() && #[trigger] s[i] as int == c as int {
        let i = choose|i: int| 0 <= i < s.len() && #[trigger] s[i] as int == c as int;
        assert(s[i] == c);
    }
}

/// Which variables can be rendered with: the name is one of a variable, the value has at most 4096
/// bytes and no control characters but tabs and line breaks, and if the name ends in `_url`, the
/// value is an address over HTTPS or one of the local host.
pub proof fn law_variables_that_can_be_rendered(name: Seq<char>, value: Seq<char>)
    ensures
        render::acceptable(name, value) <==> {
            &&& identifier::variable_name(name)
            &&& vstd::utf8::encode_utf8(value).len() <= 4_096
            &&& forall|i: int|
                0 <= i < value.len() ==> {
                    let code = #[trigger] value[i] as int;
                    ||| 32 <= code <= 126
                    ||| code >= 160
                    ||| code == 9
                    ||| code == 10
                    ||| code == 13
                }
            &&& name.len() >= 4 && name.skip(name.len() - 4) == seq!['_', 'u', 'r', 'l'] ==> {
                ||| value.len() >= 8 && value.take(8) == seq![
                    'h',
                    't',
                    't',
                    'p',
                    's',
                    ':',
                    '/',
                    '/',
                ]
                ||| render::local_address(value)
            }
        },
{
    reveal_strlit("_url");
    reveal_strlit("https://");
    assert("_url"@ =~= seq!['_', 'u', 'r', 'l']);
    assert("https://"@ =~= seq!['h', 't', 't', 'p', 's', ':', '/', '/']);
    if name.len() >= 4 {
        assert(name.skip(name.len() - 4) =~= name.subrange(name.len() - 4, name.len() as int));
    }
    if value.len() >= 8 {
        assert(value.take(8) =~= value.subrange(0, 8));
    }
    if forall|i: int|
        0 <= i < value.len() ==> {
            let code = #[trigger] value[i] as int;
            ||| 32 <= code <= 126
            ||| code >= 160
            ||| code == 9
            ||| code == 10
            ||| code == 13
        } {
        assert forall|i: int| 0 <= i < value.len() implies !render::forbidden_char(
            #[trigger] value[i],
        ) && value[i] != '\0' by {
            let code = value[i] as int;
        }
        assert(!value.contains('\0'));
    }
    if !value.contains('\0') && (forall|i: int|
        0 <= i < value.len() ==> !render::forbidden_char(#[trigger] value[i])) {
        assert forall|i: int| 0 <= i < value.len() implies {
            let code = #[trigger] value[i] as int;
            ||| 32 <= code <= 126
            ||| code >= 160
            ||| code == 9
            ||| code == 10
            ||| code == 13
        } by {
            assert(!render::forbidden_char(value[i]));
        }
    }
}

/// The host has ended: nothing follows, or a path, a query or a fragment.
pub open spec fn past_the_host(rest: Seq<char>) -> bool {
    rest.len() == 0 || rest[0] == '/' || rest[0] == '?' || rest[0] == '#'
}

/// Nothing, or a colon and digits.
pub open spec fn port(s: Seq<char>) -> bool {
    s.len() == 0 || s[0] == ':' && forall|i: int|
        1 <= i < s.len() ==> 48 <= #[trigger] s[i] as int <= 57
}

/// The addresses of the local host are `http://localhost`, a port if there is one, and what comes
/// past the host.
pub proof fn law_local_addresses(number: Seq<char>, rest: Seq<char>, s: Seq<char>)
    ensures
        port(number) && past_the_host(rest) ==> render::local_address(
            "http://localhost"@ + number + rest,
        ),
        render::local_address(s) ==> exists|p: Seq<char>, r: Seq<char>|
            #![trigger port(p), past_the_host(r)]
            port(p) && past_the_host(r) && s == "http://localhost"@ + p + r,
{
    let host = "http://localhost"@;
    let end = host.len() as int;
    if port(number) && past_the_host(rest) {
        let whole = host + number + rest;
        assert(whole.subrange(0, end) =~= host);
        if number.len() == 0 {
            assert(rest.len() > 0 ==> whole[end] == rest[0]);
            assert(render::host_ends(whole, end));
        } else {
            let k = end + number.len();
            assert(whole[end] == number[0]);
            assert forall|j: int| end < j < k implies text::ascii_digit(#[trigger] whole[j]) by {
                assert(whole[j] == number[j - end]);
            }
            assert(rest.len() > 0 ==> whole[k] == rest[0]);
            assert(render::port_ends(whole, end, k));
        }
    }
    if render::local_address(s) {
        assert(s.subrange(0, end) == host);
        if render::host_ends(s, end) {
            let p = Seq::<char>::empty();
            let r = s.skip(end);
            assert(s =~= host + p + r) by {
                assert(s =~= s.subrange(0, end) + s.skip(end));
            }
            assert(port(p) && past_the_host(r));
        } else {
            let k = choose|k: int| render::port_ends(s, end, k);
            let p = s.subrange(end, k);
            let r = s.skip(k);
            assert(s =~= s.subrange(0, end) + p + r);
            assert forall|i: int| 1 <= i < p.len() implies 48 <= #[trigger] p[i] as int
                <= 57 by {
                assert(text::ascii_digit(s[end + i]));
            }
            assert(port(p) && past_the_host(r));
        }
    }
}

/// The names that a definition requires are listed in ascending order: the list in that order of
/// all names that its sources use is the list of them.
pub proof fn law_required_names_are_those_used(
    definition: DefinitionView,
    list: Seq<Seq<char>>,
)
    requires
        forall|i: int, j: int|
            0 <= i < j < list.len() ==> names::precedes(#[trigger] list[i], #[trigger] list[j]),
        forall|x: Seq<char>| #[trigger] list.contains(x) <==> uses(definition, x),
    ensures
        render::required_names(definition) == list,
{
    assert forall|x: Seq<char>| #[trigger]
        list.to_set().contains(x) <==> render::definition_names(definition).contains(x) by {
        assert(list.contains(x) <==> uses(definition, x));
    }
    assert(list.to_set() =~= render::definition_names(definition));
    render::lemma_required_names(list, definition);
}

} // verus!
