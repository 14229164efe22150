//! Template sources: text, variables `{{name}}`, sections `{{#name}}...{{/name}}` and inverted
//! sections `{{^name}}...{{/name}}`.
use vstd::prelude::*;

use crate::grammar;
use crate::identifier;
use crate::names::NameSet;
use crate::text;

verus! {

/// Why a template is refused or a message cannot be rendered.
#[derive(Clone, Copy, Debug, PartialEq, Eq, Structural)]
pub enum RenderFailure {
    InvalidTemplate,
    MissingVariable,
    UnexpectedVariable,
    UnsafeVariable,
}

/// The deepest nesting of sections.
pub const MAX_DEPTH: usize = 16;

/// One piece of a parsed template.
#[derive(Debug, PartialEq, Eq)]
pub enum Node {
    Text(String),
    Variable(String),
    Section { name: String, inverted: bool, children: Vec<Node> },
}

/// A [`Node`] by its texts.
pub enum NodeView {
    Text(Seq<char>),
    Variable(Seq<char>),
    Section { name: Seq<char>, inverted: bool, children: Seq<NodeView> },
}

pub open spec fn node_view(node: Node) -> NodeView
    decreases node,
{
    match node {
        Node::Text(value) => NodeView::Text(value@),
        Node::Variable(name) => NodeView::Variable(name@),
        Node::Section { name, inverted, children } => NodeView::Section {
            name: name@,
            inverted,
            children: nodes_view(children@),
        },
    }
}

/// A list of nodes by their texts.
pub open spec fn nodes_view(nodes: Seq<Node>) -> Seq<NodeView>
    decreases nodes,
{
    Seq::new(
        nodes.len(),
        |i: int|
            if 0 <= i < nodes.len() {
                node_view(nodes[i])
            } else {
                arbitrary()
            },
    )
}

impl View for Node {
    type V = NodeView;

    open spec fn view(&self) -> NodeView {
        node_view(*self)
    }
}

/// What the text between `{{` and `}}` says, once trimmed.
pub enum TagView {
    Close(Seq<char>),
    Open { name: Seq<char>, inverted: bool },
    Variable(Seq<char>),
    Invalid,
}

/// Reads a trimmed tag.
pub open spec fn tag(content: Seq<char>) -> TagView {
    if content.len() > 0 && content[0] == '/' {
        TagView::Close(content.skip(1))
    } else if content.len() > 0 && (content[0] == '#' || content[0] == '^') {
        if identifier::variable_name(content.skip(1)) {
            TagView::Open { name: content.skip(1), inverted: content[0] == '^' }
        } else {
            TagView::Invalid
        }
    } else if identifier::variable_name(content) {
        TagView::Variable(content)
    } else {
        TagView::Invalid
    }
}

/// The names that the variables and sections of a template use.
pub open spec fn node_names(node: NodeView) -> Set<Seq<char>>
    decreases node,
{
    match node {
        NodeView::Text(value) => Set::empty(),
        NodeView::Variable(name) => Set::empty().insert(name),
        NodeView::Section { name, inverted, children } => names_of(children).insert(name),
    }
}

pub open spec fn names_of(nodes: Seq<NodeView>) -> Set<Seq<char>>
    decreases nodes,
{
    if nodes.len() == 0 {
        Set::empty()
    } else {
        names_of(nodes.drop_last()).union(node_names(nodes.last()))
    }
}

/// What reading a source from some offset came to: the nodes, unless it failed; the offset at which
/// the reading stopped; and the names met on the way.
pub struct Reading {
    pub nodes: Option<Seq<NodeView>>,
    pub offset: int,
    pub names: Set<Seq<char>>,
}

pub open spec fn stopped(offset: int) -> Reading {
    Reading { nodes: None, offset, names: Set::empty() }
}

/// A reading with nodes in front of those read, and further names.
pub open spec fn preceded(nodes: Seq<NodeView>, names: Set<Seq<char>>, rest: Reading) -> Reading {
    Reading {
        nodes: match rest.nodes {
            Some(more) => Some(nodes + more),
            None => None,
        },
        offset: rest.offset,
        names: names.union(rest.names),
    }
}

/// The text before a tag, as a list of at most one node.
pub open spec fn text_before(source: Seq<char>, from: int, to: int) -> Seq<NodeView> {
    if from < to {
        seq![NodeView::Text(source.subrange(from, to))]
    } else {
        Seq::empty()
    }
}

pub open spec fn opening() -> Seq<char> {
    seq!['{', '{']
}

pub open spec fn closing_braces() -> Seq<char> {
    seq!['}', '}']
}

/// The next piece of a source: nothing but text up to the end, a tag that is never ended, or a tag.
pub enum Piece {
    Text,
    Unended,
    Tag { open: int, after: int, tag: TagView },
}

/// The piece that the source goes on with at `offset`: the first tag, which starts at `open` and
/// ends before `after`, if there is one.
pub open spec fn next_piece(source: Seq<char>, offset: int) -> Piece {
    match text::find(source, opening(), offset) {
        None => Piece::Text,
        Some(open) => match text::find(source, closing_braces(), open + 2) {
            None => Piece::Unended,
            Some(close) => Piece::Tag {
                open,
                after: close + 2,
                tag: tag(text::trim(source.subrange(open + 2, close))),
            },
        },
    }
}

/// A tag lies within the source, after `offset`.
pub proof fn lemma_next_piece(source: Seq<char>, offset: int)
    requires
        0 <= offset,
    ensures
        next_piece(source, offset) matches Piece::Tag { open, after, tag } ==> offset <= open
            && open + 4 <= after <= source.len(),
{
    text::lemma_find(source, opening(), offset);
    if let Some(open) = text::find(source, opening(), offset) {
        text::lemma_find(source, closing_braces(), open + 2);
    }
}

/// Reads the source from `offset` up to the end, or up to the tag that closes the section
/// `closing`, `depth` sections deep.
pub open spec fn reading(
    source: Seq<char>,
    offset: int,
    closing: Option<Seq<char>>,
    depth: int,
) -> Reading
    decreases source.len() - offset, 1int,
{
    if depth > MAX_DEPTH {
        stopped(offset)
    } else {
        reading_items(source, offset, closing, depth)
    }
}

pub open spec fn reading_items(
    source: Seq<char>,
    offset: int,
    closing: Option<Seq<char>>,
    depth: int,
) -> Reading
    decreases source.len() - offset, 0int,
{
    if offset < 0 || offset >= source.len() {
        if closing is Some {
            stopped(offset)
        } else {
            Reading { nodes: Some(Seq::empty()), offset, names: Set::empty() }
        }
    } else {
        proof {
            lemma_next_piece(source, offset);
        }
        match next_piece(source, offset) {
            Piece::Text => if closing is Some {
                stopped(offset)
            } else {
                Reading {
                    nodes: Some(text_before(source, offset, source.len() as int)),
                    offset: source.len() as int,
                    names: Set::empty(),
                }
            },
            Piece::Unended => stopped(offset),
            Piece::Tag { open, after, tag } => {
                let before = text_before(source, offset, open);
                match tag {
                    TagView::Close(name) => if closing == Some(name) && identifier::variable_name(
                        name,
                    ) {
                        Reading { nodes: Some(before), offset: after, names: Set::empty() }
                    } else {
                        stopped(after)
                    },
                    TagView::Open { name, inverted } => {
                        let inner = reading(source, after, Some(name), depth + 1);
                        let names = inner.names.insert(name);
                        match inner.nodes {
                            Some(children) if after <= inner.offset <= source.len() => preceded(
                                before.push(NodeView::Section { name, inverted, children }),
                                names,
                                reading_items(source, inner.offset, closing, depth),
                            ),
                            _ => Reading { nodes: None, offset: inner.offset, names },
                        }
                    },
                    TagView::Variable(name) => preceded(
                        before.push(NodeView::Variable(name)),
                        Set::empty().insert(name),
                        reading_items(source, after, closing, depth),
                    ),
                    TagView::Invalid => stopped(after),
                }
            },
        }
    }
}

/// A reading stops within the source, and not before it started.
pub proof fn lemma_reading_offset(
    source: Seq<char>,
    offset: int,
    closing: Option<Seq<char>>,
    depth: int,
)
    requires
        0 <= offset <= source.len(),
    ensures
        offset <= reading(source, offset, closing, depth).offset <= source.len(),
        offset <= reading_items(source, offset, closing, depth).offset <= source.len(),
    decreases source.len() - offset,
{
    if offset < source.len() {
        lemma_next_piece(source, offset);
        if let Piece::Tag { open, after, tag } = next_piece(source, offset) {
            match tag {
                TagView::Open { name, inverted } => {
                    lemma_reading_offset(source, after, Some(name), depth + 1);
                    let inner = reading(source, after, Some(name), depth + 1);
                    if inner.nodes is Some {
                        lemma_reading_offset(source, inner.offset, closing, depth);
                    }
                },
                TagView::Variable(name) => {
                    lemma_reading_offset(source, after, closing, depth);
                },
                _ => {},
            }
        }
    }
}

/// What precedes what precedes a reading.
proof fn lemma_preceded(
    first: Seq<NodeView>,
    first_names: Set<Seq<char>>,
    second: Seq<NodeView>,
    second_names: Set<Seq<char>>,
    rest: Reading,
)
    ensures
        preceded(first, first_names, preceded(second, second_names, rest)) == preceded(
            first + second,
            first_names.union(second_names),
            rest,
        ),
{
    assert(first_names.union(second_names.union(rest.names)) =~= first_names.union(
        second_names,
    ).union(rest.names));
    if let Some(more) = rest.nodes {
        assert(first + (second + more) =~= (first + second) + more);
    }
}

/// A tag as read.
enum Tag {
    Close(String),
    Open { name: String, inverted: bool },
    Variable(String),
    Invalid,
}

impl View for Tag {
    type V = TagView;

    closed spec fn view(&self) -> TagView {
        match *self {
            Tag::Close(name) => TagView::Close(name@),
            Tag::Open { name, inverted } => TagView::Open { name: name@, inverted },
            Tag::Variable(name) => TagView::Variable(name@),
            Tag::Invalid => TagView::Invalid,
        }
    }
}

/// Reads the tag between two offsets.
fn read_tag(source: &[char], lo: usize, hi: usize) -> (res: Tag)
    requires
        lo <= hi <= source@.len(),
    ensures
        res@ == tag(text::trim(source@.subrange(lo as int, hi as int))),
{
    let (a, b) = text::trim_bounds(source, lo, hi);
    let ghost content = source@.subrange(a as int, b as int);
    if a < b && source[a] == '/' {
        let name = text::string_of(source, a + 1, b);
        assert(content.skip(1) =~= name@);
        return Tag::Close(name);
    }
    if a < b && (source[a] == '#' || source[a] == '^') {
        let name = text::string_of(source, a + 1, b);
        assert(content.skip(1) =~= name@);
        if identifier::valid_variable_name(name.as_str()) {
            return Tag::Open { name, inverted: source[a] == '^' };
        }
        return Tag::Invalid;
    }
    let name = text::string_of(source, a, b);
    if identifier::valid_variable_name(name.as_str()) {
        Tag::Variable(name)
    } else {
        Tag::Invalid
    }
}

/// A [`Piece`] as read.
enum Found {
    Text,
    Unended,
    Tag { open: usize, after: usize, tag: Tag },
}

impl View for Found {
    type V = Piece;

    closed spec fn view(&self) -> Piece {
        match *self {
            Found::Text => Piece::Text,
            Found::Unended => Piece::Unended,
            Found::Tag { open, after, tag } => Piece::Tag {
                open: open as int,
                after: after as int,
                tag: tag@,
            },
        }
    }
}

/// Finds the piece that the source goes on with at an offset.
fn find_piece(source: &[char], offset: usize) -> (res: Found)
    requires
        offset <= source@.len(),
    ensures
        res@ == next_piece(source@, offset as int),
{
    let open_braces: [char; 2] = ['{', '{'];
    let close_braces: [char; 2] = ['}', '}'];
    assert(open_braces@ =~= opening());
    assert(close_braces@ =~= closing_braces());
    proof {
        text::lemma_find(source@, opening(), offset as int);
    }
    let length: usize = source.len();
    match text::find_from(source, open_braces.as_slice(), offset) {
        None => Found::Text,
        Some(open) => {
            assert(open + 2 <= length);
            proof {
                text::lemma_find(source@, closing_braces(), open + 2);
            }
            match text::find_from(source, close_braces.as_slice(), open + 2) {
                None => Found::Unended,
                Some(close) => {
                    assert(close + 2 <= length);
                    Found::Tag { open, after: close + 2, tag: read_tag(source, open + 2, close) }
                },
            }
        },
    }
}

pub open spec fn closing_view(closing: Option<&str>) -> Option<Seq<char>> {
    match closing {
        Some(name) => Some(name@),
        None => None,
    }
}

/// Whether `name` closes the section `closing`.
fn closes(closing: Option<&str>, name: &str) -> (res: bool)
    ensures
        res == (closing_view(closing) == Some(name@) && identifier::variable_name(name@)),
{
    match closing {
        Some(expected) => text::same_text(expected, name) && identifier::valid_variable_name(name),
        None => false,
    }
}

proof fn lemma_push_nodes(nodes: Seq<Node>, node: Node)
    ensures
        nodes_view(nodes.push(node)) == nodes_view(nodes).push(node@),
{
    assert(nodes_view(nodes.push(node)) =~= nodes_view(nodes).push(node@));
}

/// Appends the text between two offsets, if there is any.
fn push_text(nodes: &mut Vec<Node>, source: &[char], from: usize, to: usize)
    requires
        from <= to <= source@.len(),
    ensures
        nodes_view(final(nodes)@) == nodes_view(old(nodes)@) + text_before(
            source@,
            from as int,
            to as int,
        ),
{
    if from < to {
        let node = Node::Text(text::string_of(source, from, to));
        proof {
            lemma_push_nodes(nodes@, node);
        }
        nodes.push(node);
    }
    assert(nodes_view(nodes@) =~= nodes_view(old(nodes)@) + text_before(
        source@,
        from as int,
        to as int,
    ));
}

/// Reads the source from `offset` up to the end, or up to the tag that closes the section
/// `closing`, and adds the names met to `required`.
pub fn parse_until(
    source: &[char],
    offset: &mut usize,
    closing: Option<&str>,
    required: &mut NameSet,
    depth: usize,
) -> (res: Result<Vec<Node>, RenderFailure>)
    requires
        *old(offset) <= source@.len(),
        old(required).wf(),
    ensures
        final(required).wf(),
        ({
            let expected = reading(
                source@,
                *old(offset) as int,
                closing_view(closing),
                depth as int,
            );
            &&& *final(offset) == expected.offset
            &&& final(required)@ == old(required)@.union(expected.names)
            &&& match res {
                Ok(nodes) => expected.nodes == Some(nodes_view(nodes@)),
                Err(failure) => expected.nodes is None && failure
                    == RenderFailure::InvalidTemplate,
            }
        }),
    decreases source@.len() - *old(offset), 1int,
{
    let ghost start = *offset as int;
    let ghost wanted = closing_view(closing);
    let ghost seen = required@;
    if depth > MAX_DEPTH {
        assert(required@.union(Set::empty()) =~= required@);
        return Err(RenderFailure::InvalidTemplate);
    }
    let mut nodes: Vec<Node> = Vec::new();
    assert(nodes_view(nodes@) =~= Seq::<NodeView>::empty());
    let ghost mut names: Set<Seq<char>> = Set::empty();
    proof {
        let all = reading_items(source@, start, wanted, depth as int);
        assert(seen.union(names) =~= seen);
        assert(names.union(all.names) =~= all.names);
        if let Some(more) = all.nodes {
            assert(nodes_view(nodes@) + more =~= more);
        }
        assert(all == preceded(nodes_view(nodes@), names, all));
    }
    while *offset < source.len()
        invariant
            wanted == closing_view(closing),
            depth <= MAX_DEPTH,
            start <= *offset <= source@.len(),
            start == *old(offset),
            required.wf(),
            required@ == seen.union(names),
            reading(source@, start, wanted, depth as int) == preceded(
                nodes_view(nodes@),
                names,
                reading_items(source@, *offset as int, wanted, depth as int),
            ),
            seen == old(required)@,
        decreases source@.len() - *offset,
    {
        let from: usize = *offset;
        let ghost read = nodes_view(nodes@);
        proof {
            lemma_next_piece(source@, from as int);
            assert(names.union(Set::empty()) =~= names);
        }
        match find_piece(source, from) {
            Found::Text => {
                if closing.is_some() {
                    return Err(RenderFailure::InvalidTemplate);
                }
                push_text(&mut nodes, source, from, source.len());
                *offset = source.len();
                return Ok(nodes);
            },
            Found::Unended => {
                return Err(RenderFailure::InvalidTemplate);
            },
            Found::Tag { open, after, tag } => {
                let ghost before = text_before(source@, from as int, open as int);
                push_text(&mut nodes, source, from, open);
                *offset = after;
                match tag {
                    Tag::Close(name) => {
                        if closes(closing, name.as_str()) {
                            return Ok(nodes);
                        }
                        return Err(RenderFailure::InvalidTemplate);
                    },
                    Tag::Open { name, inverted } => {
                        let ghost inner = reading(source@, after as int, Some(name@), depth + 1);
                        let ghost more = inner.names.insert(name@);
                        proof {
                            lemma_reading_offset(source@, after as int, Some(name@), depth + 1);
                        }
                        required.insert(name.as_str());
                        match parse_until(
                            source,
                            offset,
                            Some(name.as_str()),
                            required,
                            depth + 1,
                        ) {
                            Ok(children) => {
                                let node = Node::Section { name, inverted, children };
                                proof {
                                    let rest = reading_items(
                                        source@,
                                        inner.offset,
                                        wanted,
                                        depth as int,
                                    );
                                    lemma_push_nodes(nodes@, node);
                                    lemma_preceded(read, names, before.push(node@), more, rest);
                                    assert(read + before.push(node@) =~= (read + before).push(
                                        node@,
                                    ));
                                    assert(required@ =~= seen.union(names.union(more)));
                                    names = names.union(more);
                                }
                                nodes.push(node);
                            },
                            Err(failure) => {
                                assert(required@ =~= seen.union(names.union(more)));
                                return Err(failure);
                            },
                        }
                    },
                    Tag::Variable(name) => {
                        required.insert(name.as_str());
                        let ghost more = Set::empty().insert(name@);
                        let node = Node::Variable(name);
                        proof {
                            let rest = reading_items(source@, after as int, wanted, depth as int);
                            lemma_push_nodes(nodes@, node);
                            lemma_preceded(read, names, before.push(node@), more, rest);
                            assert(read + before.push(node@) =~= (read + before).push(node@));
                            assert(required@ =~= seen.union(names.union(more)));
                            names = names.union(more);
                        }
                        nodes.push(node);
                    },
                    Tag::Invalid => {
                        return Err(RenderFailure::InvalidTemplate);
                    },
                }
            },
        }
    }
    proof {
        assert(names.union(Set::empty()) =~= names);
        assert(nodes_view(nodes@) + Seq::<NodeView>::empty() =~= nodes_view(nodes@));
    }
    if closing.is_some() {
        Err(RenderFailure::InvalidTemplate)
    } else {
        Ok(nodes)
    }
}

/// Reads a whole template source and adds the names met to `required`.
pub fn parse(source: &str, required: &mut NameSet) -> (res: Result<Vec<Node>, RenderFailure>)
    requires
        old(required).wf(),
    ensures
        final(required).wf(),
        final(required)@ == old(required)@.union(reading(source@, 0, None, 0).names),
        match res {
            Ok(nodes) => {
                &&& grammar::tree(source@) == Some(nodes_view(nodes@))
                &&& final(required)@ == old(required)@.union(names_of(nodes_view(nodes@)))
            },
            Err(failure) => grammar::tree(source@) is None && failure
                == RenderFailure::InvalidTemplate,
        },
{
    let chars = text::chars_of(source);
    let mut offset: usize = 0;
    proof {
        grammar::lemma_tree(source@);
    }
    parse_until(chars.as_slice(), &mut offset, None, required, 0)
}

} // verus!
