//! Template definitions and the messages rendered from them.
use vstd::prelude::*;
use vstd::utf8::encode_utf8;

use crate::grammar;
use crate::html;
use crate::identifier;
use crate::names;
use crate::names::{Bindings, NameSet};
use crate::number;
use crate::outside;
use crate::syntax;
use crate::syntax::{Node, NodeView, RenderFailure};
use crate::text;

verus! {

/// The renderer that messages are rendered by.
pub const RENDERER_IDENTITY: &'static str = "lenso.notification-template.renderer/safe-sections@1";

/// The sources of a notification's subject, plain text and HTML.
#[derive(Clone, Debug)]
pub struct TemplateDefinition {
    pub subject: String,
    pub text: String,
    pub html: String,
}

/// A [`TemplateDefinition`] by its texts.
pub struct DefinitionView {
    pub subject: Seq<char>,
    pub text: Seq<char>,
    pub html: Seq<char>,
}

impl View for TemplateDefinition {
    type V = DefinitionView;

    open spec fn view(&self) -> DefinitionView {
        DefinitionView { subject: self.subject@, text: self.text@, html: self.html@ }
    }
}

/// A rendered notification.
#[derive(Clone, Debug, PartialEq, Eq)]
pub struct RenderedMessage {
    pub subject: String,
    pub text: String,
    pub html: String,
    pub required_variables: Vec<String>,
    pub template_digest: String,
    pub content_digest: String,
}

/// A [`RenderedMessage`] by its texts.
pub struct MessageView {
    pub subject: Seq<char>,
    pub text: Seq<char>,
    pub html: Seq<char>,
    pub required_variables: Seq<Seq<char>>,
    pub template_digest: Seq<char>,
    pub content_digest: Seq<char>,
}

impl View for RenderedMessage {
    type V = MessageView;

    open spec fn view(&self) -> MessageView {
        MessageView {
            subject: self.subject@,
            text: self.text@,
            html: self.html@,
            required_variables: text::texts(self.required_variables@),
            template_digest: self.template_digest@,
            content_digest: self.content_digest@,
        }
    }
}

/// HTML in small letters that holds a literal that templates must not hold: the beginning of a tag
/// that runs code or embeds foreign content, an address that does, or a handler for loading,
/// clicking or errors, with a space before it and `=` right behind it.
pub open spec fn active_literal(lower: Seq<char>) -> bool {
    ||| text::contains(lower, "<script"@)
    ||| text::contains(lower, "</script"@)
    ||| text::contains(lower, "javascript:"@)
    ||| text::contains(lower, "data:text/html"@)
    ||| text::contains(lower, "<iframe"@)
    ||| text::contains(lower, "<object"@)
    ||| text::contains(lower, "<embed"@)
    ||| text::contains(lower, "<form"@)
    ||| text::contains(lower, " onload="@)
    ||| text::contains(lower, " onclick="@)
    ||| text::contains(lower, " onerror="@)
}

/// HTML in small letters that gives a tag a handler for loading, clicking or errors, however its
/// attributes are set apart.
pub open spec fn active_handler(lower: Seq<char>) -> bool {
    ||| html::has_attribute(lower, "onload"@)
    ||| html::has_attribute(lower, "onclick"@)
    ||| html::has_attribute(lower, "onerror"@)
}

/// HTML that templates must not hold, in any mixture of ASCII cases: one of the literals anywhere,
/// or a handler among the attributes of a tag.
pub open spec fn active_content(html: Seq<char>) -> bool {
    let lower = text::lower_all(html);
    active_literal(lower) || active_handler(lower)
}

/// The sources are within their limits: none is blank, too long or holds a NUL, the subject is one
/// line, and the HTML has no active content.
pub open spec fn admissible(definition: DefinitionView) -> bool {
    &&& !text::blank(definition.subject)
    &&& text::utf8_len(definition.subject) <= 998
    &&& !definition.subject.contains('\r')
    &&& !definition.subject.contains('\n')
    &&& !definition.subject.contains('\0')
    &&& !text::blank(definition.text)
    &&& text::utf8_len(definition.text) <= 131_072
    &&& !definition.text.contains('\0')
    &&& !text::blank(definition.html)
    &&& text::utf8_len(definition.html) <= 262_144
    &&& !definition.html.contains('\0')
    &&& !active_content(definition.html)
}

/// The names that a definition's three templates use.
pub open spec fn definition_names(definition: DefinitionView) -> Set<Seq<char>> {
    syntax::names_of(grammar::tree(definition.subject)->0).union(
        syntax::names_of(grammar::tree(definition.text)->0),
    ).union(syntax::names_of(grammar::tree(definition.html)->0))
}

/// A definition that can be stored and rendered: its sources are admissible, each denotes a
/// template, and together they use between one and 64 names.
pub open spec fn valid_definition(definition: DefinitionView) -> bool {
    &&& admissible(definition)
    &&& grammar::tree(definition.subject) is Some
    &&& grammar::tree(definition.text) is Some
    &&& grammar::tree(definition.html) is Some
    &&& 1 <= definition_names(definition).len() <= 64
}

/// The list is the definition's names in ascending order.
pub open spec fn lists_names(list: Seq<Seq<char>>, definition: DefinitionView) -> bool {
    names::ascending(list) && list.to_set() == definition_names(definition)
}

/// The definition's names in ascending order.
pub open spec fn required_names(definition: DefinitionView) -> Seq<Seq<char>> {
    choose|list: Seq<Seq<char>>| lists_names(list, definition)
}

/// Whatever lists the definition's names in ascending order is the list of them.
pub proof fn lemma_required_names(list: Seq<Seq<char>>, definition: DefinitionView)
    requires
        lists_names(list, definition),
    ensures
        list == required_names(definition),
{
    names::law_ascending_list_is_unique(list, required_names(definition));
}

/// Whether HTML holds active content.
pub fn unsafe_html_literal(value: &str) -> (res: bool)
    ensures
        res == active_content(value@),
{
    let chars = text::chars_of(value);
    let mut lower: Vec<char> = Vec::new();
    for i in 0..chars.len()
        invariant
            chars@ == value@,
            lower@ == text::lower_all(value@).take(i as int),
    {
        lower.push(text::to_lower(chars[i]));
        assert(lower@ =~= text::lower_all(value@).take(i + 1));
    }
    assert(lower@ =~= text::lower_all(value@));
    has_active_literal(lower.as_slice()) || has_active_handler(lower.as_slice())
}

/// Whether HTML in small letters holds one of the literals.
fn has_active_literal(lower: &[char]) -> (res: bool)
    ensures
        res == active_literal(lower@),
{
    text::has_pattern(lower, "<script") || text::has_pattern(lower, "</script")
        || text::has_pattern(lower, "javascript:") || text::has_pattern(lower, "data:text/html")
        || text::has_pattern(lower, "<iframe") || text::has_pattern(lower, "<object")
        || text::has_pattern(lower, "<embed") || text::has_pattern(lower, "<form")
        || text::has_pattern(lower, " onload=") || text::has_pattern(lower, " onclick=")
        || text::has_pattern(lower, " onerror=")
}

/// Whether HTML in small letters gives a tag one of the handlers.
fn has_active_handler(lower: &[char]) -> (res: bool)
    ensures
        res == active_handler(lower@),
{
    html::gives_attribute(lower, "onload") || html::gives_attribute(lower, "onclick")
        || html::gives_attribute(lower, "onerror")
}

/// Whether the sources are within their limits.
fn is_admissible(definition: &TemplateDefinition) -> (res: bool)
    ensures
        res == admissible(definition@),
{
    let subject = definition.subject.as_str();
    let body = definition.text.as_str();
    let html = definition.html.as_str();
    !(text::is_blank(subject) || text::byte_len(subject) > 998 || text::has_char(subject, '\r')
        || text::has_char(subject, '\n') || text::has_char(subject, '\0') || text::is_blank(body)
        || text::byte_len(body) > 131_072 || text::has_char(body, '\0') || text::is_blank(html)
        || text::byte_len(html) > 262_144 || text::has_char(html, '\0') || unsafe_html_literal(
        html,
    ))
}

/// Checks a definition and lists the names that it uses in ascending order.
pub fn validate_definition(definition: &TemplateDefinition) -> (res: Result<
    Vec<String>,
    RenderFailure,
>)
    ensures
        match res {
            Ok(required) => valid_definition(definition@) && lists_names(
                text::texts(required@),
                definition@,
            ),
            Err(failure) => !valid_definition(definition@) && failure
                == RenderFailure::InvalidTemplate,
        },
{
    if !is_admissible(definition) {
        return Err(RenderFailure::InvalidTemplate);
    }
    let mut required = NameSet::new();
    if let Err(failure) = syntax::parse(definition.subject.as_str(), &mut required) {
        return Err(failure);
    }
    if let Err(failure) = syntax::parse(definition.text.as_str(), &mut required) {
        return Err(failure);
    }
    if let Err(failure) = syntax::parse(definition.html.as_str(), &mut required) {
        return Err(failure);
    }
    assert(required@ =~= definition_names(definition@));
    let count: usize = required.len();
    if count == 0 || count > 64 {
        return Err(RenderFailure::InvalidTemplate);
    }
    Ok(required.into_names())
}

/// The bytes that a digest covers: each part followed by a zero byte.
pub open spec fn digest_input(parts: Seq<Seq<char>>) -> Seq<u8>
    decreases parts.len(),
{
    if parts.len() == 0 {
        Seq::empty()
    } else {
        (digest_input(parts.drop_last()) + encode_utf8(parts.last())).push(0)
    }
}

/// The digest of some parts: `sha256:` and the hash in hexadecimal.
pub open spec fn digest_text(parts: Seq<Seq<char>>) -> Seq<char> {
    "sha256:"@ + number::hex_text(outside::sha256(digest_input(parts)))
}

pub open spec fn definition_digest(definition: DefinitionView) -> Seq<char> {
    digest_text(seq![definition.subject, definition.text, definition.html])
}

/// The digest of some parts.
pub fn digest(parts: &[&str]) -> (res: String)
    ensures
        res@ == digest_text(Seq::new(parts@.len(), |i: int| parts@[i]@)),
        res@.len() == 71,
{
    let ghost texts = Seq::new(parts@.len(), |i: int| parts@[i]@);
    let mut input: Vec<u8> = Vec::new();
    for i in 0..parts.len()
        invariant
            texts == Seq::new(parts@.len(), |i: int| parts@[i]@),
            input@ == digest_input(texts.take(i as int)),
    {
        let bytes = parts[i].as_bytes();
        let ghost before = input@;
        for k in 0..bytes.len()
            invariant
                input@ == before + bytes@.take(k as int),
        {
            input.push(bytes[k]);
            assert(input@ =~= before + bytes@.take(k + 1));
        }
        assert(bytes@.take(bytes@.len() as int) =~= bytes@);
        input.push(0);
        assert(texts.take(i + 1).drop_last() =~= texts.take(i as int));
    }
    assert(texts.take(parts@.len() as int) =~= texts);
    let hash = outside::sha256_digest(input.as_slice());
    let mut out = "sha256:".to_owned();
    let encoded = number::hex_encode(hash.as_slice());
    out.append(encoded.as_str());
    proof {
        number::lemma_hex_len(hash@);
        reveal_strlit("sha256:");
    }
    out
}

/// The digest of a definition's sources.
pub fn template_digest(definition: &TemplateDefinition) -> (res: String)
    ensures
        res@ == definition_digest(definition@),
        res@.len() == 71,
{
    let parts: [&str; 3] = [
        definition.subject.as_str(),
        definition.text.as_str(),
        definition.html.as_str(),
    ];
    let res = digest(parts.as_slice());
    assert(Seq::new(parts@.len(), |i: int| parts@[i]@) =~= seq![
        definition@.subject,
        definition@.text,
        definition@.html,
    ]);
    res
}

/// A character as it stands in HTML text and attribute values.
pub open spec fn escaped_char(c: char) -> Seq<char> {
    if c == '&' {
        "&amp;"@
    } else if c == '<' {
        "&lt;"@
    } else if c == '>' {
        "&gt;"@
    } else if c == '"' {
        "&quot;"@
    } else if c == '\'' {
        "&#39;"@
    } else {
        seq![c]
    }
}

/// A text as it stands in HTML text and attribute values.
pub open spec fn escaped(s: Seq<char>) -> Seq<char>
    decreases s.len(),
{
    if s.len() == 0 {
        Seq::empty()
    } else {
        escaped(s.drop_last()) + escaped_char(s.last())
    }
}

/// Escapes a text for HTML.
pub fn escape_html(value: &str) -> (res: String)
    ensures
        res@ == escaped(value@),
{
    let chars = text::chars_of(value);
    let mut out = String::new();
    for i in 0..chars.len()
        invariant
            chars@ == value@,
            out@ == escaped(value@.take(i as int)),
    {
        assert(value@.take(i + 1).drop_last() =~= value@.take(i as int));
        let c: char = chars[i];
        if c == '&' {
            out.append("&amp;");
        } else if c == '<' {
            out.append("&lt;");
        } else if c == '>' {
            out.append("&gt;");
        } else if c == '"' {
            out.append("&quot;");
        } else if c == '\'' {
            out.append("&#39;");
        } else {
            out.push(c);
        }
        assert(out@ =~= escaped(value@.take(i + 1)));
    }
    assert(value@.take(value@.len() as int) =~= value@);
    out
}

/// A section's name counts as set when it has a value that is not blank.
pub open spec fn truthy(values: Map<Seq<char>, Seq<char>>, name: Seq<char>) -> bool {
    values.dom().contains(name) && !text::blank(values[name])
}

/// What a tree comes to under some values: text stands as it is; a variable becomes its value,
/// escaped in HTML; a section is kept when its name is set, an inverted one when it is not.
pub open spec fn rendered(
    nodes: Seq<NodeView>,
    values: Map<Seq<char>, Seq<char>>,
    html: bool,
) -> Seq<char>
    decreases nodes,
{
    if nodes.len() == 0 {
        Seq::empty()
    } else {
        rendered(nodes.drop_last(), values, html) + rendered_node(nodes.last(), values, html)
    }
}

pub open spec fn rendered_node(
    node: NodeView,
    values: Map<Seq<char>, Seq<char>>,
    html: bool,
) -> Seq<char>
    decreases node,
{
    match node {
        NodeView::Text(value) => value,
        NodeView::Variable(name) => if html {
            escaped(values[name])
        } else {
            values[name]
        },
        NodeView::Section { name, inverted, children } => if truthy(values, name) != inverted {
            rendered(children, values, html)
        } else {
            Seq::empty()
        },
    }
}

/// Every variable that is reached has a value.
pub open spec fn renderable(nodes: Seq<NodeView>, values: Map<Seq<char>, Seq<char>>) -> bool
    decreases nodes,
{
    nodes.len() == 0 || renderable(nodes.drop_last(), values) && renderable_node(
        nodes.last(),
        values,
    )
}

pub open spec fn renderable_node(node: NodeView, values: Map<Seq<char>, Seq<char>>) -> bool
    decreases node,
{
    match node {
        NodeView::Text(value) => true,
        NodeView::Variable(name) => values.dom().contains(name),
        NodeView::Section { name, inverted, children } => truthy(values, name) != inverted
            ==> renderable(children, values),
    }
}

/// Where all names of a tree have values, every variable that is reached has one.
pub proof fn lemma_renderable(nodes: Seq<NodeView>, values: Map<Seq<char>, Seq<char>>)
    requires
        syntax::names_of(nodes).subset_of(values.dom()),
    ensures
        renderable(nodes, values),
    decreases nodes,
{
    if nodes.len() > 0 {
        let rest = nodes.drop_last();
        let last = nodes.last();
        assert(syntax::names_of(nodes) == syntax::names_of(rest).union(syntax::node_names(last)));
        assert forall|x: Seq<char>| #[trigger] syntax::names_of(rest).contains(x) implies values.dom().contains(x) by {
            assert(syntax::names_of(nodes).contains(x));
        }
        lemma_renderable(rest, values);
        assert forall|x: Seq<char>| #[trigger] syntax::node_names(last).contains(x) implies values.dom().contains(x) by {
            assert(syntax::names_of(nodes).contains(x));
        }
        lemma_renderable_node(last, values);
    }
}

proof fn lemma_renderable_node(node: NodeView, values: Map<Seq<char>, Seq<char>>)
    requires
        syntax::node_names(node).subset_of(values.dom()),
    ensures
        renderable_node(node, values),
    decreases node,
{
    match node {
        NodeView::Text(value) => {},
        NodeView::Variable(name) => {
            assert(syntax::node_names(node).contains(name));
        },
        NodeView::Section { name, inverted, children } => {
            assert forall|x: Seq<char>| #[trigger] syntax::names_of(children).contains(x) implies values.dom().contains(x) by {
                assert(syntax::node_names(node).contains(x));
            }
            lemma_renderable(children, values);
        },
    }
}

/// Renders a tree under some values.
pub fn render_nodes(nodes: &Vec<Node>, values: &Bindings, html: bool) -> (res: String)
    requires
        renderable(syntax::nodes_view(nodes@), values@),
    ensures
        res@ == rendered(syntax::nodes_view(nodes@), values@, html),
    decreases nodes@,
{
    let mut output = String::new();
    let ghost views = syntax::nodes_view(nodes@);
    assert(views.take(views.len() as int) =~= views);
    for i in 0..nodes.len()
        invariant
            views == syntax::nodes_view(nodes@),
            renderable(views, values@),
            output@ == rendered(views.take(i as int), values@, html),
    {
        proof {
            lemma_renderable_prefix(views, values@, i + 1);
            assert(views.take(i + 1).drop_last() =~= views.take(i as int));
            assert(views.take(i + 1).last() == views[i as int]);
            assert(views[i as int] == syntax::node_view(nodes@[i as int]));
            assert(renderable_node(views[i as int], values@));
            assert(rendered(views.take(i + 1), values@, html) == rendered(
                views.take(i as int),
                values@,
                html,
            ) + rendered_node(views[i as int], values@, html));
        }
        match &nodes[i] {
            Node::Text(value) => {
                output.append(value.as_str());
            },
            Node::Variable(name) => {
                if let Some(value) = values.get(name.as_str()) {
                    if html {
                        let safe = escape_html(value.as_str());
                        output.append(safe.as_str());
                    } else {
                        output.append(value.as_str());
                    }
                }
            },
            Node::Section { name, inverted, children } => {
                let set: bool = match values.get(name.as_str()) {
                    Some(value) => !text::is_blank(value.as_str()),
                    None => false,
                };
                assert(views[i as int] == (NodeView::Section {
                    name: name@,
                    inverted: *inverted,
                    children: syntax::nodes_view(children@),
                }));
                if set != *inverted {
                    let body = render_nodes(children, values, html);
                    output.append(body.as_str());
                } else {
                    assert(output@ + Seq::<char>::empty() =~= output@);
                }
            },
        }
    }
    output
}

proof fn lemma_renderable_prefix(
    nodes: Seq<NodeView>,
    values: Map<Seq<char>, Seq<char>>,
    n: int,
)
    requires
        renderable(nodes, values),
        0 <= n <= nodes.len(),
    ensures
        renderable(nodes.take(n), values),
    decreases nodes.len(),
{
    if n == nodes.len() {
        assert(nodes.take(n) =~= nodes);
    } else {
        lemma_renderable_prefix(nodes.drop_last(), values, n);
        assert(nodes.drop_last().take(n) =~= nodes.take(n));
    }
}

/// A control character other than line feed, carriage return and tab.
pub open spec fn forbidden_char(c: char) -> bool {
    text::control(c) && c != '\n' && c != '\r' && c != '\t'
}

/// The host of an address ends at `i`: the address does, or goes on with a path, a query or a
/// fragment.
pub open spec fn host_ends(s: Seq<char>, i: int) -> bool {
    i == s.len() || 0 <= i < s.len() && (s[i] == '/' || s[i] == '?' || s[i] == '#')
}

/// From `i` on the address goes on with `:` and a port, which may be empty, up to `k`, where the
/// host ends.
pub open spec fn port_ends(s: Seq<char>, i: int, k: int) -> bool {
    &&& 0 <= i && i + 1 <= k <= s.len()
    &&& s[i] == ':'
    &&& forall|j: int| i < j < k ==> text::ascii_digit(#[trigger] s[j])
    &&& host_ends(s, k)
}

/// An address of the local host over plain HTTP, with or without a port.
pub open spec fn local_address(s: Seq<char>) -> bool {
    let end = "http://localhost"@.len() as int;
    &&& text::starts_with(s, "http://localhost"@)
    &&& host_ends(s, end) || exists|k: int| port_ends(s, end, k)
}

/// An address that a message may hold: one over HTTPS, or one of the local host.
pub open spec fn safe_address(s: Seq<char>) -> bool {
    text::starts_with(s, "https://"@) || local_address(s)
}

/// A name and value that a message may be rendered with: a variable's name, a value of at most
/// 4096 bytes without control characters other than line breaks and tabs, and for a name that ends
/// in `_url` an HTTPS address or one of the local host.
pub open spec fn acceptable(name: Seq<char>, value: Seq<char>) -> bool {
    &&& identifier::variable_name(name)
    &&& text::utf8_len(value) <= 4_096
    &&& !value.contains('\0')
    &&& forall|i: int| 0 <= i < value.len() ==> !forbidden_char(#[trigger] value[i])
    &&& text::ends_with(name, "_url"@) ==> safe_address(value)
}

/// All names and values are acceptable, and no name is given twice.
pub open spec fn acceptable_all(variables: Seq<(String, String)>) -> bool {
    &&& forall|i: int|
        0 <= i < variables.len() ==> acceptable((#[trigger] variables[i]).0@, variables[i].1@)
    &&& forall|i: int, j: int|
        0 <= i < j < variables.len() ==> (#[trigger] variables[i]).0@ != (#[trigger] variables[j]).0@
}

/// A rendered message is within its limits: the subject is one line, not blank, and none of the
/// three is too long.
pub open spec fn deliverable(subject: Seq<char>, body: Seq<char>, html: Seq<char>) -> bool {
    &&& !text::blank(subject)
    &&& text::utf8_len(subject) <= 998
    &&& !subject.contains('\r')
    &&& !subject.contains('\n')
    &&& text::utf8_len(body) <= 262_144
    &&& text::utf8_len(html) <= 524_288
}

/// The three texts of a definition under some values.
pub open spec fn rendered_texts(
    definition: DefinitionView,
    values: Map<Seq<char>, Seq<char>>,
) -> (Seq<char>, Seq<char>, Seq<char>) {
    (
        rendered(grammar::tree(definition.subject)->0, values, false),
        rendered(grammar::tree(definition.text)->0, values, false),
        rendered(grammar::tree(definition.html)->0, values, true),
    )
}

/// Why a message is not rendered, if it is not.
pub open spec fn render_failure(
    definition: DefinitionView,
    variables: Seq<(String, String)>,
) -> Option<RenderFailure> {
    let values = names::pairs_map(variables);
    let (subject, body, html) = rendered_texts(definition, values);
    if !valid_definition(definition) {
        Some(RenderFailure::InvalidTemplate)
    } else if !acceptable_all(variables) {
        Some(RenderFailure::UnsafeVariable)
    } else if !definition_names(definition).subset_of(values.dom()) {
        Some(RenderFailure::MissingVariable)
    } else if values.dom() != definition_names(definition) {
        Some(RenderFailure::UnexpectedVariable)
    } else if !deliverable(subject, body, html) {
        Some(RenderFailure::UnsafeVariable)
    } else {
        None
    }
}

/// The message is the definition rendered with the variables.
pub open spec fn is_message(
    message: MessageView,
    definition: DefinitionView,
    variables: Seq<(String, String)>,
) -> bool {
    let (subject, body, html) = rendered_texts(definition, names::pairs_map(variables));
    &&& message.subject == subject
    &&& message.text == body
    &&& message.html == html
    &&& lists_names(message.required_variables, definition)
    &&& message.template_digest == definition_digest(definition)
    &&& message.content_digest == digest_text(seq![subject, body, html])
}

/// The message that the definition is rendered to with the variables.
pub open spec fn message_of(
    definition: DefinitionView,
    variables: Seq<(String, String)>,
) -> MessageView {
    let (subject, body, html) = rendered_texts(definition, names::pairs_map(variables));
    MessageView {
        subject,
        text: body,
        html,
        required_variables: required_names(definition),
        template_digest: definition_digest(definition),
        content_digest: digest_text(seq![subject, body, html]),
    }
}

/// Whatever is the definition rendered with the variables is the message that it is rendered to.
pub proof fn lemma_message_of(
    message: MessageView,
    definition: DefinitionView,
    variables: Seq<(String, String)>,
)
    requires
        is_message(message, definition, variables),
    ensures
        message == message_of(definition, variables),
{
    lemma_required_names(message.required_variables, definition);
}

/// Whether the host of an address ends at `i`.
fn ends_host(chars: &[char], i: usize) -> (res: bool)
    requires
        i <= chars@.len(),
    ensures
        res == host_ends(chars@, i as int),
{
    if i == chars.len() {
        return true;
    }
    let c: char = chars[i];
    c == '/' || c == '?' || c == '#'
}

/// Whether a text is an address of the local host.
fn is_local_address(chars: &[char]) -> (res: bool)
    ensures
        res == local_address(chars@),
{
    let local = text::chars_of("http://localhost");
    if !text::stands_at(chars, local.as_slice(), 0) {
        return false;
    }
    let end: usize = local.len();
    let n: usize = chars.len();
    if ends_host(chars, end) {
        return true;
    }
    if chars[end] != ':' {
        return false;
    }
    let mut k: usize = end + 1;
    while k < n && '0' <= chars[k] && chars[k] <= '9'
        invariant
            n == chars@.len(),
            end < k <= n,
            forall|j: int| end < j < k ==> text::ascii_digit(#[trigger] chars@[j]),
        decreases n - k,
    {
        k = k + 1;
    }
    let res: bool = ends_host(chars, k);
    proof {
        if res {
            assert(port_ends(chars@, end as int, k as int));
        } else {
            assert forall|m: int| !port_ends(chars@, end as int, m) by {
                if port_ends(chars@, end as int, m) {
                    if m < k {
                        assert(text::ascii_digit(chars@[m]));
                    } else if k < m {
                        assert(text::ascii_digit(chars@[k as int]));
                    }
                }
            }
        }
    }
    res
}

/// Whether a name and value may be rendered with.
fn is_acceptable(name: &str, value: &str) -> (res: bool)
    ensures
        res == acceptable(name@, value@),
{
    if !identifier::valid_variable_name(name) || text::byte_len(value) > 4_096 || text::has_char(
        value,
        '\0',
    ) {
        return false;
    }
    let chars = text::chars_of(value);
    for i in 0..chars.len()
        invariant
            chars@ == value@,
            forall|j: int| 0 <= j < i ==> !forbidden_char(#[trigger] chars@[j]),
    {
        let c: char = chars[i];
        if text::is_control(c) && c != '\n' && c != '\r' && c != '\t' {
            return false;
        }
    }
    let name_chars = text::chars_of(name);
    let suffix = text::chars_of("_url");
    let is_url: bool = name_chars.len() >= suffix.len() && text::stands_at(
        name_chars.as_slice(),
        suffix.as_slice(),
        name_chars.len() - suffix.len(),
    );
    if is_url {
        let secure = text::chars_of("https://");
        text::stands_at(chars.as_slice(), secure.as_slice(), 0) || is_local_address(
            chars.as_slice(),
        )
    } else {
        true
    }
}

/// Binds the variables to their values, unless one is not acceptable or given twice.
fn bind_variables(variables: Vec<(String, String)>) -> (res: Result<Bindings, RenderFailure>)
    ensures
        match res {
            Ok(values) => acceptable_all(variables@) && values@ == names::pairs_map(variables@),
            Err(failure) => !acceptable_all(variables@) && failure
                == RenderFailure::UnsafeVariable,
        },
{
    let mut values = Bindings::new();
    assert(variables@.take(0) =~= Seq::<(String, String)>::empty());
    for i in 0..variables.len()
        invariant
            values@ == names::pairs_map(variables@.take(i as int)),
            forall|j: int|
                0 <= j < i ==> acceptable((#[trigger] variables@[j]).0@, variables@[j].1@),
            forall|j: int, k: int|
                0 <= j < k < i ==> (#[trigger] variables@[j]).0@ != (#[trigger] variables@[k]).0@,
    {
        let ghost before = variables@.take(i as int);
        assert(variables@.take(i + 1).drop_last() =~= before);
        if !is_acceptable(variables[i].0.as_str(), variables[i].1.as_str()) {
            return Err(RenderFailure::UnsafeVariable);
        }
        if values.get(variables[i].0.as_str()).is_some() {
            proof {
                let k = names::lemma_bound_name(before, variables@[i as int].0@);
                assert(variables@[k].0@ == variables@[i as int].0@);
            }
            return Err(RenderFailure::UnsafeVariable);
        }
        proof {
            assert forall|j: int, k: int| 0 <= j < k < i + 1 implies (#[trigger] variables@[j]).0@
                != (#[trigger] variables@[k]).0@ by {
                if k == i && variables@[j].0@ == variables@[k].0@ {
                    assert(before[j] == variables@[j]);
                    names::lemma_name_bound(before, j);
                }
            }
        }
        values.bind(variables[i].0.clone(), variables[i].1.clone());
    }
    assert(variables@.take(variables@.len() as int) =~= variables@);
    Ok(values)
}

/// Renders the tree of a source that denotes one.
fn render_source(source: &str, values: &Bindings, html: bool) -> (res: Result<
    String,
    RenderFailure,
>)
    requires
        grammar::tree(source@) matches Some(nodes) ==> renderable(nodes, values@),
    ensures
        match res {
            Ok(out) => grammar::tree(source@) is Some && out@ == rendered(
                grammar::tree(source@)->0,
                values@,
                html,
            ),
            Err(failure) => grammar::tree(source@) is None && failure
                == RenderFailure::InvalidTemplate,
        },
{
    let mut ignored = NameSet::new();
    match syntax::parse(source, &mut ignored) {
        Ok(nodes) => Ok(render_nodes(&nodes, values, html)),
        Err(failure) => Err(failure),
    }
}

/// Renders a definition with the values of exactly the variables that it uses.
pub fn render(definition: &TemplateDefinition, variables: Vec<(String, String)>) -> (res: Result<
    RenderedMessage,
    RenderFailure,
>)
    ensures
        match res {
            Ok(message) => render_failure(definition@, variables@) is None && is_message(
                message@,
                definition@,
                variables@,
            ) && message@.template_digest.len() == 71 && message@.content_digest.len() == 71,
            Err(failure) => render_failure(definition@, variables@) == Some(failure),
        },
{
    let required_variables = match validate_definition(definition) {
        Ok(required) => required,
        Err(failure) => {
            return Err(failure);
        },
    };
    let ghost required = definition_names(definition@);
    let ghost listed = text::texts(required_variables@);
    let values = match bind_variables(variables) {
        Ok(values) => values,
        Err(failure) => {
            return Err(failure);
        },
    };
    for i in 0..required_variables.len()
        invariant
            listed == text::texts(required_variables@),
            listed.to_set() == required,
            required == definition_names(definition@),
            valid_definition(definition@),
            acceptable_all(variables@),
            values@ == names::pairs_map(variables@),
            forall|j: int| 0 <= j < i ==> values@.dom().contains(#[trigger] listed[j]),
    {
        assert(listed[i as int] == required_variables@[i as int]@);
        if values.get(required_variables[i].as_str()).is_none() {
            assert(required.contains(listed[i as int]));
            return Err(RenderFailure::MissingVariable);
        }
    }
    assert(required.subset_of(values@.dom())) by {
        assert forall|x: Seq<char>| required.contains(x) implies values@.dom().contains(x) by {
            assert(listed.contains(x));
        }
    }
    let supplied_set = values.names();
    let supplied = supplied_set.into_names();
    let ghost given = text::texts(supplied@);
    for i in 0..supplied.len()
        invariant
            given == text::texts(supplied@),
            given.to_set() == values@.dom(),
            listed == text::texts(required_variables@),
            listed.to_set() == required,
            required == definition_names(definition@),
            required.subset_of(values@.dom()),
            valid_definition(definition@),
            acceptable_all(variables@),
            values@ == names::pairs_map(variables@),
            forall|j: int| 0 <= j < i ==> required.contains(#[trigger] given[j]),
    {
        assert(given[i as int] == supplied@[i as int]@);
        if !text::list_contains(&required_variables, supplied[i].as_str()) {
            proof {
                assert(!listed.contains(given[i as int]));
                assert(values@.dom().contains(given[i as int]));
                assert(!required.contains(given[i as int]));
            }
            return Err(RenderFailure::UnexpectedVariable);
        }
        assert(listed.to_set().contains(given[i as int]));
    }
    assert(values@.dom() =~= required) by {
        assert forall|x: Seq<char>| values@.dom().contains(x) implies required.contains(x) by {
            assert(given.contains(x));
        }
    }
    proof {
        assert(syntax::names_of(grammar::tree(definition@.subject)->0).subset_of(required));
        assert(syntax::names_of(grammar::tree(definition@.text)->0).subset_of(required));
        assert(syntax::names_of(grammar::tree(definition@.html)->0).subset_of(required));
        lemma_renderable(grammar::tree(definition@.subject)->0, values@);
        lemma_renderable(grammar::tree(definition@.text)->0, values@);
        lemma_renderable(grammar::tree(definition@.html)->0, values@);
    }
    let subject = match render_source(definition.subject.as_str(), &values, false) {
        Ok(out) => out,
        Err(failure) => {
            return Err(failure);
        },
    };
    let body = match render_source(definition.text.as_str(), &values, false) {
        Ok(out) => out,
        Err(failure) => {
            return Err(failure);
        },
    };
    let html = match render_source(definition.html.as_str(), &values, true) {
        Ok(out) => out,
        Err(failure) => {
            return Err(failure);
        },
    };
    if text::is_blank(subject.as_str()) || text::byte_len(subject.as_str()) > 998
        || text::has_char(subject.as_str(), '\r') || text::has_char(subject.as_str(), '\n')
        || text::byte_len(body.as_str()) > 262_144 || text::byte_len(html.as_str()) > 524_288 {
        return Err(RenderFailure::UnsafeVariable);
    }
    let template_digest = template_digest(definition);
    let parts: [&str; 3] = [subject.as_str(), body.as_str(), html.as_str()];
    let content_digest = digest(parts.as_slice());
    assert(Seq::new(parts@.len(), |i: int| parts@[i]@) =~= seq![subject@, body@, html@]);
    Ok(
        RenderedMessage {
            subject,
            text: body,
            html,
            required_variables,
            template_digest,
            content_digest,
        },
    )
}

/// What a digest covers: the bytes of every part, each part followed by a zero byte; and how it is
/// written: `sha256:` and the hash in hexadecimal.
pub proof fn law_digests_cover_their_parts(parts: Seq<Seq<char>>, part: Seq<char>)
    ensures
        digest_input(Seq::empty()) == Seq::<u8>::empty(),
        digest_input(parts.push(part)) == digest_input(parts) + encode_utf8(part) + seq![0u8],
        digest_text(parts) == seq!['s', 'h', 'a', '2', '5', '6', ':'] + number::hex_text(
            outside::sha256(digest_input(parts)),
        ),
        digest_text(parts).len() == 7 + 2 * outside::sha256(digest_input(parts)).len(),
{
    assert(parts.push(part).drop_last() =~= parts);
    assert(digest_input(parts.push(part)) =~= digest_input(parts) + encode_utf8(part) + seq![0u8]);
    reveal_strlit("sha256:");
    assert("sha256:"@ =~= seq!['s', 'h', 'a', '2', '5', '6', ':']);
    number::lemma_hex_len(outside::sha256(digest_input(parts)));
}

} // verus!
