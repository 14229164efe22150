//! What rendering promises of every message.
use vstd::prelude::*;
use vstd::utf8;

use crate::grammar;
use crate::grammar::Token;
use crate::html;
use crate::names;
use crate::render;
use crate::render::{DefinitionView, MessageView};
use crate::syntax;
use crate::syntax::{NodeView, Piece};
use crate::text;

verus! {

/// The characters that delimit HTML tags and attribute values.
pub open spec fn markup_char(c: char) -> bool {
    c == '<' || c == '>' || c == '"' || c == '\''
}

/// The markup characters of a text, in order.
pub open spec fn markup(s: Seq<char>) -> Seq<char>
    decreases s.len(),
{
    if s.len() == 0 {
        Seq::empty()
    } else if markup_char(s.last()) {
        markup(s.drop_last()).push(s.last())
    } else {
        markup(s.drop_last())
    }
}

/// What a tree comes to under some values, with nothing in the place of its variables.
pub open spec fn literal(nodes: Seq<NodeView>, values: Map<Seq<char>, Seq<char>>) -> Seq<char>
    decreases nodes,
{
    if nodes.len() == 0 {
        Seq::empty()
    } else {
        literal(nodes.drop_last(), values) + literal_node(nodes.last(), values)
    }
}

pub open spec fn literal_node(node: NodeView, values: Map<Seq<char>, Seq<char>>) -> Seq<char>
    decreases node,
{
    match node {
        NodeView::Text(value) => value,
        NodeView::Variable(name) => Seq::empty(),
        NodeView::Section { name, inverted, children } => if render::truthy(values, name)
            != inverted {
            literal(children, values)
        } else {
            Seq::empty()
        },
    }
}

proof fn lemma_markup_append(a: Seq<char>, b: Seq<char>)
    ensures
        markup(a + b) == markup(a) + markup(b),
    decreases b.len(),
{
    if b.len() == 0 {
        assert(a + b =~= a);
        assert(markup(a) + markup(b) =~= markup(a));
    } else {
        lemma_markup_append(a, b.drop_last());
        assert((a + b).drop_last() =~= a + b.drop_last());
        assert(markup(a + b) =~= markup(a) + markup(b));
    }
}

proof fn lemma_no_markup(s: Seq<char>)
    requires
        forall|i: int| 0 <= i < s.len() ==> !markup_char(#[trigger] s[i]),
    ensures
        markup(s) == Seq::<char>::empty(),
    decreases s.len(),
{
    if s.len() > 0 {
        let rest = s.drop_last();
        assert forall|i: int| 0 <= i < rest.len() implies !markup_char(#[trigger] rest[i]) by {
            assert(rest[i] == s[i]);
        }
        lemma_no_markup(rest);
        assert(!markup_char(s[s.len() - 1]));
    }
}

/// Escaped text holds no markup character.
pub proof fn law_escaped_text_has_no_markup(s: Seq<char>)
    ensures
        forall|i: int|
            0 <= i < render::escaped(s).len() ==> !markup_char(#[trigger] render::escaped(s)[i]),
    decreases s.len(),
{
    if s.len() > 0 {
        law_escaped_text_has_no_markup(s.drop_last());
        reveal_strlit("&amp;");
        reveal_strlit("&lt;");
        reveal_strlit("&gt;");
        reveal_strlit("&quot;");
        reveal_strlit("&#39;");
        let front = render::escaped(s.drop_last());
        let last = render::escaped_char(s.last());
        assert forall|i: int| 0 <= i < last.len() implies !markup_char(#[trigger] last[i]) by {}
        assert forall|i: int| 0 <= i < render::escaped(s).len() implies !markup_char(
            #[trigger] render::escaped(s)[i],
        ) by {
            if i < front.len() {
                assert(render::escaped(s)[i] == front[i]);
            } else {
                assert(render::escaped(s)[i] == last[i - front.len()]);
            }
        }
    }
}

/// Values add no markup to rendered HTML: its markup characters are those of the template's text.
pub proof fn law_values_add_no_markup(nodes: Seq<NodeView>, values: Map<Seq<char>, Seq<char>>)
    ensures
        markup(render::rendered(nodes, values, true)) == markup(literal(nodes, values)),
    decreases nodes,
{
    if nodes.len() > 0 {
        law_values_add_no_markup(nodes.drop_last(), values);
        lemma_node_adds_no_markup(nodes.last(), values);
        lemma_markup_append(
            render::rendered(nodes.drop_last(), values, true),
            render::rendered_node(nodes.last(), values, true),
        );
        lemma_markup_append(
            literal(nodes.drop_last(), values),
            literal_node(nodes.last(), values),
        );
    }
}

proof fn lemma_node_adds_no_markup(node: NodeView, values: Map<Seq<char>, Seq<char>>)
    ensures
        markup(render::rendered_node(node, values, true)) == markup(literal_node(node, values)),
    decreases node,
{
    match node {
        NodeView::Text(value) => {},
        NodeView::Variable(name) => {
            law_escaped_text_has_no_markup(values[name]);
            lemma_no_markup(render::escaped(values[name]));
        },
        NodeView::Section { name, inverted, children } => {
            law_values_add_no_markup(children, values);
        },
    }
}

/// The escaped form of the first character comes first.
proof fn lemma_escaped_front(s: Seq<char>)
    requires
        s.len() > 0,
    ensures
        render::escaped(s) == render::escaped_char(s[0]) + render::escaped(s.drop_first()),
    decreases s.len(),
{
    if s.len() == 1 {
        reveal_with_fuel(render::escaped, 2);
        assert(s.drop_last() =~= Seq::<char>::empty());
        assert(s.drop_first() =~= Seq::<char>::empty());
        assert(render::escaped(s) =~= render::escaped_char(s[0]) + render::escaped(s.drop_first()));
    } else {
        lemma_escaped_front(s.drop_last());
        assert(s.drop_last().drop_first() =~= s.drop_first().drop_last());
        assert(render::escaped(s) =~= render::escaped_char(s[0]) + render::escaped(s.drop_first()));
    }
}

/// Escaping loses nothing: different texts have different escaped forms.
pub proof fn law_escaping_is_injective(a: Seq<char>, b: Seq<char>)
    requires
        render::escaped(a) == render::escaped(b),
    ensures
        a == b,
    decreases a.len(),
{
    reveal_strlit("&amp;");
    reveal_strlit("&lt;");
    reveal_strlit("&gt;");
    reveal_strlit("&quot;");
    reveal_strlit("&#39;");
    if a.len() > 0 {
        lemma_escaped_front(a);
    }
    if b.len() > 0 {
        lemma_escaped_front(b);
    }
    if a.len() == 0 || b.len() == 0 {
        assert(a.len() > 0 ==> render::escaped_char(a[0]).len() > 0);
        assert(b.len() > 0 ==> render::escaped_char(b[0]).len() > 0);
        assert(a =~= b);
    } else {
        let whole = render::escaped(a);
        let x = render::escaped_char(a[0]);
        let y = render::escaped_char(b[0]);
        assert(whole[0] == x[0] && whole[0] == y[0]);
        if whole[0] == '&' {
            assert(whole[1] == x[1] && whole[1] == y[1]);
        }
        assert(a[0] == b[0]);
        assert(render::escaped(a.drop_first()) =~= whole.skip(x.len() as int));
        assert(render::escaped(b.drop_first()) =~= whole.skip(x.len() as int));
        law_escaping_is_injective(a.drop_first(), b.drop_first());
        assert(a =~= seq![a[0]] + a.drop_first());
        assert(b =~= seq![b[0]] + b.drop_first());
    }
}

/// A list that is acceptable stays so in another order.
proof fn lemma_reordered_is_acceptable(a: Seq<(String, String)>, b: Seq<(String, String)>)
    requires
        names::pair_texts(a).to_multiset() == names::pair_texts(b).to_multiset(),
        render::acceptable_all(a),
    ensures
        render::acceptable_all(b),
{
    let x = names::pair_texts(a);
    let y = names::pair_texts(b);
    assert(x.no_duplicates()) by {
        assert forall|i: int, j: int| 0 <= i < x.len() && 0 <= j < x.len() && i != j implies x[i]
            != x[j] by {
            if i < j {
                assert(a[i].0@ != a[j].0@);
            } else {
                assert(a[j].0@ != a[i].0@);
            }
        }
    }
    x.lemma_multiset_has_no_duplicates();
    y.lemma_multiset_has_no_duplicates_conv();
    assert forall|i: int| 0 <= i < b.len() implies render::acceptable(
        (#[trigger] b[i]).0@,
        b[i].1@,
    ) by {
        let p = lemma_pair_kept(b, a, i);
        assert(render::acceptable(a[p].0@, a[p].1@));
    }
    assert forall|i: int, j: int| 0 <= i < j < b.len() implies (#[trigger] b[i]).0@ != (
    #[trigger] b[j]).0@ by {
        let p = lemma_pair_kept(b, a, i);
        let q = lemma_pair_kept(b, a, j);
        assert(y[i] != y[j]);
        assert(x[p] != x[q]);
        if p < q {
            assert(a[p].0@ != a[q].0@);
        } else {
            assert(a[q].0@ != a[p].0@);
        }
    }
}

/// A pair of a list stands somewhere in the list in another order.
proof fn lemma_pair_kept(a: Seq<(String, String)>, b: Seq<(String, String)>, i: int) -> (j: int)
    requires
        names::pair_texts(a).to_multiset() == names::pair_texts(b).to_multiset(),
        0 <= i < a.len(),
    ensures
        0 <= j < b.len(),
        names::pair_texts(b)[j] == names::pair_texts(a)[i],
        b[j].0@ == a[i].0@,
        b[j].1@ == a[i].1@,
{
    let x = names::pair_texts(a);
    let y = names::pair_texts(b);
    x.to_multiset_ensures();
    y.to_multiset_ensures();
    assert(x.contains(x[i]));
    assert(y.to_multiset().count(x[i]) > 0);
    assert(y.contains(x[i]));
    choose|j: int| 0 <= j < y.len() && y[j] == x[i]
}

/// An acceptable list binds the same values in another order.
proof fn lemma_same_pairs(a: Seq<(String, String)>, b: Seq<(String, String)>)
    requires
        render::acceptable_all(a),
        render::acceptable_all(b),
        names::pair_texts(a).to_multiset() == names::pair_texts(b).to_multiset(),
    ensures
        names::pairs_map(a) == names::pairs_map(b),
{
    let m = names::pairs_map(a);
    let n = names::pairs_map(b);
    assert forall|x: Seq<char>|
        {
            &&& #[trigger] m.dom().contains(x) <==> n.dom().contains(x)
            &&& m.dom().contains(x) ==> m[x] == n[x]
        } by {
        if m.dom().contains(x) {
            lemma_pair_found(a, b, x);
        }
        if n.dom().contains(x) {
            lemma_pair_found(b, a, x);
        }
    }
    assert(m =~= n);
}

proof fn lemma_pair_found(a: Seq<(String, String)>, b: Seq<(String, String)>, x: Seq<char>)
    requires
        render::acceptable_all(a),
        render::acceptable_all(b),
        names::pair_texts(a).to_multiset() == names::pair_texts(b).to_multiset(),
        names::pairs_map(a).dom().contains(x),
    ensures
        names::pairs_map(b).dom().contains(x),
        names::pairs_map(b)[x] == names::pairs_map(a)[x],
{
    let i = names::lemma_bound_name(a, x);
    let j = lemma_pair_kept(a, b, i);
    names::lemma_pairs_map(a, i);
    names::lemma_pairs_map(b, j);
}

/// The order in which variables are given does not matter, neither for the message nor for why
/// there is none.
pub proof fn law_variable_order_is_irrelevant(
    definition: DefinitionView,
    a: Seq<(String, String)>,
    b: Seq<(String, String)>,
)
    requires
        names::pair_texts(a).to_multiset() == names::pair_texts(b).to_multiset(),
    ensures
        render::render_failure(definition, a) == render::render_failure(definition, b),
        render::render_failure(definition, a) is None ==> render::message_of(definition, a)
            == render::message_of(definition, b),
        render::render_failure(definition, a) is None ==> forall|message: MessageView|
            render::is_message(message, definition, a) == #[trigger] render::is_message(
                message,
                definition,
                b,
            ),
{
    if render::acceptable_all(a) {
        lemma_reordered_is_acceptable(a, b);
        lemma_same_pairs(a, b);
    }
    if render::acceptable_all(b) {
        lemma_reordered_is_acceptable(b, a);
    }
}

/// A definition and variables determine the message.
pub proof fn law_message_is_determined(
    definition: DefinitionView,
    variables: Seq<(String, String)>,
    a: MessageView,
    b: MessageView,
)
    requires
        render::is_message(a, definition, variables),
        render::is_message(b, definition, variables),
    ensures
        a == b,
{
    names::law_ascending_list_is_unique(a.required_variables, b.required_variables);
}

/// A message is rendered only from a valid definition, with values for exactly the names that it
/// uses, and only within the limits: its subject is one line, not blank.
pub proof fn law_rendered_message_is_exact_and_bounded(
    definition: DefinitionView,
    variables: Seq<(String, String)>,
    message: MessageView,
)
    requires
        render::render_failure(definition, variables) is None,
        render::is_message(message, definition, variables),
    ensures
        render::valid_definition(definition),
        names::pairs_map(variables).dom() == message.required_variables.to_set(),
        render::deliverable(message.subject, message.text, message.html),
{
}

/// Refused variables are refused whatever the template says: an unacceptable name or value, or a
/// name given twice, never leads to a message.
pub proof fn law_unacceptable_variables_render_nothing(
    definition: DefinitionView,
    variables: Seq<(String, String)>,
)
    requires
        !render::acceptable_all(variables),
    ensures
        render::render_failure(definition, variables) is Some,
{
}

/// A message is rendered only with web addresses that are secure or local: the value of every
/// variable whose name ends in `_url` begins with `https://`, or is an address of the host
/// `localhost`, which goes on after the host with nothing, a port, a path, a query or a fragment.
pub proof fn law_addresses_are_secure_or_local(
    definition: DefinitionView,
    variables: Seq<(String, String)>,
    i: int,
)
    requires
        render::render_failure(definition, variables) is None,
        0 <= i < variables.len(),
        text::ends_with(variables[i].0@, "_url"@),
    ensures
        text::starts_with(variables[i].1@, "https://"@) || render::local_address(variables[i].1@),
{
    assert(render::acceptable(variables[i].0@, variables[i].1@));
}

/// Active content in the HTML source fails closed: nothing is rendered from it.
pub proof fn law_active_content_renders_nothing(
    definition: DefinitionView,
    variables: Seq<(String, String)>,
)
    requires
        render::active_content(definition.html),
    ensures
        !render::valid_definition(definition),
        render::render_failure(definition, variables) == Some(
            syntax::RenderFailure::InvalidTemplate,
        ),
{
}

/// A literal that templates must not hold is found in whatever it stands.
pub proof fn law_active_literal_is_found_anywhere(
    before: Seq<char>,
    html: Seq<char>,
    after: Seq<char>,
)
    requires
        render::active_literal(text::lower_all(html)),
    ensures
        render::active_content(before + html + after),
{
    lemma_contains_part(before, html, after, "<script"@);
    lemma_contains_part(before, html, after, "</script"@);
    lemma_contains_part(before, html, after, "javascript:"@);
    lemma_contains_part(before, html, after, "data:text/html"@);
    lemma_contains_part(before, html, after, "<iframe"@);
    lemma_contains_part(before, html, after, "<object"@);
    lemma_contains_part(before, html, after, "<embed"@);
    lemma_contains_part(before, html, after, "<form"@);
    lemma_contains_part(before, html, after, " onload="@);
    lemma_contains_part(before, html, after, " onclick="@);
    lemma_contains_part(before, html, after, " onerror="@);
}

proof fn lemma_lower_parts(before: Seq<char>, html: Seq<char>, after: Seq<char>)
    ensures
        text::lower_all(before + html + after) == text::lower_all(before) + text::lower_all(html)
            + text::lower_all(after),
{
    assert(text::lower_all(before + html + after) =~= text::lower_all(before) + text::lower_all(
        html,
    ) + text::lower_all(after));
}

proof fn lemma_contains_part(
    before: Seq<char>,
    html: Seq<char>,
    after: Seq<char>,
    pattern: Seq<char>,
)
    ensures
        text::contains(text::lower_all(html), pattern) ==> text::contains(
            text::lower_all(before + html + after),
            pattern,
        ),
{
    let lower = text::lower_all(html);
    let whole = text::lower_all(before + html + after);
    if text::contains(lower, pattern) {
        let i = choose|i: int| text::occurs_at(lower, pattern, i);
        let at = before.len() + i;
        lemma_lower_parts(before, html, after);
        assert(whole.subrange(at, at + pattern.len()) =~= lower.subrange(i, i + pattern.len()));
        assert(text::occurs_at(whole, pattern, at));
    }
}

/// One of the literals that templates must not hold.
pub open spec fn forbidden_literal(pattern: Seq<char>) -> bool {
    ||| pattern == "<script"@
    ||| pattern == "</script"@
    ||| pattern == "javascript:"@
    ||| pattern == "data:text/html"@
    ||| pattern == "<iframe"@
    ||| pattern == "<object"@
    ||| pattern == "<embed"@
    ||| pattern == "<form"@
    ||| pattern == " onload="@
    ||| pattern == " onclick="@
    ||| pattern == " onerror="@
}

/// The name of a handler that templates must not give to a tag.
pub open spec fn forbidden_handler(name: Seq<char>) -> bool {
    name == "onload"@ || name == "onclick"@ || name == "onerror"@
}

/// HTML that holds a forbidden literal, in whatever mixture of cases, or gives a tag a forbidden
/// handler, is active content; other HTML is none.
pub proof fn law_what_is_active_content(html: Seq<char>)
    ensures
        render::active_content(html) <==> {
            ||| exists|pattern: Seq<char>| #[trigger]
                forbidden_literal(pattern) && text::contains(text::lower_all(html), pattern)
            ||| exists|name: Seq<char>| #[trigger]
                forbidden_handler(name) && html::has_attribute(text::lower_all(html), name)
        },
{
    let lower = text::lower_all(html);
    assert(forbidden_literal("<script"@));
    assert(forbidden_literal("</script"@));
    assert(forbidden_literal("javascript:"@));
    assert(forbidden_literal("data:text/html"@));
    assert(forbidden_literal("<iframe"@));
    assert(forbidden_literal("<object"@));
    assert(forbidden_literal("<embed"@));
    assert(forbidden_literal("<form"@));
    assert(forbidden_literal(" onload="@));
    assert(forbidden_literal(" onclick="@));
    assert(forbidden_literal(" onerror="@));
    assert(forbidden_handler("onload"@));
    assert(forbidden_handler("onclick"@));
    assert(forbidden_handler("onerror"@));
}

/// A forbidden literal is found in whatever it stands, and however it is written.
pub proof fn law_forbidden_literal_is_found(
    before: Seq<char>,
    written: Seq<char>,
    after: Seq<char>,
)
    requires
        forbidden_literal(text::lower_all(written)),
    ensures
        render::active_content(before + written + after),
{
    let pattern = text::lower_all(written);
    assert(pattern.subrange(0, pattern.len() as int) =~= pattern);
    assert(text::occurs_at(pattern, pattern, 0));
    lemma_contains_part(before, written, after, pattern);
    law_what_is_active_content(before + written + after);
}

/// Active content stays active content behind HTML that ends outside tags, whatever follows.
pub proof fn law_active_content_is_found_behind_text(
    before: Seq<char>,
    html: Seq<char>,
    after: Seq<char>,
)
    requires
        html::spot(text::lower_all(before), before.len() as int) is Text,
        render::active_content(html),
    ensures
        render::active_content(before + html + after),
{
    let (a, b, c) = (text::lower_all(before), text::lower_all(html), text::lower_all(after));
    lemma_lower_parts(before, html, after);
    if render::active_literal(b) {
        law_active_literal_is_found_anywhere(before, html, after);
    } else if html::has_attribute(b, "onload"@) {
        html::lemma_attribute_behind_text(a, b, c, "onload"@);
    } else if html::has_attribute(b, "onclick"@) {
        html::lemma_attribute_behind_text(a, b, c, "onclick"@);
    } else {
        html::lemma_attribute_behind_text(a, b, c, "onerror"@);
    }
}

/// Active content is told without regard to case.
pub proof fn law_case_hides_no_active_content(a: Seq<char>, b: Seq<char>)
    requires
        text::lower_all(a) == text::lower_all(b),
    ensures
        render::active_content(a) == render::active_content(b),
{
}

/// The encoding of a text without NUL holds no zero byte.
proof fn lemma_no_zero_byte(s: Seq<char>)
    requires
        !s.contains('\0'),
    ensures
        forall|i: int| 0 <= i < utf8::encode_utf8(s).len() ==> #[trigger] utf8::encode_utf8(s)[i]
            != 0,
    decreases s.len(),
{
    if s.len() > 0 {
        let rest = s.drop_first();
        assert(!rest.contains('\0')) by {
            if rest.contains('\0') {
                let k = choose|k: int| 0 <= k < rest.len() && rest[k] == '\0';
                assert(s[k + 1] == '\0');
            }
        }
        lemma_no_zero_byte(rest);
        let scalar = s[0] as u32;
        assert(s[0] != '\0');
        utf8::char_is_scalar(s[0]);
        if scalar == 0 {
            utf8::char_u32_cast('\0', scalar);
            utf8::char_u32_cast(s[0], scalar);
        }
        assert(scalar != 0);
        assert(scalar != 0 && scalar <= 0x7f ==> (scalar & 0x7f) as u8 != 0) by (bit_vector);
        assert(0xC0u8 | ((scalar >> 6) & 0x1F) as u8 != 0) by (bit_vector);
        assert(0xE0u8 | ((scalar >> 12) & 0x0F) as u8 != 0) by (bit_vector);
        assert(0xF0u8 | ((scalar >> 18) & 0x7) as u8 != 0) by (bit_vector);
        assert(0x80u8 | (scalar & 0x3F) as u8 != 0) by (bit_vector);
        assert(0x80u8 | ((scalar >> 6) & 0x3F) as u8 != 0) by (bit_vector);
        assert(0x80u8 | ((scalar >> 12) & 0x3F) as u8 != 0) by (bit_vector);
        let first = utf8::encode_scalar(scalar);
        assert(utf8::leading_byte_width_2(scalar) != 0);
        assert(utf8::leading_byte_width_3(scalar) != 0);
        assert(utf8::leading_byte_width_4(scalar) != 0);
        assert(utf8::last_continuation_byte(scalar) != 0);
        assert(utf8::second_last_continuation_byte(scalar) != 0);
        assert(utf8::third_last_continuation_byte(scalar) != 0);
        assert(utf8::has_width_1_encoding(scalar) ==> utf8::leading_byte_width_1(scalar) != 0);
        assert forall|i: int| 0 <= i < first.len() implies #[trigger] first[i] != 0 by {}
        let tail = utf8::encode_utf8(rest);
        assert forall|i: int| 0 <= i < utf8::encode_utf8(s).len() implies #[trigger] utf8::encode_utf8(s)[i]
            != 0 by {
            if i < first.len() {
                assert(utf8::encode_utf8(s)[i] == first[i]);
            } else {
                assert(utf8::encode_utf8(s)[i] == tail[i - first.len()]);
            }
        }
    }
}

/// What a digest covers is unambiguous: parts without NUL are covered by different bytes unless
/// they are the same parts.
pub proof fn law_digest_input_is_unambiguous(a: Seq<Seq<char>>, b: Seq<Seq<char>>)
    requires
        forall|i: int| 0 <= i < a.len() ==> !(#[trigger] a[i]).contains('\0'),
        forall|i: int| 0 <= i < b.len() ==> !(#[trigger] b[i]).contains('\0'),
        render::digest_input(a) == render::digest_input(b),
    ensures
        a == b,
    decreases a.len(),
{
    if a.len() == 0 || b.len() == 0 {
        assert(a.len() > 0 ==> render::digest_input(a).len() > 0);
        assert(b.len() > 0 ==> render::digest_input(b).len() > 0);
        assert(a =~= b);
    } else {
        let ra = a.drop_last();
        let rb = b.drop_last();
        let x = render::digest_input(ra);
        let y = render::digest_input(rb);
        let ea = utf8::encode_utf8(a.last());
        let eb = utf8::encode_utf8(b.last());
        assert(!a[a.len() - 1].contains('\0'));
        assert(!b[b.len() - 1].contains('\0'));
        lemma_no_zero_byte(a.last());
        lemma_no_zero_byte(b.last());
        let whole = x + ea;
        assert(whole =~= render::digest_input(a).drop_last());
        assert(y + eb =~= render::digest_input(b).drop_last());
        if ea.len() < eb.len() {
            assert(x.len() > 0);
            assert(x.last() == 0);
            assert(whole[x.len() - 1] == eb[x.len() - 1 - y.len()]);
        }
        if eb.len() < ea.len() {
            assert(y.len() > 0);
            assert(y.last() == 0);
            assert((y + eb)[y.len() - 1] == ea[y.len() - 1 - x.len()]);
        }
        assert(x =~= whole.take(x.len() as int));
        assert(y =~= whole.take(x.len() as int));
        assert(ea =~= whole.skip(x.len() as int));
        assert(eb =~= whole.skip(x.len() as int));
        utf8::encode_utf8_decode_utf8(a.last());
        utf8::encode_utf8_decode_utf8(b.last());
        assert forall|i: int| 0 <= i < ra.len() implies !(#[trigger] ra[i]).contains('\0') by {
            assert(ra[i] == a[i]);
        }
        assert forall|i: int| 0 <= i < rb.len() implies !(#[trigger] rb[i]).contains('\0') by {
            assert(rb[i] == b[i]);
        }
        law_digest_input_is_unambiguous(ra, rb);
        assert(a =~= ra.push(a.last()));
        assert(b =~= rb.push(b.last()));
    }
}

/// No text among the tokens holds a NUL.
spec fn texts_without_nul(tokens: Seq<Token>) -> bool {
    forall|k: int|
        0 <= k < tokens.len() ==> ((#[trigger] tokens[k]) matches Token::Text(value)
            ==> !value.contains('\0'))
}

proof fn lemma_texts_of_source(source: Seq<char>, offset: int)
    requires
        !source.contains('\0'),
        0 <= offset <= source.len(),
        grammar::tokens(source, offset) is Some,
    ensures
        texts_without_nul(grammar::tokens(source, offset)->0),
    decreases source.len() - offset,
{
    if offset < source.len() {
        syntax::lemma_next_piece(source, offset);
        match syntax::next_piece(source, offset) {
            Piece::Text => {
                lemma_text_token(source, offset, source.len() as int);
            },
            Piece::Unended => {},
            Piece::Tag { open, after, tag } => {
                lemma_text_token(source, offset, open);
                lemma_texts_of_source(source, after);
                let before = grammar::text_token(source, offset, open);
                let first = before.push(grammar::tag_token(tag)->0);
                let rest = grammar::tokens(source, after)->0;
                let all = grammar::tokens(source, offset)->0;
                assert(all == first + rest);
                assert forall|k: int| 0 <= k < all.len() implies ((#[trigger] all[k]) matches Token::Text(
                    value,
                ) ==> !value.contains('\0')) by {
                    if k < before.len() {
                        assert(all[k] == before[k]);
                    } else if k >= first.len() {
                        assert(all[k] == rest[k - first.len()]);
                    }
                }
            },
        }
    }
}

proof fn lemma_text_token(source: Seq<char>, from: int, to: int)
    requires
        !source.contains('\0'),
        0 <= from <= to <= source.len(),
    ensures
        texts_without_nul(grammar::text_token(source, from, to)),
{
    let value = source.subrange(from, to);
    if value.contains('\0') {
        let k = choose|k: int| 0 <= k < value.len() && value[k] == '\0';
        assert(source[from + k] == '\0');
    }
}

proof fn lemma_concat_without_nul(a: Seq<char>, b: Seq<char>)
    requires
        !a.contains('\0'),
        !b.contains('\0'),
    ensures
        !(a + b).contains('\0'),
{
    if (a + b).contains('\0') {
        let k = choose|k: int| 0 <= k < (a + b).len() && (a + b)[k] == '\0';
        if k < a.len() {
            assert(a[k] == '\0');
        } else {
            assert(b[k - a.len()] == '\0');
        }
    }
}

proof fn lemma_escaped_without_nul(s: Seq<char>)
    requires
        !s.contains('\0'),
    ensures
        !render::escaped(s).contains('\0'),
    decreases s.len(),
{
    if s.len() > 0 {
        let rest = s.drop_last();
        if rest.contains('\0') {
            let k = choose|k: int| 0 <= k < rest.len() && rest[k] == '\0';
            assert(s[k] == '\0');
        }
        assert(s[s.len() - 1] != '\0');
        lemma_escaped_without_nul(rest);
        reveal_strlit("&amp;");
        reveal_strlit("&lt;");
        reveal_strlit("&gt;");
        reveal_strlit("&quot;");
        reveal_strlit("&#39;");
        lemma_concat_without_nul(render::escaped(rest), render::escaped_char(s.last()));
    }
}

proof fn lemma_rendered_without_nul(
    nodes: Seq<NodeView>,
    values: Map<Seq<char>, Seq<char>>,
    html: bool,
)
    requires
        texts_without_nul(grammar::written(nodes)),
        render::renderable(nodes, values),
        forall|name: Seq<char>| #[trigger]
            values.dom().contains(name) ==> !values[name].contains('\0'),
    ensures
        !render::rendered(nodes, values, html).contains('\0'),
    decreases nodes,
{
    if nodes.len() > 0 {
        let rest = nodes.drop_last();
        let last = nodes.last();
        assert(nodes =~= rest + seq![last]);
        grammar::lemma_written_append(rest, seq![last]);
        grammar::lemma_written_one(last);
        let all = grammar::written(nodes);
        let before = grammar::written(rest);
        let own = grammar::written_node(last);
        assert(all == before + own);
        assert forall|k: int| 0 <= k < before.len() implies ((#[trigger] before[k]) matches Token::Text(
            value,
        ) ==> !value.contains('\0')) by {
            assert(all[k] == before[k]);
        }
        assert forall|k: int| 0 <= k < own.len() implies ((#[trigger] own[k]) matches Token::Text(
            value,
        ) ==> !value.contains('\0')) by {
            assert(all[before.len() + k] == own[k]);
        }
        lemma_rendered_without_nul(rest, values, html);
        lemma_rendered_node_without_nul(last, values, html);
        lemma_concat_without_nul(
            render::rendered(rest, values, html),
            render::rendered_node(last, values, html),
        );
    }
}

proof fn lemma_rendered_node_without_nul(
    node: NodeView,
    values: Map<Seq<char>, Seq<char>>,
    html: bool,
)
    requires
        texts_without_nul(grammar::written_node(node)),
        render::renderable_node(node, values),
        forall|name: Seq<char>| #[trigger]
            values.dom().contains(name) ==> !values[name].contains('\0'),
    ensures
        !render::rendered_node(node, values, html).contains('\0'),
    decreases node,
{
    match node {
        NodeView::Text(value) => {
            assert(grammar::written_node(node)[0] == Token::Text(value));
        },
        NodeView::Variable(name) => {
            assert(values.dom().contains(name));
            lemma_escaped_without_nul(values[name]);
        },
        NodeView::Section { name, inverted, children } => {
            if render::truthy(values, name) != inverted {
                let all = grammar::written_node(node);
                let inner = grammar::written(children);
                assert forall|k: int| 0 <= k < inner.len() implies ((#[trigger] inner[k]) matches Token::Text(
                    value,
                ) ==> !value.contains('\0')) by {
                    assert(all[k + 1] == inner[k]);
                }
                lemma_rendered_without_nul(children, values, html);
            }
        },
    }
}

proof fn lemma_source_rendered_without_nul(
    source: Seq<char>,
    values: Map<Seq<char>, Seq<char>>,
    html: bool,
)
    requires
        !source.contains('\0'),
        grammar::tree(source) is Some,
        syntax::names_of(grammar::tree(source)->0).subset_of(values.dom()),
        forall|name: Seq<char>| #[trigger]
            values.dom().contains(name) ==> !values[name].contains('\0'),
    ensures
        !render::rendered(grammar::tree(source)->0, values, html).contains('\0'),
{
    grammar::lemma_tree(source);
    lemma_texts_of_source(source, 0);
    render::lemma_renderable(grammar::tree(source)->0, values);
    lemma_rendered_without_nul(grammar::tree(source)->0, values, html);
}

/// A rendered message holds no NUL, nor does the definition that it was rendered from.
pub proof fn law_rendered_message_has_no_nul(
    definition: DefinitionView,
    variables: Seq<(String, String)>,
    message: MessageView,
)
    requires
        render::render_failure(definition, variables) is None,
        render::is_message(message, definition, variables),
    ensures
        !definition.subject.contains('\0'),
        !definition.text.contains('\0'),
        !definition.html.contains('\0'),
        !message.subject.contains('\0'),
        !message.text.contains('\0'),
        !message.html.contains('\0'),
{
    let values = names::pairs_map(variables);
    assert forall|name: Seq<char>| #[trigger] values.dom().contains(name) implies !values[name].contains(
    '\0') by {
        let k = names::lemma_bound_name(variables, name);
        names::lemma_pairs_map(variables, k);
        assert(render::acceptable(variables[k].0@, variables[k].1@));
    }
    lemma_source_rendered_without_nul(definition.subject, values, false);
    lemma_source_rendered_without_nul(definition.text, values, false);
    lemma_source_rendered_without_nul(definition.html, values, true);
}

/// The content digests of two rendered messages cover the same bytes only if subject, text and
/// HTML are the same; so do the digests of the definitions that they were rendered from.
pub proof fn law_digests_cover_the_whole_message(
    definition: DefinitionView,
    variables: Seq<(String, String)>,
    message: MessageView,
    other_definition: DefinitionView,
    other_variables: Seq<(String, String)>,
    other: MessageView,
)
    requires
        render::render_failure(definition, variables) is None,
        render::is_message(message, definition, variables),
        render::render_failure(other_definition, other_variables) is None,
        render::is_message(other, other_definition, other_variables),
    ensures
        render::digest_input(seq![message.subject, message.text, message.html])
            == render::digest_input(seq![other.subject, other.text, other.html]) ==> message.subject
            == other.subject && message.text == other.text && message.html == other.html,
        render::digest_input(seq![definition.subject, definition.text, definition.html])
            == render::digest_input(
            seq![other_definition.subject, other_definition.text, other_definition.html],
        ) ==> definition == other_definition,
{
    law_rendered_message_has_no_nul(definition, variables, message);
    law_rendered_message_has_no_nul(other_definition, other_variables, other);
    let a = seq![message.subject, message.text, message.html];
    let b = seq![other.subject, other.text, other.html];
    if render::digest_input(a) == render::digest_input(b) {
        law_digest_input_is_unambiguous(a, b);
        assert(a[0] == b[0] && a[1] == b[1] && a[2] == b[2]);
    }
    let c = seq![definition.subject, definition.text, definition.html];
    let d = seq![other_definition.subject, other_definition.text, other_definition.html];
    if render::digest_input(c) == render::digest_input(d) {
        law_digest_input_is_unambiguous(c, d);
        assert(c[0] == d[0] && c[1] == d[1] && c[2] == d[2]);
    }
}

/// How often a character stands in a text.
pub open spec fn occurrences(s: Seq<char>, c: char) -> nat
    decreases s.len(),
{
    if s.len() == 0 {
        0
    } else if s.last() == c {
        occurrences(s.drop_last(), c) + 1
    } else {
        occurrences(s.drop_last(), c)
    }
}

proof fn lemma_occurrences_append(a: Seq<char>, b: Seq<char>, c: char)
    ensures
        occurrences(a + b, c) == occurrences(a, c) + occurrences(b, c),
    decreases b.len(),
{
    if b.len() == 0 {
        assert(a + b =~= a);
    } else {
        lemma_occurrences_append(a, b.drop_last(), c);
        assert((a + b).drop_last() =~= a + b.drop_last());
        assert((a + b).last() == b.last());
    }
}

proof fn lemma_no_occurrence(s: Seq<char>, c: char)
    requires
        forall|i: int| 0 <= i < s.len() ==> #[trigger] s[i] != c,
    ensures
        occurrences(s, c) == 0,
    decreases s.len(),
{
    if s.len() > 0 {
        let rest = s.drop_last();
        assert forall|i: int| 0 <= i < rest.len() implies #[trigger] rest[i] != c by {
            assert(rest[i] == s[i]);
        }
        lemma_no_occurrence(rest, c);
        assert(s[s.len() - 1] != c);
    }
}

/// How often a character stands in the texts among some tokens.
spec fn in_texts(tokens: Seq<Token>, c: char) -> nat
    decreases tokens.len(),
{
    if tokens.len() == 0 {
        0
    } else {
        in_texts(tokens.drop_last(), c) + in_token(tokens.last(), c)
    }
}

spec fn in_token(token: Token, c: char) -> nat {
    match token {
        Token::Text(value) => occurrences(value, c),
        _ => 0,
    }
}

proof fn lemma_in_texts_append(a: Seq<Token>, b: Seq<Token>, c: char)
    ensures
        in_texts(a + b, c) == in_texts(a, c) + in_texts(b, c),
    decreases b.len(),
{
    if b.len() == 0 {
        assert(a + b =~= a);
    } else {
        lemma_in_texts_append(a, b.drop_last(), c);
        assert((a + b).drop_last() =~= a + b.drop_last());
        assert((a + b).last() == b.last());
    }
}

proof fn lemma_in_one(token: Token, c: char)
    ensures
        in_texts(seq![token], c) == in_token(token, c),
{
    reveal_with_fuel(in_texts, 2);
    assert(seq![token].drop_last() =~= Seq::<Token>::empty());
}

/// The texts of a source are parts of it that do not overlap.
proof fn lemma_texts_are_parts(source: Seq<char>, offset: int, c: char)
    requires
        0 <= offset <= source.len(),
        grammar::tokens(source, offset) is Some,
    ensures
        in_texts(grammar::tokens(source, offset)->0, c) <= occurrences(
            source.subrange(offset, source.len() as int),
            c,
        ),
    decreases source.len() - offset,
{
    let end = source.len() as int;
    if offset < end {
        syntax::lemma_next_piece(source, offset);
        match syntax::next_piece(source, offset) {
            Piece::Text => {
                lemma_in_one(Token::Text(source.subrange(offset, end)), c);
            },
            Piece::Unended => {},
            Piece::Tag { open, after, tag } => {
                lemma_texts_are_parts(source, after, c);
                let before = grammar::text_token(source, offset, open);
                let token = grammar::tag_token(tag)->0;
                let rest = grammar::tokens(source, after)->0;
                if offset < open {
                    lemma_in_one(Token::Text(source.subrange(offset, open)), c);
                } else {
                    assert(before =~= Seq::<Token>::empty());
                }
                assert(in_texts(before, c) <= occurrences(source.subrange(offset, open), c));
                assert(before.push(token).drop_last() =~= before);
                lemma_in_texts_append(before.push(token), rest, c);
                lemma_occurrences_append(
                    source.subrange(offset, open),
                    source.subrange(open, after),
                    c,
                );
                lemma_occurrences_append(
                    source.subrange(offset, open) + source.subrange(open, after),
                    source.subrange(after, end),
                    c,
                );
                assert(source.subrange(offset, end) =~= source.subrange(offset, open)
                    + source.subrange(open, after) + source.subrange(after, end));
            },
        }
    }
}

/// Rendered HTML holds a markup character at most as often as the texts of the tree do.
proof fn lemma_markup_of_texts(
    nodes: Seq<NodeView>,
    values: Map<Seq<char>, Seq<char>>,
    c: char,
)
    requires
        markup_char(c),
    ensures
        occurrences(render::rendered(nodes, values, true), c) <= in_texts(
            grammar::written(nodes),
            c,
        ),
    decreases nodes,
{
    if nodes.len() > 0 {
        let rest = nodes.drop_last();
        let last = nodes.last();
        assert(nodes =~= rest + seq![last]);
        grammar::lemma_written_append(rest, seq![last]);
        grammar::lemma_written_one(last);
        lemma_markup_of_texts(rest, values, c);
        lemma_markup_of_node(last, values, c);
        lemma_in_texts_append(grammar::written(rest), grammar::written_node(last), c);
        lemma_occurrences_append(
            render::rendered(rest, values, true),
            render::rendered_node(last, values, true),
            c,
        );
    }
}

proof fn lemma_markup_of_node(node: NodeView, values: Map<Seq<char>, Seq<char>>, c: char)
    requires
        markup_char(c),
    ensures
        occurrences(render::rendered_node(node, values, true), c) <= in_texts(
            grammar::written_node(node),
            c,
        ),
    decreases node,
{
    match node {
        NodeView::Text(value) => {
            lemma_in_one(Token::Text(value), c);
        },
        NodeView::Variable(name) => {
            law_escaped_text_has_no_markup(values[name]);
            lemma_no_occurrence(render::escaped(values[name]), c);
        },
        NodeView::Section { name, inverted, children } => {
            let open = Token::Open { name, inverted };
            let close = Token::Close(name);
            let inner = grammar::written(children);
            lemma_markup_of_texts(children, values, c);
            lemma_in_texts_append(seq![open], inner, c);
            lemma_in_texts_append(seq![open] + inner, seq![close], c);
        },
    }
}

/// Whatever the values are, the rendered HTML holds each markup character at most as often as the
/// HTML source does.
pub proof fn law_source_bounds_the_markup(
    source: Seq<char>,
    values: Map<Seq<char>, Seq<char>>,
    c: char,
)
    requires
        grammar::tree(source) is Some,
        markup_char(c),
    ensures
        occurrences(render::rendered(grammar::tree(source)->0, values, true), c) <= occurrences(
            source,
            c,
        ),
{
    let nodes = grammar::tree(source)->0;
    grammar::lemma_tree(source);
    lemma_texts_are_parts(source, 0, c);
    lemma_markup_of_texts(nodes, values, c);
    assert(source.subrange(0, source.len() as int) =~= source);
}

/// The HTML of a rendered message holds each markup character at most as often as the HTML source
/// of its definition does.
pub proof fn law_message_markup_is_bounded(
    definition: DefinitionView,
    variables: Seq<(String, String)>,
    message: MessageView,
    c: char,
)
    requires
        render::render_failure(definition, variables) is None,
        render::is_message(message, definition, variables),
        markup_char(c),
    ensures
        occurrences(message.html, c) <= occurrences(definition.html, c),
{
    law_source_bounds_the_markup(definition.html, names::pairs_map(variables), c);
}

} // verus!
