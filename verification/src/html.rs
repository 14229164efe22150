//! Where attributes stand in HTML.
//!
//! HTML is read from its beginning, one character at a time, and every position has a [`Spot`].
//! Comments are read as any other text is: tags in them are tags.
use vstd::prelude::*;

use crate::text;

verus! {

/// What has been read before a position.
#[derive(Clone, Copy, Debug, PartialEq, Eq)]
pub enum Spot {
    /// Text outside tags.
    Text,
    /// `<` or `</`: a tag, if its name follows.
    Open,
    /// A part of a tag's name.
    Element,
    /// A tag up to a place where an attribute can begin.
    Tag,
    /// A part of an attribute's name.
    Name,
    /// An attribute's name and white space.
    Named,
    /// An attribute's name and `=`, but nothing of its value.
    Assigned,
    /// A part of a value without quotes.
    Value,
    /// A part of a value in quotes, and the quote that ends it.
    Quoted(char),
}

/// White space in HTML.
pub open spec fn space(c: char) -> bool {
    c == ' ' || c == '\t' || c == '\n' || c == '\r' || c == '\u{c}'
}

/// A tag's name begins with a letter, or with `{`, behind which a template puts what it begins with.
pub open spec fn begins_element(c: char) -> bool {
    text::ascii_alphabetic(c) || c == '{'
}

/// The spot behind a character.
pub open spec fn next_spot(spot: Spot, c: char) -> Spot {
    match spot {
        Spot::Text => if c == '<' {
            Spot::Open
        } else {
            Spot::Text
        },
        Spot::Open => if c == '<' || c == '/' {
            Spot::Open
        } else if begins_element(c) {
            Spot::Element
        } else {
            Spot::Text
        },
        Spot::Quoted(quote) => if c == quote {
            Spot::Tag
        } else {
            spot
        },
        _ => if c == '>' {
            Spot::Text
        } else {
            inside_tag(spot, c)
        },
    }
}

/// The spot behind a character that does not end the tag.
pub open spec fn inside_tag(spot: Spot, c: char) -> Spot {
    match spot {
        Spot::Element => if space(c) || c == '/' {
            Spot::Tag
        } else {
            Spot::Element
        },
        Spot::Tag => if space(c) || c == '/' {
            Spot::Tag
        } else {
            Spot::Name
        },
        Spot::Name | Spot::Named => if c == '=' {
            Spot::Assigned
        } else if c == '/' {
            Spot::Tag
        } else if space(c) {
            Spot::Named
        } else {
            Spot::Name
        },
        Spot::Assigned => if space(c) {
            Spot::Assigned
        } else if c == '"' || c == '\'' {
            Spot::Quoted(c)
        } else {
            Spot::Value
        },
        _ => if space(c) {
            Spot::Tag
        } else {
            Spot::Value
        },
    }
}

/// What has been read before position `i`.
pub open spec fn spot(html: Seq<char>, i: int) -> Spot
    decreases i,
{
    if i <= 0 {
        Spot::Text
    } else {
        next_spot(spot(html, i - 1), html[i - 1])
    }
}

/// An attribute's name can begin here.
pub open spec fn begins_attribute(spot: Spot) -> bool {
    spot is Tag || spot is Named
}

/// From `i` on there is white space, or none, and then `=` at `k`.
pub open spec fn assigned_at(html: Seq<char>, i: int, k: int) -> bool {
    &&& i <= k < html.len()
    &&& html[k] == '='
    &&& forall|j: int| i <= j < k ==> space(#[trigger] html[j])
}

/// What ends at `i` is given a value: `=` follows, with or without white space before it.
pub open spec fn assigned(html: Seq<char>, i: int) -> bool {
    exists|k: int| assigned_at(html, i, k)
}

/// The attribute `name` is given a value at position `i`.
pub open spec fn attribute_at(html: Seq<char>, name: Seq<char>, i: int) -> bool {
    &&& text::occurs_at(html, name, i)
    &&& begins_attribute(spot(html, i))
    &&& assigned(html, i + name.len())
}

/// The attribute `name` is given a value somewhere.
pub open spec fn has_attribute(html: Seq<char>, name: Seq<char>) -> bool {
    exists|i: int| attribute_at(html, name, i)
}

/// Whether a character is white space.
fn is_space(c: char) -> (res: bool)
    ensures
        res == space(c),
{
    c == ' ' || c == '\t' || c == '\n' || c == '\r' || c == '\u{c}'
}

/// The spot behind a character that does not end the tag.
fn step_in_tag(spot: Spot, c: char) -> (res: Spot)
    ensures
        res == inside_tag(spot, c),
{
    match spot {
        Spot::Element => if is_space(c) || c == '/' {
            Spot::Tag
        } else {
            Spot::Element
        },
        Spot::Tag => if is_space(c) || c == '/' {
            Spot::Tag
        } else {
            Spot::Name
        },
        Spot::Name | Spot::Named => if c == '=' {
            Spot::Assigned
        } else if c == '/' {
            Spot::Tag
        } else if is_space(c) {
            Spot::Named
        } else {
            Spot::Name
        },
        Spot::Assigned => if is_space(c) {
            Spot::Assigned
        } else if c == '"' || c == '\'' {
            Spot::Quoted(c)
        } else {
            Spot::Value
        },
        _ => if is_space(c) {
            Spot::Tag
        } else {
            Spot::Value
        },
    }
}

/// The spot behind a character.
fn step(spot: Spot, c: char) -> (res: Spot)
    ensures
        res == next_spot(spot, c),
{
    match spot {
        Spot::Text => if c == '<' {
            Spot::Open
        } else {
            Spot::Text
        },
        Spot::Open => if c == '<' || c == '/' {
            Spot::Open
        } else if text::is_ascii_alphabetic(c) || c == '{' {
            Spot::Element
        } else {
            Spot::Text
        },
        Spot::Quoted(quote) => if c == quote {
            Spot::Tag
        } else {
            spot
        },
        _ => if c == '>' {
            Spot::Text
        } else {
            step_in_tag(spot, c)
        },
    }
}

/// Whether there is white space, or none, and then `=` from `i` on.
fn is_assigned(html: &[char], i: usize) -> (res: bool)
    requires
        i <= html@.len(),
    ensures
        res == assigned(html@, i as int),
{
    let n: usize = html.len();
    let mut k: usize = i;
    while k < n
        invariant
            i <= k <= n,
            n == html@.len(),
            forall|j: int| i <= j < k ==> space(#[trigger] html@[j]),
        decreases n - k,
    {
        let c: char = html[k];
        if c == '=' {
            assert(assigned_at(html@, i as int, k as int));
            return true;
        }
        if !is_space(c) {
            assert forall|m: int| !assigned_at(html@, i as int, m) by {
                if assigned_at(html@, i as int, m) {
                    if m < k {
                        assert(space(html@[m]));
                    } else if k < m {
                        assert(space(html@[k as int]));
                    }
                }
            }
            return false;
        }
        k = k + 1;
    }
    assert forall|m: int| !assigned_at(html@, i as int, m) by {
        if assigned_at(html@, i as int, m) {
            assert(space(html@[m]));
        }
    }
    false
}

/// Whether the attribute `name` is given a value somewhere.
pub fn gives_attribute(html: &[char], name: &str) -> (res: bool)
    ensures
        res == has_attribute(html@, name@),
{
    let wanted = text::chars_of(name);
    let n: usize = html.len();
    let mut here: Spot = Spot::Text;
    for i in 0..n
        invariant
            n == html@.len(),
            wanted@ == name@,
            here == spot(html@, i as int),
            forall|j: int| 0 <= j < i ==> !attribute_at(html@, name@, j),
    {
        let begins: bool = match here {
            Spot::Tag | Spot::Named => true,
            _ => false,
        };
        if begins && text::stands_at(html, wanted.as_slice(), i) {
            let end: usize = i + wanted.len();
            if is_assigned(html, end) {
                assert(attribute_at(html@, name@, i as int));
                return true;
            }
        }
        assert(!attribute_at(html@, name@, i as int));
        here = step(here, html[i]);
    }
    assert forall|j: int| !attribute_at(html@, name@, j) by {
        if attribute_at(html@, name@, j) {
            let after = j + name@.len();
            let k = choose|k: int| assigned_at(html@, after, k);
            assert(assigned_at(html@, after, k));
        }
    }
    false
}

/// Reading HTML behind other HTML that ends outside tags is reading it alone.
pub proof fn lemma_spot_behind_text(before: Seq<char>, html: Seq<char>, after: Seq<char>, i: int)
    requires
        spot(before, before.len() as int) is Text,
        0 <= i <= html.len(),
    ensures
        spot(before + html + after, before.len() + i) == spot(html, i),
    decreases i,
{
    let whole = before + html + after;
    if i == 0 {
        lemma_spot_of_beginning(before, whole, before.len() as int);
    } else {
        lemma_spot_behind_text(before, html, after, i - 1);
        assert(whole[before.len() + i - 1] == html[i - 1]);
    }
}

/// What has been read before a position does not depend on what follows it.
proof fn lemma_spot_of_beginning(html: Seq<char>, whole: Seq<char>, i: int)
    requires
        0 <= i <= html.len() <= whole.len(),
        forall|j: int| 0 <= j < html.len() ==> html[j] == #[trigger] whole[j],
    ensures
        spot(html, i) == spot(whole, i),
    decreases i,
{
    if i > 0 {
        lemma_spot_of_beginning(html, whole, i - 1);
        assert(html[i - 1] == whole[i - 1]);
    }
}

/// An attribute that is given a value in HTML is given it there behind other HTML that ends
/// outside tags, whatever follows.
pub proof fn lemma_attribute_behind_text(
    before: Seq<char>,
    html: Seq<char>,
    after: Seq<char>,
    name: Seq<char>,
)
    requires
        spot(before, before.len() as int) is Text,
        has_attribute(html, name),
    ensures
        has_attribute(before + html + after, name),
{
    let whole = before + html + after;
    let n = before.len() as int;
    let i = choose|i: int| attribute_at(html, name, i);
    lemma_spot_behind_text(before, html, after, i);
    assert(whole.subrange(n + i, n + i + name.len()) =~= html.subrange(i, i + name.len()));
    let end = i + name.len();
    let k = choose|k: int| assigned_at(html, end, k);
    assert forall|j: int| n + end <= j < n + k implies space(#[trigger] whole[j]) by {
        assert(whole[j] == html[j - n]);
    }
    assert(whole[n + k] == html[k]);
    assert(assigned_at(whole, n + i + name.len(), n + k));
    assert(attribute_at(whole, name, n + i));
}

/// How HTML is read, from one character to the next. Text goes on up to `<`, behind which a letter,
/// or a brace, begins a tag. A tag's name ends with white space or `/`, behind which attributes can
/// begin. An attribute's name is followed by `=` and a value, in quotes of either kind or up to
/// white space. `>` ends the tag, but not inside quotes.
pub proof fn law_how_html_is_read(c: char, quote: char)
    ensures
        next_spot(Spot::Text, '<') is Open,
        c != '<' ==> next_spot(Spot::Text, c) is Text,
        next_spot(Spot::Open, '<') is Open,
        next_spot(Spot::Open, '/') is Open,
        97 <= c as int <= 122 || 65 <= c as int <= 90 || c == '{' ==> next_spot(
            Spot::Open,
            c,
        ) is Element,
        c != '<' && c != '/' && c != '{' && !(97 <= c as int <= 122) && !(65 <= c as int <= 90)
            ==> next_spot(Spot::Open, c) is Text,
        next_spot(Spot::Quoted(quote), quote) is Tag,
        c != quote ==> next_spot(Spot::Quoted(quote), c) == Spot::Quoted(quote),
        next_spot(Spot::Element, '>') is Text,
        next_spot(Spot::Tag, '>') is Text,
        next_spot(Spot::Name, '>') is Text,
        next_spot(Spot::Named, '>') is Text,
        next_spot(Spot::Assigned, '>') is Text,
        next_spot(Spot::Value, '>') is Text,
        next_spot(Spot::Element, '/') is Tag,
        next_spot(Spot::Tag, '/') is Tag,
        next_spot(Spot::Name, '/') is Tag,
        next_spot(Spot::Named, '/') is Tag,
        next_spot(Spot::Name, '=') is Assigned,
        next_spot(Spot::Named, '=') is Assigned,
        next_spot(Spot::Assigned, '"') == Spot::Quoted('"'),
        next_spot(Spot::Assigned, '\'') == Spot::Quoted('\''),
        space(c) <==> c as int == 32 || c as int == 9 || c as int == 10 || c as int == 13
            || c as int == 12,
        space(c) ==> {
            &&& next_spot(Spot::Element, c) is Tag
            &&& next_spot(Spot::Tag, c) is Tag
            &&& next_spot(Spot::Name, c) is Named
            &&& next_spot(Spot::Named, c) is Named
            &&& next_spot(Spot::Assigned, c) is Assigned
            &&& next_spot(Spot::Value, c) is Tag
        },
        !space(c) && c != '>' && c != '/' ==> {
            &&& next_spot(Spot::Element, c) is Element
            &&& next_spot(Spot::Tag, c) is Name
        },
        !space(c) && c != '>' && c != '/' && c != '=' ==> {
            &&& next_spot(Spot::Name, c) is Name
            &&& next_spot(Spot::Named, c) is Name
        },
        !space(c) && c != '>' && c != '"' && c != '\'' ==> next_spot(Spot::Assigned, c) is Value,
        !space(c) && c != '>' ==> next_spot(Spot::Value, c) is Value,
{
}

/// Where nothing changes the spot, it stays.
proof fn lemma_spot_stays(html: Seq<char>, from: int, to: int, here: Spot)
    requires
        0 <= from <= to <= html.len(),
        spot(html, from) == here,
        forall|i: int| from <= i < to ==> next_spot(here, #[trigger] html[i]) == here,
    ensures
        forall|j: int| from <= j <= to ==> spot(html, j) == here,
    decreases to - from,
{
    if from < to {
        assert(next_spot(here, html[from]) == here);
        assert(spot(html, from + 1) == next_spot(spot(html, from), html[from]));
        lemma_spot_stays(html, from + 1, to, here);
    }
}

/// Text without tags gives nothing an attribute.
pub proof fn law_text_has_no_attributes(html: Seq<char>, name: Seq<char>)
    requires
        !html.contains('<'),
    ensures
        !has_attribute(html, name),
{
    assert forall|i: int| 0 <= i < html.len() implies next_spot(
        Spot::Text,
        #[trigger] html[i],
    ) == Spot::Text by {
        assert(html.contains(html[i]));
    }
    lemma_spot_stays(html, 0, html.len() as int, Spot::Text);
    if has_attribute(html, name) {
        let i = choose|i: int| attribute_at(html, name, i);
        assert(spot(html, i) is Text);
    }
}

/// Characters that stand in names of tags and attributes.
pub open spec fn name_char(c: char) -> bool {
    !space(c) && c != '/' && c != '>' && c != '='
}

/// Text with one tag that has one attribute.
pub open spec fn one_attribute(
    before: Seq<char>,
    element: Seq<char>,
    gap: Seq<char>,
    name: Seq<char>,
    quote: char,
    value: Seq<char>,
    after: Seq<char>,
) -> Seq<char> {
    before.push('<') + element + gap + name.push('=').push(quote) + value.push(quote).push('>')
        + after
}

/// A tag with an attribute whose value is in quotes has that attribute and no other: whatever
/// stands in the value, or in the text around the tag, is none.
pub proof fn law_attributes_stand_in_tags(
    before: Seq<char>,
    element: Seq<char>,
    gap: Seq<char>,
    name: Seq<char>,
    quote: char,
    value: Seq<char>,
    after: Seq<char>,
    wanted: Seq<char>,
)
    requires
        !before.contains('<'),
        !after.contains('<'),
        element.len() > 0,
        text::ascii_alphabetic(element[0]),
        forall|i: int| 0 <= i < element.len() ==> name_char(#[trigger] element[i]),
        gap.len() > 0,
        forall|i: int| 0 <= i < gap.len() ==> space(#[trigger] gap[i]),
        name.len() > 0,
        forall|i: int| 0 <= i < name.len() ==> name_char(#[trigger] name[i]),
        quote == '"' || quote == '\'',
        !value.contains(quote),
        wanted.len() > 0,
        forall|i: int| 0 <= i < wanted.len() ==> name_char(#[trigger] wanted[i]),
    ensures
        has_attribute(one_attribute(before, element, gap, name, quote, value, after), wanted)
            <==> wanted == name,
{
    let html = one_attribute(before, element, gap, name, quote, value, after);
    let open = before.len() as int;
    let gap_at = open + 1 + element.len();
    let name_at = gap_at + gap.len();
    let equals = name_at + name.len();
    let end_quote = equals + 2 + value.len();
    lemma_one_attribute(before, element, gap, name, quote, value, after);
    lemma_spots_of_a_tag(html, open, gap_at, name_at, equals, end_quote, quote);
    if wanted == name {
        assert(html.subrange(name_at, name_at + name.len()) =~= name);
        assert(assigned_at(html, equals, equals));
        assert(attribute_at(html, name, name_at));
    }
    if has_attribute(html, wanted) {
        let i = choose|i: int| attribute_at(html, wanted, i);
        assert(html.subrange(i, i + wanted.len())[0] == html[i]);
        assert(name_char(wanted[0]));
        assert(begins_attribute(spot(html, i)));
        if gap_at < i < name_at {
            assert(space(html[i]));
        }
        assert(i == name_at);
        lemma_same_name(html, name_at, name, wanted);
    }
}

/// What stands where in text with one tag that has one attribute.
proof fn lemma_one_attribute(
    before: Seq<char>,
    element: Seq<char>,
    gap: Seq<char>,
    name: Seq<char>,
    quote: char,
    value: Seq<char>,
    after: Seq<char>,
)
    requires
        !before.contains('<'),
        !after.contains('<'),
        element.len() > 0,
        text::ascii_alphabetic(element[0]),
        forall|i: int| 0 <= i < element.len() ==> name_char(#[trigger] element[i]),
        forall|i: int| 0 <= i < gap.len() ==> space(#[trigger] gap[i]),
        forall|i: int| 0 <= i < name.len() ==> name_char(#[trigger] name[i]),
        !value.contains(quote),
    ensures
        ({
            let html = one_attribute(before, element, gap, name, quote, value, after);
            let open = before.len() as int;
            let gap_at = open + 1 + element.len();
            let name_at = gap_at + gap.len();
            let equals = name_at + name.len();
            let end_quote = equals + 2 + value.len();
            &&& html.len() == end_quote + 2 + after.len()
            &&& html[open] == '<'
            &&& html[equals] == '='
            &&& html[equals + 1] == quote
            &&& html[end_quote] == quote
            &&& html[end_quote + 1] == '>'
            &&& text::ascii_alphabetic(html[open + 1])
            &&& forall|i: int| 0 <= i < open ==> #[trigger] html[i] != '<'
            &&& forall|i: int| open < i < gap_at ==> name_char(#[trigger] html[i])
            &&& forall|i: int| gap_at <= i < name_at ==> space(#[trigger] html[i])
            &&& forall|i: int| name_at <= i < equals ==> name_char(#[trigger] html[i])
            &&& forall|i: int| equals + 2 <= i < end_quote ==> #[trigger] html[i] != quote
            &&& forall|i: int| end_quote + 2 <= i < html.len() ==> #[trigger] html[i] != '<'
            &&& forall|i: int| 0 <= i < name.len() ==> html[name_at + i] == #[trigger] name[i]
        }),
{
    let html = one_attribute(before, element, gap, name, quote, value, after);
    let open = before.len() as int;
    let gap_at = open + 1 + element.len();
    let name_at = gap_at + gap.len();
    let equals = name_at + name.len();
    let end_quote = equals + 2 + value.len();
    assert forall|i: int| 0 <= i < open implies #[trigger] html[i] != '<' by {
        assert(html[i] == before[i]);
        assert(before.contains(before[i]));
    }
    assert(html[open + 1] == element[0]);
    assert forall|i: int| open < i < gap_at implies name_char(#[trigger] html[i]) by {
        assert(html[i] == element[i - open - 1]);
    }
    assert forall|i: int| gap_at <= i < name_at implies space(#[trigger] html[i]) by {
        assert(html[i] == gap[i - gap_at]);
    }
    assert forall|i: int| name_at <= i < equals implies name_char(#[trigger] html[i]) by {
        assert(html[i] == name[i - name_at]);
    }
    assert forall|i: int| equals + 2 <= i < end_quote implies #[trigger] html[i] != quote by {
        assert(html[i] == value[i - equals - 2]);
        assert(value.contains(value[i - equals - 2]));
    }
    assert forall|i: int| end_quote + 2 <= i < html.len() implies #[trigger] html[i] != '<' by {
        assert(html[i] == after[i - end_quote - 2]);
        assert(after.contains(after[i - end_quote - 2]));
    }
}

/// Where an attribute can begin in text with one tag that has one attribute.
proof fn lemma_spots_of_a_tag(
    html: Seq<char>,
    open: int,
    gap_at: int,
    name_at: int,
    equals: int,
    end_quote: int,
    quote: char,
)
    requires
        0 <= open,
        open + 1 < gap_at < name_at < equals,
        equals + 2 <= end_quote,
        end_quote + 2 <= html.len(),
        html[open] == '<',
        html[equals] == '=',
        html[equals + 1] == quote,
        html[end_quote] == quote,
        html[end_quote + 1] == '>',
        quote == '"' || quote == '\'',
        text::ascii_alphabetic(html[open + 1]),
        forall|i: int| 0 <= i < open ==> #[trigger] html[i] != '<',
        forall|i: int| open < i < gap_at ==> name_char(#[trigger] html[i]),
        forall|i: int| gap_at <= i < name_at ==> space(#[trigger] html[i]),
        forall|i: int| name_at <= i < equals ==> name_char(#[trigger] html[i]),
        forall|i: int| equals + 2 <= i < end_quote ==> #[trigger] html[i] != quote,
        forall|i: int| end_quote + 2 <= i < html.len() ==> #[trigger] html[i] != '<',
    ensures
        spot(html, name_at) is Tag,
        forall|i: int|
            0 <= i < html.len() && begins_attribute(#[trigger] spot(html, i)) ==> gap_at < i
                <= name_at || i == end_quote + 1,
{
    let end = end_quote + 1;
    lemma_spot_stays(html, 0, open, Spot::Text);
    assert(spot(html, open) == Spot::Text);
    assert(spot(html, open + 1) == Spot::Open);
    assert(spot(html, open + 2) == Spot::Element);
    lemma_spot_stays(html, open + 2, gap_at, Spot::Element);
    assert(spot(html, gap_at) == Spot::Element);
    assert(spot(html, gap_at + 1) == Spot::Tag);
    lemma_spot_stays(html, gap_at + 1, name_at, Spot::Tag);
    assert(spot(html, name_at) == Spot::Tag);
    assert(spot(html, name_at + 1) == Spot::Name);
    lemma_spot_stays(html, name_at + 1, equals, Spot::Name);
    assert(spot(html, equals) == Spot::Name);
    assert(spot(html, equals + 1) == Spot::Assigned);
    assert(spot(html, equals + 2) == Spot::Quoted(quote));
    lemma_spot_stays(html, equals + 2, end_quote, Spot::Quoted(quote));
    assert(spot(html, end_quote) == Spot::Quoted(quote));
    assert(spot(html, end) == Spot::Tag);
    assert(spot(html, end + 1) == Spot::Text);
    lemma_spot_stays(html, end + 1, html.len() as int, Spot::Text);
}

/// Two names that are given a value at the same place are the same.
proof fn lemma_same_name(html: Seq<char>, at: int, a: Seq<char>, b: Seq<char>)
    requires
        0 <= at,
        at + a.len() < html.len(),
        html[at + a.len()] == '=',
        forall|i: int| 0 <= i < a.len() ==> html[at + i] == #[trigger] a[i],
        forall|i: int| 0 <= i < a.len() ==> name_char(#[trigger] a[i]),
        forall|i: int| 0 <= i < b.len() ==> name_char(#[trigger] b[i]),
        text::occurs_at(html, b, at),
        assigned(html, at + b.len()),
    ensures
        a == b,
{
    assert forall|i: int| 0 <= i < b.len() implies html[at + i] == #[trigger] b[i] by {
        assert(html.subrange(at, at + b.len())[i] == html[at + i]);
    }
    if b.len() > a.len() {
        assert(name_char(b[a.len() as int]));
        assert(html[at + a.len()] == b[a.len() as int]);
    }
    if b.len() < a.len() {
        let stop = at + b.len();
        let k = choose|k: int| assigned_at(html, stop, k);
        assert(html[at + b.len()] == a[b.len() as int]);
        assert(name_char(a[b.len() as int]));
        if k > at + b.len() {
            assert(space(html[at + b.len()]));
        }
    }
    assert forall|i: int| 0 <= i < a.len() implies a[i] == b[i] by {
        assert(html[at + i] == a[i]);
        assert(html[at + i] == b[i]);
    }
    assert(a =~= b);
}

/// An attribute is given a value where its name stands at a place where one can begin, with nothing
/// but white space between it and `=`; and nowhere else.
pub proof fn law_attributes_are_given_values(html: Seq<char>, name: Seq<char>, i: int, k: int)
    ensures
        0 <= i && i + name.len() <= k < html.len() && html.subrange(i, i + name.len()) == name && (
        spot(html, i) is Tag || spot(html, i) is Named) && html[k] == '=' && (forall|j: int|
            i + name.len() <= j < k ==> space(#[trigger] html[j])) ==> has_attribute(html, name),
        has_attribute(html, name) ==> exists|at: int| #[trigger]
            text::occurs_at(html, name, at) && (spot(html, at) is Tag || spot(html, at) is Named)
                && assigned(html, at + name.len()),
{
    if 0 <= i && i + name.len() <= k < html.len() && html.subrange(i, i + name.len()) == name && (
    spot(html, i) is Tag || spot(html, i) is Named) && html[k] == '=' && (forall|j: int|
        i + name.len() <= j < k ==> space(#[trigger] html[j])) {
        assert(assigned_at(html, i + name.len(), k));
        assert(attribute_at(html, name, i));
    }
    if has_attribute(html, name) {
        let at = choose|at: int| attribute_at(html, name, at);
        assert(text::occurs_at(html, name, at));
    }
}

} // verus!
