//! Well-formed names: variables, instances, identifiers, secret references and opaque subjects.
use vstd::prelude::*;

use crate::text;

verus! {

/// The largest number of instances in one caller list.
pub const MAX_CALLERS: usize = 64;

pub open spec fn variable_name_char(c: char) -> bool {
    text::ascii_lowercase(c) || text::ascii_digit(c) || c == '_'
}

/// A template variable's name: at most 64 small letters, digits and underscores, a letter first.
pub open spec fn variable_name(s: Seq<char>) -> bool {
    &&& s.len() > 0
    &&& text::ascii_lowercase(s[0])
    &&& text::utf8_len(s) <= 64
    &&& forall|i: int| 1 <= i < s.len() ==> variable_name_char(#[trigger] s[i])
}

pub open spec fn identifier_char(c: char) -> bool {
    text::ascii_alphanumeric(c) || c == '.' || c == '_' || c == '-' || c == ':'
}

/// A non-empty row of at most `maximum` letters, digits, dots, underscores, hyphens and colons.
pub open spec fn identifier(s: Seq<char>, maximum: nat) -> bool {
    &&& s.len() > 0
    &&& text::utf8_len(s) <= maximum
    &&& forall|i: int| 0 <= i < s.len() ==> identifier_char(#[trigger] s[i])
}

/// An instance key.
pub open spec fn instance(s: Seq<char>) -> bool {
    identifier(s, 256)
}

/// The key under which a command's receipt is kept.
pub open spec fn idempotency_key(s: Seq<char>) -> bool {
    identifier(s, 240)
}

/// A text of at most `maximum` bytes that is not blank and holds no control character.
pub open spec fn opaque_text(s: Seq<char>, maximum: nat) -> bool {
    &&& !text::blank(s)
    &&& text::utf8_len(s) <= maximum
    &&& !s.contains('\0')
    &&& forall|i: int| 0 <= i < s.len() ==> !text::control(#[trigger] s[i])
}

pub open spec fn secret_char(c: char) -> bool {
    text::ascii_alphanumeric(c) || c == '.' || c == '_' || c == '-' || c == '/'
}

/// A relative path of at most 256 bytes whose parts are neither empty nor `.` nor `..`.
pub open spec fn secret_reference(s: Seq<char>) -> bool {
    &&& s.len() > 0
    &&& text::utf8_len(s) <= 256
    &&& s.first() != '/'
    &&& s.last() != '/'
    &&& !text::contains(s, seq!['/', '/'])
    &&& forall|i: int|
        0 <= i < text::split(s, '/').len() ==> {
            &&& #[trigger] text::split(s, '/')[i] != seq!['.']
            &&& text::split(s, '/')[i] != seq!['.', '.']
        }
    &&& forall|i: int| 0 <= i < s.len() ==> secret_char(#[trigger] s[i])
}

/// No text stands in the list twice.
pub open spec fn distinct(list: Seq<Seq<char>>) -> bool {
    forall|i: int, j: int|
        0 <= i < list.len() && 0 <= j < list.len() && i != j ==> #[trigger] list[i]
            != #[trigger] list[j]
}

/// A caller list: one to [`MAX_CALLERS`] distinct instance keys.
pub open spec fn caller_list(list: Seq<Seq<char>>) -> bool {
    &&& 0 < list.len() <= MAX_CALLERS
    &&& forall|i: int| 0 <= i < list.len() ==> instance(#[trigger] list[i])
    &&& distinct(list)
}

/// Whether a text is a template variable's name.
pub fn valid_variable_name(value: &str) -> (res: bool)
    ensures
        res == variable_name(value@),
{
    let chars = text::chars_of(value);
    if chars.len() == 0 || !('a' <= chars[0] && chars[0] <= 'z') || text::byte_len(value) > 64 {
        return false;
    }
    for i in 1..chars.len()
        invariant
            chars@ == value@,
            forall|j: int| 1 <= j < i ==> variable_name_char(#[trigger] chars@[j]),
    {
        let c: char = chars[i];
        if !(('a' <= c && c <= 'z') || ('0' <= c && c <= '9') || c == '_') {
            return false;
        }
    }
    true
}

/// Whether a text is an identifier of at most `maximum` bytes.
pub fn valid_identifier(value: &str, maximum: usize) -> (res: bool)
    ensures
        res == identifier(value@, maximum as nat),
{
    let chars = text::chars_of(value);
    if chars.len() == 0 || text::byte_len(value) > maximum {
        return false;
    }
    for i in 0..chars.len()
        invariant
            chars@ == value@,
            forall|j: int| 0 <= j < i ==> identifier_char(#[trigger] chars@[j]),
    {
        let c: char = chars[i];
        if !(text::is_ascii_alphanumeric(c) || c == '.' || c == '_' || c == '-' || c == ':') {
            return false;
        }
    }
    true
}

/// Whether a text is an instance key.
pub fn valid_instance(value: &str) -> (res: bool)
    ensures
        res == instance(value@),
{
    valid_identifier(value, 256)
}

/// Whether a text can be the key of a command's receipt.
pub fn valid_idempotency_key(value: &str) -> (res: bool)
    ensures
        res == idempotency_key(value@),
{
    valid_identifier(value, 240)
}

/// Whether a text is an acceptable opaque subject of at most `maximum` bytes.
pub fn valid_opaque(value: &str, maximum: usize) -> (res: bool)
    ensures
        res == opaque_text(value@, maximum as nat),
{
    if text::is_blank(value) || text::byte_len(value) > maximum || text::has_char(value, '\0') {
        return false;
    }
    let chars = text::chars_of(value);
    for i in 0..chars.len()
        invariant
            chars@ == value@,
            forall|j: int| 0 <= j < i ==> !text::control(#[trigger] chars@[j]),
    {
        if text::is_control(chars[i]) {
            return false;
        }
    }
    true
}

/// Whether a text names a secret.
pub fn valid_secret_reference(value: &str) -> (res: bool)
    ensures
        res == secret_reference(value@),
{
    let chars = text::chars_of(value);
    if chars.len() == 0 || text::byte_len(value) > 256 || chars[0] == '/' || chars[chars.len() - 1]
        == '/' {
        return false;
    }
    proof {
        reveal_strlit("//");
        assert("//"@ =~= seq!['/', '/']);
    }
    if text::has_pattern(chars.as_slice(), "//") {
        return false;
    }
    let parts = text::split_chars(value, '/');
    let ghost expected = text::split(value@, '/');
    for i in 0..parts.len()
        invariant
            expected == text::split(value@, '/'),
            parts@.len() == expected.len(),
            forall|j: int| 0 <= j < parts@.len() ==> (#[trigger] parts@[j])@ == expected[j],
            forall|j: int|
                0 <= j < i ==> {
                    &&& #[trigger] expected[j] != seq!['.']
                    &&& expected[j] != seq!['.', '.']
                },
    {
        let part = &parts[i];
        assert(part@ == expected[i as int]);
        if part.len() == 1 && part[0] == '.' {
            assert(expected[i as int] =~= seq!['.']);
            return false;
        }
        if part.len() == 2 && part[0] == '.' && part[1] == '.' {
            assert(expected[i as int] =~= seq!['.', '.']);
            return false;
        }
        assert(expected[i as int] == seq!['.'] ==> part@[0] == '.');
        assert(expected[i as int] == seq!['.', '.'] ==> part@[0] == '.' && part@[1] == '.');
    }
    for i in 0..chars.len()
        invariant
            chars@ == value@,
            forall|j: int| 0 <= j < i ==> secret_char(#[trigger] chars@[j]),
    {
        let c: char = chars[i];
        if !(text::is_ascii_alphanumeric(c) || c == '.' || c == '_' || c == '-' || c == '/') {
            return false;
        }
    }
    true
}

/// Whether no string stands in the list twice.
pub fn all_distinct(list: &Vec<String>) -> (res: bool)
    ensures
        res == distinct(text::texts(list@)),
{
    let ghost texts = text::texts(list@);
    for i in 0..list.len()
        invariant
            texts == text::texts(list@),
            forall|p: int, q: int| 0 <= p < q < i ==> #[trigger] texts[p] != #[trigger] texts[q],
    {
        for k in 0..i
            invariant
                texts == text::texts(list@),
                i < list@.len(),
                forall|p: int| 0 <= p < k ==> #[trigger] texts[p] != texts[i as int],
        {
            if text::same_text(list[k].as_str(), list[i].as_str()) {
                assert(texts[k as int] == texts[i as int]);
                return false;
            }
        }
    }
    true
}

/// Whether a list is a caller list.
pub fn valid_callers(values: &Vec<String>) -> (res: bool)
    ensures
        res == caller_list(text::texts(values@)),
{
    if values.len() == 0 || values.len() > MAX_CALLERS {
        return false;
    }
    let ghost texts = text::texts(values@);
    for i in 0..values.len()
        invariant
            texts == text::texts(values@),
            forall|j: int| 0 <= j < i ==> instance(#[trigger] texts[j]),
    {
        assert(texts[i as int] == values@[i as int]@);
        if !valid_instance(values[i].as_str()) {
            return false;
        }
    }
    all_distinct(values)
}

/// A letter, a digit, a dot, an underscore or a hyphen, by its number.
pub open spec fn plain_code(code: int) -> bool {
    ||| 48 <= code <= 57
    ||| 65 <= code <= 90
    ||| 97 <= code <= 122
    ||| code == 45
    ||| code == 46
    ||| code == 95
}

/// Identifiers, instance keys and the keys of receipts are rows of letters, digits, dots,
/// underscores, hyphens and colons, not empty and no longer than allowed; and all such rows are.
pub proof fn law_identifiers_are_rows_of_plain_characters(s: Seq<char>, maximum: nat)
    ensures
        identifier(s, maximum) <==> {
            &&& 1 <= s.len() <= maximum
            &&& forall|i: int|
                0 <= i < s.len() ==> plain_code(#[trigger] s[i] as int) || s[i] as int == 58
        },
        instance(s) <==> identifier(s, 256),
        idempotency_key(s) <==> identifier(s, 240),
{
    if forall|i: int|
        0 <= i < s.len() ==> plain_code(#[trigger] s[i] as int) || s[i] as int == 58 {
        assert forall|i: int| 0 <= i < s.len() implies identifier_char(#[trigger] s[i]) && '\0'
            <= s[i] <= '\u{7f}' by {
            assert(plain_code(s[i] as int) || s[i] as int == 58);
        }
        vstd::utf8::is_ascii_chars_encode_utf8(s);
    }
    if forall|i: int| 0 <= i < s.len() ==> identifier_char(#[trigger] s[i]) {
        assert forall|i: int| 0 <= i < s.len() implies (plain_code(#[trigger] s[i] as int)
            || s[i] as int == 58) && '\0' <= s[i] <= '\u{7f}' by {
            assert(identifier_char(s[i]));
        }
        vstd::utf8::is_ascii_chars_encode_utf8(s);
    }
}

/// A variable's name is one to 64 small letters, digits and underscores, a letter first; and all
/// such rows are.
pub proof fn law_variable_names(s: Seq<char>)
    ensures
        variable_name(s) <==> {
            &&& 1 <= s.len() <= 64
            &&& 97 <= s[0] as int <= 122
            &&& forall|i: int|
                0 <= i < s.len() ==> {
                    let code = #[trigger] s[i] as int;
                    97 <= code <= 122 || 48 <= code <= 57 || code == 95
                }
        },
{
    if s.len() > 0 && forall|i: int|
        0 <= i < s.len() ==> {
            let code = #[trigger] s[i] as int;
            97 <= code <= 122 || 48 <= code <= 57 || code == 95
        } {
        assert forall|i: int| 0 <= i < s.len() implies variable_name_char(#[trigger] s[i]) && '\0'
            <= s[i] <= '\u{7f}' by {
            let code = s[i] as int;
        }
        vstd::utf8::is_ascii_chars_encode_utf8(s);
    }
    if s.len() > 0 && text::ascii_lowercase(s[0]) && forall|i: int|
        1 <= i < s.len() ==> variable_name_char(#[trigger] s[i]) {
        assert forall|i: int| 0 <= i < s.len() implies {
            let code = #[trigger] s[i] as int;
            97 <= code <= 122 || 48 <= code <= 57 || code == 95
        } by {
            assert(i > 0 ==> variable_name_char(s[i]));
        }
        assert forall|i: int| 0 <= i < s.len() implies '\0' <= #[trigger] s[i] <= '\u{7f}' by {
            let code = s[i] as int;
        }
        vstd::utf8::is_ascii_chars_encode_utf8(s);
    }
}

/// An opaque text has a character that is not whitespace, no control character, and at most the
/// allowed number of bytes; and all such texts are.
pub proof fn law_opaque_texts_are_printable(s: Seq<char>, maximum: nat)
    ensures
        opaque_text(s, maximum) <==> {
            &&& exists|i: int| 0 <= i < s.len() && !text::whitespace(#[trigger] s[i])
            &&& vstd::utf8::encode_utf8(s).len() <= maximum
            &&& forall|i: int|
                0 <= i < s.len() ==> {
                    let code = #[trigger] s[i] as int;
                    32 <= code <= 126 || code >= 160
                }
        },
{
    if forall|i: int|
        0 <= i < s.len() ==> {
            let code = #[trigger] s[i] as int;
            32 <= code <= 126 || code >= 160
        } {
        assert forall|i: int| 0 <= i < s.len() implies !text::control(#[trigger] s[i]) && s[i]
            != '\0' by {
            let code = s[i] as int;
        }
        assert(!s.contains('\0'));
    }
    if forall|i: int| 0 <= i < s.len() ==> !text::control(#[trigger] s[i]) {
        assert forall|i: int| 0 <= i < s.len() implies {
            let code = #[trigger] s[i] as int;
            32 <= code <= 126 || code >= 160
        } by {
            assert(!text::control(s[i]));
        }
    }
}

/// A reference to a secret is a row of at most 256 plain characters and slashes, with a slash
/// neither first nor last nor behind another, and neither `.` nor `..` between slashes; and all
/// such rows are.
pub proof fn law_secret_references_are_relative_paths(s: Seq<char>)
    ensures
        secret_reference(s) <==> {
            &&& 1 <= s.len() <= 256
            &&& s[0] != '/'
            &&& s[s.len() - 1] != '/'
            &&& forall|i: int|
                0 <= i < s.len() - 1 ==> !(#[trigger] s[i] == '/' && s[i + 1] == '/')
            &&& forall|i: int|
                0 <= i < s.len() ==> plain_code(#[trigger] s[i] as int) || s[i] as int == 47
            &&& !text::split(s, '/').contains(seq!['.'])
            &&& !text::split(s, '/').contains(seq!['.', '.'])
        },
{
    let parts = text::split(s, '/');
    let double = seq!['/', '/'];
    if text::contains(s, double) {
        let i = choose|i: int| text::occurs_at(s, double, i);
        assert(s.subrange(i, i + 2)[0] == s[i]);
        assert(s.subrange(i, i + 2)[1] == s[i + 1]);
    } else {
        assert forall|i: int| 0 <= i < s.len() - 1 implies !(#[trigger] s[i] == '/' && s[i + 1]
            == '/') by {
            if s[i] == '/' && s[i + 1] == '/' {
                assert(s.subrange(i, i + 2) =~= double);
                assert(text::occurs_at(s, double, i));
            }
        }
    }
    if forall|i: int|
        0 <= i < s.len() ==> plain_code(#[trigger] s[i] as int) || s[i] as int == 47 {
        assert forall|i: int| 0 <= i < s.len() implies secret_char(#[trigger] s[i]) && '\0' <= s[i]
            <= '\u{7f}' by {
            assert(plain_code(s[i] as int) || s[i] as int == 47);
        }
        vstd::utf8::is_ascii_chars_encode_utf8(s);
    }
    if forall|i: int| 0 <= i < s.len() ==> secret_char(#[trigger] s[i]) {
        assert forall|i: int| 0 <= i < s.len() implies (plain_code(#[trigger] s[i] as int)
            || s[i] as int == 47) && '\0' <= s[i] <= '\u{7f}' by {
            assert(secret_char(s[i]));
        }
        vstd::utf8::is_ascii_chars_encode_utf8(s);
    }
    if !parts.contains(seq!['.']) && !parts.contains(seq!['.', '.']) {
        assert forall|i: int| 0 <= i < parts.len() implies {
            &&& #[trigger] parts[i] != seq!['.']
            &&& parts[i] != seq!['.', '.']
        } by {
            assert(parts.contains(parts[i]));
        }
    }
}

} // verus!
