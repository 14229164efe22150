//! Characters and substrings.
//!
//! Strings are modelled by their characters, `Seq<char>`. Limits on a string's size count the
//! bytes of its UTF-8 encoding, [`utf8_len`].
use vstd::prelude::*;
use vstd::utf8::encode_utf8;

verus! {

/// `String::push` appends the given character to the end of the string.
pub assume_specification[ String::push ](s: &mut String, c: char)
    ensures
        final(s)@ == old(s)@.push(c),
;

/// The number of bytes in the UTF-8 encoding of `s`.
pub open spec fn utf8_len(s: Seq<char>) -> nat {
    encode_utf8(s).len()
}

/// The texts of a list of strings.
pub open spec fn texts(list: Seq<String>) -> Seq<Seq<char>> {
    Seq::new(list.len(), |i: int| list[i]@)
}

/// The text of a string that may be missing.
pub open spec fn optional(s: Option<String>) -> Option<Seq<char>> {
    match s {
        Some(value) => Some(value@),
        None => None,
    }
}

/// The characters with the Unicode property `White_Space`.
pub open spec fn whitespace(c: char) -> bool {
    ||| '\u{9}' <= c <= '\u{d}'
    ||| c == ' '
    ||| c == '\u{85}'
    ||| c == '\u{a0}'
    ||| c == '\u{1680}'
    ||| '\u{2000}' <= c <= '\u{200a}'
    ||| c == '\u{2028}'
    ||| c == '\u{2029}'
    ||| c == '\u{202f}'
    ||| c == '\u{205f}'
    ||| c == '\u{3000}'
}

/// The characters of the Unicode general category `Cc`.
pub open spec fn control(c: char) -> bool {
    c <= '\u{1f}' || '\u{7f}' <= c <= '\u{9f}'
}

pub open spec fn ascii_lowercase(c: char) -> bool {
    'a' <= c <= 'z'
}

pub open spec fn ascii_uppercase(c: char) -> bool {
    'A' <= c <= 'Z'
}

pub open spec fn ascii_digit(c: char) -> bool {
    '0' <= c <= '9'
}

pub open spec fn ascii_alphabetic(c: char) -> bool {
    ascii_lowercase(c) || ascii_uppercase(c)
}

pub open spec fn ascii_alphanumeric(c: char) -> bool {
    ascii_alphabetic(c) || ascii_digit(c)
}

/// `c` with an ASCII capital replaced by its small letter.
pub open spec fn lower(c: char) -> char {
    if ascii_uppercase(c) {
        (c as int + 32) as char
    } else {
        c
    }
}

/// `c` with an ASCII small letter replaced by its capital.
pub open spec fn upper(c: char) -> char {
    if ascii_lowercase(c) {
        (c as int - 32) as char
    } else {
        c
    }
}

pub open spec fn lower_all(s: Seq<char>) -> Seq<char> {
    s.map_values(|c: char| lower(c))
}

pub open spec fn upper_all(s: Seq<char>) -> Seq<char> {
    s.map_values(|c: char| upper(c))
}

/// Every character of `s` is whitespace: nothing is left of `s` once it is trimmed.
pub open spec fn blank(s: Seq<char>) -> bool {
    forall|i: int| 0 <= i < s.len() ==> whitespace(#[trigger] s[i])
}

/// `s` without its leading whitespace.
pub open spec fn trim_start(s: Seq<char>) -> Seq<char>
    decreases s.len(),
{
    if s.len() > 0 && whitespace(s.first()) {
        trim_start(s.drop_first())
    } else {
        s
    }
}

/// `s` without its trailing whitespace.
pub open spec fn trim_end(s: Seq<char>) -> Seq<char>
    decreases s.len(),
{
    if s.len() > 0 && whitespace(s.last()) {
        trim_end(s.drop_last())
    } else {
        s
    }
}

/// `s` without its leading and trailing whitespace.
pub open spec fn trim(s: Seq<char>) -> Seq<char> {
    trim_end(trim_start(s))
}

/// `pattern` stands in `s` at position `i`.
pub open spec fn occurs_at(s: Seq<char>, pattern: Seq<char>, i: int) -> bool {
    0 <= i && i + pattern.len() <= s.len() && s.subrange(i, i + pattern.len()) == pattern
}

pub open spec fn contains(s: Seq<char>, pattern: Seq<char>) -> bool {
    exists|i: int| occurs_at(s, pattern, i)
}

pub open spec fn starts_with(s: Seq<char>, prefix: Seq<char>) -> bool {
    occurs_at(s, prefix, 0)
}

pub open spec fn ends_with(s: Seq<char>, suffix: Seq<char>) -> bool {
    occurs_at(s, suffix, s.len() - suffix.len())
}

/// The first position at or after `from` where `pattern` stands in `s`.
pub open spec fn find(s: Seq<char>, pattern: Seq<char>, from: int) -> Option<int>
    decreases s.len() - from,
{
    if from < 0 || from + pattern.len() > s.len() {
        None
    } else if occurs_at(s, pattern, from) {
        Some(from)
    } else if from >= s.len() {
        None
    } else {
        find(s, pattern, from + 1)
    }
}

/// The parts of `s` between the occurrences of `separator`; one part where there is none.
pub open spec fn split(s: Seq<char>, separator: char) -> Seq<Seq<char>>
    decreases s.len(),
{
    if s.len() == 0 {
        seq![Seq::empty()]
    } else {
        let parts = split(s.drop_last(), separator);
        if s.last() == separator {
            parts.push(Seq::empty())
        } else {
            parts.drop_last().push(parts.last().push(s.last()))
        }
    }
}

/// The parts with `separator` between each two.
pub open spec fn join(parts: Seq<Seq<char>>, separator: char) -> Seq<char>
    decreases parts.len(),
{
    if parts.len() == 0 {
        Seq::empty()
    } else if parts.len() == 1 {
        parts[0]
    } else {
        join(parts.drop_last(), separator).push(separator) + parts.last()
    }
}

/// Joining the parts of a split text gives the text back, and no part holds the separator.
pub proof fn law_split_is_joined_back(s: Seq<char>, separator: char)
    ensures
        split(s, separator).len() > 0,
        join(split(s, separator), separator) == s,
        forall|i: int|
            0 <= i < split(s, separator).len() ==> !(#[trigger] split(s, separator)[i]).contains(
                separator,
            ),
    decreases s.len(),
{
    if s.len() == 0 {
        assert(split(s, separator)[0] =~= Seq::<char>::empty());
        assert(join(split(s, separator), separator) =~= s);
    } else {
        let shorter = s.drop_last();
        let parts = split(shorter, separator);
        law_split_is_joined_back(shorter, separator);
        let all = split(s, separator);
        if s.last() == separator {
            assert(all.drop_last() =~= parts);
            assert(join(all, separator) =~= s);
        } else {
            let last = parts.last().push(s.last());
            assert(all.drop_last() =~= parts.drop_last());
            assert(all.last() == last);
            assert(join(all, separator) =~= join(parts, separator).push(s.last()));
            assert(join(all, separator) =~= s);
            assert forall|i: int| 0 <= i < all.len() implies !(#[trigger] all[i]).contains(
                separator,
            ) by {
                if i == all.len() - 1 {
                    assert(!parts[i].contains(separator));
                    if last.contains(separator) {
                        let k = choose|k: int| 0 <= k < last.len() && last[k] == separator;
                        assert(parts[i][k] == separator);
                    }
                } else {
                    assert(all[i] == parts[i]);
                }
            }
        }
    }
}

/// A text followed by the separator and a part without it splits into the parts of the text and
/// that part.
proof fn lemma_split_append(a: Seq<char>, part: Seq<char>, separator: char)
    requires
        !part.contains(separator),
    ensures
        split(a.push(separator) + part, separator) == split(a, separator).push(part),
    decreases part.len(),
{
    let whole = a.push(separator) + part;
    if part.len() == 0 {
        assert(whole =~= a.push(separator));
        assert(a.push(separator).drop_last() =~= a);
        assert(part =~= Seq::<char>::empty());
    } else {
        let shorter = part.drop_last();
        assert(part.last() != separator);
        assert(!shorter.contains(separator)) by {
            if shorter.contains(separator) {
                let k = choose|k: int| 0 <= k < shorter.len() && shorter[k] == separator;
                assert(part[k] == separator);
            }
        }
        lemma_split_append(a, shorter, separator);
        assert(whole.drop_last() =~= a.push(separator) + shorter);
        assert(shorter.push(part.last()) =~= part);
        assert(split(a, separator).push(shorter).drop_last() =~= split(a, separator));
    }
}

/// A text without the separator is its own only part.
proof fn lemma_split_single(s: Seq<char>, separator: char)
    requires
        !s.contains(separator),
    ensures
        split(s, separator) == seq![s],
    decreases s.len(),
{
    if s.len() == 0 {
        assert(s =~= Seq::<char>::empty());
    } else {
        let shorter = s.drop_last();
        assert(s.last() != separator);
        assert(!shorter.contains(separator)) by {
            if shorter.contains(separator) {
                let k = choose|k: int| 0 <= k < shorter.len() && shorter[k] == separator;
                assert(s[k] == separator);
            }
        }
        lemma_split_single(shorter, separator);
        assert(shorter.push(s.last()) =~= s);
        assert(split(s, separator) =~= seq![s]);
    }
}

/// Splitting joined parts that do not hold the separator gives the parts back.
pub proof fn law_join_is_split_back(parts: Seq<Seq<char>>, separator: char)
    requires
        parts.len() > 0,
        forall|i: int| 0 <= i < parts.len() ==> !(#[trigger] parts[i]).contains(separator),
    ensures
        split(join(parts, separator), separator) == parts,
    decreases parts.len(),
{
    if parts.len() == 1 {
        lemma_split_single(parts[0], separator);
        assert(parts =~= seq![parts[0]]);
    } else {
        let shorter = parts.drop_last();
        assert forall|i: int| 0 <= i < shorter.len() implies !(#[trigger] shorter[i]).contains(
            separator,
        ) by {
            assert(shorter[i] == parts[i]);
        }
        law_join_is_split_back(shorter, separator);
        assert(!parts[parts.len() - 1].contains(separator));
        lemma_split_append(join(shorter, separator), parts.last(), separator);
        assert(shorter.push(parts.last()) =~= parts);
    }
}

/// [`find`] gives the first occurrence, and fails only where there is none.
pub proof fn lemma_find(s: Seq<char>, pattern: Seq<char>, from: int)
    requires
        0 <= from,
    ensures
        match find(s, pattern, from) {
            Some(i) => {
                &&& from <= i
                &&& occurs_at(s, pattern, i)
                &&& forall|j: int| from <= j < i ==> !occurs_at(s, pattern, j)
            },
            None => forall|j: int| from <= j ==> !occurs_at(s, pattern, j),
        },
    decreases s.len() - from,
{
    if from + pattern.len() <= s.len() && !occurs_at(s, pattern, from) && from < s.len() {
        lemma_find(s, pattern, from + 1);
    }
}

/// A string is blank exactly when trimming leaves nothing of it.
pub proof fn law_blank_is_trimmed_empty(s: Seq<char>)
    ensures
        blank(s) <==> trim(s).len() == 0,
{
    lemma_trim_start(s);
    lemma_trim_end(trim_start(s));
    let k = s.len() - trim_start(s).len();
    if trim(s).len() == 0 && !blank(s) {
        let i = choose|i: int| 0 <= i < s.len() && !whitespace(#[trigger] s[i]);
        assert(s.skip(k)[i - k] == s[i]);
    }
    if blank(s) && trim(s).len() > 0 {
        assert(s[k] == trim_start(s)[0]);
    }
}

/// Trimming drops the whitespace around a text, and nothing of the text.
pub proof fn law_trimming_leaves_the_text(before: Seq<char>, s: Seq<char>, after: Seq<char>)
    requires
        blank(before),
        blank(after),
        s.len() > 0,
        !whitespace(s.first()),
        !whitespace(s.last()),
    ensures
        trim(before + s + after) == s,
{
    let whole = before + s + after;
    let start = trim_start(whole);
    lemma_trim_start(whole);
    let k = whole.len() - start.len();
    if k < before.len() {
        assert(start[0] == whole[k]);
        assert(whitespace(before[k]));
    }
    if k > before.len() {
        assert(whole[before.len() as int] == s[0]);
    }
    assert(start =~= s + after);
    let end = trim_end(start);
    lemma_trim_end(start);
    if end.len() > s.len() {
        assert(end.last() == start[end.len() - 1]);
        assert(whitespace(after[end.len() - 1 - s.len()]));
    }
    if end.len() < s.len() {
        assert(start[s.len() - 1] == s.last());
    }
    assert(end =~= s);
}

/// A text without the separator is its own only part.
pub proof fn law_text_without_separator_is_one_part(s: Seq<char>, separator: char)
    requires
        !s.contains(separator),
    ensures
        split(s, separator) == seq![s],
    decreases s.len(),
{
    if s.len() > 0 {
        let shorter = s.drop_last();
        assert forall|i: int| 0 <= i < shorter.len() implies shorter[i] != separator by {
            assert(s.contains(s[i]));
            assert(s[i] == shorter[i]);
        }
        law_text_without_separator_is_one_part(shorter, separator);
        assert(s.contains(s.last())) by {
            assert(s[s.len() - 1] == s.last());
        }
        assert(shorter.push(s.last()) =~= s);
        assert(split(s, separator) =~= seq![s]);
    } else {
        assert(s =~= Seq::<char>::empty());
    }
}

/// The parts of two texts with the separator between them are the parts of the one and then the
/// parts of the other.
pub proof fn law_separator_parts_texts(a: Seq<char>, b: Seq<char>, separator: char)
    ensures
        split(a.push(separator) + b, separator) == split(a, separator) + split(b, separator),
    decreases b.len(),
{
    let whole = a.push(separator) + b;
    if b.len() == 0 {
        assert(whole =~= a.push(separator));
        assert(whole.drop_last() =~= a);
        assert(split(whole, separator) =~= split(a, separator) + split(b, separator));
    } else {
        law_separator_parts_texts(a, b.drop_last(), separator);
        law_split_is_joined_back(b.drop_last(), separator);
        assert(whole.drop_last() =~= a.push(separator) + b.drop_last());
        assert(whole.last() == b.last());
        assert(split(whole, separator) =~= split(a, separator) + split(b, separator));
    }
}

/// Which characters are whitespace, and which are control characters, by their numbers.
pub proof fn law_classes_of_characters(c: char)
    ensures
        whitespace(c) <==> {
            ||| 9 <= c as int <= 13
            ||| c as int == 32
            ||| c as int == 133
            ||| c as int == 160
            ||| c as int == 5760
            ||| 8192 <= c as int <= 8202
            ||| c as int == 8232
            ||| c as int == 8233
            ||| c as int == 8239
            ||| c as int == 8287
            ||| c as int == 12288
        },
        control(c) <==> c as int <= 31 || 127 <= c as int <= 159,
        ascii_digit(c) <==> 48 <= c as int <= 57,
        ascii_uppercase(c) <==> 65 <= c as int <= 90,
        ascii_lowercase(c) <==> 97 <= c as int <= 122,
        ascii_alphabetic(c) <==> 65 <= c as int <= 90 || 97 <= c as int <= 122,
        ascii_alphanumeric(c) <==> 48 <= c as int <= 57 || 65 <= c as int <= 90 || 97 <= c as int
            <= 122,
{
}

/// Small letters and capitals are 32 apart; no other character changes with the case.
pub proof fn law_case_of_characters(c: char, s: Seq<char>, i: int)
    requires
        0 <= i < s.len(),
    ensures
        65 <= c as int <= 90 ==> lower(c) as int == c as int + 32,
        !(65 <= c as int <= 90) ==> lower(c) == c,
        97 <= c as int <= 122 ==> upper(c) as int == c as int - 32,
        !(97 <= c as int <= 122) ==> upper(c) == c,
        lower_all(s).len() == s.len(),
        upper_all(s).len() == s.len(),
        lower_all(s)[i] == lower(s[i]),
        upper_all(s)[i] == upper(s[i]),
{
}

/// A text that stands somewhere is found, there or at an earlier place where it stands.
pub proof fn law_pattern_is_found(before: Seq<char>, pattern: Seq<char>, after: Seq<char>)
    ensures
        contains(before + pattern + after, pattern),
        contains(before, pattern) ==> exists|i: int|
            0 <= i <= before.len() - pattern.len() && #[trigger] before.subrange(
                i,
                i + pattern.len(),
            ) == pattern,
        starts_with(pattern + after, pattern),
        ends_with(before + pattern, pattern),
        ({
            let whole = before + pattern + after;
            let at = find(whole, pattern, 0);
            &&& at is Some
            &&& 0 <= at->0 <= before.len()
            &&& whole.subrange(at->0, at->0 + pattern.len()) == pattern
        }),
{
    if contains(before, pattern) {
        let i = choose|i: int| occurs_at(before, pattern, i);
        assert(before.subrange(i, i + pattern.len()) == pattern);
    }
    let whole = before + pattern + after;
    assert(whole.subrange(before.len() as int, (before.len() + pattern.len()) as int) =~= pattern);
    assert(occurs_at(whole, pattern, before.len() as int));
    assert((pattern + after).subrange(0, pattern.len() as int) =~= pattern);
    assert((before + pattern).subrange(before.len() as int, (before.len() + pattern.len()) as int)
        =~= pattern);
    lemma_find(whole, pattern, 0);
}

/// What [`trim_start`] leaves is a suffix of `s`; what it drops is whitespace, and what it leaves
/// does not start with whitespace.
pub proof fn lemma_trim_start(s: Seq<char>)
    ensures
        trim_start(s).len() <= s.len(),
        trim_start(s) == s.skip(s.len() - trim_start(s).len()),
        forall|i: int|
            0 <= i < s.len() - trim_start(s).len() ==> whitespace(#[trigger] s[i]),
        trim_start(s).len() > 0 ==> !whitespace(trim_start(s)[0]),
    decreases s.len(),
{
    if s.len() > 0 && whitespace(s.first()) {
        let t = s.drop_first();
        lemma_trim_start(t);
        assert forall|i: int| 0 <= i < s.len() - trim_start(s).len() implies whitespace(
            #[trigger] s[i],
        ) by {
            if i > 0 {
                assert(s[i] == t[i - 1]);
            }
        }
        assert(trim_start(s) =~= s.skip(s.len() - trim_start(s).len()));
    } else {
        assert(s.skip(0) =~= s);
    }
}

/// What [`trim_end`] leaves is a prefix of `s`; what it drops is whitespace, and what it leaves
/// does not end with whitespace.
pub proof fn lemma_trim_end(s: Seq<char>)
    ensures
        trim_end(s).len() <= s.len(),
        trim_end(s) == s.take(trim_end(s).len() as int),
        forall|i: int| trim_end(s).len() <= i < s.len() ==> whitespace(#[trigger] s[i]),
        trim_end(s).len() > 0 ==> !whitespace(trim_end(s).last()),
    decreases s.len(),
{
    if s.len() > 0 && whitespace(s.last()) {
        let t = s.drop_last();
        lemma_trim_end(t);
        assert forall|i: int| trim_end(s).len() <= i < s.len() implies whitespace(
            #[trigger] s[i],
        ) by {
            if i < s.len() - 1 {
                assert(s[i] == t[i]);
            }
        }
        assert(trim_end(s) =~= s.take(trim_end(s).len() as int));
    } else {
        assert(s.take(s.len() as int) =~= s);
    }
}

/// Whether `c` has the Unicode property `White_Space`.
pub fn is_whitespace(c: char) -> (res: bool)
    ensures
        res == whitespace(c),
{
    ('\u{9}' <= c && c <= '\u{d}') || c == ' ' || c == '\u{85}' || c == '\u{a0}' || c
        == '\u{1680}' || ('\u{2000}' <= c && c <= '\u{200a}') || c == '\u{2028}' || c
        == '\u{2029}' || c == '\u{202f}' || c == '\u{205f}' || c == '\u{3000}'
}

/// Whether `c` is a control character.
pub fn is_control(c: char) -> (res: bool)
    ensures
        res == control(c),
{
    c <= '\u{1f}' || ('\u{7f}' <= c && c <= '\u{9f}')
}

pub fn is_ascii_alphabetic(c: char) -> (res: bool)
    ensures
        res == ascii_alphabetic(c),
{
    ('a' <= c && c <= 'z') || ('A' <= c && c <= 'Z')
}

pub fn is_ascii_alphanumeric(c: char) -> (res: bool)
    ensures
        res == ascii_alphanumeric(c),
{
    is_ascii_alphabetic(c) || ('0' <= c && c <= '9')
}

pub fn to_lower(c: char) -> (res: char)
    ensures
        res == lower(c),
{
    if 'A' <= c && c <= 'Z' {
        ((c as u8) + 32) as char
    } else {
        c
    }
}

pub fn to_upper(c: char) -> (res: char)
    ensures
        res == upper(c),
{
    if 'a' <= c && c <= 'z' {
        ((c as u8) - 32) as char
    } else {
        c
    }
}

/// The characters of a string.
pub fn chars_of(s: &str) -> (res: Vec<char>)
    ensures
        res@ == s@,
{
    let mut out: Vec<char> = Vec::new();
    for c in it: s.chars()
        invariant
            out@ == it.seq().take(it.index()),
            it.seq() == s@,
    {
        out.push(c);
    }
    out
}

/// The string made of the characters `lo..hi`.
pub fn string_of(chars: &[char], lo: usize, hi: usize) -> (res: String)
    requires
        lo <= hi <= chars@.len(),
    ensures
        res@ == chars@.subrange(lo as int, hi as int),
{
    let mut out = String::new();
    for i in lo..hi
        invariant
            lo <= hi <= chars@.len(),
            out@ == chars@.subrange(lo as int, i as int),
    {
        out.push(chars[i]);
    }
    out
}

/// The size of a string in bytes.
pub fn byte_len(s: &str) -> (n: usize)
    ensures
        n == utf8_len(s@),
{
    s.as_bytes().len()
}

/// Whether two character slices hold the same characters.
pub fn same_chars(a: &[char], b: &[char]) -> (res: bool)
    ensures
        res == (a@ == b@),
{
    if a.len() != b.len() {
        return false;
    }
    for i in 0..a.len()
        invariant
            a@.len() == b@.len(),
            forall|j: int| 0 <= j < i ==> a@[j] == b@[j],
    {
        if a[i] != b[i] {
            return false;
        }
    }
    assert(a@ =~= b@);
    true
}

/// Whether two strings hold the same characters.
pub fn same_text(a: &str, b: &str) -> (res: bool)
    ensures
        res == (a@ == b@),
{
    let left = chars_of(a);
    let right = chars_of(b);
    same_chars(left.as_slice(), right.as_slice())
}

/// Whether some string of the list is `value`.
pub fn list_contains(list: &Vec<String>, value: &str) -> (res: bool)
    ensures
        res == texts(list@).contains(value@),
{
    for i in 0..list.len()
        invariant
            forall|j: int| 0 <= j < i ==> texts(list@)[j] != value@,
    {
        if same_text(list[i].as_str(), value) {
            assert(texts(list@)[i as int] == value@);
            return true;
        }
    }
    false
}

/// Whether a string is empty or whitespace throughout.
pub fn is_blank(s: &str) -> (res: bool)
    ensures
        res == blank(s@),
{
    let chars = chars_of(s);
    for i in 0..chars.len()
        invariant
            chars@ == s@,
            forall|j: int| 0 <= j < i ==> whitespace(#[trigger] chars@[j]),
    {
        if !is_whitespace(chars[i]) {
            return false;
        }
    }
    true
}

/// Whether a string holds a character.
pub fn has_char(s: &str, c: char) -> (res: bool)
    ensures
        res == s@.contains(c),
{
    let chars = chars_of(s);
    for i in 0..chars.len()
        invariant
            chars@ == s@,
            forall|j: int| 0 <= j < i ==> chars@[j] != c,
    {
        if chars[i] == c {
            assert(s@[i as int] == c);
            return true;
        }
    }
    false
}

/// The parts of a string between the occurrences of a separator.
pub fn split_chars(s: &str, separator: char) -> (res: Vec<Vec<char>>)
    ensures
        res@.len() == split(s@, separator).len(),
        res@.len() > 0,
        forall|i: int| 0 <= i < res@.len() ==> (#[trigger] res@[i])@ == split(s@, separator)[i],
{
    let chars = chars_of(s);
    let mut parts: Vec<Vec<char>> = Vec::new();
    let mut current: Vec<char> = Vec::new();
    assert(s@.take(0) =~= Seq::<char>::empty());
    for i in 0..chars.len()
        invariant
            chars@ == s@,
            split(s@.take(i as int), separator).len() == parts@.len() + 1,
            split(s@.take(i as int), separator).last() == current@,
            forall|j: int|
                0 <= j < parts@.len() ==> (#[trigger] parts@[j])@ == split(
                    s@.take(i as int),
                    separator,
                )[j],
    {
        assert(s@.take(i + 1).drop_last() =~= s@.take(i as int));
        if chars[i] == separator {
            parts.push(current);
            current = Vec::new();
        } else {
            current.push(chars[i]);
        }
    }
    assert(s@.take(s@.len() as int) =~= s@);
    parts.push(current);
    parts
}

/// Whether `pattern` stands in `chars` at position `i`.
pub fn stands_at(chars: &[char], pattern: &[char], i: usize) -> (res: bool)
    ensures
        res == occurs_at(chars@, pattern@, i as int),
{
    if i > chars.len() || chars.len() - i < pattern.len() {
        return false;
    }
    let n: usize = chars.len();
    for k in 0..pattern.len()
        invariant
            n == chars@.len(),
            i + pattern@.len() <= n,
            forall|j: int| 0 <= j < k ==> chars@[i + j] == pattern@[j],
    {
        if chars[i + k] != pattern[k] {
            assert(chars@.subrange(i as int, i + pattern@.len())[k as int] == chars@[i + k]);
            return false;
        }
    }
    assert(chars@.subrange(i as int, i + pattern@.len()) =~= pattern@);
    true
}

/// The first position at or after `from` where `pattern` stands.
pub fn find_from(chars: &[char], pattern: &[char], from: usize) -> (res: Option<usize>)
    requires
        from <= chars@.len(),
    ensures
        match res {
            Some(i) => find(chars@, pattern@, from as int) == Some(i as int),
            None => find(chars@, pattern@, from as int) is None,
        },
{
    let mut i: usize = from;
    loop
        invariant
            from <= i <= chars@.len(),
            find(chars@, pattern@, from as int) == find(chars@, pattern@, i as int),
        decreases chars@.len() - i,
    {
        if chars.len() - i < pattern.len() {
            return None;
        }
        if stands_at(chars, pattern, i) {
            return Some(i);
        }
        if i == chars.len() {
            return None;
        }
        i = i + 1;
    }
}

/// Whether `pattern` stands anywhere in `chars`.
pub fn has_pattern(chars: &[char], pattern: &str) -> (res: bool)
    ensures
        res == contains(chars@, pattern@),
{
    let wanted = chars_of(pattern);
    proof {
        lemma_find(chars@, pattern@, 0);
    }
    match find_from(chars, wanted.as_slice(), 0) {
        Some(i) => true,
        None => {
            assert forall|j: int| !occurs_at(chars@, pattern@, j) by {}
            false
        },
    }
}

/// The bounds of what is left of `chars[lo..hi]` once whitespace is trimmed at both ends.
pub fn trim_bounds(chars: &[char], lo: usize, hi: usize) -> (res: (usize, usize))
    requires
        lo <= hi <= chars@.len(),
    ensures
        lo <= res.0 <= res.1 <= hi,
        chars@.subrange(res.0 as int, res.1 as int) == trim(
            chars@.subrange(lo as int, hi as int),
        ),
{
    let mut a: usize = lo;
    let mut b: usize = hi;
    let ghost whole = chars@.subrange(lo as int, hi as int);
    while a < b && is_whitespace(chars[a])
        invariant
            lo <= a <= b <= hi <= chars@.len(),
            b == hi,
            trim_start(whole) == trim_start(chars@.subrange(a as int, b as int)),
        decreases b - a,
    {
        assert(chars@.subrange(a as int, b as int).drop_first() =~= chars@.subrange(
            a + 1,
            b as int,
        ));
        a = a + 1;
    }
    let ghost rest = chars@.subrange(a as int, hi as int);
    assert(trim_start(whole) == rest);
    while a < b && is_whitespace(chars[b - 1])
        invariant
            lo <= a <= b <= hi <= chars@.len(),
            trim_end(rest) == trim_end(chars@.subrange(a as int, b as int)),
        decreases b - a,
    {
        assert(chars@.subrange(a as int, b as int).drop_last() =~= chars@.subrange(
            a as int,
            b - 1,
        ));
        b = b - 1;
    }
    (a, b)
}

/// A copy of a list of strings.
pub fn clone_list(list: &Vec<String>) -> (res: Vec<String>)
    ensures
        res@ == list@,
{
    let mut out: Vec<String> = Vec::new();
    for i in 0..list.len()
        invariant
            out@ == list@.take(i as int),
    {
        out.push(list[i].clone());
        assert(out@ =~= list@.take(i + 1));
    }
    assert(out@ =~= list@);
    out
}

/// A copy of a string that may be missing.
pub fn clone_optional(s: &Option<String>) -> (res: Option<String>)
    ensures
        res == *s,
{
    match s {
        Some(value) => Some(value.clone()),
        None => None,
    }
}

} // verus!
