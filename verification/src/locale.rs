//! Canonical locale tags and the order in which locales are tried.
use vstd::prelude::*;

use crate::text;

verus! {

pub open spec fn all_alphabetic(part: Seq<char>) -> bool {
    forall|i: int| 0 <= i < part.len() ==> text::ascii_alphabetic(#[trigger] part[i])
}

pub open spec fn all_alphanumeric(part: Seq<char>) -> bool {
    forall|i: int| 0 <= i < part.len() ==> text::ascii_alphanumeric(#[trigger] part[i])
}

/// The part at position `i` of a locale tag is well formed: two to eight ASCII letters or digits,
/// and in the language, which comes first, letters only.
pub open spec fn tag_part(part: Seq<char>, i: int) -> bool {
    &&& 2 <= part.len() <= 8
    &&& if i == 0 {
        all_alphabetic(part)
    } else {
        all_alphanumeric(part)
    }
}

/// The canonical form of the part at position `i`: a region of two letters in capitals, any other
/// part in small letters.
pub open spec fn canonical_part(part: Seq<char>, i: int) -> Seq<char> {
    if i > 0 && part.len() == 2 && all_alphabetic(part) {
        text::upper_all(part)
    } else {
        text::lower_all(part)
    }
}

pub open spec fn canonical_parts(parts: Seq<Seq<char>>) -> Seq<Seq<char>> {
    Seq::new(parts.len(), |i: int| canonical_part(parts[i], i))
}

/// A tag of at most 32 bytes made of well-formed parts.
pub open spec fn locale_tag(s: Seq<char>) -> bool {
    &&& 2 <= text::utf8_len(s) <= 32
    &&& !s.contains('_')
    &&& forall|i: int|
        0 <= i < text::split(s, '-').len() ==> tag_part(#[trigger] text::split(s, '-')[i], i)
}

/// The canonical form of a locale tag.
pub open spec fn canonical_locale(s: Seq<char>) -> Option<Seq<char>> {
    if locale_tag(s) {
        Some(text::join(canonical_parts(text::split(s, '-')), '-'))
    } else {
        None
    }
}

/// The texts of a list without those that occurred before.
pub open spec fn first_occurrences(list: Seq<Seq<char>>) -> Seq<Seq<char>>
    decreases list.len(),
{
    if list.len() == 0 {
        Seq::empty()
    } else {
        let before = first_occurrences(list.drop_last());
        if before.contains(list.last()) {
            before
        } else {
            before.push(list.last())
        }
    }
}

/// The base language of a tag that has further parts, as a list of at most one.
pub open spec fn base_language(requested: Seq<char>) -> Seq<Seq<char>> {
    if requested.contains('-') {
        seq![text::split(requested, '-')[0]]
    } else {
        Seq::empty()
    }
}

/// The locales to try for a requested one: the requested locale itself, its base language, then
/// the configured fallbacks in order, each once.
pub open spec fn candidates(requested: Seq<char>, configured: Seq<Seq<char>>) -> Seq<Seq<char>> {
    first_occurrences(seq![requested] + base_language(requested) + configured)
}

/// A well-formed part keeps its length and stays well formed in canonical form, which is stable.
proof fn lemma_canonical_part(part: Seq<char>, i: int)
    requires
        tag_part(part, i),
        i >= 0,
    ensures
        canonical_part(part, i).len() == part.len(),
        tag_part(canonical_part(part, i), i),
        canonical_part(canonical_part(part, i), i) == canonical_part(part, i),
{
    let c = canonical_part(part, i);
    assert forall|k: int| 0 <= k < c.len() implies text::ascii_alphanumeric(#[trigger] c[k]) && (
    text::ascii_alphabetic(part[k]) <==> text::ascii_alphabetic(c[k])) by {
        assert(text::ascii_alphanumeric(part[k]) || text::ascii_alphabetic(part[k]));
    }
    if all_alphabetic(part) {
        assert(all_alphabetic(c));
    }
    if all_alphabetic(c) {
        assert forall|k: int| 0 <= k < part.len() implies text::ascii_alphabetic(
            #[trigger] part[k],
        ) by {
            assert(text::ascii_alphabetic(c[k]));
        }
    }
    assert(canonical_part(c, i) =~= c);
}

/// Text joined by hyphens from parts of ASCII letters and digits holds nothing else but
/// hyphens.
proof fn lemma_joined_tag(parts: Seq<Seq<char>>)
    requires
        forall|i: int| 0 <= i < parts.len() ==> all_alphanumeric(#[trigger] parts[i]),
    ensures
        forall|k: int|
            0 <= k < text::join(parts, '-').len() ==> text::ascii_alphanumeric(
                #[trigger] text::join(parts, '-')[k],
            ) || text::join(parts, '-')[k] == '-',
    decreases parts.len(),
{
    if parts.len() == 1 {
        assert(all_alphanumeric(parts[0]));
    } else if parts.len() > 1 {
        let shorter = parts.drop_last();
        assert forall|i: int| 0 <= i < shorter.len() implies all_alphanumeric(
            #[trigger] shorter[i],
        ) by {
            assert(shorter[i] == parts[i]);
        }
        lemma_joined_tag(shorter);
        let head = text::join(shorter, '-');
        let last = parts[parts.len() - 1];
        assert(all_alphanumeric(last));
        assert forall|k: int|
            0 <= k < text::join(parts, '-').len() implies text::ascii_alphanumeric(
            #[trigger] text::join(parts, '-')[k],
        ) || text::join(parts, '-')[k] == '-' by {
            if k < head.len() {
                assert(text::join(parts, '-')[k] == head[k]);
            } else if k > head.len() {
                assert(text::join(parts, '-')[k] == last[k - head.len() - 1]);
            }
        }
    }
}

proof fn lemma_joined_len(a: Seq<Seq<char>>, b: Seq<Seq<char>>)
    requires
        a.len() == b.len(),
        forall|i: int| 0 <= i < a.len() ==> (#[trigger] a[i]).len() == b[i].len(),
    ensures
        text::join(a, '-').len() == text::join(b, '-').len(),
    decreases a.len(),
{
    if a.len() == 1 {
        assert(a[0].len() == b[0].len());
    } else if a.len() > 1 {
        assert forall|i: int| 0 <= i < a.drop_last().len() implies (#[trigger] a.drop_last()[i]).len()
            == b.drop_last()[i].len() by {
            assert(a[i].len() == b[i].len());
        }
        lemma_joined_len(a.drop_last(), b.drop_last());
        assert(a[a.len() - 1].len() == b[b.len() - 1].len());
    }
}

/// A canonical locale is its own canonical form.
pub proof fn law_canonical_locale_is_stable(s: Seq<char>)
    requires
        canonical_locale(s) is Some,
    ensures
        canonical_locale(canonical_locale(s)->0) == canonical_locale(s),
{
    let parts = text::split(s, '-');
    let canonical = canonical_parts(parts);
    let t = text::join(canonical, '-');
    text::law_split_is_joined_back(s, '-');
    assert forall|i: int| 0 <= i < parts.len() implies {
        &&& all_alphanumeric(#[trigger] parts[i])
        &&& all_alphanumeric(canonical[i])
        &&& canonical[i].len() == parts[i].len()
        &&& !canonical[i].contains('-')
        &&& tag_part(canonical[i], i)
        &&& canonical_part(canonical[i], i) == canonical[i]
    } by {
        lemma_canonical_part(parts[i], i);
        assert(tag_part(parts[i], i));
        assert(tag_part(canonical[i], i));
        assert forall|k: int| 0 <= k < parts[i].len() implies text::ascii_alphanumeric(
            #[trigger] parts[i][k],
        ) by {
            assert(i == 0 ==> text::ascii_alphabetic(parts[i][k]));
        }
        assert forall|k: int| 0 <= k < canonical[i].len() implies text::ascii_alphanumeric(
            #[trigger] canonical[i][k],
        ) by {
            assert(i == 0 ==> text::ascii_alphabetic(canonical[i][k]));
        }
    }
    assert forall|i: int| 0 <= i < canonical.len() implies all_alphanumeric(
        #[trigger] canonical[i],
    ) by {
        assert(all_alphanumeric(parts[i]));
    }
    assert forall|i: int| 0 <= i < canonical.len() implies !(#[trigger] canonical[i]).contains(
        '-',
    ) by {
        assert(all_alphanumeric(parts[i]));
    }
    text::law_join_is_split_back(canonical, '-');
    assert forall|i: int| 0 <= i < canonical.len() implies tag_part(#[trigger] canonical[i], i) by {
        assert(all_alphanumeric(parts[i]));
    }
    assert(canonical_parts(canonical) =~= canonical) by {
        assert forall|i: int| 0 <= i < canonical.len() implies canonical_part(
            #[trigger] canonical[i],
            i,
        ) == canonical[i] by {
            assert(all_alphanumeric(parts[i]));
        }
    }
    lemma_joined_tag(parts);
    lemma_joined_tag(canonical);
    lemma_joined_len(parts, canonical);
    vstd::utf8::is_ascii_chars_encode_utf8(s);
    vstd::utf8::is_ascii_chars_encode_utf8(t);
    assert(text::utf8_len(s) == s.len());
    assert(text::utf8_len(t) == t.len());
    assert(!t.contains('_'));
}

/// What holds of [`first_occurrences`]: nothing twice, the same texts, and what a longer list
/// adds comes after what the shorter one has.
pub proof fn law_first_occurrences(list: Seq<Seq<char>>, longer: Seq<Seq<char>>)
    ensures
        crate::identifier::distinct(first_occurrences(list)),
        forall|x: Seq<char>| #[trigger]
            first_occurrences(list).contains(x) <==> list.contains(x),
        first_occurrences(list).is_prefix_of(first_occurrences(list + longer)),
    decreases list.len() + longer.len(),
{
    let kept = first_occurrences(list);
    if list.len() > 0 {
        let shorter = list.drop_last();
        law_first_occurrences(shorter, Seq::empty());
        let before = first_occurrences(shorter);
        assert forall|x: Seq<char>| #[trigger] kept.contains(x) <==> list.contains(x) by {
            if list.contains(x) {
                let k = choose|k: int| 0 <= k < list.len() && list[k] == x;
                if k < shorter.len() {
                    assert(shorter[k] == x);
                    assert(before.contains(x));
                    let j = choose|j: int| 0 <= j < before.len() && before[j] == x;
                    assert(kept[j] == x);
                } else if !before.contains(x) {
                    assert(kept[before.len() as int] == x);
                }
            }
            if kept.contains(x) {
                let k = choose|k: int| 0 <= k < kept.len() && kept[k] == x;
                if k < before.len() {
                    assert(before[k] == x);
                    assert(before.contains(x));
                    let j = choose|j: int| 0 <= j < shorter.len() && shorter[j] == x;
                    assert(list[j] == x);
                } else {
                    assert(list[list.len() - 1] == x);
                }
            }
        }
        assert forall|i: int, j: int|
            0 <= i < kept.len() && 0 <= j < kept.len() && i != j implies #[trigger] kept[i]
            != #[trigger] kept[j] by {
            if i < before.len() && j < before.len() {
                assert(before[i] != before[j]);
            } else if i < before.len() {
                assert(before.contains(before[i]));
            } else {
                assert(before.contains(before[j]));
            }
        }
    }
    if longer.len() > 0 {
        law_first_occurrences(list, longer.drop_last());
        assert((list + longer).drop_last() =~= list + longer.drop_last());
    } else {
        assert(list + longer =~= list);
    }
}

/// The requested locale is tried first, no locale is tried twice, and the locales tried are the
/// requested one, its base language and the configured fallbacks; the fallbacks come last, those
/// that are configured earlier before those that are configured later.
pub proof fn law_candidate_order(requested: Seq<char>, configured: Seq<Seq<char>>)
    ensures
        candidates(requested, configured).len() > 0,
        candidates(requested, configured)[0] == requested,
        crate::identifier::distinct(candidates(requested, configured)),
        forall|x: Seq<char>| #[trigger]
            candidates(requested, configured).contains(x) <==> x == requested || base_language(
                requested,
            ).contains(x) || configured.contains(x),
        candidates(requested, Seq::empty()).is_prefix_of(candidates(requested, configured)),
        forall|k: int|
            0 <= k <= configured.len() ==> candidates(
                requested,
                #[trigger] configured.take(k),
            ).is_prefix_of(candidates(requested, configured)),
{
    let head = seq![requested];
    let base = base_language(requested);
    let list = head + base + configured;
    law_first_occurrences(list, Seq::empty());
    law_first_occurrences(head, base + configured);
    law_first_occurrences(head + base, configured);
    assert(head + (base + configured) =~= list);
    assert(head + base + Seq::empty() =~= head + base);
    assert forall|k: int| 0 <= k <= configured.len() implies candidates(
        requested,
        #[trigger] configured.take(k),
    ).is_prefix_of(candidates(requested, configured)) by {
        law_first_occurrences(head + base + configured.take(k), configured.skip(k));
        assert(head + base + configured.take(k) + configured.skip(k) =~= list);
    }
    reveal_with_fuel(first_occurrences, 2);
    assert(head.drop_last() =~= Seq::<Seq<char>>::empty());
    assert(first_occurrences(head) =~= head);
    assert(head[0] == candidates(requested, configured)[0]);
    assert forall|x: Seq<char>| #[trigger] list.contains(x) <==> x == requested || base.contains(x)
        || configured.contains(x) by {
        if x == requested {
            assert(list[0] == x);
        }
        if base.contains(x) {
            let k = choose|k: int| 0 <= k < base.len() && base[k] == x;
            assert(list[1 + k] == x);
        }
        if configured.contains(x) {
            let k = choose|k: int| 0 <= k < configured.len() && configured[k] == x;
            assert(list[1 + base.len() + k] == x);
        }
        if list.contains(x) {
            let k = choose|k: int| 0 <= k < list.len() && list[k] == x;
            if k >= 1 + base.len() {
                assert(configured[k - 1 - base.len()] == x);
            } else if k >= 1 {
                assert(base[k - 1] == x);
            }
        }
    }
    assert forall|x: Seq<char>| #[trigger] candidates(requested, configured).contains(x) <==> x
        == requested || base.contains(x) || configured.contains(x) by {
        assert(first_occurrences(list).contains(x) <==> list.contains(x));
    }
}

/// The text before the first hyphen of a requested tag is tried right after the tag itself, before
/// every fallback.
pub proof fn law_language_is_tried_second(
    language: Seq<char>,
    rest: Seq<char>,
    configured: Seq<Seq<char>>,
)
    requires
        !language.contains('-'),
    ensures
        candidates(language.push('-') + rest, configured).len() >= 2,
        candidates(language.push('-') + rest, configured)[0] == language.push('-') + rest,
        candidates(language.push('-') + rest, configured)[1] == language,
        forall|x: Seq<char>| #[trigger]
            candidates(language.push('-') + rest, configured).contains(x) <==> x == language.push(
                '-',
            ) + rest || x == language || configured.contains(x),
{
    let requested = language.push('-') + rest;
    assert(requested[language.len() as int] == '-');
    assert(requested.contains('-'));
    text::law_separator_parts_texts(language, rest, '-');
    text::law_text_without_separator_is_one_part(language, '-');
    text::law_split_is_joined_back(rest, '-');
    let base = base_language(requested);
    assert(base =~= seq![language]);
    law_candidate_order(requested, configured);
    let head = seq![requested] + base;
    law_first_occurrences(head, configured);
    assert(head =~= seq![requested, language]);
    assert(head.drop_last() =~= seq![requested]);
    assert(seq![requested].drop_last() =~= Seq::<Seq<char>>::empty());
    reveal_with_fuel(first_occurrences, 3);
    assert(requested.len() > language.len());
    assert(first_occurrences(seq![requested]) =~= seq![requested]);
    assert(!seq![requested].contains(language));
    assert(first_occurrences(head) =~= head);
    assert(first_occurrences(head)[1] == language);
    assert forall|x: Seq<char>| #[trigger]
        candidates(requested, configured).contains(x) <==> x == requested || x == language
            || configured.contains(x) by {
        if x == language {
            assert(base[0] == x);
            assert(base.contains(x));
        }
    }
}

/// For a requested tag without a hyphen the tag and the fallbacks are tried, and nothing else.
pub proof fn law_bare_language_is_tried_alone(requested: Seq<char>, configured: Seq<Seq<char>>)
    requires
        !requested.contains('-'),
    ensures
        candidates(requested, configured).len() >= 1,
        candidates(requested, configured)[0] == requested,
        forall|x: Seq<char>| #[trigger]
            candidates(requested, configured).contains(x) <==> x == requested
                || configured.contains(x),
{
    law_candidate_order(requested, configured);
}

/// A fallback is tried once, in its place: behind all that are tried anyway or are configured
/// before it.
pub proof fn law_fallback_is_tried_in_its_place(
    requested: Seq<char>,
    configured: Seq<Seq<char>>,
    fallback: Seq<char>,
)
    ensures
        candidates(requested, configured.push(fallback)) == (if candidates(
            requested,
            configured,
        ).contains(fallback) {
            candidates(requested, configured)
        } else {
            candidates(requested, configured).push(fallback)
        }),
{
    let list = seq![requested] + base_language(requested) + configured.push(fallback);
    assert(list.drop_last() =~= seq![requested] + base_language(requested) + configured);
    assert(list.last() == fallback);
}

/// Without fallbacks only the requested tag is tried, and the text before its first hyphen.
pub proof fn law_candidates_without_fallbacks(language: Seq<char>, rest: Seq<char>)
    requires
        !language.contains('-'),
    ensures
        candidates(language, Seq::empty()) == seq![language],
        candidates(language.push('-') + rest, Seq::empty()) == seq![
            language.push('-') + rest,
            language,
        ],
{
    let none = Seq::<Seq<char>>::empty();
    law_bare_language_is_tried_alone(language, none);
    law_candidate_order(language, none);
    let bare = candidates(language, none);
    if bare.len() > 1 {
        assert(bare.contains(bare[1]));
    }
    assert(bare =~= seq![language]);
    let requested = language.push('-') + rest;
    law_language_is_tried_second(language, rest, none);
    law_candidate_order(requested, none);
    let tried = candidates(requested, none);
    if tried.len() > 2 {
        assert(tried.contains(tried[2]));
        assert(tried[2] != tried[0]);
        assert(tried[2] != tried[1]);
    }
    assert(tried =~= seq![requested, language]);
}

/// A part of a locale tag, by its characters: two to eight letters or digits, and letters only if
/// it is the first.
pub open spec fn part_of_tag(part: Seq<char>, first: bool) -> bool {
    &&& 2 <= part.len() <= 8
    &&& forall|k: int|
        0 <= k < part.len() ==> {
            let code = #[trigger] part[k] as int;
            ||| 65 <= code <= 90
            ||| 97 <= code <= 122
            ||| !first && 48 <= code <= 57
        }
}

proof fn lemma_part_of_tag(part: Seq<char>, i: int)
    ensures
        part_of_tag(part, i == 0) <==> tag_part(part, i),
{
    if part_of_tag(part, i == 0) {
        assert forall|k: int| 0 <= k < part.len() implies (if i == 0 {
            text::ascii_alphabetic(#[trigger] part[k])
        } else {
            text::ascii_alphanumeric(part[k])
        }) by {
            let code = part[k] as int;
        }
    }
    if tag_part(part, i) {
        assert forall|k: int| 0 <= k < part.len() implies {
            let code = #[trigger] part[k] as int;
            ||| 65 <= code <= 90
            ||| 97 <= code <= 122
            ||| i != 0 && 48 <= code <= 57
        } by {
            assert(i == 0 ==> text::ascii_alphabetic(part[k]));
            assert(i != 0 ==> text::ascii_alphanumeric(part[k]));
        }
    }
}

/// Exactly the texts of at most 32 characters that are made of parts of a tag, with hyphens between
/// them, are locale tags.
pub proof fn law_locale_tags_are_made_of_parts(parts: Seq<Seq<char>>, s: Seq<char>)
    ensures
        parts.len() > 0 && (forall|i: int|
            0 <= i < parts.len() ==> part_of_tag(#[trigger] parts[i], i == 0)) && text::join(
            parts,
            '-',
        ).len() <= 32 ==> canonical_locale(text::join(parts, '-')) is Some,
        canonical_locale(s) is Some ==> {
            &&& text::join(text::split(s, '-'), '-') == s
            &&& s.len() <= 32
            &&& forall|i: int|
                0 <= i < text::split(s, '-').len() ==> part_of_tag(
                    #[trigger] text::split(s, '-')[i],
                    i == 0,
                )
        },
{
    if parts.len() > 0 && (forall|i: int|
        0 <= i < parts.len() ==> part_of_tag(#[trigger] parts[i], i == 0)) && text::join(
        parts,
        '-',
    ).len() <= 32 {
        let t = text::join(parts, '-');
        assert forall|i: int| 0 <= i < parts.len() implies {
            &&& tag_part(#[trigger] parts[i], i)
            &&& all_alphanumeric(parts[i])
            &&& !parts[i].contains('-')
        } by {
            lemma_part_of_tag(parts[i], i);
            assert(part_of_tag(parts[i], i == 0));
            assert forall|k: int| 0 <= k < parts[i].len() implies text::ascii_alphanumeric(
                #[trigger] parts[i][k],
            ) && parts[i][k] != '-' by {
                let code = parts[i][k] as int;
            }
        }
        text::law_join_is_split_back(parts, '-');
        lemma_joined_tag(parts);
        vstd::utf8::is_ascii_chars_encode_utf8(t);
        lemma_join_len(parts);
        assert(parts[0].len() >= 2);
        assert(!t.contains('_'));
    }
    if canonical_locale(s) is Some {
        let own = text::split(s, '-');
        text::law_split_is_joined_back(s, '-');
        assert forall|i: int| 0 <= i < own.len() implies {
            &&& part_of_tag(#[trigger] own[i], i == 0)
            &&& all_alphanumeric(own[i])
        } by {
            assert(tag_part(own[i], i));
            lemma_part_of_tag(own[i], i);
            assert forall|k: int| 0 <= k < own[i].len() implies text::ascii_alphanumeric(
                #[trigger] own[i][k],
            ) by {
                assert(i == 0 ==> text::ascii_alphabetic(own[i][k]));
            }
        }
        lemma_joined_tag(own);
        vstd::utf8::is_ascii_chars_encode_utf8(s);
    }
}

proof fn lemma_join_len(parts: Seq<Seq<char>>)
    requires
        parts.len() > 0,
    ensures
        text::join(parts, '-').len() >= parts[0].len(),
    decreases parts.len(),
{
    if parts.len() > 1 {
        lemma_join_len(parts.drop_last());
    }
}

/// The canonical form of a tag has the same parts in the same places: a later part of two letters
/// in capitals, any other in small letters. Nothing but the case changes.
pub proof fn law_canonical_form_changes_case_only(s: Seq<char>)
    requires
        canonical_locale(s) is Some,
    ensures
        ({
            let t = canonical_locale(s)->0;
            let old_parts = text::split(s, '-');
            let new_parts = text::split(t, '-');
            &&& t.len() == s.len()
            &&& new_parts.len() == old_parts.len()
            &&& forall|i: int|
                0 <= i < old_parts.len() ==> {
                    let region = i > 0 && (#[trigger] old_parts[i]).len() == 2
                        && text::ascii_alphabetic(old_parts[i][0]) && text::ascii_alphabetic(
                        old_parts[i][1],
                    );
                    &&& region ==> new_parts[i] == text::upper_all(old_parts[i])
                    &&& !region ==> new_parts[i] == text::lower_all(old_parts[i])
                }
        }),
{
    let parts = text::split(s, '-');
    let canonical = canonical_parts(parts);
    text::law_split_is_joined_back(s, '-');
    assert forall|i: int| 0 <= i < parts.len() implies {
        &&& !(#[trigger] canonical[i]).contains('-')
        &&& canonical[i].len() == parts[i].len()
    } by {
        assert(tag_part(parts[i], i));
        lemma_canonical_part(parts[i], i);
        assert forall|k: int| 0 <= k < canonical[i].len() implies canonical[i][k] != '-' by {
            assert(i == 0 ==> text::ascii_alphabetic(canonical[i][k]));
            assert(i != 0 ==> text::ascii_alphanumeric(canonical[i][k]));
        }
    }
    assert forall|i: int| 0 <= i < parts.len() implies (#[trigger] parts[i]).len()
        == canonical[i].len() by {
        assert(!canonical[i].contains('-'));
    }
    text::law_join_is_split_back(canonical, '-');
    lemma_joined_len(parts, canonical);
    assert forall|i: int| 0 <= i < parts.len() implies {
        let region = i > 0 && (#[trigger] parts[i]).len() == 2 && text::ascii_alphabetic(
            parts[i][0],
        ) && text::ascii_alphabetic(parts[i][1]);
        &&& region ==> canonical[i] == text::upper_all(parts[i])
        &&& !region ==> canonical[i] == text::lower_all(parts[i])
    } by {
        if parts[i].len() == 2 && text::ascii_alphabetic(parts[i][0]) && text::ascii_alphabetic(
            parts[i][1],
        ) {
            assert(all_alphabetic(parts[i]));
        }
    }
}

fn is_alphabetic(part: &Vec<char>) -> (res: bool)
    ensures
        res == all_alphabetic(part@),
{
    for i in 0..part.len()
        invariant
            forall|j: int| 0 <= j < i ==> text::ascii_alphabetic(#[trigger] part@[j]),
    {
        if !text::is_ascii_alphabetic(part[i]) {
            return false;
        }
    }
    true
}

fn is_alphanumeric(part: &Vec<char>) -> (res: bool)
    ensures
        res == all_alphanumeric(part@),
{
    for i in 0..part.len()
        invariant
            forall|j: int| 0 <= j < i ==> text::ascii_alphanumeric(#[trigger] part@[j]),
    {
        if !text::is_ascii_alphanumeric(part[i]) {
            return false;
        }
    }
    true
}

/// Appends the canonical form of the part at position `index`.
fn push_canonical(out: &mut String, part: &Vec<char>, index: usize)
    ensures
        final(out)@ == old(out)@ + canonical_part(part@, index as int),
{
    let ghost before = out@;
    let region: bool = index > 0 && part.len() == 2 && is_alphabetic(part);
    let ghost whole = canonical_part(part@, index as int);
    for i in 0..part.len()
        invariant
            region == (index > 0 && part@.len() == 2 && all_alphabetic(part@)),
            whole == canonical_part(part@, index as int),
            out@ == before + whole.take(i as int),
    {
        let c: char = if region {
            text::to_upper(part[i])
        } else {
            text::to_lower(part[i])
        };
        assert(whole[i as int] == c);
        assert(whole.take(i + 1) =~= whole.take(i as int).push(c));
        out.push(c);
        assert(out@ =~= before + whole.take(i + 1));
    }
    assert(whole.take(part@.len() as int) =~= whole);
}

/// The canonical form of a locale tag, or nothing for a text that is no locale tag.
pub fn normalize_locale(value: &str) -> (res: Option<String>)
    ensures
        match res {
            Some(locale) => canonical_locale(value@) == Some(locale@),
            None => canonical_locale(value@) is None,
        },
{
    if text::byte_len(value) < 2 || text::byte_len(value) > 32 || text::has_char(value, '_') {
        return None;
    }
    let parts = text::split_chars(value, '-');
    let ghost expected = text::split(value@, '-');
    let mut normalized = String::new();
    for i in 0..parts.len()
        invariant
            expected == text::split(value@, '-'),
            parts@.len() == expected.len(),
            forall|j: int| 0 <= j < parts@.len() ==> (#[trigger] parts@[j])@ == expected[j],
            forall|j: int| 0 <= j < i ==> tag_part(#[trigger] expected[j], j),
            normalized@ == text::join(canonical_parts(expected).take(i as int), '-'),
    {
        let part = &parts[i];
        assert(part@ == expected[i as int]);
        if part.len() < 2 || part.len() > 8 {
            return None;
        }
        if i == 0 {
            if !is_alphabetic(part) {
                return None;
            }
        } else {
            if !is_alphanumeric(part) {
                return None;
            }
            normalized.push('-');
        }
        push_canonical(&mut normalized, part, i);
        proof {
            let longer = canonical_parts(expected).take(i + 1);
            assert(longer.drop_last() =~= canonical_parts(expected).take(i as int));
            assert(normalized@ =~= text::join(longer, '-'));
        }
    }
    assert(canonical_parts(expected).take(expected.len() as int) =~= canonical_parts(expected));
    Some(normalized)
}

/// Appends a locale unless the list holds it already.
fn add_candidate(list: &mut Vec<String>, locale: &str)
    ensures
        text::texts(final(list)@) == (if text::texts(old(list)@).contains(locale@) {
            text::texts(old(list)@)
        } else {
            text::texts(old(list)@).push(locale@)
        }),
{
    let ghost before = text::texts(list@);
    if !text::list_contains(list, locale) {
        list.push(locale.to_owned());
        assert(text::texts(list@) =~= before.push(locale@));
    }
}

/// The locales to try for a requested one, in order.
pub fn locale_candidates(requested: &str, configured: &Vec<String>) -> (res: Vec<String>)
    ensures
        text::texts(res@) == candidates(requested@, text::texts(configured@)),
{
    let mut list: Vec<String> = Vec::new();
    let ghost head = seq![requested@] + base_language(requested@);
    let ghost fallbacks = text::texts(configured@);
    add_candidate(&mut list, requested);
    proof {
        assert(seq![requested@].drop_last() =~= Seq::<Seq<char>>::empty());
        reveal_with_fuel(first_occurrences, 2);
        assert(text::texts(list@) =~= first_occurrences(seq![requested@]));
    }
    if text::has_char(requested, '-') {
        let parts = text::split_chars(requested, '-');
        let language = text::string_of(parts[0].as_slice(), 0, parts[0].len());
        assert(language@ =~= text::split(requested@, '-')[0]);
        add_candidate(&mut list, language.as_str());
        assert(head.drop_last() =~= seq![requested@]);
    } else {
        assert(head =~= seq![requested@]);
    }
    assert(head + fallbacks.take(0) =~= head);
    for i in 0..configured.len()
        invariant
            fallbacks == text::texts(configured@),
            text::texts(list@) == first_occurrences(head + fallbacks.take(i as int)),
    {
        let ghost longer = head + fallbacks.take(i + 1);
        assert(longer.drop_last() =~= head + fallbacks.take(i as int));
        assert(longer.last() == configured@[i as int]@);
        add_candidate(&mut list, configured[i].as_str());
    }
    assert(fallbacks.take(fallbacks.len() as int) =~= fallbacks);
    list
}

} // verus!
