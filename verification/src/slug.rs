//! Slugs: the readable part of an identifier, made from a name.

use vstd::prelude::*;

use crate::text;
use crate::text::{alphanumeric, lower_each, string_of};

verus! {

/// The length at which a slug is cut off.
pub const MAX_SLUG: usize = 48;

/// What stands in for a name without a single letter or digit.
pub const FALLBACK_SLUG: &'static str = "preset";

/// The ASCII letters and digits of `s`, with one dash in place of each run of
/// other characters that follows a letter or digit.
pub open spec fn dashed(s: Seq<char>) -> Seq<char>
    decreases s.len(),
{
    if s.len() == 0 {
        s
    } else {
        let front = dashed(s.drop_last());
        if text::is_alphanumeric(s.last()) {
            front.push(s.last())
        } else if front.len() > 0 && front.last() != '-' {
            front.push('-')
        } else {
            front
        }
    }
}

/// The first `MAX_SLUG` characters of `s`.
pub open spec fn cut(s: Seq<char>) -> Seq<char> {
    if s.len() <= MAX_SLUG {
        s
    } else {
        s.take(MAX_SLUG as int)
    }
}

/// `s` without a dash at its end.
pub open spec fn undashed(s: Seq<char>) -> Seq<char> {
    if s.len() > 0 && s.last() == '-' {
        s.drop_last()
    } else {
        s
    }
}

/// The slug of a text that is in lowercase already.
pub open spec fn slug_of(lowered: Seq<char>) -> Seq<char> {
    let slug = undashed(cut(dashed(lowered)));
    if slug.len() == 0 {
        FALLBACK_SLUG@
    } else {
        slug
    }
}

/// Whether `s` consists of letters, digits and single dashes, starts with a
/// letter or digit, and holds no two dashes in a row.
pub open spec fn single_dashes(s: Seq<char>) -> bool {
    &&& forall|i: int|
        0 <= i < s.len() ==> text::is_alphanumeric(#[trigger] s[i]) || s[i] == '-'
    &&& s.len() > 0 ==> s[0] != '-'
    &&& forall|i: int| 0 < i < s.len() && #[trigger] s[i] == '-' ==> s[i - 1] != '-'
}

proof fn lemma_dashed_shape(s: Seq<char>)
    ensures
        single_dashes(dashed(s)),
        dashed(s).len() <= s.len(),
    decreases s.len(),
{
    if s.len() > 0 {
        lemma_dashed_shape(s.drop_last());
    }
}

proof fn lemma_dashed_grows(s: Seq<char>, i: int)
    requires
        0 <= i <= s.len(),
    ensures
        dashed(s.take(i)).len() <= dashed(s).len(),
        dashed(s).take(dashed(s.take(i)).len() as int) == dashed(s.take(i)),
    decreases s.len() - i,
{
    if i == s.len() {
        assert(s.take(i) =~= s);
        assert(dashed(s).take(dashed(s).len() as int) =~= dashed(s));
    } else {
        lemma_dashed_grows(s, i + 1);
        assert(s.take(i + 1).drop_last() =~= s.take(i));
        let short = dashed(s.take(i));
        let long = dashed(s.take(i + 1));
        assert(long.take(short.len() as int) =~= short);
        assert(dashed(s).take(short.len() as int) =~= dashed(s).take(long.len() as int).take(
            short.len() as int,
        ));
    }
}

/// The slug of a text that is in lowercase already: its ASCII letters and
/// digits, with single dashes between the words, cut off at `MAX_SLUG`
/// characters, and `FALLBACK_SLUG` where nothing is left.
pub fn slug_of_lowercase(lowered: &[char]) -> (r: String)
    ensures
        r@ == slug_of(lowered@),
{
    let mut slug: Vec<char> = Vec::new();
    let mut i: usize = 0;
    while i < lowered.len() && slug.len() < MAX_SLUG
        invariant
            0 <= i <= lowered@.len(),
            slug@.len() <= MAX_SLUG,
            slug@ == dashed(lowered@.take(i as int)),
        decreases lowered@.len() - i,
    {
        let c = lowered[i];
        proof {
            assert(lowered@.take(i + 1).drop_last() =~= lowered@.take(i as int));
            assert(lowered@.take(i + 1).last() == c);
        }
        if alphanumeric(c) {
            slug.push(c);
        } else if slug.len() > 0 && slug[slug.len() - 1] != '-' {
            slug.push('-');
        }
        i = i + 1;
    }
    proof {
        lemma_dashed_shape(lowered@);
        lemma_dashed_grows(lowered@, i as int);
        if i == lowered@.len() {
            assert(lowered@.take(i as int) =~= lowered@);
        }
        assert(slug@ =~= cut(dashed(lowered@)));
    }
    if slug.len() > 0 && slug[slug.len() - 1] == '-' {
        slug.pop();
        assert(slug@ =~= undashed(cut(dashed(lowered@))));
    }
    if slug.len() == 0 {
        FALLBACK_SLUG.to_string()
    } else {
        string_of(slug.as_slice())
    }
}

/// Whether `slug` is the slug of `name`, that is of the lowercase mappings of its
/// characters. Those of ASCII characters are known, and none holds a capital ASCII
/// letter.
pub open spec fn is_slug(name: Seq<char>, slug: Seq<char>) -> bool {
    &&& slug == slug_of(text::lowercase_each(name))
    &&& text::lowercase_known(name)
    &&& text::all_ascii(name) ==> slug == slug_of(name.map_values(|c: char| text::ascii_lower(c)))
}

/// The slug of `name`: see `slug_of_lowercase` for what becomes of the
/// lowercase mappings of its characters.
pub fn slugify(name: &str) -> (r: String)
    ensures
        is_slug(name@, r@),
{
    let lowered = lower_each(name);
    slug_of_lowercase(lowered.as_slice())
}

/// A slug is made of ASCII letters, digits and dashes, is never empty and never
/// longer than `MAX_SLUG`, neither starts nor ends with a dash, and holds no two
/// dashes in a row.
pub proof fn law_slug_shape(lowered: Seq<char>)
    ensures
        single_dashes(slug_of(lowered)),
        0 < slug_of(lowered).len() <= MAX_SLUG,
        slug_of(lowered).last() != '-',
{
    reveal_strlit("preset");
    lemma_dashed_shape(lowered);
    let c = cut(dashed(lowered));
    assert(single_dashes(c));
    let slug = undashed(c);
    assert(single_dashes(slug));
    if c.len() > 0 && c.last() == '-' {
        assert(c[c.len() - 1] == '-');
        if c.len() > 1 {
            assert(slug.last() == c[c.len() - 2]);
        }
    }
}

proof fn lemma_dashed_keeps_single_dashes(s: Seq<char>)
    requires
        single_dashes(s),
    ensures
        dashed(s) == s,
    decreases s.len(),
{
    if s.len() > 0 {
        let front = s.drop_last();
        assert(single_dashes(front)) by {
            assert forall|i: int| 0 <= i < front.len() implies text::is_alphanumeric(
                #[trigger] front[i],
            ) || front[i] == '-' by {
                assert(front[i] == s[i]);
            }
            assert forall|i: int| 0 < i < front.len() && #[trigger] front[i] == '-' implies front[i
                - 1] != '-' by {
                assert(front[i] == s[i]);
            }
        }
        lemma_dashed_keeps_single_dashes(front);
        let last = s[s.len() - 1];
        assert(front.push(last) =~= s);
    }
}

/// The slug of a slug is that slug.
pub proof fn law_slug_of_slug(lowered: Seq<char>)
    ensures
        slug_of(slug_of(lowered)) == slug_of(lowered),
{
    law_slug_shape(lowered);
    lemma_dashed_keeps_single_dashes(slug_of(lowered));
}

/// The slug of a name is made of small ASCII letters, digits and dashes.
pub proof fn law_slug_is_lowercase(name: Seq<char>, slug: Seq<char>)
    requires
        is_slug(name, slug),
    ensures
        forall|i: int|
            0 <= i < slug.len() ==> {
                ||| 'a' <= #[trigger] slug[i] <= 'z'
                ||| '0' <= slug[i] <= '9'
                ||| slug[i] == '-'
            },
{
    let lowered = text::lowercase_each(name);
    reveal_strlit("preset");
    law_slug_shape(lowered);
    text::lemma_lowercase_no_capitals(name);
    lemma_dashed_no_capitals(lowered);
    assert forall|i: int| 0 <= i < slug.len() implies {
        ||| 'a' <= #[trigger] slug[i] <= 'z'
        ||| '0' <= slug[i] <= '9'
        ||| slug[i] == '-'
    } by {
        assert(text::is_alphanumeric(slug[i]) || slug[i] == '-');
        if undashed(cut(dashed(lowered))).len() > 0 {
            assert(slug[i] == dashed(lowered)[i]);
        }
    }
}

/// Making a slug out of the slug of a name changes nothing.
pub proof fn law_slugify_twice(name: Seq<char>, slug: Seq<char>, again: Seq<char>)
    requires
        is_slug(name, slug),
        is_slug(slug, again),
    ensures
        again == slug,
{
    law_slug_is_lowercase(name, slug);
    law_slug_of_slug(text::lowercase_each(name));
    assert(slug.map_values(|c: char| text::ascii_lower(c)) =~= slug);
}

proof fn lemma_dashed_no_capitals(s: Seq<char>)
    requires
        text::no_capitals(s),
    ensures
        text::no_capitals(dashed(s)),
    decreases s.len(),
{
    if s.len() > 0 {
        lemma_dashed_no_capitals(s.drop_last());
        let front = dashed(s.drop_last());
        let last = s[s.len() - 1];
        assert forall|i: int| 0 <= i < dashed(s).len() implies !('A' <= #[trigger] dashed(s)[i]
            <= 'Z') by {
            if i < front.len() {
                assert(dashed(s)[i] == front[i]);
            } else {
                assert(dashed(s)[i] == last || dashed(s)[i] == '-');
            }
        }
    }
}

/// Whether `c` is an ASCII character that is no letter or digit.
pub open spec fn separates(c: char) -> bool {
    (c as u32) < 128 && !text::is_alphanumeric(c)
}

/// Whether `s` is made of separators alone.
pub open spec fn all_separate(s: Seq<char>) -> bool {
    forall|i: int| 0 <= i < s.len() ==> separates(#[trigger] s[i])
}

proof fn lemma_dashed_add(x: Seq<char>, y: Seq<char>, z: Seq<char>)
    requires
        dashed(x) == dashed(y),
    ensures
        dashed(x + z) == dashed(y + z),
    decreases z.len(),
{
    if z.len() == 0 {
        assert(x + z =~= x);
        assert(y + z =~= y);
    } else {
        lemma_dashed_add(x, y, z.drop_last());
        assert((x + z).drop_last() =~= x + z.drop_last());
        assert((y + z).drop_last() =~= y + z.drop_last());
    }
}

/// Separators at the end add at most one dash.
proof fn lemma_dashed_separators(x: Seq<char>, z: Seq<char>)
    requires
        all_separate(z),
    ensures
        dashed(x + z) == dashed(x) || {
            &&& dashed(x).len() > 0
            &&& dashed(x).last() != '-'
            &&& dashed(x + z) == dashed(x).push('-')
        },
    decreases z.len(),
{
    if z.len() == 0 {
        assert(x + z =~= x);
    } else {
        let front = z.drop_last();
        assert forall|i: int| 0 <= i < front.len() implies separates(#[trigger] front[i]) by {
            assert(front[i] == z[i]);
        }
        lemma_dashed_separators(x, front);
        assert((x + z).drop_last() =~= x + front);
        assert(separates(z[z.len() - 1]));
    }
}

proof fn lemma_lowercase_separators(s: Seq<char>)
    requires
        text::lowercase_known(s),
        all_separate(s),
    ensures
        text::lowercase_each(s) == s,
{
    assert forall|i: int| 0 <= i < s.len() implies (#[trigger] s[i] as u32) < 128 by {
        assert(separates(s[i]));
    }
    text::lemma_lowercase_ascii(s);
    assert forall|i: int| 0 <= i < s.len() implies text::ascii_lower(#[trigger] s[i]) == s[i] by {
        assert(separates(s[i]));
    }
    assert(s.map_values(|c: char| text::ascii_lower(c)) =~= s);
}

/// Separators at the two ends of a name do not change its slug.
pub proof fn law_ends_do_not_matter(
    before: Seq<char>,
    name: Seq<char>,
    after: Seq<char>,
    slug: Seq<char>,
    other: Seq<char>,
)
    requires
        all_separate(before),
        all_separate(after),
        is_slug(name, slug),
        is_slug(before + name + after, other),
    ensures
        other == slug,
{
    let whole = before + name + after;
    let lowered = text::lowercase_each(name);
    assert(text::lowercase_known(before)) by {
        assert forall|i: int| 0 <= i < before.len() implies #[trigger] before[i] == whole[i] by {}
    }
    assert(text::lowercase_known(after)) by {
        assert forall|i: int| 0 <= i < after.len() implies #[trigger] after[i] == whole[before.len()
            + name.len() + i] by {}
    }
    text::lemma_lowercase_add(before + name, after);
    text::lemma_lowercase_add(before, name);
    lemma_lowercase_separators(before);
    lemma_lowercase_separators(after);
    let nothing = Seq::<char>::empty();
    lemma_dashed_separators(nothing, before);
    assert(nothing + before =~= before);
    lemma_dashed_add(before, nothing, lowered);
    assert(nothing + lowered =~= lowered);
    lemma_dashed_separators(before + lowered, after);
    lemma_dashed_shape(lowered);
    let d = dashed(lowered);
    if dashed(before + lowered + after) != d {
        if d.len() < MAX_SLUG {
            assert(undashed(cut(d.push('-'))) =~= d);
        } else {
            assert(cut(d.push('-')) =~= cut(d));
        }
    }
}

/// Whether `a` and `b` differ in nothing that a slug shows: in the case of their
/// ASCII letters, and in which separators stand at the same places.
pub open spec fn alike(a: Seq<char>, b: Seq<char>) -> bool {
    &&& a.len() == b.len()
    &&& forall|i: int|
        0 <= i < a.len() ==> {
            ||| #[trigger] a[i] == #[trigger] b[i]
            ||| separates(a[i]) && separates(b[i])
            ||| {
                &&& (a[i] as u32) < 128
                &&& (b[i] as u32) < 128
                &&& text::ascii_lower(a[i]) == text::ascii_lower(b[i])
            }
        }
}

proof fn lemma_alike(a: Seq<char>, b: Seq<char>)
    requires
        text::lowercase_known(a),
        text::lowercase_known(b),
        alike(a, b),
    ensures
        dashed(text::lowercase_each(a)) == dashed(text::lowercase_each(b)),
    decreases a.len(),
{
    if a.len() > 0 {
        let front_a = a.drop_last();
        let front_b = b.drop_last();
        assert forall|i: int| 0 <= i < front_a.len() implies #[trigger] front_a[i] == a[i] by {}
        assert forall|i: int| 0 <= i < front_b.len() implies #[trigger] front_b[i] == b[i] by {}
        lemma_alike(front_a, front_b);
        let x = a[a.len() - 1];
        let y = b[b.len() - 1];
        let low_a = text::lowercase_each(front_a);
        let low_b = text::lowercase_each(front_b);
        lemma_dashed_add(low_a, low_b, text::lowercase_char(x));
        if text::lowercase_char(x) != text::lowercase_char(y) {
            assert(separates(x) && separates(y));
            assert(text::lowercase_each(a).drop_last() =~= low_a);
            assert(text::lowercase_each(b).drop_last() =~= low_b);
        }
    }
}

/// The slug of a name does not depend on the case of its ASCII letters, nor on
/// which separators stand in it.
pub proof fn law_alike_names_have_one_slug(
    name: Seq<char>,
    twin: Seq<char>,
    slug: Seq<char>,
    other: Seq<char>,
)
    requires
        alike(name, twin),
        is_slug(name, slug),
        is_slug(twin, other),
    ensures
        other == slug,
{
    lemma_alike(name, twin);
}

/// The capital form of an ASCII letter; every other character as it is.
pub open spec fn ascii_upper(c: char) -> char {
    if 'a' <= c <= 'z' {
        (c as u32 - 32) as char
    } else {
        c
    }
}

/// A name in ASCII capitals has the same slug.
pub proof fn law_capitals_do_not_matter(name: Seq<char>, slug: Seq<char>, other: Seq<char>)
    requires
        is_slug(name, slug),
        is_slug(name.map_values(|c: char| ascii_upper(c)), other),
    ensures
        other == slug,
{
    let twin = name.map_values(|c: char| ascii_upper(c));
    assert forall|i: int| 0 <= i < name.len() implies {
        ||| #[trigger] name[i] == #[trigger] twin[i]
        ||| separates(name[i]) && separates(twin[i])
        ||| {
            &&& (name[i] as u32) < 128
            &&& (twin[i] as u32) < 128
            &&& text::ascii_lower(name[i]) == text::ascii_lower(twin[i])
        }
    } by {
        assert(twin[i] == ascii_upper(name[i]));
    }
    law_alike_names_have_one_slug(name, twin, slug, other);
}

/// How many letters and digits `s` starts with.
pub open spec fn word_length(s: Seq<char>) -> nat
    decreases s.len(),
{
    if s.len() == 0 || !text::is_alphanumeric(s[0]) {
        0
    } else {
        1 + word_length(s.drop_first())
    }
}

/// The words of `s`: its runs of ASCII letters and digits, each as long as it can
/// be.
pub open spec fn words(s: Seq<char>) -> Seq<Seq<char>>
    decreases s.len(),
{
    if s.len() == 0 {
        Seq::empty()
    } else if word_length(s) == 0 {
        words(s.drop_first())
    } else {
        proof {
            lemma_word_length(s);
        }
        seq![s.take(word_length(s) as int)] + words(s.skip(word_length(s) as int))
    }
}

/// The words `ws` with a dash between each and the next.
pub open spec fn joined(ws: Seq<Seq<char>>) -> Seq<char>
    decreases ws.len(),
{
    if ws.len() == 0 {
        Seq::empty()
    } else if ws.len() == 1 {
        ws[0]
    } else {
        ws[0].push('-') + joined(ws.drop_first())
    }
}

/// A word goes as far as there are letters and digits.
pub proof fn lemma_word_length(s: Seq<char>)
    ensures
        word_length(s) <= s.len(),
        forall|i: int| 0 <= i < word_length(s) ==> text::is_alphanumeric(#[trigger] s[i]),
        word_length(s) < s.len() ==> !text::is_alphanumeric(s[word_length(s) as int]),
    decreases s.len(),
{
    if s.len() > 0 && text::is_alphanumeric(s[0]) {
        let rest = s.drop_first();
        lemma_word_length(rest);
        assert forall|i: int| 0 <= i < word_length(s) implies text::is_alphanumeric(
            #[trigger] s[i],
        ) by {
            if i > 0 {
                assert(s[i] == rest[i - 1]);
            }
        }
    }
}

/// A word, a character that is no letter or digit, and what comes behind it.
proof fn lemma_dashed_word(word: Seq<char>, rest: Seq<char>)
    requires
        word.len() > 0,
        rest.len() > 0,
        single_dashes(word),
        word.last() != '-',
        !text::is_alphanumeric(rest[0]),
    ensures
        dashed(word + rest) == word.push('-') + dashed(rest),
    decreases rest.len(),
{
    lemma_dashed_keeps_single_dashes(word);
    let front = rest.drop_last();
    assert((word + rest).drop_last() =~= word + front);
    if front.len() == 0 {
        assert(word + front =~= word);
        assert(dashed(front) =~= front);
        assert(word.push('-') + dashed(rest) =~= word.push('-'));
    } else {
        assert(front[0] == rest[0]);
        lemma_dashed_word(word, front);
        assert((word + rest).last() == rest.last());
        assert(dashed(word + rest) =~= word.push('-') + dashed(rest));
    }
}

proof fn lemma_words(s: Seq<char>)
    ensures
        undashed(dashed(s)) == joined(words(s)),
        words(s).len() == 0 <==> dashed(s).len() == 0,
    decreases s.len(),
{
    lemma_word_length(s);
    lemma_dashed_shape(s);
    let n = word_length(s) as int;
    if s.len() == 0 {
    } else if n == 0 {
        let rest = s.drop_first();
        let one = seq![s[0]];
        let nothing = Seq::<char>::empty();
        lemma_words(rest);
        assert(one.drop_last() =~= nothing);
        assert(dashed(nothing) =~= nothing);
        assert(dashed(one) =~= nothing);
        lemma_dashed_add(one, nothing, rest);
        assert(one + rest =~= s);
        assert(nothing + rest =~= rest);
    } else {
        let word = s.take(n);
        let rest = s.skip(n);
        lemma_words(rest);
        lemma_dashed_shape(rest);
        assert(single_dashes(word)) by {
            assert forall|i: int| 0 <= i < word.len() implies text::is_alphanumeric(
                #[trigger] word[i],
            ) by {
                assert(word[i] == s[i]);
            }
        }
        assert(text::is_alphanumeric(s[n - 1]));
        assert(s =~= word + rest);
        let ws = seq![word] + words(rest);
        assert(ws.drop_first() =~= words(rest));
        assert(ws[0] == word);
        if rest.len() == 0 {
            assert(s =~= word);
            lemma_dashed_keeps_single_dashes(word);
        } else {
            assert(rest[0] == s[n]);
            lemma_dashed_word(word, rest);
            let d = dashed(rest);
            if d.len() == 0 {
                assert(word.push('-') + d =~= word.push('-'));
                assert(undashed(word.push('-')) =~= word);
            } else {
                assert(undashed(word.push('-') + d) =~= word.push('-') + undashed(d));
            }
        }
    }
}

/// The slug of a text in lowercase is its words with dashes between them, cut off
/// at `MAX_SLUG` characters and without a dash at the cut; `FALLBACK_SLUG` where
/// there is no word.
pub proof fn law_slug_is_the_words_joined(lowered: Seq<char>)
    ensures
        slug_of(lowered) == if words(lowered).len() == 0 {
            FALLBACK_SLUG@
        } else {
            undashed(cut(joined(words(lowered))))
        },
{
    let d = dashed(lowered);
    lemma_words(lowered);
    lemma_dashed_shape(lowered);
    law_slug_shape(lowered);
    if d.len() > 0 {
        if d.last() == '-' {
            assert(d[d.len() - 1] == '-');
            assert(d[d.len() - 2] != '-');
            if d.len() > MAX_SLUG {
                assert(cut(undashed(d)) =~= cut(d));
            } else {
                assert(undashed(d).last() == d[d.len() - 2]);
            }
        }
    }
}

/// The letters and digits of a slug are those of the text, in their order, up to the
/// cut: all of them where the text is no longer than 48 characters. A text without any
/// has the slug `preset`.
pub proof fn law_slug_keeps_the_letters(lowered: Seq<char>)
    ensures
        ({
            let is_letter = |c: char|
                48 <= c as u32 <= 57 || 65 <= c as u32 <= 90 || 97 <= c as u32 <= 122;
            let letters = lowered.filter(is_letter);
            let kept = slug_of(lowered).filter(is_letter);
            &&& letters.len() == 0 ==> slug_of(lowered) == "preset"@
            &&& letters.len() > 0 ==> kept.len() <= letters.len() && kept == letters.take(
                kept.len() as int,
            )
            &&& letters.len() > 0 && lowered.len() <= 48 ==> kept == letters
        }),
{
    let is_letter = |c: char|
        48 <= c as u32 <= 57 || 65 <= c as u32 <= 90 || 97 <= c as u32 <= 122;
    let letters = lowered.filter(is_letter);
    let d = dashed(lowered);
    let slug = undashed(cut(d));
    let tail = d.skip(slug.len() as int);
    lemma_dashed_letters(lowered);
    lemma_dashed_shape(lowered);
    law_slug_shape(lowered);
    assert(d =~= slug + tail);
    Seq::<char>::filter_distributes_over_add(slug, tail, is_letter);
    assert(slug.filter(is_letter) =~= letters.take(slug.filter(is_letter).len() as int));
    if lowered.len() <= 48 {
        lemma_no_letters(tail);
        assert(slug.filter(is_letter) =~= letters);
    }
    if letters.len() == 0 {
        if d.len() > 0 {
            text::law_alphanumeric_code_points(d[0]);
            d.lemma_filter_contains(is_letter, 0);
        }
    } else {
        if slug.len() == 0 {
            if d.len() > 0 {
                assert(d[0] != '-');
            } else {
                reveal(Seq::filter);
            }
        }
    }
}

proof fn lemma_dashed_letters(s: Seq<char>)
    ensures
        ({
            let is_letter = |c: char|
                48 <= c as u32 <= 57 || 65 <= c as u32 <= 90 || 97 <= c as u32 <= 122;
            dashed(s).filter(is_letter) == s.filter(is_letter)
        }),
    decreases s.len(),
{
    let is_letter = |c: char|
        48 <= c as u32 <= 57 || 65 <= c as u32 <= 90 || 97 <= c as u32 <= 122;
    if s.len() > 0 {
        let front = s.drop_last();
        lemma_dashed_letters(front);
        let last = s[s.len() - 1];
        assert(s =~= front.push(last));
        text::law_alphanumeric_code_points(last);
        front.lemma_filter_push(last, is_letter);
        dashed(front).lemma_filter_push(last, is_letter);
        dashed(front).lemma_filter_push('-', is_letter);
    }
}

/// At most one dash is no letter.
proof fn lemma_no_letters(s: Seq<char>)
    requires
        s.len() <= 1,
        s.len() == 1 ==> s[0] == '-',
    ensures
        ({
            let is_letter = |c: char|
                48 <= c as u32 <= 57 || 65 <= c as u32 <= 90 || 97 <= c as u32 <= 122;
            s.filter(is_letter) == Seq::<char>::empty()
        }),
{
    reveal_with_fuel(Seq::filter, 3);
    let is_letter = |c: char|
        48 <= c as u32 <= 57 || 65 <= c as u32 <= 90 || 97 <= c as u32 <= 122;
    assert(s.filter(is_letter) =~= Seq::<char>::empty());
}

/// The slug of a name is made from the lowercase mappings of its characters, put one
/// behind the other. It is their words with dashes between them where these have at
/// most 48 characters; else the first 48, or the first 47 where a dash would be the
/// last; and `preset` where there is no word.
pub proof fn law_slug_of_a_name(name: Seq<char>, slug: Seq<char>)
    requires
        is_slug(name, slug),
    ensures
        ({
            let lowered = name.map_values(|c: char| text::lowercase_char(c)).flatten();
            let all = joined(words(lowered));
            slug == if words(lowered).len() == 0 {
                "preset"@
            } else if all.len() <= 48 {
                all
            } else if all[47] == '-' {
                all.take(47)
            } else {
                all.take(48)
            }
        }),
{
    let lowered = text::lowercase_each(name);
    let all = joined(words(lowered));
    text::law_lowercase_each_is_of_each_character(name);
    law_slug_is_the_words_joined(lowered);
    lemma_words(lowered);
    lemma_dashed_shape(lowered);
    let d = dashed(lowered);
    if all.len() > 48 {
        assert(all.take(48).last() == all[47]);
        assert(all.take(48).drop_last() =~= all.take(47));
    } else if all.len() > 0 {
        if d.last() == '-' {
            assert(d[d.len() - 1] == '-');
            assert(all.last() == d[d.len() - 2]);
        }
        assert(all.last() != '-');
    }
}

/// A word is not empty and made of ASCII letters and digits.
pub proof fn law_words_are_letters(s: Seq<char>, i: int, j: int)
    requires
        0 <= i < words(s).len(),
    ensures
        words(s)[i].len() > 0,
        0 <= j < words(s)[i].len() ==> {
            let c = words(s)[i][j];
            48 <= c as u32 <= 57 || 65 <= c as u32 <= 90 || 97 <= c as u32 <= 122
        },
    decreases s.len(),
{
    lemma_word_length(s);
    let n = word_length(s) as int;
    if n == 0 {
        law_words_are_letters(s.drop_first(), i, j);
    } else if i == 0 {
        if 0 <= j < n {
            assert(text::is_alphanumeric(s[j]));
            text::law_alphanumeric_code_points(s[j]);
        }
    } else {
        law_words_are_letters(s.skip(n), i - 1, j);
    }
}

} // verus!
