//! Characters and strings.

use vstd::prelude::*;

verus! {

/// `String::push` appends one character.
pub assume_specification[ String::push ](s: &mut String, c: char)
    ensures
        final(s)@ == old(s)@.push(c),
;

/// The characters of the Unicode property `White_Space`.
pub open spec fn is_white_space(c: char) -> bool {
    let u = c as u32;
    ||| 0x9 <= u <= 0xd
    ||| u == 0x20
    ||| u == 0x85
    ||| u == 0xa0
    ||| u == 0x1680
    ||| 0x2000 <= u <= 0x200a
    ||| u == 0x2028
    ||| u == 0x2029
    ||| u == 0x202f
    ||| u == 0x205f
    ||| u == 0x3000
}

/// `s` without the white space at its two ends.
pub open spec fn trimmed(s: Seq<char>) -> Seq<char>
    decreases s.len(),
{
    if s.len() == 0 {
        s
    } else if is_white_space(s.first()) {
        trimmed(s.drop_first())
    } else if is_white_space(s.last()) {
        trimmed(s.drop_last())
    } else {
        s
    }
}

/// `str::trim` removes the leading and the trailing characters that have the
/// Unicode property `White_Space`.
pub assume_specification[ str::trim ](s: &str) -> (r: &str)
    ensures
        r@ == trimmed(s@),
;

/// The ASCII letters and digits.
pub open spec fn is_alphanumeric(c: char) -> bool {
    ||| 'a' <= c <= 'z'
    ||| 'A' <= c <= 'Z'
    ||| '0' <= c <= '9'
}

/// Whether `c` is an ASCII letter or digit.
pub fn alphanumeric(c: char) -> (r: bool)
    ensures
        r == is_alphanumeric(c),
        r <==> 48 <= c as u32 <= 57 || 65 <= c as u32 <= 90 || 97 <= c as u32 <= 122,
{
    ('a' <= c && c <= 'z') || ('A' <= c && c <= 'Z') || ('0' <= c && c <= '9')
}

/// The lowercase form of an ASCII letter; every other character as it is.
pub open spec fn ascii_lower(c: char) -> char {
    if 'A' <= c <= 'Z' {
        (c as u32 + 32) as char
    } else {
        c
    }
}

/// Whether every character of `s` is an ASCII character.
pub open spec fn all_ascii(s: Seq<char>) -> bool {
    forall|i: int| 0 <= i < s.len() ==> (#[trigger] s[i] as u32) < 128
}

/// Whether `s` holds no ASCII capital letter.
pub open spec fn no_capitals(s: Seq<char>) -> bool {
    forall|i: int| 0 <= i < s.len() ==> !('A' <= #[trigger] s[i] <= 'Z')
}

/// What `char::to_lowercase` yields for `c`: its lowercase mapping in the
/// Unicode Character Database.
pub uninterp spec fn lowercase_char(c: char) -> Seq<char>;

/// `char::to_lowercase` yields the lowercase mapping of a character, one or more
/// characters that depend on that character alone, none of them an ASCII capital
/// letter. An ASCII character yields one character: a capital letter its small
/// letter, any other itself.
#[verifier::external_body]
fn char_to_lowercase(c: char) -> (r: Vec<char>)
    ensures
        r@ == lowercase_char(c),
        r@.len() >= 1,
        no_capitals(r@),
        (c as u32) < 128 ==> r@ == seq![ascii_lower(c)],
{
    c.to_lowercase().collect()
}

/// The lowercase mappings of the characters of `s`, one after the other.
pub open spec fn lowercase_each(s: Seq<char>) -> Seq<char>
    decreases s.len(),
{
    if s.len() == 0 {
        Seq::empty()
    } else {
        lowercase_each(s.drop_last()) + lowercase_char(s.last())
    }
}

/// What is known of the lowercase mappings of the characters of `s`: they hold no
/// ASCII capital letter, and that of an ASCII character is its small letter or
/// itself.
pub open spec fn lowercase_known(s: Seq<char>) -> bool {
    forall|i: int|
        0 <= i < s.len() ==> {
            &&& no_capitals(lowercase_char(#[trigger] s[i]))
            &&& (s[i] as u32) < 128 ==> lowercase_char(s[i]) == seq![ascii_lower(s[i])]
        }
}

/// The lowercase mappings of an ASCII text are its small letters.
pub proof fn lemma_lowercase_ascii(s: Seq<char>)
    requires
        lowercase_known(s),
        all_ascii(s),
    ensures
        lowercase_each(s) == s.map_values(|c: char| ascii_lower(c)),
    decreases s.len(),
{
    if s.len() > 0 {
        lemma_known_front(s);
        lemma_lowercase_ascii(s.drop_last());
        let last = s[s.len() - 1];
        assert(lowercase_char(last) == seq![ascii_lower(last)]);
    }
    assert(lowercase_each(s) =~= s.map_values(|c: char| ascii_lower(c)));
}

/// The lowercase mappings of a text hold no ASCII capital letter.
pub proof fn lemma_lowercase_no_capitals(s: Seq<char>)
    requires
        lowercase_known(s),
    ensures
        no_capitals(lowercase_each(s)),
    decreases s.len(),
{
    if s.len() > 0 {
        lemma_known_front(s);
        lemma_lowercase_no_capitals(s.drop_last());
        let front = lowercase_each(s.drop_last());
        let last = lowercase_char(s[s.len() - 1]);
        assert(no_capitals(last));
        assert forall|i: int| 0 <= i < lowercase_each(s).len() implies !('A'
            <= #[trigger] lowercase_each(s)[i] <= 'Z') by {
            if i < front.len() {
                assert(lowercase_each(s)[i] == front[i]);
            } else {
                assert(lowercase_each(s)[i] == last[i - front.len()]);
            }
        }
    }
}

proof fn lemma_known_front(s: Seq<char>)
    requires
        lowercase_known(s),
        s.len() > 0,
    ensures
        lowercase_known(s.drop_last()),
        all_ascii(s) ==> all_ascii(s.drop_last()),
{
    let front = s.drop_last();
    assert forall|i: int| 0 <= i < front.len() implies #[trigger] front[i] == s[i] by {}
}

/// The lowercase mappings of two texts, one after the other.
pub proof fn lemma_lowercase_add(a: Seq<char>, b: Seq<char>)
    ensures
        lowercase_each(a + b) == lowercase_each(a) + lowercase_each(b),
    decreases b.len(),
{
    if b.len() == 0 {
        assert(a + b =~= a);
        assert(lowercase_each(a) + lowercase_each(b) =~= lowercase_each(a));
    } else {
        lemma_lowercase_add(a, b.drop_last());
        assert((a + b).drop_last() =~= a + b.drop_last());
        assert(lowercase_each(a + b) =~= lowercase_each(a) + lowercase_each(b));
    }
}

/// Every character of `s` replaced by its lowercase mapping.
pub fn lower_each(s: &str) -> (r: Vec<char>)
    ensures
        r@ == lowercase_each(s@),
        r@ == s@.map_values(|c: char| lowercase_char(c)).flatten(),
        lowercase_known(s@),
        all_ascii(s@) ==> r@ == s@.map_values(|c: char| ascii_lower(c)),
{
    let chars = chars_of(s);
    let mut out: Vec<char> = Vec::new();
    for i in 0..chars.len()
        invariant
            chars@ == s@,
            out@ == lowercase_each(s@.take(i as int)),
            lowercase_known(s@.take(i as int)),
    {
        let c = chars[i];
        let mut low = char_to_lowercase(c);
        proof {
            assert(s@.take(i + 1).drop_last() =~= s@.take(i as int));
            assert(s@.take(i + 1).last() == c);
            assert forall|j: int| 0 <= j < i implies #[trigger] s@.take(i + 1)[j] == s@.take(
                i as int,
            )[j] by {}
        }
        out.append(&mut low);
    }
    proof {
        assert(s@.take(s@.len() as int) =~= s@);
        law_lowercase_each_is_of_each_character(s@);
        if all_ascii(s@) {
            lemma_lowercase_ascii(s@);
        }
    }
    out
}

/// What `str::to_lowercase` makes of `s`: its lowercase equivalent after the
/// Unicode rules.
pub uninterp spec fn lowercase_str(s: Seq<char>) -> Seq<char>;

/// `str::to_lowercase` gives the lowercase equivalent of a string, which depends
/// on that string alone. In a string of ASCII characters each capital letter
/// becomes its small letter and nothing else changes.
#[verifier::external_body]
pub(crate) fn str_to_lowercase(s: &str) -> (r: String)
    ensures
        r@ == lowercase_str(s@),
        all_ascii(s@) ==> r@ == s@.map_values(|c: char| ascii_lower(c)),
{
    s.to_lowercase()
}

/// The characters of `s`, one by one.
pub fn chars_of(s: &str) -> (r: Vec<char>)
    ensures
        r@ == s@,
{
    let mut out: Vec<char> = Vec::new();
    for c in it: s.chars()
        invariant
            out@ == it.seq().take(it.index() as int),
            it.seq() == s@,
    {
        out.push(c);
    }
    out
}

/// The string that `chars` spell.
pub fn string_of(chars: &[char]) -> (r: String)
    ensures
        r@ == chars@,
{
    let mut out = String::new();
    for i in 0..chars.len()
        invariant
            out@ == chars@.take(i as int),
    {
        out.push(chars[i]);
        assert(chars@.take(i + 1) =~= chars@.take(i as int).push(chars@[i as int]));
    }
    assert(chars@.take(chars@.len() as int) =~= chars@);
    out
}

/// The lowercase mappings of a text are those of its characters, put one behind the
/// other.
pub proof fn law_lowercase_each_is_of_each_character(s: Seq<char>)
    ensures
        lowercase_each(s) == s.map_values(|c: char| lowercase_char(c)).flatten(),
    decreases s.len(),
{
    let each = s.map_values(|c: char| lowercase_char(c));
    each.lemma_flatten_and_flatten_alt_are_equivalent();
    if s.len() > 0 {
        let front = s.drop_last().map_values(|c: char| lowercase_char(c));
        law_lowercase_each_is_of_each_character(s.drop_last());
        front.lemma_flatten_and_flatten_alt_are_equivalent();
        assert(each.drop_last() =~= front);
    }
}

/// The ASCII letters and digits are those with the code points 48 to 57, 65 to 90 and
/// 97 to 122.
pub proof fn law_alphanumeric_code_points(c: char)
    ensures
        is_alphanumeric(c) <==> 48 <= c as u32 <= 57 || 65 <= c as u32 <= 90 || 97 <= c as u32
            <= 122,
{
}

/// Whether `s` is made of white space alone.
pub open spec fn all_white_space(s: Seq<char>) -> bool {
    forall|i: int| 0 <= i < s.len() ==> is_white_space(#[trigger] s[i])
}

/// Trimming removes white space at the two ends, all of it and nothing else.
pub proof fn lemma_trimmed(s: Seq<char>)
    ensures
        trimmed(s).len() > 0 ==> !is_white_space(trimmed(s).first()) && !is_white_space(
            trimmed(s).last(),
        ),
        exists|before: Seq<char>, behind: Seq<char>|
            {
                &&& #[trigger] all_white_space(before)
                &&& #[trigger] all_white_space(behind)
                &&& s == before + trimmed(s) + behind
            },
    decreases s.len(),
{
    let nothing = Seq::<char>::empty();
    if s.len() == 0 || (!is_white_space(s.first()) && !is_white_space(s.last())) {
        assert(all_white_space(nothing));
        assert(s =~= nothing + trimmed(s) + nothing);
    } else if is_white_space(s.first()) {
        let rest = s.drop_first();
        lemma_trimmed(rest);
        let (before, behind) = choose|before: Seq<char>, behind: Seq<char>|
            {
                &&& #[trigger] all_white_space(before)
                &&& #[trigger] all_white_space(behind)
                &&& rest == before + trimmed(rest) + behind
            };
        let more = seq![s.first()] + before;
        assert(all_white_space(more));
        assert(trimmed(s) == trimmed(rest));
        assert(s =~= seq![s.first()] + rest);
        assert(s =~= more + trimmed(s) + behind);
    } else {
        let rest = s.drop_last();
        lemma_trimmed(rest);
        let (before, behind) = choose|before: Seq<char>, behind: Seq<char>|
            {
                &&& #[trigger] all_white_space(before)
                &&& #[trigger] all_white_space(behind)
                &&& rest == before + trimmed(rest) + behind
            };
        let more = behind.push(s.last());
        assert(all_white_space(more));
        assert(trimmed(s) == trimmed(rest));
        assert(s =~= rest.push(s.last()));
        assert(s =~= before + trimmed(s) + more);
    }
}

} // verus!
