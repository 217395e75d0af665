//! Slugs: names that are safe to use as the name of a folder.

use vstd::prelude::*;
use vstd::string::*;

use crate::outside::{
    ascii, ascii_lower, ascii_lowered, ascii_upper, ascii_uppered, lowercase, to_lowercase,
};
use crate::text::chars_of;

verus! {

/// Whether `c` is an ASCII letter or digit.
pub open spec fn alphanumeric(c: char) -> bool {
    '0' <= c <= '9' || 'A' <= c <= 'Z' || 'a' <= c <= 'z'
}

/// Whether `c` is an ASCII letter or digit.
fn is_alphanumeric(c: char) -> (r: bool)
    ensures
        r == alphanumeric(c),
{
    ('0' <= c && c <= '9') || ('A' <= c && c <= 'Z') || ('a' <= c && c <= 'z')
}

/// How many ASCII letters and digits `s` begins with.
pub open spec fn word_length(s: Seq<char>) -> nat
    decreases s.len(),
{
    if s.len() > 0 && alphanumeric(s[0]) {
        1 + word_length(s.skip(1))
    } else {
        0
    }
}

/// The longest runs of ASCII letters and digits in `s`, in order.
pub open spec fn words(s: Seq<char>) -> Seq<Seq<char>>
    decreases s.len(),
{
    if s.len() == 0 {
        Seq::empty()
    } else if !alphanumeric(s[0]) {
        words(s.skip(1))
    } else {
        proof {
            lemma_word_length(s);
        }
        seq![s.take(word_length(s) as int)] + words(s.skip(word_length(s) as int))
    }
}

/// `list` with a hyphen between one word and the next.
pub open spec fn hyphenated(list: Seq<Seq<char>>) -> Seq<char>
    decreases list.len(),
{
    if list.len() == 0 {
        Seq::empty()
    } else if list.len() == 1 {
        list[0]
    } else {
        list[0] + seq!['-'] + hyphenated(list.skip(1))
    }
}

/// The words of `s` with a hyphen between one and the next.
pub open spec fn slug_text(s: Seq<char>) -> Seq<char> {
    hyphenated(words(s))
}

/// The slug of `value`. Its ASCII letters count as if they were in lower case.
pub open spec fn slugified(value: Seq<char>) -> Seq<char> {
    slug_text(lowercase(ascii_lowered(value)))
}

/// Whether `c` may stand in a slug beside the hyphen.
pub open spec fn slug_char(c: char) -> bool {
    '0' <= c <= '9' || 'a' <= c <= 'z'
}

/// The form of a slug: lower-case ASCII letters and digits, and hyphens that stand one at a
/// time and never at an end.
pub open spec fn is_slug(s: Seq<char>) -> bool {
    &&& forall|i: int| 0 <= i < s.len() ==> slug_char(#[trigger] s[i]) || s[i] == '-'
    &&& s.len() > 0 ==> s[0] != '-' && s.last() != '-'
    &&& forall|i: int| 0 <= i < s.len() - 1 && #[trigger] s[i] == '-' ==> s[i + 1] != '-'
}

/// A word is the longest one possible, and no longer than the text.
pub proof fn lemma_word_length(s: Seq<char>)
    ensures
        word_length(s) <= s.len(),
        forall|i: int| 0 <= i < word_length(s) ==> alphanumeric(#[trigger] s[i]),
        word_length(s) < s.len() ==> !alphanumeric(s[word_length(s) as int]),
        s.len() > 0 && alphanumeric(s[0]) ==> word_length(s) > 0,
    decreases s.len(),
{
    if s.len() > 0 && alphanumeric(s[0]) {
        let rest = s.skip(1);
        lemma_word_length(rest);
        assert forall|i: int| 0 <= i < word_length(s) implies alphanumeric(#[trigger] s[i]) by {
            if i > 0 {
                assert(s[i] == rest[i - 1]);
            }
        }
        if word_length(s) < s.len() {
            assert(s[word_length(s) as int] == rest[word_length(rest) as int]);
        }
    }
}

proof fn lemma_word_length_unique(s: Seq<char>, n: nat)
    requires
        n <= s.len(),
        forall|i: int| 0 <= i < n ==> alphanumeric(#[trigger] s[i]),
        n < s.len() ==> !alphanumeric(s[n as int]),
    ensures
        word_length(s) == n,
{
    lemma_word_length(s);
    if word_length(s) < n {
        assert(alphanumeric(s[word_length(s) as int]));
    }
    if n < word_length(s) {
        assert(alphanumeric(s[n as int]));
    }
}

proof fn lemma_hyphenated_push(list: Seq<Seq<char>>, word: Seq<char>)
    ensures
        hyphenated(list.push(word)) == if list.len() == 0 {
            word
        } else {
            hyphenated(list) + seq!['-'] + word
        },
    decreases list.len(),
{
    let longer = list.push(word);
    reveal_with_fuel(hyphenated, 2);
    if list.len() == 0 {
    } else if list.len() == 1 {
        assert(longer.skip(1) == seq![word]);
        assert(longer.skip(1).len() == 1);
    } else {
        lemma_hyphenated_push(list.skip(1), word);
        assert(longer.skip(1) == list.skip(1).push(word));
        assert(hyphenated(longer) == list[0] + seq!['-'] + (hyphenated(list.skip(1)) + seq!['-']
            + word));
        assert(hyphenated(longer) == hyphenated(list) + seq!['-'] + word);
    }
}

proof fn lemma_hyphenated_nonempty(list: Seq<Seq<char>>)
    requires
        forall|i: int| 0 <= i < list.len() ==> (#[trigger] list[i]).len() > 0,
    ensures
        hyphenated(list).len() == 0 <==> list.len() == 0,
{
    if list.len() > 0 {
        assert(list[0].len() > 0);
    }
}

/// The words of `lowered` with a hyphen between one and the next.
pub fn slug_of(lowered: &str) -> (r: String)
    ensures
        r@ == slug_text(lowered@),
{
    let chars: Vec<char> = chars_of(lowered);
    let mut out = String::new();
    let mut at: usize = 0;
    let ghost mut found: Seq<Seq<char>> = Seq::empty();
    assert(lowered@.skip(0) == lowered@);
    assert(found + words(lowered@) == words(lowered@));
    while at < chars.len()
        invariant
            chars@ == lowered@,
            at <= chars.len(),
            words(lowered@) == found + words(lowered@.skip(at as int)),
            out@ == hyphenated(found),
            forall|i: int| 0 <= i < found.len() ==> (#[trigger] found[i]).len() > 0,
        decreases chars.len() - at,
    {
        let ghost rest: Seq<char> = lowered@.skip(at as int);
        if !is_alphanumeric(chars[at]) {
            assert(rest.skip(1) == lowered@.skip(at + 1));
            at = at + 1;
        } else {
            let mut end: usize = at + 1;
            while end < chars.len() && is_alphanumeric(chars[end])
                invariant
                    chars@ == lowered@,
                    at < end <= chars.len(),
                    forall|i: int| at <= i < end ==> alphanumeric(#[trigger] lowered@[i]),
                decreases chars.len() - end,
            {
                end = end + 1;
            }
            let word = lowered.substring_char(at, end);
            proof {
                let n = (end - at) as nat;
                assert forall|i: int| 0 <= i < n implies alphanumeric(#[trigger] rest[i]) by {
                    assert(rest[i] == lowered@[at + i]);
                }
                if n < rest.len() {
                    assert(rest[n as int] == lowered@[end as int]);
                }
                lemma_word_length_unique(rest, n);
                assert(rest.take(n as int) == word@);
                assert(rest.skip(n as int) == lowered@.skip(end as int));
                lemma_hyphenated_push(found, word@);
                assert(found + (seq![word@] + words(lowered@.skip(end as int))) == found.push(
                    word@,
                ) + words(lowered@.skip(end as int)));
            }
            if !out.as_str().is_empty() {
                out.append("-");
            }
            out.append(word);
            proof {
                reveal_strlit("-");
                assert("-"@ == seq!['-']);
                lemma_hyphenated_nonempty(found);
                assert(found.len() == 0 ==> Seq::<char>::empty() + word@ == word@);
                found = found.push(word@);
            }
            at = end;
        }
    }
    assert(lowered@.skip(at as int) == Seq::<char>::empty());
    assert(found + Seq::<Seq<char>>::empty() == found);
    out
}

/// `value` in lower case, with every run of other characters than ASCII letters and digits
/// turned into one hyphen, and none at either end. What is a slug already stays as it is.
pub fn slugify(value: &str) -> (r: String)
    ensures
        r@ == slug_text(lowercase(value@)),
        ascii(value@) ==> r@ == slug_text(ascii_lowered(value@)),
        r@ == slugified(value@),
        is_slug(r@),
        is_slug(value@) ==> r@ == value@,
{
    let lowered = to_lowercase(value);
    proof {
        lemma_slug_form(lowered@);
        if is_slug(value@) {
            assert(ascii(value@)) by {
                assert forall|i: int| 0 <= i < value@.len() implies #[trigger] value@[i]
                    <= '\u{7f}' by {}
            }
            assert(lowered@ == value@);
            lemma_slug_fixed(value@);
        }
    }
    slug_of(lowered.as_str())
}

/// Whether every word is made of characters of a slug and holds at least one.
spec fn slug_words(list: Seq<Seq<char>>) -> bool {
    forall|k: int|
        0 <= k < list.len() ==> (#[trigger] list[k]).len() > 0 && forall|i: int|
            0 <= i < list[k].len() ==> slug_char(#[trigger] list[k][i])
}

proof fn lemma_words_form(s: Seq<char>)
    requires
        forall|i: int| 0 <= i < s.len() ==> !('A' <= #[trigger] s[i] <= 'Z'),
    ensures
        slug_words(words(s)),
    decreases s.len(),
{
    if s.len() == 0 {
    } else if !alphanumeric(s[0]) {
        lemma_words_form(s.skip(1));
    } else {
        lemma_word_length(s);
        let n = word_length(s) as int;
        let rest = words(s.skip(n));
        lemma_words_form(s.skip(n));
        assert forall|k: int| 0 <= k < words(s).len() implies (#[trigger] words(s)[k]).len() > 0
            && forall|i: int| 0 <= i < words(s)[k].len() ==> slug_char(#[trigger] words(s)[k][i]) by {
            if k == 0 {
                assert(words(s)[0] == s.take(n));
            } else {
                assert(words(s)[k] == rest[k - 1]);
            }
        }
    }
}

proof fn lemma_hyphenated_form(list: Seq<Seq<char>>)
    requires
        slug_words(list),
    ensures
        is_slug(hyphenated(list)),
        list.len() > 0 ==> hyphenated(list).len() > 0,
    decreases list.len(),
{
    if list.len() == 0 {
    } else if list.len() == 1 {
        assert(list[0].len() > 0);
    } else {
        let tail = list.skip(1);
        assert(slug_words(tail)) by {
            assert forall|k: int| 0 <= k < tail.len() implies (#[trigger] tail[k]).len() > 0
                && forall|i: int| 0 <= i < tail[k].len() ==> slug_char(#[trigger] tail[k][i]) by {
                assert(tail[k] == list[k + 1]);
            }
        }
        lemma_hyphenated_form(tail);
        let word = list[0];
        let more = hyphenated(tail);
        let all = hyphenated(list);
        let n = word.len() as int;
        assert(word.len() > 0);
        assert(all == word + seq!['-'] + more);
        assert forall|i: int| 0 <= i < all.len() implies slug_char(#[trigger] all[i]) || all[i]
            == '-' by {
            if i < n {
                assert(all[i] == word[i]);
            } else if i > n {
                assert(all[i] == more[i - n - 1]);
            }
        }
        assert forall|i: int| 0 <= i < all.len() - 1 && #[trigger] all[i] == '-' implies all[i + 1]
            != '-' by {
            if i < n {
                assert(all[i] == word[i]);
            } else if i == n {
                assert(all[i + 1] == more[0]);
            } else {
                assert(all[i] == more[i - n - 1]);
                assert(all[i + 1] == more[i - n]);
            }
        }
        assert(all[0] == word[0]);
        assert(all.last() == more.last());
    }
}

proof fn lemma_slug_form(s: Seq<char>)
    requires
        forall|i: int| 0 <= i < s.len() ==> !('A' <= #[trigger] s[i] <= 'Z'),
    ensures
        is_slug(slug_text(s)),
{
    lemma_words_form(s);
    lemma_hyphenated_form(words(s));
}

proof fn lemma_slug_fixed(s: Seq<char>)
    requires
        is_slug(s),
    ensures
        slug_text(s) == s,
        s.len() > 0 ==> words(s).len() > 0,
    decreases s.len(),
{
    if s.len() > 0 {
        assert(alphanumeric(s[0]));
        lemma_word_length(s);
        let n = word_length(s) as int;
        let rest = s.skip(n);
        if n == s.len() {
            assert(rest.len() == 0);
            assert(words(rest) == Seq::<Seq<char>>::empty());
            assert(words(s) == seq![s.take(n)]);
            assert(s.take(n) == s);
        } else {
            assert(s[n] == '-');
            assert(n < s.len() - 1);
            let tail = s.skip(n + 1);
            assert(rest.skip(1) == tail);
            assert(rest[0] == '-');
            assert(words(rest) == words(tail));
            assert(tail[0] == s[n + 1]);
            assert(tail.last() == s.last());
            assert forall|i: int| 0 <= i < tail.len() implies slug_char(#[trigger] tail[i])
                || tail[i] == '-' by {
                assert(tail[i] == s[n + 1 + i]);
            }
            assert forall|i: int| 0 <= i < tail.len() - 1 && #[trigger] tail[i] == '-' implies tail[
            i + 1] != '-' by {
                assert(tail[i] == s[n + 1 + i]);
                assert(tail[i + 1] == s[n + 1 + i + 1]);
            }
            lemma_slug_fixed(tail);
            assert(words(s) == seq![s.take(n)] + words(tail));
            assert(words(s).skip(1) == words(tail));
            assert(words(s)[0] == s.take(n));
            assert(s == s.take(n) + seq!['-'] + tail);
        }
    }
}

/// A text without upper-case ASCII letters has a slug in the form of one, and the slug of that
/// slug is the slug itself.
pub proof fn law_slug_is_stable(lowered: Seq<char>)
    requires
        forall|i: int| 0 <= i < lowered.len() ==> !('A' <= #[trigger] lowered[i] <= 'Z'),
    ensures
        is_slug(slug_text(lowered)),
        slug_text(slug_text(lowered)) == slug_text(lowered),
{
    lemma_slug_form(lowered);
    lemma_slug_fixed(slug_text(lowered));
}

proof fn lemma_ascii_case(c: char)
    ensures
        ascii_lower(ascii_upper(c)) == ascii_lower(c),
        ascii_lower(ascii_lower(c)) == ascii_lower(c),
{
}

/// The case of ASCII letters makes no difference to a slug.
pub proof fn law_ascii_case_leaves_the_slug(value: Seq<char>)
    ensures
        slugified(ascii_uppered(value)) == slugified(value),
        slugified(ascii_lowered(value)) == slugified(value),
{
    assert forall|i: int| 0 <= i < value.len() implies ascii_lower(ascii_upper(#[trigger] value[i]))
        == ascii_lower(value[i]) && ascii_lower(ascii_lower(value[i])) == ascii_lower(value[i]) by {
        lemma_ascii_case(value[i]);
    }
    assert(ascii_lowered(ascii_uppered(value)) == ascii_lowered(value));
    assert(ascii_lowered(ascii_lowered(value)) == ascii_lowered(value));
}

proof fn lemma_words_split(a: Seq<char>, c: char, b: Seq<char>)
    requires
        !alphanumeric(c),
    ensures
        words(a + seq![c] + b) == words(a) + words(b),
    decreases a.len(),
{
    let whole = a + seq![c] + b;
    if a.len() == 0 {
        assert(whole[0] == c);
        assert(whole.skip(1) == b);
    } else if !alphanumeric(a[0]) {
        assert(whole[0] == a[0]);
        assert(whole.skip(1) == a.skip(1) + seq![c] + b);
        lemma_words_split(a.skip(1), c, b);
    } else {
        lemma_word_length(a);
        let n = word_length(a);
        assert forall|i: int| 0 <= i < n implies alphanumeric(#[trigger] whole[i]) by {
            assert(whole[i] == a[i]);
        }
        assert(whole[n as int] == if n < a.len() {
            a[n as int]
        } else {
            c
        });
        lemma_word_length_unique(whole, n);
        assert(whole[0] == a[0]);
        assert(whole.take(n as int) == a.take(n as int));
        assert(whole.skip(n as int) == a.skip(n as int) + seq![c] + b);
        lemma_words_split(a.skip(n as int), c, b);
        assert(words(whole) == seq![a.take(n as int)] + words(a.skip(n as int)) + words(b));
    }
}

proof fn lemma_words_nonempty(s: Seq<char>)
    ensures
        forall|k: int| 0 <= k < words(s).len() ==> (#[trigger] words(s)[k]).len() > 0,
    decreases s.len(),
{
    if s.len() == 0 {
    } else if !alphanumeric(s[0]) {
        lemma_words_nonempty(s.skip(1));
        assert(words(s) == words(s.skip(1)));
    } else {
        lemma_word_length(s);
        let n = word_length(s) as int;
        lemma_words_nonempty(s.skip(n));
        assert forall|k: int| 0 <= k < words(s).len() implies (#[trigger] words(s)[k]).len() > 0 by {
            if k == 0 {
                assert(words(s)[0] == s.take(n));
            } else {
                assert(words(s)[k] == words(s.skip(n))[k - 1]);
            }
        }
    }
}

proof fn lemma_hyphenated_split(x: Seq<Seq<char>>, y: Seq<Seq<char>>)
    requires
        x.len() > 0,
        y.len() > 0,
    ensures
        hyphenated(x + y) == hyphenated(x) + seq!['-'] + hyphenated(y),
    decreases x.len(),
{
    let all = x + y;
    assert(all[0] == x[0]);
    if x.len() == 1 {
        assert(all.skip(1) == y);
    } else {
        assert(all.skip(1) == x.skip(1) + y);
        lemma_hyphenated_split(x.skip(1), y);
        assert(hyphenated(all) == hyphenated(x) + seq!['-'] + hyphenated(y));
    }
}

/// A character that is neither an ASCII letter nor a digit parts a text in two: the slug of the
/// whole is the slugs of the parts, with one hyphen between them where neither is empty.
pub proof fn law_slug_of_parts(a: Seq<char>, c: char, b: Seq<char>)
    requires
        !('0' <= c <= '9' || 'A' <= c <= 'Z' || 'a' <= c <= 'z'),
    ensures
        slug_text(a + seq![c] + b) == if slug_text(a).len() == 0 {
            slug_text(b)
        } else if slug_text(b).len() == 0 {
            slug_text(a)
        } else {
            slug_text(a) + seq!['-'] + slug_text(b)
        },
{
    lemma_words_split(a, c, b);
    lemma_words_nonempty(a);
    lemma_words_nonempty(b);
    lemma_hyphenated_nonempty(words(a));
    lemma_hyphenated_nonempty(words(b));
    if words(a).len() == 0 {
        assert(words(a) + words(b) == words(b));
    } else if words(b).len() == 0 {
        assert(words(a) + words(b) == words(a));
    } else {
        lemma_hyphenated_split(words(a), words(b));
    }
}

/// A slug names one folder on every system: it holds no separator, no dot and no colon.
pub proof fn law_slug_names_one_folder(s: Seq<char>)
    requires
        is_slug(s),
    ensures
        !s.contains('/'),
        !s.contains('\\'),
        !s.contains('.'),
        !s.contains(':'),
{
}

/// A run of ASCII letters and digits is its own slug, character for character.
pub proof fn law_word_is_its_own_slug(word: Seq<char>)
    requires
        forall|i: int|
            0 <= i < word.len() ==> '0' <= #[trigger] word[i] <= '9' || 'A' <= word[i] <= 'Z' || 'a'
                <= word[i] <= 'z',
    ensures
        slug_text(word) == word,
{
    if word.len() > 0 {
        assert forall|i: int| 0 <= i < word.len() implies alphanumeric(#[trigger] word[i]) by {}
        lemma_word_length_unique(word, word.len());
        assert(word.take(word.len() as int) == word);
        assert(word.skip(word.len() as int).len() == 0);
        assert(words(word.skip(word.len() as int)) == Seq::<Seq<char>>::empty());
        assert(words(word) == seq![word]);
    }
}

/// A text without ASCII letters and digits has no slug.
pub proof fn law_no_word_no_slug(s: Seq<char>)
    requires
        forall|i: int|
            0 <= i < s.len() ==> !('0' <= #[trigger] s[i] <= '9' || 'A' <= s[i] <= 'Z' || 'a' <= s[i]
                <= 'z'),
    ensures
        slug_text(s).len() == 0,
    decreases s.len(),
{
    if s.len() > 0 {
        assert(!alphanumeric(s[0]));
        let rest = s.skip(1);
        assert forall|i: int| 0 <= i < rest.len() implies !('0' <= #[trigger] rest[i] <= '9' || 'A'
            <= rest[i] <= 'Z' || 'a' <= rest[i] <= 'z') by {
            assert(rest[i] == s[i + 1]);
        }
        law_no_word_no_slug(rest);
    }
}

} // verus!
