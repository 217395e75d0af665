//! Text, seen as a sequence of characters: trimming, searching, splitting and joining.

use vstd::prelude::*;
use vstd::string::*;

verus! {

/// Whether `c` has the Unicode property `White_Space`.
pub open spec fn white_space(c: char) -> bool {
    ||| '\u{9}' <= c <= '\u{d}'
    ||| c == ' '
    ||| c == '\u{85}'
    ||| c == '\u{a0}'
    ||| c == '\u{1680}'
    ||| '\u{2000}' <= c <= '\u{200a}'
    ||| c == '\u{2028}'
    ||| c == '\u{2029}'
    ||| c == '\u{202f}'
    ||| c == '\u{205f}'
    ||| c == '\u{3000}'
}

/// `s` without its leading white space.
pub open spec fn trimmed_start(s: Seq<char>) -> Seq<char>
    decreases s.len(),
{
    if s.len() > 0 && white_space(s[0]) {
        trimmed_start(s.skip(1))
    } else {
        s
    }
}

/// `s` without its trailing white space.
pub open spec fn trimmed_end(s: Seq<char>) -> Seq<char>
    decreases s.len(),
{
    if s.len() > 0 && white_space(s.last()) {
        trimmed_end(s.drop_last())
    } else {
        s
    }
}

/// `s` without white space at either end.
pub open spec fn trimmed(s: Seq<char>) -> Seq<char> {
    trimmed_end(trimmed_start(s))
}

/// Whether `part` stands in `s` from position `at` on.
pub open spec fn occurs_at(s: Seq<char>, part: Seq<char>, at: int) -> bool {
    0 <= at && at + part.len() <= s.len() && s.subrange(at, at + part.len()) == part
}

/// Whether `part` stands anywhere in `s`.
pub open spec fn mentions(s: Seq<char>, part: Seq<char>) -> bool {
    exists|at: int| occurs_at(s, part, at)
}

/// The first position at or after `from` where `part` stands in `s`.
pub open spec fn position_from(s: Seq<char>, part: Seq<char>, from: nat) -> Option<nat>
    decreases s.len() + 1 - from,
{
    if from + part.len() > s.len() {
        None
    } else if occurs_at(s, part, from as int) {
        Some(from)
    } else {
        position_from(s, part, from + 1)
    }
}

/// What precedes the first `separator` in `s`, or all of `s` where there is none.
pub open spec fn before(s: Seq<char>, separator: Seq<char>) -> Seq<char> {
    match position_from(s, separator, 0) {
        Some(at) => s.take(at as int),
        None => s,
    }
}

/// What follows the first `separator` in `s`, if there is one.
pub open spec fn after(s: Seq<char>, separator: Seq<char>) -> Option<Seq<char>> {
    match position_from(s, separator, 0) {
        Some(at) => Some(s.skip((at + separator.len()) as int)),
        None => None,
    }
}

/// `s` without the copies of `prefix` that it begins with.
pub open spec fn without_prefixes(s: Seq<char>, prefix: Seq<char>) -> Seq<char>
    decreases s.len(),
{
    if 0 < prefix.len() && prefix.is_prefix_of(s) {
        without_prefixes(s.skip(prefix.len() as int), prefix)
    } else {
        s
    }
}

/// The characters of an optional string.
pub open spec fn opt_text(value: Option<String>) -> Option<Seq<char>> {
    match value {
        Some(t) => Some(t@),
        None => None,
    }
}

/// The characters of each string of a list.
pub open spec fn texts(list: Seq<String>) -> Seq<Seq<char>> {
    list.map_values(|t: String| t@)
}

/// Trimming leaves nothing to trim, and changes nothing where there is nothing to trim.
pub proof fn lemma_trimmed(s: Seq<char>)
    ensures
        trimmed(s).len() > 0 ==> !white_space(trimmed(s)[0]) && !white_space(trimmed(s).last()),
        s.len() > 0 && !white_space(s[0]) && !white_space(s.last()) ==> trimmed(s) == s,
        trimmed(trimmed(s)) == trimmed(s),
{
    lemma_trimmed_start(s);
    lemma_trimmed_end(trimmed_start(s));
    lemma_trimmed_end(s);
}

proof fn lemma_trimmed_start(s: Seq<char>)
    ensures
        trimmed_start(s).len() > 0 ==> !white_space(trimmed_start(s)[0]),
    decreases s.len(),
{
    if s.len() > 0 && white_space(s[0]) {
        lemma_trimmed_start(s.skip(1));
    }
}

proof fn lemma_trimmed_end(s: Seq<char>)
    ensures
        trimmed_end(s).is_prefix_of(s),
        trimmed_end(s).len() > 0 ==> !white_space(trimmed_end(s).last()),
    decreases s.len(),
{
    if s.len() > 0 && white_space(s.last()) {
        lemma_trimmed_end(s.drop_last());
    }
}

/// A prefix without the first character of `separator` lies wholly before the first `separator`.
pub proof fn lemma_position_after_prefix(prefix: Seq<char>, s: Seq<char>, separator: Seq<char>)
    requires
        separator.len() > 0,
        !prefix.contains(separator[0]),
    ensures
        position_from(prefix + s, separator, 0) == match position_from(s, separator, 0) {
            Some(at) => Some(prefix.len() + at),
            None => None,
        },
        before(prefix + s, separator) == prefix + before(s, separator),
        after(prefix + s, separator) == after(s, separator),
{
    lemma_position_skips(prefix, s, separator, 0);
    lemma_position_shifts(prefix, s, separator, 0);
    let whole = prefix + s;
    match position_from(s, separator, 0) {
        Some(at) => {
            lemma_position_bound(s, separator, 0);
            assert(whole.take((prefix.len() + at) as int) == prefix + s.take(at as int));
            assert(whole.skip((prefix.len() + at + separator.len()) as int) == s.skip(
                (at + separator.len()) as int,
            ));
        },
        None => {},
    }
}

/// What is found stands where it was found.
pub proof fn lemma_position_bound(s: Seq<char>, separator: Seq<char>, from: nat)
    ensures
        position_from(s, separator, from) matches Some(at) ==> at + separator.len() <= s.len()
            && occurs_at(s, separator, at as int),
    decreases s.len() + 1 - from,
{
    if from + separator.len() <= s.len() && !occurs_at(s, separator, from as int) {
        lemma_position_bound(s, separator, from + 1);
    }
}

/// Where `part` stands in `s` at or after `from`, it is found.
pub proof fn lemma_position_found(s: Seq<char>, part: Seq<char>, from: nat, at: nat)
    requires
        from <= at,
        occurs_at(s, part, at as int),
    ensures
        position_from(s, part, from) is Some,
    decreases at - from,
{
    if from < at && !occurs_at(s, part, from as int) {
        lemma_position_found(s, part, from + 1, at);
    }
}

proof fn lemma_position_first(s: Seq<char>, c: char, from: nat)
    ensures
        match position_from(s, seq![c], from) {
            Some(at) => from <= at < s.len() && forall|i: int|
                from <= i < at ==> #[trigger] s[i] != c,
            None => forall|i: int| from <= i < s.len() ==> #[trigger] s[i] != c,
        },
    decreases s.len() + 1 - from,
{
    if from + 1 <= s.len() {
        assert(s.subrange(from as int, from as int + 1) == seq![s[from as int]]);
        if !occurs_at(s, seq![c], from as int) {
            assert(s[from as int] != c);
            lemma_position_first(s, c, from + 1);
        } else {
            assert(seq![s[from as int]][0] == c);
        }
    }
}

/// What precedes the first `c` begins `s` and holds no `c`.
pub proof fn lemma_before_char(s: Seq<char>, c: char)
    ensures
        before(s, seq![c]).is_prefix_of(s),
        !before(s, seq![c]).contains(c),
        !s.contains(c) ==> before(s, seq![c]) == s,
{
    lemma_position_first(s, c, 0);
    match position_from(s, seq![c], 0) {
        Some(at) => {
            lemma_position_bound(s, seq![c], 0);
            assert(s.subrange(at as int, at as int + 1)[0] == c);
            assert(s[at as int] == c);
        },
        None => {},
    }
}

/// Dropping what `s` begins with adds no character.
pub proof fn lemma_without_prefixes_keeps(s: Seq<char>, prefix: Seq<char>, c: char)
    requires
        !s.contains(c),
    ensures
        !without_prefixes(s, prefix).contains(c),
    decreases s.len(),
{
    if 0 < prefix.len() && prefix.is_prefix_of(s) {
        let rest = s.skip(prefix.len() as int);
        assert(!rest.contains(c)) by {
            assert forall|i: int| 0 <= i < rest.len() implies #[trigger] rest[i] != c by {
                assert(rest[i] == s[i + prefix.len()]);
            }
        }
        lemma_without_prefixes_keeps(rest, prefix, c);
    }
}

proof fn lemma_position_skips(prefix: Seq<char>, s: Seq<char>, separator: Seq<char>, from: nat)
    requires
        separator.len() > 0,
        !prefix.contains(separator[0]),
        from <= prefix.len(),
    ensures
        position_from(prefix + s, separator, from) == position_from(
            prefix + s,
            separator,
            prefix.len(),
        ),
    decreases prefix.len() - from,
{
    let whole = prefix + s;
    if from < prefix.len() {
        assert(prefix[from as int] == whole[from as int]);
        if occurs_at(whole, separator, from as int) {
            assert(whole.subrange(from as int, (from + separator.len()) as int)[0] == separator[0]);
            assert(prefix.contains(separator[0]));
        }
        lemma_position_skips(prefix, s, separator, from + 1);
    }
}

proof fn lemma_position_shifts(prefix: Seq<char>, s: Seq<char>, separator: Seq<char>, from: nat)
    ensures
        position_from(prefix + s, separator, prefix.len() + from) == match position_from(
            s,
            separator,
            from,
        ) {
            Some(at) => Some(prefix.len() + at),
            None => None,
        },
    decreases s.len() + 1 - from,
{
    let whole = prefix + s;
    if from + separator.len() <= s.len() {
        assert(whole.subrange(
            (prefix.len() + from) as int,
            (prefix.len() + from + separator.len()) as int,
        ) == s.subrange(from as int, (from + separator.len()) as int));
        if !occurs_at(s, separator, from as int) {
            lemma_position_shifts(prefix, s, separator, from + 1);
        }
    }
}

/// A copy of an optional string.
pub fn copy_opt(value: &Option<String>) -> (r: Option<String>)
    ensures
        opt_text(r) == opt_text(*value),
{
    match value {
        Some(t) => Some(t.clone()),
        None => None,
    }
}

/// The characters of `s` in a vector.
pub fn chars_of(s: &str) -> (r: Vec<char>)
    ensures
        r@ == s@,
{
    let mut out: Vec<char> = Vec::new();
    for c in it: s.chars()
        invariant
            it.seq() == s@,
            out@ == s@.take(it.index() as int),
    {
        out.push(c);
    }
    assert(s@.take(s@.len() as int) == s@);
    out
}

/// Whether `c` is white space.
pub fn is_white_space(c: char) -> (r: bool)
    ensures
        r == white_space(c),
{
    ('\u{9}' <= c && c <= '\u{d}') || c == ' ' || c == '\u{85}' || c == '\u{a0}' || c == '\u{1680}'
        || ('\u{2000}' <= c && c <= '\u{200a}') || c == '\u{2028}' || c == '\u{2029}' || c
        == '\u{202f}' || c == '\u{205f}' || c == '\u{3000}'
}

/// `s` without white space at either end.
pub fn trim(s: &str) -> (r: &str)
    ensures
        r@ == trimmed(s@),
{
    let chars: Vec<char> = chars_of(s);
    let mut from: usize = 0;
    assert(s@.skip(0) == s@);
    while from < chars.len() && is_white_space(chars[from])
        invariant
            chars@ == s@,
            from <= chars.len(),
            trimmed_start(s@) == trimmed_start(s@.skip(from as int)),
        decreases chars.len() - from,
    {
        assert(s@.skip(from as int).skip(1) == s@.skip(from + 1));
        from = from + 1;
    }
    let mut to: usize = chars.len();
    assert(s@.subrange(from as int, to as int) == s@.skip(from as int));
    while from < to && is_white_space(chars[to - 1])
        invariant
            chars@ == s@,
            from <= to <= chars.len(),
            trimmed(s@) == trimmed_end(s@.subrange(from as int, to as int)),
        decreases to - from,
    {
        assert(s@.subrange(from as int, to as int).drop_last() == s@.subrange(
            from as int,
            to - 1,
        ));
        to = to - 1;
    }
    s.substring_char(from, to)
}

/// Whether `part` stands in `s` from position `at` on.
fn stands_at(s: &Vec<char>, part: &Vec<char>, at: usize) -> (r: bool)
    requires
        at + part.len() <= s.len(),
    ensures
        r == occurs_at(s@, part@, at as int),
{
    let mut i: usize = 0;
    while i < part.len()
        invariant
            at + part.len() <= s.len(),
            i <= part.len(),
            forall|k: int| 0 <= k < i ==> s@[at + k] == part@[k],
        decreases part.len() - i,
    {
        if s[at + i] != part[i] {
            assert(s@.subrange(at as int, at + part.len())[i as int] != part@[i as int]);
            return false;
        }
        i = i + 1;
    }
    assert(s@.subrange(at as int, at + part.len()) == part@);
    true
}

/// Whether `s` begins with `prefix`.
pub fn begins_with(s: &str, prefix: &str) -> (r: bool)
    ensures
        r == prefix@.is_prefix_of(s@),
{
    let chars: Vec<char> = chars_of(s);
    let wanted: Vec<char> = chars_of(prefix);
    if wanted.len() > chars.len() {
        return false;
    }
    let r = stands_at(&chars, &wanted, 0);
    assert(occurs_at(s@, prefix@, 0) == prefix@.is_prefix_of(s@));
    r
}

/// Whether the characters of `a` and `b` are the same.
pub fn same_text(a: &str, b: &str) -> (r: bool)
    ensures
        r == (a@ == b@),
{
    let left: Vec<char> = chars_of(a);
    let right: Vec<char> = chars_of(b);
    if left.len() != right.len() {
        return false;
    }
    let r = stands_at(&left, &right, 0);
    assert(a@.subrange(0, a@.len() as int) == a@);
    r
}

/// Whether `c` is among the characters of `s`.
pub fn has_char(s: &str, c: char) -> (r: bool)
    ensures
        r == s@.contains(c),
{
    let chars: Vec<char> = chars_of(s);
    let mut i: usize = 0;
    while i < chars.len()
        invariant
            chars@ == s@,
            i <= chars.len(),
            forall|k: int| 0 <= k < i ==> s@[k] != c,
        decreases chars.len() - i,
    {
        if chars[i] == c {
            assert(s@[i as int] == c);
            return true;
        }
        i = i + 1;
    }
    false
}

/// The first position of `part` in `s`.
pub fn find(s: &str, part: &str) -> (r: Option<usize>)
    ensures
        r is Some == position_from(s@, part@, 0) is Some,
        r matches Some(at) ==> position_from(s@, part@, 0) == Some(at as nat) && occurs_at(
            s@,
            part@,
            at as int,
        ),
{
    let chars: Vec<char> = chars_of(s);
    let wanted: Vec<char> = chars_of(part);
    let mut at: usize = 0;
    while at < chars.len() && wanted.len() <= chars.len() - at
        invariant
            chars@ == s@,
            wanted@ == part@,
            at <= chars.len(),
            position_from(s@, part@, 0) == position_from(s@, part@, at as nat),
        decreases chars.len() - at,
    {
        if stands_at(&chars, &wanted, at) {
            return Some(at);
        }
        at = at + 1;
    }
    if wanted.len() <= chars.len() - at {
        assert(s@.subrange(at as int, at as int) == part@);
        Some(at)
    } else {
        None
    }
}

/// What precedes the first `separator` in `s`, or all of `s` where there is none.
pub fn text_before<'a>(s: &'a str, separator: &str) -> (r: &'a str)
    ensures
        r@ == before(s@, separator@),
{
    match find(s, separator) {
        Some(at) => s.substring_char(0, at),
        None => s,
    }
}

/// What follows the first `separator` in `s`, if there is one.
pub fn text_after<'a>(s: &'a str, separator: &str) -> (r: Option<&'a str>)
    ensures
        r is Some == after(s@, separator@) is Some,
        r matches Some(rest) ==> after(s@, separator@) == Some(rest@),
{
    match find(s, separator) {
        Some(at) => {
            let to: usize = s.unicode_len();
            Some(s.substring_char(at + separator.unicode_len(), to))
        },
        None => None,
    }
}

/// `s` without the copies of `prefix` that it begins with.
pub fn strip_prefixes<'a>(s: &'a str, prefix: &str) -> (r: &'a str)
    ensures
        r@ == without_prefixes(s@, prefix@),
{
    let step: usize = prefix.unicode_len();
    let mut rest: &'a str = s;
    while step > 0 && begins_with(rest, prefix)
        invariant
            step == prefix@.len(),
            without_prefixes(s@, prefix@) == without_prefixes(rest@, prefix@),
        decreases rest@.len(),
    {
        let ghost held: Seq<char> = rest@;
        rest = rest.substring_char(step, rest.unicode_len());
        assert(rest@ == held.skip(step as int));
    }
    rest
}

/// Whether `s` is made of white space alone.
pub open spec fn blank(s: Seq<char>) -> bool {
    forall|i: int| 0 <= i < s.len() ==> white_space(#[trigger] s[i])
}

/// Whether `s` neither begins nor ends with white space.
pub open spec fn bare(s: Seq<char>) -> bool {
    s.len() > 0 ==> !white_space(s[0]) && !white_space(s.last())
}

proof fn lemma_trimmed_start_skips(front: Seq<char>, s: Seq<char>)
    requires
        blank(front),
    ensures
        trimmed_start(front + s) == trimmed_start(s),
    decreases front.len(),
{
    if front.len() == 0 {
        assert(front + s == s);
    } else {
        let fewer = front.skip(1);
        assert(white_space(front[0]));
        assert((front + s)[0] == front[0]);
        assert((front + s).skip(1) == fewer + s);
        assert forall|i: int| 0 <= i < fewer.len() implies white_space(#[trigger] fewer[i]) by {
            assert(fewer[i] == front[i + 1]);
        }
        lemma_trimmed_start_skips(fewer, s);
    }
}

proof fn lemma_trimmed_end_skips(s: Seq<char>, back: Seq<char>)
    requires
        blank(back),
    ensures
        trimmed_end(s + back) == trimmed_end(s),
    decreases back.len(),
{
    if back.len() == 0 {
        assert(s + back == s);
    } else {
        let fewer = back.drop_last();
        assert(white_space(back[back.len() - 1]));
        assert((s + back).last() == back.last());
        assert((s + back).drop_last() == s + fewer);
        assert forall|i: int| 0 <= i < fewer.len() implies white_space(#[trigger] fewer[i]) by {
            assert(fewer[i] == back[i]);
        }
        lemma_trimmed_end_skips(s, fewer);
    }
}

/// Trimming takes away the white space at both ends, and nothing else: what stands between it is
/// kept character for character.
pub proof fn law_only_padding_is_trimmed(front: Seq<char>, core: Seq<char>, back: Seq<char>)
    requires
        blank(front),
        blank(back),
        bare(core),
    ensures
        trimmed(front + core + back) == core,
{
    assert(front + core + back == front + (core + back));
    lemma_trimmed_start_skips(front, core + back);
    if core.len() == 0 {
        let none = Seq::<char>::empty();
        assert(core + back == back + none);
        lemma_trimmed_start_skips(back, none);
    } else {
        assert((core + back)[0] == core[0]);
        lemma_trimmed_end_skips(core, back);
    }
}

/// A text is split at the first place where the separator stands: what precedes it and what follows
/// it are kept character for character.
pub proof fn law_split_at_the_first_separator(
    front: Seq<char>,
    separator: Seq<char>,
    back: Seq<char>,
)
    requires
        separator.len() > 0,
        forall|i: int|
            0 <= i < front.len() ==> #[trigger] (front + separator + back).subrange(
                i,
                i + separator.len(),
            ) != separator,
    ensures
        before(front + separator + back, separator) == front,
        after(front + separator + back, separator) == Some(back),
{
    let whole = front + separator + back;
    let n = front.len();
    assert(whole.subrange(n as int, (n + separator.len()) as int) == separator);
    lemma_position_found(whole, separator, 0, n);
    lemma_position_bound(whole, separator, 0);
    lemma_position_least(whole, separator, 0, n);
    assert(whole.take(n as int) == front);
    assert(whole.skip((n + separator.len()) as int) == back);
}

proof fn lemma_position_least(s: Seq<char>, part: Seq<char>, from: nat, at: nat)
    requires
        from <= at,
        occurs_at(s, part, at as int),
        forall|i: int| from <= i < at ==> #[trigger] s.subrange(i, i + part.len()) != part,
    ensures
        position_from(s, part, from) == Some(at),
    decreases at - from,
{
    if from < at {
        assert(s.subrange(from as int, from as int + part.len()) != part);
        lemma_position_least(s, part, from + 1, at);
    }
}

/// A text without the separator is not split.
pub proof fn law_nothing_to_split(s: Seq<char>, separator: Seq<char>)
    requires
        separator.len() > 0,
        forall|i: int|
            0 <= i <= s.len() - separator.len() ==> #[trigger] s.subrange(i, i + separator.len())
                != separator,
    ensures
        before(s, separator) == s,
        after(s, separator) is None,
{
    lemma_position_bound(s, separator, 0);
    match position_from(s, separator, 0) {
        Some(at) => {
            assert(s.subrange(at as int, at as int + separator.len()) == separator);
        },
        None => {},
    }
}

/// Copies of a prefix are dropped one by one, and only whole ones.
pub proof fn law_only_whole_prefixes_are_dropped(prefix: Seq<char>, s: Seq<char>)
    requires
        prefix.len() > 0,
    ensures
        without_prefixes(prefix + s, prefix) == without_prefixes(s, prefix),
        s.len() < prefix.len() || s.take(prefix.len() as int) != prefix ==> without_prefixes(
            s,
            prefix,
        ) == s,
{
    let whole = prefix + s;
    assert(whole.take(prefix.len() as int) == prefix);
    assert(prefix.is_prefix_of(whole));
    assert(whole.skip(prefix.len() as int) == s);
    if prefix.is_prefix_of(s) {
        assert(s.take(prefix.len() as int) == prefix);
    }
}

/// Optional strings and lists of strings are seen by all their characters.
pub proof fn law_strings_are_seen_whole(value: String, list: Seq<String>, i: int)
    requires
        0 <= i < list.len(),
    ensures
        opt_text(Some(value)) == Some(value@),
        opt_text(None) is None,
        texts(list).len() == list.len(),
        texts(list)[i] == list[i]@,
{
}

} // verus!
