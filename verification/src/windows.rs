//! How Windows joins the text of two paths: prefixes such as drives and servers, and the verbatim
//! paths that begin with `\\?\`.

use vstd::prelude::*;
use vstd::string::*;

use crate::text::{begins_with, chars_of, same_text, texts};

verus! {

/// Whether `c` separates the parts of a path.
pub open spec fn slash(c: char) -> bool {
    c == '/' || c == '\\'
}

/// Whether `c` ends a name. In a verbatim path only the backslash does.
pub open spec fn ends_name(c: char, verbatim: bool) -> bool {
    c == '\\' || (c == '/' && !verbatim)
}

/// Where the name ends that begins at `from`.
pub open spec fn name_end(text: Seq<char>, from: nat, verbatim: bool) -> nat
    decreases text.len() - from,
{
    if from >= text.len() || ends_name(text[from as int], verbatim) {
        from
    } else {
        name_end(text, from + 1, verbatim)
    }
}

/// Where the share ends whose server begins at `from`; the end of the server where no share is
/// named.
pub open spec fn share_end(text: Seq<char>, from: nat, verbatim: bool) -> nat {
    let server = name_end(text, from, verbatim);
    if server >= text.len() {
        server
    } else {
        let share = name_end(text, server + 1, verbatim);
        if share > server + 1 {
            share
        } else {
            server
        }
    }
}

/// Whether `text` begins with a drive, such as `C:`.
pub open spec fn has_drive(text: Seq<char>) -> bool {
    text.len() >= 2 && ('A' <= text[0] <= 'Z' || 'a' <= text[0] <= 'z') && text[1] == ':'
}

/// Whether `text` is verbatim: the system takes what follows `\\?\` as it stands.
pub open spec fn is_verbatim(text: Seq<char>) -> bool {
    "\\\\?\\"@.is_prefix_of(text)
}

/// How many characters name the drive, the server with its share, or the device of a path; none
/// where the path names none of them.
pub open spec fn prefix_length(text: Seq<char>) -> nat {
    if text.len() >= 2 && slash(text[0]) && slash(text[1]) {
        if is_verbatim(text) {
            if text.len() >= 8 && text.subrange(4, 7) == "UNC"@ && slash(text[7]) {
                share_end(text, 8, true)
            } else if has_drive(text.skip(4)) && (text.len() == 6 || slash(text[6])) {
                6
            } else {
                name_end(text, 4, true)
            }
        } else if text.len() >= 4 && text[2] == '.' && slash(text[3]) {
            name_end(text, 4, false)
        } else {
            let server = name_end(text, 2, false);
            let share = share_end(text, 2, false);
            if server > 2 && share > server {
                share
            } else {
                0
            }
        }
    } else if has_drive(text) {
        2
    } else {
        0
    }
}

/// The names in `text`, in order, without the empty ones.
pub open spec fn names(text: Seq<char>, verbatim: bool) -> Seq<Seq<char>>
    decreases text.len(),
{
    if text.len() == 0 {
        Seq::empty()
    } else if ends_name(text[0], verbatim) {
        names(text.skip(1), verbatim)
    } else {
        proof {
            lemma_name_end(text, 0, verbatim);
        }
        let end = name_end(text, 0, verbatim) as int;
        seq![text.take(end)] + names(text.skip(end), verbatim)
    }
}

/// Whether `name` stands for the directory itself or for the one above it.
pub open spec fn dots(name: Seq<char>) -> bool {
    name == "."@ || name == ".."@
}

/// The names on the way to `name`, seen from where `way` leads.
pub open spec fn entered(way: Seq<Seq<char>>, name: Seq<char>) -> Seq<Seq<char>> {
    if name == "."@ {
        way
    } else if name == ".."@ {
        if way.len() > 0 && !dots(way.last()) {
            way.drop_last()
        } else {
            way
        }
    } else {
        way.push(name)
    }
}

/// The names on the way through all of `list`, seen from where `way` leads.
pub open spec fn entered_all(way: Seq<Seq<char>>, list: Seq<Seq<char>>) -> Seq<Seq<char>>
    decreases list.len(),
{
    if list.len() == 0 {
        way
    } else {
        entered_all(entered(way, list[0]), list.skip(1))
    }
}

/// The names of `way`, with a backslash before each.
pub open spec fn way_text(way: Seq<Seq<char>>) -> Seq<char>
    decreases way.len(),
{
    if way.len() == 0 {
        Seq::empty()
    } else {
        way_text(way.drop_last()) + "\\"@ + way.last()
    }
}

/// What follows the prefix of a path.
pub open spec fn after_prefix(text: Seq<char>) -> Seq<char> {
    text.skip(prefix_length(text) as int)
}

/// Whether `text` begins at the root.
pub open spec fn at_root(text: Seq<char>) -> bool {
    text.len() > 0 && slash(text[0])
}

/// The names of a verbatim path after its prefix.
pub open spec fn verbatim_way(base: Seq<char>) -> Seq<Seq<char>> {
    let rest = after_prefix(base);
    names(
        if at_root(rest) {
            rest.skip(1)
        } else {
            rest
        },
        true,
    )
}

/// A verbatim path, joined with a part that has no prefix. It is put together anew from its names,
/// with one backslash before each; `.` and `..` of the part are followed, those of the path are
/// kept.
pub open spec fn verbatim_joined(base: Seq<char>, part: Seq<char>) -> Seq<char> {
    let start = if at_root(part) {
        Seq::empty()
    } else {
        verbatim_way(base)
    };
    let way = entered_all(start, names(part, false));
    let root = if way.len() == 0 && (at_root(part) || at_root(after_prefix(base))) {
        "\\"@
    } else {
        Seq::empty()
    };
    base.take(prefix_length(base) as int) + root + way_text(way)
}

/// Whether a part can follow `base` with no separator between them.
pub open spec fn open_ended(base: Seq<char>) -> bool {
    base.len() == 0 || slash(base.last()) || (base.len() == 2 && has_drive(base))
}

/// `part`, taken relative to `base`. A part with a prefix stands alone. A part that begins at the
/// root keeps the prefix of `base`, whatever its kind. Any other follows `base` after a separator.
pub open spec fn windows_joined(base: Seq<char>, part: Seq<char>) -> Seq<char> {
    if prefix_length(part) > 0 {
        part
    } else if is_verbatim(base) && part.len() > 0 {
        verbatim_joined(base, part)
    } else if at_root(part) {
        base.take(prefix_length(base) as int) + part
    } else if open_ended(base) {
        base + part
    } else {
        base + "\\"@ + part
    }
}

/// A name ends at the first character that ends one, or with the text.
pub proof fn lemma_name_end(text: Seq<char>, from: nat, verbatim: bool)
    requires
        from <= text.len(),
    ensures
        ({
            let end = name_end(text, from, verbatim);
            &&& from <= end <= text.len()
            &&& forall|i: int| from <= i < end ==> !ends_name(#[trigger] text[i], verbatim)
            &&& end < text.len() ==> ends_name(text[end as int], verbatim)
            &&& from < text.len() && !ends_name(text[from as int], verbatim) ==> from < end
        }),
    decreases text.len() - from,
{
    if from < text.len() && !ends_name(text[from as int], verbatim) {
        lemma_name_end(text, from + 1, verbatim);
    }
}

/// A name ends in one place only.
pub proof fn lemma_name_end_unique(text: Seq<char>, from: nat, verbatim: bool, end: nat)
    requires
        from <= end <= text.len(),
        forall|i: int| from <= i < end ==> !ends_name(#[trigger] text[i], verbatim),
        end < text.len() ==> ends_name(text[end as int], verbatim),
    ensures
        name_end(text, from, verbatim) == end,
{
    lemma_name_end(text, from, verbatim);
    let found = name_end(text, from, verbatim);
    if found < end {
        assert(!ends_name(text[found as int], verbatim));
    }
    if end < found {
        assert(!ends_name(text[end as int], verbatim));
    }
}

/// Where the name ends that begins at `from`.
fn find_name_end(text: &Vec<char>, from: usize, verbatim: bool) -> (r: usize)
    requires
        from <= text.len(),
    ensures
        r == name_end(text@, from as nat, verbatim),
        from <= r <= text.len(),
{
    let mut at: usize = from;
    while at < text.len() && !(text[at] == '\\' || (text[at] == '/' && !verbatim))
        invariant
            from <= at <= text.len(),
            name_end(text@, from as nat, verbatim) == name_end(text@, at as nat, verbatim),
        decreases text.len() - at,
    {
        at = at + 1;
    }
    at
}

/// Where the share ends whose server begins at `from`.
fn find_share_end(text: &Vec<char>, from: usize, verbatim: bool) -> (r: usize)
    requires
        from <= text.len(),
    ensures
        r == share_end(text@, from as nat, verbatim),
        r <= text.len(),
{
    let server: usize = find_name_end(text, from, verbatim);
    if server >= text.len() {
        return server;
    }
    let share: usize = find_name_end(text, server + 1, verbatim);
    if share > server + 1 {
        share
    } else {
        server
    }
}

/// Whether `c` separates the parts of a path.
fn is_slash(c: char) -> (r: bool)
    ensures
        r == slash(c),
{
    c == '/' || c == '\\'
}

/// Whether a drive stands in `text` from `at` on.
fn drive_at(text: &Vec<char>, at: usize) -> (r: bool)
    requires
        at <= text.len(),
    ensures
        r == has_drive(text@.skip(at as int)),
{
    text.len() - at >= 2 && (('A' <= text[at] && text[at] <= 'Z') || ('a' <= text[at] && text[at]
        <= 'z')) && text[at + 1] == ':'
}

/// How many characters of `text` name a drive, a server with its share, or a device.
fn count_prefix(text: &Vec<char>) -> (r: usize)
    ensures
        r == prefix_length(text@),
        r <= text.len(),
{
    assert(text@.skip(0) == text@);
    if text.len() < 2 || !is_slash(text[0]) || !is_slash(text[1]) {
        return if drive_at(text, 0) {
            2
        } else {
            0
        };
    }
    let marked = text.len() >= 4 && text[0] == '\\' && text[1] == '\\' && text[2] == '?' && text[3]
        == '\\';
    proof {
        reveal_strlit("\\\\?\\");
        reveal_strlit("UNC");
        if marked {
            assert("\\\\?\\"@ == text@.take(4));
        } else if is_verbatim(text@) {
            assert(text@[0] == "\\\\?\\"@[0] && text@[1] == "\\\\?\\"@[1]);
            assert(text@[2] == "\\\\?\\"@[2] && text@[3] == "\\\\?\\"@[3]);
        }
    }
    if marked {
        let server = text.len() >= 8 && text[4] == 'U' && text[5] == 'N' && text[6] == 'C'
            && is_slash(text[7]);
        proof {
            if text@.len() >= 8 {
                let word = text@.subrange(4, 7);
                assert(word[0] == text@[4] && word[1] == text@[5] && word[2] == text@[6]);
                if server {
                    assert(word == "UNC"@);
                }
            }
        }
        if server {
            find_share_end(text, 8, true)
        } else if drive_at(text, 4) && (text.len() == 6 || is_slash(text[6])) {
            6
        } else {
            find_name_end(text, 4, true)
        }
    } else if text.len() >= 4 && text[2] == '.' && is_slash(text[3]) {
        find_name_end(text, 4, false)
    } else {
        let server: usize = find_name_end(text, 2, false);
        let share: usize = find_share_end(text, 2, false);
        if server > 2 && share > server {
            share
        } else {
            0
        }
    }
}

/// The names in `text`, in order, without the empty ones.
fn split_names(text: &str, verbatim: bool) -> (r: Vec<String>)
    ensures
        texts(r@) == names(text@, verbatim),
{
    let chars: Vec<char> = chars_of(text);
    let mut out: Vec<String> = Vec::new();
    let mut at: usize = 0;
    assert(text@.skip(0) == text@);
    assert(texts(out@) + names(text@, verbatim) == names(text@, verbatim));
    while at < chars.len()
        invariant
            chars@ == text@,
            at <= chars.len(),
            texts(out@) + names(text@.skip(at as int), verbatim) == names(text@, verbatim),
        decreases chars.len() - at,
    {
        let ghost rest: Seq<char> = text@.skip(at as int);
        if chars[at] == '\\' || (chars[at] == '/' && !verbatim) {
            assert(rest.skip(1) == text@.skip(at + 1));
            at = at + 1;
        } else {
            let end: usize = find_name_end(&chars, at, verbatim);
            let name = text.substring_char(at, end).to_string();
            let ghost held: Seq<String> = out@;
            proof {
                lemma_name_end(text@, at as nat, verbatim);
                let n = (end - at) as nat;
                assert forall|i: int| 0 <= i < n implies !ends_name(#[trigger] rest[i], verbatim) by {
                    assert(rest[i] == text@[at + i]);
                }
                if n < rest.len() {
                    assert(rest[n as int] == text@[end as int]);
                }
                lemma_name_end_unique(rest, 0, verbatim, n);
                assert(rest.take(n as int) == name@);
                assert(rest.skip(n as int) == text@.skip(end as int));
            }
            out.push(name);
            assert(texts(out@) == texts(held).push(name@));
            assert(texts(held) + (seq![name@] + names(text@.skip(end as int), verbatim))
                == texts(out@) + names(text@.skip(end as int), verbatim));
            at = end;
        }
    }
    assert(text@.skip(at as int) == Seq::<char>::empty());
    assert(texts(out@) + Seq::<Seq<char>>::empty() == texts(out@));
    out
}

/// Goes on from where `way` leads to `name`.
fn enter(way: &mut Vec<String>, name: &str)
    ensures
        texts(final(way)@) == entered(texts(old(way)@), name@),
{
    let ghost held: Seq<String> = way@;
    if same_text(name, ".") {
        return;
    }
    if same_text(name, "..") {
        let length: usize = way.len();
        if length > 0 {
            assert(texts(held).last() == held.last()@);
            let last = way[length - 1].as_str();
            if !same_text(last, ".") && !same_text(last, "..") {
                way.pop();
                assert(texts(way@) == texts(held).drop_last());
            }
        }
        return;
    }
    way.push(name.to_string());
    assert(texts(way@) == texts(held).push(name@));
}

/// A verbatim path, joined with a part that has no prefix.
fn join_verbatim(base: &str, part: &str) -> (r: String)
    ensures
        r@ == verbatim_joined(base@, part@),
{
    let chars: Vec<char> = chars_of(base);
    let next: Vec<char> = chars_of(part);
    let length: usize = count_prefix(&chars);
    let from_root = next.len() > 0 && is_slash(next[0]);
    let rooted = length < chars.len() && is_slash(chars[length]);
    let ghost rest: Seq<char> = after_prefix(base@);
    let mut way: Vec<String> = Vec::new();
    if !from_root {
        let from: usize = if rooted {
            length + 1
        } else {
            length
        };
        let own = base.substring_char(from, base.unicode_len());
        assert(own@ == if at_root(rest) {
            rest.skip(1)
        } else {
            rest
        });
        way = split_names(own, true);
    }
    let ghost start: Seq<Seq<char>> = texts(way@);
    assert(from_root ==> start == Seq::<Seq<char>>::empty());
    let list = split_names(part, false);
    let mut i: usize = 0;
    assert(texts(list@).skip(0) == texts(list@));
    while i < list.len()
        invariant
            i <= list.len(),
            entered_all(start, texts(list@)) == entered_all(
                texts(way@),
                texts(list@).skip(i as int),
            ),
        decreases list.len() - i,
    {
        assert(texts(list@).skip(i as int)[0] == list@[i as int]@);
        assert(texts(list@).skip(i as int).skip(1) == texts(list@).skip(i + 1));
        enter(&mut way, list[i].as_str());
        i = i + 1;
    }
    assert(texts(list@).skip(i as int).len() == 0);
    let ghost whole: Seq<Seq<char>> = texts(way@);
    let mut out = base.substring_char(0, length).to_string();
    assert(out@ == base@.take(length as int));
    if way.len() == 0 && (from_root || rooted) {
        out.append("\\");
    }
    let ghost front: Seq<char> = out@;
    let mut k: usize = 0;
    assert(whole.take(0) == Seq::<Seq<char>>::empty());
    while k < way.len()
        invariant
            k <= way.len(),
            whole == texts(way@),
            out@ == front + way_text(whole.take(k as int)),
        decreases way.len() - k,
    {
        assert(whole.take(k + 1).drop_last() == whole.take(k as int));
        assert(whole.take(k + 1).last() == way@[k as int]@);
        out.append("\\");
        out.append(way[k].as_str());
        k = k + 1;
        assert(out@ == front + way_text(whole.take(k as int)));
    }
    assert(whole.take(k as int) == whole);
    out
}

/// `part`, taken relative to `base`, as Windows writes it.
pub fn join_windows(base: &str, part: &str) -> (r: String)
    ensures
        r@ == windows_joined(base@, part@),
{
    let chars: Vec<char> = chars_of(base);
    let next: Vec<char> = chars_of(part);
    if count_prefix(&next) > 0 {
        return part.to_string();
    }
    if next.len() > 0 && begins_with(base, "\\\\?\\") {
        return join_verbatim(base, part);
    }
    if next.len() > 0 && is_slash(next[0]) {
        let length: usize = count_prefix(&chars);
        return base.substring_char(0, length).to_string().concat(part);
    }
    assert(chars@.skip(0) == chars@);
    if chars.len() == 0 || is_slash(chars[chars.len() - 1]) || (chars.len() == 2 && drive_at(
        &chars,
        0,
    )) {
        return base.to_string().concat(part);
    }
    base.to_string().concat("\\").concat(part)
}

/// Whether `name` is one name, and neither `.` nor `..`.
pub open spec fn single(name: Seq<char>) -> bool {
    &&& name.len() > 0
    &&& forall|i: int| 0 <= i < name.len() ==> !slash(#[trigger] name[i])
    &&& !dots(name)
}

/// Whether `part` is written with one backslash between its names, none of which is `.` or `..`.
pub open spec fn neat(part: Seq<char>) -> bool {
    &&& way_text(names(part, false)) == "\\"@ + part
    &&& forall|k: int| 0 <= k < names(part, false).len() ==> !dots(#[trigger] names(part, false)[k])
}

/// A path begins with its prefix.
pub proof fn lemma_prefix_bound(text: Seq<char>)
    ensures
        prefix_length(text) <= text.len(),
        is_verbatim(text) ==> 4 <= prefix_length(text),
{
    reveal_strlit("\\\\?\\");
    if text.len() >= 2 && slash(text[0]) && slash(text[1]) {
        lemma_name_end(text, 2, false);
        lemma_share_end(text, 2, false);
        if text.len() >= 4 {
            lemma_name_end(text, 4, false);
            lemma_name_end(text, 4, true);
        }
        if text.len() >= 8 {
            lemma_share_end(text, 8, true);
        }
    }
    if is_verbatim(text) {
        assert(text[0] == "\\\\?\\"@[0] && text[1] == "\\\\?\\"@[1]);
    }
}

proof fn lemma_share_end(text: Seq<char>, from: nat, verbatim: bool)
    requires
        from <= text.len(),
    ensures
        ({
            let end = share_end(text, from, verbatim);
            &&& from <= end <= text.len()
            &&& end < text.len() ==> ends_name(text[end as int], verbatim)
        }),
{
    lemma_name_end(text, from, verbatim);
    let server = name_end(text, from, verbatim);
    if server < text.len() {
        lemma_name_end(text, server + 1, verbatim);
    }
}

proof fn lemma_first_name(name: Seq<char>, rest: Seq<char>)
    requires
        single(name),
        rest.len() > 0 ==> slash(rest[0]),
    ensures
        names(name + rest, false) == seq![name] + names(rest, false),
{
    let text = name + rest;
    assert(text[0] == name[0]);
    assert forall|i: int| 0 <= i < name.len() implies !ends_name(#[trigger] text[i], false) by {
        assert(text[i] == name[i]);
    }
    if rest.len() > 0 {
        assert(text[name.len() as int] == rest[0]);
    }
    lemma_name_end_unique(text, 0, false, name.len());
    assert(text.take(name.len() as int) == name);
    assert(text.skip(name.len() as int) == rest);
}

proof fn lemma_single_name(name: Seq<char>)
    requires
        single(name),
    ensures
        names(name, false) == seq![name],
{
    let none = Seq::<char>::empty();
    lemma_first_name(name, none);
    assert(name + none == name);
    assert(names(none, false) == Seq::<Seq<char>>::empty());
    assert(seq![name] + names(none, false) == seq![name]);
}

proof fn lemma_one_way(name: Seq<char>)
    ensures
        way_text(seq![name]) == "\\"@ + name,
{
    assert(seq![name].drop_last().len() == 0);
    assert(way_text(seq![name].drop_last()) == Seq::<char>::empty());
    assert(Seq::<char>::empty() + "\\"@ + name == "\\"@ + name);
}

proof fn lemma_way_concat(front: Seq<Seq<char>>, back: Seq<Seq<char>>)
    ensures
        way_text(front + back) == way_text(front) + way_text(back),
    decreases back.len(),
{
    let all = front + back;
    if back.len() == 0 {
        assert(all == front);
    } else {
        assert(all.drop_last() == front + back.drop_last());
        lemma_way_concat(front, back.drop_last());
        assert(way_text(all) == way_text(front) + way_text(back));
    }
}

proof fn lemma_entered_without_dots(way: Seq<Seq<char>>, list: Seq<Seq<char>>)
    requires
        forall|k: int| 0 <= k < list.len() ==> !dots(#[trigger] list[k]),
    ensures
        entered_all(way, list) == way + list,
    decreases list.len(),
{
    if list.len() == 0 {
        assert(way + list == way);
    } else {
        let more = list.skip(1);
        assert(!dots(list[0]));
        assert forall|k: int| 0 <= k < more.len() implies !dots(#[trigger] more[k]) by {
            assert(more[k] == list[k + 1]);
        }
        lemma_entered_without_dots(way.push(list[0]), more);
        assert(way.push(list[0]) + more == way + list);
    }
}

/// One name is neat.
pub proof fn lemma_single_is_neat(name: Seq<char>)
    requires
        single(name),
    ensures
        neat(name),
{
    lemma_single_name(name);
    lemma_one_way(name);
}

/// What is neat and is joined to a verbatim path follows the names of the path as it stands.
pub proof fn lemma_neat_part_follows(base: Seq<char>, part: Seq<char>)
    requires
        neat(part),
        !at_root(part),
    ensures
        part.len() > 0,
        verbatim_joined(base, part) == base.take(prefix_length(base) as int) + way_text(
            verbatim_way(base),
        ) + "\\"@ + part,
{
    reveal_strlit("\\");
    let start = verbatim_way(base);
    let list = names(part, false);
    let front = base.take(prefix_length(base) as int);
    assert(list.len() > 0) by {
        if list.len() == 0 {
            assert(way_text(list).len() == 0);
        }
    }
    lemma_entered_without_dots(start, list);
    lemma_way_concat(start, list);
    assert(front + Seq::<char>::empty() == front);
    assert(verbatim_joined(base, part) == front + (way_text(start) + ("\\"@ + part)));
}

/// Whether a backslash stands before every name of `text`, and nowhere else.
spec fn tidy(text: Seq<char>) -> bool {
    text.len() > 0 ==> {
        &&& text[0] == '\\'
        &&& text.last() != '\\'
        &&& forall|i: int| 0 <= i < text.len() - 1 && #[trigger] text[i] == '\\' ==> text[i + 1]
            != '\\'
    }
}

/// Whether every name holds a character, and none a backslash.
spec fn proper(way: Seq<Seq<char>>) -> bool {
    forall|k: int|
        0 <= k < way.len() ==> (#[trigger] way[k]).len() > 0 && forall|i: int|
            0 <= i < way[k].len() ==> #[trigger] way[k][i] != '\\'
}

proof fn lemma_names_are_proper(text: Seq<char>, verbatim: bool)
    ensures
        proper(names(text, verbatim)),
    decreases text.len(),
{
    if text.len() == 0 {
    } else if ends_name(text[0], verbatim) {
        lemma_names_are_proper(text.skip(1), verbatim);
        assert(names(text, verbatim) == names(text.skip(1), verbatim));
    } else {
        lemma_name_end(text, 0, verbatim);
        let end = name_end(text, 0, verbatim) as int;
        let more = names(text.skip(end), verbatim);
        lemma_names_are_proper(text.skip(end), verbatim);
        let all = names(text, verbatim);
        assert forall|k: int| 0 <= k < all.len() implies (#[trigger] all[k]).len() > 0 && forall|
            i: int,
        |
            0 <= i < all[k].len() ==> #[trigger] all[k][i] != '\\' by {
            if k == 0 {
                assert(all[0] == text.take(end));
            } else {
                assert(all[k] == more[k - 1]);
            }
        }
    }
}

proof fn lemma_way_is_tidy(way: Seq<Seq<char>>)
    requires
        proper(way),
    ensures
        tidy(way_text(way)),
        way.len() > 0 ==> way_text(way).len() > 0,
    decreases way.len(),
{
    reveal_strlit("\\");
    if way.len() > 0 {
        let less = way.drop_last();
        assert(proper(less)) by {
            assert forall|k: int| 0 <= k < less.len() implies (#[trigger] less[k]).len() > 0
                && forall|i: int| 0 <= i < less[k].len() ==> #[trigger] less[k][i] != '\\' by {
                assert(less[k] == way[k]);
            }
        }
        lemma_way_is_tidy(less);
        let front = way_text(less);
        let name = way[way.len() - 1];
        let all = way_text(way);
        let n = front.len() as int;
        assert(all == front + "\\"@ + name);
        assert(name.len() > 0);
        assert(all.last() == name[name.len() - 1]);
        assert(all[n] == '\\');
        assert forall|i: int| 0 <= i < all.len() - 1 && #[trigger] all[i] == '\\' implies all[i + 1]
            != '\\' by {
            if i < n {
                assert(all[i] == front[i]);
                if i + 1 < n {
                    assert(all[i + 1] == front[i + 1]);
                }
            } else if i == n {
                assert(all[i + 1] == name[0]);
            } else {
                assert(all[i] == name[i - n - 1]);
            }
        }
        if n > 0 {
            assert(all[0] == front[0]);
        }
    }
}

proof fn lemma_tidy_way(text: Seq<char>)
    requires
        tidy(text),
        text.len() > 0,
    ensures
        way_text(names(text.skip(1), true)) == text,
    decreases text.len(),
{
    reveal_strlit("\\");
    assert(text.len() > 1);
    let inner = text.skip(1);
    assert(inner[0] == text[1]);
    lemma_name_end(inner, 0, true);
    let end = name_end(inner, 0, true) as int;
    let name = inner.take(end);
    let rest = inner.skip(end);
    if rest.len() > 0 {
        assert(rest[0] == inner[end]);
        assert(rest.last() == text.last());
        assert forall|i: int| 0 <= i < rest.len() - 1 && #[trigger] rest[i] == '\\' implies rest[i
            + 1] != '\\' by {
            assert(rest[i] == text[i + end + 1]);
            assert(rest[i + 1] == text[i + end + 2]);
        }
        lemma_tidy_way(rest);
        assert(names(rest, true) == names(rest.skip(1), true));
    } else {
        assert(names(rest, true) == Seq::<Seq<char>>::empty());
    }
    lemma_one_way(name);
    lemma_way_concat(seq![name], names(rest, true));
    assert(text == "\\"@ + name + rest);
}

/// What follows the prefix of a verbatim path stays tidy, also where a name that was put behind the
/// prefix comes to count as a part of it.
proof fn lemma_prefix_stays(base: Seq<char>, tail: Seq<char>)
    requires
        is_verbatim(base),
        tidy(tail),
        tail.len() > 0,
    ensures
        ({
            let text = base.take(prefix_length(base) as int) + tail;
            is_verbatim(text) && prefix_length(text) <= text.len() && tidy(after_prefix(text))
        }),
{
    reveal_strlit("\\\\?\\");
    reveal_strlit("UNC");
    let mark = "\\\\?\\"@;
    lemma_prefix_bound(base);
    let n = prefix_length(base);
    let text = base.take(n as int) + tail;
    assert(mark.is_prefix_of(text)) by {
        assert(text.take(4) == base.take(4));
    }
    lemma_prefix_bound(text);
    let m = prefix_length(text);
    assert(text[0] == mark[0] && text[1] == mark[1]);
    assert(base[0] == mark[0] && base[1] == mark[1]);
    assert forall|i: int| 0 <= i < n implies #[trigger] text[i] == base[i] by {}
    assert(text[n as int] == tail[0]);
    let served = text.len() >= 8 && text.subrange(4, 7) == "UNC"@ && slash(text[7]);
    let base_served = base.len() >= 8 && base.subrange(4, 7) == "UNC"@ && slash(base[7]);
    assert(n <= m && (m < text.len() ==> text[m as int] == '\\')) by {
        lemma_name_end(base, 4, true);
        lemma_name_end(text, 4, true);
        if served {
            lemma_share_end(text, 8, true);
            if n > 8 {
                assert(base.subrange(4, 7) == text.subrange(4, 7));
                lemma_name_end(base, 8, true);
                let server = name_end(base, 8, true);
                lemma_name_end_unique(text, 8, true, server);
                if server < n {
                    lemma_name_end(base, server + 1, true);
                    lemma_name_end_unique(text, server + 1, true, n);
                }
            }
        } else if has_drive(text.skip(4)) && (text.len() == 6 || slash(text[6])) {
            assert(text.skip(4)[0] == text[4] && text.skip(4)[1] == text[5]);
            assert(n >= 6);
            assert(base.skip(4)[0] == base[4] && base.skip(4)[1] == base[5]);
            if base_served {
                assert(base.subrange(4, 7)[1] == base[5]);
            }
        } else {
            if base_served {
                lemma_share_end(base, 8, true);
                assert(base.subrange(4, 7) == text.subrange(4, 7));
            } else if has_drive(base.skip(4)) && (base.len() == 6 || slash(base[6])) {
                assert(base.skip(4)[0] == base[4] && base.skip(4)[1] == base[5]);
                assert(text.skip(4)[0] == text[4] && text.skip(4)[1] == text[5]);
            } else {
                lemma_name_end_unique(text, 4, true, n);
            }
        }
    }
    let rest = after_prefix(text);
    let shift = (m - n) as int;
    assert(rest == tail.skip(shift));
    if rest.len() > 0 {
        assert(rest[0] == text[m as int]);
        assert(rest.last() == tail.last());
        assert forall|i: int| 0 <= i < rest.len() - 1 && #[trigger] rest[i] == '\\' implies rest[i
            + 1] != '\\' by {
            assert(rest[i] == tail[i + shift]);
            assert(rest[i + 1] == tail[i + shift + 1]);
        }
    }
}

proof fn lemma_two_names(base: Seq<char>, first: Seq<char>, second: Seq<char>)
    requires
        single(first),
        single(second),
    ensures
        verbatim_joined(base, first + "/"@ + second) == base.take(prefix_length(base) as int)
            + way_text(verbatim_way(base).push(first).push(second)),
{
    reveal_strlit("/");
    let part = first + "/"@ + second;
    let rest = "/"@ + second;
    assert(part == first + rest);
    assert(part[0] == first[0]);
    lemma_first_name(first, rest);
    assert(rest.skip(1) == second);
    lemma_single_name(second);
    assert(names(part, false) == seq![first, second]);
    let start = verbatim_way(base);
    let list = seq![first, second];
    lemma_entered_without_dots(start, list);
    assert(start + list == start.push(first).push(second));
    assert(base.take(prefix_length(base) as int) + Seq::<char>::empty() == base.take(
        prefix_length(base) as int,
    ));
}

proof fn lemma_base_way_is_proper(base: Seq<char>)
    ensures
        proper(verbatim_way(base)),
{
    let inner = after_prefix(base);
    if at_root(inner) {
        lemma_names_are_proper(inner.skip(1), true);
    } else {
        lemma_names_are_proper(inner, true);
    }
}

proof fn lemma_proper_push(way: Seq<Seq<char>>, name: Seq<char>)
    requires
        proper(way),
        single(name),
    ensures
        proper(way.push(name)),
{
    let all = way.push(name);
    assert forall|k: int| 0 <= k < all.len() implies (#[trigger] all[k]).len() > 0 && forall|
        i: int,
    |
        0 <= i < all[k].len() ==> #[trigger] all[k][i] != '\\' by {
        if k < way.len() {
            assert(all[k] == way[k]);
        }
    }
}

/// After two names were joined to a verbatim path, putting it together anew changes nothing.
pub proof fn lemma_joined_names_stay(base: Seq<char>, first: Seq<char>, second: Seq<char>)
    requires
        is_verbatim(base),
        single(first),
        single(second),
    ensures
        ({
            let text = verbatim_joined(base, first + "/"@ + second);
            &&& is_verbatim(text)
            &&& text.take(prefix_length(text) as int) + way_text(verbatim_way(text)) == text
        }),
{
    lemma_two_names(base, first, second);
    let start = verbatim_way(base);
    let way = start.push(first).push(second);
    let tail = way_text(way);
    let text = base.take(prefix_length(base) as int) + tail;
    lemma_base_way_is_proper(base);
    lemma_proper_push(start, first);
    lemma_proper_push(start.push(first), second);
    lemma_way_is_tidy(way);
    lemma_prefix_stays(base, tail);
    let left = after_prefix(text);
    if left.len() > 0 {
        lemma_tidy_way(left);
    } else {
        assert(names(left, true) == Seq::<Seq<char>>::empty());
    }
    assert(text.take(prefix_length(text) as int) + left == text);
}

/// A part that begins neither with a separator nor with a drive follows the whole base, after a
/// backslash unless the base is empty, ends with a separator or is a bare drive. Verbatim bases are
/// another matter.
pub proof fn law_relative_parts_follow_the_base(base: Seq<char>, part: Seq<char>)
    requires
        base.len() < 4 || base.take(4) != "\\\\?\\"@,
        part.len() > 0 ==> part[0] != '/' && part[0] != '\\',
        part.len() > 1 ==> part[1] != ':',
    ensures
        windows_joined(base, part) == if base.len() == 0 || base.last() == '/' || base.last() == '\\'
            || (base.len() == 2 && ('A' <= base[0] <= 'Z' || 'a' <= base[0] <= 'z') && base[1] == ':') {
            base + part
        } else {
            base + "\\"@ + part
        },
{
    reveal_strlit("\\\\?\\");
    if is_verbatim(base) {
        assert(base.take(4) == "\\\\?\\"@);
    }
}

/// A part with a drive stands alone. One that begins with a single separator keeps the drive of the
/// base, and nothing else of it.
pub proof fn law_drives_decide(letter: char, base: Seq<char>, rest: Seq<char>, c: char)
    requires
        'A' <= letter <= 'Z' || 'a' <= letter <= 'z',
        c == '/' || c == '\\',
        rest.len() > 0 ==> rest[0] != '/' && rest[0] != '\\',
    ensures
        windows_joined(base, seq![letter, ':'] + rest) == seq![letter, ':'] + rest,
        windows_joined(seq![letter, ':'] + base, seq![c] + rest) == seq![letter, ':'] + (seq![c]
            + rest),
{
    reveal_strlit("\\\\?\\");
    let part = seq![letter, ':'] + rest;
    assert(part[0] == letter && part[1] == ':');
    let drive = seq![letter, ':'] + base;
    assert(drive[0] == letter && drive[1] == ':');
    if is_verbatim(drive) {
        assert(drive[0] == "\\\\?\\"@[0]);
    }
    let rooted = seq![c] + rest;
    assert(rooted[0] == c);
    if rest.len() > 0 {
        assert(rooted[1] == rest[0]);
    }
    assert(drive.take(2) == seq![letter, ':']);
}

/// Whether `name` can name a server or a share: at least one character, and no separator.
pub open spec fn share_name(name: Seq<char>) -> bool {
    name.len() > 0 && forall|i: int| 0 <= i < name.len() ==> #[trigger] name[i] != '/' && name[i]
        != '\\'
}

/// A part that names a server and a share stands alone. One that begins with a single separator
/// keeps the server and the share of the base, and nothing else of it.
pub proof fn law_shares_decide(
    server: Seq<char>,
    share: Seq<char>,
    tail: Seq<char>,
    base: Seq<char>,
    c: char,
    rest: Seq<char>,
)
    requires
        share_name(server),
        share_name(share),
        server != "?"@,
        server != "."@,
        tail.len() > 0 ==> tail[0] == '/' || tail[0] == '\\',
        c == '/' || c == '\\',
        rest.len() > 0 ==> rest[0] != '/' && rest[0] != '\\',
    ensures
        ({
            let prefix = seq!['\\', '\\'] + server + seq!['\\'] + share;
            &&& windows_joined(base, prefix + tail) == prefix + tail
            &&& windows_joined(prefix + tail, seq![c] + rest) == prefix + (seq![c] + rest)
        }),
{
    reveal_strlit("\\\\?\\");
    reveal_strlit("?");
    reveal_strlit(".");
    let prefix = seq!['\\', '\\'] + server + seq!['\\'] + share;
    let text = prefix + tail;
    let n = server.len();
    assert(text[0] == '\\' && text[1] == '\\' && text[2] == server[0]);
    assert(text[n as int + 2] == '\\');
    if n > 1 {
        assert(text[3] == server[1]);
    } else {
        assert(server == seq![server[0]]);
        assert("?"@ == seq!['?']);
        assert("."@ == seq!['.']);
    }
    if is_verbatim(text) {
        let mark = "\\\\?\\"@;
        assert(text[2] == mark[2] && text[3] == mark[3]);
    }
    assert forall|i: int| 2 <= i < n + 2 implies !ends_name(#[trigger] text[i], false) by {
        assert(text[i] == server[i - 2]);
    }
    lemma_name_end_unique(text, 2, false, n + 2);
    assert forall|i: int| n + 3 <= i < n + 3 + share.len() implies !ends_name(
        #[trigger] text[i],
        false,
    ) by {
        assert(text[i] == share[i - n - 3]);
    }
    if tail.len() > 0 {
        assert(text[(n + 3 + share.len()) as int] == tail[0]);
    }
    lemma_name_end_unique(text, n + 3, false, n + 3 + share.len());
    assert(prefix_length(text) == prefix.len());
    assert(text.take(prefix.len() as int) == prefix);
    let rooted = seq![c] + rest;
    assert(rooted[0] == c);
    if rest.len() > 0 {
        assert(rooted[1] == rest[0]);
    }
}

/// Whether `list` is made of names that hold a character and no backslash.
pub open spec fn names_only(list: Seq<Seq<char>>) -> bool {
    forall|k: int|
        0 <= k < list.len() ==> (#[trigger] list[k]).len() > 0 && forall|i: int|
            0 <= i < list[k].len() ==> #[trigger] list[k][i] != '\\'
}

proof fn lemma_names_of_way(list: Seq<Seq<char>>)
    requires
        names_only(list),
    ensures
        list.len() > 0 ==> way_text(list).len() > 0 && way_text(list)[0] == '\\' && names(
            way_text(list).skip(1),
            true,
        ) == list,
    decreases list.len(),
{
    reveal_strlit("\\");
    if list.len() > 0 {
        let name = list[0];
        let more = list.skip(1);
        assert(names_only(more)) by {
            assert forall|k: int| 0 <= k < more.len() implies (#[trigger] more[k]).len() > 0
                && forall|i: int| 0 <= i < more[k].len() ==> #[trigger] more[k][i] != '\\' by {
                assert(more[k] == list[k + 1]);
            }
        }
        lemma_names_of_way(more);
        assert(list == seq![name] + more);
        lemma_one_way(name);
        lemma_way_concat(seq![name], more);
        let tail = way_text(more);
        let inner = name + tail;
        assert(way_text(list).skip(1) == inner);
        assert(inner[0] == name[0]);
        assert forall|i: int| 0 <= i < name.len() implies !ends_name(#[trigger] inner[i], true) by {
            assert(inner[i] == name[i]);
        }
        if more.len() > 0 {
            assert(inner[name.len() as int] == tail[0]);
        } else {
            assert(tail.len() == 0);
        }
        lemma_name_end_unique(inner, 0, true, name.len());
        assert(inner.take(name.len() as int) == name);
        assert(inner.skip(name.len() as int) == tail);
        if more.len() > 0 {
            assert(names(tail, true) == more);
        } else {
            assert(names(tail, true) == Seq::<Seq<char>>::empty());
        }
        assert(names(inner, true) == list);
    }
}

/// On a verbatim path with a drive, a name follows after a backslash, `.` changes nothing, and `..`
/// takes away the last name, unless that is itself `.` or `..`.
pub proof fn law_verbatim_paths_are_walked(letter: char, list: Seq<Seq<char>>, name: Seq<char>)
    requires
        'A' <= letter <= 'Z' || 'a' <= letter <= 'z',
        list.len() > 1,
        names_only(list),
        list.last() != "."@,
        list.last() != ".."@,
        share_name(name),
        name != "."@,
        name != ".."@,
        name.len() > 1 ==> name[1] != ':',
    ensures
        ({
            let drive = "\\\\?\\"@ + seq![letter, ':'];
            let base = drive + way_text(list);
            &&& windows_joined(base, name) == base + "\\"@ + name
            &&& windows_joined(base, "."@) == base
            &&& windows_joined(base, ".."@) == drive + way_text(list.drop_last())
        }),
{
    reveal_strlit("\\\\?\\");
    reveal_strlit("UNC");
    reveal_strlit(".");
    reveal_strlit("..");
    reveal_strlit("\\");
    let drive = "\\\\?\\"@ + seq![letter, ':'];
    let base = drive + way_text(list);
    lemma_names_of_way(list);
    assert(base.take(4) == "\\\\?\\"@);
    assert(is_verbatim(base));
    assert(base[0] == '\\' && base[1] == '\\');
    assert(base[4] == letter && base[5] == ':' && base[6] == '\\');
    assert(base.skip(4)[0] == letter && base.skip(4)[1] == ':');
    assert(base.subrange(4, 7)[1] == ':');
    assert(prefix_length(base) == 6);
    assert(base.take(6) == drive);
    assert(after_prefix(base) == way_text(list));
    assert(verbatim_way(base) == list);
    assert forall|i: int| 0 <= i < name.len() implies !slash(#[trigger] name[i]) by {}
    assert(single(name));
    lemma_single_is_neat(name);
    lemma_neat_part_follows(base, name);
    lemma_dots_are_names();
    let none = Seq::<Seq<char>>::empty();
    assert(seq!["."@].skip(1) == none);
    assert(seq![".."@].skip(1) == none);
    assert(entered_all(list, none) == list);
    assert(entered_all(list, seq!["."@]) == list);
    let less = list.drop_last();
    assert(entered_all(less, none) == less);
    assert("."@ != ".."@) by {
        assert("."@.len() != ".."@.len());
    }
    assert(entered_all(list, seq![".."@]) == less);
    let empty = Seq::<char>::empty();
    assert(drive + empty == drive);
}

proof fn lemma_dots_are_names()
    ensures
        names("."@, false) == seq!["."@],
        names(".."@, false) == seq![".."@],
{
    reveal_strlit(".");
    reveal_strlit("..");
    let none = Seq::<char>::empty();
    lemma_name_end_unique("."@, 0, false, 1);
    lemma_name_end_unique(".."@, 0, false, 2);
    assert("."@.take(1) == "."@);
    assert(".."@.take(2) == ".."@);
    assert("."@.skip(1) == none);
    assert(".."@.skip(2) == none);
    assert(names(none, false) == Seq::<Seq<char>>::empty());
    assert(names("."@, false) == seq!["."@]);
    assert(names(".."@, false) == seq![".."@]);
}

} // verus!
