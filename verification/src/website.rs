//! From the address of a website to the name and the folder of its project.

use vstd::prelude::*;
use vstd::string::*;

use crate::error::{text_result, AppError, ErrorKind, ErrorView};
use crate::outside::{ascii_upper, lowercase, to_uppercase, uppercase};
use crate::paths::{home_path, joined_path, opt_path, FilePath, PathStyle, PathView};
use crate::slug::{is_slug, slug_text, slugify};
use crate::text::{
    after, bare, before, begins_with, blank, has_char, law_only_padding_is_trimmed,
    lemma_before_char, lemma_position_after_prefix, lemma_position_bound, lemma_position_found, lemma_trimmed, lemma_without_prefixes_keeps,
    mentions, occurs_at, position_from, strip_prefixes, text_after, text_before, trim, trimmed,
    without_prefixes,
};

verus! {

/// The piece of `s` between its first and its second `separator`.
pub open spec fn second_piece(s: Seq<char>, separator: Seq<char>) -> Option<Seq<char>> {
    match after(s, separator) {
        Some(rest) => Some(before(rest, separator)),
        None => None,
    }
}

/// The piece of `s` between its first and its second `separator`.
fn piece_after<'a>(s: &'a str, separator: &str) -> (r: Option<&'a str>)
    ensures
        r is Some == second_piece(s@, separator@) is Some,
        r matches Some(piece) ==> second_piece(s@, separator@) == Some(piece@),
{
    match text_after(s, separator) {
        Some(rest) => Some(text_before(rest, separator)),
        None => None,
    }
}

/// `address`, with `https://` before it unless it names its scheme.
pub open spec fn with_scheme(address: Seq<char>) -> Seq<char> {
    if "http://"@.is_prefix_of(address) || "https://"@.is_prefix_of(address) {
        address
    } else {
        "https://"@ + address
    }
}

/// The host of `url`: what stands between `://` and the next `/`.
pub open spec fn host_text(url: Seq<char>) -> Seq<char> {
    match second_piece(url, "://"@) {
        Some(rest) => before(rest, "/"@),
        None => Seq::empty(),
    }
}

/// The URL that an input stands for, or what is wrong with it.
pub open spec fn normalized_url(input: Seq<char>) -> Result<Seq<char>, ErrorView> {
    let address = trimmed(input);
    let url = with_scheme(address);
    if address.len() == 0 {
        Err((ErrorKind::Invalid, "website URL is required"@))
    } else if !host_text(url).contains('.') {
        Err((ErrorKind::Invalid, "website URL must include a valid host"@))
    } else {
        Ok(url)
    }
}

/// The URL that `input` stands for: white space around it is dropped and `https://` is put before
/// an address without a scheme. An empty input and a host without a dot are refused.
pub fn normalize_url(input: &str) -> (r: Result<String, AppError>)
    ensures
        text_result(r) == normalized_url(input@),
        r matches Err(error) ==> error is Invalid,
{
    let address = trim(input);
    if address.is_empty() {
        return Err(AppError::Invalid("website URL is required".to_string()));
    }
    let url = if begins_with(address, "http://") || begins_with(address, "https://") {
        address.to_string()
    } else {
        "https://".to_string().concat(address)
    };
    let host = match piece_after(url.as_str(), "://") {
        Some(rest) => text_before(rest, "/"),
        None => "",
    };
    proof {
        reveal_strlit("");
        assert(""@ == Seq::<char>::empty());
    }
    if host.is_empty() || !has_char(host, '.') {
        return Err(AppError::Invalid("website URL must include a valid host".to_string()));
    }
    Ok(url)
}

/// The first label of the host of `url`, after any `www.` before it.
pub open spec fn project_label_text(url: Seq<char>) -> Seq<char> {
    let address = match second_piece(url, "://"@) {
        Some(rest) => rest,
        None => url,
    };
    before(without_prefixes(before(address, "/"@), "www."@), "."@)
}

/// The first label of the host of `url`, after any `www.` before it.
pub fn project_label(url: &str) -> (r: &str)
    ensures
        r@ == project_label_text(url@),
{
    let address = match piece_after(url, "://") {
        Some(rest) => rest,
        None => url,
    };
    text_before(strip_prefixes(text_before(address, "/"), "www."), ".")
}

/// `label` with `capital` in place of its first character; `Product` where there is none.
pub open spec fn capitalized(label: Seq<char>, capital: Seq<char>) -> Seq<char> {
    if label.len() == 0 {
        "Product"@
    } else {
        capital + label.skip(1)
    }
}

/// `label` with `capital` in place of its first character; `Product` where there is none.
pub fn capitalize(label: &str, capital: &str) -> (r: String)
    ensures
        r@ == capitalized(label@, capital@),
        label@.len() > 0 ==> r@ == capital@ + label@.skip(1),
        label@.len() == 0 ==> r@ == "Product"@,
{
    if label.is_empty() {
        return "Product".to_string();
    }
    let length: usize = label.unicode_len();
    capital.to_string().concat(label.substring_char(1, length))
}

/// The name of the project for the website at `url`.
pub open spec fn project_name(url: Seq<char>) -> Seq<char> {
    let label = project_label_text(url);
    capitalized(label, uppercase(label[0]))
}

proof fn lemma_label_holds_no_separator(url: Seq<char>)
    ensures
        !project_label_text(url).contains('/'),
        !project_label_text(url).contains('.'),
{
    reveal_strlit("/");
    reveal_strlit(".");
    assert("/"@ == seq!['/']);
    assert("."@ == seq!['.']);
    let address = match second_piece(url, "://"@) {
        Some(rest) => rest,
        None => url,
    };
    let host = before(address, "/"@);
    lemma_before_char(address, '/');
    lemma_without_prefixes_keeps(host, "www."@, '/');
    let bare = without_prefixes(host, "www."@);
    lemma_before_char(bare, '.');
    let label = project_label_text(url);
    assert forall|i: int| 0 <= i < label.len() implies #[trigger] label[i] != '/' by {
        assert(label[i] == bare[i]);
        assert(bare.contains(bare[i]));
    }
}

/// The name of the project for the website at `url`: the first label of the host, capitalized.
pub fn project_name_from_url(url: &str) -> (r: String)
    ensures
        r@ == project_name(url@),
        r@.len() > 0,
        !r@.contains('/'),
        !r@.contains('.'),
        ({
            let label = project_label_text(url@);
            label.len() > 0 && label[0] <= '\u{7f}' ==> r@ == capitalized(
                label,
                seq![ascii_upper(label[0])],
            )
        }),
{
    let label = project_label(url);
    proof {
        reveal_strlit("Product");
        lemma_label_holds_no_separator(url@);
    }
    if label.is_empty() {
        return capitalize(label, "");
    }
    let capital = to_uppercase(label.get_char(0));
    proof {
        let name = capital@ + label@.skip(1);
        assert(label@.contains(label@[0]));
        assert forall|i: int| 0 <= i < name.len() implies #[trigger] name[i] != '/' && name[i]
            != '.' by {
            if i < capital@.len() {
                assert(capital@.contains(name[i]));
            } else {
                assert(name[i] == label@[i - capital@.len() + 1]);
                assert(label@.contains(name[i]));
            }
        }
    }
    capitalize(label, capital.as_str())
}

/// The folder of the project for the website that `input` names, below the home directory.
pub open spec fn project_path_text(home: Option<PathView>, input: Seq<char>) -> Result<
    Seq<char>,
    ErrorView,
> {
    match normalized_url(input) {
        Err(error) => Err(error),
        Ok(url) => match home {
            None => Err((ErrorKind::Invalid, "cannot locate home directory"@)),
            Some(home) => Ok(
                joined_path(
                    joined_path(home, "GTM Agent Projects"@),
                    slug_text(lowercase(project_name(url))),
                ).text,
            ),
        },
    }
}

/// The folder of the project for the website that `website_url` names, below `home`. An unusable
/// URL is refused before a missing home directory is.
pub fn project_path_in(home: Option<FilePath>, website_url: &str) -> (r: Result<String, AppError>)
    ensures
        text_result(r) == project_path_text(opt_path(home), website_url@),
        r matches Ok(path) ==> exists|slug: Seq<char>| #[trigger] is_slug(slug) && path@ == joined_path(
            joined_path(home->0@, "GTM Agent Projects"@),
            slug,
        ).text,
{
    let url = match normalize_url(website_url) {
        Ok(url) => url,
        Err(error) => return Err(error),
    };
    let home = match home {
        Some(home) => home,
        None => return Err(AppError::Invalid("cannot locate home directory".to_string())),
    };
    let folder = slugify(project_name_from_url(url.as_str()).as_str());
    assert(is_slug(folder@));
    Ok(home.join("GTM Agent Projects").join(folder.as_str()).text)
}

/// The folder of the project for the website that `website_url` names, below the home directory
/// of the user. Where that is decides the environment; an unusable URL is refused in any case.
pub fn default_project_path(website_url: &str) -> (r: Result<String, AppError>)
    ensures
        normalized_url(website_url@) is Err ==> text_result(r) == normalized_url(website_url@),
        exists|home: Option<PathView>| text_result(r) == #[trigger] project_path_text(home, website_url@),
{
    match normalize_url(website_url) {
        Ok(_) => {},
        Err(error) => {
            assert(project_path_text(None, website_url@) == Err::<Seq<char>, ErrorView>(error@));
            return Err(error);
        },
    }
    let home = home_path();
    let r = project_path_in(home, website_url);
    assert(text_result(r) == project_path_text(opt_path(home), website_url@));
    r
}

/// Normalizing is stable: a normalized URL is accepted again and stays as it is.
pub proof fn law_normalizing_twice(input: Seq<char>)
    requires
        normalized_url(input) is Ok,
    ensures
        normalized_url(normalized_url(input)->Ok_0) == normalized_url(input),
{
    let address = trimmed(input);
    let url = with_scheme(address);
    lemma_trimmed(input);
    reveal_strlit("http://");
    reveal_strlit("https://");
    if url != address {
        assert(url[0] == 'h');
        assert(url.last() == address.last());
        assert("https://"@.is_prefix_of(url));
    }
    lemma_trimmed(url);
}

/// A normalized URL names its scheme, has a host with a dot in it, and has no white space around
/// it.
pub proof fn law_normalized_form(input: Seq<char>)
    requires
        normalized_url(input) is Ok,
    ensures
        ({
            let url = normalized_url(input)->Ok_0;
            &&& "http://"@.is_prefix_of(url) || "https://"@.is_prefix_of(url)
            &&& host_text(url).contains('.')
            &&& trimmed(url) == url
        }),
{
    law_normalizing_twice(input);
    let url = normalized_url(input)->Ok_0;
    assert(with_scheme(trimmed(url)) == url);
    lemma_trimmed(input);
    reveal_strlit("http://");
    reveal_strlit("https://");
    if url != trimmed(input) {
        assert("https://"@.is_prefix_of(url));
        assert(url[0] == 'h');
        assert(url.last() == trimmed(input).last());
    }
    lemma_trimmed(url);
}

/// White space around an address makes no difference.
pub proof fn law_white_space_is_ignored(input: Seq<char>)
    ensures
        normalized_url(trimmed(input)) == normalized_url(input),
{
    lemma_trimmed(input);
}

/// An address without a scheme is taken as if `https://` stood before it.
pub proof fn law_https_is_the_default(address: Seq<char>)
    requires
        address.len() > 0,
        trimmed(address) == address,
        !"http://"@.is_prefix_of(address),
        !"https://"@.is_prefix_of(address),
    ensures
        normalized_url("https://"@ + address) == normalized_url(address),
{
    let url = "https://"@ + address;
    lemma_trimmed(address);
    reveal_strlit("https://");
    assert(url[0] == 'h');
    assert(url.last() == address.last());
    lemma_trimmed(url);
    assert("https://"@.is_prefix_of(url));
}

proof fn lemma_after_scheme(scheme: Seq<char>, rest: Seq<char>)
    requires
        !scheme.contains(':'),
    ensures
        second_piece(scheme + "://"@ + rest, "://"@) == Some(before(rest, "://"@)),
{
    reveal_strlit("://");
    let tail = "://"@ + rest;
    lemma_position_after_prefix(scheme, tail, "://"@);
    assert(scheme + "://"@ + rest == scheme + tail);
    assert(tail.subrange(0, 3) == "://"@);
    assert(tail.skip(3) == rest);
}

/// The name of a project does not depend on the scheme of its website.
pub proof fn law_scheme_leaves_the_name(scheme: Seq<char>, other: Seq<char>, rest: Seq<char>)
    requires
        !scheme.contains(':'),
        !other.contains(':'),
    ensures
        project_name(scheme + "://"@ + rest) == project_name(other + "://"@ + rest),
{
    lemma_after_scheme(scheme, rest);
    lemma_after_scheme(other, rest);
}

/// The name of a project depends on the host of its website alone.
pub proof fn law_host_decides_the_name(url: Seq<char>, other: Seq<char>)
    requires
        mentions(url, "://"@),
        mentions(other, "://"@),
        host_text(url) == host_text(other),
    ensures
        project_name(url) == project_name(other),
{
    let at = choose|at: int| occurs_at(url, "://"@, at);
    lemma_position_found(url, "://"@, 0, at as nat);
    let at = choose|at: int| occurs_at(other, "://"@, at);
    lemma_position_found(other, "://"@, 0, at as nat);
}

/// What follows the host of a website, be it a path or only the slash before one, leaves the name
/// of a project as it is.
pub proof fn law_path_leaves_the_name(scheme: Seq<char>, host: Seq<char>, path: Seq<char>)
    requires
        !scheme.contains(':'),
        !host.contains('/'),
        host.len() > 0 ==> host.last() != ':',
    ensures
        project_name(scheme + "://"@ + (host + "/"@ + path)) == project_name(
            scheme + "://"@ + host,
        ),
{
    reveal_strlit("://");
    reveal_strlit("/");
    assert("/"@ == seq!['/']);
    let mark = "://"@;
    let whole = host + "/"@ + path;
    lemma_after_scheme(scheme, whole);
    lemma_after_scheme(scheme, host);
    lemma_position_bound(whole, mark, 0);
    lemma_position_bound(host, mark, 0);
    match position_from(host, mark, 0) {
        Some(at) => {
            assert(host.subrange(at as int, at as int + 3)[1] == '/');
            assert(host.contains(host[at as int + 1]));
        },
        None => {},
    }
    lemma_before_char(host, '/');
    let tail = match position_from(whole, mark, 0) {
        Some(at) => {
            assert(whole.subrange(at as int, at as int + 3)[0] == ':');
            assert(whole.subrange(at as int, at as int + 3)[1] == '/');
            if at + 1 < host.len() {
                assert(host.contains(host[at as int + 1]));
            }
            assert(whole[host.len() as int] == '/');
            assert(at > host.len());
            path.take(at - host.len() - 1)
        },
        None => path,
    };
    let address = before(whole, mark);
    assert(address == host + ("/"@ + tail));
    lemma_position_after_prefix(host, "/"@ + tail, "/"@);
    assert(("/"@ + tail).subrange(0, 1) == "/"@);
    assert(before("/"@ + tail, "/"@) == Seq::<char>::empty());
    assert(before(address, "/"@) == host);
}

/// A `www.` before the host leaves the name of a project as it is.
pub proof fn law_www_leaves_the_name(scheme: Seq<char>, rest: Seq<char>)
    requires
        !scheme.contains(':'),
    ensures
        project_name(scheme + "://"@ + ("www."@ + rest)) == project_name(scheme + "://"@ + rest),
{
    lemma_after_scheme(scheme, rest);
    lemma_after_scheme(scheme, "www."@ + rest);
    reveal_strlit("www.");
    reveal_strlit("://");
    reveal_strlit("/");
    let www = "www."@;
    lemma_position_after_prefix(www, rest, "://"@);
    let address = before(rest, "://"@);
    lemma_position_after_prefix(www, address, "/"@);
    let host = before(address, "/"@);
    assert(www.is_prefix_of(www + host));
    assert((www + host).skip(4) == host);
}

/// The first label of a host and what follows it: nothing, or something that begins with a dot or
/// a slash. The label holds neither, and no `://` begins in it.
pub open spec fn labelled(label: Seq<char>, end: Seq<char>) -> bool {
    &&& !label.contains('/')
    &&& !label.contains('.')
    &&& label.len() > 0 && label.last() == ':' && end.len() > 1 ==> end[0] != '/' || end[1] != '/'
    &&& end.len() > 0 ==> end[0] == '.' || end[0] == '/'
}

proof fn lemma_host_of(host: Seq<char>, tail: Seq<char>)
    requires
        !host.contains('/'),
        tail.len() > 0 ==> tail[0] == '/',
    ensures
        ({
            let found = before(before(host + tail, "://"@), "/"@);
            &&& found == host || (host.len() > 0 && host.last() == ':' && found == host.drop_last())
            &&& found.contains('.') <==> host.contains('.')
        }),
{
    reveal_strlit("://");
    reveal_strlit("/");
    assert("/"@ == seq!['/']);
    let mark = "://"@;
    let whole = host + tail;
    lemma_position_bound(whole, mark, 0);
    lemma_before_char(host, '/');
    let address = before(whole, mark);
    let found = before(address, "/"@);
    match position_from(whole, mark, 0) {
        Some(at) => {
            assert(whole.subrange(at as int, at as int + 3)[0] == ':');
            assert(whole.subrange(at as int, at as int + 3)[1] == '/');
            if at + 1 < host.len() {
                assert(host.contains(host[at as int + 1]));
            }
            if at + 1 == host.len() {
                let less = host.drop_last();
                assert(address == less);
                assert(!less.contains('/')) by {
                    assert forall|i: int| 0 <= i < less.len() implies #[trigger] less[i] != '/' by {
                        assert(host.contains(host[i]));
                    }
                }
                lemma_before_char(less, '/');
                assert forall|i: int| 0 <= i < host.len() && #[trigger] host[i] == '.' implies less.contains(
                    '.',
                ) by {
                    assert(less[i] == '.');
                }
                assert forall|i: int| 0 <= i < less.len() && #[trigger] less[i] == '.' implies host.contains(
                    '.',
                ) by {
                    assert(host[i] == '.');
                }
            } else {
                assert(at > host.len());
                let more = tail.take(at - host.len());
                assert(address == host + more);
                lemma_slash_ends_host(host, more);
            }
        },
        None => {
            lemma_slash_ends_host(host, tail);
        },
    }
}

proof fn lemma_slash_ends_host(host: Seq<char>, tail: Seq<char>)
    requires
        !host.contains('/'),
        tail.len() > 0 ==> tail[0] == '/',
    ensures
        before(host + tail, "/"@) == host,
{
    reveal_strlit("/");
    assert("/"@ == seq!['/']);
    lemma_before_char(host, '/');
    if tail.len() == 0 {
        assert(host + tail == host);
    } else {
        lemma_position_after_prefix(host, tail, "/"@);
        assert(tail.subrange(0, 1) == "/"@);
        assert(before(tail, "/"@) == Seq::<char>::empty());
        assert(host + Seq::<char>::empty() == host);
    }
}

proof fn lemma_host_dot(scheme: Seq<char>, host: Seq<char>, tail: Seq<char>)
    requires
        scheme == "http"@ || scheme == "https"@,
        !host.contains('/'),
        tail.len() > 0 ==> tail[0] == '/',
    ensures
        host_text(scheme + "://"@ + (host + tail)).contains('.') <==> host.contains('.'),
{
    reveal_strlit("http");
    reveal_strlit("https");
    lemma_after_scheme(scheme, host + tail);
    lemma_host_of(host, tail);
}

/// An address that names its scheme is accepted just where there is a dot in its host, which is
/// what stands between `://` and the next slash, and it is kept character for character.
pub proof fn law_dot_in_the_host_decides(scheme: Seq<char>, host: Seq<char>, tail: Seq<char>)
    requires
        scheme == "http"@ || scheme == "https"@,
        !host.contains('/'),
        tail.len() > 0 ==> tail[0] == '/',
        bare(scheme + "://"@ + (host + tail)),
    ensures
        ({
            let address = scheme + "://"@ + (host + tail);
            normalized_url(address) == if host.contains('.') {
                Ok::<Seq<char>, ErrorView>(address)
            } else {
                Err((ErrorKind::Invalid, "website URL must include a valid host"@))
            }
        }),
{
    let address = scheme + "://"@ + (host + tail);
    reveal_strlit("http");
    reveal_strlit("https");
    reveal_strlit("://");
    reveal_strlit("http://");
    reveal_strlit("https://");
    lemma_trimmed(address);
    if scheme == "http"@ {
        assert("http://"@ == scheme + "://"@);
        assert("http://"@.is_prefix_of(address));
    } else {
        assert("https://"@ == scheme + "://"@);
        assert("https://"@.is_prefix_of(address));
    }
    lemma_host_dot(scheme, host, tail);
}

/// An address without a scheme is accepted just where there is a dot before its first slash, and
/// `https://` is put before it.
pub proof fn law_dot_decides_without_a_scheme(host: Seq<char>, tail: Seq<char>)
    requires
        !host.contains('/'),
        tail.len() > 0 ==> tail[0] == '/',
        (host + tail).len() > 0,
        bare(host + tail),
        !"http://"@.is_prefix_of(host + tail),
        !"https://"@.is_prefix_of(host + tail),
    ensures
        normalized_url(host + tail) == if host.contains('.') {
            Ok::<Seq<char>, ErrorView>("https://"@ + (host + tail))
        } else {
            Err((ErrorKind::Invalid, "website URL must include a valid host"@))
        },
{
    let address = host + tail;
    reveal_strlit("https");
    reveal_strlit("://");
    reveal_strlit("https://");
    lemma_trimmed(address);
    lemma_host_dot("https"@, host, tail);
    assert("https://"@ + address == "https"@ + "://"@ + (host + tail));
}

/// White space around an address is dropped, and white space alone is no address.
pub proof fn law_white_space_around_an_address(
    front: Seq<char>,
    address: Seq<char>,
    back: Seq<char>,
)
    requires
        blank(front),
        blank(back),
        bare(address),
    ensures
        address.len() > 0 ==> normalized_url(front + address + back) == normalized_url(address),
        address.len() == 0 ==> normalized_url(front + address + back) == Err::<Seq<char>, ErrorView>(
            (ErrorKind::Invalid, "website URL is required"@),
        ),
{
    law_only_padding_is_trimmed(front, address, back);
    lemma_trimmed(address);
}

proof fn lemma_label_of(label: Seq<char>, end: Seq<char>, address: Seq<char>)
    requires
        labelled(label, end),
        !"www."@.is_prefix_of(label + end),
        label.is_prefix_of(address),
        address.is_prefix_of(label + end),
        end.len() > 0 ==> address.len() > label.len(),
    ensures
        before(without_prefixes(before(address, "/"@), "www."@), "."@) == label,
{
    reveal_strlit("/");
    reveal_strlit(".");
    assert("/"@ == seq!['/']);
    assert("."@ == seq!['.']);
    let more = address.skip(label.len() as int);
    assert(address == label + more);
    if more.len() > 0 {
        assert(more[0] == (label + end)[label.len() as int]);
        assert(more[0] == end[0]);
    }
    lemma_position_after_prefix(label, more, "/"@);
    lemma_before_char(more, '/');
    let rest = before(more, "/"@);
    let host = label + rest;
    if rest.len() > 0 {
        assert(rest[0] == more[0]);
        assert(rest.contains(rest[0]));
        assert(rest[0] == '.');
    }
    assert(host.is_prefix_of(label + end)) by {
        assert(host.is_prefix_of(address));
    }
    if "www."@.is_prefix_of(host) {
        assert("www."@.is_prefix_of(label + end));
    }
    assert(without_prefixes(host, "www."@) == host);
    lemma_position_after_prefix(label, rest, "."@);
    if rest.len() > 0 {
        assert(rest.subrange(0, 1) == "."@);
    }
    assert(before(rest, "."@) == Seq::<char>::empty());
    assert(label + Seq::<char>::empty() == label);
}

/// The name of a project is the whole first label of the host, with its first character in upper
/// case and all others as they stand; a `www.` before the label makes no difference. Where the
/// label is empty, the name is `Product`.
pub proof fn law_name_is_the_whole_label(scheme: Seq<char>, label: Seq<char>, end: Seq<char>)
    requires
        !scheme.contains(':'),
        labelled(label, end),
        !"www."@.is_prefix_of(label + end),
    ensures
        ({
            let name = if label.len() == 0 {
                "Product"@
            } else {
                uppercase(label[0]) + label.skip(1)
            };
            &&& project_name(scheme + "://"@ + (label + end)) == name
            &&& project_name(scheme + "://"@ + ("www."@ + (label + end))) == name
        }),
{
    reveal_strlit("://");
    let whole = label + end;
    let mark = "://"@;
    lemma_after_scheme(scheme, whole);
    lemma_position_bound(whole, mark, 0);
    match position_from(whole, mark, 0) {
        Some(at) => {
            assert(whole.subrange(at as int, at as int + 3)[0] == ':');
            assert(whole.subrange(at as int, at as int + 3)[1] == '/');
            if at + 1 < label.len() {
                assert(label.contains(label[at as int + 1]));
            }
            if at + 1 == label.len() {
                assert(label.last() == ':');
                assert(whole.subrange(at as int, at as int + 3)[2] == '/');
                assert(end[0] == whole[at as int + 1] && end[1] == whole[at as int + 2]);
            }
            if at == label.len() {
                assert(whole[at as int] == end[0]);
            }
            assert(at > label.len());
            assert(label.is_prefix_of(whole.take(at as int)));
        },
        None => {},
    }
    lemma_label_of(label, end, before(whole, mark));
    law_www_leaves_the_name(scheme, whole);
}

/// The same holds of an address in which no `://` stands.
pub proof fn law_name_without_a_scheme(label: Seq<char>, end: Seq<char>)
    requires
        labelled(label, end),
        !"www."@.is_prefix_of(label + end),
        forall|i: int|
            0 <= i < (label + end).len() - 2 && #[trigger] (label + end)[i] == ':' ==> (label + end)[i
                + 1] != '/' || (label + end)[i + 2] != '/',
    ensures
        project_name(label + end) == if label.len() == 0 {
            "Product"@
        } else {
            uppercase(label[0]) + label.skip(1)
        },
{
    reveal_strlit("://");
    let whole = label + end;
    lemma_position_bound(whole, "://"@, 0);
    match position_from(whole, "://"@, 0) {
        Some(at) => {
            assert(whole.subrange(at as int, at as int + 3)[0] == whole[at as int]);
            assert(whole.subrange(at as int, at as int + 3)[1] == whole[at as int + 1]);
            assert(whole.subrange(at as int, at as int + 3)[2] == whole[at as int + 2]);
        },
        None => {},
    }
    lemma_label_of(label, end, whole);
}

/// The folder of a project lies below the home directory, in the folder of all projects, and is
/// called by the slug of the name. Neither the home directory nor the slug is changed.
pub proof fn law_folder_lies_below_home(home: Seq<char>, input: Seq<char>)
    requires
        normalized_url(input) is Ok,
        home.len() > 0,
    ensures
        ({
            let slug = slug_text(lowercase(project_name(normalized_url(input)->Ok_0)));
            let unix = PathView { text: home, style: PathStyle::Unix };
            let windows = PathView { text: home, style: PathStyle::Windows };
            &&& forall|place: PathView| #[trigger]
                project_path_text(Some(place), input) == Ok::<Seq<char>, ErrorView>(
                    joined_path(joined_path(place, "GTM Agent Projects"@), slug).text,
                )
            &&& slug.len() > 0 && is_slug(slug) && home.last() != '/' ==> project_path_text(
                Some(unix),
                input,
            ) == Ok::<Seq<char>, ErrorView>(home + "/GTM Agent Projects/"@ + slug)
            &&& slug.len() > 0 && is_slug(slug) && home.len() > 2 && home[0] != '\\' && home.last()
                != '\\' && home.last() != '/' ==> project_path_text(Some(windows), input) == Ok::<
                Seq<char>,
                ErrorView,
            >(home + "\\GTM Agent Projects\\"@ + slug)
            &&& project_path_text(None, input) == Err::<Seq<char>, ErrorView>(
                (ErrorKind::Invalid, "cannot locate home directory"@),
            )
        }),
{
    reveal_strlit("GTM Agent Projects");
    reveal_strlit("/GTM Agent Projects/");
    reveal_strlit("\\GTM Agent Projects\\");
    reveal_strlit("/");
    reveal_strlit("\\");
    reveal_strlit("\\\\?\\");
    let all = "GTM Agent Projects"@;
    let slug = slug_text(lowercase(project_name(normalized_url(input)->Ok_0)));
    let unix = PathView { text: home, style: PathStyle::Unix };
    let windows = PathView { text: home, style: PathStyle::Windows };
    if slug.len() > 0 && is_slug(slug) {
        assert(slug[0] != '/');
        if home.last() != '/' {
            assert(joined_path(unix, all).text == home + "/"@ + all);
            assert((home + "/"@ + all).last() == 's');
            assert(home + "/"@ + all + "/"@ + slug == home + "/GTM Agent Projects/"@ + slug);
        }
        if home.len() > 2 && home[0] != '\\' && home.last() != '\\' && home.last() != '/' {
            let mark = "\\\\?\\"@;
            assert(!mark.is_prefix_of(home)) by {
                if mark.is_prefix_of(home) {
                    assert(home[0] == mark[0]);
                }
            }
            let folder = home + "\\"@ + all;
            assert(joined_path(windows, all).text == folder);
            assert(!mark.is_prefix_of(folder)) by {
                if mark.is_prefix_of(folder) {
                    assert(folder[0] == mark[0]);
                }
            }
            assert(folder.last() == 's');
            if slug.len() > 1 {
                assert(slug[1] != ':');
            }
            assert(folder + "\\"@ + slug == home + "\\GTM Agent Projects\\"@ + slug);
        }
    }
}

/// A second `://` ends the address that a name is taken from, whatever follows it.
pub proof fn law_second_mark_ends_the_address(
    scheme: Seq<char>,
    address: Seq<char>,
    more: Seq<char>,
)
    requires
        !scheme.contains(':'),
        !address.contains(':'),
    ensures
        project_name(scheme + "://"@ + (address + "://"@ + more)) == project_name(
            scheme + "://"@ + address,
        ),
{
    reveal_strlit("://");
    let mark = "://"@;
    let tail = mark + more;
    lemma_after_scheme(scheme, address + mark + more);
    lemma_after_scheme(scheme, address);
    assert(address + mark + more == address + tail);
    lemma_position_after_prefix(address, tail, mark);
    assert(tail.subrange(0, 3) == mark);
    assert(before(tail, mark) == Seq::<char>::empty());
    let none = Seq::<char>::empty();
    lemma_position_after_prefix(address, none, mark);
    assert(address + none == address);
}

} // verus!
