//! What the application takes from URLs: the code that an OAuth redirect
//! brings, and the files that it is asked to open.
//!
//! URLs are parsed by the `url` crate; the library works on the parts that
//! it reads of a parsed URL.

use crate::text::option_text;
use url::Url;
use vstd::prelude::*;

verus! {

/// The parts of a URL that the library reads.
#[derive(Debug)]
pub struct UrlParts {
    /// The host as it is written in the URL, if it has one.
    pub host: Option<String>,
    /// The pairs of name and value of the query, decoded, in their order.
    pub query: Vec<(String, String)>,
}

/// [`UrlParts`] as a mathematical value.
pub struct Parts {
    pub host: Option<Seq<char>>,
    pub query: Seq<(Seq<char>, Seq<char>)>,
}

/// The views of a list of pairs of strings.
pub open spec fn pair_texts(list: Seq<(String, String)>) -> Seq<(Seq<char>, Seq<char>)> {
    Seq::new(list.len(), |i: int| (list[i].0@, list[i].1@))
}

impl View for UrlParts {
    type V = Parts;

    open spec fn view(&self) -> Parts {
        Parts { host: option_text(self.host), query: pair_texts(self.query@) }
    }
}

/// The view of parts that may be absent.
pub open spec fn option_parts(parts: Option<UrlParts>) -> Option<Parts> {
    match parts {
        Some(found) => Some(found@),
        None => None,
    }
}

/// The parts of the URL that a text is: what `Url::host_str` and
/// `Url::query_pairs` give for what `Url::parse` returns, or `None` where the
/// text is no URL.
pub uninterp spec fn parsed_parts(text: Seq<char>) -> Option<Parts>;

/// `Url::parse`, then `Url::host_str` and `Url::query_pairs` on the URL.
#[verifier::external_body]
pub(crate) fn parse_url(text: &str) -> (parts: Option<UrlParts>)
    ensures
        option_parts(parts) == parsed_parts(text@),
{
    Url::parse(text).ok().map(|url| UrlParts {
        host: url.host_str().map(String::from),
        query: url.query_pairs().into_owned().collect(),
    })
}

/// `Url::parse`, then `Url::to_file_path`: the path of the file that the URL
/// names, if the text is a URL and names a file. The path is handed on as
/// text; what is no text in it is replaced, as `Path::to_string_lossy` does.
/// What a URL names depends on the platform, so no more is claimed of the
/// result.
#[verifier::external_body]
pub(crate) fn file_path(text: &str) -> (path: Option<String>)
    ensures
        parsed_parts(text@) is None ==> path is None,
{
    Url::parse(text).ok().and_then(|url| url.to_file_path().ok()).map(|path| {
        path.to_string_lossy().into_owned()
    })
}

/// The port on which the redirect of the OAuth provider is awaited.
pub const OAUTH_PORT: u16 = 2742;

/// The page shown to the user once the redirect has arrived.
pub fn oauth_response() -> (page: &'static str)
    ensures
        page@ == "<html><script>close()</script></html>"@,
{
    "<html><script>close()</script></html>"
}

/// What a redirect brings.
#[derive(Debug)]
pub struct OauthReply {
    pub code: String,
    pub state: String,
}

/// [`OauthReply`] as a mathematical value.
pub struct Reply {
    pub code: Seq<char>,
    pub state: Seq<char>,
}

impl View for OauthReply {
    type V = Reply;

    open spec fn view(&self) -> Reply {
        Reply { code: self.code@, state: self.state@ }
    }
}

/// The value of the last pair with this name, or the empty text where there
/// is no such pair.
pub open spec fn last_value(pairs: Seq<(Seq<char>, Seq<char>)>, name: Seq<char>) -> Seq<char>
    decreases pairs.len(),
{
    if pairs.len() == 0 {
        Seq::empty()
    } else if pairs.last().0 == name {
        pairs.last().1
    } else {
        last_value(pairs.drop_last(), name)
    }
}

/// Exec form of [`last_value`].
pub fn value_of(pairs: &Vec<(String, String)>, name: &str) -> (value: String)
    ensures
        value@ == last_value(pair_texts(pairs@), name@),
{
    let mut i: usize = pairs.len();
    assert(pair_texts(pairs@).take(i as int) =~= pair_texts(pairs@));
    while i > 0
        invariant
            i <= pairs.len(),
            last_value(pair_texts(pairs@), name@) == last_value(
                pair_texts(pairs@).take(i as int),
                name@,
            ),
        decreases i,
    {
        let ghost ahead = pair_texts(pairs@).take(i as int);
        i -= 1;
        assert(ahead.last() == (pairs@[i as int].0@, pairs@[i as int].1@));
        assert(ahead.drop_last() =~= pair_texts(pairs@).take(i as int));
        if pairs[i].0.as_str().eq(name) {
            return pairs[i].1.clone();
        }
    }
    String::new()
}

/// What the redirect to a URL with these parts brings: a URL of the local
/// host brings its code and its state, each empty where the query does not
/// name it, and the last one where the query names it twice. Any other URL
/// brings nothing.
pub open spec fn reply_of_parts(parts: Parts) -> Option<Reply> {
    if parts.host == Some("127.0.0.1"@) {
        Some(
            Reply {
                code: last_value(parts.query, "code"@),
                state: last_value(parts.query, "state"@),
            },
        )
    } else {
        None
    }
}

/// What the redirect to a URL brings. A text that is no URL brings nothing.
pub open spec fn reply_of_text(text: Seq<char>) -> Option<Reply> {
    match parsed_parts(text) {
        Some(parts) => reply_of_parts(parts),
        None => None,
    }
}

/// The view of a reply that may be absent.
pub open spec fn option_reply(reply: Option<OauthReply>) -> Option<Reply> {
    match reply {
        Some(found) => Some(found@),
        None => None,
    }
}

/// Reads what the redirect to a URL with these parts brings.
pub fn reply_from(parts: &UrlParts) -> (reply: Option<OauthReply>)
    ensures
        option_reply(reply) == reply_of_parts(parts@),
{
    let local = match &parts.host {
        Some(name) => name.as_str().eq("127.0.0.1"),
        None => false,
    };
    if local {
        Some(
            OauthReply {
                code: value_of(&parts.query, "code"),
                state: value_of(&parts.query, "state"),
            },
        )
    } else {
        None
    }
}

/// Reads what the redirect to a URL brings.
pub fn oauth_reply(text: &str) -> (reply: Option<OauthReply>)
    ensures
        option_reply(reply) == reply_of_text(text@),
{
    match parse_url(text) {
        Some(parts) => reply_from(&parts),
        None => None,
    }
}

/// Whether an argument is an option of the command line, not a file: it
/// starts with a hyphen.
pub open spec fn is_option(argument: Seq<char>) -> bool {
    argument.len() > 0 && argument[0] == '-'
}

/// Exec form of [`is_option`].
pub fn starts_with_hyphen(argument: &str) -> (option: bool)
    ensures
        option == is_option(argument@),
{
    for c in it: argument.chars()
        invariant
            it.seq() == argument@,
            it.index() == 0,
    {
        return c == '-';
    }
    false
}

/// The file that an argument names: the file of its URL where it has one,
/// else the argument itself, taken as a path.
pub fn located(argument: String, from_url: Option<String>) -> (path: String)
    ensures
        path@ == match from_url {
            Some(found) => found@,
            None => argument@,
        },
{
    match from_url {
        Some(found) => found,
        None => argument,
    }
}

/// The test for arguments that name files, as a function.
pub open spec fn names_file() -> spec_fn(Seq<char>) -> bool {
    |argument: Seq<char>| !is_option(argument)
}

/// The arguments that name files, in their order.
pub open spec fn file_arguments(arguments: Seq<Seq<char>>) -> Seq<Seq<char>> {
    arguments.filter(names_file())
}

/// No more arguments name files among the first `count` than among all.
proof fn lemma_kept_so_far(arguments: Seq<Seq<char>>, count: int)
    requires
        0 <= count <= arguments.len(),
    ensures
        file_arguments(arguments.take(count)).len() <= file_arguments(arguments).len(),
{
    assert(arguments =~= arguments.take(count) + arguments.skip(count));
    Seq::filter_distributes_over_add(arguments.take(count), arguments.skip(count), names_file());
}

/// One argument more: it is kept behind the others where it names a file.
proof fn lemma_kept_next(arguments: Seq<Seq<char>>, count: int)
    requires
        0 <= count < arguments.len(),
    ensures
        file_arguments(arguments.take(count + 1)) == if is_option(arguments[count]) {
            file_arguments(arguments.take(count))
        } else {
            file_arguments(arguments.take(count)).push(arguments[count])
        },
{
    let now = arguments.take(count + 1);
    assert(now.drop_last() =~= arguments.take(count));
    assert(now.last() == arguments[count]);
    reveal_with_fuel(Seq::filter, 1);
}

/// The files that the arguments of a launch name, given what looking up each
/// argument that is no option as a URL gave: the file of the URL where the
/// lookup found one, else the argument itself, taken as a path.
pub fn located_all(arguments: Vec<String>, from_urls: Vec<Option<String>>) -> (files: Vec<String>)
    requires
        from_urls@.len() == file_arguments(crate::text::texts(arguments@)).len(),
    ensures
        files@.len() == from_urls@.len(),
        forall|i: int|
            0 <= i < files@.len() ==> (#[trigger] files@[i])@ == match from_urls@[i] {
                Some(found) => found@,
                None => file_arguments(crate::text::texts(arguments@))[i],
            },
{
    let ghost all = crate::text::texts(arguments@);
    let mut files: Vec<String> = Vec::new();
    let mut i: usize = 0;
    proof {
        reveal_with_fuel(Seq::filter, 1);
        assert(all.take(0) =~= Seq::<Seq<char>>::empty());
    }
    while i < arguments.len()
        invariant
            i <= arguments.len(),
            all == crate::text::texts(arguments@),
            from_urls@.len() == file_arguments(all).len(),
            files@.len() == file_arguments(all.take(i as int)).len(),
            forall|j: int|
                0 <= j < files@.len() ==> (#[trigger] files@[j])@ == match from_urls@[j] {
                    Some(found) => found@,
                    None => file_arguments(all.take(i as int))[j],
                },
        decreases arguments.len() - i,
    {
        proof {
            lemma_kept_next(all, i as int);
            lemma_kept_so_far(all, i as int + 1);
        }
        if !starts_with_hyphen(arguments[i].as_str()) {
            let from_url = match &from_urls[files.len()] {
                Some(found) => Some(found.clone()),
                None => None,
            };
            files.push(located(arguments[i].clone(), from_url));
        }
        i += 1;
    }
    assert(all.take(arguments@.len() as int) =~= all);
    files
}

/// The files that the arguments of a launch name: one for each argument that
/// is no option, in their order. An argument that is no URL names the file at
/// that path.
pub fn opened_files(arguments: Vec<String>) -> (files: Vec<String>)
    ensures
        files@.len() == file_arguments(crate::text::texts(arguments@)).len(),
        forall|i: int|
            0 <= i < files@.len() && parsed_parts(
                file_arguments(crate::text::texts(arguments@))[i],
            ) is None ==> (#[trigger] files@[i])@ == file_arguments(
                crate::text::texts(arguments@),
            )[i],
{
    let ghost all = crate::text::texts(arguments@);
    let mut from_urls: Vec<Option<String>> = Vec::new();
    let mut i: usize = 0;
    proof {
        reveal_with_fuel(Seq::filter, 1);
        assert(all.take(0) =~= Seq::<Seq<char>>::empty());
    }
    while i < arguments.len()
        invariant
            i <= arguments.len(),
            all == crate::text::texts(arguments@),
            from_urls@.len() == file_arguments(all.take(i as int)).len(),
            forall|j: int|
                0 <= j < from_urls@.len() && parsed_parts(file_arguments(all.take(i as int))[j])
                    is None ==> (#[trigger] from_urls@[j]) is None,
        decreases arguments.len() - i,
    {
        proof {
            lemma_kept_next(all, i as int);
        }
        if !starts_with_hyphen(arguments[i].as_str()) {
            from_urls.push(file_path(arguments[i].as_str()));
        }
        i += 1;
    }
    assert(all.take(arguments@.len() as int) =~= all);
    located_all(arguments, from_urls)
}

} // verus!
