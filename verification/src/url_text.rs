//! Absolute URLs as the `url` crate reads and writes them, held as text.

use vstd::prelude::*;
use crate::text::{byte_len, push_all, string_of, utf8_len};

verus! {

/// The text of an absolute URL in three pieces: what stands before its path
/// (scheme, and authority where there is one), the path, and what follows it
/// (query and fragment with their `?` and `#`).
#[derive(Debug, Clone, PartialEq, Eq)]
pub struct UrlText {
    pub head: String,
    pub path: String,
    pub tail: String,
}

/// The three pieces of a URL as sequences of characters.
pub struct UrlParts {
    pub head: Seq<char>,
    pub path: Seq<char>,
    pub tail: Seq<char>,
}

impl UrlParts {
    /// The whole URL.
    pub open spec fn text(self) -> Seq<char> {
        self.head + self.path + self.tail
    }
}

impl View for UrlText {
    type V = UrlParts;

    open spec fn view(&self) -> UrlParts {
        UrlParts { head: self.head@, path: self.path@, tail: self.tail@ }
    }
}

/// What `url::Url::parse` makes of `input`: the pieces of the URL's
/// serialisation, or `None` where `input` is no absolute URL.
pub uninterp spec fn parsed_url(input: Seq<char>) -> Option<UrlParts>;

/// What `url::Url::join` makes of `reference` against the URL that `base`
/// parses to: `None` where `base` is no absolute URL or the reference cannot be
/// resolved against it.
pub uninterp spec fn joined_url(base: Seq<char>, reference: Seq<char>) -> Option<UrlParts>;

/// The path that `url::Url::set_path` writes into the URL that `url` parses to
/// when it is given `path`.
pub uninterp spec fn replaced_path(url: Seq<char>, path: Seq<char>) -> Seq<char>;

/// Whether a URL record can take `path` in place of its own: the record keeps
/// 32-bit offsets into its text, and writing a path may turn each byte into a
/// three-byte escape and add a few separators.
pub open spec fn record_holds(url: UrlParts, path: Seq<char>) -> bool {
    utf8_len(url.head) + utf8_len(url.path) + utf8_len(url.tail) + 3 * utf8_len(path) + 8
        <= u32::MAX
}

/// `url::Url::parse`, with the parsed URL cut into its pieces: the text before
/// `Position::BeforePath`, `Url::path`, and the text from `Position::AfterPath`.
/// The result is what the name `parsed_url` stands for.
#[verifier::external_body]
pub(crate) fn parse_url(input: &str) -> (parsed: Option<UrlText>)
    ensures
        parsed matches Some(u) ==> parsed_url(input@) == Some(u@),
        parsed is None ==> parsed_url(input@) is None,
{
    match url::Url::parse(input) {
        Ok(url) => Some(
            UrlText {
                head: url[..url::Position::BeforePath].to_string(),
                path: url.path().to_string(),
                tail: url[url::Position::AfterPath..].to_string(),
            },
        ),
        Err(_) => None,
    }
}

/// `url::Url::join` on the URL that `url::Url::parse` makes of `base`, cut into
/// pieces as in `parse_url`. The result is what the name `joined_url` stands
/// for.
#[verifier::external_body]
pub(crate) fn join_url(base: &str, reference: &str) -> (joined: Option<UrlText>)
    ensures
        joined matches Some(u) ==> joined_url(base@, reference@) == Some(u@),
        joined is None ==> joined_url(base@, reference@) is None,
{
    let base = match url::Url::parse(base) {
        Ok(url) => url,
        Err(_) => return None,
    };
    match base.join(reference) {
        Ok(url) => Some(
            UrlText {
                head: url[..url::Position::BeforePath].to_string(),
                path: url.path().to_string(),
                tail: url[url::Position::AfterPath..].to_string(),
            },
        ),
        Err(_) => None,
    }
}

/// `url::Url::set_path` on the URL that `url::Url::parse` makes of `url`,
/// returned as text. `set_path` keeps what stands before and after the path and
/// writes a path of its own making between them; that path is what the name
/// `replaced_path` stands for. It aborts where the new text outgrows the
/// record's 32-bit offsets, which `record_holds` rules out.
#[verifier::external_body]
pub(crate) fn set_url_path(url: &str, path: &str) -> (changed: Option<String>)
    requires
        parsed_url(url@) matches Some(u) ==> record_holds(u, path@),
    ensures
        changed is Some <==> parsed_url(url@) is Some,
        changed matches Some(text) ==> text@ == parsed_url(url@).unwrap().head + replaced_path(
            url@,
            path@,
        ) + parsed_url(url@).unwrap().tail,
{
    match url::Url::parse(url) {
        Ok(mut parsed) => {
            parsed.set_path(path);
            Some(parsed.into())
        },
        Err(_) => None,
    }
}

impl UrlText {
    /// Reads `text` as an absolute URL and cuts it into its pieces.
    pub fn read(text: &str) -> (url: Option<UrlText>)
        ensures
            url matches Some(u) ==> parsed_url(text@) == Some(u@),
            url is None ==> parsed_url(text@) is None,
    {
        parse_url(text)
    }

    /// The whole URL.
    pub fn text(&self) -> (out: String)
        ensures
            out@ == self@.text(),
    {
        let mut out: Vec<char> = Vec::new();
        push_all(&mut out, self.head.as_str());
        push_all(&mut out, self.path.as_str());
        push_all(&mut out, self.tail.as_str());
        assert(out@ =~= self@.text());
        string_of(&out)
    }

    /// Tests whether the URL record can take `path` in place of its own.
    pub fn holds(&self, path: &str) -> (ok: bool)
        ensures
            ok == record_holds(self@, path@),
    {
        let own: u128 = byte_len(self.head.as_str()) as u128 + byte_len(self.path.as_str()) as u128
            + byte_len(self.tail.as_str()) as u128;
        let new: u128 = 3 * (byte_len(path) as u128);
        own + new + 8 <= u32::MAX as u128
    }
}

} // verus!
