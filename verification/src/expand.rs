//! Expansion of a stored long value into the destination of a redirect.

use vstd::prelude::*;
use crate::error::{Failure, GolinkError};
use crate::template::{is_renderable, render_template, renderable, template_output};
use crate::text::{chars_of, push_all, same_text, string_of, trim_end, trimmed_end};
use crate::url_text::{parse_url, parsed_url, record_holds, replaced_path, set_url_path};

verus! {

/// What a template can refer to: the rest of the request path, under the name
/// `path`.
#[derive(Debug, Clone, PartialEq, Eq)]
pub struct ExpandEnvironment {
    pub path: String,
}

/// The name under which a long value is registered with the template engine.
pub open spec fn template_name() -> Seq<char> {
    "url_input"@
}

/// The name of the one variable that a template can refer to.
pub open spec fn path_variable() -> Seq<char> {
    "path"@
}

/// The path of a URL with `remainder` appended: the URL's own path without its
/// trailing slashes, a slash, and the remainder.
pub open spec fn joined_path(url_path: Seq<char>, remainder: Seq<char>) -> Seq<char> {
    trim_end(url_path, '/') + seq!['/'] + remainder
}

/// `remainder` appended to a long value that is no URL: the long value itself
/// where there is nothing to append, else the two with a slash between them.
pub open spec fn appended_opaque(base: Seq<char>, remainder: Seq<char>) -> Seq<char> {
    if remainder.len() == 0 {
        base
    } else {
        base + seq!['/'] + remainder
    }
}

/// `remainder` appended to the long value `base`. Where `base` is a URL, the
/// result is that URL as the `url` crate writes it, with the remainder added
/// to its path and with what stands before and after the path kept.
pub open spec fn appended(base: Seq<char>, remainder: Seq<char>) -> Seq<char> {
    match parsed_url(base) {
        Some(url) => if remainder.len() == 0 {
            url.text()
        } else {
            url.head + replaced_path(base, joined_path(url.path, remainder)) + url.tail
        },
        None => appended_opaque(base, remainder),
    }
}

/// Whether `remainder` can be appended to `base`: where `base` is a URL and
/// there is something to append, the URL record must hold the new path.
pub open spec fn appendable(base: Seq<char>, remainder: Seq<char>) -> bool {
    parsed_url(base) matches Some(url) ==> remainder.len() > 0 ==> record_holds(
        url,
        joined_path(url.path, remainder),
    )
}

/// The expansion of `long_value` for a request whose remaining path is `path`.
/// A long value that renders to itself holds no template directive and gets
/// the path appended; any other rendering is the expansion as it stands.
pub open spec fn expanded(long_value: Seq<char>, path: Seq<char>) -> Result<Seq<char>, Failure> {
    match template_output(template_name(), long_value, path_variable(), path) {
        Ok(rendered) => if rendered == long_value {
            Ok(appended(long_value, path))
        } else {
            Ok(rendered)
        },
        Err(message) => Err(Failure::TemplateError(message)),
    }
}

/// Whether `long_value` can be expanded for `path`: the template engine must
/// be able to take it, and where it renders to itself, the path must be
/// appendable.
pub open spec fn expandable(long_value: Seq<char>, path: Seq<char>) -> bool {
    &&& renderable(long_value)
    &&& template_output(template_name(), long_value, path_variable(), path) == Ok::<
        Seq<char>,
        Seq<char>,
    >(long_value) ==> appendable(long_value, path)
}

/// An outcome of expansion, with its strings as sequences of characters.
pub open spec fn expansion_view(outcome: Result<String, GolinkError>) -> Result<
    Seq<char>,
    Failure,
> {
    match outcome {
        Ok(url) => Ok(url@),
        Err(error) => Err(error@),
    }
}

/// Joins the path of a URL and the remainder of a request path.
pub fn join_path(url_path: &str, remainder: &str) -> (out: String)
    ensures
        out@ == joined_path(url_path@, remainder@),
{
    let own = chars_of(url_path);
    let kept = trimmed_end(&own, '/');
    let mut out: Vec<char> = Vec::new();
    let mut i: usize = 0;
    while i < kept
        invariant
            i <= kept <= own.len(),
            out@ == own@.take(i as int),
        decreases kept - i,
    {
        out.push(own[i]);
        i += 1;
        assert(out@ =~= own@.take(i as int));
    }
    out.push('/');
    push_all(&mut out, remainder);
    assert(out@ =~= joined_path(url_path@, remainder@));
    string_of(&out)
}

/// Appends the remainder of a request path to a long value that is no URL.
pub fn append_opaque(base: &str, remainder: &str) -> (out: String)
    ensures
        out@ == appended_opaque(base@, remainder@),
{
    let mut out: Vec<char> = Vec::new();
    push_all(&mut out, base);
    if !remainder.is_empty() {
        out.push('/');
        push_all(&mut out, remainder);
    }
    assert(out@ =~= appended_opaque(base@, remainder@));
    string_of(&out)
}

/// Tests whether `remainder` can be appended to `base`.
pub fn can_append(base: &str, remainder: &str) -> (ok: bool)
    ensures
        ok == appendable(base@, remainder@),
{
    match parse_url(base) {
        Some(url) => {
            if remainder.is_empty() {
                true
            } else {
                let path = join_path(url.path.as_str(), remainder);
                url.holds(path.as_str())
            }
        },
        None => true,
    }
}

/// Appends the remainder of a request path to a long value.
pub fn append(base: &str, remainder_path: &str) -> (out: String)
    requires
        appendable(base@, remainder_path@),
    ensures
        out@ == appended(base@, remainder_path@),
{
    match parse_url(base) {
        Some(url) => {
            if remainder_path.is_empty() {
                url.text()
            } else {
                let path = join_path(url.path.as_str(), remainder_path);
                match set_url_path(base, path.as_str()) {
                    Some(text) => text,
                    None => vstd::pervasive::unreached(),
                }
            }
        },
        None => append_opaque(base, remainder_path),
    }
}

/// Tests whether `long_value` can be expanded for `path`.
pub fn can_expand(long_value: &str, path: &str) -> (ok: bool)
    ensures
        ok == expandable(long_value@, path@),
{
    if !is_renderable(long_value) {
        return false;
    }
    match render_template("url_input", long_value, "path", path) {
        Ok(rendered) => {
            if same_text(rendered.as_str(), long_value) {
                can_append(long_value, path)
            } else {
                true
            }
        },
        Err(_) => true,
    }
}

/// Expands a stored long value for a request whose remaining path is
/// `environment.path`.
pub fn expand(long_value: &str, environment: ExpandEnvironment) -> (outcome: Result<
    String,
    GolinkError,
>)
    requires
        expandable(long_value@, environment.path@),
    ensures
        expansion_view(outcome) == expanded(long_value@, environment.path@),
{
    match render_template("url_input", long_value, "path", environment.path.as_str()) {
        Ok(rendered) => {
            if same_text(rendered.as_str(), long_value) {
                Ok(append(long_value, environment.path.as_str()))
            } else {
                Ok(rendered)
            }
        },
        Err(message) => Err(GolinkError::TemplateError(message)),
    }
}

} // verus!
