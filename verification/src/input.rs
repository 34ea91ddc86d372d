//! Parsing of a request into the short link it names and the rest of its path.

use vstd::prelude::*;
use crate::error::{Failure, GolinkError};
use crate::normalize::{all_chars, first_segment, law_normal_form, lowercase, normalize_chars, normalized};
use crate::text::{chars_between, chars_of, find_from, string_of, trim_start, until};
use crate::url_text::{join_url, joined_url, parse_url, parsed_url, UrlParts};

verus! {

/// What a request asks for.
#[derive(Debug, Clone, PartialEq, Eq)]
pub struct ParsedInput {
    /// The normalised first segment of the request path.
    pub short: String,
    /// The segments after the first, joined by `/`, as they were written.
    pub remainder: String,
    /// Whether the request path ends in `+`.
    pub is_metadata_request: bool,
}

/// A `ParsedInput` with its strings as sequences of characters.
pub struct Request {
    pub short: Seq<char>,
    pub remainder: Seq<char>,
    pub is_metadata_request: bool,
}

impl View for ParsedInput {
    type V = Request;

    open spec fn view(&self) -> Request {
        Request {
            short: self.short@,
            remainder: self.remainder@,
            is_metadata_request: self.is_metadata_request,
        }
    }
}

/// The pieces of `s` between its occurrences of `sep`; there is always one
/// piece more than there are separators.
pub open spec fn split(s: Seq<char>, sep: char) -> Seq<Seq<char>>
    decreases s.len(),
{
    let head = until(s, sep);
    if head.len() >= s.len() {
        seq![s]
    } else {
        seq![head] + split(s.skip(head.len() as int + 1), sep)
    }
}

/// The pieces `parts` with `sep` between each two neighbours.
pub open spec fn join(parts: Seq<Seq<char>>, sep: char) -> Seq<char>
    decreases parts.len(),
{
    if parts.len() == 0 {
        Seq::empty()
    } else if parts.len() == 1 {
        parts[0]
    } else {
        parts[0] + seq![sep] + join(parts.skip(1), sep)
    }
}

/// The pieces held by `parts`, each as a sequence of characters.
pub open spec fn pieces(parts: Seq<Vec<char>>) -> Seq<Seq<char>> {
    parts.map_values(|part: Vec<char>| part@)
}

/// What the path of a request URL asks for. A path without a leading `/`
/// belongs to a URL that has no segments; a first segment that normalises to
/// nothing names no short link.
pub open spec fn parsed_path(path: Seq<char>) -> Result<Request, Failure> {
    if path.len() == 0 || path[0] != '/' {
        Err(Failure::InvalidInput)
    } else {
        let segments = split(path.skip(1), '/');
        let short = normalized(segments[0]);
        if short.len() == 0 {
            Err(Failure::InvalidInput)
        } else {
            Ok(
                Request {
                    short,
                    remainder: join(segments.skip(1), '/'),
                    is_metadata_request: path.last() == '+',
                },
            )
        }
    }
}

/// The base against which an input that is no absolute URL is resolved.
pub open spec fn request_base() -> Seq<char> {
    "https://go/"@
}

/// The URL that an input stands for: the input itself where it is an absolute
/// URL, else the input taken as a reference relative to the base.
pub open spec fn request_url(input: Seq<char>) -> Option<UrlParts> {
    match parsed_url(input) {
        Some(url) => Some(url),
        None => joined_url(request_base(), input),
    }
}

/// What an input asks for.
pub open spec fn parsed_input(input: Seq<char>) -> Result<Request, Failure> {
    match request_url(input) {
        Some(url) => parsed_path(url.path),
        None => Err(Failure::InvalidInput),
    }
}

/// An outcome of parsing, with its strings as sequences of characters.
pub open spec fn parsing_view(outcome: Result<ParsedInput, GolinkError>) -> Result<
    Request,
    Failure,
> {
    match outcome {
        Ok(parsed) => Ok(parsed@),
        Err(error) => Err(error@),
    }
}

/// The part before the first separator is no longer than the text; it is the
/// whole text where no separator occurs, and is followed by one where it is
/// shorter.
pub proof fn lemma_until_len(s: Seq<char>, sep: char)
    ensures
        until(s, sep).len() <= s.len(),
        until(s, sep).len() == s.len() ==> until(s, sep) == s,
        until(s, sep).len() < s.len() ==> s[until(s, sep).len() as int] == sep,
    decreases s.len(),
{
    if s.len() > 0 && s[0] != sep {
        lemma_until_len(s.skip(1), sep);
        if until(s, sep).len() == s.len() {
            assert(until(s, sep) =~= s);
        }
    }
}

/// Cutting a text at every separator and joining the pieces with the
/// separator gives the text back.
pub proof fn law_join_split(s: Seq<char>, sep: char)
    ensures
        join(split(s, sep), sep) == s,
    decreases s.len(),
{
    let head = until(s, sep);
    lemma_until_len(s, sep);
    if head.len() < s.len() {
        let rest = s.skip(head.len() as int + 1);
        law_join_split(rest, sep);
        let parts = split(s, sep);
        assert(parts.skip(1) =~= split(rest, sep));
        assert(parts.len() >= 2);
        lemma_until_is_prefix(s, sep);
        assert(head + seq![sep] + rest =~= s);
    }
}

/// The part before the first separator is a prefix of the text.
pub proof fn lemma_until_is_prefix(s: Seq<char>, sep: char)
    ensures
        until(s, sep) == s.take(until(s, sep).len() as int),
    decreases s.len(),
{
    lemma_until_len(s, sep);
    if s.len() > 0 && s[0] != sep {
        lemma_until_is_prefix(s.skip(1), sep);
        lemma_until_len(s.skip(1), sep);
        assert(until(s, sep) =~= s.take(until(s, sep).len() as int));
    } else {
        assert(until(s, sep) =~= s.take(0));
    }
}

/// The short link of a request is the normal form of the first segment of its
/// path, as `normalize_shortlink` computes it for the same path: a key stored
/// under the one is found by the other.
pub proof fn law_key_parity(path: Seq<char>)
    requires
        parsed_path(path) is Ok,
    ensures
        parsed_path(path)->Ok_0.short == normalized(first_segment(path)),
{
    let rest = path.skip(1);
    lemma_until_len(rest, '/');
    assert(split(rest, '/')[0] == until(rest, '/'));
    assert(trim_start(path, '/') == trim_start(rest, '/'));
    if rest.len() > 0 && rest[0] == '/' {
        assert(until(rest, '/') =~= Seq::<char>::empty());
        assert(normalized(Seq::<char>::empty()) =~= Seq::<char>::empty()) by {
            assert(lowercase(Seq::<char>::empty()) =~= Seq::<char>::empty());
        }
    }
}

/// The short link of a request holds no ASCII capital, no hyphen and no space.
pub proof fn law_short_is_normal(path: Seq<char>)
    requires
        parsed_path(path) is Ok,
    ensures
        all_chars(
            parsed_path(path)->Ok_0.short,
            |c: char| !('A' <= c && c <= 'Z') && c != '-' && c != ' ',
        ),
        parsed_path(path)->Ok_0.short.len() > 0,
{
    law_normal_form(split(path.skip(1), '/')[0]);
}

/// Cuts `v` at every `sep`.
pub fn split_chars(v: &Vec<char>, sep: char) -> (out: Vec<Vec<char>>)
    ensures
        pieces(out@) == split(v@, sep),
        out.len() >= 1,
{
    let mut out: Vec<Vec<char>> = Vec::new();
    let mut i: usize = 0;
    assert(v@.skip(0) == v@);
    assert(pieces(out@) + split(v@.skip(0), sep) =~= split(v@, sep));
    loop
        invariant
            i <= v.len(),
            pieces(out@) + split(v@.skip(i as int), sep) == split(v@, sep),
        decreases v.len() - i,
    {
        let ghost before = out@;
        let j = find_from(v, i, sep);
        let segment = chars_between(v, i, j);
        out.push(segment);
        proof {
            let rest = v@.skip(i as int);
            lemma_until_len(rest, sep);
            assert(pieces(out@) =~= pieces(before) + seq![until(rest, sep)]);
            if j < v.len() {
                assert(rest.skip(until(rest, sep).len() as int + 1) == v@.skip(j as int + 1));
                assert(pieces(out@) + split(v@.skip(j as int + 1), sep) =~= pieces(before)
                    + split(rest, sep));
            } else {
                assert(v@.subrange(i as int, j as int) == rest);
                assert(pieces(out@) =~= pieces(before) + split(rest, sep));
            }
        }
        if j >= v.len() {
            return out;
        }
        i = j + 1;
    }
}

/// Joins the pieces `parts[from..]` with `sep` between each two neighbours.
pub fn join_chars(parts: &Vec<Vec<char>>, from: usize, sep: char) -> (out: Vec<char>)
    requires
        from <= parts.len(),
    ensures
        out@ == join(pieces(parts@).skip(from as int), sep),
{
    let mut out: Vec<char> = Vec::new();
    let mut k: usize = from;
    while k < parts.len()
        invariant
            from <= k <= parts.len(),
            k == from ==> out@.len() == 0,
            out@ + (if k == from {
                join(pieces(parts@).skip(k as int), sep)
            } else if k < parts.len() {
                seq![sep] + join(pieces(parts@).skip(k as int), sep)
            } else {
                Seq::<char>::empty()
            }) == join(pieces(parts@).skip(from as int), sep),
        decreases parts.len() - k,
    {
        let ghost before = out@;
        let ghost tail = pieces(parts@).skip(k as int);
        if k > from {
            out.push(sep);
        }
        let ghost mid = out@;
        let part = &parts[k];
        let mut i: usize = 0;
        while i < part.len()
            invariant
                i <= part.len(),
                out@ == mid + part@.take(i as int),
            decreases part.len() - i,
        {
            out.push(part[i]);
            i += 1;
            assert(out@ =~= mid + part@.take(i as int));
        }
        proof {
            assert(part@.take(part.len() as int) == part@);
            assert(tail[0] == part@);
            assert(tail.skip(1) == pieces(parts@).skip(k as int + 1));
            if k + 1 < parts.len() {
                assert(join(tail, sep) == part@ + seq![sep] + join(tail.skip(1), sep));
                assert(out@ + (seq![sep] + join(tail.skip(1), sep)) =~= mid + join(tail, sep));
            } else {
                assert(tail.len() == 1);
                assert(out@ + Seq::<char>::empty() =~= mid + join(tail, sep));
            }
            if k > from {
                assert(mid + join(tail, sep) =~= before + (seq![sep] + join(tail, sep)));
            } else {
                assert(mid + join(tail, sep) =~= before + join(tail, sep));
            }
        }
        k += 1;
    }
    proof {
        if k == from {
            assert(pieces(parts@).skip(k as int).len() == 0);
        }
        assert(out@ + Seq::<char>::empty() =~= out@);
    }
    out
}

/// Reads the path of a request URL: the short link that its first segment
/// names, the segments after it, and whether the path ends in `+`.
pub fn parse_path(path: &str) -> (outcome: Result<ParsedInput, GolinkError>)
    ensures
        parsing_view(outcome) == parsed_path(path@),
{
    let chars = chars_of(path);
    let n = chars.len();
    if n == 0 || chars[0] != '/' {
        return Err(GolinkError::InvalidInput);
    }
    let rest = chars_between(&chars, 1, n);
    assert(rest@ == path@.skip(1));
    let segments = split_chars(&rest, '/');
    assert(pieces(segments@)[0] == segments@[0]@);
    let short = normalize_chars(&segments[0]);
    if short.len() == 0 {
        return Err(GolinkError::InvalidInput);
    }
    let is_metadata_request = chars[n - 1] == '+';
    let remainder = join_chars(&segments, 1, '/');
    Ok(
        ParsedInput {
            short: string_of(&short),
            remainder: string_of(&remainder),
            is_metadata_request,
        },
    )
}

/// Reads a request, given as an absolute URL, as a path or as a bare name.
pub fn parse_input(input: &str) -> (outcome: Result<ParsedInput, GolinkError>)
    ensures
        parsing_view(outcome) == parsed_input(input@),
{
    let url = match parse_url(input) {
        Some(url) => Some(url),
        None => join_url("https://go/", input),
    };
    match url {
        Some(url) => parse_path(url.path.as_str()),
        None => Err(GolinkError::InvalidInput),
    }
}

} // verus!
