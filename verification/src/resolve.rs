//! Resolution of a request, given a way to look up stored long values.

use vstd::prelude::*;
use crate::error::{Failure, GolinkError};
use crate::expand::{can_expand, expand, expandable, expanded, ExpandEnvironment};
use crate::input::{parse_input, parsed_input, ParsedInput, Request};
use crate::text::{chars_of, string_between, trim_end, trimmed_end};

verus! {

/// What a request resolves to.
#[derive(Debug, Clone, PartialEq, Eq)]
pub enum GolinkResolution {
    /// The request asks about the short link itself, which is given here.
    MetadataRequest(String),
    /// The request is to be redirected to the URL given first; the short link
    /// that it named is given second.
    RedirectRequest(String, String),
}

/// A `GolinkResolution` with its strings as sequences of characters.
pub enum Resolution {
    MetadataRequest(Seq<char>),
    RedirectRequest(Seq<char>, Seq<char>),
}

impl View for GolinkResolution {
    type V = Resolution;

    open spec fn view(&self) -> Resolution {
        match self {
            GolinkResolution::MetadataRequest(shortlink) => Resolution::MetadataRequest(
                shortlink@,
            ),
            GolinkResolution::RedirectRequest(url, shortlink) => Resolution::RedirectRequest(
                url@,
                shortlink@,
            ),
        }
    }
}

/// What was found under a short link, as a sequence of characters.
pub open spec fn stored_view(fetched: Option<String>) -> Option<Seq<char>> {
    match fetched {
        Some(long_value) => Some(long_value@),
        None => None,
    }
}

/// An outcome of resolution, with its strings as sequences of characters.
pub open spec fn resolution_view(outcome: Result<GolinkResolution, GolinkError>) -> Result<
    Resolution,
    Failure,
> {
    match outcome {
        Ok(resolution) => Ok(resolution@),
        Err(error) => Err(error@),
    }
}

/// What a parsed request resolves to when `fetched` is what is stored under
/// its short link. A metadata request is answered without regard to what is
/// stored, with the short link freed of the `+` signs at its end.
pub open spec fn resolution(request: Request, fetched: Option<Seq<char>>) -> Result<
    Resolution,
    Failure,
> {
    if request.is_metadata_request {
        Ok(Resolution::MetadataRequest(trim_end(request.short, '+')))
    } else {
        match fetched {
            Some(long_value) => match expanded(long_value, request.remainder) {
                Ok(url) => Ok(Resolution::RedirectRequest(url, request.short)),
                Err(failure) => Err(failure),
            },
            None => Err(Failure::NotFound(request.short)),
        }
    }
}

/// What an input resolves to when `fetched` is what is stored under the short
/// link that it names.
pub open spec fn resolved(input: Seq<char>, fetched: Option<Seq<char>>) -> Result<
    Resolution,
    Failure,
> {
    match parsed_input(input) {
        Ok(request) => resolution(request, fetched),
        Err(failure) => Err(failure),
    }
}

/// Whether a parsed request can be resolved with `fetched`: what is stored
/// must be expandable for the request, unless the request never looks at it.
pub open spec fn resolvable(request: Request, fetched: Option<Seq<char>>) -> bool {
    !request.is_metadata_request ==> (fetched matches Some(long_value) ==> expandable(
        long_value,
        request.remainder,
    ))
}

/// Whether the lookup is asked about a parsed request.
pub open spec fn asks(outcome: Result<Request, Failure>) -> bool {
    outcome matches Ok(request) && !request.is_metadata_request
}

/// A metadata request is answered alike whatever is stored under its short
/// link.
pub proof fn law_metadata_needs_no_lookup(
    request: Request,
    one: Option<Seq<char>>,
    other: Option<Seq<char>>,
)
    requires
        request.is_metadata_request,
    ensures
        resolution(request, one) == resolution(request, other),
        resolution(request, one) is Ok,
{
}

/// A redirect request for a short link under which nothing is stored fails
/// with `NotFound` and that short link.
pub proof fn law_nothing_stored(request: Request)
    requires
        !request.is_metadata_request,
    ensures
        resolution(request, None) == Err::<Resolution, Failure>(Failure::NotFound(request.short)),
{
}

/// A redirect carries the short link of the request.
pub proof fn law_redirect_names_short(request: Request, fetched: Option<Seq<char>>)
    requires
        resolution(request, fetched) matches Ok(Resolution::RedirectRequest(_, _)),
    ensures
        resolution(request, fetched) matches Ok(Resolution::RedirectRequest(_, shortlink))
            && shortlink == request.short,
{
}

/// Resolves a parsed request, given what is stored under its short link.
pub fn dispatch(parsed: ParsedInput, fetched: Option<String>) -> (outcome: Result<
    GolinkResolution,
    GolinkError,
>)
    requires
        resolvable(parsed@, stored_view(fetched)),
    ensures
        resolution_view(outcome) == resolution(parsed@, stored_view(fetched)),
{
    if parsed.is_metadata_request {
        let short = chars_of(parsed.short.as_str());
        let kept = trimmed_end(&short, '+');
        assert(short@.subrange(0, kept as int) == short@.take(kept as int));
        return Ok(GolinkResolution::MetadataRequest(string_between(&short, 0, kept)));
    }
    match fetched {
        Some(long_value) => {
            match expand(long_value.as_str(), ExpandEnvironment { path: parsed.remainder }) {
                Ok(url) => Ok(GolinkResolution::RedirectRequest(url, parsed.short)),
                Err(error) => Err(error),
            }
        },
        None => Err(GolinkError::NotFound(parsed.short)),
    }
}

/// Resolves `input`, asking `lookup` for the long value that is stored under
/// the short link that the input names. A malformed input and a metadata
/// request are answered without a lookup.
pub fn resolve<F: Fn(&str) -> Option<String>>(input: &str, lookup: &F) -> (outcome: Result<
    GolinkResolution,
    GolinkError,
>)
    requires
        parsed_input(input@) matches Ok(request) ==> !request.is_metadata_request ==> {
            &&& forall|key: &str| key@ == request.short ==> lookup.requires((key,))
            &&& forall|key: &str, fetched: Option<String>|
                key@ == request.short && #[trigger] lookup.ensures((key,), fetched) ==> resolvable(
                    request,
                    stored_view(fetched),
                )
        },
    ensures
        !asks(parsed_input(input@)) ==> resolution_view(outcome) == resolved(input@, None),
        asks(parsed_input(input@)) ==> exists|key: &str, fetched: Option<String>|
            key@ == parsed_input(input@)->Ok_0.short && #[trigger] lookup.ensures((key,), fetched)
                && resolution_view(outcome) == resolved(input@, stored_view(fetched)),
{
    match parse_input(input) {
        Ok(parsed) => {
            if parsed.is_metadata_request {
                dispatch(parsed, None)
            } else {
                let key: &str = parsed.short.as_str();
                let fetched = lookup(key);
                assert(lookup.ensures((key,), fetched));
                dispatch(parsed, fetched)
            }
        },
        Err(error) => Err(error),
    }
}

/// Resolves `input` for a caller that has fetched the stored long value
/// itself: `fetched` is what is stored under the short link that
/// `parse_input` finds in `input`. The answer is `None` where what was fetched
/// cannot be expanded for this request.
pub fn resolve_fetched(input: &str, fetched: Option<String>) -> (outcome: Option<
    Result<GolinkResolution, GolinkError>,
>)
    ensures
        outcome is Some <==> (parsed_input(input@) matches Ok(request) ==> resolvable(
            request,
            stored_view(fetched),
        )),
        outcome matches Some(found) ==> resolution_view(found) == resolved(
            input@,
            stored_view(fetched),
        ),
{
    let fits = match parse_input(input) {
        Ok(parsed) => parsed.is_metadata_request || match &fetched {
            Some(long_value) => can_expand(long_value.as_str(), parsed.remainder.as_str()),
            None => true,
        },
        Err(_) => true,
    };
    if !fits {
        return None;
    }
    let held = &fetched;
    let stored = |key: &str| -> (found: Option<String>)
        ensures
            stored_view(found) == stored_view(*held),
        {
            match held {
                Some(long_value) => Some(long_value.clone()),
                None => None,
            }
        };
    Some(resolve(input, &stored))
}

} // verus!
