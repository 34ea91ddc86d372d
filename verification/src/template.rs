//! Rendering of a stored long value as a template.

use vstd::prelude::*;
use crate::text::chars_of;

verus! {

/// What the `tinytemplate` engine gives for the template text `template`,
/// registered under `name`, when it is rendered with a context that binds the
/// one variable `variable` to the string `value`: the rendered text, or the
/// engine's diagnostic message where it cannot compile or render the template.
pub uninterp spec fn template_output(
    name: Seq<char>,
    template: Seq<char>,
    variable: Seq<char>,
    value: Seq<char>,
) -> Result<Seq<char>, Seq<char>>;

/// An outcome of rendering, with its strings as sequences of characters.
pub open spec fn rendering_view(out: Result<String, String>) -> Result<Seq<char>, Seq<char>> {
    match out {
        Ok(text) => Ok(text@),
        Err(message) => Err(message@),
    }
}

/// Characters that may stand between the words of a block tag: the hyphen,
/// ASCII white space, and every character beyond ASCII (some of which the
/// engine takes for white space).
pub open spec fn is_filler(c: char) -> bool {
    c == '-' || c == ' ' || ('\t' <= c && c <= '\r') || c as u32 >= 128
}

/// The first position at or after `from` where `t` holds no filler.
pub open spec fn skip_forth(t: Seq<char>, from: int) -> int
    decreases t.len() - from,
{
    if 0 <= from < t.len() && is_filler(t[from]) {
        skip_forth(t, from + 1)
    } else {
        from
    }
}

/// The start of the run of filler that ends just before position `to` of `t`.
pub open spec fn skip_back(t: Seq<char>, to: int) -> int
    decreases to,
{
    if 0 < to <= t.len() && is_filler(t[to - 1]) {
        skip_back(t, to - 1)
    } else {
        to
    }
}

/// Whether `t` holds the two characters `a` and `b` just before position `to`.
pub open spec fn pair_before(t: Seq<char>, to: int, a: char, b: char) -> bool {
    2 <= to <= t.len() && t[to - 2] == a && t[to - 1] == b
}

/// Whether `t` holds `{#}` at position `i`: a comment tag without room for a
/// comment.
pub open spec fn empty_comment_at(t: Seq<char>, i: int) -> bool {
    0 <= i && i + 3 <= t.len() && t[i] == '{' && t[i + 1] == '#' && t[i + 2] == '}'
}

/// Whether the word `not` at position `i` of `t` is the condition of an `if`
/// block that names no path: `{{`, `if` and `not` follow each other with
/// nothing but filler between them, and after `not` comes either a character
/// beyond ASCII or, across filler, the closing `}}`.
pub open spec fn pathless_not_at(t: Seq<char>, i: int) -> bool {
    &&& 0 <= i && i + 3 < t.len()
    &&& t[i] == 'n' && t[i + 1] == 'o' && t[i + 2] == 't'
    &&& skip_back(t, i) < i
    &&& pair_before(t, skip_back(t, i), 'i', 'f')
    &&& pair_before(t, skip_back(t, skip_back(t, i) - 2), '{', '{')
    &&& (t[i + 3] as u32 >= 128 || pair_before(t, skip_forth(t, i + 3) + 2, '}', '}'))
}

/// The template texts that are handed to the engine. The engine stops the
/// process, instead of returning an error, when it compiles an empty comment
/// tag `{#}`, an `if not` block that names no path, or a text that ends in a
/// backslash; a text that holds one of these is not renderable.
pub open spec fn renderable(t: Seq<char>) -> bool {
    &&& !(t.len() > 0 && t.last() == '\\')
    &&& forall|i: int| !empty_comment_at(t, i)
    &&& forall|i: int| !pathless_not_at(t, i)
}

fn is_filler_char(c: char) -> (r: bool)
    ensures
        r == is_filler(c),
{
    c == '-' || c == ' ' || ('\t' <= c && c <= '\r') || c as u32 >= 128
}

fn filler_end(t: &Vec<char>, from: usize) -> (end: usize)
    requires
        from <= t.len(),
    ensures
        end == skip_forth(t@, from as int),
        from <= end <= t.len(),
{
    let mut j: usize = from;
    while j < t.len() && is_filler_char(t[j])
        invariant
            from <= j <= t.len(),
            skip_forth(t@, j as int) == skip_forth(t@, from as int),
        decreases t.len() - j,
    {
        j += 1;
    }
    j
}

fn filler_start(t: &Vec<char>, to: usize) -> (start: usize)
    requires
        to <= t.len(),
    ensures
        start == skip_back(t@, to as int),
        start <= to,
{
    let mut j: usize = to;
    while j > 0 && is_filler_char(t[j - 1])
        invariant
            j <= to <= t.len(),
            skip_back(t@, j as int) == skip_back(t@, to as int),
        decreases j,
    {
        j -= 1;
    }
    j
}

fn has_pair_before(t: &Vec<char>, to: usize, a: char, b: char) -> (r: bool)
    ensures
        r == pair_before(t@, to as int, a, b),
{
    2 <= to && to <= t.len() && t[to - 2] == a && t[to - 1] == b
}

fn is_pathless_not(t: &Vec<char>, i: usize) -> (r: bool)
    ensures
        r == pathless_not_at(t@, i as int),
{
    if t.len() < 4 || i >= t.len() - 3 {
        return false;
    }
    if !(t[i] == 'n' && t[i + 1] == 'o' && t[i + 2] == 't') {
        return false;
    }
    let word_end = filler_start(t, i);
    if word_end >= i || !has_pair_before(t, word_end, 'i', 'f') {
        return false;
    }
    let tag_end = filler_start(t, word_end - 2);
    if !has_pair_before(t, tag_end, '{', '{') {
        return false;
    }
    if t[i + 3] as u32 >= 128 {
        return true;
    }
    let close = filler_end(t, i + 3);
    close <= t.len() - 2 && has_pair_before(t, close + 2, '}', '}')
}

/// Tests whether a template text is renderable.
pub fn is_renderable(template: &str) -> (r: bool)
    ensures
        r == renderable(template@),
{
    let t = chars_of(template);
    let n = t.len();
    if n > 0 && t[n - 1] == '\\' {
        return false;
    }
    let mut i: usize = 0;
    while i < n
        invariant
            n == t.len(),
            t@ == template@,
            i <= n,
            forall|k: int| k < i ==> !empty_comment_at(t@, k),
            forall|k: int| k < i ==> !pathless_not_at(t@, k),
        decreases n - i,
    {
        if n - i >= 3 && t[i] == '{' && t[i + 1] == '#' && t[i + 2] == '}' {
            assert(empty_comment_at(t@, i as int));
            return false;
        }
        if is_pathless_not(&t, i) {
            return false;
        }
        i += 1;
    }
    true
}

/// `TinyTemplate::add_template` followed by `TinyTemplate::render`, on a fresh
/// engine of the `tinytemplate` crate: compiles `template` under `name` and
/// renders it with a context that holds `value` under `variable`. An error of
/// either step comes back as its message. The result is what the name
/// `template_output` stands for. The engine stops the process on some
/// malformed texts, which `renderable` rules out.
#[verifier::external_body]
pub(crate) fn render_template(
    name: &str,
    template: &str,
    variable: &str,
    value: &str,
) -> (out: Result<String, String>)
    requires
        renderable(template@),
    ensures
        rendering_view(out) == template_output(name@, template@, variable@, value@),
{
    let mut engine = tinytemplate::TinyTemplate::new();
    let mut context = std::collections::BTreeMap::new();
    context.insert(variable, value);
    if let Err(error) = engine.add_template(name, template) {
        return Err(error.to_string());
    }
    match engine.render(name, &context) {
        Ok(text) => Ok(text),
        Err(error) => Err(error.to_string()),
    }
}

} // verus!
