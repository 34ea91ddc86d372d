//! Normalisation of short-link names.
//!
//! Two requests name the same short link when their first path segments differ
//! only in ASCII case, in hyphens, and in spaces, written out or escaped as
//! `%20`.

use vstd::prelude::*;
use crate::text::{ascii_lower, chars_between, chars_of, find_from, string_of, to_ascii_lower, trim_start, trimmed_start, until};

verus! {

/// `s` with every ASCII capital folded to its small letter.
pub open spec fn lowercase(s: Seq<char>) -> Seq<char> {
    s.map_values(|c: char| ascii_lower(c))
}

/// `s` without any occurrence of the character `c`.
pub open spec fn without(s: Seq<char>, c: char) -> Seq<char>
    decreases s.len(),
{
    if s.len() == 0 {
        s
    } else if s[0] == c {
        without(s.skip(1), c)
    } else {
        seq![s[0]] + without(s.skip(1), c)
    }
}

/// Whether `s` begins with the three characters `%20`.
pub open spec fn starts_with_escaped_space(s: Seq<char>) -> bool {
    s.len() >= 3 && s[0] == '%' && s[1] == '2' && s[2] == '0'
}

/// `s` without its occurrences of `%20`, found from left to right; what the
/// removal leaves behind is not searched again.
pub open spec fn without_escaped_spaces(s: Seq<char>) -> Seq<char>
    decreases s.len(),
{
    if s.len() == 0 {
        s
    } else if starts_with_escaped_space(s) {
        without_escaped_spaces(s.skip(3))
    } else {
        seq![s[0]] + without_escaped_spaces(s.skip(1))
    }
}

/// The normal form of a segment: case folded, then hyphens, then `%20`, then
/// spaces removed.
pub open spec fn normalized(s: Seq<char>) -> Seq<char> {
    without(without_escaped_spaces(without(lowercase(s), '-')), ' ')
}

/// The first segment of `s`: what stands between its leading slashes and the
/// next slash.
pub open spec fn first_segment(s: Seq<char>) -> Seq<char> {
    until(trim_start(s, '/'), '/')
}

/// Folds every ASCII capital of `v`.
fn fold_case(v: &Vec<char>) -> (out: Vec<char>)
    ensures
        out@ == lowercase(v@),
{
    let mut out: Vec<char> = Vec::new();
    let mut i: usize = 0;
    while i < v.len()
        invariant
            i <= v.len(),
            out@ == lowercase(v@.take(i as int)),
        decreases v.len() - i,
    {
        out.push(to_ascii_lower(v[i]));
        i += 1;
        assert(out@ =~= lowercase(v@.take(i as int)));
    }
    assert(v@.take(v.len() as int) == v@);
    out
}

/// Copies `v` without its occurrences of `c`.
fn drop_char(v: &Vec<char>, c: char) -> (out: Vec<char>)
    ensures
        out@ == without(v@, c),
{
    let mut out: Vec<char> = Vec::new();
    let mut i: usize = 0;
    assert(v@.skip(0) == v@);
    while i < v.len()
        invariant
            i <= v.len(),
            out@ + without(v@.skip(i as int), c) == without(v@, c),
        decreases v.len() - i,
    {
        let ghost before = out@;
        assert(v@.skip(i as int).skip(1) == v@.skip(i as int + 1));
        if v[i] != c {
            out.push(v[i]);
            assert(out@ + without(v@.skip(i as int + 1), c) =~= before + without(
                v@.skip(i as int),
                c,
            ));
        }
        i += 1;
    }
    assert(out@ + Seq::<char>::empty() =~= out@);
    out
}

/// Copies `v` without its occurrences of `%20`.
fn drop_escaped_spaces(v: &Vec<char>) -> (out: Vec<char>)
    ensures
        out@ == without_escaped_spaces(v@),
{
    let mut out: Vec<char> = Vec::new();
    let mut i: usize = 0;
    assert(v@.skip(0) == v@);
    while i < v.len()
        invariant
            i <= v.len(),
            out@ + without_escaped_spaces(v@.skip(i as int)) == without_escaped_spaces(v@),
        decreases v.len() - i,
    {
        let ghost before = out@;
        if v.len() - i >= 3 && v[i] == '%' && v[i + 1] == '2' && v[i + 2] == '0' {
            assert(v@.skip(i as int).skip(3) == v@.skip(i as int + 3));
            i += 3;
        } else {
            assert(v@.skip(i as int).skip(1) == v@.skip(i as int + 1));
            out.push(v[i]);
            assert(out@ + without_escaped_spaces(v@.skip(i as int + 1)) =~= before
                + without_escaped_spaces(v@.skip(i as int)));
            i += 1;
        }
    }
    assert(out@ + Seq::<char>::empty() =~= out@);
    out
}

/// The normal form of the characters `v`.
pub fn normalize_chars(v: &Vec<char>) -> (out: Vec<char>)
    ensures
        out@ == normalized(v@),
{
    let folded = fold_case(v);
    let joined = drop_char(&folded, '-');
    let unescaped = drop_escaped_spaces(&joined);
    drop_char(&unescaped, ' ')
}

/// Normalises one path segment.
pub fn normalize_segment(segment: &str) -> (out: String)
    ensures
        out@ == normalized(segment@),
{
    let chars = chars_of(segment);
    let normal = normalize_chars(&chars);
    string_of(&normal)
}

/// Normalises the first segment of `input`, as resolution does with the first
/// segment of a request path: the key under which to store a short link.
pub fn normalize_shortlink(input: &str) -> (out: String)
    ensures
        out@ == normalized(first_segment(input@)),
{
    let chars = chars_of(input);
    let start = trimmed_start(&chars, '/');
    let end = find_from(&chars, start, '/');
    let segment = chars_between(&chars, start, end);
    let normal = normalize_chars(&segment);
    string_of(&normal)
}

/// Whether every character of `s` meets `p`.
pub open spec fn all_chars(s: Seq<char>, p: spec_fn(char) -> bool) -> bool {
    forall|i: int| 0 <= i < s.len() ==> p(#[trigger] s[i])
}

/// Whether no space stands inside what would else be an escaped space: no
/// `%` is followed by a space, and no `%2` is.
pub open spec fn spaces_clear_of_escapes(s: Seq<char>) -> bool {
    forall|i: int|
        0 <= i < s.len() && #[trigger] s[i] == '%' ==> {
            &&& i + 1 < s.len() ==> s[i + 1] != ' '
            &&& i + 2 < s.len() ==> !(s[i + 1] == '2' && s[i + 2] == ' ')
        }
}

/// Removing a character leaves only characters that were there, and none of
/// the removed one.
pub proof fn lemma_without_keeps(s: Seq<char>, c: char, p: spec_fn(char) -> bool)
    requires
        all_chars(s, p),
    ensures
        all_chars(without(s, c), p),
        all_chars(without(s, c), |x: char| x != c),
    decreases s.len(),
{
    if s.len() > 0 {
        lemma_without_keeps(s.skip(1), c, p);
    }
}

/// Removing escaped spaces leaves only characters that were there.
pub proof fn lemma_without_escaped_spaces_keeps(s: Seq<char>, p: spec_fn(char) -> bool)
    requires
        all_chars(s, p),
    ensures
        all_chars(without_escaped_spaces(s), p),
    decreases s.len(),
{
    if s.len() == 0 {
    } else if starts_with_escaped_space(s) {
        lemma_without_escaped_spaces_keeps(s.skip(3), p);
    } else {
        lemma_without_escaped_spaces_keeps(s.skip(1), p);
    }
}

/// Removing a character a second time changes nothing.
pub proof fn lemma_without_twice(s: Seq<char>, c: char)
    ensures
        without(without(s, c), c) == without(s, c),
    decreases s.len(),
{
    if s.len() > 0 {
        lemma_without_twice(s.skip(1), c);
        if s[0] != c {
            assert((seq![s[0]] + without(s.skip(1), c)).skip(1) =~= without(s.skip(1), c));
        }
    }
}

/// Two characters can be removed in either order.
pub proof fn lemma_without_swap(s: Seq<char>, a: char, b: char)
    ensures
        without(without(s, a), b) == without(without(s, b), a),
    decreases s.len(),
{
    if s.len() > 0 {
        let rest = s.skip(1);
        lemma_without_swap(rest, a, b);
        if s[0] != a {
            assert((seq![s[0]] + without(rest, a)).skip(1) =~= without(rest, a));
        }
        if s[0] != b {
            assert((seq![s[0]] + without(rest, b)).skip(1) =~= without(rest, b));
        }
    }
}

/// Case folding and the removal of a character that is no letter can be done
/// in either order.
pub proof fn lemma_lowercase_without(s: Seq<char>, c: char)
    requires
        forall|x: char| (ascii_lower(x) == c) == (x == c),
    ensures
        without(lowercase(s), c) == lowercase(without(s, c)),
    decreases s.len(),
{
    if s.len() > 0 {
        let rest = s.skip(1);
        lemma_lowercase_without(rest, c);
        assert(lowercase(s).skip(1) =~= lowercase(rest));
        if s[0] != c {
            assert(lowercase(seq![s[0]] + without(rest, c)) =~= seq![ascii_lower(s[0])]
                + lowercase(without(rest, c)));
        }
    } else {
        assert(lowercase(s) =~= s);
    }
}

/// Where no space stands inside what would else be an escaped space, spaces
/// and escaped spaces can be removed in either order.
pub proof fn lemma_spaces_and_escapes(s: Seq<char>)
    requires
        spaces_clear_of_escapes(s),
    ensures
        without_escaped_spaces(without(s, ' ')) == without(without_escaped_spaces(s), ' '),
    decreases s.len(),
{
    if s.len() == 0 {
    } else if starts_with_escaped_space(s) {
        let rest = s.skip(3);
        assert(s.skip(1).skip(1) == s.skip(2));
        assert(s.skip(2).skip(1) == rest);
        assert forall|i: int| 0 <= i < rest.len() && #[trigger] rest[i] == '%' implies {
            &&& i + 1 < rest.len() ==> rest[i + 1] != ' '
            &&& i + 2 < rest.len() ==> !(rest[i + 1] == '2' && rest[i + 2] == ' ')
        } by {
            assert(s[i + 3] == '%');
        }
        lemma_spaces_and_escapes(rest);
        let kept = without(rest, ' ');
        assert(without(s.skip(2), ' ') =~= seq!['0'] + kept);
        assert(without(s.skip(1), ' ') =~= seq!['2', '0'] + kept);
        assert(without(s, ' ') =~= seq!['%', '2', '0'] + kept);
        assert(without(s, ' ').skip(3) =~= kept);
    } else {
        let rest = s.skip(1);
        assert forall|i: int| 0 <= i < rest.len() && #[trigger] rest[i] == '%' implies {
            &&& i + 1 < rest.len() ==> rest[i + 1] != ' '
            &&& i + 2 < rest.len() ==> !(rest[i + 1] == '2' && rest[i + 2] == ' ')
        } by {
            assert(s[i + 1] == '%');
        }
        lemma_spaces_and_escapes(rest);
        let kept = without(rest, ' ');
        if s[0] == ' ' {
            assert((seq![s[0]] + without_escaped_spaces(rest)).skip(1) =~= without_escaped_spaces(
                rest,
            ));
        } else {
            let whole = seq![s[0]] + kept;
            assert(whole.skip(1) =~= kept);
            assert((seq![s[0]] + without_escaped_spaces(rest)).skip(1) =~= without_escaped_spaces(
                rest,
            ));
            if s[0] == '%' {
                assert(s[0] == '%');
                if rest.len() > 0 {
                    assert(rest[0] == s[1]);
                    let after = rest.skip(1);
                    if rest[0] == '2' && after.len() > 0 {
                        assert(after[0] == s[2]);
                        assert(without(rest, ' ') =~= seq!['2'] + without(after, ' '));
                        assert(without(after, ' ') =~= seq![after[0]] + without(
                            after.skip(1),
                            ' ',
                        ));
                        assert(kept[1] == after[0]);
                    } else if rest[0] == '2' {
                        assert(without(after, ' ') =~= Seq::<char>::empty());
                        assert(kept.len() == 1);
                    } else {
                        assert(kept[0] == rest[0]);
                    }
                }
                assert(!starts_with_escaped_space(whole));
            }
        }
    }
}

/// The normal form holds no ASCII capital, no hyphen and no space.
pub proof fn law_normal_form(s: Seq<char>)
    ensures
        all_chars(normalized(s), |c: char| !('A' <= c && c <= 'Z') && c != '-' && c != ' '),
{
    let small = |c: char| !('A' <= c && c <= 'Z');
    let joined = |c: char| !('A' <= c && c <= 'Z') && c != '-';
    let folded = lowercase(s);
    assert(all_chars(folded, small));
    lemma_without_keeps(folded, '-', small);
    let a = without(folded, '-');
    assert(all_chars(a, joined));
    lemma_without_escaped_spaces_keeps(a, joined);
    lemma_without_keeps(without_escaped_spaces(a), ' ', joined);
}

/// Normalisation ignores ASCII case: two segments that differ only in the case
/// of their letters have the same normal form.
pub proof fn law_case_insensitive(s: Seq<char>, t: Seq<char>)
    requires
        lowercase(s) == lowercase(t),
    ensures
        normalized(s) == normalized(t),
{
}

/// Normalisation ignores hyphens: two segments that differ only in where they
/// have hyphens have the same normal form.
pub proof fn law_hyphen_insensitive(s: Seq<char>, t: Seq<char>)
    requires
        without(s, '-') == without(t, '-'),
    ensures
        normalized(s) == normalized(t),
{
    lemma_lowercase_without(s, '-');
    lemma_lowercase_without(t, '-');
}

/// Normalisation ignores spaces: two segments that differ only in where they
/// have spaces have the same normal form, as long as no space of either
/// stands inside what would else be an escaped space.
pub proof fn law_space_insensitive(s: Seq<char>, t: Seq<char>)
    requires
        without(s, ' ') == without(t, ' '),
        spaces_clear_of_escapes(without(lowercase(s), '-')),
        spaces_clear_of_escapes(without(lowercase(t), '-')),
    ensures
        normalized(s) == normalized(t),
{
    lemma_spaces_packed(s);
    lemma_spaces_packed(t);
}

/// A segment and the same segment without its spaces have the same normal
/// form, under the condition of `law_space_insensitive`.
pub proof fn lemma_spaces_packed(s: Seq<char>)
    requires
        spaces_clear_of_escapes(without(lowercase(s), '-')),
    ensures
        normalized(without(s, ' ')) == normalized(s),
{
    let a = without(lowercase(s), '-');
    lemma_lowercase_without(s, ' ');
    lemma_without_swap(lowercase(s), '-', ' ');
    lemma_spaces_and_escapes(a);
    lemma_without_twice(without_escaped_spaces(a), ' ');
}

/// A text without separator, followed by a separator, is the part before the
/// first separator of the whole.
pub proof fn lemma_until_prefix(segment: Seq<char>, rest: Seq<char>, sep: char)
    requires
        all_chars(segment, |c: char| c != sep),
    ensures
        until(segment + seq![sep] + rest, sep) == segment,
        until(segment, sep) == segment,
    decreases segment.len(),
{
    let whole = segment + seq![sep] + rest;
    if segment.len() == 0 {
        assert(whole[0] == sep);
        assert(segment =~= Seq::<char>::empty());
    } else {
        let shorter = segment.skip(1);
        assert(whole[0] == segment[0]);
        assert(whole.skip(1) =~= shorter + seq![sep] + rest);
        assert forall|i: int| 0 <= i < shorter.len() implies #[trigger] shorter[i] != sep by {
            assert(shorter[i] == segment[i + 1]);
        }
        lemma_until_prefix(shorter, rest, sep);
        assert(seq![segment[0]] + shorter =~= segment);
    }
}

/// Only the first segment counts: what follows the first slash after it does
/// not change the normal form, and neither does one slash in front.
pub proof fn law_first_segment_only(segment: Seq<char>, rest: Seq<char>)
    requires
        segment.len() > 0,
        all_chars(segment, |c: char| c != '/'),
    ensures
        normalized(first_segment(segment + seq!['/'] + rest)) == normalized(segment),
        normalized(first_segment(seq!['/'] + segment + seq!['/'] + rest)) == normalized(segment),
        normalized(first_segment(segment)) == normalized(segment),
{
    lemma_until_prefix(segment, rest, '/');
    let whole = segment + seq!['/'] + rest;
    assert(whole[0] == segment[0]);
    assert(trim_start(whole, '/') == whole);
    assert(trim_start(segment, '/') == segment);
    let slashed = seq!['/'] + segment + seq!['/'] + rest;
    assert(slashed.skip(1) =~= whole);
    assert(trim_start(slashed, '/') == trim_start(whole, '/'));
}

} // verus!
