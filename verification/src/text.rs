//! The text of a piece of a document.

use crate::element::Element;
use vstd::prelude::*;
use vstd::string::{StrSliceExecFns, StringExecFns};

verus! {

/// The text of `elems`: the text of each element, one after the other.
pub open spec fn plain_text(elems: Seq<Element>) -> Seq<char>
    decreases elems, 1int,
{
    if elems.len() == 0 {
        Seq::empty()
    } else {
        plain_text(elems.drop_last()) + element_text(elems.last())
    }
}

/// The text of one element: what a `Text` holds, the text of what a
/// `Formatted`, a `Paragraph` or a `TemplateArgument` holds, and nothing for
/// any other element.
pub open spec fn element_text(e: Element) -> Seq<char>
    decreases e,
{
    match e {
        Element::Text(t) => t.text@,
        Element::Formatted(f) => plain_text(f.content@),
        Element::Paragraph(p) => plain_text(p.content@),
        Element::TemplateArgument(a) => plain_text(a.value@),
        _ => Seq::empty(),
    }
}

/// Collects the text of `content`.
pub fn extract_plain_text(content: &[Element]) -> (text: String)
    ensures
        text@ == plain_text(content@),
    decreases content@,
{
    let mut result = String::new();
    let mut i: usize = 0;
    while i < content.len()
        invariant
            0 <= i <= content@.len(),
            result@ == plain_text(content@.take(i as int)),
        decreases content@.len() - i,
    {
        proof {
            assert(content@.take(i + 1).drop_last() =~= content@.take(i as int));
            assert(content@.take(i + 1).last() == content@[i as int]);
            assert(plain_text(content@.take(i + 1)) == plain_text(content@.take(i as int))
                + element_text(content@[i as int]));
        }
        let ghost before = result@;
        match &content[i] {
            Element::Text(t) => {
                result.append(t.text.as_str());
            },
            Element::Formatted(f) => {
                let inner = extract_plain_text(f.content.as_slice());
                result.append(inner.as_str());
            },
            Element::Paragraph(p) => {
                let inner = extract_plain_text(p.content.as_slice());
                result.append(inner.as_str());
            },
            Element::TemplateArgument(a) => {
                let inner = extract_plain_text(a.value.as_slice());
                result.append(inner.as_str());
            },
            _ => {
                assert(result@ + Seq::<char>::empty() =~= result@);
            },
        }
        assert(result@ == before + element_text(content@[i as int]));
        i += 1;
    }
    proof {
        assert(content@.take(i as int) =~= content@);
    }
    result
}

/// Whether `c` is white space: whether it has the Unicode property
/// White_Space. These are the characters from U+0009 to U+000D, U+0020,
/// U+0085, U+00A0, U+1680, those from U+2000 to U+200A, U+2028, U+2029,
/// U+202F, U+205F and U+3000.
pub open spec fn is_white_space(c: char) -> bool {
    let code = c as u32;
    ||| 0x09 <= code <= 0x0D
    ||| code == 0x20
    ||| code == 0x85
    ||| code == 0xA0
    ||| code == 0x1680
    ||| 0x2000 <= code <= 0x200A
    ||| code == 0x2028
    ||| code == 0x2029
    ||| code == 0x202F
    ||| code == 0x205F
    ||| code == 0x3000
}

/// `char::is_whitespace`: whether `c` has the Unicode property
/// White_Space, which is what [`is_white_space`] spells out.
#[verifier::external_body]
fn is_whitespace(c: char) -> (white: bool)
    ensures
        white == is_white_space(c),
{
    c.is_whitespace()
}

/// `s` without the white space at its start and at its end.
pub open spec fn trimmed(s: Seq<char>) -> Seq<char>
    decreases s.len(),
{
    if s.len() > 0 && is_white_space(s.first()) {
        trimmed(s.drop_first())
    } else if s.len() > 0 && is_white_space(s.last()) {
        trimmed(s.drop_last())
    } else {
        s
    }
}

/// Nothing is left of a text that is all white space.
pub proof fn lemma_trimmed_white(s: Seq<char>)
    requires
        forall|j: int| 0 <= j < s.len() ==> is_white_space(#[trigger] s[j]),
    ensures
        trimmed(s) == Seq::<char>::empty(),
    decreases s.len(),
{
    if s.len() > 0 {
        assert(is_white_space(s[0]));
        assert forall|j: int| 0 <= j < s.drop_first().len() implies is_white_space(
            #[trigger] s.drop_first()[j],
        ) by {
            assert(s.drop_first()[j] == s[j + 1]);
        }
        lemma_trimmed_white(s.drop_first());
    }
}

/// What is left of a text reaches from its first character that is no
/// white space to its last.
pub proof fn lemma_trimmed_range(s: Seq<char>, from: int, to: int)
    requires
        0 <= from < to <= s.len(),
        forall|j: int| 0 <= j < from ==> is_white_space(#[trigger] s[j]),
        forall|j: int| to <= j < s.len() ==> is_white_space(#[trigger] s[j]),
        !is_white_space(s[from]),
        !is_white_space(s[to - 1]),
    ensures
        trimmed(s) == s.subrange(from, to),
    decreases s.len(),
{
    if from > 0 {
        assert(is_white_space(s[0]));
        let rest = s.drop_first();
        assert forall|j: int| 0 <= j < from - 1 implies is_white_space(#[trigger] rest[j]) by {
            assert(rest[j] == s[j + 1]);
        }
        assert forall|j: int| to - 1 <= j < rest.len() implies is_white_space(
            #[trigger] rest[j],
        ) by {
            assert(rest[j] == s[j + 1]);
        }
        assert(rest[from - 1] == s[from]);
        assert(rest[to - 2] == s[to - 1]);
        lemma_trimmed_range(rest, from - 1, to - 1);
        assert(rest.subrange(from - 1, to - 1) =~= s.subrange(from, to));
    } else if to < s.len() {
        assert(is_white_space(s[s.len() - 1]));
        let rest = s.drop_last();
        assert forall|j: int| to <= j < rest.len() implies is_white_space(#[trigger] rest[j]) by {
            assert(rest[j] == s[j]);
        }
        assert(rest[from] == s[from]);
        assert(rest[to - 1] == s[to - 1]);
        lemma_trimmed_range(rest, from, to);
        assert(rest.subrange(from, to) =~= s.subrange(from, to));
    } else {
        assert(s.subrange(0, s.len() as int) =~= s);
    }
}

/// For each character of `s`, whether it is white space.
pub open spec fn whiteness(s: Seq<char>) -> Seq<bool> {
    Seq::new(s.len(), |j: int| is_white_space(s[j]))
}

/// Tells of each character of `s` whether it is white space.
fn white_flags(s: &str) -> (white: Vec<bool>)
    ensures
        white@ == whiteness(s@),
{
    let mut white: Vec<bool> = Vec::new();
    for c in it: s.chars()
        invariant
            it.seq() == s@,
            white@.len() == it.index(),
            forall|j: int| 0 <= j < white@.len() ==> white@[j] == is_white_space(s@[j]),
    {
        white.push(is_whitespace(c));
    }
    proof {
        assert(white@ =~= whiteness(s@));
    }
    white
}

/// `from` and `to` bound what is not white at either end: `from` is the
/// first place that is not white and `to` the place behind the last; both
/// are 0 where every place is white.
pub open spec fn bounds_content(white: Seq<bool>, from: int, to: int) -> bool {
    if forall|j: int| 0 <= j < white.len() ==> #[trigger] white[j] {
        from == 0 && to == 0
    } else {
        &&& 0 <= from < to <= white.len()
        &&& !white[from]
        &&& !white[to - 1]
        &&& forall|j: int| 0 <= j < from ==> #[trigger] white[j]
        &&& forall|j: int| to <= j < white.len() ==> #[trigger] white[j]
    }
}

/// Finds the bounds of what is not white at either end of `white`.
pub fn content_bounds(white: &[bool]) -> (bounds: (usize, usize))
    ensures
        bounds_content(white@, bounds.0 as int, bounds.1 as int),
{
    let mut from: usize = 0;
    let mut to: usize = 0;
    let mut i: usize = 0;
    while i < white.len()
        invariant
            0 <= i <= white@.len(),
            to == 0 ==> from == 0,
            to == 0 ==> forall|j: int| 0 <= j < i ==> #[trigger] white@[j],
            to > 0 ==> {
                &&& from < to <= i
                &&& !white@[from as int]
                &&& !white@[to - 1]
                &&& forall|j: int| 0 <= j < from ==> #[trigger] white@[j]
                &&& forall|j: int| to <= j < i ==> #[trigger] white@[j]
            },
        decreases white@.len() - i,
    {
        if !white[i] {
            if to == 0 {
                from = i;
            }
            to = i + 1;
        }
        i += 1;
    }
    (from, to)
}

/// What is left of a text lies between the bounds of what is not white.
pub proof fn lemma_trimmed_bounds(s: Seq<char>, from: int, to: int)
    requires
        bounds_content(whiteness(s), from, to),
    ensures
        0 <= from <= to <= s.len(),
        trimmed(s) == s.subrange(from, to),
{
    let white = whiteness(s);
    if forall|j: int| 0 <= j < white.len() ==> #[trigger] white[j] {
        assert forall|j: int| 0 <= j < s.len() implies is_white_space(#[trigger] s[j]) by {
            assert(white[j]);
        }
        lemma_trimmed_white(s);
        assert(s.subrange(0, 0) =~= Seq::<char>::empty());
    } else {
        assert forall|j: int| 0 <= j < from implies is_white_space(#[trigger] s[j]) by {
            assert(white[j]);
        }
        assert forall|j: int| to <= j < s.len() implies is_white_space(#[trigger] s[j]) by {
            assert(white[j]);
        }
        lemma_trimmed_range(s, from, to);
    }
}

/// Cuts the white space off the start and the end of `s`.
pub fn trim(s: &str) -> (t: &str)
    ensures
        t@ == trimmed(s@),
{
    let white = white_flags(s);
    let (from, to) = content_bounds(white.as_slice());
    proof {
        lemma_trimmed_bounds(s@, from as int, to as int);
    }
    s.substring_char(from, to)
}

/// Equality of `str`: two strings are equal when they hold the same
/// characters.
#[verifier::external_body]
pub(crate) fn str_eq(a: &str, b: &str) -> (same: bool)
    ensures
        same == (a@ == b@),
{
    a == b
}

} // verus!
