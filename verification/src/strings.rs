//! Building text from pieces.

use crate::text::str_eq;
use vstd::prelude::*;
use vstd::string::StringExecFns;

verus! {

/// `String::push`: the character is added at the end of the string.
pub assume_specification[ String::push ](s: &mut String, c: char)
    ensures
        final(s)@ == old(s)@.push(c),
;

/// `piece`, `count` times over.
pub open spec fn repeated(piece: Seq<char>, count: nat) -> Seq<char>
    decreases count,
{
    if count == 0 {
        Seq::empty()
    } else {
        repeated(piece, (count - 1) as nat) + piece
    }
}

/// Writes `piece` `count` times over.
pub fn repeat(piece: &str, count: usize) -> (text: String)
    ensures
        text@ == repeated(piece@, count as nat),
{
    let mut text = String::new();
    let mut i: usize = 0;
    while i < count
        invariant
            0 <= i <= count,
            text@ == repeated(piece@, i as nat),
        decreases count - i,
    {
        text.append(piece);
        i += 1;
    }
    text
}

/// `names`, one after the other, with `separator` between each two.
pub open spec fn joined(names: Seq<String>, separator: Seq<char>) -> Seq<char>
    decreases names.len(),
{
    if names.len() == 0 {
        Seq::empty()
    } else if names.len() == 1 {
        names[0]@
    } else {
        joined(names.drop_last(), separator) + separator + names.last()@
    }
}

/// Writes `names` one after the other, with `separator` between each two.
pub fn join(names: &Vec<String>, separator: &str) -> (text: String)
    ensures
        text@ == joined(names@, separator@),
{
    let mut text = String::new();
    let mut i: usize = 0;
    while i < names.len()
        invariant
            0 <= i <= names@.len(),
            text@ == joined(names@.take(i as int), separator@),
        decreases names@.len() - i,
    {
        proof {
            assert(names@.take(i + 1).drop_last() =~= names@.take(i as int));
            assert(names@.take(i + 1).last() == names@[i as int]);
        }
        if i > 0 {
            text.append(separator);
        } else {
            assert(text@ + names@[0]@ =~= names@[0]@);
        }
        text.append(names[i].as_str());
        i += 1;
    }
    proof {
        assert(names@.take(i as int) =~= names@);
    }
    text
}

/// Those of `names` that are not `name`, in their order.
pub open spec fn without(names: Seq<String>, name: Seq<char>) -> Seq<String>
    decreases names.len(),
{
    if names.len() == 0 {
        Seq::empty()
    } else if names.last()@ == name {
        without(names.drop_last(), name)
    } else {
        without(names.drop_last(), name).push(names.last())
    }
}

/// Collects those of `names` that are not `name`, in their order.
pub fn others(names: &Vec<String>, name: &str) -> (rest: Vec<String>)
    ensures
        rest@ == without(names@, name@),
{
    let mut rest: Vec<String> = Vec::new();
    let mut i: usize = 0;
    while i < names.len()
        invariant
            0 <= i <= names@.len(),
            rest@ == without(names@.take(i as int), name@),
        decreases names@.len() - i,
    {
        proof {
            assert(names@.take(i + 1).drop_last() =~= names@.take(i as int));
            assert(names@.take(i + 1).last() == names@[i as int]);
        }
        if !str_eq(names[i].as_str(), name) {
            rest.push(names[i].clone());
        }
        i += 1;
    }
    proof {
        assert(names@.take(i as int) =~= names@);
    }
    rest
}

/// `text` with four spaces after each of its line breaks.
pub open spec fn indented_breaks(text: Seq<char>) -> Seq<char>
    decreases text.len(),
{
    if text.len() == 0 {
        Seq::empty()
    } else if text.last() == '\n' {
        indented_breaks(text.drop_last()) + "\n    "@
    } else {
        indented_breaks(text.drop_last()).push(text.last())
    }
}

/// `text` with four spaces before each of its lines.
pub open spec fn indented(text: Seq<char>) -> Seq<char> {
    "    "@ + indented_breaks(text)
}

/// Puts four spaces before each line of `text`.
pub fn indent(text: &str) -> (out: String)
    ensures
        out@ == indented(text@),
{
    let mut out = "    ".to_owned();
    for c in it: text.chars()
        invariant
            it.seq() == text@,
            out@ == "    "@ + indented_breaks(text@.take(it.index())),
    {
        proof {
            assert(text@.take(it.index() + 1).drop_last() =~= text@.take(it.index()));
            assert(text@.take(it.index() + 1).last() == c);
        }
        if c == '\n' {
            out.append("\n    ");
        } else {
            out.push(c);
        }
    }
    proof {
        assert(text@.take(text@.len() as int) =~= text@);
    }
    out
}

} // verus!
