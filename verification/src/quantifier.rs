//! Lifting a check of one list of siblings to a whole tree.

use crate::element::Element;
use crate::first::{first_some, lemma_first_some_none};
use crate::outcome::{outcome, Blame, PredResult};
use vstd::prelude::*;

verus! {

/// The lists of siblings of the tree rooted at `elems`, in the order in which
/// they are visited: `elems` itself, then the lists below each of its
/// elements, element by element.
pub open spec fn sibling_lists(elems: Seq<Element>) -> Seq<Seq<Element>>
    decreases elems, 1int,
{
    seq![elems] + lists_below_all(elems)
}

/// The lists of siblings below the elements of `elems`, element by element.
pub open spec fn lists_below_all(elems: Seq<Element>) -> Seq<Seq<Element>>
    decreases elems, 0int,
{
    if elems.len() == 0 {
        seq![]
    } else {
        lists_below_all(elems.drop_last()) + lists_below(elems.last())
    }
}

/// The lists of siblings in each of `lists`, list by list.
pub open spec fn lists_in_each(lists: Seq<Vec<Element>>) -> Seq<Seq<Element>>
    decreases lists,
{
    if lists.len() == 0 {
        seq![]
    } else {
        lists_in_each(lists.drop_last()) + sibling_lists(lists.last()@)
    }
}

/// The lists of siblings strictly below `e`.
pub open spec fn lists_below(e: Element) -> Seq<Seq<Element>>
    decreases e,
{
    match e {
        Element::Document(d) => sibling_lists(d.content@),
        Element::Heading(h) => sibling_lists(h.caption@) + sibling_lists(h.content@),
        Element::Text(_) => seq![],
        Element::Formatted(f) => sibling_lists(f.content@),
        Element::Paragraph(p) => sibling_lists(p.content@),
        Element::Template(t) => sibling_lists(t.name@) + sibling_lists(t.content@),
        Element::TemplateArgument(a) => sibling_lists(a.value@),
        Element::InternalReference(r) => sibling_lists(r.target@) + lists_in_each(r.options@)
            + sibling_lists(r.caption@),
        Element::ExternalReference(r) => sibling_lists(r.caption@),
        Element::ListItem(i) => sibling_lists(i.content@),
        Element::List(l) => sibling_lists(l.content@),
        Element::Table(t) => sibling_lists(t.caption@) + sibling_lists(t.rows@),
        Element::TableRow(r) => sibling_lists(r.cells@),
        Element::TableCell(c) => sibling_lists(c.content@),
        Element::Comment(_) => seq![],
        Element::HtmlTag(t) => sibling_lists(t.content@),
        Element::Gallery(g) => sibling_lists(g.content@),
        Element::Error(_) => seq![],
    }
}

/// Each of `part` is one of `whole`.
pub open spec fn within(part: Seq<Seq<Element>>, whole: Seq<Seq<Element>>) -> bool {
    forall|m: int| 0 <= m < part.len() ==> whole.contains(#[trigger] part[m])
}

/// With each of its lists, `lists` holds every list of siblings below an
/// element of that list.
pub open spec fn closed_below(lists: Seq<Seq<Element>>) -> bool {
    forall|k: int, i: int|
        0 <= k < lists.len() && 0 <= i < lists[k].len() ==> within(
            lists_below(#[trigger] lists[k][i]),
            lists,
        )
}

/// What is within `a` or within `b` is within `a + b`.
proof fn lemma_within_concat(part: Seq<Seq<Element>>, a: Seq<Seq<Element>>, b: Seq<Seq<Element>>)
    ensures
        within(part, a) ==> within(part, a + b),
        within(part, b) ==> within(part, a + b),
{
    if within(part, a) {
        assert forall|m: int| 0 <= m < part.len() implies (a + b).contains(#[trigger] part[m]) by {
            let j = choose|j: int| 0 <= j < a.len() && a[j] == part[m];
            assert((a + b)[j] == part[m]);
        }
    }
    if within(part, b) {
        assert forall|m: int| 0 <= m < part.len() implies (a + b).contains(#[trigger] part[m]) by {
            let j = choose|j: int| 0 <= j < b.len() && b[j] == part[m];
            assert((a + b)[a.len() + j] == part[m]);
        }
    }
}

/// Two sequences of lists that are closed make a closed one.
proof fn lemma_closed_concat(a: Seq<Seq<Element>>, b: Seq<Seq<Element>>)
    requires
        closed_below(a),
        closed_below(b),
    ensures
        closed_below(a + b),
{
    assert forall|k: int, i: int| 0 <= k < (a + b).len() && 0 <= i < (a + b)[k].len() implies within(
        lists_below(#[trigger] (a + b)[k][i]),
        a + b,
    ) by {
        if k < a.len() {
            assert((a + b)[k] == a[k]);
            assert(within(lists_below(a[k][i]), a));
            lemma_within_concat(lists_below(a[k][i]), a, b);
        } else {
            assert((a + b)[k] == b[k - a.len()]);
            assert(within(lists_below(b[k - a.len()][i]), b));
            lemma_within_concat(lists_below(b[k - a.len()][i]), a, b);
        }
    }
}

/// The lists below one of `elems` are among the lists below all of them.
proof fn lemma_below_one_within_all(elems: Seq<Element>, i: int)
    requires
        0 <= i < elems.len(),
    ensures
        within(lists_below(elems[i]), lists_below_all(elems)),
    decreases elems.len(),
{
    let front = lists_below_all(elems.drop_last());
    let back = lists_below(elems.last());
    if i == elems.len() - 1 {
        assert forall|m: int| 0 <= m < back.len() implies back.contains(#[trigger] back[m]) by {}
        lemma_within_concat(back, front, back);
    } else {
        lemma_below_one_within_all(elems.drop_last(), i);
        assert(elems.drop_last()[i] == elems[i]);
        lemma_within_concat(lists_below(elems[i]), front, back);
    }
}

/// The lists of siblings of a tree are closed: with a list they hold every
/// list of siblings below an element of that list.
pub proof fn lemma_sibling_lists_closed(elems: Seq<Element>)
    ensures
        closed_below(sibling_lists(elems)),
        sibling_lists(elems).len() > 0,
        sibling_lists(elems)[0] == elems,
    decreases elems, 2int,
{
    let rest = lists_below_all(elems);
    let all = sibling_lists(elems);
    lemma_below_all_closed(elems);
    assert forall|k: int, i: int| 0 <= k < all.len() && 0 <= i < all[k].len() implies within(
        lists_below(#[trigger] all[k][i]),
        all,
    ) by {
        if k == 0 {
            lemma_below_one_within_all(elems, i);
            lemma_within_concat(lists_below(elems[i]), seq![elems], rest);
        } else {
            assert(all[k] == rest[k - 1]);
            assert(within(lists_below(rest[k - 1][i]), rest));
            lemma_within_concat(lists_below(rest[k - 1][i]), seq![elems], rest);
        }
    }
}

/// The lists below the elements of a list are closed.
proof fn lemma_below_all_closed(elems: Seq<Element>)
    ensures
        closed_below(lists_below_all(elems)),
    decreases elems, 1int,
{
    if elems.len() > 0 {
        lemma_below_all_closed(elems.drop_last());
        lemma_below_closed(elems.last());
        lemma_closed_concat(lists_below_all(elems.drop_last()), lists_below(elems.last()));
    }
}

/// The lists in each of some lists are closed.
proof fn lemma_in_each_closed(lists: Seq<Vec<Element>>)
    ensures
        closed_below(lists_in_each(lists)),
    decreases lists, 1int,
{
    if lists.len() > 0 {
        lemma_in_each_closed(lists.drop_last());
        lemma_sibling_lists_closed(lists.last()@);
        lemma_closed_concat(lists_in_each(lists.drop_last()), sibling_lists(lists.last()@));
    }
}

/// The lists below an element are closed.
proof fn lemma_below_closed(e: Element)
    ensures
        closed_below(lists_below(e)),
    decreases e, 0int,
{
    match e {
        Element::Document(d) => lemma_sibling_lists_closed(d.content@),
        Element::Heading(h) => {
            lemma_sibling_lists_closed(h.caption@);
            lemma_sibling_lists_closed(h.content@);
            lemma_closed_concat(sibling_lists(h.caption@), sibling_lists(h.content@));
        },
        Element::Text(_) => {},
        Element::Formatted(f) => lemma_sibling_lists_closed(f.content@),
        Element::Paragraph(p) => lemma_sibling_lists_closed(p.content@),
        Element::Template(t) => {
            lemma_sibling_lists_closed(t.name@);
            lemma_sibling_lists_closed(t.content@);
            lemma_closed_concat(sibling_lists(t.name@), sibling_lists(t.content@));
        },
        Element::TemplateArgument(a) => lemma_sibling_lists_closed(a.value@),
        Element::InternalReference(r) => {
            lemma_sibling_lists_closed(r.target@);
            lemma_in_each_closed(r.options@);
            lemma_sibling_lists_closed(r.caption@);
            lemma_closed_concat(sibling_lists(r.target@), lists_in_each(r.options@));
            lemma_closed_concat(
                sibling_lists(r.target@) + lists_in_each(r.options@),
                sibling_lists(r.caption@),
            );
        },
        Element::ExternalReference(r) => lemma_sibling_lists_closed(r.caption@),
        Element::ListItem(i) => lemma_sibling_lists_closed(i.content@),
        Element::List(l) => lemma_sibling_lists_closed(l.content@),
        Element::Table(t) => {
            lemma_sibling_lists_closed(t.caption@);
            lemma_sibling_lists_closed(t.rows@);
            lemma_closed_concat(sibling_lists(t.caption@), sibling_lists(t.rows@));
        },
        Element::TableRow(r) => lemma_sibling_lists_closed(r.cells@),
        Element::TableCell(c) => lemma_sibling_lists_closed(c.content@),
        Element::Comment(_) => {},
        Element::HtmlTag(t) => lemma_sibling_lists_closed(t.content@),
        Element::Gallery(g) => lemma_sibling_lists_closed(g.content@),
        Element::Error(_) => {},
    }
}

/// `shallow` may answer `r` when it is asked about a list whose elements are `list`.
pub open spec fn may_answer<'e, F: Fn(&'e [Element]) -> PredResult<'e>>(
    shallow: &F,
    list: Seq<Element>,
    r: PredResult<'e>,
) -> bool {
    exists|s: &'e [Element]| s@ == list && call_ensures(*shallow, (s,), r)
}

/// `shallow` may accept a list whose elements are `list`.
pub open spec fn may_accept<'e, F: Fn(&'e [Element]) -> PredResult<'e>>(
    shallow: &F,
    list: Seq<Element>,
) -> bool {
    exists|s: &'e [Element], r: PredResult<'e>|
        s@ == list && r is Ok && call_ensures(*shallow, (s,), r)
}

/// `shallow` may accept each of `lists`.
pub open spec fn all_pass<'e, F: Fn(&'e [Element]) -> PredResult<'e>>(
    shallow: &F,
    lists: Seq<Seq<Element>>,
) -> bool {
    forall|k: int| 0 <= k < lists.len() ==> may_accept(shallow, #[trigger] lists[k])
}

/// `r` is a failure that `shallow` may report for one of `lists`, and
/// `shallow` may accept each list before that one.
pub open spec fn first_failure<'e, F: Fn(&'e [Element]) -> PredResult<'e>>(
    shallow: &F,
    lists: Seq<Seq<Element>>,
    r: PredResult<'e>,
) -> bool {
    r is Err && exists|k: int|
        0 <= k < lists.len() && may_answer(shallow, #[trigger] lists[k], r) && all_pass(
            shallow,
            lists.take(k),
        )
}

/// `r` is what comes of asking `shallow` about `lists` one after the other
/// until it reports a failure.
pub open spec fn visited<'e, F: Fn(&'e [Element]) -> PredResult<'e>>(
    shallow: &F,
    lists: Seq<Seq<Element>>,
    r: PredResult<'e>,
) -> bool {
    if r is Ok {
        all_pass(shallow, lists)
    } else {
        first_failure(shallow, lists, r)
    }
}

/// Visiting `a` and then, if nothing failed, `b` is visiting `a + b`.
pub proof fn lemma_visited_concat<'e, F: Fn(&'e [Element]) -> PredResult<'e>>(
    shallow: &F,
    a: Seq<Seq<Element>>,
    b: Seq<Seq<Element>>,
    ra: PredResult<'e>,
    rb: PredResult<'e>,
)
    requires
        visited(shallow, a, ra),
        ra is Ok ==> visited(shallow, b, rb),
    ensures
        visited(shallow, a + b, if ra is Ok { rb } else { ra }),
{
    if ra is Err {
        let k = choose|k: int|
            0 <= k < a.len() && may_answer(shallow, #[trigger] a[k], ra) && all_pass(
                shallow,
                a.take(k),
            );
        assert((a + b)[k] == a[k]);
        assert((a + b).take(k) =~= a.take(k));
    } else {
        assert forall|k: int| 0 <= k < a.len() + b.len() && (rb is Ok || k < a.len()) implies may_accept(
            shallow,
            #[trigger] (a + b)[k],
        ) by {
            if k < a.len() {
                assert((a + b)[k] == a[k]);
            } else {
                assert((a + b)[k] == b[k - a.len()]);
            }
        }
        if rb is Err {
            let k = choose|k: int|
                0 <= k < b.len() && may_answer(shallow, #[trigger] b[k], rb) && all_pass(
                    shallow,
                    b.take(k),
                );
            let n = a.len() + k;
            assert((a + b)[n] == b[k]);
            assert forall|j: int| 0 <= j < n implies may_accept(
                shallow,
                #[trigger] (a + b).take(n)[j],
            ) by {
                if j < a.len() {
                    assert((a + b).take(n)[j] == a[j]);
                } else {
                    assert((a + b).take(n)[j] == b.take(k)[j - a.len()]);
                }
            }
        }
    }
}

/// Whatever `shallow` answers about a list, it says what `verdict` says of
/// that list.
pub open spec fn answers_as<'e, F: Fn(&'e [Element]) -> PredResult<'e>>(
    shallow: &F,
    verdict: spec_fn(Seq<Element>) -> Option<Blame>,
) -> bool {
    forall|s: &'e [Element], r: PredResult<'e>|
        call_ensures(*shallow, (s,), r) ==> outcome(r) == verdict(s@)
}

/// Where `shallow` answers as `verdict` says, visiting `lists` ends with the
/// first blame that `verdict` gives, or succeeds where it gives none.
pub proof fn lemma_visited_outcome<'e, F: Fn(&'e [Element]) -> PredResult<'e>>(
    shallow: &F,
    lists: Seq<Seq<Element>>,
    r: PredResult<'e>,
    verdict: spec_fn(Seq<Element>) -> Option<Blame>,
)
    requires
        visited(shallow, lists, r),
        answers_as(shallow, verdict),
    ensures
        outcome(r) == first_some(lists, verdict),
    decreases lists.len(),
{
    if lists.len() > 0 {
        let rest = lists.drop_first();
        if r is Ok {
            assert(may_accept(shallow, lists[0]));
            assert forall|k: int| 0 <= k < rest.len() implies may_accept(
                shallow,
                #[trigger] rest[k],
            ) by {
                assert(rest[k] == lists[k + 1]);
            }
            lemma_visited_outcome(shallow, rest, r, verdict);
        } else {
            let k = choose|k: int|
                0 <= k < lists.len() && may_answer(shallow, #[trigger] lists[k], r) && all_pass(
                    shallow,
                    lists.take(k),
                );
            if k > 0 {
                assert(lists.take(k)[0] == lists[0]);
                assert(may_accept(shallow, lists[0]));
                assert(rest[k - 1] == lists[k]);
                assert(rest.take(k - 1) =~= lists.take(k).drop_first());
                assert forall|j: int| 0 <= j < k - 1 implies may_accept(
                    shallow,
                    #[trigger] rest.take(k - 1)[j],
                ) by {
                    assert(rest.take(k - 1)[j] == lists.take(k)[j + 1]);
                }
                lemma_visited_outcome(shallow, rest, r, verdict);
            }
        }
    }
}

/// Where `shallow` answers as `verdict` says, a visit of the tree rooted at
/// `elems` succeeds exactly when `verdict` blames neither `elems` nor any
/// list of siblings below it.
pub proof fn lemma_always_succeeds_iff<'e, F: Fn(&'e [Element]) -> PredResult<'e>>(
    shallow: &F,
    elems: Seq<Element>,
    r: PredResult<'e>,
    verdict: spec_fn(Seq<Element>) -> Option<Blame>,
)
    requires
        visited(shallow, sibling_lists(elems), r),
        answers_as(shallow, verdict),
    ensures
        r is Ok <==> forall|k: int|
            0 <= k < sibling_lists(elems).len() ==> verdict(#[trigger] sibling_lists(elems)[k])
                is None,
        sibling_lists(elems).len() > 0,
        sibling_lists(elems)[0] == elems,
{
    lemma_visited_outcome(shallow, sibling_lists(elems), r, verdict);
    lemma_first_some_none(sibling_lists(elems), verdict);
}

/// The check of one list that blames the first element of the list that
/// `judge` blames, with the blame that `judge` gives.
pub open spec fn each_judged(judge: spec_fn(Element) -> Option<Blame>) -> spec_fn(
    Seq<Element>,
) -> Option<Blame> {
    |list: Seq<Element>| first_some(list, judge)
}

/// The first blame that `judge` gives to an element of the tree rooted at
/// `elems`, where the lists of siblings come in the order of
/// [`sibling_lists`] and the elements of a list in their own order.
pub open spec fn everywhere(elems: Seq<Element>, judge: spec_fn(Element) -> Option<Blame>) -> Option<
    Blame,
> {
    first_some(sibling_lists(elems), each_judged(judge))
}

/// `judge` blames nothing in a tree exactly when it blames no element of any
/// list of siblings of the tree.
pub proof fn lemma_everywhere_none(elems: Seq<Element>, judge: spec_fn(Element) -> Option<Blame>)
    ensures
        everywhere(elems, judge) is None <==> forall|k: int, i: int|
            0 <= k < sibling_lists(elems).len() && 0 <= i < sibling_lists(elems)[k].len() ==> judge(
                #[trigger] sibling_lists(elems)[k][i],
            ) is None,
{
    let lists = sibling_lists(elems);
    lemma_first_some_none(lists, each_judged(judge));
    assert forall|k: int| 0 <= k < lists.len() implies (each_judged(judge)(lists[k]) is None
        <==> forall|i: int| 0 <= i < lists[k].len() ==> judge(#[trigger] lists[k][i]) is None) by {
        lemma_first_some_none(lists[k], judge);
    }
    if everywhere(elems, judge) is None {
        assert forall|k: int, i: int|
            0 <= k < lists.len() && 0 <= i < lists[k].len() implies judge(
            #[trigger] lists[k][i],
        ) is None by {
            assert(each_judged(judge)(lists[k]) is None);
        }
    }
}

/// Applies `shallow` to `elems` and to every list of siblings below it, list
/// after list in the order of [`sibling_lists`], and returns the first
/// failure that `shallow` reports. Succeeds when `shallow` accepts them all.
pub fn always<'e, F: Fn(&'e [Element]) -> PredResult<'e>>(
    elems: &'e [Element],
    shallow: &F,
) -> (r: PredResult<'e>)
    requires
        forall|s: &'e [Element]| call_requires(*shallow, (s,)),
    ensures
        visited(shallow, sibling_lists(elems@), r),
    decreases elems@, 1int,
{
    let first = shallow(elems);
    assert(may_answer(shallow, elems@, first));
    if first.is_err() {
        assert(sibling_lists(elems@)[0] == elems@);
        assert(sibling_lists(elems@).take(0) =~= Seq::<Seq<Element>>::empty());
        return first;
    }
    assert(visited(shallow, seq![elems@], first)) by {
        assert(may_accept(shallow, elems@));
        assert(seq![elems@][0] == elems@);
    }
    let mut i: usize = 0;
    while i < elems.len()
        invariant
            0 <= i <= elems@.len(),
            forall|s: &'e [Element]| call_requires(*shallow, (s,)),
            first is Ok,
            visited(shallow, seq![elems@], first),
            all_pass(shallow, lists_below_all(elems@.take(i as int))),
        decreases elems@.len() - i,
    {
        let below = always_below(&elems[i], shallow);
        proof {
            assert(elems@.take(i + 1).drop_last() =~= elems@.take(i as int));
            assert(elems@.take(i + 1).last() == elems@[i as int]);
            lemma_visited_concat(
                shallow,
                lists_below_all(elems@.take(i as int)),
                lists_below(elems@[i as int]),
                Ok(()),
                below,
            );
        }
        if below.is_err() {
            proof {
                lemma_below_all_prefix(elems@, i + 1);
                let done = lists_below_all(elems@.take(i + 1));
                let rest = choose|rest: Seq<Seq<Element>>|
                    lists_below_all(elems@) == done + rest;
                lemma_visited_concat(shallow, done, rest, below, below);
                lemma_visited_concat(shallow, seq![elems@], done + rest, first, below);
            }
            return below;
        }
        i += 1;
    }
    proof {
        assert(elems@.take(i as int) =~= elems@);
        lemma_visited_concat(shallow, seq![elems@], lists_below_all(elems@), first, Ok(()));
    }
    Ok(())
}

/// The lists below a prefix of `elems` are a prefix of the lists below `elems`.
proof fn lemma_below_all_prefix(elems: Seq<Element>, n: int)
    requires
        0 <= n <= elems.len(),
    ensures
        exists|rest: Seq<Seq<Element>>|
            lists_below_all(elems) == lists_below_all(elems.take(n)) + rest,
    decreases elems.len(),
{
    if n == elems.len() {
        assert(elems.take(n) =~= elems);
        assert(lists_below_all(elems) =~= lists_below_all(elems.take(n)) + Seq::<
            Seq<Element>,
        >::empty());
    } else {
        lemma_below_all_prefix(elems.drop_last(), n);
        let rest = choose|rest: Seq<Seq<Element>>|
            lists_below_all(elems.drop_last()) == lists_below_all(elems.drop_last().take(n)) + rest;
        assert(elems.drop_last().take(n) =~= elems.take(n));
        assert(lists_below_all(elems) =~= lists_below_all(elems.take(n)) + (rest + lists_below(
            elems.last(),
        )));
    }
}

/// Applies `shallow` to every list of siblings below `e`, as [`always`] does.
fn always_below<'e, F: Fn(&'e [Element]) -> PredResult<'e>>(e: &'e Element, shallow: &F) -> (r:
    PredResult<'e>)
    requires
        forall|s: &'e [Element]| call_requires(*shallow, (s,)),
    ensures
        visited(shallow, lists_below(*e), r),
    decreases *e, 0int,
{
    match e {
        Element::Document(d) => always(d.content.as_slice(), shallow),
        Element::Heading(h) => {
            let r1 = always(h.caption.as_slice(), shallow);
            let ghost g1 = r1;
            let r2 = match r1 {
                Err(e) => Err(e),
                Ok(()) => always(h.content.as_slice(), shallow),
            };
            proof {
                lemma_visited_concat(
                    shallow,
                    sibling_lists(h.caption@),
                    sibling_lists(h.content@),
                    g1,
                    r2,
                );
            }
            r2
        },
        Element::Text(_) => Ok(()),
        Element::Formatted(f) => always(f.content.as_slice(), shallow),
        Element::Paragraph(p) => always(p.content.as_slice(), shallow),
        Element::Template(t) => {
            let r1 = always(t.name.as_slice(), shallow);
            let ghost g1 = r1;
            let r2 = match r1 {
                Err(e) => Err(e),
                Ok(()) => always(t.content.as_slice(), shallow),
            };
            proof {
                lemma_visited_concat(
                    shallow,
                    sibling_lists(t.name@),
                    sibling_lists(t.content@),
                    g1,
                    r2,
                );
            }
            r2
        },
        Element::TemplateArgument(a) => always(a.value.as_slice(), shallow),
        Element::InternalReference(r) => {
            let r1 = always(r.target.as_slice(), shallow);
            let ghost g1 = r1;
            let r2 = match r1 {
                Err(e) => Err(e),
                Ok(()) => always_in_each(&r.options, shallow),
            };
            proof {
                lemma_visited_concat(
                    shallow,
                    sibling_lists(r.target@),
                    lists_in_each(r.options@),
                    g1,
                    r2,
                );
            }
            let ghost g2 = r2;
            let r3 = match r2 {
                Err(e) => Err(e),
                Ok(()) => always(r.caption.as_slice(), shallow),
            };
            proof {
                lemma_visited_concat(
                    shallow,
                    sibling_lists(r.target@) + lists_in_each(r.options@),
                    sibling_lists(r.caption@),
                    g2,
                    r3,
                );
            }
            r3
        },
        Element::ExternalReference(r) => always(r.caption.as_slice(), shallow),
        Element::ListItem(i) => always(i.content.as_slice(), shallow),
        Element::List(l) => always(l.content.as_slice(), shallow),
        Element::Table(t) => {
            let r1 = always(t.caption.as_slice(), shallow);
            let ghost g1 = r1;
            let r2 = match r1 {
                Err(e) => Err(e),
                Ok(()) => always(t.rows.as_slice(), shallow),
            };
            proof {
                lemma_visited_concat(
                    shallow,
                    sibling_lists(t.caption@),
                    sibling_lists(t.rows@),
                    g1,
                    r2,
                );
            }
            r2
        },
        Element::TableRow(r) => always(r.cells.as_slice(), shallow),
        Element::TableCell(c) => always(c.content.as_slice(), shallow),
        Element::Comment(_) => Ok(()),
        Element::HtmlTag(t) => always(t.content.as_slice(), shallow),
        Element::Gallery(g) => always(g.content.as_slice(), shallow),
        Element::Error(_) => Ok(()),
    }
}

/// Applies `shallow` to every list of siblings in each of `lists`, as
/// [`always`] does.
fn always_in_each<'e, F: Fn(&'e [Element]) -> PredResult<'e>>(
    lists: &'e Vec<Vec<Element>>,
    shallow: &F,
) -> (r: PredResult<'e>)
    requires
        forall|s: &'e [Element]| call_requires(*shallow, (s,)),
    ensures
        visited(shallow, lists_in_each(lists@), r),
    decreases *lists, 0int,
{
    let mut i: usize = 0;
    while i < lists.len()
        invariant
            0 <= i <= lists@.len(),
            forall|s: &'e [Element]| call_requires(*shallow, (s,)),
            all_pass(shallow, lists_in_each(lists@.take(i as int))),
        decreases lists@.len() - i,
    {
        let inner = always(lists[i].as_slice(), shallow);
        proof {
            assert(lists@.take(i + 1).drop_last() =~= lists@.take(i as int));
            assert(lists@.take(i + 1).last() == lists@[i as int]);
            lemma_visited_concat(
                shallow,
                lists_in_each(lists@.take(i as int)),
                sibling_lists(lists@[i as int]@),
                Ok(()),
                inner,
            );
        }
        if inner.is_err() {
            proof {
                lemma_in_each_prefix(lists@, i + 1);
                let done = lists_in_each(lists@.take(i + 1));
                let rest = choose|rest: Seq<Seq<Element>>| lists_in_each(lists@) == done + rest;
                lemma_visited_concat(shallow, done, rest, inner, inner);
            }
            return inner;
        }
        i += 1;
    }
    proof {
        assert(lists@.take(i as int) =~= lists@);
    }
    Ok(())
}

/// The lists in a prefix of `lists` are a prefix of the lists in `lists`.
proof fn lemma_in_each_prefix(lists: Seq<Vec<Element>>, n: int)
    requires
        0 <= n <= lists.len(),
    ensures
        exists|rest: Seq<Seq<Element>>|
            lists_in_each(lists) == lists_in_each(lists.take(n)) + rest,
    decreases lists.len(),
{
    if n == lists.len() {
        assert(lists.take(n) =~= lists);
        assert(lists_in_each(lists) =~= lists_in_each(lists.take(n)) + Seq::<
            Seq<Element>,
        >::empty());
    } else {
        lemma_in_each_prefix(lists.drop_last(), n);
        let rest = choose|rest: Seq<Seq<Element>>|
            lists_in_each(lists.drop_last()) == lists_in_each(lists.drop_last().take(n)) + rest;
        assert(lists.drop_last().take(n) =~= lists.take(n));
        assert(lists_in_each(lists) =~= lists_in_each(lists.take(n)) + (rest + sibling_lists(
            lists.last()@,
        )));
    }
}

} // verus!
