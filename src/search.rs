use vstd::prelude::*;
use crate::matcher::{selects, Matcher, PredicateKind};
use crate::message::{chronological, views, Message, MessageView};
use crate::walker::{Walker, WalkPhase};

verus! {

/// How many messages of `h` lie below `before`: for a chronological `h`,
/// the length of the prefix that does.
pub open spec fn count_below(h: Seq<MessageView>, before: u64) -> nat
    decreases h.len(),
{
    if h.len() == 0 {
        0
    } else if h.last().id < before {
        h.len()
    } else {
        count_below(h.drop_last(), before)
    }
}

/// The page that a store holding the chronological history `h` serves below
/// `before`: the up to `limit` most recent such messages, newest first.
pub open spec fn store_page(h: Seq<MessageView>, before: u64, limit: nat) -> Seq<MessageView> {
    let c = count_below(h, before);
    let n = if limit < c { limit } else { c };
    Seq::new(n, |i: int| h[c - 1 - i])
}

/// The messages of `s` that `kind` with `argument` selects, in their order.
pub open spec fn select_from(kind: PredicateKind, argument: Seq<char>, s: Seq<MessageView>) -> Seq<
    MessageView,
>
    decreases s.len(),
{
    if s.len() == 0 {
        Seq::<MessageView>::empty()
    } else {
        let p = select_from(kind, argument, s.drop_last());
        if selects(kind, argument, s.last().content) {
            p.push(s.last())
        } else {
            p
        }
    }
}

/// In a chronological history the messages below `before` are a prefix.
pub proof fn lemma_count_below(h: Seq<MessageView>, before: u64)
    requires
        chronological(h),
    ensures
        count_below(h, before) <= h.len(),
        forall|i: int| 0 <= i < count_below(h, before) ==> h[i].id < before,
        forall|i: int| count_below(h, before) <= i < h.len() ==> h[i].id >= before,
    decreases h.len(),
{
    if h.len() > 0 {
        let p = h.drop_last();
        assert forall|i: int, j: int| 0 <= i < j < p.len() implies p[i].id < p[j].id by {
            assert(p[i] == h[i] && p[j] == h[j]);
        }
        lemma_count_below(p, before);
        if h.last().id < before {
            assert forall|i: int| 0 <= i < h.len() implies h[i].id < before by {
                if i < h.len() - 1 {
                    assert(h[i].id < h[h.len() - 1].id);
                }
            }
        } else {
            assert forall|i: int| 0 <= i < count_below(h, before) implies h[i].id < before by {
                assert(p[i] == h[i]);
            }
            assert forall|i: int| count_below(h, before) <= i < h.len() implies h[i].id
                >= before by {
                if i < h.len() - 1 {
                    assert(p[i] == h[i]);
                }
            }
        }
    }
}

/// The page below `before` of the chronological `history`, as a store serves
/// it: at most `limit` messages, newest first.
pub fn fetch_page(history: &Vec<Message>, before: u64, limit: usize) -> (r: Vec<Message>)
    requires
        chronological(views(history@)),
    ensures
        views(r@) == store_page(views(history@), before, limit as nat),
{
    let ghost h = views(history@);
    proof {
        lemma_count_below(h, before);
    }
    let mut c: usize = 0;
    while c < history.len() && history[c].id < before
        invariant
            h == views(history@),
            c <= history@.len(),
            forall|i: int| 0 <= i < c ==> h[i].id < before,
        decreases history@.len() - c,
    {
        c = c + 1;
    }
    assert(c == count_below(h, before)) by {
        let cb = count_below(h, before) as int;
        if c < cb {
            assert(h[c as int].id < before);
        }
        if cb < c {
            assert(h[cb].id >= before);
        }
    }
    let n: usize = if limit < c { limit } else { c };
    let mut r: Vec<Message> = Vec::new();
    let mut t: usize = 0;
    while t < n
        invariant
            h == views(history@),
            n <= c <= history@.len(),
            c == count_below(h, before),
            t <= n,
            n == if (limit as nat) < c as nat { limit as nat } else { c as nat },
            views(r@) =~= store_page(h, before, limit as nat).subrange(0, t as int),
        decreases n - t,
    {
        let ghost prev = r@;
        let m = history[c - 1 - t].copy();
        r.push(m);
        assert(views(r@) =~= views(prev).push(m@));
        t = t + 1;
    }
    assert(views(r@) =~= store_page(h, before, limit as nat));
    r
}

/// Fetches every page of `history` below the message at `k` into a fresh walk.
fn fetch_all(walker: &mut Walker, history: &Vec<Message>, k: usize, page_size: usize)
    requires
        chronological(views(history@)),
        k < history@.len(),
        page_size > 0,
        old(walker).wf(),
        old(walker)@.phase == WalkPhase::Priming,
        old(walker)@.cursor == history@[k as int].id,
        old(walker)@.pending == Seq::<MessageView>::empty(),
    ensures
        final(walker).wf(),
        final(walker)@.phase != WalkPhase::Priming,
        final(walker)@.pending == views(history@).subrange(0, k as int),
{
    let ghost h = views(history@);
    let ghost mut c: int = k as int;
    proof {
        lemma_count_below(h, h[k as int].id);
        assert(h.subrange(k as int, k as int) =~= Seq::<MessageView>::empty());
    }
    while walker.phase() == WalkPhase::Priming
        invariant
            h == views(history@),
            chronological(h),
            k < h.len(),
            page_size > 0,
            walker.wf(),
            0 <= c <= k,
            walker@.phase == WalkPhase::Priming ==> walker@.cursor == h[c].id,
            walker@.pending == h.subrange(c, k as int),
            walker@.phase != WalkPhase::Priming ==> c == 0,
        decreases walker@.cursor, (if walker@.phase == WalkPhase::Priming { 1int } else { 0int }),
    {
        let cursor = walker.next_fetch().unwrap();
        let page = fetch_page(history, cursor, page_size);
        let ghost pv = views(page@);
        let ghost pg = page@;
        let ghost old_pending = walker@.pending;
        proof {
            lemma_count_below(h, cursor);
            assert(count_below(h, cursor) == c) by {
                let cb = count_below(h, cursor) as int;
                if c < cb {
                    assert(h[c].id < cursor);
                }
                if cb < c {
                    assert(h[cb].id < h[c].id);
                }
            }
        }
        let res = walker.receive_page(page);
        proof {
            let n = pv.len() as int;
            assert(res.is_ok());
            assert(pv == store_page(h, cursor, page_size as nat));
            assert(n == if (page_size as int) < c { page_size as int } else { c });
            assert forall|i: int| 0 <= i < n implies #[trigger] pg[i]@ == h[c - 1 - i] by {
                assert(pv[i] == pg[i]@);
            }
            assert(crate::walker::reversed(pg) =~= h.subrange(c - n, c));
            assert(walker@.pending =~= h.subrange(c - n, k as int));
            if n > 0 {
                assert(pg[n - 1]@ == h[c - 1 - (n - 1)]);
                assert(walker@.cursor == h[c - n].id);
            }
            c = c - n;
        }
    }
}

/// The messages of the chronological `history` older than the one at `k`,
/// gathered by a walk whose store serves pages of `page_size`: exactly the
/// first `k` messages, in their order, whatever the page size.
pub fn walk_history(history: &Vec<Message>, k: usize, page_size: usize) -> (r: Vec<Message>)
    requires
        chronological(views(history@)),
        k < history@.len(),
        page_size > 0,
    ensures
        views(r@) == views(history@).subrange(0, k as int),
{
    let mut walker = Walker::new(history[k].id);
    fetch_all(&mut walker, history, k, page_size);
    let mut r: Vec<Message> = Vec::new();
    let ghost all = walker@.pending;
    proof {
        walker.lemma_wf();
    }
    while walker.phase() == WalkPhase::Draining
        invariant
            walker.wf(),
            walker@.phase != WalkPhase::Priming,
            views(r@) + walker@.pending == all,
        decreases walker@.pending.len(),
    {
        proof {
            walker.lemma_wf();
        }
        let ghost before = walker@.pending;
        let m = walker.next_message().unwrap();
        r.push(m);
        assert(views(r@) + walker@.pending =~= all);
        assert(walker@.pending.len() < before.len());
    }
    proof {
        walker.lemma_wf();
    }
    assert(views(r@) =~= all);
    r
}

/// Drains a walk whose pages have all been fetched, keeping the messages that
/// `matcher` selects, oldest first.
pub fn accumulate(matcher: &Matcher, walker: &mut Walker) -> (r: Vec<Message>)
    requires
        matcher.wf(),
        old(walker).wf(),
        old(walker)@.phase != WalkPhase::Priming,
    ensures
        final(walker).wf(),
        final(walker)@.phase == WalkPhase::Exhausted,
        views(r@) == select_from(matcher.kind, matcher.argument@, old(walker)@.pending),
{
    let ghost all = walker@.pending;
    let ghost mut seen: Seq<MessageView> = Seq::empty();
    let mut r: Vec<Message> = Vec::new();
    proof {
        walker.lemma_wf();
        assert(seen + walker@.pending =~= all);
    }
    while walker.phase() == WalkPhase::Draining
        invariant
            matcher.wf(),
            walker.wf(),
            walker@.phase != WalkPhase::Priming,
            seen + walker@.pending == all,
            views(r@) == select_from(matcher.kind, matcher.argument@, seen),
        decreases walker@.pending.len(),
    {
        proof {
            walker.lemma_wf();
        }
        let ghost before = walker@.pending;
        let m = walker.next_message().unwrap();
        let ghost prev = r@;
        proof {
            assert(seen.push(m@).drop_last() =~= seen);
            seen = seen.push(m@);
            assert(seen + walker@.pending =~= all);
        }
        if matcher.is_match(m.content.as_str()) {
            r.push(m);
            assert(views(r@) =~= views(prev).push(m@));
        }
    }
    proof {
        walker.lemma_wf();
        assert(seen =~= all);
    }
    r
}

/// The messages of the chronological `history` older than the one at `k` that
/// `matcher` selects, oldest first, gathered through pages of `page_size`.
pub fn search_history(matcher: &Matcher, history: &Vec<Message>, k: usize, page_size: usize) -> (r:
    Vec<Message>)
    requires
        matcher.wf(),
        chronological(views(history@)),
        k < history@.len(),
        page_size > 0,
    ensures
        views(r@) == select_from(
            matcher.kind,
            matcher.argument@,
            views(history@).subrange(0, k as int),
        ),
{
    let mut walker = Walker::new(history[k].id);
    fetch_all(&mut walker, history, k, page_size);
    accumulate(matcher, &mut walker)
}

/// What a search returns depends on the predicate and the history alone: two
/// runs of one request over one history, through pages of any sizes, give the
/// same messages in the same order.
pub proof fn lemma_search_repeatable(
    kind: PredicateKind,
    argument: Seq<char>,
    h1: Seq<MessageView>,
    h2: Seq<MessageView>,
    k: int,
    r1: Seq<MessageView>,
    r2: Seq<MessageView>,
)
    requires
        h1 == h2,
        0 <= k < h1.len(),
        r1 == select_from(kind, argument, h1.subrange(0, k)),
        r2 == select_from(kind, argument, h2.subrange(0, k)),
    ensures
        r1 == r2,
{
}

} // verus!
