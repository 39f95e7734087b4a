use vstd::prelude::*;
use crate::matcher::{selects, PredicateKind};
use crate::message::{views, Message, MessageView};
use crate::search::select_from;
use crate::text::{decimal, decimal_string, prefix_chars, truncate_chars};

verus! {

/// The most entries that one display page holds.
pub const PAGE_ENTRIES: usize = 25;

/// The most characters of a message's content that an entry shows.
pub const ENTRY_CHARS: usize = 200;

/// One result as displayed: who wrote it and when, then its content.
pub struct Entry {
    pub heading: String,
    pub body: String,
}

pub ghost struct EntryView {
    pub heading: Seq<char>,
    pub body: Seq<char>,
}

impl View for Entry {
    type V = EntryView;

    open spec fn view(&self) -> EntryView {
        EntryView { heading: self.heading@, body: self.body@ }
    }
}

/// One page of results as displayed, with its label.
pub struct DisplayPage {
    pub label: String,
    pub entries: Vec<Entry>,
}

/// The entry that shows `m`: "author at date:" over its first characters.
pub open spec fn entry_of(m: MessageView) -> EntryView {
    EntryView {
        heading: m.author + " at "@ + m.date + ":"@,
        body: prefix_chars(m.content, ENTRY_CHARS as nat),
    }
}

/// How many display pages `n` results take: none for no result.
pub open spec fn page_count(n: nat) -> nat {
    ((n + PAGE_ENTRIES - 1) / (PAGE_ENTRIES as int)) as nat
}

/// The label of page `i` (counted from 1) of `n`: "Results:" alone where
/// there is one page, else "Results i/n".
pub open spec fn label_of(i: nat, n: nat) -> Seq<char> {
    if n == 1 {
        "Results:"@
    } else {
        "Results "@ + decimal(i) + "/"@ + decimal(n)
    }
}

/// The results shown on page `p` (counted from 0): the `p`-th run of
/// `PAGE_ENTRIES`, shorter at the end.
pub open spec fn page_slice(s: Seq<MessageView>, p: int) -> Seq<MessageView> {
    let lo = p * PAGE_ENTRIES as int;
    let hi = if lo + PAGE_ENTRIES as int <= s.len() { lo + PAGE_ENTRIES as int } else { s.len() as int };
    s.subrange(lo, hi)
}

/// The entries shown on page `p` (counted from 0).
pub open spec fn page_entries(s: Seq<MessageView>, p: int) -> Seq<EntryView> {
    page_slice(s, p).map_values(|m: MessageView| entry_of(m))
}

pub open spec fn entry_views(v: Seq<Entry>) -> Seq<EntryView> {
    v.map_values(|e: Entry| e@)
}

/// The entry that shows `m`.
pub fn format_entry(m: &Message) -> (r: Entry)
    ensures
        r@ == entry_of(m@),
{
    let mut heading = m.author.clone();
    heading.append(" at ");
    heading.append(m.date.as_str());
    heading.append(":");
    let body = truncate_chars(m.content.as_str(), ENTRY_CHARS);
    Entry { heading, body }
}

/// The label of page `i` of `n`.
pub fn page_label(i: usize, n: usize) -> (r: String)
    ensures
        r@ == label_of(i as nat, n as nat),
{
    if n == 1 {
        String::from_str("Results:")
    } else {
        let mut r = String::from_str("Results ");
        let a = decimal_string(i);
        r.append(a.as_str());
        r.append("/");
        let b = decimal_string(n);
        r.append(b.as_str());
        r
    }
}

/// Batches results, in their order, into display pages of at most
/// `PAGE_ENTRIES` entries, each labelled with its place among them.
pub fn paginate(results: &Vec<Message>) -> (r: Vec<DisplayPage>)
    ensures
        r@.len() == page_count(results@.len()),
        forall|q: int|
            0 <= q < r@.len() ==> #[trigger] r@[q].label@ == label_of(
                (q + 1) as nat,
                page_count(results@.len()),
            ),
        forall|q: int|
            0 <= q < r@.len() ==> entry_views(#[trigger] r@[q].entries@) == page_entries(
                views(results@),
                q,
            ),
{
    let len = results.len();
    let n = len / PAGE_ENTRIES + if len % PAGE_ENTRIES == 0 { 0 } else { 1 };
    assert(n == page_count(len as nat));
    let ghost rv = views(results@);
    let mut r: Vec<DisplayPage> = Vec::new();
    let mut p: usize = 0;
    while p < n
        invariant
            len == results@.len(),
            rv == views(results@),
            n == page_count(len as nat),
            p <= n,
            r@.len() == p,
            forall|q: int|
                0 <= q < p ==> #[trigger] r@[q].label@ == label_of((q + 1) as nat, n as nat),
            forall|q: int|
                0 <= q < p ==> entry_views(#[trigger] r@[q].entries@) == page_entries(rv, q),
        decreases n - p,
    {
        assert(p * PAGE_ENTRIES < len) by (nonlinear_arith)
            requires
                p < n,
                n == (len + PAGE_ENTRIES - 1) / (PAGE_ENTRIES as int),
        ;
        let lo = p * PAGE_ENTRIES;
        let hi = if len - lo >= PAGE_ENTRIES { lo + PAGE_ENTRIES } else { len };
        let ghost want = page_entries(rv, p as int);
        let mut entries: Vec<Entry> = Vec::new();
        let mut i: usize = lo;
        while i < hi
            invariant
                len == results@.len(),
                rv == views(results@),
                lo <= i <= hi <= len,
                lo == p * PAGE_ENTRIES,
                hi == if lo + PAGE_ENTRIES <= len { (lo + PAGE_ENTRIES) as usize } else { len },
                want == page_entries(rv, p as int),
                entry_views(entries@) == want.subrange(0, i - lo),
            decreases hi - i,
        {
            let ghost prev = entries@;
            let e = format_entry(&results[i]);
            entries.push(e);
            assert(entry_views(entries@) =~= entry_views(prev).push(e@));
            assert(want.subrange(0, i + 1 - lo) =~= want.subrange(0, i - lo).push(want[i - lo]));
            i = i + 1;
        }
        assert(entry_views(entries@) =~= want);
        let label = page_label(p + 1, n);
        r.push(DisplayPage { label, entries });
        p = p + 1;
    }
    r
}

/// Where no message of the walked history is selected (in particular where
/// the history is empty), the results are empty and take no display page.
pub proof fn lemma_no_match_no_pages(kind: PredicateKind, argument: Seq<char>, s: Seq<MessageView>)
    requires
        forall|i: int| 0 <= i < s.len() ==> !selects(kind, argument, #[trigger] s[i].content),
    ensures
        select_from(kind, argument, s) == Seq::<MessageView>::empty(),
        page_count(select_from(kind, argument, s).len()) == 0,
    decreases s.len(),
{
    if s.len() > 0 {
        let p = s.drop_last();
        assert forall|i: int| 0 <= i < p.len() implies !selects(kind, argument, #[trigger] p[i].content) by {
            assert(p[i] == s[i]);
        }
        lemma_no_match_no_pages(kind, argument, p);
        assert(!selects(kind, argument, s[s.len() - 1].content));
    }
}

} // verus!
