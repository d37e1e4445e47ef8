use vstd::prelude::*;

use crate::text::{chars_of, string_from, utf8_len, utf8_len_at_most};

verus! {

/// How many successful filter expressions are remembered.
pub const QUERY_HISTORY_LIMIT: usize = 50;

/// The largest query, in UTF-8 bytes, that an editor holds.
pub const MAX_INPUT_BYTES: usize = 4096;

/// The history as plain values: remembered queries (oldest first), the browsing
/// position, the draft that browsing started from, and the values being browsed.
pub struct HistoryView {
    pub entries: Seq<Seq<char>>,
    pub cursor: Option<int>,
    pub draft: Option<Seq<char>>,
    pub browse: Seq<Seq<char>>,
}

pub open spec fn string_views(v: Seq<String>) -> Seq<Seq<char>> {
    v.map_values(|s: String| s@)
}

/// No query occurs twice.
pub open spec fn distinct(s: Seq<Seq<char>>) -> bool {
    forall|i: int, j: int| 0 <= i < j < s.len() ==> s[i] != s[j]
}

/// Whether a query can be remembered: not empty and within the input budget.
pub open spec fn recordable(query: Seq<char>) -> bool {
    query.len() > 0 && utf8_len(query) <= MAX_INPUT_BYTES
}

/// `s` without its occurrence of `q` (if any).
pub open spec fn without(s: Seq<Seq<char>>, q: Seq<char>) -> Seq<Seq<char>> {
    if exists|i: int| 0 <= i < s.len() && s[i] == q {
        let i = choose|i: int| 0 <= i < s.len() && s[i] == q;
        s.remove(i)
    } else {
        s
    }
}

/// The entries after `q` was applied: `q` moves to the newest position and the
/// oldest entry makes room when the history is full.
pub open spec fn recorded(entries: Seq<Seq<char>>, q: Seq<char>) -> Seq<Seq<char>> {
    let rest = without(entries, q);
    if rest.len() == QUERY_HISTORY_LIMIT {
        rest.drop_first().push(q)
    } else {
        rest.push(q)
    }
}

/// The history with browsing ended.
pub open spec fn not_browsing(h: HistoryView) -> HistoryView {
    HistoryView { entries: h.entries, cursor: None, draft: None, browse: Seq::empty() }
}

/// One step towards older queries from the edited text `current`.
pub open spec fn older_spec(h: HistoryView, current: Seq<char>) -> (HistoryView, Option<Seq<char>>) {
    if h.entries.len() == 0 {
        (h, None)
    } else {
        match h.cursor {
            None => {
                let i = h.entries.len() - 1;
                (
                    HistoryView {
                        entries: h.entries,
                        cursor: Some(i),
                        draft: Some(current),
                        browse: h.entries,
                    },
                    Some(h.entries[i]),
                )
            },
            Some(i) => {
                let b = h.browse.update(i, current);
                if i == 0 {
                    (HistoryView { entries: h.entries, cursor: h.cursor, draft: h.draft, browse: b }, None)
                } else {
                    (
                        HistoryView {
                            entries: h.entries,
                            cursor: Some(i - 1),
                            draft: h.draft,
                            browse: b,
                        },
                        Some(b[i - 1]),
                    )
                }
            },
        }
    }
}

/// One step towards newer queries from the edited text `current`; past the newest
/// entry the draft comes back and browsing ends.
pub open spec fn newer_spec(h: HistoryView, current: Seq<char>) -> (HistoryView, Option<Seq<char>>) {
    match h.cursor {
        None => (h, None),
        Some(i) => {
            let b = h.browse.update(i, current);
            if i + 1 < b.len() {
                (
                    HistoryView { entries: h.entries, cursor: Some(i + 1), draft: h.draft, browse: b },
                    Some(b[i + 1]),
                )
            } else {
                let d = match h.draft {
                    Some(d) => d,
                    None => Seq::empty(),
                };
                (not_browsing(h), Some(d))
            }
        },
    }
}

/// Successfully applied filter expressions of this process, newest last.
pub struct QueryHistory {
    entries: Vec<String>,
    cursor: Option<usize>,
    draft: Option<String>,
    browse_values: Vec<String>,
}

impl View for QueryHistory {
    type V = HistoryView;

    closed spec fn view(&self) -> HistoryView {
        HistoryView {
            entries: string_views(self.entries@),
            cursor: match self.cursor {
                Some(i) => Some(i as int),
                None => None,
            },
            draft: match self.draft {
                Some(d) => Some(d@),
                None => None,
            },
            browse: string_views(self.browse_values@),
        }
    }
}

/// The history's invariant: at most 50 distinct recordable queries, and a
/// browsing position inside the browsed copy of them.
pub open spec fn history_wf(h: HistoryView) -> bool {
    &&& h.entries.len() <= QUERY_HISTORY_LIMIT
    &&& distinct(h.entries)
    &&& forall|i: int| 0 <= i < h.entries.len() ==> recordable(#[trigger] h.entries[i])
    &&& match h.cursor {
        None => h.browse.len() == 0 && h.draft is None,
        Some(i) => 0 <= i < h.browse.len() && h.browse.len() == h.entries.len() && h.draft is Some,
    }
}

fn copy_strings(v: &Vec<String>) -> (r: Vec<String>)
    ensures
        string_views(r@) == string_views(v@),
{
    let mut out: Vec<String> = Vec::new();
    let mut i: usize = 0;
    while i < v.len()
        invariant
            i <= v.len(),
            string_views(out@) =~= string_views(v@).take(i as int),
        decreases v.len() - i,
    {
        let ghost before = string_views(out@);
        out.push(v[i].clone());
        assert(string_views(out@) =~= before.push(v@[i as int]@));
        assert(string_views(v@).take(i + 1) =~= string_views(v@).take(i as int).push(v@[i as int]@));
        i += 1;
    }
    assert(string_views(v@).take(v.len() as int) =~= string_views(v@));
    out
}

proof fn lemma_remove_distinct(s: Seq<Seq<char>>, i: int)
    requires
        distinct(s),
        0 <= i < s.len(),
    ensures
        distinct(s.remove(i)),
        forall|k: int| 0 <= k < s.remove(i).len() ==> s.remove(i)[k] != s[i],
        forall|k: int| 0 <= k < s.remove(i).len() ==> #[trigger] s.remove(i)[k] == (if k < i {
            s[k]
        } else {
            s[k + 1]
        }),
{
}

impl QueryHistory {
    #[verifier::type_invariant]
    closed spec fn inv(self) -> bool {
        history_wf(self@)
    }

    pub fn new() -> (r: Self)
        ensures
            r@ == (HistoryView {
                entries: Seq::empty(),
                cursor: None,
                draft: None,
                browse: Seq::empty(),
            }),
    {
        let r = QueryHistory { entries: Vec::new(), cursor: None, draft: None, browse_values: Vec::new() };
        assert(string_views(r.entries@) =~= Seq::<Seq<char>>::empty());
        assert(string_views(r.browse_values@) =~= Seq::<Seq<char>>::empty());
        r
    }

    /// Remembers a successfully applied query. Empty or oversized queries are not
    /// remembered (the result says whether it was); an equal entry moves to the
    /// newest position; a full history forgets its oldest entry. Browsing ends.
    pub fn record_applied(&mut self, query: &str) -> (r: bool)
        ensures
            r == recordable(query@),
            r ==> final(self)@ == not_browsing(
                HistoryView { entries: recorded(old(self)@.entries, query@), ..old(self)@ },
            ),
            !r ==> final(self)@ == old(self)@,
    {
        proof {
            use_type_invariant(&*self);
        }
        let q = chars_of(query);
        if q.len() == 0 || !utf8_len_at_most(&q, MAX_INPUT_BYTES) {
            return false;
        }
        let ghost es = string_views(self.entries@);
        let mut entries = copy_strings(&self.entries);
        let mut i: usize = 0;
        let mut found: Option<usize> = None;
        while i < entries.len()
            invariant
                i <= entries.len(),
                string_views(entries@) == es,
                found is None ==> forall|k: int| 0 <= k < i ==> es[k] != query@,
                found matches Some(f) ==> f < entries.len() && es[f as int] == query@,
            decreases entries.len() - i,
        {
            if found.is_none() && entries[i] == string_from(query) {
                found = Some(i);
            }
            i += 1;
        }
        let ghost rest = without(es, query@);
        match found {
            Some(f) => {
                proof {
                    let c = choose|k: int| 0 <= k < es.len() && es[k] == query@;
                    assert(c == f as int) by {
                        if c != f as int {
                            if c < f {
                                assert(es[c] != es[f as int]);
                            } else {
                                assert(es[f as int] != es[c]);
                            }
                        }
                    }
                }
                entries.remove(f);
                assert(string_views(entries@) =~= es.remove(f as int));
            },
            None => {
                assert(rest == es);
            },
        }
        proof {
            if found is Some {
                lemma_remove_distinct(es, found->0 as int);
            }
        }
        assert(string_views(entries@) == rest);
        assert(distinct(rest));
        assert(forall|k: int| 0 <= k < rest.len() ==> rest[k] != query@);
        assert(forall|k: int| 0 <= k < rest.len() ==> recordable(#[trigger] rest[k])) by {
            if found is Some {
                let f = found->0 as int;
                assert forall|k: int| 0 <= k < rest.len() implies recordable(#[trigger] rest[k]) by {
                    if k < f {
                        assert(rest[k] == es[k]);
                    } else {
                        assert(rest[k] == es[k + 1]);
                    }
                }
            }
        }
        if entries.len() == QUERY_HISTORY_LIMIT {
            entries.remove(0);
            assert(string_views(entries@) =~= rest.drop_first());
        }
        let ghost kept = string_views(entries@);
        entries.push(string_from(query));
        assert(string_views(entries@) =~= kept.push(query@));
        assert(string_views(entries@) == recorded(es, query@));
        let browse_values: Vec<String> = Vec::new();
        assert(string_views(browse_values@) =~= Seq::<Seq<char>>::empty());
        *self = QueryHistory { entries, cursor: None, draft: None, browse_values };
        true
    }

    /// Steps to the next older query, keeping the edited text of the current one.
    pub fn older(&mut self, current: &str) -> (r: Option<String>)
        ensures
            (final(self)@, match r {
                Some(s) => Some(s@),
                None => None,
            }) == older_spec(old(self)@, current@),
    {
        proof {
            use_type_invariant(&*self);
        }
        if self.entries.len() == 0 {
            return None;
        }
        match self.cursor {
            None => {
                let values = copy_strings(&self.entries);
                let index = values.len() - 1;
                let value = values[index].clone();
                let entries = copy_strings(&self.entries);
                *self = QueryHistory {
                    entries,
                    cursor: Some(index),
                    draft: Some(string_from(current)),
                    browse_values: values,
                };
                Some(value)
            },
            Some(index) => {
                let ghost b = string_views(self.browse_values@);
                let mut values = copy_strings(&self.browse_values);
                values.set(index, string_from(current));
                assert(string_views(values@) =~= b.update(index as int, current@));
                let entries = copy_strings(&self.entries);
                let draft = match &self.draft {
                    Some(d) => Some(d.clone()),
                    None => None,
                };
                let cursor = if index == 0 {
                    index
                } else {
                    index - 1
                };
                let value = if index == 0 {
                    None
                } else {
                    Some(values[index - 1].clone())
                };
                *self = QueryHistory { entries, cursor: Some(cursor), draft, browse_values: values };
                value
            },
        }
    }

    /// Steps to the next newer query; past the newest one the draft comes back.
    pub fn newer(&mut self, current: &str) -> (r: Option<String>)
        ensures
            (final(self)@, match r {
                Some(s) => Some(s@),
                None => None,
            }) == newer_spec(old(self)@, current@),
    {
        proof {
            use_type_invariant(&*self);
        }
        let index = match self.cursor {
            Some(index) => index,
            None => return None,
        };
        let ghost b = string_views(self.browse_values@);
        let mut values = copy_strings(&self.browse_values);
        values.set(index, string_from(current));
        assert(string_views(values@) =~= b.update(index as int, current@));
        let entries = copy_strings(&self.entries);
        if index + 1 < values.len() {
            let value = values[index + 1].clone();
            let draft = match &self.draft {
                Some(d) => Some(d.clone()),
                None => None,
            };
            *self = QueryHistory { entries, cursor: Some(index + 1), draft, browse_values: values };
            Some(value)
        } else {
            let draft = match &self.draft {
                Some(d) => d.clone(),
                None => String::new(),
            };
            let empty: Vec<String> = Vec::new();
            assert(string_views(empty@) =~= Seq::<Seq<char>>::empty());
            *self = QueryHistory { entries, cursor: None, draft: None, browse_values: empty };
            Some(draft)
        }
    }

    /// Ends browsing and forgets the draft.
    pub fn cancel_navigation(&mut self)
        ensures
            final(self)@ == not_browsing(old(self)@),
    {
        proof {
            use_type_invariant(&*self);
        }
        let entries = copy_strings(&self.entries);
        let empty: Vec<String> = Vec::new();
        assert(string_views(empty@) =~= Seq::<Seq<char>>::empty());
        *self = QueryHistory { entries, cursor: None, draft: None, browse_values: empty };
    }
}

} // verus!

verus! {

/// Recording a query keeps the history within 50 distinct entries and makes the
/// query the newest entry, present exactly once.
pub proof fn law_record_makes_newest_distinct_entry(entries: Seq<Seq<char>>, q: Seq<char>)
    requires
        entries.len() <= QUERY_HISTORY_LIMIT,
        distinct(entries),
    ensures
        recorded(entries, q).len() <= QUERY_HISTORY_LIMIT,
        distinct(recorded(entries, q)),
        recorded(entries, q).last() == q,
        forall|k: int| 0 <= k < recorded(entries, q).len() - 1 ==> recorded(entries, q)[k] != q,
{
    let rest = without(entries, q);
    if exists|i: int| 0 <= i < entries.len() && entries[i] == q {
        let i = choose|i: int| 0 <= i < entries.len() && entries[i] == q;
        lemma_remove_distinct(entries, i);
    }
    assert(distinct(rest));
    assert(forall|k: int| 0 <= k < rest.len() ==> rest[k] != q);
    let r = recorded(entries, q);
    if rest.len() == QUERY_HISTORY_LIMIT {
        assert forall|a: int, b: int| 0 <= a < b < r.len() implies r[a] != r[b] by {
            if b < r.len() - 1 {
                assert(r[a] == rest[a + 1] && r[b] == rest[b + 1]);
            } else {
                assert(r[a] == rest[a + 1]);
            }
        }
    } else {
        assert forall|a: int, b: int| 0 <= a < b < r.len() implies r[a] != r[b] by {
            if b < r.len() - 1 {
                assert(r[a] == rest[a] && r[b] == rest[b]);
            } else {
                assert(r[a] == rest[a]);
            }
        }
    }
}

/// A query that is already remembered moves to the newest position; nothing is
/// forgotten and the other entries keep their order.
pub proof fn law_reapplied_query_moves_to_newest(entries: Seq<Seq<char>>, q: Seq<char>, i: int)
    requires
        entries.len() <= QUERY_HISTORY_LIMIT,
        distinct(entries),
        0 <= i < entries.len(),
        entries[i] == q,
    ensures
        recorded(entries, q) == entries.remove(i).push(q),
{
    let c = choose|k: int| 0 <= k < entries.len() && entries[k] == q;
    assert(c == i) by {
        if c < i {
            assert(entries[c] != entries[i]);
        } else if i < c {
            assert(entries[i] != entries[c]);
        }
    }
}

/// A new query in a full history pushes out the oldest entry.
pub proof fn law_full_history_forgets_oldest(entries: Seq<Seq<char>>, q: Seq<char>)
    requires
        entries.len() == QUERY_HISTORY_LIMIT,
        forall|k: int| 0 <= k < entries.len() ==> entries[k] != q,
    ensures
        recorded(entries, q) == entries.drop_first().push(q),
{
}

/// Browsing back from a draft and forward again past the newest entry gives the
/// draft back and ends browsing, whatever was typed meanwhile; the entries are
/// unchanged.
pub proof fn law_older_then_newer_restores_draft(
    h: HistoryView,
    draft: Seq<char>,
    typed: Seq<char>,
)
    requires
        history_wf(h),
        h.cursor is None,
        h.entries.len() > 0,
    ensures
        older_spec(h, draft).1 == Some(h.entries.last()),
        newer_spec(older_spec(h, draft).0, typed).1 == Some(draft),
        newer_spec(older_spec(h, draft).0, typed).0 == not_browsing(h),
{
    assert(h.browse =~= Seq::<Seq<char>>::empty());
}

/// Browsing never changes the remembered entries.
pub proof fn law_browsing_keeps_entries(h: HistoryView, current: Seq<char>)
    requires
        history_wf(h),
    ensures
        older_spec(h, current).0.entries == h.entries,
        newer_spec(h, current).0.entries == h.entries,
{
}

/// `older_spec` applied once for each of `texts` in turn, each call passing the
/// text then shown: the history afterwards and what the last call returned.
pub open spec fn older_walk(h: HistoryView, texts: Seq<Seq<char>>) -> (HistoryView, Option<Seq<char>>)
    decreases texts.len(),
{
    if texts.len() == 0 {
        (h, None)
    } else {
        older_spec(older_walk(h, texts.drop_last()).0, texts.last())
    }
}

proof fn lemma_older_walk(h: HistoryView, texts: Seq<Seq<char>>)
    requires
        h.cursor is None,
        h.entries.len() >= 1,
        texts.len() >= 1,
    ensures
        ({
            let n = h.entries.len() as int;
            let j = texts.len() as int;
            let c = if j <= n {
                n - j
            } else {
                0
            };
            let (g, r) = older_walk(h, texts);
            &&& g.entries == h.entries
            &&& g.draft == Some(texts[0])
            &&& g.browse.len() == n
            &&& g.cursor == Some(c)
            &&& forall|m: int| 0 <= m < c ==> #[trigger] g.browse[m] == h.entries[m]
            &&& r == if j <= n {
                Some(h.entries[c])
            } else {
                None::<Seq<char>>
            }
        }),
    decreases texts.len(),
{
    let n = h.entries.len() as int;
    let rest = texts.drop_last();
    if texts.len() == 1 {
        assert(older_walk(h, rest) == (h, None::<Seq<char>>));
        assert(texts[0] == texts.last());
    } else {
        lemma_older_walk(h, rest);
        assert(rest[0] == texts[0]);
        let g0 = older_walk(h, rest).0;
        let c0 = g0.cursor->Some_0;
        let b = g0.browse.update(c0, texts.last());
        assert(older_walk(h, texts) == older_spec(g0, texts.last()));
        if c0 > 0 {
            assert(b[c0 - 1] == g0.browse[c0 - 1]);
            assert forall|m: int| 0 <= m < c0 - 1 implies #[trigger] b[m] == h.entries[m] by {
                assert(b[m] == g0.browse[m]);
            }
        } else {
            assert forall|m: int| 0 <= m < 0 implies #[trigger] b[m] == h.entries[m] by {}
        }
    }
}

/// Browsing back walks the history one entry at a time: starting from a
/// history that is not being browsed, the `k`-th of successive `older` calls
/// (whatever text each one passes) shows the `k`-th newest entry, and once the
/// oldest is reached further calls show nothing new and stay on it. The text
/// shown when browsing began is kept as the draft, and the entries never
/// change. With no entries nothing is shown and the history stays as it is.
pub proof fn law_older_walks_back_one_entry_at_a_time(h: HistoryView, texts: Seq<Seq<char>>)
    requires
        history_wf(h),
        h.cursor is None,
        texts.len() >= 1,
    ensures
        ({
            let n = h.entries.len() as int;
            let k = texts.len() as int;
            let (g, r) = older_walk(h, texts);
            &&& g.entries == h.entries
            &&& n == 0 ==> g == h && r is None
            &&& n >= 1 ==> g.draft == Some(texts[0])
            &&& n >= 1 && k <= n ==> r == Some(h.entries[n - k]) && g.cursor == Some(n - k)
            &&& n >= 1 && k > n ==> r is None && g.cursor == Some(0int)
        }),
    decreases texts.len(),
{
    if h.entries.len() >= 1 {
        lemma_older_walk(h, texts);
    } else {
        if texts.len() > 1 {
            law_older_walks_back_one_entry_at_a_time(h, texts.drop_last());
        } else {
            assert(older_walk(h, texts.drop_last()) == (h, None::<Seq<char>>));
        }
        assert(older_walk(h, texts) == older_spec(older_walk(h, texts.drop_last()).0, texts.last()));
    }
}

/// `newer_spec` applied once for each of `texts` in turn: the history
/// afterwards and what the last call returned.
pub open spec fn newer_walk(h: HistoryView, texts: Seq<Seq<char>>) -> (HistoryView, Option<Seq<char>>)
    decreases texts.len(),
{
    if texts.len() == 0 {
        (h, None)
    } else {
        newer_spec(newer_walk(h, texts.drop_last()).0, texts.last())
    }
}

proof fn lemma_newer_walk(g: HistoryView, texts: Seq<Seq<char>>)
    requires
        g.cursor is Some,
        0 <= g.cursor->Some_0 < g.browse.len(),
        g.draft is Some,
        texts.len() >= 1,
        texts.len() <= g.browse.len() - g.cursor->Some_0,
    ensures
        ({
            let c = g.cursor->Some_0;
            let n = g.browse.len() as int;
            let j = texts.len() as int;
            let (g2, r) = newer_walk(g, texts);
            &&& j < n - c ==> g2.cursor == Some(c + j) && g2.browse.len() == n && g2.draft
                == g.draft && g2.entries == g.entries
            &&& j == n - c ==> g2 == not_browsing(g) && r == Some(g.draft->Some_0)
        }),
    decreases texts.len(),
{
    let rest = texts.drop_last();
    if texts.len() == 1 {
        assert(newer_walk(g, rest) == (g, None::<Seq<char>>));
    } else {
        lemma_newer_walk(g, rest);
    }
    assert(newer_walk(g, texts) == newer_spec(newer_walk(g, rest).0, texts.last()));
}

/// Browsing back `k` entries and then forward `k` times returns to the draft
/// that browsing started from and ends browsing: the history is as it was,
/// whatever texts the calls passed.
pub proof fn law_browsing_back_and_forward_restores_the_draft(
    h: HistoryView,
    back: Seq<Seq<char>>,
    forward: Seq<Seq<char>>,
)
    requires
        history_wf(h),
        h.cursor is None,
        1 <= back.len() <= h.entries.len(),
        forward.len() == back.len(),
    ensures
        newer_walk(older_walk(h, back).0, forward) == (h, Some(back[0])),
{
    lemma_older_walk(h, back);
    let g = older_walk(h, back).0;
    lemma_newer_walk(g, forward);
    assert(h.browse =~= Seq::<Seq<char>>::empty());
    assert(not_browsing(g) =~= h);
}

} // verus!
