//! Ranking of matching items against a query: exact matches first, then
//! desktop items, then shorter display names; ties keep their order.
use vstd::prelude::*;
use vstd::utf8::encode_utf8;
use crate::item::{Item, ItemView};

verus! {

/// The most items a search returns.
pub const MAX_RESULTS: usize = 25;

/// The views of a sequence of items.
pub open spec fn items_view(v: Seq<Item>) -> Seq<ItemView> {
    v.map_values(|it: Item| it@)
}

/// The item's display name or identifier equals the query, compared exactly.
pub open spec fn is_exact(it: ItemView, q: Seq<char>) -> bool {
    it.display_name() == q || it.short_id() == q
}

/// The length of the display name, in bytes of its UTF-8 encoding.
pub open spec fn name_len(it: ItemView) -> int {
    encode_utf8(it.display_name()).len() as int
}

/// `a` goes strictly before `b`: an exact match before one that is not; among
/// those alike, a desktop item before a path item; among those alike again,
/// the shorter display name first.
pub open spec fn ranks_before(a: ItemView, b: ItemView, q: Seq<char>) -> bool {
    if is_exact(a, q) != is_exact(b, q) {
        is_exact(a, q)
    } else if a.is_desktop() != b.is_desktop() {
        a.is_desktop()
    } else {
        name_len(a) < name_len(b)
    }
}

/// `x` placed into `s` after every element that `x` does not go strictly
/// before.
pub open spec fn insert_ranked(s: Seq<ItemView>, x: ItemView, q: Seq<char>) -> Seq<ItemView>
    decreases s.len(),
{
    if s.len() == 0 {
        seq![x]
    } else if ranks_before(x, s.last(), q) {
        insert_ranked(s.drop_last(), x, q).push(s.last())
    } else {
        s.push(x)
    }
}

/// The stable sort of `s` by `ranks_before`: items that neither goes before
/// the other keep their relative order.
pub open spec fn ranked(s: Seq<ItemView>, q: Seq<char>) -> Seq<ItemView>
    decreases s.len(),
{
    if s.len() == 0 {
        s
    } else {
        insert_ranked(ranked(s.drop_last(), q), s.last(), q)
    }
}

/// The first `MAX_RESULTS` items of `ranked(s, q)`.
pub open spec fn top_ranked(s: Seq<ItemView>, q: Seq<char>) -> Seq<ItemView> {
    let r = ranked(s, q);
    if r.len() <= MAX_RESULTS {
        r
    } else {
        r.take(MAX_RESULTS as int)
    }
}

/// No item of `s` goes strictly before an item that precedes it.
pub open spec fn in_rank_order(s: Seq<ItemView>, q: Seq<char>) -> bool {
    forall|i: int, j: int| 0 <= i < j < s.len() ==> !ranks_before(#[trigger] s[j], #[trigger] s[i], q)
}

/// Inserting at a position after which `x` goes before every element, and
/// before which it goes before none of the last, is what `insert_ranked` does.
proof fn lemma_insert_at(s: Seq<ItemView>, x: ItemView, q: Seq<char>, j: int)
    requires
        0 <= j <= s.len(),
        forall|t: int| j <= t < s.len() ==> ranks_before(x, #[trigger] s[t], q),
        j == 0 || !ranks_before(x, s[j - 1], q),
    ensures
        insert_ranked(s, x, q) == s.insert(j, x),
    decreases s.len(),
{
    if s.len() == 0 {
        assert(s.insert(j, x) =~= seq![x]);
    } else if j == s.len() {
        assert(s.insert(j, x) =~= s.push(x));
    } else {
        assert(ranks_before(x, s[s.len() - 1], q));
        lemma_insert_at(s.drop_last(), x, q, j);
        assert(s.drop_last().insert(j, x).push(s.last()) =~= s.insert(j, x));
    }
}

/// Where `insert_ranked` puts `x`.
proof fn lemma_insert_position(s: Seq<ItemView>, x: ItemView, q: Seq<char>) -> (j: int)
    ensures
        0 <= j <= s.len(),
        forall|t: int| j <= t < s.len() ==> ranks_before(x, #[trigger] s[t], q),
        j == 0 || !ranks_before(x, s[j - 1], q),
        insert_ranked(s, x, q) == s.insert(j, x),
    decreases s.len(),
{
    if s.len() == 0 {
        0
    } else if ranks_before(x, s.last(), q) {
        let j = lemma_insert_position(s.drop_last(), x, q);
        assert forall|t: int| j <= t < s.len() implies ranks_before(x, #[trigger] s[t], q) by {
            if t < s.len() - 1 {
                assert(s[t] == s.drop_last()[t]);
            }
        }
        if j > 0 {
            assert(s[j - 1] == s.drop_last()[j - 1]);
        }
        lemma_insert_at(s, x, q, j);
        j
    } else {
        lemma_insert_at(s, x, q, s.len() as int);
        s.len() as int
    }
}

/// `insert_ranked` keeps a sequence in rank order.
proof fn lemma_insert_keeps_order(s: Seq<ItemView>, x: ItemView, q: Seq<char>)
    requires
        in_rank_order(s, q),
    ensures
        in_rank_order(insert_ranked(s, x, q), q),
        insert_ranked(s, x, q).len() == s.len() + 1,
{
    let j = lemma_insert_position(s, x, q);
    let r = s.insert(j, x);
    assert forall|t: int| 0 <= t < j implies !ranks_before(x, #[trigger] s[t], q) by {
        if t < j - 1 {
            assert(!ranks_before(s[j - 1], s[t], q));
        }
    }
    assert forall|a: int, b: int| 0 <= a < b < r.len() implies !ranks_before(
        #[trigger] r[b],
        #[trigger] r[a],
        q,
    ) by {
        if b < j {
            assert(r[a] == s[a] && r[b] == s[b]);
        } else if b == j {
            assert(r[a] == s[a]);
        } else if a < j {
            assert(r[a] == s[a] && r[b] == s[b - 1]);
        } else if a == j {
            assert(r[b] == s[b - 1]);
        } else {
            assert(r[a] == s[a - 1] && r[b] == s[b - 1]);
        }
    }
}

/// `ranked` orders its result and keeps its length.
pub proof fn lemma_ranked_order(s: Seq<ItemView>, q: Seq<char>)
    ensures
        in_rank_order(ranked(s, q), q),
        ranked(s, q).len() == s.len(),
    decreases s.len(),
{
    if s.len() > 0 {
        lemma_ranked_order(s.drop_last(), q);
        lemma_insert_keeps_order(ranked(s.drop_last(), q), s.last(), q);
    }
}

/// `ranked` only reorders: it holds each item as often as its input does.
pub proof fn lemma_ranked_permutation(s: Seq<ItemView>, q: Seq<char>)
    ensures
        ranked(s, q).to_multiset() == s.to_multiset(),
    decreases s.len(),
{
    if s.len() > 0 {
        let prev = s.drop_last();
        lemma_ranked_permutation(prev, q);
        let r = ranked(prev, q);
        let j = lemma_insert_position(r, s.last(), q);
        vstd::seq_lib::to_multiset_insert(r, j, s.last());
        vstd::seq_lib::to_multiset_build(prev, s.last());
        assert(prev.push(s.last()) =~= s);
    }
}

/// Every item of `top_ranked(s, q)` is an item of `s`, and where `s` has no
/// more than `MAX_RESULTS` items, `top_ranked` holds each of them as often.
pub proof fn lemma_top_ranked_members(s: Seq<ItemView>, q: Seq<char>)
    ensures
        forall|i: int| 0 <= i < top_ranked(s, q).len() ==> s.contains(#[trigger] top_ranked(s, q)[i]),
        s.len() <= MAX_RESULTS ==> top_ranked(s, q).to_multiset() == s.to_multiset(),
{
    lemma_ranked_permutation(s, q);
    lemma_ranked_order(s, q);
    let r = ranked(s, q);
    let t = top_ranked(s, q);
    assert forall|i: int| 0 <= i < t.len() implies s.contains(#[trigger] t[i]) by {
        assert(t[i] == r[i]);
        assert(r.contains(r[i]));
        vstd::seq_lib::to_multiset_contains(r, r[i]);
        vstd::seq_lib::to_multiset_contains(s, r[i]);
    }
}

/// `top_ranked` is in rank order and holds `MAX_RESULTS` items, or all of
/// them where there are fewer.
pub proof fn lemma_top_ranked(s: Seq<ItemView>, q: Seq<char>)
    ensures
        in_rank_order(top_ranked(s, q), q),
        top_ranked(s, q).len() == if s.len() <= MAX_RESULTS {
            s.len()
        } else {
            MAX_RESULTS as nat
        },
{
    lemma_ranked_order(s, q);
    let r = ranked(s, q);
    let t = top_ranked(s, q);
    assert forall|i: int, j: int| 0 <= i < j < t.len() implies !ranks_before(
        #[trigger] t[j],
        #[trigger] t[i],
        q,
    ) by {
        assert(t[i] == r[i] && t[j] == r[j]);
    }
}

/// Whether the item's display name or identifier equals `q`.
fn exact_match(it: &Item, q: &String) -> (r: bool)
    ensures
        r == is_exact(it@, q@),
{
    match it {
        Item::Desktop { name, filename, .. } => name.eq(q) || filename.eq(q),
        Item::Path { name, .. } => name.eq(q),
    }
}

/// The byte length of the item's display name.
fn display_name_len(it: &Item) -> (r: usize)
    ensures
        r == name_len(it@),
{
    it.name().as_bytes().len()
}

/// Whether `a` goes strictly before `b` for the query `q`.
pub fn goes_before(a: &Item, b: &Item, q: &String) -> (r: bool)
    ensures
        r == ranks_before(a@, b@, q@),
{
    let ea = exact_match(a, q);
    let eb = exact_match(b, q);
    if ea != eb {
        return ea;
    }
    let da = a.is_desktop();
    let db = b.is_desktop();
    if da != db {
        return da;
    }
    display_name_len(a) < display_name_len(b)
}

/// The items that matched a query, and the query, ready to be ranked.
pub struct MatcherOutput<'a> {
    pub items: Vec<Item>,
    pub search_term: &'a str,
}

impl<'a> MatcherOutput<'a> {
    /// The items, ranked for the query and cut to `MAX_RESULTS`.
    pub fn output(self) -> (r: Vec<Item>)
        ensures
            items_view(r@) == top_ranked(items_view(self.items@), self.search_term@),
    {
        let MatcherOutput { items, search_term } = self;
        let q = search_term.to_owned();
        let ghost all = items_view(items@);
        let n = items.len();
        let mut rest = items;
        let mut out: Vec<Item> = Vec::new();
        let mut i: usize = 0;
        assert(all.take(0) =~= Seq::<ItemView>::empty());
        assert(items_view(out@) =~= Seq::<ItemView>::empty());
        assert(items_view(rest@) =~= all.skip(0));
        while rest.len() > 0
            invariant
                q@ == search_term@,
                i <= all.len(),
                items_view(rest@) == all.skip(i as int),
                items_view(out@) == ranked(all.take(i as int), q@),
                out@.len() == i,
                i + rest@.len() == all.len(),
                all.len() == n,
            decreases rest@.len(),
        {
            let ghost sv = items_view(out@);
            proof {
                lemma_ranked_order(all.take(i as int), q@);
            }
            let ghost before_rest = rest@;
            assert(items_view(before_rest)[0] == before_rest[0]@);
            assert(all.skip(i as int)[0] == all[i as int]);
            let x = rest.remove(0);
            assert(x@ == all[i as int]);
            assert forall|k: int| 0 <= k < rest@.len() implies #[trigger] items_view(rest@)[k]
                == all.skip(i as int + 1)[k] by {
                assert(rest@[k] == before_rest[k + 1]);
                assert(items_view(before_rest)[k + 1] == all.skip(i as int)[k + 1]);
            }
            assert(items_view(rest@) =~= all.skip(i as int + 1));
            let mut j: usize = out.len();
            while j > 0 && goes_before(&x, &out[j - 1], &q)
                invariant
                    j <= out@.len(),
                    sv == items_view(out@),
                    forall|t: int| j <= t < sv.len() ==> ranks_before(x@, #[trigger] sv[t], q@),
                decreases j,
            {
                j = j - 1;
            }
            proof {
                lemma_insert_at(sv, x@, q@, j as int);
            }
            out.insert(j, x);
            assert(items_view(out@) =~= sv.insert(j as int, x@));
            assert(all.take(i as int + 1).drop_last() =~= all.take(i as int));
            i = i + 1;
        }
        assert(all.take(i as int) =~= all);
        proof {
            lemma_ranked_order(all, q@);
        }
        let ghost full = items_view(out@);
        out.truncate(MAX_RESULTS);
        assert(items_view(out@) =~= top_ranked(all, q@));
        out
    }
}

} // verus!
