//! The catalog of launchable items, built once from directory listings, and
//! the search over it.
use vstd::prelude::*;
use crate::item::{classify, opt_bytes_view, Item, ItemView};
use crate::rank::{
    is_exact, items_view, lemma_top_ranked, lemma_top_ranked_members, top_ranked, MatcherOutput,
    MAX_RESULTS,
};
use crate::text::{char_vec, contains_chars, is_substring};

verus! {

/// One file found in a directory, with its bytes where it is a desktop entry
/// file that could be read.
pub struct FileEntry {
    pub name: String,
    pub contents: Option<Vec<u8>>,
}

/// The files found in one directory, in the order they were listed.
pub struct DirListing {
    pub dir: String,
    pub files: Vec<FileEntry>,
}

pub open spec fn contents_view(c: Option<Vec<u8>>) -> Option<Seq<u8>> {
    match c {
        Some(v) => Some(v@),
        None => None,
    }
}

pub open spec fn opt_to_seq(o: Option<ItemView>) -> Seq<ItemView> {
    match o {
        Some(x) => seq![x],
        None => Seq::empty(),
    }
}

/// The items that the files of one directory give, in file order.
pub open spec fn files_items(dir: Seq<char>, files: Seq<FileEntry>) -> Seq<ItemView>
    decreases files.len(),
{
    if files.len() == 0 {
        Seq::empty()
    } else {
        files_items(dir, files.drop_last()) + opt_to_seq(
            classify(files.last().name@, dir, contents_view(files.last().contents)),
        )
    }
}

/// The items of all listings, directory by directory.
pub open spec fn listings_items(ls: Seq<DirListing>) -> Seq<ItemView>
    decreases ls.len(),
{
    if ls.len() == 0 {
        Seq::empty()
    } else {
        listings_items(ls.drop_last()) + files_items(ls.last().dir@, ls.last().files@)
    }
}

/// The lower-case form of a string, as `str::to_lowercase` gives it.
pub uninterp spec fn lower_of(s: Seq<char>) -> Seq<char>;

/// Relies on `str::to_lowercase`: the result depends on the characters alone.
#[verifier::external_body]
fn lowercase(s: &str) -> (r: String)
    ensures
        r@ == lower_of(s@),
{
    s.to_lowercase()
}

/// The lower-cased query occurs in the lower-cased display name or
/// identifier.
pub open spec fn item_matches(it: ItemView, lowered_query: Seq<char>) -> bool {
    is_substring(lowered_query, lower_of(it.display_name())) || is_substring(
        lowered_query,
        lower_of(it.short_id()),
    )
}

/// The items of `s` that match, in order.
pub open spec fn matching(s: Seq<ItemView>, lowered_query: Seq<char>) -> Seq<ItemView>
    decreases s.len(),
{
    if s.len() == 0 {
        s
    } else if item_matches(s.last(), lowered_query) {
        matching(s.drop_last(), lowered_query).push(s.last())
    } else {
        matching(s.drop_last(), lowered_query)
    }
}

/// What a search of the items `s` for `q` returns.
pub open spec fn search_result(s: Seq<ItemView>, q: Seq<char>) -> Seq<ItemView> {
    top_ranked(matching(s, lower_of(q)), q)
}

/// Whether an item whose lower-cased display name is `lowered_name` and
/// lower-cased identifier is `lowered_short` matches the lower-cased query.
pub fn matches_lowered(lowered_query: &str, lowered_name: &str, lowered_short: &str) -> (r: bool)
    ensures
        r == (is_substring(lowered_query@, lowered_name@) || is_substring(
            lowered_query@,
            lowered_short@,
        )),
{
    let q = char_vec(lowered_query);
    let n = char_vec(lowered_name);
    if contains_chars(&n, &q) {
        return true;
    }
    let s = char_vec(lowered_short);
    contains_chars(&s, &q)
}

/// The launchable items of one session, in the order they were found.
pub struct Catalog {
    items: Vec<Item>,
}

impl Catalog {
    pub closed spec fn spec_items(&self) -> Seq<ItemView> {
        items_view(self.items@)
    }

    /// Every item of the catalog has a non-empty identifier, and every
    /// desktop item a name and a program.
    pub open spec fn well_formed(&self) -> bool {
        forall|i: int| 0 <= i < self.spec_items().len() ==> (#[trigger] self.spec_items()[i]).well_formed()
    }

    #[verifier::type_invariant]
    closed spec fn inv(&self) -> bool {
        self.well_formed()
    }

    /// Classifies every file of every listing, directory by directory and
    /// file by file, keeping the items in that order.
    pub fn build(listings: &Vec<DirListing>) -> (r: Catalog)
        ensures
            r.spec_items() == listings_items(listings@),
            r.well_formed(),
    {
        let mut items: Vec<Item> = Vec::new();
        let mut i: usize = 0;
        assert(listings@.take(0) =~= Seq::<DirListing>::empty());
        assert(items_view(items@) =~= Seq::<ItemView>::empty());
        while i < listings.len()
            invariant
                i <= listings@.len(),
                items_view(items@) == listings_items(listings@.take(i as int)),
                forall|k: int| 0 <= k < items@.len() ==> (#[trigger] items@[k])@.well_formed(),
            decreases listings@.len() - i,
        {
            let l = &listings[i];
            let ghost before = items_view(items@);
            let mut j: usize = 0;
            assert(l.files@.take(0) =~= Seq::<FileEntry>::empty());
            assert(before + files_items(l.dir@, Seq::<FileEntry>::empty()) =~= before);
            while j < l.files.len()
                invariant
                    j <= l.files@.len(),
                    items_view(items@) == before + files_items(l.dir@, l.files@.take(j as int)),
                    forall|k: int| 0 <= k < items@.len() ==> (#[trigger] items@[k])@.well_formed(),
                decreases l.files@.len() - j,
            {
                let f = &l.files[j];
                let contents: Option<&[u8]> = match &f.contents {
                    Some(v) => Some(v.as_slice()),
                    None => None,
                };
                let ghost prev = items_view(items@);
                let made = Item::new(f.name.as_str(), l.dir.as_str(), contents);
                assert(opt_bytes_view(contents) == contents_view(f.contents));
                assert(l.files@.take(j as int + 1).drop_last() =~= l.files@.take(j as int));
                assert(l.files@.take(j as int + 1).last() == *f);
                match made {
                    Some(it) => {
                        items.push(it);
                        assert(items_view(items@) =~= prev.push(it@));
                    },
                    None => {},
                }
                j = j + 1;
                assert(items_view(items@) =~= before + files_items(
                    l.dir@,
                    l.files@.take(j as int),
                ));
            }
            assert(l.files@.take(j as int) =~= l.files@);
            assert(listings@.take(i as int + 1).drop_last() =~= listings@.take(i as int));
            assert(listings@.take(i as int + 1).last() == *l);
            i = i + 1;
        }
        assert(listings@.take(i as int) =~= listings@);
        assert forall|k: int| 0 <= k < items_view(items@).len() implies (
        #[trigger] items_view(items@)[k]).well_formed() by {
            assert(items_view(items@)[k] == items@[k]@);
        }
        Catalog { items }
    }

    /// The items, in the order they were found.
    pub fn items(&self) -> (r: &Vec<Item>)
        ensures
            items_view(r@) == self.spec_items(),
            self.well_formed(),
    {
        proof {
            use_type_invariant(self);
        }
        &self.items
    }
}

/// The catalog items that match `search_term`, ranked, at most
/// `MAX_RESULTS` of them.
pub fn get_matching(catalog: &Catalog, search_term: &str) -> (r: Vec<Item>)
    ensures
        items_view(r@) == search_result(catalog.spec_items(), search_term@),
        forall|i: int| 0 <= i < r@.len() ==> (#[trigger] r@[i])@.well_formed(),
{
    proof {
        use_type_invariant(catalog);
    }
    let lq = lowercase(search_term);
    let all = &catalog.items;
    let ghost s = items_view(all@);
    let mut found: Vec<Item> = Vec::new();
    let mut i: usize = 0;
    assert(s.take(0) =~= Seq::<ItemView>::empty());
    assert(items_view(found@) =~= Seq::<ItemView>::empty());
    while i < all.len()
        invariant
            s == items_view(all@),
            i <= all@.len(),
            lq@ == lower_of(search_term@),
            items_view(found@) == matching(s.take(i as int), lq@),
        decreases all@.len() - i,
    {
        let it = &all[i];
        let ln = lowercase(it.name());
        let ls = lowercase(it.short_name());
        let ghost prev = items_view(found@);
        assert(s.take(i as int + 1).drop_last() =~= s.take(i as int));
        assert(s.take(i as int + 1).last() == it@);
        if matches_lowered(lq.as_str(), ln.as_str(), ls.as_str()) {
            found.push(it.duplicate());
            assert(items_view(found@) =~= prev.push(it@));
        }
        i = i + 1;
    }
    assert(s.take(i as int) =~= s);
    let m = MatcherOutput { items: found, search_term };
    let r = m.output();
    proof {
        let c = catalog.spec_items();
        lemma_search_members(c, search_term@);
        assert forall|i: int| 0 <= i < r@.len() implies (#[trigger] r@[i])@.well_formed() by {
            assert(items_view(r@)[i] == r@[i]@);
            let k = choose|k: int| 0 <= k < c.len() && c[k] == search_result(c, search_term@)[i];
            assert(c[k].well_formed());
        }
    }
    r
}

/// Every item of `matching(s, lq)` is an item of `s` that matches.
pub proof fn lemma_matching_members(s: Seq<ItemView>, lq: Seq<char>)
    ensures
        forall|i: int|
            0 <= i < matching(s, lq).len() ==> s.contains(#[trigger] matching(s, lq)[i])
                && item_matches(matching(s, lq)[i], lq),
    decreases s.len(),
{
    if s.len() > 0 {
        let prev = s.drop_last();
        lemma_matching_members(prev, lq);
        let m = matching(s, lq);
        assert forall|i: int| 0 <= i < m.len() implies s.contains(#[trigger] m[i]) && item_matches(
            m[i],
            lq,
        ) by {
            if i < matching(prev, lq).len() {
                assert(m[i] == matching(prev, lq)[i]);
                let k = choose|k: int| 0 <= k < prev.len() && prev[k] == m[i];
                assert(s[k] == prev[k]);
            } else {
                assert(m[i] == s[s.len() - 1]);
            }
        }
    }
}

/// A search returns only items of the catalog that match the query, and
/// where no more than `MAX_RESULTS` items match, it returns every one of them.
pub proof fn lemma_search_members(c: Seq<ItemView>, q: Seq<char>)
    ensures
        forall|i: int|
            0 <= i < search_result(c, q).len() ==> c.contains(#[trigger] search_result(c, q)[i])
                && item_matches(search_result(c, q)[i], lower_of(q)),
        matching(c, lower_of(q)).len() <= MAX_RESULTS ==> search_result(c, q).to_multiset()
            == matching(c, lower_of(q)).to_multiset(),
{
    let m = matching(c, lower_of(q));
    lemma_matching_members(c, lower_of(q));
    lemma_top_ranked_members(m, q);
    let r = search_result(c, q);
    assert forall|i: int| 0 <= i < r.len() implies c.contains(#[trigger] r[i]) && item_matches(
        r[i],
        lower_of(q),
    ) by {
        assert(m.contains(r[i]));
        let k = choose|k: int| 0 <= k < m.len() && m[k] == r[i];
        assert(c.contains(m[k]) && item_matches(m[k], lower_of(q)));
    }
}

/// A search is a function of the catalog and the query: the same pair always
/// gives the same ordered result.
pub proof fn lemma_search_deterministic(
    c1: Seq<ItemView>,
    q1: Seq<char>,
    c2: Seq<ItemView>,
    q2: Seq<char>,
)
    requires
        c1 == c2,
        q1 == q2,
    ensures
        search_result(c1, q1) == search_result(c2, q2),
{
}

/// In a search result an item that equals the query exactly comes before
/// every item that does not.
pub proof fn lemma_exact_matches_first(c: Seq<ItemView>, q: Seq<char>)
    ensures
        forall|i: int, j: int|
            0 <= i < j < search_result(c, q).len() && is_exact(
                #[trigger] search_result(c, q)[j],
                q,
            ) ==> is_exact(#[trigger] search_result(c, q)[i], q),
{
    lemma_top_ranked(matching(c, lower_of(q)), q);
}

/// Among results alike in matching the query exactly, every desktop item
/// comes before every path item, whatever the lengths of their names.
pub proof fn lemma_desktop_before_path(c: Seq<ItemView>, q: Seq<char>)
    ensures
        forall|i: int, j: int|
            0 <= i < j < search_result(c, q).len() && is_exact(
                #[trigger] search_result(c, q)[i],
                q,
            ) == is_exact(#[trigger] search_result(c, q)[j], q) && search_result(c, q)[j].is_desktop()
                ==> search_result(c, q)[i].is_desktop(),
{
    lemma_top_ranked(matching(c, lower_of(q)), q);
}

/// A search returns every match where there are at most `MAX_RESULTS` of
/// them, else exactly `MAX_RESULTS`.
pub proof fn lemma_search_length(c: Seq<ItemView>, q: Seq<char>)
    ensures
        search_result(c, q).len() == if matching(c, lower_of(q)).len() <= MAX_RESULTS {
            matching(c, lower_of(q)).len()
        } else {
            MAX_RESULTS as nat
        },
{
    lemma_top_ranked(matching(c, lower_of(q)), q);
}

proof fn lemma_files_well_formed(dir: Seq<char>, files: Seq<FileEntry>)
    ensures
        forall|i: int|
            0 <= i < files_items(dir, files).len() ==> (#[trigger] files_items(dir, files)[i]).well_formed(),
    decreases files.len(),
{
    if files.len() > 0 {
        let prev = files.drop_last();
        lemma_files_well_formed(dir, prev);
        let f = files.last();
        let a = files_items(dir, prev);
        let t = opt_to_seq(classify(f.name@, dir, contents_view(f.contents)));
        assert forall|i: int| 0 <= i < (a + t).len() implies (#[trigger] (a + t)[i]).well_formed() by {
            if i >= a.len() {
                assert((a + t)[i] == t[i - a.len()]);
            }
        }
    }
}

/// Every item that directory listings give is well formed.
pub proof fn lemma_listings_well_formed(ls: Seq<DirListing>)
    ensures
        forall|i: int|
            0 <= i < listings_items(ls).len() ==> (#[trigger] listings_items(ls)[i]).well_formed(),
    decreases ls.len(),
{
    if ls.len() > 0 {
        let prev = ls.drop_last();
        lemma_listings_well_formed(prev);
        let l = ls.last();
        lemma_files_well_formed(l.dir@, l.files@);
        let a = listings_items(prev);
        let t = files_items(l.dir@, l.files@);
        assert forall|i: int| 0 <= i < (a + t).len() implies (#[trigger] (a + t)[i]).well_formed() by {
            if i >= a.len() {
                assert((a + t)[i] == t[i - a.len()]);
            }
        }
    }
}

/// Every item of a built catalog has a non-empty identifier, whatever the
/// directory listings it was built from.
pub proof fn lemma_catalog_short_ids_nonempty(ls: Seq<DirListing>)
    ensures
        forall|i: int|
            0 <= i < listings_items(ls).len() ==> (#[trigger] listings_items(ls)[i]).short_id().len()
                > 0,
{
    lemma_listings_well_formed(ls);
    assert forall|i: int| 0 <= i < listings_items(ls).len() implies (
    #[trigger] listings_items(ls)[i]).short_id().len() > 0 by {
        assert(listings_items(ls)[i].well_formed());
    }
}

} // verus!
