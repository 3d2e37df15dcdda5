//! The list of all courses as (slug, title) pairs, ordered by slug.

use vstd::prelude::*;
use vstd::multiset::Multiset;
use crate::error::{Fault, Field, LookupError};
use crate::json::{Json, items_of, member_of, text_of};
use crate::text::{lemma_text_le_antisymmetric, lemma_text_le_total, lemma_text_le_transitive, text_le, text_less_or_equal};

verus! {

broadcast use vstd::seq_lib::group_to_multiset_ensures;

/// A (slug, title) pair seen as character sequences.
pub type Entry = (Seq<char>, Seq<char>);

/// The (slug, title) pair of a course summary.
pub open spec fn course_entry(v: Json) -> Result<Entry, Fault> {
    match text_of(member_of(v, "Slug"@)) {
        None => Err(Fault::Missing(Field::CourseSlug)),
        Some(slug) => match text_of(member_of(v, "Title"@)) {
            None => Err(Fault::Missing(Field::CourseTitle)),
            Some(title) => Ok((slug, title)),
        },
    }
}

/// The pairs of the first `n` course summaries, in order, or the fault of
/// the first summary that lacks one.
pub open spec fn course_entries_upto(items: Seq<Json>, n: nat) -> Result<Seq<Entry>, Fault>
    decreases n,
{
    if n == 0 {
        Ok(Seq::empty())
    } else {
        match course_entries_upto(items, (n - 1) as nat) {
            Err(f) => Err(f),
            Ok(done) => match course_entry(items[n - 1]) {
                Err(f) => Err(f),
                Ok(e) => Ok(done.push(e)),
            },
        }
    }
}

/// The pairs of all course summaries of an overview document, in document
/// order.
pub open spec fn course_entries_of(overview: Json) -> Result<Seq<Entry>, Fault> {
    match items_of(Some(overview)) {
        None => Err(Fault::Missing(Field::CourseList)),
        Some(items) => course_entries_upto(items, items.len()),
    }
}

/// `true` when the slugs of `s` ascend.
pub open spec fn sorted_by_slug(s: Seq<Entry>) -> bool {
    forall|i: int, j: int| 0 <= i < j < s.len() ==> text_le(#[trigger] s[i].0, #[trigger] s[j].0)
}

/// `true` when `out` holds exactly the pairs of `entries`, ordered by slug.
pub open spec fn is_listing_of(entries: Seq<Entry>, out: Seq<Entry>) -> bool {
    sorted_by_slug(out) && out.to_multiset() == entries.to_multiset()
}

/// Pairs of strings seen as pairs of character sequences.
pub open spec fn pair_views(v: Seq<(String, String)>) -> Seq<Entry> {
    v.map_values(|p: (String, String)| (p.0@, p.1@))
}

proof fn lemma_fault_persists(items: Seq<Json>, i: nat, n: nat)
    requires
        i <= n,
        course_entries_upto(items, i) is Err,
    ensures
        course_entries_upto(items, n) == course_entries_upto(items, i),
    decreases n - i,
{
    if i < n {
        lemma_fault_persists(items, i, (n - 1) as nat);
    }
}

proof fn lemma_insert_keeps_sorted(s: Seq<Entry>, j: int, x: Entry)
    requires
        sorted_by_slug(s),
        0 <= j <= s.len(),
        forall|k: int| 0 <= k < j ==> text_le(#[trigger] s[k].0, x.0),
        j < s.len() ==> text_le(x.0, s[j].0),
    ensures
        sorted_by_slug(s.insert(j, x)),
{
    let t = s.insert(j, x);
    assert forall|a: int, b: int| 0 <= a < b < t.len() implies text_le(#[trigger] t[a].0, #[trigger] t[b].0) by {
        if b < j {
            assert(t[a] == s[a] && t[b] == s[b]);
        } else if b == j {
            assert(t[a] == s[a]);
        } else if a < j {
            assert(t[a] == s[a] && t[b] == s[b - 1]);
            assert(text_le(s[a].0, s[b - 1].0));
        } else if a == j {
            assert(t[b] == s[b - 1]);
            if b - 1 > j {
                lemma_text_le_transitive(x.0, s[j].0, s[b - 1].0);
            }
        } else {
            assert(t[a] == s[a - 1] && t[b] == s[b - 1]);
        }
    }
}

/// The pairs of `v` ordered by slug.
pub fn sort_by_slug(v: Vec<(String, String)>) -> (r: Vec<(String, String)>)
    ensures
        is_listing_of(pair_views(v@), pair_views(r@)),
{
    let ghost original = pair_views(v@);
    let mut rest = v;
    let mut out: Vec<(String, String)> = Vec::new();
    while rest.len() > 0
        invariant
            sorted_by_slug(pair_views(out@)),
            pair_views(rest@).to_multiset().add(pair_views(out@).to_multiset()) == original.to_multiset(),
        decreases rest@.len(),
    {
        let ghost before_rest = rest@;
        let x = rest.pop().unwrap();
        assert(pair_views(before_rest) =~= pair_views(rest@).push((x.0@, x.1@)));
        let ghost views = pair_views(out@);
        let mut j: usize = 0;
        while j < out.len() && text_less_or_equal(out[j].0.as_str(), x.0.as_str())
            invariant
                j <= out@.len(),
                views == pair_views(out@),
                forall|k: int| 0 <= k < j ==> text_le(#[trigger] views[k].0, x.0@),
            decreases out@.len() - j,
        {
            j = j + 1;
        }
        proof {
            if j < out@.len() {
                lemma_text_le_total(views[j as int].0, x.0@);
            }
            lemma_insert_keeps_sorted(views, j as int, (x.0@, x.1@));
        }
        let ghost before_out = out@;
        out.insert(j, x);
        assert(pair_views(out@) =~= views.insert(j as int, (x.0@, x.1@)));
        assert(pair_views(rest@).to_multiset().add(pair_views(out@).to_multiset()) =~= original.to_multiset());
    }
    assert(pair_views(rest@) =~= Seq::<Entry>::empty());
    assert(pair_views(out@).to_multiset() =~= original.to_multiset());
    out
}

/// The (slug, title) pairs of all course summaries of an overview document,
/// ordered by slug.
pub fn get_course_slugs(overview: &Json) -> (r: Result<Vec<(String, String)>, LookupError>)
    ensures
        match r {
            Ok(v) => course_entries_of(*overview) matches Ok(entries) && is_listing_of(entries, pair_views(v@)),
            Err(e) => course_entries_of(*overview) == Err::<Seq<Entry>, Fault>(e@),
        },
{
    let items = match overview.as_items() {
        Some(items) => items,
        None => return Err(LookupError::Missing(Field::CourseList)),
    };
    let mut pairs: Vec<(String, String)> = Vec::new();
    let mut i: usize = 0;
    assert(pair_views(pairs@) =~= Seq::<Entry>::empty());
    while i < items.len()
        invariant
            i <= items@.len(),
            items_of(Some(*overview)) == Some(items@),
            course_entries_upto(items@, i as nat) == Ok::<Seq<Entry>, Fault>(pair_views(pairs@)),
        decreases items@.len() - i,
    {
        let course = &items[i];
        let slug = match course.get("Slug") {
            Some(s) => s.as_text(),
            None => None,
        };
        let slug = match slug {
            Some(s) => s,
            None => {
                proof {
                    lemma_fault_persists(items@, (i + 1) as nat, items@.len());
                }
                return Err(LookupError::Missing(Field::CourseSlug));
            },
        };
        let title = match course.get("Title") {
            Some(t) => t.as_text(),
            None => None,
        };
        let title = match title {
            Some(t) => t,
            None => {
                proof {
                    lemma_fault_persists(items@, (i + 1) as nat, items@.len());
                }
                return Err(LookupError::Missing(Field::CourseTitle));
            },
        };
        let ghost before = pairs@;
        pairs.push((slug.clone(), title.clone()));
        assert(pair_views(pairs@) =~= pair_views(before).push((slug@, title@)));
        i = i + 1;
    }
    Ok(sort_by_slug(pairs))
}

/// `true` when no two different pairs of `m` share a slug.
pub open spec fn slug_determines_pair(m: Multiset<Entry>) -> bool {
    forall|x: Entry, y: Entry| #[trigger] m.contains(x) && #[trigger] m.contains(y) && x.0 == y.0 ==> x == y
}

proof fn lemma_sorted_listing_unique(x: Seq<Entry>, y: Seq<Entry>)
    requires
        sorted_by_slug(x),
        sorted_by_slug(y),
        x.to_multiset() == y.to_multiset(),
        slug_determines_pair(x.to_multiset()),
    ensures
        x == y,
    decreases x.len(),
{
    broadcast use vstd::multiset::group_multiset_axioms;

    vstd::seq_lib::to_multiset_len(x);
    vstd::seq_lib::to_multiset_len(y);
    if x.len() == 0 {
        assert(x =~= y);
    } else {
        let m = x.to_multiset();
        assert(y.to_multiset().contains(y[0]));
        assert(x.contains(y[0]));
        let i = choose|i: int| 0 <= i < x.len() && x[i] == y[0];
        assert(x.to_multiset().contains(x[0]));
        assert(y.contains(x[0]));
        let k = choose|k: int| 0 <= k < y.len() && y[k] == x[0];
        lemma_text_le_total(x[0].0, x[0].0);
        lemma_text_le_total(y[0].0, y[0].0);
        if i > 0 {
            assert(text_le(x[0].0, x[i].0));
        }
        if k > 0 {
            assert(text_le(y[0].0, y[k].0));
        }
        lemma_text_le_antisymmetric(x[0].0, y[0].0);
        assert(m.contains(x[0]) && m.contains(y[0]));
        assert(x[0] == y[0]);
        let xs = x.drop_first();
        let ys = y.drop_first();
        assert(x.remove(0) =~= xs);
        assert(y.remove(0) =~= ys);
        assert(xs.to_multiset() == ys.to_multiset());
        assert forall|a: Entry, b: Entry|
            #[trigger] xs.to_multiset().contains(a) && #[trigger] xs.to_multiset().contains(b) && a.0 == b.0
            implies a == b by {
            assert(m.contains(a) && m.contains(b));
        }
        assert(sorted_by_slug(xs)) by {
            assert forall|a: int, b: int| 0 <= a < b < xs.len() implies text_le(
                #[trigger] xs[a].0,
                #[trigger] xs[b].0,
            ) by {
                assert(xs[a] == x[a + 1] && xs[b] == x[b + 1]);
            }
        }
        assert(sorted_by_slug(ys)) by {
            assert forall|a: int, b: int| 0 <= a < b < ys.len() implies text_le(
                #[trigger] ys[a].0,
                #[trigger] ys[b].0,
            ) by {
                assert(ys[a] == y[a + 1] && ys[b] == y[b + 1]);
            }
        }
        lemma_sorted_listing_unique(xs, ys);
        assert forall|j: int| 0 <= j < x.len() implies x[j] == y[j] by {
            if j > 0 {
                assert(x[j] == xs[j - 1] && y[j] == ys[j - 1]);
            }
        }
        assert(x =~= y);
    }
}

/// The listing does not depend on the order in which the course summaries
/// come: any two listings of the same pairs are equal, as long as no two
/// different pairs share a slug.
pub proof fn lemma_listing_ignores_input_order(a: Seq<Entry>, b: Seq<Entry>, la: Seq<Entry>, lb: Seq<Entry>)
    requires
        a.to_multiset() == b.to_multiset(),
        slug_determines_pair(a.to_multiset()),
        is_listing_of(a, la),
        is_listing_of(b, lb),
    ensures
        la == lb,
{
    lemma_sorted_listing_unique(la, lb);
}

} // verus!
