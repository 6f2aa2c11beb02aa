//! A page of the catalog's chapter listing.

use super::chapter::Chapter;
use vstd::prelude::*;

verus! {

/// Some chapters of a manga, and where they stand in the whole listing.
#[derive(Debug, PartialEq, Eq)]
pub struct ChapterList {
    pub data: Vec<Chapter>,
    pub pagination: Pagination,
}

/// Where a page of the listing stands: how many chapters it may hold, how
/// many come before it, and how many there are in all.
#[derive(Clone, Copy, Debug, PartialEq, Eq, Structural)]
pub struct Pagination {
    pub limit: i32,
    pub offset: i32,
    pub total: i32,
}

/// The key that orders a chapter; 0 where the chapter has no number.
pub open spec fn chapter_key(chapter: Chapter) -> int {
    match chapter.attributes.chapter {
        Some(n) => n.key as int,
        None => 0,
    }
}

/// Where the first of the chapters with the least key stands.
pub open spec fn first_least(chapters: Seq<Chapter>) -> int
    decreases chapters.len(),
{
    if chapters.len() <= 1 {
        0
    } else {
        let before = first_least(chapters.drop_last());
        if chapter_key(chapters.last()) < chapter_key(chapters[before]) {
            chapters.len() - 1
        } else {
            before
        }
    }
}

/// The chapters in ascending order of their keys, those of equal key in the
/// order they had: the first of the least comes first, then the rest in the
/// same way.
pub open spec fn in_order(chapters: Seq<Chapter>) -> Seq<Chapter>
    decreases chapters.len(),
{
    if chapters.len() == 0 {
        Seq::empty()
    } else {
        proof {
            lemma_first_least(chapters);
        }
        seq![chapters[first_least(chapters)]] + in_order(chapters.remove(first_least(chapters)))
    }
}

/// The first of the least is one of the chapters; none has a smaller key,
/// and none before it has the same.
pub proof fn lemma_first_least(chapters: Seq<Chapter>)
    requires
        chapters.len() > 0,
    ensures
        0 <= first_least(chapters) < chapters.len(),
        forall|i: int|
            0 <= i < chapters.len() ==> chapter_key(chapters[first_least(chapters)])
                <= chapter_key(#[trigger] chapters[i]),
        forall|i: int|
            0 <= i < first_least(chapters) ==> chapter_key(chapters[first_least(chapters)])
                < chapter_key(#[trigger] chapters[i]),
    decreases chapters.len(),
{
    if chapters.len() > 1 {
        let front = chapters.drop_last();
        lemma_first_least(front);
        assert forall|i: int| 0 <= i < chapters.len() implies chapter_key(
            chapters[first_least(chapters)],
        ) <= chapter_key(#[trigger] chapters[i]) by {
            if i < front.len() {
                assert(front[i] == chapters[i]);
            }
        }
        assert forall|i: int| 0 <= i < first_least(chapters) implies chapter_key(
            chapters[first_least(chapters)],
        ) < chapter_key(#[trigger] chapters[i]) by {
            assert(front[i] == chapters[i]);
        }
    }
}

/// Putting chapters in order keeps every chapter, once each, and leaves
/// them in ascending order of their keys.
pub proof fn lemma_in_order(chapters: Seq<Chapter>)
    ensures
        in_order(chapters).len() == chapters.len(),
        in_order(chapters).to_multiset() == chapters.to_multiset(),
        forall|i: int, j: int|
            0 <= i <= j < chapters.len() ==> chapter_key(in_order(chapters)[i]) <= chapter_key(
                in_order(chapters)[j],
            ),
    decreases chapters.len(),
{
    broadcast use vstd::seq_lib::group_to_multiset_ensures;

    if chapters.len() > 0 {
        lemma_first_least(chapters);
        let m = first_least(chapters);
        let rest = chapters.remove(m);
        let sorted_rest = in_order(rest);
        lemma_in_order(rest);
        let sorted = in_order(chapters);
        assert(sorted == seq![chapters[m]] + sorted_rest);
        // Every chapter is kept.
        vstd::seq_lib::to_multiset_remove(chapters, m);
        assert(sorted =~= sorted_rest.insert(0, chapters[m]));
        vstd::seq_lib::to_multiset_insert(sorted_rest, 0, chapters[m]);
        assert(rest.to_multiset().insert(chapters[m]) =~= chapters.to_multiset());
        // The first is least, and the rest is in order.
        assert forall|i: int, j: int| 0 <= i <= j < chapters.len() implies chapter_key(sorted[i])
            <= chapter_key(sorted[j]) by {
            if i == 0 && j > 0 {
                let c = sorted_rest[j - 1];
                assert(sorted_rest.to_multiset().count(c) > 0);
                assert(rest.to_multiset().count(c) > 0);
                assert(rest.contains(c));
                let k = choose|k: int| 0 <= k < rest.len() && rest[k] == c;
                if k < m {
                    assert(rest[k] == chapters[k]);
                } else {
                    assert(rest[k] == chapters[k + 1]);
                }
            } else if i > 0 {
                assert(sorted[i] == sorted_rest[i - 1]);
                assert(sorted[j] == sorted_rest[j - 1]);
            }
        }
    } else {
        assert(in_order(chapters) =~= chapters);
    }
}

/// Finds the first of the chapters with the least key.
fn find_first_least(chapters: &Vec<Chapter>) -> (m: usize)
    requires
        chapters@.len() > 0,
    ensures
        m == first_least(chapters@),
        m < chapters@.len(),
{
    let mut best: usize = 0;
    let mut k: usize = 1;
    assert(chapters@.take(1).len() == 1);
    while k < chapters.len()
        invariant
            1 <= k <= chapters@.len(),
            best < k,
            best == first_least(chapters@.take(k as int)),
        decreases chapters@.len() - k,
    {
        let ghost front = chapters@.take(k + 1);
        assert(front.drop_last() =~= chapters@.take(k as int));
        assert(front.last() == chapters@[k as int]);
        assert(front[best as int] == chapters@[best as int]);
        if chapters[k].get_chapter_key() < chapters[best].get_chapter_key() {
            best = k;
        }
        k = k + 1;
    }
    assert(chapters@.take(k as int) =~= chapters@);
    best
}

impl ChapterList {
    /// Puts the chapters in ascending order of their numbers. Chapters of
    /// the same number, and those without one, which count as 0, keep the
    /// order they had among themselves.
    pub fn sort_chapters(&mut self)
        ensures
            final(self).data@ == in_order(old(self).data@),
            final(self).pagination == old(self).pagination,
    {
        let mut sorted: Vec<Chapter> = Vec::new();
        assert(sorted@ + in_order(self.data@) =~= in_order(self.data@));
        while self.data.len() > 0
            invariant
                self.pagination == old(self).pagination,
                sorted@ + in_order(self.data@) == in_order(old(self).data@),
            decreases self.data@.len(),
        {
            let ghost left = self.data@;
            let ghost done = sorted@;
            let m = find_first_least(&self.data);
            let chapter = self.data.remove(m);
            sorted.push(chapter);
            proof {
                assert(in_order(left) == seq![left[m as int]] + in_order(left.remove(m as int)));
                assert(done + (seq![left[m as int]] + in_order(left.remove(m as int))) =~= sorted@
                    + in_order(self.data@));
            }
        }
        assert(sorted@ + Seq::<Chapter>::empty() =~= sorted@);
        self.data = sorted;
    }
}

} // verus!
