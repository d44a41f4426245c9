use vstd::prelude::*;

use vstd::relations::{sorted_by, total_ordering};
use vstd::seq_lib::{lemma_multiset_commutative, lemma_sorted_unique};

use crate::models::{PostHeader, PostHeaderV, PostV};
use crate::store::{Store, lemma_post_index_by_id, post_index_by_id};

verus! {

broadcast use vstd::seq_lib::group_to_multiset_ensures;

/// Recency order on (modification time, id) pairs: a page lists the
/// later-modified post first and breaks ties toward the higher id.
pub open spec fn recency_order() -> spec_fn((i64, i32), (i64, i32)) -> bool {
    |a: (i64, i32), b: (i64, i32)| a.0 > b.0 || (a.0 == b.0 && a.1 >= b.1)
}

/// The recency order is a total order, so one sorted sequence of
/// pairs exists for each table.
pub proof fn lemma_recency_total()
    ensures
        total_ordering(recency_order()),
{
    let leq = recency_order();
    assert forall|x: (i64, i32)| #[trigger] leq(x, x) by {}
    assert forall|x: (i64, i32), y: (i64, i32)| #[trigger] leq(x, y) && #[trigger] leq(y, x)
        implies x == y by {}
    assert forall|x: (i64, i32), y: (i64, i32), z: (i64, i32)|
        #[trigger] leq(x, y) && #[trigger] leq(y, z) implies leq(x, z) by {}
    assert forall|x: (i64, i32), y: (i64, i32)| #[trigger] leq(x, y) || #[trigger] leq(y, x) by {}
}

/// Each post's (modification time, id) pair, in table order.
pub open spec fn mod_id_pairs(posts: Seq<PostV>) -> Seq<(i64, i32)> {
    posts.map_values(|p: PostV| (p.modified_at, p.id))
}

/// All posts' pairs, most recently modified first.
pub open spec fn recent_post_order(posts: Seq<PostV>) -> Seq<(i64, i32)> {
    mod_id_pairs(posts).sort_by(recency_order())
}

/// The window a page request selects: a negative offset or count
/// reads as zero, and the window stops at the table's end.
pub open spec fn page_bounds(len: int, start: i64, count: i64) -> (int, int) {
    let lo = if start < 0 {
        0
    } else if start > len {
        len
    } else {
        start as int
    };
    let c = if count < 0 {
        0
    } else {
        count as int
    };
    let hi = if lo + c > len {
        len
    } else {
        lo + c
    };
    (lo, hi)
}

/// The page of pairs a listing with this offset and count returns.
pub open spec fn posts_page_v(posts: Seq<PostV>, start: i64, count: i64) -> Seq<(i64, i32)> {
    let (lo, hi) = page_bounds(posts.len() as int, start, count);
    recent_post_order(posts).subrange(lo, hi)
}

/// The ids of a page of pairs.
pub open spec fn page_ids(page: Seq<(i64, i32)>) -> Seq<i32> {
    page.map_values(|pr: (i64, i32)| pr.1)
}

/// What a listing shows of a post.
pub open spec fn header_of(p: PostV) -> PostHeaderV {
    PostHeaderV {
        id: p.id,
        title: p.title,
        author: p.author,
        created_at: p.created_at,
        modified_at: p.modified_at,
    }
}

/// Inserting an element anywhere adds exactly it to the sequence's
/// multiset.
proof fn lemma_seq_insert_multiset(s: Seq<(i64, i32)>, j: int, x: (i64, i32))
    requires
        0 <= j <= s.len(),
    ensures
        s.insert(j, x).to_multiset() =~= s.to_multiset().insert(x),
{
    let left = s.subrange(0, j);
    let right = s.subrange(j, s.len() as int);
    assert(s.insert(j, x) == left.push(x) + right);
    lemma_multiset_commutative(left.push(x), right);
    assert(left.push(x).to_multiset() =~= left.to_multiset().insert(x));
    assert(s =~= left + right);
    lemma_multiset_commutative(left, right);
}

/// Insertion sort on recency pairs: the unique sequence that holds
/// the same pairs sorted by the recency order.
fn sort_pairs(v: &Vec<(i64, i32)>) -> (r: Vec<(i64, i32)>)
    ensures
        r@ == v@.sort_by(recency_order()),
{
    let ghost leq = recency_order();
    let mut r: Vec<(i64, i32)> = Vec::new();
    let mut k: usize = 0;
    proof {
        assert(v@.take(0) =~= Seq::<(i64, i32)>::empty());
        assert(r@.to_multiset() =~= v@.take(0).to_multiset());
    }
    while k < v.len()
        invariant
            k <= v.len(),
            leq == recency_order(),
            sorted_by(r@, leq),
            r@.to_multiset() == v@.take(k as int).to_multiset(),
            r@.len() == k,
        decreases v.len() - k,
    {
        let x = v[k];
        let mut j: usize = 0;
        while j < r.len() && pair_at_least(r[j], x)
            invariant
                j <= r.len(),
                leq == recency_order(),
                forall|t: int| 0 <= t < j ==> leq(#[trigger] r@[t], x),
            decreases r.len() - j,
        {
            j += 1;
        }
        let ghost prev = r@;
        r.insert(j, x);
        proof {
            lemma_recency_total();
            prev.insert_ensures(j as int, x);
            assert forall|a: int, b: int| 0 <= a < b < r@.len() implies #[trigger] leq(
                r@[a],
                r@[b],
            ) by {
                if b < j {
                    assert(leq(prev[a], prev[b]));
                } else if a > j {
                    assert(leq(prev[a - 1], prev[b - 1]));
                } else if a == j {
                    // the scan stopped at j, so x comes first there
                    assert(!leq(prev[j as int], x));
                    assert(leq(x, prev[j as int]));
                    if b - 1 > j {
                        assert(leq(prev[j as int], prev[b - 1]));
                    }
                    assert(leq(x, prev[b - 1]));
                } else if b == j {
                    assert(leq(prev[a], x));
                } else {
                    // a < j < b
                    assert(leq(prev[a], x));
                    assert(!leq(prev[j as int], x));
                    assert(leq(x, prev[j as int]));
                    if b - 1 > j {
                        assert(leq(prev[j as int], prev[b - 1]));
                    }
                    assert(leq(x, prev[b - 1]));
                }
            }
            lemma_seq_insert_multiset(prev, j as int, x);
            assert(v@.take(k as int + 1) =~= v@.take(k as int).push(x));
            assert(r@.to_multiset() =~= v@.take(k as int + 1).to_multiset());
        }
        k += 1;
    }
    proof {
        assert(v@.take(v.len() as int) =~= v@);
        lemma_recency_total();
        v@.lemma_sort_by_ensures(leq);
        lemma_sorted_unique(r@, v@.sort_by(leq), leq);
        assert(r@ == v@.sort_by(leq));
    }
    r
}

/// Whether `a` comes no later than `b` in the recency order.
fn pair_at_least(a: (i64, i32), b: (i64, i32)) -> (r: bool)
    ensures
        r == recency_order()(a, b),
{
    a.0 > b.0 || (a.0 == b.0 && a.1 >= b.1)
}

impl Store {
    /// Every post's (modification time, id) pair, in table order.
    fn collect_pairs(&self) -> (r: Vec<(i64, i32)>)
        ensures
            r@ == mod_id_pairs(self@.posts),
    {
        let mut r: Vec<(i64, i32)> = Vec::new();
        let mut i: usize = 0;
        while i < self.posts.len()
            invariant
                i <= self.posts.len(),
                r@ =~= mod_id_pairs(self@.posts).take(i as int),
            decreases self.posts.len() - i,
        {
            proof {
                assert(self@.posts[i as int] == self.posts@[i as int]@);
            }
            r.push((self.posts[i].modified_at, self.posts[i].id));
            proof {
                assert(r@ =~= mod_id_pairs(self@.posts).take(i as int + 1));
            }
            i += 1;
        }
        proof {
            assert(mod_id_pairs(self@.posts).take(self.posts.len() as int) =~= mod_id_pairs(
                self@.posts,
            ));
        }
        r
    }

    /// A page of post ids, most recently modified first: offset
    /// `start`, at most `count` of them.
    pub fn posts_by(&self, start: i64, count: i64) -> (r: Vec<i32>)
        requires
            self.wf(),
        ensures
            r@ == page_ids(posts_page_v(self@.posts, start, count)),
    {
        let pairs = self.collect_pairs();
        let sorted = sort_pairs(&pairs);
        let ghost page = posts_page_v(self@.posts, start, count);
        let n = sorted.len();
        proof {
            assert(self@.posts.len() == mod_id_pairs(self@.posts).len());
            lemma_recency_total();
            pairs@.lemma_sort_by_ensures(recency_order());
            assert(pairs@.to_multiset().len() == pairs@.len());
            assert(sorted@.to_multiset().len() == sorted@.len());
            assert(sorted@.len() == pairs@.len());
            assert(n == self@.posts.len());
            assert(self@.posts.len() < i32::MAX as int);
        }
        let lo: usize = if start < 0 {
            0
        } else if start > n as i64 {
            n
        } else {
            start as usize
        };
        let c: usize = if count < 0 {
            0
        } else if count > n as i64 {
            n
        } else {
            count as usize
        };
        let hi: usize = if lo + c > n {
            n
        } else {
            lo + c
        };
        proof {
            let (slo, shi) = page_bounds(self@.posts.len() as int, start, count);
            assert(slo == lo);
            assert(shi == hi);
        }
        let mut r: Vec<i32> = Vec::new();
        let mut k: usize = lo;
        while k < hi
            invariant
                lo <= k <= hi <= n,
                n == sorted@.len(),
                sorted@ == recent_post_order(self@.posts),
                page == posts_page_v(self@.posts, start, count),
                page == sorted@.subrange(lo as int, hi as int),
                r@ =~= page_ids(page).take(k as int - lo as int),
            decreases hi - k,
        {
            r.push(sorted[k].1);
            proof {
                assert(page[k as int - lo as int] == sorted@[k as int]);
                assert(r@ =~= page_ids(page).take(k as int + 1 - lo as int));
            }
            k += 1;
        }
        proof {
            assert(page_ids(page).take(hi as int - lo as int) =~= page_ids(page));
        }
        r
    }

    /// The most recently modified post ids, from the top of the
    /// ordering: a page at offset zero.
    pub fn recent_posts(&self, count: i64) -> (r: Vec<i32>)
        requires
            self.wf(),
        ensures
            r@ == page_ids(posts_page_v(self@.posts, 0, count)),
    {
        self.posts_by(0, count)
    }

    /// A page of post headers, most recently modified first.
    pub fn post_header_by(&self, start: i64, count: i64) -> (r: Vec<PostHeader>)
        requires
            self.wf(),
        ensures
            ({
                let page = posts_page_v(self@.posts, start, count);
                &&& r@.len() == page.len()
                &&& forall|k: int|
                    0 <= k < page.len() ==> post_index_by_id(self@.posts, (#[trigger] page[k]).1)
                        >= 0
                &&& forall|k: int|
                    0 <= k < page.len() ==> (#[trigger] r@[k])@ == header_of(
                        self@.posts[post_index_by_id(self@.posts, page[k].1)],
                    )
            }),
    {
        let ids = self.posts_by(start, count);
        let ghost page = posts_page_v(self@.posts, start, count);
        proof {
            lemma_recency_total();
            mod_id_pairs(self@.posts).lemma_sort_by_ensures(recency_order());
            assert(mod_id_pairs(self@.posts).to_multiset().len() == mod_id_pairs(
                self@.posts,
            ).len());
            assert(recent_post_order(self@.posts).to_multiset().len() == recent_post_order(
                self@.posts,
            ).len());
        }
        let mut r: Vec<PostHeader> = Vec::new();
        let mut k: usize = 0;
        while k < ids.len()
            invariant
                self.wf(),
                k <= ids.len(),
                page == posts_page_v(self@.posts, start, count),
                ids@ == page_ids(page),
                ids@.len() == page.len(),
                recent_post_order(self@.posts).len() == self@.posts.len(),
                mod_id_pairs(self@.posts).to_multiset() == recent_post_order(
                    self@.posts,
                ).to_multiset(),
                r@.len() == k,
                forall|t: int|
                    0 <= t < k ==> post_index_by_id(self@.posts, (#[trigger] page[t]).1) >= 0,
                forall|t: int|
                    0 <= t < k ==> (#[trigger] r@[t])@ == header_of(
                        self@.posts[post_index_by_id(self@.posts, page[t].1)],
                    ),
            decreases ids.len() - k,
        {
            proof {
                let pr = page[k as int];
                let order = recent_post_order(self@.posts);
                let (lo, hi) = page_bounds(self@.posts.len() as int, start, count);
                assert(0 <= lo <= hi <= order.len());
                assert(page =~= order.subrange(lo, hi));
                assert(pr == order[lo + k]);
                assert(order.contains(pr));
                assert(order.to_multiset().count(pr) > 0);
                assert(mod_id_pairs(self@.posts).to_multiset().count(pr) > 0);
                assert(mod_id_pairs(self@.posts).contains(pr));
                let m = choose|m: int|
                    0 <= m < mod_id_pairs(self@.posts).len() && mod_id_pairs(self@.posts)[m] == pr;
                assert(self@.posts[m].id == pr.1);
                lemma_post_index_by_id(self@.posts, pr.1);
                assert(post_index_by_id(self@.posts, pr.1) >= 0);
                assert(ids@[k as int] == pr.1);
            }
            match self.by_post_id(ids[k]) {
                Some(p) => {
                    let ghost pv = p@;
                    let h = PostHeader {
                        id: p.id,
                        title: p.title,
                        author: p.author,
                        created_at: p.created_at,
                        modified_at: p.modified_at,
                    };
                    r.push(h);
                    proof {
                        assert(ids@[k as int] == page[k as int].1);
                        let idx = post_index_by_id(self@.posts, page[k as int].1);
                        assert(pv == self@.posts[idx]);
                        assert(r@[k as int]@ == header_of(pv));
                    }
                },
                None => {
                    proof {
                        assert(false);
                    }
                },
            }
            k += 1;
        }
        r
    }
}

/// Law: a recent-posts page (offset zero) holds at most `count` ids,
/// each the pair of a post in the table, ordered most recently
/// modified first.
pub proof fn lemma_recent_page_ordered(posts: Seq<PostV>, count: i64)
    ensures
        ({
            let page = posts_page_v(posts, 0, count);
            &&& count >= 0 ==> page.len() <= count
            &&& page_ids(page).len() == page.len()
            &&& forall|i: int, j: int|
                0 <= i < j < page.len() ==> (#[trigger] page[i]).0 >= (#[trigger] page[j]).0
            &&& forall|i: int| 0 <= i < page.len() ==> mod_id_pairs(posts).contains(#[trigger] page[i])
        }),
{
    broadcast use vstd::seq_lib::group_to_multiset_ensures;

    let leq = recency_order();
    lemma_recency_total();
    mod_id_pairs(posts).lemma_sort_by_ensures(leq);
    let order = recent_post_order(posts);
    assert(mod_id_pairs(posts).to_multiset().len() == mod_id_pairs(posts).len());
    assert(order.to_multiset().len() == order.len());
    assert(order.len() == posts.len());
    let page = posts_page_v(posts, 0, count);
    let (lo, hi) = page_bounds(posts.len() as int, 0, count);
    assert(lo == 0);
    assert(page =~= order.subrange(lo, hi));
    assert forall|i: int, j: int| 0 <= i < j < page.len() implies (#[trigger] page[i]).0 >= (
    #[trigger] page[j]).0 by {
        assert(page[i] == order[i]);
        assert(page[j] == order[j]);
        assert(leq(order[i], order[j]));
    }
    assert forall|i: int| 0 <= i < page.len() implies mod_id_pairs(posts).contains(
        #[trigger] page[i],
    ) by {
        assert(page[i] == order[i]);
        assert(order.contains(page[i]));
        assert(order.to_multiset().count(page[i]) > 0);
        assert(mod_id_pairs(posts).to_multiset().count(page[i]) > 0);
    }
}

} // verus!
