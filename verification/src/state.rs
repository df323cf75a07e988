//! The build orchestrator: partition the walked outcomes into successes
//! and failures, collect the distinct collection names, and sort the
//! successes by date — a stable sort, ties keeping discovery order.

use vstd::prelude::*;
use vstd::seq_lib::lemma_multiset_commutative;

use crate::date::{date_before_eq, date_le, Date};
use crate::error::PostError;
use crate::post::Post;
use crate::text::str_eq;

verus! {

/// What the pipeline hands the serving layer: the sorted records and the
/// distinct collection names in first-appearance order.
pub struct AppState {
    pub posts: Vec<Post>,
    pub collections: Vec<String>,
}

/// The successful records among `rs`, keeping their relative order.
pub open spec fn successes_of(rs: Seq<Result<Post, PostError>>) -> Seq<Post>
    decreases rs.len(),
{
    if rs.len() == 0 {
        Seq::empty()
    } else {
        let rest = successes_of(rs.drop_last());
        match rs.last() {
            Ok(p) => rest.push(p),
            Err(_) => rest,
        }
    }
}

/// The failures among `rs`, keeping their relative order.
pub open spec fn failures_of(rs: Seq<Result<Post, PostError>>) -> Seq<PostError>
    decreases rs.len(),
{
    if rs.len() == 0 {
        Seq::empty()
    } else {
        let rest = failures_of(rs.drop_last());
        match rs.last() {
            Ok(_) => rest,
            Err(e) => rest.push(e),
        }
    }
}

/// The distinct collection names of `posts`, each at its first appearance.
pub open spec fn collections_of(posts: Seq<Post>) -> Seq<Seq<char>>
    decreases posts.len(),
{
    if posts.len() == 0 {
        Seq::empty()
    } else {
        let rest = collections_of(posts.drop_last());
        if rest.contains(posts.last().collection@) {
            rest
        } else {
            rest.push(posts.last().collection@)
        }
    }
}

/// Insert `p` behind every element dated no later than it: the insertion
/// point of a stable sort.
pub open spec fn insert_by_date(s: Seq<Post>, p: Post) -> Seq<Post>
    decreases s.len(),
{
    if s.len() == 0 {
        seq![p]
    } else if date_le(s[0].date, p.date) {
        seq![s[0]] + insert_by_date(s.drop_first(), p)
    } else {
        seq![p] + s
    }
}

/// Insertion sort by date. Stability is by construction: each element is
/// inserted behind all earlier-discovered elements of equal date.
pub open spec fn sort_by_date(s: Seq<Post>) -> Seq<Post>
    decreases s.len(),
{
    if s.len() == 0 {
        Seq::empty()
    } else {
        insert_by_date(sort_by_date(s.drop_last()), s.last())
    }
}

/// The records run in ascending calendar order.
pub open spec fn sorted_by_date(s: Seq<Post>) -> bool {
    forall|i: int, j: int| 0 <= i < j < s.len() ==> date_le(s[i].date, s[j].date)
}

proof fn lemma_insert_by_date_multiset(s: Seq<Post>, p: Post)
    ensures
        insert_by_date(s, p).to_multiset() == s.push(p).to_multiset(),
        insert_by_date(s, p).len() == s.len() + 1,
    decreases s.len(),
{
    broadcast use vstd::seq_lib::group_to_multiset_ensures;

    if s.len() == 0 {
        assert(seq![p] =~= Seq::<Post>::empty().push(p));
    } else if date_le(s[0].date, p.date) {
        let tail = s.drop_first();
        lemma_insert_by_date_multiset(tail, p);
        lemma_multiset_commutative(seq![s[0]], insert_by_date(tail, p));
        lemma_multiset_commutative(seq![s[0]], tail.push(p));
        assert(s =~= seq![s[0]] + tail);
        assert(s.push(p) =~= seq![s[0]] + tail.push(p));
        assert(insert_by_date(s, p).to_multiset() =~= s.push(p).to_multiset());
    } else {
        lemma_multiset_commutative(seq![p], s);
        assert(seq![p] + s =~= s.insert(0, p));
        vstd::seq_lib::to_multiset_insert(s, 0, p);
        assert(s.push(p).to_multiset() =~= s.to_multiset().insert(p));
        assert(insert_by_date(s, p).to_multiset() =~= s.push(p).to_multiset());
    }
}

proof fn lemma_insert_by_date_sorted(s: Seq<Post>, p: Post)
    requires
        sorted_by_date(s),
    ensures
        sorted_by_date(insert_by_date(s, p)),
    decreases s.len(),
{
    if s.len() == 0 {
    } else if date_le(s[0].date, p.date) {
        let tail = s.drop_first();
        assert(sorted_by_date(tail)) by {
            assert(forall|i: int, j: int|
                0 <= i < j < tail.len() ==> tail[i] == s[i + 1] && tail[j] == s[j + 1]);
        }
        lemma_insert_by_date_sorted(tail, p);
        lemma_insert_by_date_multiset(tail, p);
        let r = insert_by_date(s, p);
        let rt = insert_by_date(tail, p);
        // every element of the inserted tail is either p or a tail element,
        // so the head stays below all of them
        assert forall|j: int| 0 <= j < rt.len() implies date_le(s[0].date, rt[j].date) by {
            broadcast use vstd::seq_lib::group_to_multiset_ensures;

            assert(rt.to_multiset().count(rt[j]) > 0);
            assert(tail.push(p).to_multiset().count(rt[j]) > 0);
            assert(tail.push(p).contains(rt[j]));
            let w = choose|w: int| 0 <= w < tail.push(p).len() && tail.push(p)[w] == rt[j];
            if w < tail.len() {
                assert(tail[w] == s[w + 1]);
            }
        }
        assert forall|i: int, j: int| 0 <= i < j < r.len() implies date_le(
            r[i].date,
            r[j].date,
        ) by {
            if i == 0 {
                assert(r[0] == s[0]);
                assert(r[j] == rt[j - 1]);
                assert(date_le(s[0].date, rt[j - 1].date));
                assert(date_le(r[i].date, r[j].date));
            } else {
                assert(r[i] == rt[i - 1] && r[j] == rt[j - 1]);
                assert(date_le(rt[i - 1].date, rt[j - 1].date));
                assert(date_le(r[i].date, r[j].date));
            }
        }
    } else {
        let r = seq![p] + s;
        assert forall|i: int, j: int| 0 <= i < j < r.len() implies date_le(
            r[i].date,
            r[j].date,
        ) by {
            if i == 0 {
                assert(r[0] == p);
                assert(r[j] == s[j - 1]);
                assert(date_le(p.date, s[0].date));
                assert(date_le(s[0].date, s[j - 1].date));
                assert(date_le(r[i].date, r[j].date));
            } else {
                assert(r[i] == s[i - 1] && r[j] == s[j - 1]);
                assert(date_le(s[i - 1].date, s[j - 1].date));
                assert(date_le(r[i].date, r[j].date));
            }
        }
    }
}

/// Law: sorting by date yields an ascending sequence.
pub proof fn lemma_sort_by_date_sorted(s: Seq<Post>)
    ensures
        sorted_by_date(sort_by_date(s)),
    decreases s.len(),
{
    if s.len() > 0 {
        lemma_sort_by_date_sorted(s.drop_last());
        lemma_insert_by_date_sorted(sort_by_date(s.drop_last()), s.last());
    }
}

/// Law: sorting by date permutes the records and loses none.
pub proof fn lemma_sort_by_date_permutes(s: Seq<Post>)
    ensures
        sort_by_date(s).to_multiset() == s.to_multiset(),
        sort_by_date(s).len() == s.len(),
    decreases s.len(),
{
    broadcast use vstd::seq_lib::group_to_multiset_ensures;

    if s.len() > 0 {
        lemma_sort_by_date_permutes(s.drop_last());
        lemma_insert_by_date_multiset(sort_by_date(s.drop_last()), s.last());
        assert(s =~= s.drop_last().push(s.last()));
        assert(sort_by_date(s.drop_last()).push(s.last()).to_multiset() =~= s.drop_last().push(
            s.last(),
        ).to_multiset());
    }
}

/// The records of `s` dated `d`, in the order they stand in `s`.
pub open spec fn with_date(s: Seq<Post>, d: Date) -> Seq<Post>
    decreases s.len(),
{
    if s.len() == 0 {
        Seq::empty()
    } else {
        let rest = with_date(s.drop_last(), d);
        if s.last().date == d {
            rest.push(s.last())
        } else {
            rest
        }
    }
}

proof fn lemma_with_date_cons(x: Post, u: Seq<Post>, d: Date)
    ensures
        with_date(seq![x] + u, d) == (if x.date == d {
            seq![x]
        } else {
            Seq::empty()
        }) + with_date(u, d),
    decreases u.len(),
{
    let head: Seq<Post> = if x.date == d {
        seq![x]
    } else {
        Seq::empty()
    };
    if u.len() == 0 {
        assert(with_date(u, d) == Seq::<Post>::empty());
        assert(seq![x] + u =~= seq![x]);
        assert(seq![x].drop_last() =~= u);
        assert(with_date(seq![x].drop_last(), d) == with_date(u, d));
        assert(seq![x].last() == x);
        assert(with_date(seq![x], d) =~= head + with_date(u, d));
    } else {
        lemma_with_date_cons(x, u.drop_last(), d);
        assert((seq![x] + u).drop_last() =~= seq![x] + u.drop_last());
        assert((seq![x] + u).last() == u.last());
        if u.last().date == d {
            assert(head + with_date(u.drop_last(), d).push(u.last()) =~= (head + with_date(
                u.drop_last(),
                d,
            )).push(u.last()));
        }
    }
}

proof fn lemma_with_date_none(s: Seq<Post>, d: Date)
    requires
        forall|i: int| 0 <= i < s.len() ==> (#[trigger] s[i]).date != d,
    ensures
        with_date(s, d) == Seq::<Post>::empty(),
    decreases s.len(),
{
    if s.len() > 0 {
        assert(s.last().date != d);
        assert forall|i: int| 0 <= i < s.drop_last().len() implies (#[trigger] s.drop_last()[i]).date
            != d by {
            assert(s.drop_last()[i] == s[i]);
        }
        lemma_with_date_none(s.drop_last(), d);
    }
}

proof fn lemma_insert_with_date(t: Seq<Post>, p: Post, d: Date)
    requires
        sorted_by_date(t),
    ensures
        with_date(insert_by_date(t, p), d) == (if p.date == d {
            with_date(t, d).push(p)
        } else {
            with_date(t, d)
        }),
    decreases t.len(),
{
    if t.len() == 0 {
        assert(with_date(t, d) == Seq::<Post>::empty());
        assert(seq![p].drop_last() =~= t);
        assert(with_date(seq![p].drop_last(), d) == with_date(t, d));
        assert(seq![p].last() == p);
        assert(with_date(seq![p], d) == (if p.date == d {
            with_date(t, d).push(p)
        } else {
            with_date(t, d)
        }));
    } else if date_le(t[0].date, p.date) {
        let tail = t.drop_first();
        assert(sorted_by_date(tail)) by {
            assert(forall|i: int, j: int|
                0 <= i < j < tail.len() ==> tail[i] == t[i + 1] && tail[j] == t[j + 1]);
        }
        lemma_insert_with_date(tail, p, d);
        lemma_with_date_cons(t[0], insert_by_date(tail, p), d);
        lemma_with_date_cons(t[0], tail, d);
        assert(t =~= seq![t[0]] + tail);
        let head: Seq<Post> = if t[0].date == d {
            seq![t[0]]
        } else {
            Seq::empty()
        };
        if p.date == d {
            assert(head + with_date(tail, d).push(p) =~= (head + with_date(tail, d)).push(p));
        }
    } else {
        // every element of t is dated strictly after p, so none shares d
        // with p and, when p itself is dated d, t contributes nothing
        lemma_with_date_cons(p, t, d);
        if p.date == d {
            assert forall|i: int| 0 <= i < t.len() implies (#[trigger] t[i]).date != d by {
                assert(date_le(t[0].date, t[i].date));
                if t[i].date == d {
                    assert(date_le(t[0].date, p.date));
                }
            }
            lemma_with_date_none(t, d);
            assert(seq![p] + with_date(t, d) =~= with_date(t, d).push(p));
        } else {
            assert(Seq::<Post>::empty() + with_date(t, d) =~= with_date(t, d));
        }
    }
}

/// Law: the sort is stable: for every date, the records carrying that
/// date keep their relative discovery order through the sort.
pub proof fn lemma_sort_by_date_stable(s: Seq<Post>, d: Date)
    ensures
        with_date(sort_by_date(s), d) == with_date(s, d),
    decreases s.len(),
{
    if s.len() > 0 {
        lemma_sort_by_date_stable(s.drop_last(), d);
        lemma_sort_by_date_sorted(s.drop_last());
        lemma_insert_with_date(sort_by_date(s.drop_last()), s.last(), d);
    }
}

fn find_insert_pos(posts: &Vec<Post>, d: Date) -> (k: usize)
    ensures
        0 <= k <= posts@.len(),
        forall|j: int| 0 <= j < k ==> date_le(posts@[j].date, d),
        k < posts@.len() ==> !date_le(posts@[k as int].date, d),
{
    let mut k: usize = 0;
    while k < posts.len()
        invariant
            0 <= k <= posts@.len(),
            forall|j: int| 0 <= j < k ==> date_le(posts@[j].date, d),
        decreases posts@.len() - k,
    {
        let c = posts[k].date;
        if !date_before_eq(&c, &d) {
            return k;
        }
        k = k + 1;
    }
    k
}

proof fn lemma_insert_by_date_at(s: Seq<Post>, p: Post, k: int)
    requires
        0 <= k <= s.len(),
        forall|j: int| 0 <= j < k ==> date_le(s[j].date, p.date),
        k < s.len() ==> !date_le(s[k].date, p.date),
    ensures
        insert_by_date(s, p) == s.insert(k, p),
    decreases s.len(),
{
    if s.len() == 0 {
        assert(seq![p] =~= s.insert(0, p));
    } else if k == 0 {
        assert(!date_le(s[0].date, p.date));
        assert(seq![p] + s =~= s.insert(0, p));
    } else {
        assert(date_le(s[0].date, p.date));
        let tail = s.drop_first();
        assert forall|j: int| 0 <= j < k - 1 implies date_le(tail[j].date, p.date) by {
            assert(tail[j] == s[j + 1]);
        }
        if k - 1 < tail.len() {
            assert(tail[k - 1] == s[k]);
        }
        lemma_insert_by_date_at(tail, p, k - 1);
        assert(seq![s[0]] + tail.insert(k - 1, p) =~= s.insert(k, p));
    }
}

/// Insert one record into a date-sorted vector at its stable position.
fn insert_post(posts: &mut Vec<Post>, p: Post)
    ensures
        final(posts)@ == insert_by_date(old(posts)@, p),
{
    let d = p.date;
    let k = find_insert_pos(posts, d);
    proof {
        lemma_insert_by_date_at(posts@, p, k as int);
    }
    posts.insert(k, p);
}

/// Sort records by date, stably: ties keep their relative order.
pub fn sort_posts_by_date(posts: Vec<Post>) -> (r: Vec<Post>)
    ensures
        r@ == sort_by_date(posts@),
{
    let ghost orig = posts@;
    let mut rest = posts;
    let mut out: Vec<Post> = Vec::new();
    while rest.len() > 0
        invariant
            rest@.len() <= orig.len(),
            rest@ =~= orig.skip(orig.len() - rest@.len()),
            out@ == sort_by_date(orig.subrange(0, orig.len() - rest@.len())),
        decreases rest@.len(),
    {
        let ghost done = orig.len() - rest@.len();
        let p = rest.remove(0);
        proof {
            assert(p == orig[done]);
            assert(rest@ =~= orig.skip(done + 1));
            assert(orig.subrange(0, done + 1).drop_last() =~= orig.subrange(0, done));
            assert(orig.subrange(0, done + 1).last() == orig[done]);
        }
        insert_post(&mut out, p);
    }
    proof {
        assert(orig.subrange(0, orig.len() as int) =~= orig);
    }
    out
}

/// Whether `v` holds a string whose characters equal `s`.
fn contains_str(v: &Vec<String>, s: &str) -> (r: bool)
    ensures
        r == v@.map_values(|t: String| t@).contains(s@),
{
    let ghost mapped = v@.map_values(|t: String| t@);
    let mut i: usize = 0;
    while i < v.len()
        invariant
            mapped == v@.map_values(|t: String| t@),
            0 <= i <= v@.len(),
            forall|j: int| 0 <= j < i ==> mapped[j] != s@,
        decreases v@.len() - i,
    {
        if str_eq(v[i].as_str(), s) {
            assert(mapped[i as int] == s@);
            return true;
        }
        i = i + 1;
    }
    proof {
        if mapped.contains(s@) {
            let w = choose|w: int| 0 <= w < mapped.len() && mapped[w] == s@;
            assert(mapped[w] != s@);
        }
    }
    false
}

/// Partition the walked outcomes, collect the distinct collection names in
/// first-appearance order, and sort the successes by date.
pub fn generate_app_state(post_results: Vec<Result<Post, PostError>>) -> (r: (
    AppState,
    Vec<PostError>,
))
    ensures
        r.0.posts@ == sort_by_date(successes_of(post_results@)),
        r.0.collections@.map_values(|t: String| t@) == collections_of(
            successes_of(post_results@),
        ),
        r.1@ == failures_of(post_results@),
{
    let ghost rsv = post_results@;
    let mut rest = post_results;
    let mut posts: Vec<Post> = Vec::new();
    let mut collections: Vec<String> = Vec::new();
    let mut errors: Vec<PostError> = Vec::new();
    while rest.len() > 0
        invariant
            rest@.len() <= rsv.len(),
            rest@ =~= rsv.skip(rsv.len() - rest@.len()),
            posts@ == successes_of(rsv.subrange(0, rsv.len() - rest@.len())),
            collections@.map_values(|t: String| t@) =~= collections_of(
                successes_of(rsv.subrange(0, rsv.len() - rest@.len())),
            ),
            errors@ == failures_of(rsv.subrange(0, rsv.len() - rest@.len())),
        decreases rest@.len(),
    {
        let ghost done = rsv.len() - rest@.len();
        let ghost prev_collections = collections@;
        let outcome = rest.remove(0);
        proof {
            assert(outcome == rsv[done]);
            assert(rest@ =~= rsv.skip(done + 1));
            assert(rsv.subrange(0, done + 1).drop_last() =~= rsv.subrange(0, done));
            assert(rsv.subrange(0, done + 1).last() == rsv[done]);
        }
        match outcome {
            Ok(post) => {
                let ghost prev_posts = posts@;
                let ghost sp = successes_of(rsv.subrange(0, done));
                if !contains_str(&collections, post.collection.as_str()) {
                    collections.push(post.collection.clone());
                    proof {
                        assert(collections@.map_values(|t: String| t@)
                            =~= prev_collections.map_values(|t: String| t@).push(
                            post.collection@,
                        ));
                    }
                }
                posts.push(post);
                proof {
                    let p = posts@.last();
                    assert(posts@ == prev_posts.push(p));
                    assert(successes_of(rsv.subrange(0, done + 1)) == sp.push(p));
                    assert(sp.push(p).drop_last() =~= sp);
                    assert(sp.push(p).last() == p);
                }
            },
            Err(e) => {
                errors.push(e);
            },
        }
    }
    proof {
        assert(rsv.subrange(0, rsv.len() as int) =~= rsv);
    }
    let sorted = sort_posts_by_date(posts);
    (AppState { posts: sorted, collections }, errors)
}

} // verus!
