//! What holds of every cache, whatever is offered to it and whatever it
//! loads.

use vstd::prelude::*;
use crate::cache::{distinct, keep_last, CacheState, ReadOutcomeView};
use crate::lines::{is_line, lemma_lines_are_lines, lemma_lines_of_joined, lines};

verus! {

/// Keeping the newest after one more item gives the same whether or not the
/// older ones were cut down before.
pub proof fn lemma_keep_last_push<A>(s: Seq<A>, x: A, n: nat)
    ensures
        keep_last(keep_last(s, n).push(x), n) == keep_last(s.push(x), n),
{
}

/// What is kept of a sequence is part of it.
pub proof fn lemma_keep_last_within<A>(s: Seq<A>, n: nat, x: A)
    requires
        keep_last(s, n).contains(x),
    ensures
        s.contains(x),
{
    let kept = keep_last(s, n);
    let i = choose|i: int| 0 <= i < kept.len() && kept[i] == x;
    assert(s[i + s.len() - kept.len()] == x);
}

/// A cache never exceeds its capacity: whatever is offered to a cache within
/// its capacity, in whatever order, it stays within it, and its capacity
/// stays what it was.
pub proof fn law_inserts_stay_bounded(c: CacheState, ids: Seq<Seq<char>>)
    requires
        c.bounded(),
    ensures
        c.inserted_all(ids).bounded(),
        c.inserted_all(ids).capacity == c.capacity,
    decreases ids.len(),
{
    if ids.len() > 0 {
        law_inserts_stay_bounded(c, ids.drop_last());
    }
}

/// The oldest leave first: after identities that are distinct and unknown to
/// the cache were offered to it, each of them was reported as new, and the
/// cache holds the newest that fit of what it held followed by them.
pub proof fn law_newest_are_kept(c: CacheState, ids: Seq<Seq<char>>)
    requires
        c.bounded(),
        ids.no_duplicates(),
        forall|i: int| 0 <= i < ids.len() ==> !c.knows(#[trigger] ids[i]),
    ensures
        forall|k: int|
            0 <= k < ids.len() ==> !(#[trigger] c.inserted_all(ids.take(k))).knows(ids[k]),
        c.inserted_all(ids).order == keep_last(c.order + ids, c.capacity),
        c.inserted_all(ids).capacity == c.capacity,
    decreases ids.len(),
{
    if ids.len() > 0 {
        let init = ids.drop_last();
        let x = ids.last();
        law_newest_are_kept(c, init);
        let mid = c.inserted_all(init);
        assert(!mid.knows(x)) by {
            if mid.knows(x) {
                lemma_keep_last_within(c.order + init, c.capacity, x);
                let j = choose|j: int| 0 <= j < (c.order + init).len() && (c.order + init)[j] == x;
                assert(j < c.order.len() ==> c.order[j] == x);
                assert(j >= c.order.len() ==> ids[j - c.order.len()] == x);
            }
        }
        lemma_keep_last_push(c.order + init, x, c.capacity);
        assert forall|k: int| 0 <= k < ids.len() implies !(#[trigger] c.inserted_all(
            ids.take(k),
        )).knows(ids[k]) by {
            if k < init.len() {
                assert(ids.take(k) == init.take(k));
            }
        }
    }
}

/// Into an empty cache: after `capacity + k` distinct identities were
/// offered to it, the cache holds exactly the last `capacity` of them, in
/// the order in which they came.
pub proof fn law_fresh_cache_keeps_newest(capacity: nat, ids: Seq<Seq<char>>)
    requires
        ids.no_duplicates(),
    ensures
        CacheState::empty(capacity).inserted_all(ids).order == keep_last(ids, capacity),
        ids.len() >= capacity ==> CacheState::empty(capacity).inserted_all(ids).order == ids.skip(
            ids.len() - capacity,
        ),
        CacheState::empty(capacity).inserted_all(ids).members() == keep_last(
            ids,
            capacity,
        ).to_set(),
{
    let c = CacheState::empty(capacity);
    law_newest_are_kept(c, ids);
}

/// No identity is reported twice in a row: a cache that holds nothing knows
/// no identity; once an identity was offered to a cache that can hold
/// anything at all, the cache knows it, and offering it again, any number of
/// times, changes nothing.
pub proof fn law_seen_after_insert(c: CacheState, id: Seq<char>, repeats: nat)
    requires
        c.bounded(),
        c.capacity >= 1,
    ensures
        c.order.len() == 0 ==> !c.knows(id),
        c.inserted(id).knows(id),
        c.inserted(id).inserted_all(Seq::new(repeats, |i: int| id)) == c.inserted(id),
    decreases repeats,
{
    let after = c.inserted(id);
    assert(after.knows(id)) by {
        if !c.knows(id) {
            let pushed = c.order.push(id);
            let kept = keep_last(pushed, c.capacity);
            assert(kept[kept.len() - 1] == id);
        }
    }
    if repeats > 0 {
        law_seen_after_insert(c, id, (repeats - 1) as nat);
        assert(Seq::new(repeats, |i: int| id).drop_last() == Seq::new(
            (repeats - 1) as nat,
            |i: int| id,
        ));
    }
}

/// A cache without room knows nothing and keeps nothing: every identity is
/// new to it, each time.
pub proof fn law_no_room(c: CacheState, id: Seq<char>)
    requires
        c.bounded(),
        c.capacity == 0,
    ensures
        !c.knows(id),
        c.inserted(id) == c,
{
    assert(c.inserted(id).order == c.order);
}

/// What `distinct` keeps: every item of the sequence and nothing else, and
/// none of them twice.
pub proof fn lemma_distinct<A>(s: Seq<A>)
    ensures
        distinct(s).no_duplicates(),
        forall|x: A| distinct(s).contains(x) <==> s.contains(x),
    decreases s.len(),
{
    if s.len() > 0 {
        let rest = s.drop_first();
        lemma_distinct(rest);
        let kept = distinct(rest);
        assert forall|x: A| distinct(s).contains(x) <==> s.contains(x) by {
            if s.contains(x) {
                let i = choose|i: int| 0 <= i < s.len() && s[i] == x;
                if i > 0 {
                    assert(rest[i - 1] == x);
                }
                if rest.contains(x) {
                    assert(kept.contains(x));
                    let k = choose|k: int| 0 <= k < kept.len() && kept[k] == x;
                    if !rest.contains(s.first()) {
                        assert(distinct(s)[k + 1] == x);
                    }
                } else {
                    assert(distinct(s)[0] == x);
                }
            }
            if distinct(s).contains(x) {
                let k = choose|k: int| 0 <= k < distinct(s).len() && distinct(s)[k] == x;
                if rest.contains(s.first()) {
                    assert(kept.contains(x));
                } else if k > 0 {
                    assert(kept[k - 1] == x);
                    assert(kept.contains(x));
                }
                if rest.contains(x) {
                    let i = choose|i: int| 0 <= i < rest.len() && rest[i] == x;
                    assert(s[i + 1] == x);
                } else {
                    assert(s[0] == x);
                }
            }
        }
        if !rest.contains(s.first()) {
            assert forall|i: int, j: int|
                0 <= i < distinct(s).len() && 0 <= j < distinct(s).len() && i != j implies distinct(
                s,
            )[i] != distinct(s)[j] by {
                if i == 0 {
                    assert(kept[j - 1] == distinct(s)[j]);
                    assert(kept.contains(distinct(s)[j]));
                } else if j == 0 {
                    assert(kept[i - 1] == distinct(s)[i]);
                    assert(kept.contains(distinct(s)[i]));
                } else {
                    assert(kept[i - 1] == distinct(s)[i]);
                    assert(kept[j - 1] == distinct(s)[j]);
                }
            }
        }
    }
}

/// A sequence that holds nothing twice is left as it is by `distinct`.
pub proof fn lemma_distinct_of_distinct<A>(s: Seq<A>)
    requires
        s.no_duplicates(),
    ensures
        distinct(s) == s,
    decreases s.len(),
{
    if s.len() > 0 {
        let rest = s.drop_first();
        assert(!rest.contains(s.first())) by {
            if rest.contains(s.first()) {
                let i = choose|i: int| 0 <= i < rest.len() && rest[i] == s.first();
                assert(s[i + 1] == s[0]);
            }
        }
        lemma_distinct_of_distinct(rest);
        assert(seq![s.first()] + rest == s);
    }
}

/// Offering an identity to a cache keeps the cache as it has to be: within
/// its capacity, with no identity twice, each of them a line of its own.
pub proof fn law_insert_keeps_valid(c: CacheState, id: Seq<char>)
    requires
        c.valid(),
        is_line(id),
    ensures
        c.inserted(id).valid(),
{
    if !c.knows(id) {
        let pushed = c.order.push(id);
        assert forall|i: int, j: int|
            0 <= i < pushed.len() && 0 <= j < pushed.len() && i != j implies pushed[i]
            != pushed[j] by {}
        assert forall|i: int| 0 <= i < pushed.len() implies is_line(#[trigger] pushed[i]) by {
            if i < c.order.len() {
                assert(pushed[i] == c.order[i]);
            }
        }
    }
}

/// Whatever identities are offered to a cache, in whatever order, it stays
/// as it has to be.
pub proof fn law_inserts_keep_valid(c: CacheState, ids: Seq<Seq<char>>)
    requires
        c.valid(),
        forall|i: int| 0 <= i < ids.len() ==> is_line(#[trigger] ids[i]),
    ensures
        c.inserted_all(ids).valid(),
    decreases ids.len(),
{
    if ids.len() > 0 {
        law_inserts_keep_valid(c, ids.drop_last());
        law_insert_keeps_valid(c.inserted_all(ids.drop_last()), ids.last());
    }
}

/// Loading leaves the cache as it has to be, whatever is stored: within its
/// capacity, with no identity twice, each of them a line of its own.
pub proof fn law_load_keeps_valid(c: CacheState, read: ReadOutcomeView)
    requires
        c.valid(),
    ensures
        c.loaded(read).valid(),
{
    if let ReadOutcomeView::Contents { text } = read {
        let all = distinct(lines(text));
        let kept = keep_last(all, c.capacity);
        lemma_distinct(lines(text));
        lemma_lines_are_lines(text);
        assert forall|i: int| 0 <= i < kept.len() implies is_line(#[trigger] kept[i]) by {
            let x = kept[i];
            assert(all[i + all.len() - kept.len()] == x);
            assert(all.contains(x));
            assert(lines(text).contains(x));
            let k = choose|k: int| 0 <= k < lines(text).len() && lines(text)[k] == x;
            assert(is_line(lines(text)[k]));
        }
    }
}

/// Loading cuts down to the newest: of a stored text with more lines than
/// the capacity, none of them twice, a cache holds after loading exactly as
/// many as its capacity, and they are the last lines of the text in the order
/// of the text.
pub proof fn law_load_keeps_newest(c: CacheState, text: Seq<char>)
    requires
        lines(text).no_duplicates(),
        lines(text).len() > c.capacity,
    ensures
        ({
            let loaded = c.loaded(ReadOutcomeView::Contents { text });
            &&& loaded.order.len() == c.capacity
            &&& forall|i: int|
                0 <= i < c.capacity ==> #[trigger] loaded.order[i] == lines(text)[lines(text).len()
                    - c.capacity + i]
        }),
{
    lemma_distinct_of_distinct(lines(text));
}

/// Saving and loading gives the cache back: a cache with room for what was
/// saved holds after loading the saved text the same identities in the same
/// order, whatever it held before, and knows exactly the identities that the
/// saved cache knows. With the same capacity it is the same cache.
pub proof fn law_save_load_round_trip(c: CacheState, other: CacheState)
    requires
        c.valid(),
        other.capacity >= c.order.len(),
    ensures
        other.loaded(ReadOutcomeView::Contents { text: c.saved() }).order == c.order,
        other.loaded(ReadOutcomeView::Contents { text: c.saved() }).members() == c.members(),
        forall|id: Seq<char>|
            other.loaded(ReadOutcomeView::Contents { text: c.saved() }).knows(id) == c.knows(id),
        other.capacity == c.capacity ==> other.loaded(
            ReadOutcomeView::Contents { text: c.saved() },
        ) == c,
{
    lemma_lines_of_joined(c.order);
    lemma_distinct_of_distinct(c.order);
}

} // verus!
