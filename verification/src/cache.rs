//! The bounded cache of the identities seen so far.
//!
//! The cache keeps identities in the order in which they were first seen,
//! each of them once, and forgets the oldest one when a new one would exceed
//! its capacity. It reads and writes no storage itself: `load` takes what
//! reading the storage gave, and `save` gives the text to write there.

use std::collections::VecDeque;
use std::path::PathBuf;
use vstd::prelude::*;
use crate::cache_laws::{law_insert_keeps_valid, law_load_keeps_valid};
use crate::errors::{BotError, BotErrorView};
use crate::lines::{is_line, join, join_strings, lines, non_empty_lines};
use crate::normalize::{law_identity_is_a_line, normalize_url, normalized};

verus! {

/// `std::path::PathBuf`, the location of a file. Nothing is known of a
/// value of it: a cache only holds it for its caller.
#[verifier::external_type_specification]
#[verifier::external_body]
pub struct ExPathBuf(PathBuf);

/// The newest `n` items of `s`, in order.
pub open spec fn keep_last<A>(s: Seq<A>, n: nat) -> Seq<A> {
    if s.len() > n {
        s.skip(s.len() - n)
    } else {
        s
    }
}

/// Each item of `s` once, where it stands last in `s`: an item that comes
/// again later is left out.
pub open spec fn distinct<A>(s: Seq<A>) -> Seq<A>
    decreases s.len(),
{
    if s.len() == 0 {
        s
    } else if s.drop_first().contains(s.first()) {
        distinct(s.drop_first())
    } else {
        seq![s.first()] + distinct(s.drop_first())
    }
}

/// What reading the storage of a cache gave.
#[derive(Debug, PartialEq, Eq)]
pub enum ReadOutcome {
    /// Nothing is stored there yet.
    Missing,
    /// Something is stored there and could not be read.
    Failed { detail: String },
    /// The stored text.
    Contents { text: String },
}

/// A `ReadOutcome` with its texts as character sequences.
pub enum ReadOutcomeView {
    Missing,
    Failed { detail: Seq<char> },
    Contents { text: Seq<char> },
}

impl View for ReadOutcome {
    type V = ReadOutcomeView;

    open spec fn view(&self) -> ReadOutcomeView {
        match self {
            ReadOutcome::Missing => ReadOutcomeView::Missing,
            ReadOutcome::Failed { detail } => ReadOutcomeView::Failed { detail: detail@ },
            ReadOutcome::Contents { text } => ReadOutcomeView::Contents { text: text@ },
        }
    }
}

/// What writing the text of a cache to its storage gave.
#[derive(Debug, PartialEq, Eq)]
pub enum WriteOutcome {
    /// The text is stored.
    Done,
    /// The text could not be stored.
    Failed { detail: String },
}

/// The cache as a mathematical value: its capacity and the identities it
/// holds, oldest first.
pub struct CacheState {
    pub capacity: nat,
    pub order: Seq<Seq<char>>,
}

impl CacheState {
    /// The cache of the given capacity that holds nothing.
    pub open spec fn empty(capacity: nat) -> CacheState {
        CacheState { capacity, order: Seq::empty() }
    }

    /// Whether the cache holds no more than its capacity.
    pub open spec fn bounded(self) -> bool {
        self.order.len() <= self.capacity
    }

    /// What holds of every cache: it holds no more than its capacity, no
    /// identity twice, and only identities that can stand as a line each.
    pub open spec fn valid(self) -> bool {
        &&& self.bounded()
        &&& self.order.no_duplicates()
        &&& forall|i: int| 0 <= i < self.order.len() ==> is_line(#[trigger] self.order[i])
    }

    /// The identities held, as a set.
    pub open spec fn members(self) -> Set<Seq<char>> {
        self.order.to_set()
    }

    /// Whether `id` is held.
    pub open spec fn knows(self, id: Seq<char>) -> bool {
        self.order.contains(id)
    }

    /// The cache after `id` was offered to it: unchanged where it knows `id`,
    /// else with `id` as its newest and without what no longer fits.
    pub open spec fn inserted(self, id: Seq<char>) -> CacheState {
        if self.knows(id) {
            self
        } else {
            CacheState { capacity: self.capacity, order: keep_last(self.order.push(id), self.capacity) }
        }
    }

    /// The cache after each of `ids` was offered to it in turn.
    pub open spec fn inserted_all(self, ids: Seq<Seq<char>>) -> CacheState
        decreases ids.len(),
    {
        if ids.len() == 0 {
            self
        } else {
            self.inserted_all(ids.drop_last()).inserted(ids.last())
        }
    }

    /// The cache after loading: empty where nothing is stored, unchanged
    /// where reading failed, else the newest that fit of the stored lines,
    /// each line once. Of a line that is stored more than once the newest
    /// counts.
    pub open spec fn loaded(self, read: ReadOutcomeView) -> CacheState {
        match read {
            ReadOutcomeView::Missing => CacheState::empty(self.capacity),
            ReadOutcomeView::Failed { detail } => self,
            ReadOutcomeView::Contents { text } => CacheState {
                capacity: self.capacity,
                order: keep_last(distinct(lines(text)), self.capacity),
            },
        }
    }

    /// The text that stores the cache: one identity per line, oldest first.
    pub open spec fn saved(self) -> Seq<char> {
        join(self.order, seq!['\n'])
    }
}

/// Whether `id` is among `list`. The strings are compared one by one.
fn occurs(list: &VecDeque<String>, id: &String) -> (b: bool)
    ensures
        b == list.deep_view().contains(id@),
{
    let n = list.len();
    let mut i: usize = 0;
    while i < n
        invariant
            n == list@.len(),
            i <= n,
            forall|j: int| 0 <= j < i ==> list.deep_view()[j] != id@,
        decreases n - i,
    {
        if list[i] == *id {
            assert(list.deep_view()[i as int] == id@);
            return true;
        }
        i += 1;
    }
    false
}

/// Each string of `list` once, where it stands last.
fn each_once(list: VecDeque<String>) -> (out: VecDeque<String>)
    ensures
        out.deep_view() == distinct(list.deep_view()),
{
    let ghost all = list.deep_view();
    let mut rest = list;
    let mut out: VecDeque<String> = VecDeque::new();
    assert(out.deep_view() + distinct(all) == distinct(all));
    while rest.len() > 0
        invariant
            out.deep_view() + distinct(rest.deep_view()) == distinct(all),
        decreases rest.len(),
    {
        let ghost before = rest.deep_view();
        let ghost done = out.deep_view();
        let first = rest.pop_front().unwrap();
        assert(rest.deep_view() == before.drop_first());
        assert(first@ == before.first());
        if !occurs(&rest, &first) {
            out.push_back(first);
            assert(out.deep_view() == done + seq![before.first()]);
            assert(done + (seq![before.first()] + distinct(before.drop_first())) == done
                + seq![before.first()] + distinct(before.drop_first()));
        }
    }
    assert(out.deep_view() + Seq::<Seq<char>>::empty() == out.deep_view());
    out
}

/// A cache of canonical identities that is bound to one storage location. It
/// never holds more than its capacity, and no identity twice.
pub struct UrlCache {
    filename: PathBuf,
    cache_size: usize,
    cache_list: VecDeque<String>,
}

impl View for UrlCache {
    type V = CacheState;

    closed spec fn view(&self) -> CacheState {
        CacheState { capacity: self.cache_size as nat, order: self.cache_list.deep_view() }
    }
}

impl UrlCache {
    /// What holds of every cache: it holds no more than its capacity, no
    /// identity twice, and only identities that can stand as a line each.
    #[verifier::type_invariant]
    pub open spec fn well_formed(&self) -> bool {
        self@.valid()
    }

    /// The storage location that the cache was made for.
    pub closed spec fn location(&self) -> PathBuf {
        self.filename
    }

    /// An empty cache for the storage at `filename` that holds up to
    /// `cache_size` identities.
    pub fn new(filename: PathBuf, cache_size: usize) -> (cache: Self)
        ensures
            cache@ == CacheState::empty(cache_size as nat),
            cache.location() == filename,
    {
        let cache = UrlCache { filename, cache_size, cache_list: VecDeque::new() };
        assert(cache.cache_list.deep_view() == Seq::<Seq<char>>::empty());
        cache
    }

    /// The storage location that the cache was made for.
    pub fn filename(&self) -> (path: &PathBuf)
        ensures
            *path == self.location(),
    {
        &self.filename
    }

    /// Whether `id` is held.
    fn holds(&self, id: &String) -> (b: bool)
        ensures
            b == self@.knows(id@),
    {
        occurs(&self.cache_list, id)
    }

    /// Replaces what the cache holds by what its storage held.
    ///
    /// With nothing stored the cache becomes empty. Of a stored text the
    /// non-empty lines are taken as identities, each once, and only the
    /// newest ones that fit the capacity are kept. Where reading failed the
    /// cache is left as it was and `StorageRead` is returned.
    pub fn load(&mut self, read: ReadOutcome) -> (r: Result<(), BotError>)
        ensures
            final(self).location() == old(self).location(),
            final(self)@ == old(self)@.loaded(read@),
            final(self)@.valid(),
            match read@ {
                ReadOutcomeView::Failed { detail } => r matches Err(e) && e@
                    == (BotErrorView::StorageRead { detail }),
                _ => r is Ok,
            },
    {
        proof {
            use_type_invariant(&*self);
        }
        match read {
            ReadOutcome::Missing => {
                self.cache_list = VecDeque::new();
                assert(self.cache_list.deep_view() == Seq::<Seq<char>>::empty());
                Ok(())
            },
            ReadOutcome::Failed { detail } => Err(BotError::StorageRead { detail }),
            ReadOutcome::Contents { text } => {
                proof {
                    law_load_keeps_valid(self@, read@);
                }
                let mut stored = each_once(non_empty_lines(text.as_str()));
                let ghost all = stored.deep_view();
                let n = stored.len();
                if n > self.cache_size {
                    stored = stored.split_off(n - self.cache_size);
                    assert(stored.deep_view() == all.skip(n - self.cache_size));
                }
                self.cache_list = stored;
                Ok(())
            },
        }
    }

    /// Offers the URL written as `url` to the cache and says whether it is
    /// new.
    ///
    /// Where the text has no identity the error of `normalize_url` is
    /// returned and the cache is left as it was. Where the identity is held
    /// already the answer is `false` and nothing changes. Else the identity
    /// becomes the newest one, the oldest one leaves if the capacity is
    /// exceeded, and the answer is `true`.
    pub fn insert(&mut self, url: &str) -> (r: Result<bool, BotError>)
        ensures
            final(self).location() == old(self).location(),
            final(self)@.valid(),
            match normalized(url@) {
                Ok(id) => r matches Ok(is_new) && is_new == !old(self)@.knows(id) && final(self)@
                    == old(self)@.inserted(id),
                Err(e) => r matches Err(err) && err@ == e && final(self)@ == old(self)@,
            },
    {
        proof {
            use_type_invariant(&*self);
        }
        let id = match normalize_url(url) {
            Ok(id) => id,
            Err(e) => {
                return Err(e);
            },
        };
        if self.holds(&id) {
            return Ok(false);
        }
        proof {
            law_identity_is_a_line(url@);
            law_insert_keeps_valid(self@, id@);
        }
        // The list is taken out while it changes: in between it may hold one
        // identity more than the capacity.
        let mut list: VecDeque<String> = VecDeque::new();
        std::mem::swap(&mut self.cache_list, &mut list);
        let ghost before = list.deep_view();
        list.push_back(id);
        assert(list.deep_view() == before.push(id@));
        if list.len() > self.cache_size {
            let ghost pushed = list.deep_view();
            list.pop_front();
            assert(list.deep_view() == pushed.skip(1));
        }
        std::mem::swap(&mut self.cache_list, &mut list);
        Ok(true)
    }

    /// The text to write to the storage: the identities held, oldest first,
    /// with a line feed between each two. An empty cache gives an empty text.
    pub fn save(&self) -> (text: String)
        ensures
            text@ == self@.saved(),
    {
        proof {
            reveal_strlit("\n");
        }
        assert("\n"@ == seq!['\n']);
        join_strings(&self.cache_list, "\n")
    }
}

impl WriteOutcome {
    /// What a save reports once its text was handed to the storage: success,
    /// or `StorageWrite` where writing failed.
    pub fn report(self) -> (r: Result<(), BotError>)
        ensures
            match self {
                WriteOutcome::Done => r is Ok,
                WriteOutcome::Failed { detail } => r matches Err(e) && e@
                    == (BotErrorView::StorageWrite { detail: detail@ }),
            },
    {
        match self {
            WriteOutcome::Done => Ok(()),
            WriteOutcome::Failed { detail } => Err(BotError::StorageWrite { detail }),
        }
    }
}

} // verus!
