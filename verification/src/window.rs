//! The window store: one bounded, FIFO window of recent prices per
//! instrument, keyed by the instrument's identifier.
//!
//! A window holds at most `WINDOW_SIZE` prices, oldest first; appending to a
//! full window evicts the head. The store is modelled as a map from
//! identifier to window contents, and every update is pinned to one step of
//! `step_window` on that map.

use vstd::prelude::*;
use vstd::pervasive::VecAdditionalExecFns;

verus! {

/// Capacity of every per-instrument window.
pub const WINDOW_SIZE: usize = 14;

/// One update of a window: append the price, evict the oldest entry if the
/// window would exceed capacity.
pub open spec fn step_window(w: Seq<i64>, price: i64) -> Seq<i64> {
    let grown = w.push(price);
    if grown.len() > WINDOW_SIZE {
        grown.drop_first()
    } else {
        grown
    }
}

/// The window left by a whole history of prices for one instrument, oldest
/// first, starting from the empty window.
pub open spec fn run_window(prices: Seq<i64>) -> Seq<i64>
    decreases prices.len(),
{
    if prices.len() == 0 {
        Seq::empty()
    } else {
        step_window(run_window(prices.drop_last()), prices.last())
    }
}

/// The window an instrument holds in a store model, empty when the
/// instrument has not been seen.
pub open spec fn window_of(m: Map<Seq<char>, Seq<i64>>, k: Seq<char>) -> Seq<i64> {
    if m.contains_key(k) {
        m[k]
    } else {
        Seq::empty()
    }
}

/// Law: handling one more trade steps the whole-history window model by one
/// `step_window`, which is exactly what one `update` does to the stored
/// window — so the window an instrument holds after any history of trades is
/// `run_window` of that history.
pub proof fn lemma_run_window_step(prices: Seq<i64>, price: i64)
    ensures
        run_window(prices.push(price)) == step_window(run_window(prices), price),
{
    assert(prices.push(price).drop_last() =~= prices);
}

/// Law: the window left by any history is exactly its most recent
/// `WINDOW_SIZE` prices — the whole history while fewer have arrived, and
/// from the first price past capacity on, a strict suffix that no longer
/// holds the evicted oldest prices.
pub proof fn lemma_run_window_is_suffix(prices: Seq<i64>)
    ensures
        prices.len() <= WINDOW_SIZE ==> run_window(prices) == prices,
        prices.len() > WINDOW_SIZE ==> run_window(prices) == prices.subrange(
            prices.len() - WINDOW_SIZE,
            prices.len() as int,
        ),
    decreases prices.len(),
{
    if prices.len() == 0 {
        assert(run_window(prices) =~= prices);
    } else {
        let d = prices.drop_last();
        lemma_run_window_is_suffix(d);
        if prices.len() <= WINDOW_SIZE {
            assert(run_window(prices) =~= prices);
        } else {
            assert(run_window(prices) =~= prices.subrange(
                prices.len() - WINDOW_SIZE,
                prices.len() as int,
            ));
        }
    }
}

/// Law: a window never outgrows its capacity.
pub proof fn lemma_window_never_exceeds_capacity(prices: Seq<i64>)
    ensures
        run_window(prices).len() <= WINDOW_SIZE,
{
    lemma_run_window_is_suffix(prices);
}

/// Law: while an instrument has seen fewer prices than the capacity, its
/// window is not full, so no indicator is due.
pub proof fn lemma_short_history_never_full(prices: Seq<i64>)
    requires
        prices.len() < WINDOW_SIZE,
    ensures
        run_window(prices).len() < WINDOW_SIZE,
{
    lemma_run_window_is_suffix(prices);
}

/// Law: from the price that first fills the window on, the window is full
/// after every update, so each further price is answered by exactly one
/// indicator value.
pub proof fn lemma_full_history_stays_full(prices: Seq<i64>)
    requires
        prices.len() >= WINDOW_SIZE,
    ensures
        run_window(prices).len() == WINDOW_SIZE,
{
    lemma_run_window_is_suffix(prices);
}

/// One instrument's window, stored beside its identifier.
struct Entry {
    id: String,
    prices: Vec<i64>,
}

/// Per-instrument windows of recent prices. Identifiers are created lazily
/// on their first trade and never evicted; the set of instruments is
/// expected to be bounded, so the store grows with it and an eviction policy
/// is deliberately left to the owner of the process lifecycle.
pub struct WindowStore {
    entries: Vec<Entry>,
}

/// No identifier occurs twice among the entries.
spec fn distinct_keys(s: Seq<Entry>) -> bool {
    forall|i: int, j: int| 0 <= i < j < s.len() ==> s[i].id@ != s[j].id@
}

/// The map an entry sequence denotes; a later entry would win, though
/// well-formed stores never repeat a key.
spec fn as_map_rec(s: Seq<Entry>) -> Map<Seq<char>, Seq<i64>>
    decreases s.len(),
{
    if s.len() == 0 {
        Map::empty()
    } else {
        as_map_rec(s.drop_last()).insert(s.last().id@, s.last().prices@)
    }
}

proof fn lemma_as_map_contains(s: Seq<Entry>, k: Seq<char>)
    ensures
        as_map_rec(s).contains_key(k) <==> exists|i: int|
            0 <= i < s.len() && #[trigger] s[i].id@ == k,
    decreases s.len(),
{
    if s.len() > 0 {
        lemma_as_map_contains(s.drop_last(), k);
        if s.last().id@ == k {
            assert(s[s.len() - 1].id@ == k);
        } else if as_map_rec(s).contains_key(k) {
            let i = choose|i: int| 0 <= i < s.drop_last().len() && #[trigger] s.drop_last()[i].id@ == k;
            assert(s[i].id@ == k);
        } else if exists|i: int| 0 <= i < s.len() && #[trigger] s[i].id@ == k {
            let i = choose|i: int| 0 <= i < s.len() && #[trigger] s[i].id@ == k;
            assert(s.drop_last()[i].id@ == k);
        }
    }
}

proof fn lemma_as_map_get(s: Seq<Entry>, k: Seq<char>, i: int)
    requires
        distinct_keys(s),
        0 <= i < s.len(),
        s[i].id@ == k,
    ensures
        as_map_rec(s).contains_key(k),
        as_map_rec(s)[k] == s[i].prices@,
    decreases s.len(),
{
    if i == s.len() - 1 {
    } else {
        assert(s.drop_last()[i] == s[i]);
        lemma_as_map_get(s.drop_last(), k, i);
        assert(s[s.len() - 1].id@ != k);
    }
}

proof fn lemma_as_map_update(s: Seq<Entry>, i: int, e: Entry)
    requires
        distinct_keys(s),
        0 <= i < s.len(),
        s[i].id@ == e.id@,
    ensures
        as_map_rec(s.update(i, e)) == as_map_rec(s).insert(e.id@, e.prices@),
    decreases s.len(),
{
    let t = s.update(i, e);
    if i == s.len() - 1 {
        assert(t.drop_last() =~= s.drop_last());
        assert(as_map_rec(t) =~= as_map_rec(s).insert(e.id@, e.prices@));
    } else {
        assert(t.drop_last() =~= s.drop_last().update(i, e));
        assert(s.drop_last()[i] == s[i]);
        lemma_as_map_update(s.drop_last(), i, e);
        assert(s[s.len() - 1].id@ != e.id@);
        assert(t.last() == s.last());
        assert(as_map_rec(t) =~= as_map_rec(s).insert(e.id@, e.prices@));
    }
}

/// A fresh copy of a window, element for element.
fn copy_prices(v: &Vec<i64>) -> (r: Vec<i64>)
    ensures
        r@ == v@,
{
    let mut r: Vec<i64> = Vec::new();
    let mut j: usize = 0;
    while j < v.len()
        invariant
            j <= v@.len(),
            r@ == v@.take(j as int),
        decreases v@.len() - j,
    {
        r.push(v[j]);
        proof {
            assert(r@ =~= v@.take(j + 1));
        }
        j = j + 1;
    }
    proof {
        assert(r@ =~= v@);
    }
    r
}

impl View for WindowStore {
    type V = Map<Seq<char>, Seq<i64>>;

    closed spec fn view(&self) -> Map<Seq<char>, Seq<i64>> {
        as_map_rec(self.entries@)
    }
}

impl WindowStore {
    /// Keys are unique and every window respects the capacity.
    pub closed spec fn wf(self) -> bool {
        &&& distinct_keys(self.entries@)
        &&& forall|i: int|
            0 <= i < self.entries@.len() ==> #[trigger] self.entries@[i].prices@.len()
                <= WINDOW_SIZE
    }

    /// An empty store: no instrument has a window yet.
    pub fn new() -> (s: Self)
        ensures
            s.wf(),
            s@ == Map::<Seq<char>, Seq<i64>>::empty(),
    {
        WindowStore { entries: Vec::new() }
    }

    /// The index of an instrument's entry, if it has one.
    fn find(&self, instrument_id: &String) -> (r: Option<usize>)
        ensures
            match r {
                Some(i) => i < self.entries@.len() && self.entries@[i as int].id@
                    == instrument_id@,
                None => forall|i: int|
                    0 <= i < self.entries@.len() ==> self.entries@[i].id@ != instrument_id@,
            },
    {
        let mut i: usize = 0;
        while i < self.entries.len()
            invariant
                i <= self.entries@.len(),
                forall|j: int| 0 <= j < i ==> self.entries@[j].id@ != instrument_id@,
            decreases self.entries@.len() - i,
        {
            if self.entries[i].id == *instrument_id {
                return Some(i);
            }
            i = i + 1;
        }
        None
    }

    /// Appends `price` to the instrument's window, evicting the oldest price
    /// when the window would exceed capacity, and returns the resulting
    /// window contents. The window is created on the instrument's first
    /// trade; any price value is accepted; every other instrument's window
    /// is untouched.
    pub fn update(&mut self, instrument_id: &String, price: i64) -> (w: Vec<i64>)
        requires
            old(self).wf(),
        ensures
            final(self).wf(),
            w@ == step_window(window_of(old(self)@, instrument_id@), price),
            final(self)@ == old(self)@.insert(instrument_id@, w@),
            1 <= w@.len() <= WINDOW_SIZE,
    {
        match self.find(instrument_id) {
            Some(i) => {
                proof {
                    lemma_as_map_get(self.entries@, instrument_id@, i as int);
                }
                let mut prices = copy_prices(&self.entries[i].prices);
                prices.push(price);
                if prices.len() > WINDOW_SIZE {
                    prices.remove(0);
                    proof {
                        assert(prices@ =~= window_of(old(self)@, instrument_id@).push(
                            price,
                        ).drop_first());
                    }
                }
                let w = copy_prices(&prices);
                let id_copy = self.entries[i].id.clone();
                let entry = Entry { id: id_copy, prices };
                proof {
                    lemma_as_map_update(self.entries@, i as int, entry);
                }
                self.entries.set(i, entry);
                w
            },
            None => {
                proof {
                    lemma_as_map_contains(self.entries@, instrument_id@);
                }
                let mut prices: Vec<i64> = Vec::new();
                prices.push(price);
                let w = copy_prices(&prices);
                let entry = Entry { id: instrument_id.clone(), prices };
                proof {
                    assert(self.entries@.push(entry).drop_last() =~= self.entries@);
                }
                self.entries.push(entry);
                w
            },
        }
    }

    /// True exactly when the instrument's window holds `WINDOW_SIZE` prices.
    pub fn is_full(&self, instrument_id: &String) -> (r: bool)
        requires
            self.wf(),
        ensures
            r == (self@.contains_key(instrument_id@) && self@[instrument_id@].len()
                == WINDOW_SIZE),
    {
        match self.find(instrument_id) {
            Some(i) => {
                proof {
                    lemma_as_map_get(self.entries@, instrument_id@, i as int);
                }
                self.entries[i].prices.len() == WINDOW_SIZE
            },
            None => {
                proof {
                    lemma_as_map_contains(self.entries@, instrument_id@);
                }
                false
            },
        }
    }

    /// The instrument's current window contents, if it has traded.
    pub fn window(&self, instrument_id: &String) -> (r: Option<Vec<i64>>)
        requires
            self.wf(),
        ensures
            match r {
                Some(w) => self@.contains_key(instrument_id@) && w@ == self@[instrument_id@],
                None => !self@.contains_key(instrument_id@),
            },
    {
        match self.find(instrument_id) {
            Some(i) => {
                proof {
                    lemma_as_map_get(self.entries@, instrument_id@, i as int);
                }
                Some(copy_prices(&self.entries[i].prices))
            },
            None => {
                proof {
                    lemma_as_map_contains(self.entries@, instrument_id@);
                }
                None
            },
        }
    }
}

} // verus!
