//! A small table from text keys to `(u32, u64)` records, kept as a vector
//! with distinct keys. Sessions (token to member and creation time) and
//! login failures (user name to count and time of the first failure) use it.

use vstd::prelude::*;
use crate::text::{chars_eq, chars_of, string_of};

verus! {

struct Entry {
    key: String,
    val: (u32, u64),
}

spec fn entry_view(e: Entry) -> (Seq<char>, (u32, u64)) {
    (e.key@, e.val)
}

spec fn entries_view(s: Seq<Entry>) -> Seq<(Seq<char>, (u32, u64))> {
    s.map_values(|e: Entry| entry_view(e))
}

spec fn distinct_keys(s: Seq<(Seq<char>, (u32, u64))>) -> bool {
    forall|i: int, j: int| 0 <= i < j < s.len() ==> s[i].0 != s[j].0
}

spec fn map_of(s: Seq<(Seq<char>, (u32, u64))>) -> Map<Seq<char>, (u32, u64)>
    decreases s.len(),
{
    if s.len() == 0 {
        Map::empty()
    } else {
        map_of(s.drop_last()).insert(s.last().0, s.last().1)
    }
}

proof fn lemma_map_of(s: Seq<(Seq<char>, (u32, u64))>)
    requires
        distinct_keys(s),
    ensures
        map_of(s).dom().finite(),
        map_of(s).dom().len() == s.len(),
        forall|k: Seq<char>|
            map_of(s).dom().contains(k) <==> exists|i: int| 0 <= i < s.len() && #[trigger] s[i].0 == k,
        forall|i: int| 0 <= i < s.len() ==> #[trigger] map_of(s)[s[i].0] == s[i].1,
    decreases s.len(),
{
    if s.len() > 0 {
        let t = s.drop_last();
        assert(distinct_keys(t));
        lemma_map_of(t);
        let e = s.last();
        assert(!map_of(t).dom().contains(e.0)) by {
            if map_of(t).dom().contains(e.0) {
                let i = choose|i: int| 0 <= i < t.len() && #[trigger] t[i].0 == e.0;
                assert(s[i].0 == s[s.len() - 1].0);
            }
        }
        assert forall|k: Seq<char>|
            map_of(s).dom().contains(k) implies exists|i: int|
                0 <= i < s.len() && #[trigger] s[i].0 == k by {
            if k != e.0 {
                let i = choose|i: int| 0 <= i < t.len() && #[trigger] t[i].0 == k;
                assert(s[i].0 == k);
            } else {
                assert(s[s.len() - 1].0 == k);
            }
        }
        assert forall|k: Seq<char>|
            (exists|i: int| 0 <= i < s.len() && #[trigger] s[i].0 == k) implies map_of(
            s,
        ).dom().contains(k) by {
            let i = choose|i: int| 0 <= i < s.len() && #[trigger] s[i].0 == k;
            if i < s.len() - 1 {
                assert(t[i].0 == k);
            }
        }
        assert forall|i: int| 0 <= i < s.len() implies #[trigger] map_of(s)[s[i].0] == s[i].1 by {
            if i < s.len() - 1 {
                assert(t[i] == s[i]);
                assert(s[i].0 != e.0);
            }
        }
    }
}

/// A map from text keys to `(u32, u64)` records.
pub struct KeyTable {
    entries: Vec<Entry>,
}

/// Seconds from `t` to `now`, 0 when `t` is later (`u64::saturating_sub`).
pub open spec fn elapsed(now: u64, t: u64) -> int {
    if now >= t {
        now - t
    } else {
        0
    }
}

/// Whether a record stamped at `v.1` is younger than `window` seconds at `now`.
pub open spec fn is_recent(v: (u32, u64), now: u64, window: u64) -> bool {
    elapsed(now, v.1) < window
}

/// The records of `m` that are younger than `window` seconds at `now`.
pub open spec fn recent_part(m: Map<Seq<char>, (u32, u64)>, now: u64, window: u64) -> Map<
    Seq<char>,
    (u32, u64),
> {
    Map::new(|k: Seq<char>| m.dom().contains(k) && is_recent(m[k], now, window), |k: Seq<char>| m[k])
}

impl View for KeyTable {
    type V = Map<Seq<char>, (u32, u64)>;

    closed spec fn view(&self) -> Map<Seq<char>, (u32, u64)> {
        map_of(entries_view(self.entries@))
    }
}

fn copy_entry(e: &Entry) -> (res: Entry)
    ensures
        entry_view(res) == entry_view(*e),
{
    Entry { key: e.key.clone(), val: e.val }
}

/// The part of `m` whose entries satisfy `p`.
spec fn restrict(m: Map<Seq<char>, (u32, u64)>, p: spec_fn((Seq<char>, (u32, u64))) -> bool) -> Map<
    Seq<char>,
    (u32, u64),
> {
    Map::new(|k: Seq<char>| m.dom().contains(k) && p((k, m[k])), |k: Seq<char>| m[k])
}

proof fn lemma_filter_map(
    s: Seq<(Seq<char>, (u32, u64))>,
    p: spec_fn((Seq<char>, (u32, u64))) -> bool,
)
    requires
        distinct_keys(s),
    ensures
        distinct_keys(s.filter(p)),
        map_of(s.filter(p)) =~= restrict(map_of(s), p),
    decreases s.len(),
{
    reveal(Seq::filter);
    if s.len() > 0 {
        let t = s.drop_last();
        let e = s.last();
        assert(distinct_keys(t));
        lemma_filter_map(t, p);
        lemma_map_of(t);
        let ft = t.filter(p);
        lemma_map_of(ft);
        assert(!map_of(t).dom().contains(e.0)) by {
            if map_of(t).dom().contains(e.0) {
                let i = choose|i: int| 0 <= i < t.len() && #[trigger] t[i].0 == e.0;
                assert(s[i].0 == s[s.len() - 1].0);
            }
        }
        let mt = map_of(t);
        assert(map_of(s) == mt.insert(e.0, e.1));
        if p(e) {
            let fs = ft.push(e);
            assert(s.filter(p) == fs);
            assert(fs.drop_last() =~= ft);
            assert(map_of(fs) == map_of(ft).insert(e.0, e.1));
            assert(restrict(mt.insert(e.0, e.1), p) =~= restrict(mt, p).insert(e.0, e.1));
            assert forall|a: int, c: int| 0 <= a < c < fs.len() implies fs[a].0 != fs[c].0 by {
                if c == fs.len() - 1 {
                    assert(fs[a] == ft[a]);
                    assert(map_of(ft).dom().contains(ft[a].0));
                } else {
                    assert(fs[a] == ft[a] && fs[c] == ft[c]);
                }
            }
        } else {
            assert(s.filter(p) == ft);
            assert(restrict(mt.insert(e.0, e.1), p) =~= restrict(mt, p));
        }
    }
}

impl KeyTable {
    #[verifier::type_invariant]
    spec fn inv(self) -> bool {
        distinct_keys(entries_view(self.entries@))
    }

    /// An empty table.
    pub fn new() -> (res: KeyTable)
        ensures
            res@ == Map::<Seq<char>, (u32, u64)>::empty(),
    {
        let res = KeyTable { entries: Vec::new() };
        assert(entries_view(res.entries@) =~= Seq::empty());
        res
    }

    /// The record of a key.
    pub fn get(&self, key: &[char]) -> (res: Option<(u32, u64)>)
        ensures
            res == (if self@.dom().contains(key@) {
                Some(self@[key@])
            } else {
                None
            }),
    {
        proof {
            use_type_invariant(self);
            lemma_map_of(entries_view(self.entries@));
        }
        let ghost s = entries_view(self.entries@);
        let n = self.entries.len();
        let mut i: usize = 0;
        while i < n
            invariant
                n == self.entries@.len(),
                s == entries_view(self.entries@),
                distinct_keys(s),
                i <= n,
                forall|j: int| 0 <= j < i ==> s[j].0 != key@,
            decreases n - i,
        {
            let k = chars_of(self.entries[i].key.as_str());
            assert(s[i as int] == entry_view(self.entries@[i as int]));
            if chars_eq(k.as_slice(), key) {
                assert(s[i as int].0 == key@);
                proof {
                    lemma_map_of(s);
                    assert(self@[s[i as int].0] == s[i as int].1);
                }
                return Some(self.entries[i].val);
            }
            i = i + 1;
        }
        assert(!self@.dom().contains(key@)) by {
            if self@.dom().contains(key@) {
                let j = choose|j: int| 0 <= j < s.len() && #[trigger] s[j].0 == key@;
            }
        }
        None
    }

    /// The entries that satisfy `keep`, where `keep` either drops one key or
    /// keeps the records younger than `window` seconds at `now`.
    fn filtered(&self, drop_key: Option<&[char]>, now: u64, window: u64) -> (res: Vec<Entry>)
        ensures
            entries_view(res@) == entries_view(self.entries@).filter(
                keep_pred(key_view(drop_key), now, window),
            ),
    {
        let ghost s = entries_view(self.entries@);
        let ghost p = keep_pred(key_view(drop_key), now, window);
        let n = self.entries.len();
        let mut out: Vec<Entry> = Vec::new();
        let mut i: usize = 0;
        assert(s.take(0).filter(p) =~= Seq::empty()) by {
            reveal(Seq::filter);
        }
        while i < n
            invariant
                n == self.entries@.len(),
                s == entries_view(self.entries@),
                p == keep_pred(key_view(drop_key), now, window),
                i <= n,
                entries_view(out@) == s.take(i as int).filter(p),
            decreases n - i,
        {
            let e = &self.entries[i];
            assert(s[i as int] == entry_view(*e));
            let keep = match drop_key {
                Some(k) => {
                    let ek = chars_of(e.key.as_str());
                    !chars_eq(ek.as_slice(), k)
                },
                None => {
                    let age: u64 = if now >= e.val.1 {
                        now - e.val.1
                    } else {
                        0
                    };
                    age < window
                },
            };
            assert(keep == p(s[i as int]));
            let ghost before = entries_view(out@);
            if keep {
                out.push(copy_entry(e));
            }
            proof {
                reveal(Seq::filter);
                assert(s.take(i + 1).drop_last() =~= s.take(i as int));
                assert(s.take(i + 1).last() == s[i as int]);
                assert(entries_view(out@) =~= s.take(i + 1).filter(p));
            }
            i = i + 1;
        }
        assert(s.take(n as int) =~= s);
        out
    }

    /// Adds or replaces the record of a key.
    pub fn insert(&mut self, key: &[char], val: (u32, u64))
        ensures
            final(self)@ == old(self)@.insert(key@, val),
    {
        proof {
            use_type_invariant(&*self);
        }
        let ghost s = entries_view(self.entries@);
        let ghost p = keep_pred(Some(key@), 0, 0);
        let mut rest = self.filtered(Some(key), 0, 0);
        proof {
            lemma_filter_map(s, p);
            assert(map_of(s.filter(p)) =~= map_of(s).remove(key@));
            lemma_map_of(s.filter(p));
        }
        let ghost before = entries_view(rest@);
        rest.push(Entry { key: string_of(key), val });
        proof {
            let now = entries_view(rest@);
            assert(now =~= before.push((key@, val)));
            assert(now.drop_last() =~= before);
            assert forall|a: int, c: int| 0 <= a < c < now.len() implies now[a].0 != now[c].0 by {
                if c == now.len() - 1 {
                    assert(now[a] == before[a]);
                    assert(map_of(before).dom().contains(before[a].0));
                } else {
                    assert(now[a] == before[a] && now[c] == before[c]);
                }
            }
            assert(map_of(now) =~= map_of(s).insert(key@, val));
        }
        self.entries = rest;
    }

    /// Removes the record of a key.
    pub fn remove(&mut self, key: &[char])
        ensures
            final(self)@ == old(self)@.remove(key@),
    {
        proof {
            use_type_invariant(&*self);
        }
        let ghost s = entries_view(self.entries@);
        let ghost p = keep_pred(Some(key@), 0, 0);
        let rest = self.filtered(Some(key), 0, 0);
        proof {
            lemma_filter_map(s, p);
            assert(map_of(s.filter(p)) =~= map_of(s).remove(key@));
        }
        self.entries = rest;
    }

    /// Keeps only the records younger than `window` seconds at `now`.
    pub fn retain_recent(&mut self, now: u64, window: u64)
        ensures
            final(self)@ == recent_part(old(self)@, now, window),
    {
        proof {
            use_type_invariant(&*self);
        }
        let ghost s = entries_view(self.entries@);
        let ghost p = keep_pred(None, now, window);
        let rest = self.filtered(None, now, window);
        proof {
            lemma_filter_map(s, p);
            assert(map_of(s.filter(p)) =~= recent_part(map_of(s), now, window));
        }
        self.entries = rest;
    }

    /// The number of records younger than `window` seconds at `now`.
    pub fn count_recent(&self, now: u64, window: u64) -> (res: usize)
        ensures
            res == recent_part(self@, now, window).len(),
    {
        proof {
            use_type_invariant(self);
        }
        let ghost s = entries_view(self.entries@);
        let ghost p = keep_pred(None, now, window);
        let rest = self.filtered(None, now, window);
        proof {
            lemma_filter_map(s, p);
            lemma_map_of(s.filter(p));
            assert(map_of(s.filter(p)) =~= recent_part(map_of(s), now, window));
        }
        rest.len()
    }
}

spec fn key_view(k: Option<&[char]>) -> Option<Seq<char>> {
    match k {
        Some(k) => Some(k@),
        None => None,
    }
}

/// The entries kept by a filter: all but the key `drop_key` when given,
/// otherwise those younger than `window` seconds at `now`.
spec fn keep_pred(drop_key: Option<Seq<char>>, now: u64, window: u64) -> spec_fn(
    (Seq<char>, (u32, u64)),
) -> bool {
    |e: (Seq<char>, (u32, u64))|
        match drop_key {
            Some(k) => e.0 != k,
            None => is_recent(e.1, now, window),
        }
}

} // verus!
