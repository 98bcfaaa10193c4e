use vstd::prelude::*;

use crate::glob::{glob_match, glob_matches};
use crate::text::str_eq;

verus! {

/// `s` without later repeats of a text, first occurrences kept in order.
pub open spec fn distinct_texts(s: Seq<Seq<char>>) -> Seq<Seq<char>>
    decreases s.len(),
{
    if s.len() == 0 {
        Seq::empty()
    } else {
        let prev = distinct_texts(s.drop_last());
        if prev.contains(s.last()) {
            prev
        } else {
            prev.push(s.last())
        }
    }
}

/// The texts of `keys` that match the glob `pattern`, in order.
pub open spec fn keys_matching(keys: Seq<Seq<char>>, pattern: Seq<char>) -> Seq<Seq<char>>
    decreases keys.len(),
{
    if keys.len() == 0 {
        Seq::empty()
    } else {
        let prev = keys_matching(keys.drop_last(), pattern);
        if glob_matches(pattern, keys.last()) {
            prev.push(keys.last())
        } else {
            prev
        }
    }
}

pub proof fn lemma_distinct_texts_contains(s: Seq<Seq<char>>, k: Seq<char>)
    ensures
        distinct_texts(s).contains(k) == s.contains(k),
    decreases s.len(),
{
    if s.len() > 0 {
        lemma_distinct_texts_contains(s.drop_last(), k);
        let prev = distinct_texts(s.drop_last());
        if s.contains(k) && k != s.last() {
            let i = choose|i: int| 0 <= i < s.len() && s[i] == k;
            assert(s.drop_last()[i] == k);
        }
        if s.drop_last().contains(k) {
            let i = choose|i: int| 0 <= i < s.drop_last().len() && s.drop_last()[i] == k;
            assert(s[i] == k);
        }
        if k == s.last() {
            assert(s[s.len() - 1] == k);
        }
        if !prev.contains(s.last()) {
            assert(prev.push(s.last())[prev.len() as int] == s.last());
            if prev.contains(k) {
                let i = choose|i: int| 0 <= i < prev.len() && prev[i] == k;
                assert(prev.push(s.last())[i] == k);
            }
            if prev.push(s.last()).contains(k) && k != s.last() {
                let i = choose|i: int| 0 <= i < prev.len() + 1 && prev.push(s.last())[i] == k;
                assert(prev[i] == k);
            }
        }
    }
}

pub proof fn lemma_keys_matching_contains(s: Seq<Seq<char>>, pattern: Seq<char>, k: Seq<char>)
    ensures
        keys_matching(s, pattern).contains(k) == (s.contains(k) && glob_matches(pattern, k)),
    decreases s.len(),
{
    if s.len() > 0 {
        lemma_keys_matching_contains(s.drop_last(), pattern, k);
        let prev = keys_matching(s.drop_last(), pattern);
        if s.contains(k) && k != s.last() {
            let i = choose|i: int| 0 <= i < s.len() && s[i] == k;
            assert(s.drop_last()[i] == k);
        }
        if s.drop_last().contains(k) {
            let i = choose|i: int| 0 <= i < s.drop_last().len() && s.drop_last()[i] == k;
            assert(s[i] == k);
        }
        if k == s.last() {
            assert(s[s.len() - 1] == k);
        }
        if glob_matches(pattern, s.last()) {
            assert(prev.push(s.last())[prev.len() as int] == s.last());
            if prev.contains(k) {
                let i = choose|i: int| 0 <= i < prev.len() && prev[i] == k;
                assert(prev.push(s.last())[i] == k);
            }
            if prev.push(s.last()).contains(k) && k != s.last() {
                let i = choose|i: int| 0 <= i < prev.len() + 1 && prev.push(s.last())[i] == k;
                assert(prev[i] == k);
            }
        }
    }
}

/// The texts kept by `distinct_texts` occur once each.
pub proof fn lemma_distinct_texts_distinct(s: Seq<Seq<char>>)
    ensures
        distinct_texts(s).no_duplicates(),
    decreases s.len(),
{
    if s.len() > 0 {
        lemma_distinct_texts_distinct(s.drop_last());
        let prev = distinct_texts(s.drop_last());
        if !prev.contains(s.last()) {
            let d = prev.push(s.last());
            assert forall|i: int, j: int| 0 <= i < d.len() && 0 <= j < d.len() && i != j implies d[i]
                != d[j] by {
                if i == prev.len() {
                    assert(prev[j] == d[j]);
                } else if j == prev.len() {
                    assert(prev[i] == d[i]);
                } else {
                    assert(prev[i] == d[i] && prev[j] == d[j]);
                }
            }
        }
    }
}

/// Keeping the keys that match a pattern keeps them distinct.
pub proof fn lemma_keys_matching_distinct(s: Seq<Seq<char>>, pattern: Seq<char>)
    requires
        s.no_duplicates(),
    ensures
        keys_matching(s, pattern).no_duplicates(),
    decreases s.len(),
{
    if s.len() > 0 {
        let rest = s.drop_last();
        assert forall|i: int, j: int| 0 <= i < rest.len() && 0 <= j < rest.len() && i != j implies rest[i]
            != rest[j] by {
            assert(s[i] == rest[i] && s[j] == rest[j]);
        }
        lemma_keys_matching_distinct(rest, pattern);
        let prev = keys_matching(rest, pattern);
        if glob_matches(pattern, s.last()) {
            lemma_keys_matching_contains(rest, pattern, s.last());
            if rest.contains(s.last()) {
                let i = choose|i: int| 0 <= i < rest.len() && rest[i] == s.last();
                assert(s[i] == s[s.len() - 1]);
            }
            let d = prev.push(s.last());
            assert forall|i: int, j: int| 0 <= i < d.len() && 0 <= j < d.len() && i != j implies d[i]
                != d[j] by {
                if i == prev.len() {
                    assert(prev[j] == d[j]);
                } else if j == prev.len() {
                    assert(prev[i] == d[i]);
                } else {
                    assert(prev[i] == d[i] && prev[j] == d[j]);
                }
            }
        }
    }
}

/// Milliseconds from `from` to `now`; zero when `now` is earlier.
pub open spec fn elapsed_ms(from: u64, now: u64) -> int {
    if now >= from {
        now - from
    } else {
        0
    }
}

/// The texts of a list of strings.
pub open spec fn texts(v: Seq<String>) -> Seq<Seq<char>> {
    v.map_values(|s: String| s@)
}

/// The contents of a `LiveKeyCache`.
pub struct LiveKeyCacheView {
    pub keys: Seq<Seq<char>>,
    pub refreshed_at: u64,
    pub ttl_secs: u64,
}

/// A short-lived cache of the live-set keys found in Redis: the keys of the
/// last refresh, distinct, with the time of that refresh (in milliseconds on
/// the caller's monotonic clock).
pub struct LiveKeyCache {
    keys: Vec<String>,
    refreshed_at: u64,
    ttl_secs: u64,
}

impl View for LiveKeyCache {
    type V = LiveKeyCacheView;

    closed spec fn view(&self) -> LiveKeyCacheView {
        LiveKeyCacheView { keys: texts(self.keys@), refreshed_at: self.refreshed_at, ttl_secs: self.ttl_secs }
    }
}

/// The cache holds keys, refreshed less than its time-to-live before `now`.
pub open spec fn is_fresh(c: LiveKeyCacheView, now: u64) -> bool {
    c.keys.len() > 0 && elapsed_ms(c.refreshed_at, now) < c.ttl_secs * 1000
}

/// What a lookup with `pattern` at `now` gives: the cached keys matching the
/// pattern while the cache is fresh, else nothing (the caller refreshes).
pub open spec fn lookup_spec(c: LiveKeyCacheView, now: u64, pattern: Seq<char>) -> Option<
    Seq<Seq<char>>,
> {
    if is_fresh(c, now) {
        Some(keys_matching(c.keys, pattern))
    } else {
        None
    }
}

/// The cache after a refresh at `now` that found `keys`.
pub open spec fn refreshed_spec(c: LiveKeyCacheView, keys: Seq<Seq<char>>, now: u64) -> LiveKeyCacheView {
    LiveKeyCacheView { keys: distinct_texts(keys), refreshed_at: now, ttl_secs: c.ttl_secs }
}

impl LiveKeyCache {
    #[verifier::type_invariant]
    spec fn keys_distinct(&self) -> bool {
        texts(self.keys@).no_duplicates()
    }

    /// An empty cache whose entries live `ttl_secs` seconds.
    pub fn new(ttl_secs: u64) -> (r: Self)
        ensures
            r@.keys.len() == 0,
            r@.keys.no_duplicates(),
            r@.ttl_secs == ttl_secs,
    {
        let r = LiveKeyCache { keys: Vec::new(), refreshed_at: 0, ttl_secs };
        assert(texts(r.keys@) =~= Seq::<Seq<char>>::empty());
        r
    }

    /// The cached keys that match `pattern`, each once, while the cache is
    /// fresh at `now`; none when it is stale or empty.
    pub fn cached_keys(&self, now: u64, pattern: &str) -> (r: Option<Vec<String>>)
        ensures
            self@.keys.no_duplicates(),
            match r {
                Some(v) => lookup_spec(self@, now, pattern@) == Some(texts(v@)) && texts(
                    v@,
                ).no_duplicates(),
                None => lookup_spec(self@, now, pattern@) is None,
            },
    {
        proof {
            use_type_invariant(self);
            lemma_keys_matching_distinct(texts(self.keys@), pattern@);
        }
        let elapsed: u64 = if now >= self.refreshed_at {
            now - self.refreshed_at
        } else {
            0
        };
        if self.keys.len() == 0 || (elapsed as u128) >= (self.ttl_secs as u128) * 1000 {
            return None;
        }
        let mut out: Vec<String> = Vec::new();
        let mut i: usize = 0;
        let ghost ks = texts(self.keys@);
        assert(ks.take(0) =~= Seq::<Seq<char>>::empty());
        assert(texts(out@) =~= Seq::<Seq<char>>::empty());
        while i < self.keys.len()
            invariant
                ks == texts(self.keys@),
                i <= self.keys.len(),
                texts(out@) == keys_matching(ks.take(i as int), pattern@),
            decreases self.keys.len() - i,
        {
            proof {
                assert(ks.take(i + 1).drop_last() =~= ks.take(i as int));
                assert(ks.take(i + 1).last() == self.keys@[i as int]@);
            }
            let ghost before = texts(out@);
            if glob_match(pattern, self.keys[i].as_str()) {
                out.push(self.keys[i].clone());
                assert(texts(out@) =~= before.push(self.keys@[i as int]@));
            }
            i = i + 1;
        }
        assert(ks.take(self.keys.len() as int) =~= ks);
        Some(out)
    }

    /// Replaces the cached keys by `keys` (each once), found at `now`;
    /// gives `keys` back.
    pub fn refresh(&mut self, keys: Vec<String>, now: u64) -> (r: Vec<String>)
        ensures
            final(self)@ == refreshed_spec(old(self)@, texts(keys@), now),
            final(self)@.keys.no_duplicates(),
            r@ == keys@,
    {
        let mut stored: Vec<String> = Vec::new();
        let mut i: usize = 0;
        let ghost ks = texts(keys@);
        assert(ks.take(0) =~= Seq::<Seq<char>>::empty());
        assert(texts(stored@) =~= Seq::<Seq<char>>::empty());
        while i < keys.len()
            invariant
                ks == texts(keys@),
                i <= keys.len(),
                texts(stored@) == distinct_texts(ks.take(i as int)),
                texts(stored@).no_duplicates(),
            decreases keys.len() - i,
        {
            proof {
                assert(ks.take(i + 1).drop_last() =~= ks.take(i as int));
                assert(ks.take(i + 1).last() == keys@[i as int]@);
            }
            let ghost before = texts(stored@);
            let mut seen = false;
            let mut j: usize = 0;
            while j < stored.len()
                invariant
                    j <= stored.len(),
                    i < keys.len(),
                    seen <==> exists|k: int| 0 <= k < j && texts(stored@)[k] == keys@[i as int]@,
                decreases stored.len() - j,
            {
                assert(texts(stored@)[j as int] == stored@[j as int]@);
                if str_eq(stored[j].as_str(), keys[i].as_str()) {
                    seen = true;
                }
                j = j + 1;
            }
            proof {
                if seen {
                    assert(before.contains(keys@[i as int]@));
                } else {
                    assert forall|k: int| 0 <= k < before.len() implies before[k] != keys@[i as int]@ by {}
                    assert(!before.contains(keys@[i as int]@));
                }
            }
            if !seen {
                stored.push(keys[i].clone());
                proof {
                    assert(texts(stored@) =~= before.push(keys@[i as int]@));
                    assert forall|a: int, b: int|
                        0 <= a < b < texts(stored@).len() implies texts(stored@)[a] != texts(
                        stored@,
                    )[b] by {
                        if b == before.len() {
                            assert(before[a] == texts(stored@)[a]);
                        } else {
                            assert(before[a] == texts(stored@)[a]);
                            assert(before[b] == texts(stored@)[b]);
                        }
                    }
                }
            }
            i = i + 1;
        }
        assert(ks.take(keys.len() as int) =~= ks);
        self.keys = stored;
        self.refreshed_at = now;
        keys
    }
}

} // verus!
