//! The content-addressed asset cache. A locator (a URL) is reduced to a
//! filesystem-safe key by keeping only its alphanumeric characters; bytes are
//! cached under that key, append-only for the process lifetime. The network
//! and disk transfer itself is the embedding program's job: it asks
//! `needs_fetch`, performs the blocking fetch only on a miss, and hands the
//! bytes to `store`. Under that protocol each key is fetched at most once.

use vstd::prelude::*;

verus! {

use crate::text::copy_bytes;

/// What `char::is_alphanumeric` returns: a fact of the character alone.
pub uninterp spec fn unicode_alphanumeric(c: char) -> bool;

/// Relies on char::is_alphanumeric: whether `c` is alphanumeric under
/// Unicode, a deterministic property of the character.
pub assume_specification[ char::is_alphanumeric ](c: char) -> (r: bool)
    ensures
        r == unicode_alphanumeric(c),
;

/// The cache key of a locator: its alphanumeric characters, in order.
pub open spec fn key_of(s: Seq<char>) -> Seq<char> {
    s.filter(|c: char| unicode_alphanumeric(c))
}

/// Relies on str::chars: the characters of `s` in order, which are exactly
/// the view of `s`.
#[verifier::external_body]
fn str_chars(s: &str) -> (r: Vec<char>)
    ensures
        r@ == s@,
{
    s.chars().collect()
}

/// Derives the filesystem-safe cache key of a locator, exactly `key_of`.
pub fn cache_key(locator: &str) -> (r: Vec<char>)
    ensures
        r@ == key_of(locator@),
{
    let cs = str_chars(locator);
    let mut out: Vec<char> = Vec::new();
    let mut i: usize = 0;
    proof {
        reveal(Seq::filter);
        assert(cs@.take(0) =~= Seq::<char>::empty());
    }
    while i < cs.len()
        invariant
            0 <= i <= cs.len(),
            cs@ == locator@,
            out@ == cs@.take(i as int).filter(|c: char| unicode_alphanumeric(c)),
        decreases cs.len() - i,
    {
        let c = cs[i];
        proof {
            reveal(Seq::filter);
            assert(cs@.take(i + 1).drop_last() =~= cs@.take(i as int));
            assert(cs@.take(i + 1).last() == cs@[i as int]);
        }
        if c.is_alphanumeric() {
            out.push(c);
        }
        i = i + 1;
    }
    proof {
        assert(cs@.take(i as int) =~= cs@);
    }
    out
}

/// Whether two character strings are equal.
fn chars_eq(a: &Vec<char>, b: &Vec<char>) -> (r: bool)
    ensures
        r == (a@ == b@),
{
    if a.len() != b.len() {
        return false;
    }
    let mut i: usize = 0;
    while i < a.len()
        invariant
            0 <= i <= a.len(),
            a.len() == b.len(),
            forall|j: int| 0 <= j < i ==> a@[j] == b@[j],
        decreases a.len() - i,
    {
        if a[i] != b[i] {
            return false;
        }
        i = i + 1;
    }
    proof {
        assert(a@ =~= b@);
    }
    true
}

struct CacheEntry {
    key: Vec<char>,
    bytes: Vec<u8>,
}

/// Looking a key up among entry (key, bytes) pairs, front to back.
pub open spec fn find_rec(s: Seq<(Seq<char>, Seq<u8>)>, k: Seq<char>) -> Option<Seq<u8>>
    decreases s.len(),
{
    if s.len() == 0 {
        None
    } else if s[0].0 == k {
        Some(s[0].1)
    } else {
        find_rec(s.drop_first(), k)
    }
}

/// The process-lifetime asset cache: an append-only table from cache key to
/// the bytes fetched for it. One entry is created per network fetch, so the
/// entry keys are also the fetch history.
pub struct AssetCache {
    entries: Vec<CacheEntry>,
}

impl AssetCache {
    /// The cached (key, bytes) pairs, oldest first.
    pub closed spec fn entry_views(self) -> Seq<(Seq<char>, Seq<u8>)> {
        Seq::new(self.entries@.len(), |i: int| (self.entries@[i].key@, self.entries@[i].bytes@))
    }

    /// The keys fetched so far, in fetch order.
    pub open spec fn fetch_keys(self) -> Seq<Seq<char>> {
        Seq::new(self.entry_views().len(), |i: int| self.entry_views()[i].0)
    }

    /// The bytes cached under key `k`, if any.
    pub open spec fn spec_lookup(self, k: Seq<char>) -> Option<Seq<u8>> {
        find_rec(self.entry_views(), k)
    }

    /// Each key was fetched at most once.
    pub open spec fn wf(self) -> bool {
        self.fetch_keys().no_duplicates()
    }

    /// Whether a fetch of `locator` must touch the network: true exactly on
    /// a cache miss.
    pub open spec fn spec_needs_fetch(self, locator: Seq<char>) -> bool {
        self.spec_lookup(key_of(locator)) is None
    }

    /// An empty cache: nothing fetched yet.
    pub fn new() -> (r: AssetCache)
        ensures
            r.wf(),
            r.entry_views() =~= Seq::<(Seq<char>, Seq<u8>)>::empty(),
    {
        let r = AssetCache { entries: Vec::new() };
        proof {
            assert(r.entry_views() =~= Seq::<(Seq<char>, Seq<u8>)>::empty());
            assert(r.fetch_keys() =~= Seq::<Seq<char>>::empty());
        }
        r
    }

    /// Finds the position of key `k`, relating the scan to `find_rec`.
    fn find_index(&self, k: &Vec<char>) -> (r: Option<usize>)
        ensures
            match r {
                Some(i) => 0 <= i < self.entry_views().len() && self.entry_views()[i as int].0
                    == k@ && self.spec_lookup(k@) == Some(self.entry_views()[i as int].1),
                None => self.spec_lookup(k@) is None,
            },
    {
        let mut i: usize = 0;
        proof {
            assert(self.entry_views().skip(0) =~= self.entry_views());
        }
        while i < self.entries.len()
            invariant
                0 <= i <= self.entries.len(),
                self.entry_views().len() == self.entries@.len(),
                find_rec(self.entry_views().skip(i as int), k@) == self.spec_lookup(k@),
            decreases self.entries.len() - i,
        {
            proof {
                assert(self.entry_views().skip(i as int)[0] == self.entry_views()[i as int]);
                assert(self.entry_views().skip(i as int).drop_first() =~= self.entry_views().skip(
                    i + 1,
                ));
            }
            if chars_eq(&self.entries[i].key, k) {
                return Some(i);
            }
            i = i + 1;
        }
        proof {
            assert(self.entry_views().skip(i as int) =~= Seq::<(Seq<char>, Seq<u8>)>::empty());
        }
        None
    }

    /// Whether fetching `locator` would touch the network now.
    pub fn needs_fetch(&self, locator: &str) -> (r: bool)
        ensures
            r == self.spec_needs_fetch(locator@),
    {
        let key = cache_key(locator);
        self.find_index(&key).is_none()
    }

    /// The cached bytes for `locator`, if it was fetched before.
    pub fn lookup(&self, locator: &str) -> (r: Option<Vec<u8>>)
        ensures
            match r {
                Some(b) => self.spec_lookup(key_of(locator@)) == Some(b@),
                None => self.spec_lookup(key_of(locator@)) is None,
            },
    {
        let key = cache_key(locator);
        match self.find_index(&key) {
            Some(i) => Some(copy_bytes(&self.entries[i].bytes)),
            None => None,
        }
    }

    /// Records the bytes fetched for `locator`. On a miss this appends one
    /// entry (one fetch happened); on a hit the cache is unchanged (the
    /// protocol fetched nothing, and the first fetch's bytes stay).
    pub fn store(&mut self, locator: &str, bytes: Vec<u8>)
        requires
            old(self).wf(),
        ensures
            final(self).wf(),
            old(self).spec_needs_fetch(locator@) ==> final(self).entry_views() == old(
                self,
            ).entry_views().push((key_of(locator@), bytes@)),
            !old(self).spec_needs_fetch(locator@) ==> *final(self) == *old(self),
            final(self).spec_lookup(key_of(locator@)) is Some,
    {
        let key = cache_key(locator);
        match self.find_index(&key) {
            Some(_) => {},
            None => {
                let ghost pre = *self;
                self.entries.push(CacheEntry { key, bytes });
                proof {
                    assert(self.entry_views() =~= pre.entry_views().push(
                        (key_of(locator@), bytes@),
                    ));
                    assert(self.fetch_keys() =~= pre.fetch_keys().push(key_of(locator@)));
                    lemma_find_rec_push_absent(pre.entry_views(), key_of(locator@), bytes@);
                    lemma_find_rec_last(pre.entry_views(), key_of(locator@), bytes@);
                    lemma_absent_key_not_in_fetch_keys(pre, key_of(locator@));
                }
            },
        }
    }
}

/// A key that `find_rec` misses is found at the end after pushing it.
proof fn lemma_find_rec_last(s: Seq<(Seq<char>, Seq<u8>)>, k: Seq<char>, b: Seq<u8>)
    requires
        find_rec(s, k) is None,
    ensures
        find_rec(s.push((k, b)), k) == Some(b),
    decreases s.len(),
{
    if s.len() == 0 {
        assert(s.push((k, b))[0] == (k, b));
    } else {
        assert(s.push((k, b))[0] == s[0]);
        assert(s.push((k, b)).drop_first() =~= s.drop_first().push((k, b)));
        lemma_find_rec_last(s.drop_first(), k, b);
    }
}

/// Pushing an entry leaves every other key's lookup unchanged.
proof fn lemma_find_rec_push_absent(s: Seq<(Seq<char>, Seq<u8>)>, k: Seq<char>, b: Seq<u8>)
    ensures
        forall|k2: Seq<char>|
            k2 != k ==> #[trigger] find_rec(s.push((k, b)), k2) == find_rec(s, k2),
    decreases s.len(),
{
    assert forall|k2: Seq<char>| k2 != k implies #[trigger] find_rec(s.push((k, b)), k2)
        == find_rec(s, k2) by {
        lemma_find_rec_push_absent_one(s, k, b, k2);
    }
}

proof fn lemma_find_rec_push_absent_one(
    s: Seq<(Seq<char>, Seq<u8>)>,
    k: Seq<char>,
    b: Seq<u8>,
    k2: Seq<char>,
)
    requires
        k2 != k,
    ensures
        find_rec(s.push((k, b)), k2) == find_rec(s, k2),
    decreases s.len(),
{
    if s.len() == 0 {
        assert(s.push((k, b))[0] == (k, b));
        assert(s.push((k, b)).drop_first() =~= Seq::<(Seq<char>, Seq<u8>)>::empty());
    } else {
        assert(s.push((k, b))[0] == s[0]);
        assert(s.push((k, b)).drop_first() =~= s.drop_first().push((k, b)));
        lemma_find_rec_push_absent_one(s.drop_first(), k, b, k2);
    }
}

/// A key that `find_rec` misses occurs in no entry.
proof fn lemma_absent_key_not_in_fetch_keys(c: AssetCache, k: Seq<char>)
    requires
        find_rec(c.entry_views(), k) is None,
    ensures
        forall|i: int| 0 <= i < c.fetch_keys().len() ==> #[trigger] c.fetch_keys()[i] != k,
{
    lemma_find_rec_none_all(c.entry_views(), k);
}

proof fn lemma_find_rec_none_all(s: Seq<(Seq<char>, Seq<u8>)>, k: Seq<char>)
    requires
        find_rec(s, k) is None,
    ensures
        forall|i: int| 0 <= i < s.len() ==> (#[trigger] s[i]).0 != k,
    decreases s.len(),
{
    if s.len() > 0 {
        lemma_find_rec_none_all(s.drop_first(), k);
        assert forall|i: int| 0 <= i < s.len() implies (#[trigger] s[i]).0 != k by {
            if i > 0 {
                assert(s.drop_first()[i - 1] == s[i]);
            }
        }
    }
}

/// Idempotent fetching. For any locator: each cache key enters the fetch
/// history at most once, and once `store` has run for a locator, a later
/// `needs_fetch` of the same locator is false — a driver that fetches only
/// when `needs_fetch` holds performs at most one network request per key,
/// and every later `lookup` returns the stored bytes unchanged.
pub proof fn lemma_fetch_idempotent(c: AssetCache, locator: Seq<char>)
    requires
        c.wf(),
    ensures
        c.fetch_keys().no_duplicates(),
        c.spec_lookup(key_of(locator)) is Some ==> !c.spec_needs_fetch(locator),
{
}

} // verus!
