//! The icon cache: a bounded least-recently-used store of fetched icons,
//! keyed by service name, and how an icon reference is resolved through it.
//!
//! Fetching is the caller's part: where a lookup needs the network it answers
//! `Fetch`, and the caller hands the outcome back.

use vstd::prelude::*;
use base64::Engine;
use lru::LruCache;
use crate::config::{IconCacheConfig, IconMode};
use crate::text::{has_prefix, starts_with};
use vstd::utf8::encode_utf8;

verus! {

#[verifier::external_type_specification]
#[verifier::external_body]
#[verifier::reject_recursive_types(K)]
#[verifier::reject_recursive_types(V)]
#[verifier::reject_recursive_types(S)]
pub struct ExLruCache<K, V, S>(lru::LruCache<K, V, S>);

/// A fetched icon: its content type and its bytes.
#[derive(Debug, Clone)]
pub struct CachedIcon {
    pub content_type: String,
    pub data: Vec<u8>,
}

/// The content type and bytes of an icon.
pub open spec fn icon_view(c: CachedIcon) -> (Seq<char>, Seq<u8>) {
    (c.content_type@, c.data@)
}

/// An entry of the cache: service name, then content type and bytes.
pub type IconEntry = (Seq<char>, (Seq<char>, Seq<u8>));

/// The entries of an LRU cache, most recently used first.
pub uninterp spec fn lru_entries(c: LruCache<String, CachedIcon>) -> Seq<IconEntry>;

/// The capacity an LRU cache was made with.
pub uninterp spec fn lru_capacity(c: LruCache<String, CachedIcon>) -> nat;

/// What `base64` (standard alphabet, padded) makes of some bytes.
pub uninterp spec fn base64_of(b: Seq<u8>) -> Seq<char>;

/// Icons of this many bytes (1 GiB) or more are not cached or encoded; the
/// bound keeps the base64 text within `usize` on every target.
pub const MAX_ICON_BYTES: usize = 0x4000_0000;

/// Whether some entry has key `k`.
pub open spec fn has_key(s: Seq<IconEntry>, k: Seq<char>) -> bool {
    exists|i: int| 0 <= i < s.len() && (#[trigger] s[i]).0 == k
}

/// The position of the entry with key `k`.
pub open spec fn key_pos(s: Seq<IconEntry>, k: Seq<char>) -> int {
    choose|i: int| 0 <= i < s.len() && (#[trigger] s[i]).0 == k
}

/// The entries after key `k` is used: its entry moves to the front.
pub open spec fn touched(s: Seq<IconEntry>, k: Seq<char>) -> Seq<IconEntry> {
    if has_key(s, k) {
        seq![s[key_pos(s, k)]] + s.remove(key_pos(s, k))
    } else {
        s
    }
}

/// The entries after `(k, v)` is put: an entry with key `k` is replaced and
/// moves to the front; otherwise the new entry goes in front, and when the
/// cache is full the least recently used entry (the last) is evicted.
pub open spec fn put_entry(s: Seq<IconEntry>, cap: nat, k: Seq<char>, v: (Seq<char>, Seq<u8>)) -> Seq<
    IconEntry,
> {
    if has_key(s, k) {
        seq![(k, v)] + s.remove(key_pos(s, k))
    } else if s.len() >= cap {
        seq![(k, v)] + s.drop_last()
    } else {
        seq![(k, v)] + s
    }
}

/// Relies on `lru::LruCache::new`: an empty cache of capacity `cap`.
#[verifier::external_body]
fn lru_new(cap: usize) -> (r: LruCache<String, CachedIcon>)
    requires
        cap > 0,
    ensures
        lru_entries(r) == Seq::<IconEntry>::empty(),
        lru_capacity(r) == cap,
{
    LruCache::new(std::num::NonZeroUsize::new(cap).unwrap())
}

/// Relies on `lru::LruCache::put`: replaces an entry with the same key and
/// moves it to the front, or adds the entry in front, evicting the least
/// recently used entry when the cache is full.
#[verifier::external_body]
fn lru_put(c: &mut LruCache<String, CachedIcon>, k: String, v: CachedIcon)
    ensures
        lru_entries(*final(c)) == put_entry(lru_entries(*old(c)), lru_capacity(*old(c)), k@, icon_view(v)),
        lru_capacity(*final(c)) == lru_capacity(*old(c)),
{
    c.put(k, v);
}

/// Relies on `lru::LruCache::get`: the value under `k`, whose entry moves to
/// the front; nothing changes when `k` is absent.
#[verifier::external_body]
fn lru_get(c: &mut LruCache<String, CachedIcon>, k: &str) -> (r: Option<CachedIcon>)
    ensures
        lru_entries(*final(c)) == touched(lru_entries(*old(c)), k@),
        lru_capacity(*final(c)) == lru_capacity(*old(c)),
        match r {
            Some(v) => has_key(lru_entries(*old(c)), k@) && icon_view(v) == lru_entries(
                *old(c),
            )[key_pos(lru_entries(*old(c)), k@)].1,
            None => !has_key(lru_entries(*old(c)), k@),
        },
{
    c.get(k).cloned()
}

/// Relies on `lru::LruCache::contains`: whether `k` has an entry; the order
/// of use is left as it is.
#[verifier::external_body]
fn lru_contains(c: &LruCache<String, CachedIcon>, k: &str) -> (r: bool)
    ensures
        r == has_key(lru_entries(*c), k@),
{
    c.contains(k)
}

/// Relies on `lru::LruCache::len`: the number of entries.
#[verifier::external_body]
fn lru_len(c: &LruCache<String, CachedIcon>) -> (r: usize)
    ensures
        r == lru_entries(*c).len(),
{
    c.len()
}

/// Relies on `lru::LruCache::iter`: the entries, most recently used first.
#[verifier::external_body]
fn lru_list(c: &LruCache<String, CachedIcon>) -> (r: Vec<(String, CachedIcon)>)
    ensures
        r@.len() == lru_entries(*c).len(),
        forall|i: int|
            0 <= i < r@.len() ==> (#[trigger] r@[i].0@, icon_view(r@[i].1)) == lru_entries(*c)[i],
{
    c.iter().map(|(k, v)| (k.clone(), v.clone())).collect()
}

/// Relies on `base64::engine::general_purpose::STANDARD.encode`: the padded
/// standard base64 text of the bytes.
#[verifier::external_body]
fn encode_base64(b: &Vec<u8>) -> (r: String)
    requires
        b@.len() < MAX_ICON_BYTES,
    ensures
        r@ == base64_of(b@),
{
    base64::engine::general_purpose::STANDARD.encode(b)
}

/// The data URL of an icon.
pub open spec fn data_url_of(v: (Seq<char>, Seq<u8>)) -> Seq<char> {
    "data:"@ + v.0 + ";base64,"@ + base64_of(v.1)
}

impl CachedIcon {
    /// The icon as a data URL: `data:<type>;base64,<bytes>`.
    pub fn to_data_url(&self) -> (r: String)
        requires
            self.data@.len() < MAX_ICON_BYTES,
        ensures
            r@ == data_url_of(icon_view(*self)),
    {
        let encoded = encode_base64(&self.data);
        String::from_str("data:").concat(self.content_type.as_str()).concat(";base64,").concat(
            encoded.as_str(),
        )
    }

    /// The bytes the icon takes: content type (UTF-8) and data.
    pub fn size_bytes(&self) -> (r: usize)
        ensures
            r == sat(utf8_len(self.content_type@) + self.data@.len()),
    {
        sat_add(self.content_type.as_str().len(), self.data.len())
    }
}

/// The number of bytes of the UTF-8 form of a text, as `str::len` gives it.
pub open spec fn utf8_len(s: Seq<char>) -> int {
    (encode_utf8(s).len() as usize) as int
}

/// A byte count, held at `usize::MAX` when larger.
pub open spec fn sat(x: int) -> int {
    if x > usize::MAX as int { usize::MAX as int } else { x }
}

/// Adds two byte counts, held at `usize::MAX`.
fn sat_add(a: usize, b: usize) -> (r: usize)
    ensures
        r == sat(a + b),
{
    if a > usize::MAX - b {
        usize::MAX
    } else {
        a + b
    }
}

/// No two entries share a key.
pub open spec fn keys_distinct(s: Seq<IconEntry>) -> bool {
    forall|i: int, j: int| 0 <= i < j < s.len() ==> (#[trigger] s[i]).0 != (#[trigger] s[j]).0
}

/// Every stored icon is smaller than `MAX_ICON_BYTES`.
pub open spec fn sizes_bounded(s: Seq<IconEntry>) -> bool {
    forall|i: int| 0 <= i < s.len() ==> (#[trigger] s[i]).1.1.len() < MAX_ICON_BYTES
}

/// With distinct keys, an entry is found at its own position.
proof fn lemma_key_pos(s: Seq<IconEntry>, i: int)
    requires
        keys_distinct(s),
        0 <= i < s.len(),
    ensures
        has_key(s, s[i].0),
        key_pos(s, s[i].0) == i,
{
    assert(s[i].0 == s[i].0);
    let p = key_pos(s, s[i].0);
    if p < i {
        assert(s[p].0 != s[i].0);
    } else if i < p {
        assert(s[i].0 != s[p].0);
    }
}

/// Moving one entry to the front keeps the entries' properties.
proof fn lemma_front(s: Seq<IconEntry>, p: int, x: IconEntry)
    requires
        keys_distinct(s),
        sizes_bounded(s),
        0 <= p < s.len(),
        x.0 == s[p].0,
        x.1.1.len() < MAX_ICON_BYTES,
    ensures
        keys_distinct(seq![x] + s.remove(p)),
        sizes_bounded(seq![x] + s.remove(p)),
        (seq![x] + s.remove(p)).len() == s.len(),
        forall|k: Seq<char>| has_key(seq![x] + s.remove(p), k) == has_key(s, k),
{
    let t = seq![x] + s.remove(p);
    assert forall|a: int, b: int| 0 <= a < b < t.len() implies (#[trigger] t[a]).0 != (
    #[trigger] t[b]).0 by {
        let b2 = if b - 1 < p { b - 1 } else { b };
        assert(t[b] == s[b2]);
        if a == 0 {
            assert(b2 != p);
            if b2 < p {
                assert(s[b2].0 != s[p].0);
            } else {
                assert(s[p].0 != s[b2].0);
            }
        } else {
            let a2 = if a - 1 < p { a - 1 } else { a };
            assert(t[a] == s[a2]);
            assert(a2 < b2);
        }
    }
    assert forall|a: int| 0 <= a < t.len() implies (#[trigger] t[a]).1.1.len() < MAX_ICON_BYTES by {
        if a > 0 {
            let a2 = if a - 1 < p { a - 1 } else { a };
            assert(t[a] == s[a2]);
        }
    }
    assert forall|k: Seq<char>| has_key(t, k) == has_key(s, k) by {
        if has_key(s, k) {
            let i = choose|i: int| 0 <= i < s.len() && (#[trigger] s[i]).0 == k;
            if i == p {
                assert(t[0].0 == k);
            } else if i < p {
                assert(t[i + 1] == s[i]);
            } else {
                assert(t[i] == s[i]);
            }
        }
        if has_key(t, k) {
            let a = choose|a: int| 0 <= a < t.len() && (#[trigger] t[a]).0 == k;
            if a == 0 {
                assert(s[p].0 == k);
            } else {
                let a2 = if a - 1 < p { a - 1 } else { a };
                assert(t[a] == s[a2]);
            }
        }
    }
}

/// Using a key keeps the entries' properties and their keys.
proof fn lemma_touched(s: Seq<IconEntry>, k: Seq<char>)
    requires
        keys_distinct(s),
        sizes_bounded(s),
    ensures
        keys_distinct(touched(s, k)),
        sizes_bounded(touched(s, k)),
        touched(s, k).len() == s.len(),
        forall|j: Seq<char>| has_key(touched(s, k), j) == has_key(s, j),
{
    if has_key(s, k) {
        let p = key_pos(s, k);
        lemma_front(s, p, s[p]);
    }
}

/// Putting an entry keeps the entries' properties; the key is then present.
proof fn lemma_put(s: Seq<IconEntry>, cap: nat, k: Seq<char>, v: (Seq<char>, Seq<u8>))
    requires
        keys_distinct(s),
        sizes_bounded(s),
        s.len() <= cap,
        cap > 0,
        v.1.len() < MAX_ICON_BYTES,
    ensures
        keys_distinct(put_entry(s, cap, k, v)),
        sizes_bounded(put_entry(s, cap, k, v)),
        put_entry(s, cap, k, v).len() <= cap,
        has_key(put_entry(s, cap, k, v), k),
        put_entry(s, cap, k, v)[0] == (k, v),
{
    let t = put_entry(s, cap, k, v);
    assert(t[0] == (k, v));
    if has_key(s, k) {
        let p = key_pos(s, k);
        lemma_front(s, p, (k, v));
    } else {
        let rest = if s.len() >= cap { s.drop_last() } else { s };
        assert(t == seq![(k, v)] + rest);
        assert forall|a: int, b: int| 0 <= a < b < t.len() implies (#[trigger] t[a]).0 != (
        #[trigger] t[b]).0 by {
            assert(t[b] == s[b - 1]);
            if a == 0 {
                assert(!((s[b - 1]).0 == k));
            } else {
                assert(t[a] == s[a - 1]);
            }
        }
        assert forall|a: int| 0 <= a < t.len() implies (#[trigger] t[a]).1.1.len() < MAX_ICON_BYTES by {
            if a > 0 {
                assert(t[a] == s[a - 1]);
            }
        }
    }
    assert(t[0].0 == k);
}

/// Least-recently-used eviction: a new key put into a full cache evicts the
/// entry used least recently (the last), and only it; using a key makes it
/// the most recently used, so that it outlives every other entry when new
/// keys arrive.
pub proof fn lemma_lru_order(s: Seq<IconEntry>, cap: nat, k: Seq<char>, v: (Seq<char>, Seq<u8>), used: Seq<char>)
    requires
        keys_distinct(s),
        sizes_bounded(s),
        s.len() == cap,
        cap >= 2,
        !has_key(s, k),
        v.1.len() < MAX_ICON_BYTES,
        has_key(s, used),
        used != k,
    ensures
        !has_key(put_entry(s, cap, k, v), s.last().0),
        forall|j: Seq<char>|
            j != s.last().0 && has_key(s, j) ==> has_key(put_entry(s, cap, k, v), j),
        touched(s, used)[0].0 == used,
        has_key(put_entry(touched(s, used), cap, k, v), used),
{
    let t = put_entry(s, cap, k, v);
    assert(t == seq![(k, v)] + s.drop_last());
    assert(!has_key(t, s.last().0)) by {
        if has_key(t, s.last().0) {
            let a = choose|a: int| 0 <= a < t.len() && (#[trigger] t[a]).0 == s.last().0;
            if a == 0 {
                assert(s[s.len() - 1].0 == k);
            } else {
                assert(t[a] == s[a - 1]);
                assert(s[a - 1].0 != s[s.len() - 1].0);
            }
        }
    }
    assert forall|j: Seq<char>| j != s.last().0 && has_key(s, j) implies has_key(t, j) by {
        let i = choose|i: int| 0 <= i < s.len() && (#[trigger] s[i]).0 == j;
        assert(i != s.len() - 1);
        assert(t[i + 1] == s[i]);
    }
    let p = key_pos(s, used);
    lemma_touched(s, used);
    let u = touched(s, used);
    assert(u[0].0 == used);
    assert(!has_key(u, k));
    let w = put_entry(u, cap, k, v);
    assert(w == seq![(k, v)] + u.drop_last());
    assert(w[1] == u[0]);
}

/// What a lookup of an icon leads to.
#[derive(Debug)]
pub enum IconStep {
    /// The resolved icon reference.
    Ready(String),
    /// The icon must be fetched from the reference, and the outcome handed
    /// back to the cache.
    Fetch,
}

/// What a check for a cached icon leads to.
#[derive(Debug, Clone, Copy, PartialEq, Eq, Structural)]
pub enum EnsureStep {
    /// The icon is cached.
    Cached,
    /// The reference is empty or inline: there is nothing to fetch.
    Unavailable,
    /// The icon must be fetched and the outcome handed back.
    Fetch,
}

/// The icon cache: fetched icons by service name, least recently used evicted
/// first once the capacity is reached.
pub struct IconCache {
    cache: LruCache<String, CachedIcon>,
}

impl IconCache {
    /// The entries, most recently used first.
    pub closed spec fn entries(&self) -> Seq<IconEntry> {
        lru_entries(self.cache)
    }

    /// The capacity.
    pub closed spec fn capacity(&self) -> nat {
        lru_capacity(self.cache)
    }

    /// Entries are keyed uniquely, bounded in number and in size.
    pub open spec fn wf(&self) -> bool {
        &&& self.capacity() > 0
        &&& self.entries().len() <= self.capacity()
        &&& keys_distinct(self.entries())
        &&& sizes_bounded(self.entries())
    }

    /// An empty cache holding at most `capacity` icons.
    pub fn new(capacity: usize) -> (r: IconCache)
        requires
            capacity > 0,
        ensures
            r.wf(),
            r.capacity() == capacity,
            r.entries().len() == 0,
    {
        IconCache { cache: lru_new(capacity) }
    }

    /// An empty cache holding at most `capacity` icons, or `None` when the
    /// capacity is zero.
    pub fn with_capacity(capacity: usize) -> (r: Option<IconCache>)
        ensures
            capacity == 0 <==> r is None,
            r matches Some(c) ==> c.wf() && c.capacity() == capacity && c.entries().len() == 0,
    {
        if capacity == 0 {
            None
        } else {
            Some(IconCache::new(capacity))
        }
    }

    /// Looks an icon up for embedding. An empty reference resolves to the
    /// empty text, an inline data URL to itself (and is never cached); a
    /// cached icon resolves to its data URL and becomes the most recently
    /// used; any other reference must be fetched.
    pub fn get_icon(&mut self, service_name: &str, icon_url: &str) -> (r: IconStep)
        requires
            old(self).wf(),
        ensures
            final(self).wf(),
            final(self).capacity() == old(self).capacity(),
            icon_url@.len() == 0 ==> (r matches IconStep::Ready(t) && t@.len() == 0
                && final(self).entries() == old(self).entries()),
            has_prefix(icon_url@, "data:"@) ==> (r matches IconStep::Ready(t) && t@ == icon_url@
                && final(self).entries() == old(self).entries()),
            icon_url@.len() > 0 && !has_prefix(icon_url@, "data:"@) ==> if has_key(
                old(self).entries(),
                service_name@,
            ) {
                &&& r matches IconStep::Ready(t) && t@ == data_url_of(
                    old(self).entries()[key_pos(old(self).entries(), service_name@)].1,
                )
                &&& final(self).entries() == touched(old(self).entries(), service_name@)
            } else {
                r is Fetch && final(self).entries() == old(self).entries()
            },
    {
        if icon_url.unicode_len() == 0 {
            return IconStep::Ready(String::new());
        }
        if starts_with(icon_url, "data:") {
            return IconStep::Ready(icon_url.to_owned());
        }
        proof {
            lemma_touched(self.entries(), service_name@);
        }
        match lru_get(&mut self.cache, service_name) {
            Some(icon) => {
                proof {
                    let s = old(self).entries();
                    let p = key_pos(s, service_name@);
                    assert(sizes_bounded(s));
                    assert(s[p].1.1.len() < MAX_ICON_BYTES);
                }
                IconStep::Ready(icon.to_data_url())
            },
            None => IconStep::Fetch,
        }
    }

    /// Takes the outcome of fetching an icon for embedding. A fetched icon
    /// (under `MAX_ICON_BYTES`) is stored under the service name and resolves
    /// to its data URL; on a failed fetch the reference is returned as it is
    /// and nothing is stored.
    pub fn store_icon(&mut self, service_name: &str, icon_url: &str, fetched: Result<CachedIcon, String>) -> (r:
        String)
        requires
            old(self).wf(),
        ensures
            final(self).wf(),
            final(self).capacity() == old(self).capacity(),
            match fetched {
                Ok(icon) => if icon.data@.len() < MAX_ICON_BYTES {
                    &&& r@ == data_url_of(icon_view(icon))
                    &&& final(self).entries() == put_entry(
                        old(self).entries(),
                        old(self).capacity(),
                        service_name@,
                        icon_view(icon),
                    )
                } else {
                    r@ == icon_url@ && final(self).entries() == old(self).entries()
                },
                Err(_) => r@ == icon_url@ && final(self).entries() == old(self).entries(),
            },
    {
        match fetched {
            Ok(icon) => {
                if icon.data.len() >= MAX_ICON_BYTES {
                    return icon_url.to_owned();
                }
                let url = icon.to_data_url();
                proof {
                    lemma_put(self.entries(), self.capacity(), service_name@, icon_view(icon));
                }
                lru_put(&mut self.cache, service_name.to_owned(), icon);
                url
            },
            Err(_) => icon_url.to_owned(),
        }
    }

    /// Whether the icon of a service is cached, or else whether it can be
    /// fetched. The order of use is left as it is.
    pub fn ensure_cached(&self, service_name: &str, icon_url: &str) -> (r: EnsureStep)
        requires
            self.wf(),
        ensures
            has_key(self.entries(), service_name@) ==> r == EnsureStep::Cached,
            !has_key(self.entries(), service_name@) ==> if icon_url@.len() == 0 || has_prefix(
                icon_url@,
                "data:"@,
            ) {
                r == EnsureStep::Unavailable
            } else {
                r == EnsureStep::Fetch
            },
    {
        if lru_contains(&self.cache, service_name) {
            return EnsureStep::Cached;
        }
        if icon_url.unicode_len() == 0 || starts_with(icon_url, "data:") {
            return EnsureStep::Unavailable;
        }
        EnsureStep::Fetch
    }

    /// Takes the outcome of a fetch made for `ensure_cached`: a fetched icon
    /// (under `MAX_ICON_BYTES`) is stored; returns whether the icon is now
    /// cached.
    pub fn store_fetched(&mut self, service_name: &str, fetched: Result<CachedIcon, String>) -> (r: bool)
        requires
            old(self).wf(),
        ensures
            final(self).wf(),
            final(self).capacity() == old(self).capacity(),
            match fetched {
                Ok(icon) => if icon.data@.len() < MAX_ICON_BYTES {
                    r && final(self).entries() == put_entry(
                        old(self).entries(),
                        old(self).capacity(),
                        service_name@,
                        icon_view(icon),
                    )
                } else {
                    !r && final(self).entries() == old(self).entries()
                },
                Err(_) => !r && final(self).entries() == old(self).entries(),
            },
    {
        match fetched {
            Ok(icon) => {
                if icon.data.len() >= MAX_ICON_BYTES {
                    return false;
                }
                proof {
                    lemma_put(self.entries(), self.capacity(), service_name@, icon_view(icon));
                }
                lru_put(&mut self.cache, service_name.to_owned(), icon);
                true
            },
            Err(_) => false,
        }
    }

    /// The cached icon of a service, which becomes the most recently used;
    /// `None` when it is not cached (nothing is fetched).
    pub fn get_raw(&mut self, service_name: &str) -> (r: Option<CachedIcon>)
        requires
            old(self).wf(),
        ensures
            final(self).wf(),
            final(self).capacity() == old(self).capacity(),
            final(self).entries() == touched(old(self).entries(), service_name@),
            match r {
                Some(icon) => has_key(old(self).entries(), service_name@) && icon_view(icon)
                    == old(self).entries()[key_pos(old(self).entries(), service_name@)].1,
                None => !has_key(old(self).entries(), service_name@),
            },
    {
        proof {
            lemma_touched(self.entries(), service_name@);
        }
        lru_get(&mut self.cache, service_name)
    }

    /// The number of cached icons.
    pub fn cache_size(&self) -> (r: usize)
        ensures
            r == self.entries().len(),
    {
        lru_len(&self.cache)
    }

    /// The bytes the cache holds: names, content types and icon data, held
    /// at `usize::MAX` when larger.
    pub fn memory_usage(&self) -> (r: usize)
        ensures
            r == sat(memory_of(self.entries())),
    {
        let list = lru_list(&self.cache);
        let ghost es = self.entries();
        let n = list.len();
        let mut acc: usize = 0;
        let mut i: usize = 0;
        while i < n
            invariant
                n == list@.len(),
                es == self.entries(),
                list@.len() == es.len(),
                forall|k: int| 0 <= k < n ==> (#[trigger] list@[k].0@, icon_view(list@[k].1)) == es[k],
                0 <= i <= n,
                acc == sat(memory_of(es.subrange(0, i as int))),
            decreases n - i,
        {
            let e = &list[i];
            let one = sat_add(sat_add(e.0.as_str().len(), e.1.content_type.as_str().len()), e.1.data.len());
            proof {
                assert(es.subrange(0, i + 1).drop_last() =~= es.subrange(0, i as int));
                assert((list@[i as int].0@, icon_view(list@[i as int].1)) == es[i as int]);
                lemma_memory_nonneg(es.subrange(0, i as int));
            }
            acc = sat_add(acc, one);
            proof {
                let prev = memory_of(es.subrange(0, i as int));
                let x = entry_bytes(es[i as int]);
                assert(x >= 0);
                assert(sat(sat(prev) + sat(x)) == sat(prev + x));
            }
            i += 1;
        }
        assert(es.subrange(0, n as int) =~= es);
        acc
    }

    /// Count, total and spread of the cached icons' data sizes.
    pub fn stats(&self) -> (r: IconCacheStats)
        ensures
            ({
                let sizes = data_sizes(self.entries());
                &&& r.count == sizes.len()
                &&& r.total_bytes == sat(sum_sizes(sizes))
                &&& sizes.len() == 0 ==> r.min_bytes == 0 && r.max_bytes == 0 && r.median_bytes == 0
                    && r.avg_bytes == 0
                &&& sizes.len() > 0 ==> exists|sorted: Seq<usize>|
                    {
                        &&& sorted.to_multiset() == sizes.to_multiset()
                        &&& sorted_ascending(sorted)
                        &&& r.min_bytes == sorted[0]
                        &&& r.max_bytes == sorted.last()
                        &&& r.median_bytes as int == median_of(sorted)
                        &&& r.avg_bytes == r.total_bytes as int / sizes.len() as int
                    }
            }),
    {
        let list = lru_list(&self.cache);
        let ghost es = self.entries();
        let n = list.len();
        let mut sizes: Vec<usize> = Vec::new();
        let mut i: usize = 0;
        while i < n
            invariant
                n == list@.len(),
                list@.len() == es.len(),
                es == self.entries(),
                forall|k: int| 0 <= k < n ==> (#[trigger] list@[k].0@, icon_view(list@[k].1)) == es[k],
                0 <= i <= n,
                sizes@ == data_sizes(es.subrange(0, i as int)),
            decreases n - i,
        {
            assert((list@[i as int].0@, icon_view(list@[i as int].1)) == es[i as int]);
            sizes.push(list[i].1.data.len());
            assert(sizes@ =~= data_sizes(es.subrange(0, i + 1)));
            i += 1;
        }
        assert(es.subrange(0, n as int) =~= es);
        if n == 0 {
            return IconCacheStats {
                count: 0,
                total_bytes: 0,
                min_bytes: 0,
                max_bytes: 0,
                median_bytes: 0,
                avg_bytes: 0,
            };
        }
        let mut total: usize = 0;
        let mut j: usize = 0;
        while j < n
            invariant
                sizes@.len() == n,
                0 <= j <= n,
                total == sat(sum_sizes(sizes@.subrange(0, j as int))),
            decreases n - j,
        {
            assert(sizes@.subrange(0, j + 1).drop_last() =~= sizes@.subrange(0, j as int));
            proof {
                lemma_sum_sizes_nonneg(sizes@.subrange(0, j as int));
            }
            total = sat_add(total, sizes[j]);
            j += 1;
        }
        assert(sizes@.subrange(0, n as int) =~= sizes@);
        let ghost unsorted = sizes@;
        sort_sizes(&mut sizes);
        let lo = sizes[n / 2 - if n % 2 == 0 { 1 } else { 0 }];
        let hi = sizes[n / 2];
        assert(lo <= hi);
        let median = lo + (hi - lo) / 2;
        let r = IconCacheStats {
            count: n,
            total_bytes: total,
            min_bytes: sizes[0],
            max_bytes: sizes[n - 1],
            median_bytes: median,
            avg_bytes: total / n,
        };
        assert(sizes@.last() == sizes@[n - 1]);
        r
    }
}

/// The bytes one entry takes: name, content type and data.
pub open spec fn entry_bytes(e: IconEntry) -> int {
    utf8_len(e.0) + utf8_len(e.1.0) + e.1.1.len()
}

/// The bytes all entries take.
pub open spec fn memory_of(s: Seq<IconEntry>) -> int
    decreases s.len(),
{
    if s.len() == 0 {
        0
    } else {
        memory_of(s.drop_last()) + entry_bytes(s.last())
    }
}

proof fn lemma_memory_nonneg(s: Seq<IconEntry>)
    ensures
        memory_of(s) >= 0,
    decreases s.len(),
{
    if s.len() > 0 {
        lemma_memory_nonneg(s.drop_last());
    }
}

/// The data sizes of the entries, in order.
pub open spec fn data_sizes(s: Seq<IconEntry>) -> Seq<usize> {
    s.map_values(|e: IconEntry| e.1.1.len() as usize)
}

/// The sum of some sizes.
pub open spec fn sum_sizes(s: Seq<usize>) -> int
    decreases s.len(),
{
    if s.len() == 0 {
        0
    } else {
        sum_sizes(s.drop_last()) + s.last()
    }
}

proof fn lemma_sum_sizes_nonneg(s: Seq<usize>)
    ensures
        sum_sizes(s) >= 0,
    decreases s.len(),
{
    if s.len() > 0 {
        lemma_sum_sizes_nonneg(s.drop_last());
    }
}

/// Sizes in ascending order.
pub open spec fn sorted_ascending(s: Seq<usize>) -> bool {
    forall|i: int, j: int| 0 <= i <= j < s.len() ==> s[i] <= s[j]
}

/// The median of ascending sizes: the middle one, or the mean (rounded
/// down) of the two middle ones.
pub open spec fn median_of(s: Seq<usize>) -> int {
    let h = s.len() as int / 2;
    if s.len() % 2 == 0 {
        (s[h - 1] as int + s[h] as int) / 2
    } else {
        s[h] as int
    }
}

/// Relies on `slice::sort_unstable` (std): the same sizes, in ascending order.
#[verifier::external_body]
fn sort_sizes(v: &mut Vec<usize>)
    ensures
        final(v)@.to_multiset() == old(v)@.to_multiset(),
        final(v)@.len() == old(v)@.len(),
        sorted_ascending(final(v)@),
{
    v.sort_unstable();
}

/// Statistics of the cached icons' data sizes, in bytes.
#[derive(Debug, Clone, Copy)]
pub struct IconCacheStats {
    pub count: usize,
    pub total_bytes: usize,
    pub min_bytes: usize,
    pub max_bytes: usize,
    pub median_bytes: usize,
    pub avg_bytes: usize,
}

impl Default for IconCacheStats {
    fn default() -> (r: IconCacheStats)
        ensures
            r.count == 0 && r.total_bytes == 0 && r.min_bytes == 0 && r.max_bytes == 0
                && r.median_bytes == 0 && r.avg_bytes == 0,
    {
        IconCacheStats {
            count: 0,
            total_bytes: 0,
            min_bytes: 0,
            max_bytes: 0,
            median_bytes: 0,
            avg_bytes: 0,
        }
    }
}

/// Bytes that percent-encoding leaves as they are: ASCII letters, digits and
/// `-`, `.`, `_`, `~`.
pub open spec fn unreserved(b: u8) -> bool {
    (48 <= b <= 57) || (65 <= b <= 90) || (97 <= b <= 122) || b == 45 || b == 46 || b == 95
        || b == 126
}

/// An uppercase hexadecimal digit.
pub open spec fn hex_digit(d: u8) -> char {
    "0123456789ABCDEF"@[d as int]
}

/// One byte, percent-encoded: itself when unreserved, else `%XX`.
pub open spec fn escape_byte(b: u8) -> Seq<char> {
    if unreserved(b) {
        seq![b as char]
    } else {
        seq!['%', hex_digit(b / 16), hex_digit(b % 16)]
    }
}

/// Bytes, percent-encoded one by one.
pub open spec fn percent_escape(bytes: Seq<u8>) -> Seq<char>
    decreases bytes.len(),
{
    if bytes.len() == 0 {
        Seq::empty()
    } else {
        percent_escape(bytes.drop_last()) + escape_byte(bytes.last())
    }
}

/// The percent-encoded form of a text: each byte of its UTF-8 form escaped.
pub open spec fn url_encoded(s: Seq<char>) -> Seq<char> {
    percent_escape(encode_utf8(s))
}

/// Relies on `urlencoding::encode`: each UTF-8 byte but ASCII letters, digits
/// and `-`, `.`, `_`, `~` written as `%` and two uppercase hex digits.
#[verifier::external_body]
fn percent_encode(s: &str) -> (r: String)
    ensures
        r@ == url_encoded(s@),
{
    urlencoding::encode(s).into_owned()
}

/// The path under which the exporter serves a service's cached icon.
pub open spec fn icon_link_text(base_url: Seq<char>, service_name: Seq<char>) -> Seq<char> {
    base_url + "/static/icons/services/"@ + url_encoded(service_name)
}

/// The link to a service's cached icon, after `base_url` (empty for a
/// site-relative link).
pub fn icon_link(base_url: &str, service_name: &str) -> (r: String)
    ensures
        r@ == icon_link_text(base_url@, service_name@),
{
    let encoded = percent_encode(service_name);
    String::from_str(base_url).concat("/static/icons/services/").concat(encoded.as_str())
}

/// Resolves a service's icon reference as configured. With caching off the
/// reference is passed on as it is. Embedding goes through `get_icon`.
/// Linking answers the link once the icon is cached (fetching it first when
/// it is not), passes inline data URLs on, and leaves empty references empty.
pub fn resolve_service_icon(
    cache: &mut IconCache,
    config: &IconCacheConfig,
    service_name: &str,
    icon_url: &str,
) -> (r: IconStep)
    requires
        old(cache).wf(),
    ensures
        final(cache).wf(),
        final(cache).capacity() == old(cache).capacity(),
        !config.enabled ==> (r matches IconStep::Ready(t) && t@ == icon_url@ && final(cache).entries()
            == old(cache).entries()),
        config.enabled && config.mode == IconMode::Link ==> {
            &&& final(cache).entries() == old(cache).entries()
            &&& icon_url@.len() == 0 ==> (r matches IconStep::Ready(t) && t@.len() == 0)
            &&& has_prefix(icon_url@, "data:"@) ==> (r matches IconStep::Ready(t) && t@ == icon_url@)
            &&& icon_url@.len() > 0 && !has_prefix(icon_url@, "data:"@) ==> if has_key(
                old(cache).entries(),
                service_name@,
            ) {
                r matches IconStep::Ready(t) && t@ == icon_link_text(config.base_url@, service_name@)
            } else {
                r is Fetch
            }
        },
        config.enabled && config.mode == IconMode::Base64 ==> {
            &&& icon_url@.len() == 0 ==> (r matches IconStep::Ready(t) && t@.len() == 0
                && final(cache).entries() == old(cache).entries())
            &&& has_prefix(icon_url@, "data:"@) ==> (r matches IconStep::Ready(t) && t@ == icon_url@
                && final(cache).entries() == old(cache).entries())
            &&& icon_url@.len() > 0 && !has_prefix(icon_url@, "data:"@) ==> if has_key(
                old(cache).entries(),
                service_name@,
            ) {
                &&& r matches IconStep::Ready(t) && t@ == data_url_of(
                    old(cache).entries()[key_pos(old(cache).entries(), service_name@)].1,
                )
                &&& final(cache).entries() == touched(old(cache).entries(), service_name@)
            } else {
                r is Fetch && final(cache).entries() == old(cache).entries()
            }
        },
{
    if !config.enabled {
        return IconStep::Ready(icon_url.to_owned());
    }
    match config.mode {
        IconMode::Base64 => cache.get_icon(service_name, icon_url),
        IconMode::Link => {
            if icon_url.unicode_len() == 0 {
                return IconStep::Ready(String::new());
            }
            if starts_with(icon_url, "data:") {
                return IconStep::Ready(icon_url.to_owned());
            }
            match cache.ensure_cached(service_name, icon_url) {
                EnsureStep::Cached => IconStep::Ready(icon_link(config.base_url.as_str(), service_name)),
                _ => IconStep::Fetch,
            }
        },
    }
}

/// Takes the outcome of the fetch that `resolve_service_icon` asked for and
/// answers the resolved reference: for embedding as `store_icon` does; for
/// linking, the icon is stored when fetched and the link is answered either
/// way.
pub fn finish_service_icon(
    cache: &mut IconCache,
    config: &IconCacheConfig,
    service_name: &str,
    icon_url: &str,
    fetched: Result<CachedIcon, String>,
) -> (r: String)
    requires
        old(cache).wf(),
    ensures
        final(cache).wf(),
        final(cache).capacity() == old(cache).capacity(),
        config.mode == IconMode::Link ==> r@ == icon_link_text(config.base_url@, service_name@),
        final(cache).entries() == match fetched {
            Ok(icon) => if icon.data@.len() < MAX_ICON_BYTES {
                put_entry(old(cache).entries(), old(cache).capacity(), service_name@, icon_view(icon))
            } else {
                old(cache).entries()
            },
            Err(_) => old(cache).entries(),
        },
        config.mode == IconMode::Base64 ==> match fetched {
            Ok(icon) => if icon.data@.len() < MAX_ICON_BYTES {
                r@ == data_url_of(icon_view(icon))
            } else {
                r@ == icon_url@
            },
            Err(_) => r@ == icon_url@,
        },
{
    match config.mode {
        IconMode::Base64 => cache.store_icon(service_name, icon_url, fetched),
        IconMode::Link => {
            let _ = cache.store_fetched(service_name, fetched);
            icon_link(config.base_url.as_str(), service_name)
        },
    }
}

} // verus!
