//! The connection registry: one pool handle for each canonical URL.

use vstd::prelude::*;
use crate::text::same_text;
use crate::url::{normalize_db_url, normalized_url};
use crate::value::texts;

verus! {

/// The first position at or after `from` that holds `url`, or the length.
pub open spec fn slot(urls: Seq<Seq<char>>, url: Seq<char>, from: int) -> int
    decreases urls.len() - from,
{
    if 0 <= from < urls.len() && urls[from] != url {
        slot(urls, url, from + 1)
    } else {
        from
    }
}

/// What a registry holds after a pool was offered for `url`: the pool that
/// was there stays; only a URL without one takes the new pool.
pub open spec fn registered<P>(pools: Map<Seq<char>, P>, url: Seq<char>, pool: P) -> Map<
    Seq<char>,
    P,
> {
    if pools.contains_key(url) {
        pools
    } else {
        pools.insert(url, pool)
    }
}

/// The live pools of one application, by canonical URL, and whether the
/// backend drivers have been installed.
pub struct Registry<P> {
    urls: Vec<String>,
    pools: Vec<P>,
    drivers: bool,
}

proof fn lemma_slot_bounds(urls: Seq<Seq<char>>, url: Seq<char>, from: int)
    requires
        0 <= from <= urls.len(),
    ensures
        from <= slot(urls, url, from) <= urls.len(),
        slot(urls, url, from) < urls.len() ==> urls[slot(urls, url, from)] == url,
    decreases urls.len() - from,
{
    if from < urls.len() && urls[from] != url {
        lemma_slot_bounds(urls, url, from + 1);
    }
}

proof fn lemma_slot_push(urls: Seq<Seq<char>>, added: Seq<char>, url: Seq<char>, from: int)
    requires
        0 <= from <= urls.len(),
    ensures
        slot(urls, url, from) < urls.len() ==> slot(urls.push(added), url, from) == slot(
            urls,
            url,
            from,
        ),
        slot(urls, url, from) >= urls.len() && url == added ==> slot(urls.push(added), url, from)
            == urls.len(),
        slot(urls, url, from) >= urls.len() && url != added ==> slot(urls.push(added), url, from)
            == urls.len() + 1,
    decreases urls.len() - from,
{
    let more = urls.push(added);
    if from < urls.len() {
        assert(more[from] == urls[from]);
        if urls[from] != url {
            lemma_slot_push(urls, added, url, from + 1);
        }
    } else {
        assert(more[from] == added);
        if added != url {
            assert(slot(more, url, from + 1) == from + 1);
        }
    }
}

impl<P> Registry<P> {
    /// The registry keeps one pool for each URL it knows.
    pub closed spec fn well_formed(&self) -> bool {
        self.urls@.len() == self.pools@.len()
    }

    /// The pool of each registered URL.
    pub closed spec fn pools(&self) -> Map<Seq<char>, P> {
        Map::new(
            |url: Seq<char>| slot(texts(self.urls@), url, 0) < self.urls@.len(),
            |url: Seq<char>| self.pools@[slot(texts(self.urls@), url, 0)],
        )
    }

    /// Whether the one-time driver installation has been done.
    pub closed spec fn drivers_installed(&self) -> bool {
        self.drivers
    }

    /// A registry without pools, before the drivers are installed.
    pub fn new() -> (registry: Self)
        ensures
            registry.well_formed(),
            registry.pools() == Map::<Seq<char>, P>::empty(),
            !registry.drivers_installed(),
    {
        let registry = Registry { urls: Vec::new(), pools: Vec::new(), drivers: false };
        assert(registry.pools() =~= Map::<Seq<char>, P>::empty());
        registry
    }

    /// Marks the drivers as installed and says whether the caller is the one
    /// who has to install them: `true` on the first call, `false` ever after.
    pub fn install_drivers(&mut self) -> (first: bool)
        requires
            old(self).well_formed(),
        ensures
            first == !old(self).drivers_installed(),
            final(self).drivers_installed(),
            final(self).well_formed(),
            final(self).pools() == old(self).pools(),
    {
        let first = !self.drivers;
        self.drivers = true;
        assert(self.pools() =~= old(self).pools());
        first
    }

    /// The pool registered for a specifier's canonical URL.
    pub fn lookup(&self, specifier: &str) -> (found: Option<&P>)
        requires
            self.well_formed(),
        ensures
            match found {
                Some(pool) => self.pools().contains_key(normalized_url(specifier@))
                    && self.pools()[normalized_url(specifier@)] == *pool,
                None => !self.pools().contains_key(normalized_url(specifier@)),
            },
    {
        let url = normalize_db_url(specifier);
        let at = self.find(url.as_str());
        if at < self.urls.len() {
            Some(&self.pools[at])
        } else {
            None
        }
    }

    fn find(&self, url: &str) -> (at: usize)
        ensures
            at == slot(texts(self.urls@), url@, 0),
            at <= self.urls@.len(),
    {
        let mut i: usize = 0;
        while i < self.urls.len()
            invariant
                i <= self.urls.len(),
                slot(texts(self.urls@), url@, i as int) == slot(texts(self.urls@), url@, 0),
            decreases self.urls.len() - i,
        {
            if same_text(self.urls[i].as_str(), url) {
                return i;
            }
            i += 1;
        }
        i
    }

    /// Offers a freshly opened pool for a specifier. Where its canonical URL
    /// has no pool yet, the offered one is kept and `true` returned; where it
    /// has one, that one stays, the offered one is dropped and `false`
    /// returned. No other URL's pool changes.
    pub fn register(&mut self, specifier: &str, pool: P) -> (kept: bool)
        requires
            old(self).well_formed(),
        ensures
            final(self).well_formed(),
            final(self).pools() == registered(old(self).pools(), normalized_url(specifier@), pool),
            kept == !old(self).pools().contains_key(normalized_url(specifier@)),
            final(self).drivers_installed() == old(self).drivers_installed(),
    {
        let url = normalize_db_url(specifier);
        let at = self.find(url.as_str());
        if at < self.urls.len() {
            return false;
        }
        let ghost before = texts(self.urls@);
        self.urls.push(url);
        self.pools.push(pool);
        proof {
            let was = old(self).pools().insert(url@, pool);
            assert(texts(self.urls@) =~= before.push(url@));
            assert forall|k: Seq<char>| #[trigger]
                self.pools().dom().contains(k) == was.dom().contains(k) by {
                lemma_slot_push(before, url@, k, 0);
                lemma_slot_bounds(before, k, 0);
            }
            assert forall|k: Seq<char>| #[trigger]
                self.pools().dom().contains(k) implies self.pools()[k] == was[k] by {
                lemma_slot_push(before, url@, k, 0);
                lemma_slot_bounds(before, k, 0);
            }
            assert(self.pools() =~= was);
        }
        true
    }
}

/// A registry keeps the first pool of each URL: offering a second pool for
/// the same URL changes nothing, and the URL's pool is the one that was
/// there first.
pub proof fn lemma_first_pool_stays<P>(pools: Map<Seq<char>, P>, url: Seq<char>, first: P, second: P)
    ensures
        registered(registered(pools, url, first), url, second) == registered(pools, url, first),
        registered(pools, url, first).contains_key(url),
        !pools.contains_key(url) ==> registered(pools, url, first)[url] == first,
        pools.contains_key(url) ==> registered(pools, url, first)[url] == pools[url],
{
}

/// The I/O error for a pool that could not be opened.
pub fn connect_error(message: &str) -> (e: crate::table::EngineError)
    ensures
        e@ == crate::table::ErrorView::Io("SQLx Error creating pool: "@ + message@),
{
    let mut text = crate::text::chars_of("SQLx Error creating pool: ");
    crate::text::extend_str(&mut text, message);
    crate::table::EngineError::Io(crate::text::string_of(&text))
}

} // verus!
