//! Time-stamped image cache. A URI maps to a decoded image and the time it
//! was fetched; an entry appears on the first successful decode and leaves
//! only through an explicit purge. Decoding uses the upstream's fixed JPEG
//! encoding via the `image` crate; fetching the bytes is the caller's
//! business. Times are monotonic milliseconds supplied by the caller.

use vstd::prelude::*;

use crate::text::str_eq;

verus! {

/// Declares `image::DynamicImage` so decoded images can stand in fields and
/// signatures; the library never looks inside one.
#[verifier::external_type_specification]
#[verifier::external_body]
pub struct ExDynamicImage(image::DynamicImage);

/// Whether these bytes decode as a JPEG image — the success of
/// `image::load_from_memory_with_format`, a function of the bytes alone.
pub uninterp spec fn jpeg_decodes(bytes: Seq<u8>) -> bool;

/// Relies on `image::load_from_memory_with_format` with the JPEG format:
/// decodes the bytes as a JPEG image, or fails; whether it succeeds depends
/// on the bytes alone ([`jpeg_decodes`]). Nothing is claimed of the decoded
/// pixels; callers track only which URI holds which stored value.
#[verifier::external_body]
fn decode_jpeg(bytes: &[u8]) -> (r: Option<image::DynamicImage>)
    ensures
        r is Some <==> jpeg_decodes(bytes@),
{
    image::load_from_memory_with_format(bytes, image::ImageFormat::Jpeg).ok()
}

/// Default maximum age of a cached image: 14 days, in milliseconds.
pub const DEFAULT_MAX_AGE_MS: u64 = 1209600000;

/// One cached image and the time it was fetched.
pub struct CachedImageResponse {
    pub t: u64,
    pub image: image::DynamicImage,
}

/// Mathematical content of a cache entry.
pub ghost struct CacheEntryV {
    pub t: u64,
    pub image: image::DynamicImage,
}

impl CachedImageResponse {
    /// Stamps an image with the given fetch time.
    pub fn from_image(i: image::DynamicImage, now: u64) -> (r: CachedImageResponse)
        ensures
            r.t == now,
            r.image == i,
    {
        CachedImageResponse { t: now, image: i }
    }
}

/// The association a cache entry list denotes; a later entry for the same
/// URI wins.
pub open spec fn entries_as_map(entries: Seq<(String, CachedImageResponse)>) -> Map<
    Seq<char>,
    CacheEntryV,
>
    decreases entries.len(),
{
    if entries.len() == 0 {
        Map::empty()
    } else {
        entries_as_map(entries.drop_last()).insert(
            entries.last().0@,
            CacheEntryV { t: entries.last().1.t, image: entries.last().1.image },
        )
    }
}

/// Whether an entry fetched at `t` survives a purge at `now` with maximum
/// age `age`.
pub open spec fn entry_kept(t: u64, now: u64, age: u64) -> bool {
    (now as int) - (t as int) < (age as int)
}

/// Every cached entry was stamped no later than `now`. The stamps come from
/// the caller's clock, so this is a property of how the cache was used — a
/// caller whose clock never runs backwards maintains it through every
/// insert (see [`ScryfallCache::insert_image`]).
pub open spec fn stamps_at_most(m: Map<Seq<char>, CacheEntryV>, now: u64) -> bool {
    forall|k: Seq<char>| m.contains_key(k) ==> (#[trigger] m[k]).t <= now
}

/// URI-keyed image cache with fetch timestamps and an explicit purge.
pub struct ScryfallCache {
    images: Vec<(String, CachedImageResponse)>,
    last_purge: u64,
}

impl View for ScryfallCache {
    type V = Map<Seq<char>, CacheEntryV>;

    closed spec fn view(&self) -> Map<Seq<char>, CacheEntryV> {
        entries_as_map(self.images@)
    }
}

impl ScryfallCache {
    #[verifier::type_invariant]
    closed spec fn wf(&self) -> bool {
        forall|i: int, j: int|
            0 <= i < j < self.images@.len() ==> (#[trigger] self.images@[i].0@) != (
            #[trigger] self.images@[j].0@)
    }

    /// When the cache was last purged, in monotonic milliseconds.
    pub closed spec fn last_purge(&self) -> u64 {
        self.last_purge
    }

    /// An empty cache, created at `now`.
    pub fn new(now: u64) -> (r: ScryfallCache)
        ensures
            r@ == Map::<Seq<char>, CacheEntryV>::empty(),
            r.last_purge() == now,
    {
        ScryfallCache { images: Vec::new(), last_purge: now }
    }

    /// Whether an image for this URI is cached.
    pub fn contains(&self, uri: &str) -> (r: bool)
        ensures
            r == self@.contains_key(uri@),
    {
        proof {
            use_type_invariant(self);
        }
        let n = self.images.len();
        proof {
            assert(self.images@.subrange(0, n as int) =~= self.images@);
        }
        let mut i: usize = n;
        while i > 0
            invariant
                i <= n == self.images@.len(),
                entries_as_map(self.images@.subrange(0, i as int)).contains_key(uri@)
                    == entries_as_map(self.images@).contains_key(uri@),
            decreases i,
        {
            proof {
                assert(self.images@.subrange(0, i as int).drop_last() =~= self.images@.subrange(
                    0,
                    i - 1 as int,
                ));
            }
            if str_eq(self.images[i - 1].0.as_str(), uri) {
                return true;
            }
            i = i - 1;
        }
        proof {
            assert(self.images@.subrange(0, 0) =~= Seq::<(String, CachedImageResponse)>::empty());
        }
        false
    }

    /// Decodes the fetched bytes as a JPEG and caches the image under the
    /// URI, stamped `now`. Succeeds without change when the URI is already
    /// cached; fails without change when the bytes do not decode.
    pub fn insert_image(&mut self, uri: &str, bytes: &[u8], now: u64) -> (r: Option<()>)
        ensures
            (match r {
                Some(_) => {
                    &&& old(self)@.contains_key(uri@) || jpeg_decodes(bytes@)
                    &&& old(self)@.contains_key(uri@) ==> final(self)@ == old(self)@
                    &&& !old(self)@.contains_key(uri@) ==> {
                        &&& final(self)@.dom() == old(self)@.dom().insert(uri@)
                        &&& final(self)@[uri@].t == now
                        &&& forall|k: Seq<char>|
                            old(self)@.contains_key(k) && k != uri@ ==> final(self)@[k] == old(
                                self,
                            )@[k]
                    }
                },
                None => {
                    &&& final(self)@ == old(self)@
                    &&& !old(self)@.contains_key(uri@)
                    &&& !jpeg_decodes(bytes@)
                },
            }),
            final(self).last_purge() == old(self).last_purge(),
            forall|bound: u64|
                stamps_at_most(old(self)@, bound) && now <= bound ==> stamps_at_most(
                    final(self)@,
                    bound,
                ),
    {
        proof {
            use_type_invariant(&*self);
        }
        if self.contains(uri) {
            return Some(());
        }
        match decode_jpeg(bytes) {
            Some(image) => {
                let ghost pre = self.images@;
                let mut imgs: Vec<(String, CachedImageResponse)> = Vec::new();
                core::mem::swap(&mut imgs, &mut self.images);
                imgs.push((uri.to_owned(), CachedImageResponse { t: now, image }));
                proof {
                    assert(imgs@.drop_last() =~= pre);
                    assert forall|a: int, b: int| 0 <= a < b < imgs@.len() implies (
                    #[trigger] imgs@[a].0@) != (#[trigger] imgs@[b].0@) by {
                        if b == imgs@.len() - 1 {
                            lemma_entries_index_key(pre, a);
                        }
                    }
                }
                core::mem::swap(&mut imgs, &mut self.images);
                proof {
                    assert(self.images@.drop_last() =~= pre);
                    assert(final(self)@.dom() =~= old(self)@.dom().insert(uri@));
                }
                Some(())
            },
            None => None,
        }
    }

    /// The cached image for a URI, if present; never fetches.
    pub fn get<'a>(&'a self, uri: &str) -> (r: Option<&'a image::DynamicImage>)
        ensures
            (match r {
                Some(img) => self@.contains_key(uri@) && *img == self@[uri@].image,
                None => !self@.contains_key(uri@),
            }),
    {
        proof {
            use_type_invariant(self);
        }
        let n = self.images.len();
        proof {
            assert(self.images@.subrange(0, n as int) =~= self.images@);
        }
        let mut i: usize = n;
        while i > 0
            invariant
                i <= n == self.images@.len(),
                entries_as_map(self.images@.subrange(0, i as int)).contains_key(uri@)
                    == entries_as_map(self.images@).contains_key(uri@),
                entries_as_map(self.images@.subrange(0, i as int)).contains_key(uri@)
                    ==> entries_as_map(self.images@.subrange(0, i as int))[uri@] == entries_as_map(
                    self.images@,
                )[uri@],
            decreases i,
        {
            proof {
                assert(self.images@.subrange(0, i as int).drop_last() =~= self.images@.subrange(
                    0,
                    i - 1 as int,
                ));
            }
            if str_eq(self.images[i - 1].0.as_str(), uri) {
                return Some(&self.images[i - 1].1.image);
            }
            i = i - 1;
        }
        proof {
            assert(self.images@.subrange(0, 0) =~= Seq::<(String, CachedImageResponse)>::empty());
        }
        None
    }

    /// Removes every entry at least `max_age` milliseconds old (14 days when
    /// none is given) and records `now` as the purge time. An entry fetched
    /// at `t` stays exactly when `now - t < max_age`.
    pub fn purge(&mut self, now: u64, max_age: Option<u64>)
        ensures
            ({
                let age = (match max_age {
                    Some(a) => a,
                    None => DEFAULT_MAX_AGE_MS,
                });
                &&& forall|k: Seq<char>|
                    final(self)@.contains_key(k) <==> (#[trigger] old(self)@.contains_key(k)
                        && entry_kept(old(self)@[k].t, now, age))
                &&& forall|k: Seq<char>|
                    final(self)@.contains_key(k) ==> (#[trigger] final(self)@[k]) == old(self)@[k]
                &&& final(self).last_purge() == now
            }),
    {
        proof {
            use_type_invariant(&*self);
        }
        let age: u64 = match max_age {
            Some(a) => a,
            None => DEFAULT_MAX_AGE_MS,
        };
        let n = self.images.len();
        let mut kept: Vec<(String, CachedImageResponse)> = Vec::new();
        let mut i: usize = 0;
        proof {
            assert(self.images@.subrange(0, 0) =~= Seq::<(String, CachedImageResponse)>::empty());
        }
        while i < n
            invariant
                i <= n == self.images@.len(),
                forall|a: int, b: int|
                    0 <= a < b < self.images@.len() ==> (#[trigger] self.images@[a].0@) != (
                    #[trigger] self.images@[b].0@),
                forall|a: int, b: int|
                    0 <= a < b < kept@.len() ==> (#[trigger] kept@[a].0@) != (
                    #[trigger] kept@[b].0@),
                forall|k: Seq<char>|
                    entries_as_map(kept@).contains_key(k) <==> (#[trigger] entries_as_map(
                        self.images@.subrange(0, i as int),
                    ).contains_key(k) && entry_kept(
                        entries_as_map(self.images@.subrange(0, i as int))[k].t,
                        now,
                        age,
                    )),
                forall|k: Seq<char>|
                    entries_as_map(kept@).contains_key(k) ==> (#[trigger] entries_as_map(
                        kept@,
                    )[k]) == entries_as_map(self.images@.subrange(0, i as int))[k],
            decreases n - i,
        {
            let ghost m_i = entries_as_map(self.images@.subrange(0, i as int));
            let ghost m_i1 = entries_as_map(self.images@.subrange(0, i + 1 as int));
            let ghost e = self.images@[i as int];
            let ghost ev = CacheEntryV { t: e.1.t, image: e.1.image };
            let ghost pre_kept_map = entries_as_map(kept@);
            proof {
                assert(self.images@.subrange(0, i + 1 as int).drop_last() =~= self.images@.subrange(
                    0,
                    i as int,
                ));
                assert(self.images@.subrange(0, i + 1 as int).last() == e);
                assert(m_i1 == m_i.insert(e.0@, ev));
                assert(!m_i.contains_key(e.0@)) by {
                    if m_i.contains_key(e.0@) {
                        lemma_entries_key_index(self.images@.subrange(0, i as int), e.0@);
                    }
                }
            }
            let t = self.images[i].1.t;
            let keep = if t > now {
                true
            } else {
                now - t < age
            };
            proof {
                assert(keep == entry_kept(e.1.t, now, age));
            }
            if keep {
                let ghost pre_kept = kept@;
                let uri_copy = self.images[i].0.clone();
                let t_copy = self.images[i].1.t;
                let img_copy = clone_image(&self.images[i].1.image);
                kept.push((uri_copy, CachedImageResponse { t: t_copy, image: img_copy }));
                proof {
                    assert(kept@.drop_last() =~= pre_kept);
                    assert(entries_as_map(kept@) == pre_kept_map.insert(e.0@, ev));
                    assert forall|a: int, b: int| 0 <= a < b < kept@.len() implies (
                    #[trigger] kept@[a].0@) != (#[trigger] kept@[b].0@) by {
                        if b == kept@.len() - 1 {
                            lemma_entries_index_key(pre_kept, a);
                        }
                    }
                }
            }
            proof {
                assert forall|k: Seq<char>| #[trigger]
                    entries_as_map(kept@).contains_key(k) == (m_i1.contains_key(k) && entry_kept(
                        m_i1[k].t,
                        now,
                        age,
                    )) by {
                    if k == e.0@ {
                        assert(m_i1.contains_key(k) && m_i1[k] == ev);
                        if keep {
                            assert(entries_as_map(kept@).contains_key(k));
                        } else {
                            assert(!pre_kept_map.contains_key(k));
                        }
                    } else {
                        assert(m_i1.contains_key(k) == m_i.contains_key(k));
                        if m_i1.contains_key(k) {
                            assert(m_i1[k] == m_i[k]);
                        }
                    }
                }
                assert forall|k: Seq<char>|
                    entries_as_map(kept@).contains_key(k) implies (#[trigger] entries_as_map(
                        kept@,
                    )[k]) == m_i1[k] by {
                    if k == e.0@ {
                        assert(entries_as_map(kept@)[k] == ev);
                    } else {
                        assert(entries_as_map(kept@)[k] == pre_kept_map[k]);
                    }
                }
            }
            i = i + 1;
        }
        proof {
            assert(self.images@.subrange(0, n as int) =~= self.images@);
        }
        self.images = kept;
        self.last_purge = now;
    }
}

/// The key of every entry is a key of the map the entry list denotes.
proof fn lemma_entries_index_key(entries: Seq<(String, CachedImageResponse)>, i: int)
    requires
        0 <= i < entries.len(),
    ensures
        entries_as_map(entries).contains_key(entries[i].0@),
    decreases entries.len(),
{
    if i < entries.len() - 1 {
        lemma_entries_index_key(entries.drop_last(), i);
    }
}

/// A key of the map denoted by an entry list is the key of some entry.
proof fn lemma_entries_key_index(entries: Seq<(String, CachedImageResponse)>, k: Seq<char>)
    requires
        entries_as_map(entries).contains_key(k),
    ensures
        exists|i: int| 0 <= i < entries.len() && (#[trigger] entries[i].0@) == k,
    decreases entries.len(),
{
    if entries.len() > 0 {
        if entries.last().0@ == k {
            assert(entries[entries.len() - 1].0@ == k);
        } else {
            lemma_entries_key_index(entries.drop_last(), k);
            let i = choose|i: int|
                0 <= i < entries.drop_last().len() && (#[trigger] entries.drop_last()[i].0@) == k;
            assert(entries[i].0@ == k);
        }
    }
}

/// Relies on `image::DynamicImage::clone` (derived): the clone is the same
/// image value.
#[verifier::external_body]
fn clone_image(i: &image::DynamicImage) -> (r: image::DynamicImage)
    ensures
        r == *i,
{
    i.clone()
}

/// Law: a purge with maximum age zero removes every entry, provided every
/// stamp lies at or before the purge time ([`stamps_at_most`]) — the
/// hypothesis a caller with a forward-running clock maintains for free, and
/// which cannot be an invariant of the type because the stamps are the
/// caller's clock readings.
pub proof fn lemma_purge_zero_empties(m: Map<Seq<char>, CacheEntryV>, now: u64)
    requires
        stamps_at_most(m, now),
    ensures
        forall|k: Seq<char>| m.contains_key(k) ==> !entry_kept((#[trigger] m[k]).t, now, 0),
{
}

/// Law: a purge with the largest possible maximum age keeps every entry, as
/// long as the clock itself has room left.
pub proof fn lemma_purge_max_keeps(m: Map<Seq<char>, CacheEntryV>, now: u64)
    requires
        now < u64::MAX,
    ensures
        forall|k: Seq<char>| m.contains_key(k) ==> entry_kept((#[trigger] m[k]).t, now, u64::MAX),
{
}

} // verus!
