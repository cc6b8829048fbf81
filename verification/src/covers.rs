//! The cache of decoded covers: which covers are decoded, which are being
//! decoded, how many decodes run at once, which result is out of date, and
//! which cover leaves when the cache is full; and what is kept of a cover
//! file's bytes once decoded. Reading the file and uploading the pixels to
//! the screen are the program's part; the texture is kept here as it comes.

use vstd::prelude::*;
use crate::text::{owned, same_text};

verus! {

/// The longest side a cover is scaled down to before it is kept: a card is
/// drawn at 190x268 points, and 512 pixels cover that even at the largest
/// interface scale on a dense screen.
pub const MAX_SIDE: u32 = 512;

/// At most this many decoded covers are kept.
pub const MAX_CACHED: usize = 200;

/// At most this many decodes run at once.
pub const MAX_CONCURRENT_DECODES: usize = 4;

/// A decoded cover (the texture is `None` for a file that could not be
/// read: it is kept so as not to retry a broken file every frame).
pub struct CachedCover<T> {
    pub game_id: String,
    pub texture: Option<T>,
    /// When it was last asked for.
    pub last_used: u64,
}

/// The pixels `image::load_from_memory` decodes from these bytes, as
/// `to_rgba8` hands them over: width, height and RGBA bytes row by row.
/// `None` when the bytes are not an image the crate understands (PNG, JPEG
/// and WebP are).
pub uninterp spec fn decoded_rgba(bytes: Seq<u8>) -> Option<(u32, u32, Seq<u8>)>;

/// The RGBA pixels of the image decoded from these bytes after
/// `DynamicImage::resize(side, side, FilterType::Triangle)`, which scales
/// it in its own colour type.
pub uninterp spec fn scaled_decode(bytes: Seq<u8>, side: u32) -> (u32, u32, Seq<u8>);

/// `image::load_from_memory` followed by `DynamicImage::to_rgba8`: the
/// decoded pixels, `None` when the bytes do not decode. An RGBA buffer holds
/// four bytes per pixel.
#[verifier::external_body]
fn decode_rgba(bytes: &[u8]) -> (r: Option<(u32, u32, Vec<u8>)>)
    ensures
        match r {
            Some(p) => decoded_rgba(bytes@) == Some((p.0, p.1, p.2@)) && p.2@.len() >= 4 * p.0 * p.1,
            None => decoded_rgba(bytes@) is None,
        },
{
    match image::load_from_memory(bytes) {
        Ok(img) => {
            let rgba = img.to_rgba8();
            let (width, height) = rgba.dimensions();
            Some((width, height, rgba.into_raw()))
        },
        Err(_) => None,
    }
}

/// `image::load_from_memory`, then `DynamicImage::resize(side, side,
/// FilterType::Triangle)` and `to_rgba8`. The bytes decode here exactly when
/// they decode for `decode_rgba` (the same call on the same bytes). The
/// crate documents that `resize` keeps the aspect ratio and scales to the
/// largest size that fits within `side` by `side`; the contract states the
/// fit and the size of the buffer.
#[verifier::external_body]
fn decode_scaled(bytes: &[u8], side: u32) -> (r: Option<(u32, u32, Vec<u8>)>)
    requires
        side > 0,
    ensures
        r is Some == decoded_rgba(bytes@) is Some,
        match r {
            Some(p) => (p.0, p.1, p.2@) == scaled_decode(bytes@, side) && p.0 <= side && p.1 <= side
                && p.2@.len() >= 4 * p.0 * p.1,
            None => true,
        },
{
    match image::load_from_memory(bytes) {
        Ok(img) => {
            let out = img.resize(side, side, image::imageops::FilterType::Triangle).to_rgba8();
            let (width, height) = out.dimensions();
            Some((width, height, out.into_raw()))
        },
        Err(_) => None,
    }
}

/// A cover ready to be uploaded: RGBA pixels, row by row.
pub struct DecodedCover {
    pub width: u32,
    pub height: u32,
    pub rgba: Vec<u8>,
}

/// A cover of that size is kept as it is: neither side is longer than
/// `MAX_SIDE`.
pub fn fits_as_is(width: u32, height: u32) -> (r: bool)
    ensures
        r == (width <= MAX_SIDE && height <= MAX_SIDE),
{
    width <= MAX_SIDE && height <= MAX_SIDE
}

/// What is kept of a cover file's bytes: its pixels as decoded when they
/// fit `MAX_SIDE`, else the image scaled down to fit it; `None` when the
/// bytes are not an image.
pub open spec fn cover_pixels(bytes: Seq<u8>) -> Option<(u32, u32, Seq<u8>)> {
    match decoded_rgba(bytes) {
        Some(p) => if p.0 <= MAX_SIDE && p.1 <= MAX_SIDE {
            Some(p)
        } else {
            Some(scaled_decode(bytes, MAX_SIDE))
        },
        None => None,
    }
}

/// Decodes the bytes of a cover file, scaling it down to fit `MAX_SIDE`
/// when either side is longer. `None` when the bytes are not an image
/// (such a cover is cached as missing, not retried every frame).
pub fn decode(bytes: &[u8]) -> (r: Option<DecodedCover>)
    ensures
        match r {
            Some(c) => cover_pixels(bytes@) == Some((c.width, c.height, c.rgba@)),
            None => cover_pixels(bytes@) is None,
        },
        match r {
            Some(c) => c.rgba@.len() >= 4 * c.width * c.height && c.width <= MAX_SIDE && c.height <= MAX_SIDE,
            None => true,
        },
{
    match decode_rgba(bytes) {
        Some((width, height, rgba)) => {
            if fits_as_is(width, height) {
                Some(DecodedCover { width, height, rgba })
            } else {
                match decode_scaled(bytes, MAX_SIDE) {
                    Some((w, h, pixels)) => Some(DecodedCover { width: w, height: h, rgba: pixels }),
                    None => None,
                }
            }
        },
        None => None,
    }
}

/// A decode waiting to start.
#[derive(Debug, Clone)]
pub struct DecodeJob {
    pub game_id: String,
    /// The generation of the cover when it was asked for.
    pub generation: u64,
    pub path: String,
}

impl DecodeJob {
    pub fn duplicate(&self) -> (r: DecodeJob)
        ensures
            r == *self,
    {
        DecodeJob { game_id: self.game_id.clone(), generation: self.generation, path: self.path.clone() }
    }
}

/// What a finished decode hands back: the texture, or `None` for a file that
/// could not be decoded.
pub struct DecodeResult<T> {
    pub game_id: String,
    pub generation: u64,
    pub image: Option<T>,
}

/// One of the finished decodes is for game `x` and carries its current
/// generation: its result is taken in.
pub open spec fn settled<T>(rs: Seq<DecodeResult<T>>, gs: Seq<Generation>, x: Seq<char>) -> bool {
    exists|j: int| 0 <= j < rs.len() && (#[trigger] rs[j]).game_id@ == x && rs[j].generation == generation_of(gs, x)
}

/// How many decodes are still running after `finished` of them ended: each
/// end frees one slot, never below zero.
pub open spec fn after_ends(decoding: nat, finished: nat) -> nat {
    if decoding >= finished {
        (decoding - finished) as nat
    } else {
        0
    }
}

/// The jobs of the queue for other games than `id`, in order.
pub open spec fn jobs_without(q: Seq<DecodeJob>, id: Seq<char>) -> Seq<DecodeJob>
    decreases q.len(),
{
    if q.len() == 0 {
        seq![]
    } else if q.last().game_id@ == id {
        jobs_without(q.drop_last(), id)
    } else {
        jobs_without(q.drop_last(), id).push(q.last())
    }
}

/// How many queued decodes start now: as many as the free slots, no more
/// than are waiting.
pub open spec fn decode_starts(decoding: nat, waiting: nat) -> nat {
    if decoding >= MAX_CONCURRENT_DECODES {
        0
    } else if waiting < MAX_CONCURRENT_DECODES - decoding {
        waiting
    } else {
        (MAX_CONCURRENT_DECODES - decoding) as nat
    }
}

/// How many times the cover of a game was replaced.
#[derive(Debug, Clone)]
pub struct Generation {
    pub game_id: String,
    pub count: u64,
}

pub struct CoverTextures<T> {
    pub entries: Vec<CachedCover<T>>,
    pub clock: u64,
    /// Queued or being decoded: never queued twice.
    pub in_flight: Vec<String>,
    pub decoding: usize,
    pub generations: Vec<Generation>,
    pub queue: Vec<DecodeJob>,
}

pub open spec fn entry_ids<T>(es: Seq<CachedCover<T>>) -> Seq<Seq<char>> {
    es.map_values(|e: CachedCover<T>| e.game_id@)
}

pub open spec fn gen_ids(gs: Seq<Generation>) -> Seq<Seq<char>> {
    gs.map_values(|g: Generation| g.game_id@)
}

pub open spec fn string_ids(ss: Seq<String>) -> Seq<Seq<char>> {
    ss.map_values(|s: String| s@)
}

pub open spec fn distinct(s: Seq<Seq<char>>) -> bool {
    forall|i: int, j: int| 0 <= i < j < s.len() ==> s[i] != s[j]
}

/// Where a game stands in the cache, if it is there.
pub open spec fn entry_index<T>(es: Seq<CachedCover<T>>, id: Seq<char>) -> int {
    choose|i: int| 0 <= i < es.len() && es[i].game_id@ == id
}

/// The cache after `e` is taken in: it replaces the entry of its game, in
/// place, or is added at the end.
pub open spec fn put_entry<T>(es: Seq<CachedCover<T>>, e: CachedCover<T>) -> Seq<CachedCover<T>> {
    if entry_ids(es).contains(e.game_id@) {
        es.update(entry_index(es, e.game_id@), e)
    } else {
        es.push(e)
    }
}

/// The finished decodes taken in, in order, from a cache and a clock: each
/// one whose generation is current ticks the clock and is cached with its
/// image (`None` for a file that could not be decoded), as just used; the
/// others change nothing. Gives the cache and the clock.
pub open spec fn taken_in<T>(
    es: Seq<CachedCover<T>>,
    clock: int,
    rs: Seq<DecodeResult<T>>,
    gs: Seq<Generation>,
) -> (Seq<CachedCover<T>>, int)
    decreases rs.len(),
{
    if rs.len() == 0 {
        (es, clock)
    } else {
        let before = taken_in(es, clock, rs.drop_last(), gs);
        let r = rs.last();
        if r.generation == generation_of(gs, r.game_id@) {
            (
                put_entry(before.0, CachedCover { game_id: r.game_id, texture: r.image, last_used: (before.1 + 1) as u64 }),
                before.1 + 1,
            )
        } else {
            before
        }
    }
}

/// `after` is `before` brought under the ceiling: as many entries as fit,
/// all of them from `before`, the ones that left asked for no later than
/// any that stayed; nothing leaves when all fit.
pub open spec fn trimmed<T>(before: Seq<CachedCover<T>>, after: Seq<CachedCover<T>>) -> bool {
    &&& after.len() == (if before.len() <= MAX_CACHED { before.len() } else { MAX_CACHED as nat })
    &&& before.len() <= MAX_CACHED ==> after == before
    &&& forall|k: int| 0 <= k < after.len() ==> #[trigger] before.contains(after[k])
    &&& forall|j: int, k: int|
        0 <= j < before.len() && 0 <= k < after.len() && !after.contains(#[trigger] before[j])
            ==> before[j].last_used <= (#[trigger] after[k]).last_used
}

/// The generation of a game's cover: 0 until it is first replaced.
pub open spec fn generation_of(gs: Seq<Generation>, id: Seq<char>) -> u64 {
    if exists|k: int| 0 <= k < gs.len() && gs[k].game_id@ == id {
        gs[generation_index(gs, id)].count
    } else {
        0
    }
}

/// Where a game stands among the generations, if it is there.
pub open spec fn generation_index(gs: Seq<Generation>, id: Seq<char>) -> int {
    choose|k: int| 0 <= k < gs.len() && gs[k].game_id@ == id
}

/// Every queued decode carries the current generation of its game's cover.
pub open spec fn current_jobs(q: Seq<DecodeJob>, gs: Seq<Generation>) -> bool {
    forall|k: int| 0 <= k < q.len() ==> (#[trigger] q[k]).generation == generation_of(gs, q[k].game_id@)
}

impl<T> CoverTextures<T> {
    /// No game appears twice in the cache, in flight, or among the
    /// generations.
    pub open spec fn wf(&self) -> bool {
        &&& distinct(entry_ids(self.entries@))
        &&& distinct(string_ids(self.in_flight@))
        &&& distinct(gen_ids(self.generations@))
        &&& current_jobs(self.queue@, self.generations@)
    }

    pub open spec fn cached(&self, id: Seq<char>) -> bool {
        entry_ids(self.entries@).contains(id)
    }

    pub open spec fn pending(&self, id: Seq<char>) -> bool {
        string_ids(self.in_flight@).contains(id)
    }

    pub fn new() -> (c: CoverTextures<T>)
        ensures
            c.wf(),
            c.entries@.len() == 0,
            c.in_flight@.len() == 0,
            c.queue@.len() == 0,
            c.generations@.len() == 0,
            c.decoding == 0,
            c.clock == 0,
    {
        let c = CoverTextures {
            entries: Vec::new(),
            clock: 0,
            in_flight: Vec::new(),
            decoding: 0,
            generations: Vec::new(),
            queue: Vec::new(),
        };
        assert(entry_ids(c.entries@) =~= Seq::<Seq<char>>::empty());
        assert(string_ids(c.in_flight@) =~= Seq::<Seq<char>>::empty());
        assert(gen_ids(c.generations@) =~= Seq::<Seq<char>>::empty());
        c
    }

    fn entry_position(&self, id: &str) -> (r: Option<usize>)
        ensures
            match r {
                Some(p) => p < self.entries@.len() && self.entries@[p as int].game_id@ == id@,
                None => !entry_ids(self.entries@).contains(id@),
            },
    {
        let mut k: usize = 0;
        while k < self.entries.len()
            invariant
                k <= self.entries@.len(),
                forall|j: int| 0 <= j < k ==> self.entries@[j].game_id@ != id@,
            decreases self.entries.len() - k,
        {
            if same_text(self.entries[k].game_id.as_str(), id) {
                return Some(k);
            }
            k += 1;
        }
        proof {
            if entry_ids(self.entries@).contains(id@) {
                let j = choose|j: int| 0 <= j < entry_ids(self.entries@).len() && entry_ids(self.entries@)[j] == id@;
                assert(self.entries@[j].game_id@ == id@);
            }
        }
        None
    }

    fn in_flight_position(&self, id: &str) -> (r: Option<usize>)
        ensures
            match r {
                Some(p) => p < self.in_flight@.len() && self.in_flight@[p as int]@ == id@,
                None => !string_ids(self.in_flight@).contains(id@),
            },
    {
        let mut k: usize = 0;
        while k < self.in_flight.len()
            invariant
                k <= self.in_flight@.len(),
                forall|j: int| 0 <= j < k ==> self.in_flight@[j]@ != id@,
            decreases self.in_flight.len() - k,
        {
            if same_text(self.in_flight[k].as_str(), id) {
                return Some(k);
            }
            k += 1;
        }
        proof {
            if string_ids(self.in_flight@).contains(id@) {
                let j = choose|j: int| 0 <= j < string_ids(self.in_flight@).len() && string_ids(self.in_flight@)[j] == id@;
                assert(self.in_flight@[j]@ == id@);
            }
        }
        None
    }

    fn generation_position(&self, id: &str) -> (r: Option<usize>)
        requires
            distinct(gen_ids(self.generations@)),
        ensures
            match r {
                Some(p) => p < self.generations@.len() && self.generations@[p as int].game_id@ == id@
                    && generation_of(self.generations@, id@) == self.generations@[p as int].count,
                None => !gen_ids(self.generations@).contains(id@) && generation_of(self.generations@, id@) == 0,
            },
    {
        let mut k: usize = 0;
        while k < self.generations.len()
            invariant
                k <= self.generations@.len(),
                distinct(gen_ids(self.generations@)),
                forall|j: int| 0 <= j < k ==> self.generations@[j].game_id@ != id@,
            decreases self.generations.len() - k,
        {
            if same_text(self.generations[k].game_id.as_str(), id) {
                proof {
                    let gs = self.generations@;
                    assert(gs[k as int].game_id@ == id@);
                    let c = generation_index(gs, id@);
                    assert(gen_ids(gs)[c] == gs[c].game_id@);
                    assert(gen_ids(gs)[k as int] == gs[k as int].game_id@);
                    assert(c == k);
                }
                return Some(k);
            }
            k += 1;
        }
        proof {
            if gen_ids(self.generations@).contains(id@) {
                let j = choose|j: int| 0 <= j < gen_ids(self.generations@).len() && gen_ids(self.generations@)[j] == id@;
                assert(self.generations@[j].game_id@ == id@);
            }
        }
        None
    }

    /// The current generation of a game's cover.
    pub fn generation(&self, id: &str) -> (g: u64)
        requires
            self.wf(),
        ensures
            g == generation_of(self.generations@, id@),
    {
        match self.generation_position(id) {
            Some(p) => self.generations[p].count,
            None => 0,
        }
    }

    /// The texture of a game's cover if it is decoded (it is marked as just
    /// used); otherwise its decode is queued, once, and nothing is given
    /// yet. A game without a cover file gives nothing.
    pub fn get(&mut self, id: &str, path: Option<&str>) -> (r: Option<&T>)
        requires
            old(self).wf(),
            old(self).clock < u64::MAX,
        ensures
            final(self).wf(),
            path is None ==> r is None && *final(self) == *old(self),
            path is Some ==> {
                &&& final(self).clock == old(self).clock + 1
                &&& final(self).decoding == old(self).decoding
                &&& final(self).generations@ == old(self).generations@
                &&& entry_ids(final(self).entries@) == entry_ids(old(self).entries@)
                &&& old(self).cached(id@) ==> {
                    &&& final(self).in_flight@ == old(self).in_flight@
                    &&& final(self).queue@ == old(self).queue@
                }
                &&& !old(self).cached(id@) ==> r is None
                &&& !old(self).cached(id@) && !old(self).pending(id@) ==> {
                    &&& string_ids(final(self).in_flight@) == string_ids(old(self).in_flight@).push(id@)
                    &&& final(self).queue@.len() == old(self).queue@.len() + 1
                    &&& forall|k: int|
                        0 <= k < old(self).queue@.len() ==> final(self).queue@[k] == old(self).queue@[k]
                    &&& final(self).queue@.last().game_id@ == id@
                    &&& final(self).queue@.last().path@ == path.unwrap()@
                    &&& final(self).queue@.last().generation == generation_of(old(self).generations@, id@)
                }
                &&& !old(self).cached(id@) && old(self).pending(id@) ==> {
                    &&& final(self).in_flight@ == old(self).in_flight@
                    &&& final(self).queue@ == old(self).queue@
                }
            },
    {
        let p = match path {
            Some(p) => p,
            None => {
                return None;
            },
        };
        self.clock = self.clock + 1;
        match self.entry_position(id) {
            Some(i) => {
                let ghost before = self.entries@;
                let mut entries = Vec::new();
                std::mem::swap(&mut entries, &mut self.entries);
                let mut e = entries.remove(i);
                e.last_used = self.clock;
                entries.insert(i, e);
                assert(entry_ids(entries@) =~= entry_ids(before));
                self.entries = entries;
                assert(self.entries@[i as int].game_id@ == id@);
                proof {
                    assert(self.cached(id@)) by {
                        assert(entry_ids(self.entries@)[i as int] == id@);
                    }
                }
                return self.entries[i].texture.as_ref();
            },
            None => {},
        }
        match self.in_flight_position(id) {
            Some(q) => {
                assert(string_ids(self.in_flight@)[q as int] == id@);
            },
            None => {
                let generation = self.generation(id);
                let ghost before = self.in_flight@;
                self.in_flight.push(owned(id));
                assert(string_ids(self.in_flight@) =~= string_ids(before).push(id@));
                self.queue.push(DecodeJob { game_id: owned(id), generation, path: owned(p) });
                assert(distinct(string_ids(self.in_flight@))) by {
                    assert forall|a: int, b: int|
                        0 <= a < b < string_ids(self.in_flight@).len() implies string_ids(self.in_flight@)[a]
                        != string_ids(self.in_flight@)[b] by {
                        if b == string_ids(before).len() {
                            assert(string_ids(before)[a] == string_ids(self.in_flight@)[a]);
                            assert(string_ids(before).contains(string_ids(before)[a]));
                        }
                    }
                }
            },
        }
        None
    }


    /// The cover of a game was replaced: it leaves the cache, the queue and
    /// the decodes in flight, and its generation goes up, so that a decode
    /// of the old image that is still running cannot overwrite the new one.
    pub fn invalidate(&mut self, id: &str)
        requires
            old(self).wf(),
            generation_of(old(self).generations@, id@) < u64::MAX,
        ensures
            final(self).wf(),
            !final(self).cached(id@),
            !final(self).pending(id@),
            final(self).queue@ == jobs_without(old(self).queue@, id@),
            generation_of(final(self).generations@, id@) == generation_of(old(self).generations@, id@) + 1,
            forall|x: Seq<char>|
                x != id@ ==> (#[trigger] final(self).cached(x) == old(self).cached(x)),
            forall|x: Seq<char>|
                x != id@ ==> (#[trigger] final(self).pending(x) == old(self).pending(x)),
            forall|x: Seq<char>|
                x != id@ ==> #[trigger] generation_of(final(self).generations@, x) == generation_of(
                    old(self).generations@,
                    x,
                ),
            forall|k: int|
                0 <= k < final(self).entries@.len() ==> #[trigger] old(self).entries@.contains(
                    final(self).entries@[k],
                ),
            final(self).clock == old(self).clock,
            final(self).decoding == old(self).decoding,
    {
        let ghost e0 = self.entries@;
        let ghost f0 = self.in_flight@;
        let ghost g0 = self.generations@;
        let ghost q0 = self.queue@;
        match self.entry_position(id) {
            Some(i) => {
                self.entries.remove(i);
                proof {
                    lemma_remove_distinct_ids(e0, i as int);
                    let now = self.entries@;
                    assert forall|k: int| 0 <= k < now.len() implies #[trigger] e0.contains(now[k]) by {
                        if k < i {
                            assert(now[k] == e0[k]);
                        } else {
                            assert(now[k] == e0[k + 1]);
                        }
                    }
                }
            },
            None => {
                assert(entry_ids(self.entries@) == entry_ids(e0));
                assert forall|k: int| 0 <= k < e0.len() implies #[trigger] e0.contains(e0[k]) by {}
            },
        }
        match self.in_flight_position(id) {
            Some(i) => {
                self.in_flight.remove(i);
                proof {
                    lemma_remove_distinct_strings(f0, i as int);
                }
            },
            None => {},
        }
        let mut kept: Vec<DecodeJob> = Vec::new();
        let mut k: usize = 0;
        while k < self.queue.len()
            invariant
                k <= self.queue@.len(),
                kept@ == jobs_without(self.queue@.take(k as int), id@),
            decreases self.queue.len() - k,
        {
            assert(self.queue@.take(k + 1).drop_last() == self.queue@.take(k as int));
            if !same_text(self.queue[k].game_id.as_str(), id) {
                kept.push(self.queue[k].duplicate());
            }
            k += 1;
        }
        assert(self.queue@.take(self.queue@.len() as int) == self.queue@);
        self.queue = kept;
        match self.generation_position(id) {
            Some(i) => {
                let mut gens = Vec::new();
                std::mem::swap(&mut gens, &mut self.generations);
                let mut g = gens.remove(i);
                g.count = g.count + 1;
                let ghost gv = g;
                gens.insert(i, g);
                self.generations = gens;
                proof {
                    assert(self.generations@ =~= g0.update(i as int, gv));
                    assert(gen_ids(self.generations@) =~= gen_ids(g0));
                    lemma_generation_at(self.generations@, i as int);
                    assert forall|x: Seq<char>| x != id@ implies #[trigger] generation_of(self.generations@, x)
                        == generation_of(g0, x) by {
                        lemma_generation_same(g0, self.generations@, x);
                    }
                }
            },
            None => {
                self.generations.push(Generation { game_id: owned(id), count: 1 });
                proof {
                    assert(gen_ids(self.generations@) =~= gen_ids(g0).push(id@));
                    lemma_push_distinct(gen_ids(g0), id@);
                    lemma_generation_at(self.generations@, g0.len() as int);
                    assert forall|x: Seq<char>| x != id@ implies #[trigger] generation_of(self.generations@, x)
                        == generation_of(g0, x) by {
                        lemma_generation_same(g0, self.generations@, x);
                    }
                }
            },
        }
        proof {
            lemma_jobs_without(q0, id@);
            let q = self.queue@;
            assert forall|k: int| 0 <= k < q.len() implies (#[trigger] q[k]).generation == generation_of(
                self.generations@,
                q[k].game_id@,
            ) by {
                assert(q0.contains(q[k]));
                let j = choose|j: int| 0 <= j < q0.len() && q0[j] == q[k];
                assert(q0[j].generation == generation_of(g0, q0[j].game_id@));
            }
        }
    }

    /// Starts queued decodes while slots are free; gives them, oldest first.
    pub fn start_ready(&mut self) -> (started: Vec<DecodeJob>)
        requires
            old(self).wf(),
        ensures
            final(self).wf(),
            ({
                let n = decode_starts(old(self).decoding as nat, old(self).queue@.len());
                &&& started@ == old(self).queue@.take(n as int)
                &&& final(self).queue@ == old(self).queue@.skip(n as int)
                &&& final(self).decoding == old(self).decoding + n
            }),
            final(self).entries@ == old(self).entries@,
            final(self).in_flight@ == old(self).in_flight@,
            final(self).generations@ == old(self).generations@,
            final(self).clock == old(self).clock,
    {
        let mut started: Vec<DecodeJob> = Vec::new();
        if self.decoding >= MAX_CONCURRENT_DECODES {
            assert(self.queue@.skip(0) == self.queue@);
            return started;
        }
        let free = MAX_CONCURRENT_DECODES - self.decoding;
        let n: usize = if self.queue.len() < free { self.queue.len() } else { free };
        let mut rest: Vec<DecodeJob> = Vec::new();
        let mut k: usize = 0;
        while k < self.queue.len()
            invariant
                k <= self.queue@.len(),
                n <= self.queue@.len(),
                self.queue@ == old(self).queue@,
                k <= n ==> started@ == self.queue@.take(k as int) && rest@.len() == 0,
                k > n ==> started@ == self.queue@.take(n as int) && rest@ == self.queue@.subrange(n as int, k as int),
            decreases self.queue.len() - k,
        {
            let job = self.queue[k].duplicate();
            if k < n {
                started.push(job);
                assert(started@ == self.queue@.take(k + 1));
            } else {
                rest.push(job);
                assert(rest@ == self.queue@.subrange(n as int, k + 1));
            }
            k += 1;
        }
        if self.queue.len() == n {
            assert(self.queue@.take(n as int) == self.queue@);
        }
        assert(rest@ == self.queue@.skip(n as int));
        self.queue = rest;
        self.decoding = self.decoding + n;
        started
    }

    /// A decode finished. A result for an older generation of the cover is
    /// dropped: the cover was replaced while it ran, and the new request
    /// owns the game now. Otherwise the texture (or its absence) is kept,
    /// as just used. Returns whether it was kept.
    pub fn arrived(&mut self, id: String, generation: u64, texture: Option<T>) -> (kept: bool)
        requires
            old(self).wf(),
            old(self).clock < u64::MAX,
        ensures
            final(self).wf(),
            final(self).decoding == (if old(self).decoding > 0 { old(self).decoding - 1 } else { 0 }),
            final(self).queue@ == old(self).queue@,
            final(self).generations@ == old(self).generations@,
            kept == (generation == generation_of(old(self).generations@, id@)),
            !kept ==> final(self).entries@ == old(self).entries@ && final(self).in_flight@ == old(self).in_flight@
                && final(self).clock == old(self).clock,
            kept ==> {
                &&& final(self).clock == old(self).clock + 1
                &&& final(self).cached(id@)
                &&& !final(self).pending(id@)
                &&& exists|p: int|
                    0 <= p < final(self).entries@.len() && final(self).entries@[p].game_id@ == id@
                        && final(self).entries@[p].texture == texture && final(self).entries@[p].last_used
                        == final(self).clock
                &&& forall|x: Seq<char>| x != id@ ==> (#[trigger] final(self).cached(x) == old(self).cached(x))
                &&& forall|x: Seq<char>| x != id@ ==> (#[trigger] final(self).pending(x) == old(self).pending(x))
                &&& final(self).entries@ == put_entry(
                    old(self).entries@,
                    CachedCover { game_id: id, texture, last_used: (old(self).clock + 1) as u64 },
                )
            },
    {
        self.decoding = if self.decoding > 0 { self.decoding - 1 } else { 0 };
        let current = self.generation(id.as_str());
        if generation != current {
            return false;
        }
        let ghost f0 = self.in_flight@;
        let ghost e0 = self.entries@;
        let ghost idv = id@;
        let ghost tex = texture;
        match self.in_flight_position(id.as_str()) {
            Some(i) => {
                self.in_flight.remove(i);
                proof {
                    lemma_remove_distinct_strings(f0, i as int);
                }
            },
            None => {},
        }
        self.clock = self.clock + 1;
        let stamp = self.clock;
        match self.entry_position(id.as_str()) {
            Some(i) => {
                let mut entries = Vec::new();
                std::mem::swap(&mut entries, &mut self.entries);
                entries.remove(i);
                entries.insert(i, CachedCover { game_id: id, texture, last_used: stamp });
                assert(entry_ids(entries@) =~= entry_ids(e0));
                self.entries = entries;
                proof {
                    assert(entry_ids(e0)[i as int] == idv);
                    lemma_entry_index(e0, i as int);
                    assert(self.entries@ =~= e0.update(i as int, self.entries@[i as int]));
                    assert(entry_ids(self.entries@)[i as int] == self.entries@[i as int].game_id@);
                    assert(self.entries@[i as int].texture == tex);
                    assert(self.entries@[i as int].last_used == self.clock);
                }
            },
            None => {
                self.entries.push(CachedCover { game_id: id, texture, last_used: stamp });
                proof {
                    let now = self.entries@;
                    assert(entry_ids(now) =~= entry_ids(e0).push(idv));
                    lemma_push_distinct(entry_ids(e0), idv);
                    let last = now.len() - 1;
                    assert(entry_ids(now)[last] == idv);
                    assert(now[last].texture == tex && now[last].last_used == self.clock);
                    assert forall|x: Seq<char>| x != idv implies (#[trigger] entry_ids(now).contains(x)
                        == entry_ids(e0).contains(x)) by {
                        if entry_ids(now).contains(x) {
                            let w = choose|w: int| 0 <= w < entry_ids(now).len() && entry_ids(now)[w] == x;
                            assert(entry_ids(e0)[w] == x);
                        }
                        if entry_ids(e0).contains(x) {
                            let w = choose|w: int| 0 <= w < entry_ids(e0).len() && entry_ids(e0)[w] == x;
                            assert(entry_ids(now)[w] == x);
                        }
                    }
                }
            },
        }
        true
    }

    /// The work of one frame: the queued decodes that fit in the free slots
    /// start (they are handed back, oldest first, for the program to run),
    /// then the finished decodes are taken in, in order; if any of them was
    /// kept, the cache is brought back under its ceiling.
    pub fn pump(&mut self, finished: Vec<DecodeResult<T>>) -> (started: Vec<DecodeJob>)
        requires
            old(self).wf(),
            old(self).clock + finished@.len() < u64::MAX,
        ensures
            final(self).wf(),
            ({
                let n = decode_starts(old(self).decoding as nat, old(self).queue@.len());
                &&& started@ == old(self).queue@.take(n as int)
                &&& final(self).queue@ == old(self).queue@.skip(n as int)
                &&& final(self).decoding == after_ends((old(self).decoding + n) as nat, finished@.len())
            }),
            final(self).generations@ == old(self).generations@,
            (forall|k: int| 0 <= k < finished@.len() ==> #[trigger] finished@[k].generation
                != generation_of(old(self).generations@, finished@[k].game_id@)) ==> {
                &&& final(self).entries@ == old(self).entries@
                &&& final(self).in_flight@ == old(self).in_flight@
            },
            (exists|k: int| 0 <= k < finished@.len() && #[trigger] finished@[k].generation
                == generation_of(old(self).generations@, finished@[k].game_id@)) ==> final(self).entries@.len()
                <= MAX_CACHED,
            ({
                let after = taken_in(old(self).entries@, old(self).clock as int, finished@, old(self).generations@);
                &&& final(self).clock == after.1
                &&& (exists|k: int| 0 <= k < finished@.len() && #[trigger] finished@[k].generation
                    == generation_of(old(self).generations@, finished@[k].game_id@)) ==> trimmed(
                    after.0,
                    final(self).entries@,
                )
            }),
            forall|x: Seq<char>|
                #[trigger] final(self).pending(x) == (old(self).pending(x) && !settled(
                    finished@,
                    old(self).generations@,
                    x,
                )),
    {
        let started = self.start_ready();
        let ghost d1 = self.decoding as nat;
        let ghost all = finished@;
        let ghost e1 = self.entries@;
        let ghost f1 = self.in_flight@;
        assert(all.len() == finished.len());
        assert(all.take(0) =~= Seq::<DecodeResult<T>>::empty());
        let mut rest = finished;
        let mut any = false;
        let mut k: usize = 0;
        while rest.len() > 0
            invariant
                self.wf(),
                k + rest@.len() == all.len(),
                all.len() <= usize::MAX,
                rest@ == all.skip(k as int),
                self.clock <= old(self).clock + k,
                old(self).clock + all.len() < u64::MAX,
                self.decoding == after_ends(d1, k as nat),
                self.generations@ == old(self).generations@,
                self.queue@ == old(self).queue@.skip(
                    decode_starts(old(self).decoding as nat, old(self).queue@.len()) as int,
                ),
                any == (exists|j: int| 0 <= j < k && #[trigger] all[j].generation
                    == generation_of(old(self).generations@, all[j].game_id@)),
                !any ==> self.entries@ == e1 && self.in_flight@ == f1,
                (self.entries@, self.clock as int) == taken_in(e1, old(self).clock as int, all.take(k as int), old(self).generations@),
                e1 == old(self).entries@,
                f1 == old(self).in_flight@,
                forall|x: Seq<char>|
                    #[trigger] self.pending(x) == (string_ids(f1).contains(x) && !settled(
                        all.take(k as int),
                        old(self).generations@,
                        x,
                    )),
            decreases rest@.len(),
        {
            let r = rest.remove(0);
            let ghost gv = r.generation;
            let ghost idv = r.game_id@;
            let ghost before = *self;
            assert(r == all[k as int]);
            let kept = self.arrived(r.game_id, r.generation, r.image);
            proof {
                let gs = old(self).generations@;
                let a = all.take(k as int);
                let b = all.take(k + 1);
                assert(b.drop_last() == a);
                assert(b.last() == all[k as int]);
                assert forall|x: Seq<char>| #[trigger] settled(b, gs, x) == (settled(a, gs, x) || (x == idv && gv
                    == generation_of(gs, x))) by {
                    if settled(b, gs, x) {
                        let j = choose|j: int| 0 <= j < b.len() && (#[trigger] b[j]).game_id@ == x && b[j].generation
                            == generation_of(gs, x);
                        if j < k {
                            assert(a[j] == b[j]);
                        } else {
                            assert(b[j] == all[k as int]);
                        }
                    }
                    if settled(a, gs, x) {
                        let j = choose|j: int| 0 <= j < a.len() && (#[trigger] a[j]).game_id@ == x && a[j].generation
                            == generation_of(gs, x);
                        assert(b[j] == a[j]);
                    }
                    if x == idv && gv == generation_of(gs, x) {
                        assert(b[k as int] == all[k as int]);
                    }
                }
                assert forall|x: Seq<char>| #[trigger] self.pending(x) == (string_ids(f1).contains(x) && !settled(
                    b,
                    gs,
                    x,
                )) by {
                    assert(before.pending(x) == (string_ids(f1).contains(x) && !settled(a, gs, x)));
                    if !kept {
                        assert(self.in_flight@ == before.in_flight@);
                    }
                }
            }
            if kept {
                any = true;
            }
            proof {
                assert(rest@ == all.skip(k + 1));
                if !any {
                    assert forall|j: int| 0 <= j < k + 1 implies !(#[trigger] all[j].generation
                        == generation_of(old(self).generations@, all[j].game_id@)) by {
                        if j == k {
                            assert(all[j].generation == gv && all[j].game_id@ == idv);
                        }
                    }
                } else if kept {
                    assert(all[k as int].generation == generation_of(old(self).generations@, all[k as int].game_id@));
                }
            }
            k += 1;
        }
        assert(all.take(k as int) =~= all);
        let ghost mid = *self;
        if any {
            self.evict_over_budget();
        }
        proof {
            assert forall|x: Seq<char>| #[trigger] self.pending(x) == (old(self).pending(x) && !settled(
                all,
                old(self).generations@,
                x,
            )) by {
                assert(self.in_flight@ == mid.in_flight@);
                assert(mid.pending(x) == (string_ids(f1).contains(x) && !settled(
                    all.take(k as int),
                    old(self).generations@,
                    x,
                )));
            }
        }
        started
    }

    /// Above the ceiling, the covers asked for least recently leave.
    pub fn evict_over_budget(&mut self)
        requires
            old(self).wf(),
        ensures
            final(self).wf(),
            old(self).entries@.len() <= MAX_CACHED ==> final(self).entries@ == old(self).entries@,
            final(self).entries@.len() == (if old(self).entries@.len() <= MAX_CACHED {
                old(self).entries@.len()
            } else {
                MAX_CACHED as nat
            }),
            forall|k: int|
                0 <= k < final(self).entries@.len() ==> #[trigger] old(self).entries@.contains(
                    final(self).entries@[k],
                ),
            forall|j: int, k: int|
                0 <= j < old(self).entries@.len() && 0 <= k < final(self).entries@.len()
                    && !final(self).entries@.contains(#[trigger] old(self).entries@[j])
                    ==> old(self).entries@[j].last_used <= (#[trigger] final(self).entries@[k]).last_used,
            final(self).in_flight@ == old(self).in_flight@,
            final(self).queue@ == old(self).queue@,
            final(self).generations@ == old(self).generations@,
            final(self).clock == old(self).clock,
            final(self).decoding == old(self).decoding,
    {
        let ghost e0 = self.entries@;
        while self.entries.len() > MAX_CACHED
            invariant
                distinct(entry_ids(self.entries@)),
                self.entries@.len() >= (if e0.len() <= MAX_CACHED { e0.len() } else { MAX_CACHED as nat }),
                e0.len() <= MAX_CACHED ==> self.entries@ == e0,
                forall|k: int| 0 <= k < self.entries@.len() ==> #[trigger] e0.contains(self.entries@[k]),
                forall|j: int, k: int|
                    0 <= j < e0.len() && 0 <= k < self.entries@.len() && !self.entries@.contains(#[trigger] e0[j])
                        ==> e0[j].last_used <= (#[trigger] self.entries@[k]).last_used,
                self.in_flight@ == old(self).in_flight@,
                self.queue@ == old(self).queue@,
                self.generations@ == old(self).generations@,
                self.clock == old(self).clock,
                self.decoding == old(self).decoding,
                e0 == old(self).entries@,
            decreases self.entries.len(),
        {
            let mut p: usize = 0;
            let mut q: usize = 1;
            while q < self.entries.len()
                invariant
                    1 <= q <= self.entries@.len(),
                    p < q,
                    forall|k: int| 0 <= k < q ==> self.entries@[p as int].last_used <= #[trigger] self.entries@[k].last_used,
                decreases self.entries.len() - q,
            {
                if self.entries[q].last_used < self.entries[p].last_used {
                    p = q;
                }
                q += 1;
            }
            let ghost cur = self.entries@;
            self.entries.remove(p);
            proof {
                lemma_remove_distinct_ids(cur, p as int);
                let now = self.entries@;
                assert forall|k: int| 0 <= k < now.len() implies #[trigger] e0.contains(now[k]) by {
                    if k < p {
                        assert(now[k] == cur[k]);
                        assert(e0.contains(cur[k]));
                    } else {
                        assert(now[k] == cur[k + 1]);
                        assert(e0.contains(cur[k + 1]));
                    }
                }
                assert forall|j: int, k: int|
                    0 <= j < e0.len() && 0 <= k < now.len() && !now.contains(#[trigger] e0[j]) implies e0[j].last_used
                    <= (#[trigger] now[k]).last_used by {
                    let nk = if k < p { k } else { k + 1 };
                    assert(now[k] == cur[nk]);
                    if cur.contains(e0[j]) {
                        let w = choose|w: int| 0 <= w < cur.len() && cur[w] == e0[j];
                        if w != p {
                            let nw = if w < p { w } else { w - 1 };
                            assert(now[nw] == cur[w]);
                            assert(now.contains(e0[j]));
                        }
                        assert(cur[p as int].last_used <= cur[nk].last_used);
                    } else {
                        assert(cur.contains(cur[nk]));
                    }
                }
            }
        }
    }
}

/// A decode asked for before the cover was replaced carries a generation that
/// is no longer current once `invalidate` has run: `arrived` drops its
/// result, so the old image never overwrites the new one.
pub proof fn lemma_replaced_cover_drops_old_decode<T>(
    before: CoverTextures<T>,
    after: CoverTextures<T>,
    k: int,
)
    requires
        before.wf(),
        0 <= k < before.queue@.len(),
        generation_of(after.generations@, before.queue@[k].game_id@) == generation_of(
            before.generations@,
            before.queue@[k].game_id@,
        ) + 1,
    ensures
        before.queue@[k].generation != generation_of(after.generations@, before.queue@[k].game_id@),
{
}

/// What is left of the queue came from it, and is for other games.
proof fn lemma_jobs_without(q: Seq<DecodeJob>, id: Seq<char>)
    ensures
        forall|k: int| 0 <= k < jobs_without(q, id).len() ==> #[trigger] q.contains(jobs_without(q, id)[k])
            && jobs_without(q, id)[k].game_id@ != id,
    decreases q.len(),
{
    if q.len() > 0 {
        let r = q.drop_last();
        lemma_jobs_without(r, id);
        assert forall|k: int| 0 <= k < jobs_without(q, id).len() implies #[trigger] q.contains(
            jobs_without(q, id)[k],
        ) && jobs_without(q, id)[k].game_id@ != id by {
            let w = jobs_without(r, id);
            if k < w.len() {
                assert(jobs_without(q, id)[k] == w[k]);
                assert(r.contains(w[k]));
                let j = choose|j: int| 0 <= j < r.len() && r[j] == w[k];
                assert(q[j] == r[j]);
            } else {
                assert(jobs_without(q, id)[k] == q.last());
                assert(q[q.len() - 1] == q.last());
            }
        }
    }
}

proof fn lemma_remove_distinct_ids<T>(es: Seq<CachedCover<T>>, i: int)
    requires
        0 <= i < es.len(),
        distinct(entry_ids(es)),
    ensures
        entry_ids(es.remove(i)) == entry_ids(es).remove(i),
        distinct(entry_ids(es.remove(i))),
        !entry_ids(es.remove(i)).contains(es[i].game_id@),
        forall|x: Seq<char>|
            x != es[i].game_id@ ==> (#[trigger] entry_ids(es.remove(i)).contains(x) == entry_ids(es).contains(x)),
{
    let ids = entry_ids(es);
    assert(entry_ids(es.remove(i)) =~= ids.remove(i));
    lemma_remove_distinct(ids, i);
}

proof fn lemma_remove_distinct_strings(ss: Seq<String>, i: int)
    requires
        0 <= i < ss.len(),
        distinct(string_ids(ss)),
    ensures
        distinct(string_ids(ss.remove(i))),
        !string_ids(ss.remove(i)).contains(ss[i]@),
        forall|x: Seq<char>|
            x != ss[i]@ ==> (#[trigger] string_ids(ss.remove(i)).contains(x) == string_ids(ss).contains(x)),
{
    let ids = string_ids(ss);
    assert(string_ids(ss.remove(i)) =~= ids.remove(i));
    lemma_remove_distinct(ids, i);
}

proof fn lemma_remove_distinct(ids: Seq<Seq<char>>, i: int)
    requires
        0 <= i < ids.len(),
        distinct(ids),
    ensures
        distinct(ids.remove(i)),
        !ids.remove(i).contains(ids[i]),
        forall|x: Seq<char>| x != ids[i] ==> (#[trigger] ids.remove(i).contains(x) == ids.contains(x)),
{
    let r = ids.remove(i);
    assert forall|a: int, b: int| 0 <= a < b < r.len() implies r[a] != r[b] by {
        let na = if a < i { a } else { a + 1 };
        let nb = if b < i { b } else { b + 1 };
        assert(r[a] == ids[na] && r[b] == ids[nb]);
    }
    if r.contains(ids[i]) {
        let w = choose|w: int| 0 <= w < r.len() && r[w] == ids[i];
        let nw = if w < i { w } else { w + 1 };
        assert(r[w] == ids[nw]);
    }
    assert forall|x: Seq<char>| x != ids[i] implies (#[trigger] r.contains(x) == ids.contains(x)) by {
        if r.contains(x) {
            let w = choose|w: int| 0 <= w < r.len() && r[w] == x;
            let nw = if w < i { w } else { w + 1 };
            assert(ids[nw] == x);
        }
        if ids.contains(x) {
            let w = choose|w: int| 0 <= w < ids.len() && ids[w] == x;
            let nw = if w < i { w } else { w - 1 };
            assert(r[nw] == x);
        }
    }
}

proof fn lemma_push_distinct(ids: Seq<Seq<char>>, x: Seq<char>)
    requires
        distinct(ids),
        !ids.contains(x),
    ensures
        distinct(ids.push(x)),
{
    let r = ids.push(x);
    assert forall|a: int, b: int| 0 <= a < b < r.len() implies r[a] != r[b] by {
        if b == ids.len() {
            assert(r[a] == ids[a]);
            assert(ids.contains(ids[a]));
        }
    }
}

/// In a cache without repeated games, the game at `i` stands at `i`.
proof fn lemma_entry_index<T>(es: Seq<CachedCover<T>>, i: int)
    requires
        0 <= i < es.len(),
        distinct(entry_ids(es)),
    ensures
        entry_index(es, es[i].game_id@) == i,
{
    let id = es[i].game_id@;
    assert(0 <= i < es.len() && es[i].game_id@ == id);
    let c = entry_index(es, id);
    assert(entry_ids(es)[c] == es[c].game_id@);
    assert(entry_ids(es)[i] == es[i].game_id@);
    if c < i {
        assert(entry_ids(es)[c] != entry_ids(es)[i]);
    } else if i < c {
        assert(entry_ids(es)[i] != entry_ids(es)[c]);
    }
}

/// In a list without repeated games, the generation of the game at `i` is
/// the count stored there.
proof fn lemma_generation_at(gs: Seq<Generation>, i: int)
    requires
        0 <= i < gs.len(),
        distinct(gen_ids(gs)),
    ensures
        generation_of(gs, gs[i].game_id@) == gs[i].count,
{
    let id = gs[i].game_id@;
    assert(0 <= i < gs.len() && gs[i].game_id@ == id);
    let c = generation_index(gs, id);
    assert(gen_ids(gs)[c] == gs[c].game_id@);
    assert(gen_ids(gs)[i] == gs[i].game_id@);
    if c < i {
        assert(gen_ids(gs)[c] != gen_ids(gs)[i]);
    } else if i < c {
        assert(gen_ids(gs)[i] != gen_ids(gs)[c]);
    }
    assert(c == i);
}

/// Two lists of generations that hold the same entries for `x`, at the same
/// places, give `x` the same generation.
proof fn lemma_generation_same(a: Seq<Generation>, b: Seq<Generation>, x: Seq<char>)
    requires
        distinct(gen_ids(a)),
        distinct(gen_ids(b)),
        a.len() <= b.len(),
        forall|k: int| 0 <= k < a.len() && a[k].game_id@ == x ==> b[k] == a[k],
        forall|k: int| 0 <= k < b.len() && b[k].game_id@ == x ==> k < a.len() && a[k] == b[k],
    ensures
        generation_of(b, x) == generation_of(a, x),
{
    if exists|k: int| 0 <= k < b.len() && b[k].game_id@ == x {
        let k = choose|k: int| 0 <= k < b.len() && b[k].game_id@ == x;
        lemma_generation_at(b, k);
        lemma_generation_at(a, k);
    } else if exists|j: int| 0 <= j < a.len() && a[j].game_id@ == x {
        let j = choose|j: int| 0 <= j < a.len() && a[j].game_id@ == x;
        assert(b[j].game_id@ == x);
    }
}

/// Taking one cover in keeps the games unrepeated, adds its game, and keeps
/// every entry of another game where it was.
proof fn lemma_put_entry<T>(es: Seq<CachedCover<T>>, e: CachedCover<T>)
    requires
        distinct(entry_ids(es)),
    ensures
        distinct(entry_ids(put_entry(es, e))),
        put_entry(es, e).contains(e),
        forall|x: Seq<char>|
            #[trigger] entry_ids(put_entry(es, e)).contains(x) == (entry_ids(es).contains(x) || x == e.game_id@),
        forall|j: int|
            0 <= j < es.len() && es[j].game_id@ != e.game_id@ ==> #[trigger] put_entry(es, e).contains(es[j]),
{
    let r = put_entry(es, e);
    if entry_ids(es).contains(e.game_id@) {
        let w = choose|w: int| 0 <= w < entry_ids(es).len() && entry_ids(es)[w] == e.game_id@;
        assert(es[w].game_id@ == e.game_id@);
        let i = entry_index(es, e.game_id@);
        assert(entry_ids(r) =~= entry_ids(es));
        assert(r[i] == e);
        assert forall|j: int| 0 <= j < es.len() && es[j].game_id@ != e.game_id@ implies #[trigger] r.contains(
            es[j],
        ) by {
            assert(r[j] == es[j]);
        }
    } else {
        assert(entry_ids(r) =~= entry_ids(es).push(e.game_id@));
        lemma_push_distinct(entry_ids(es), e.game_id@);
        assert(r[es.len() as int] == e);
        assert forall|j: int| 0 <= j < es.len() && es[j].game_id@ != e.game_id@ implies #[trigger] r.contains(
            es[j],
        ) by {
            assert(r[j] == es[j]);
        }
        assert forall|x: Seq<char>| #[trigger] entry_ids(r).contains(x) == (entry_ids(es).contains(x) || x
            == e.game_id@) by {
            if entry_ids(es).contains(x) {
                let w = choose|w: int| 0 <= w < entry_ids(es).len() && entry_ids(es)[w] == x;
                assert(entry_ids(r)[w] == x);
            }
            if x == e.game_id@ {
                assert(entry_ids(r)[es.len() as int] == x);
            }
            if entry_ids(r).contains(x) && x != e.game_id@ {
                let w = choose|w: int| 0 <= w < entry_ids(r).len() && entry_ids(r)[w] == x;
                assert(entry_ids(es)[w] == x);
            }
        }
    }
}

/// The finished decode at `k` is for the current generation of its cover,
/// and no later finished decode for the same game is.
pub open spec fn last_current<T>(rs: Seq<DecodeResult<T>>, gs: Seq<Generation>, k: int) -> bool {
    &&& 0 <= k < rs.len()
    &&& rs[k].generation == generation_of(gs, rs[k].game_id@)
    &&& forall|j: int|
        k < j < rs.len() && #[trigger] rs[j].game_id@ == rs[k].game_id@ ==> rs[j].generation != generation_of(
            gs,
            rs[k].game_id@,
        )
}

/// What taking finished decodes in does to the cache, before any cover is
/// evicted: no game leaves; the cover of a decode whose generation is
/// current is cached with the image it carried (the last such decode of a
/// game wins), a failed decode included, as a missing image; every cached
/// cover of a game that no such decode is for stays as it was.
pub proof fn lemma_taken_in_keeps_covers<T>(
    es: Seq<CachedCover<T>>,
    clock: int,
    rs: Seq<DecodeResult<T>>,
    gs: Seq<Generation>,
)
    requires
        distinct(entry_ids(es)),
    ensures
        distinct(entry_ids(taken_in(es, clock, rs, gs).0)),
        forall|x: Seq<char>|
            entry_ids(es).contains(x) ==> #[trigger] entry_ids(taken_in(es, clock, rs, gs).0).contains(x),
        forall|k: int|
            #[trigger] last_current(rs, gs, k) ==> exists|i: int|
                0 <= i < taken_in(es, clock, rs, gs).0.len() && taken_in(es, clock, rs, gs).0[i].game_id@
                    == rs[k].game_id@ && taken_in(es, clock, rs, gs).0[i].texture == rs[k].image,
        forall|j: int|
            0 <= j < es.len() && !settled(rs, gs, es[j].game_id@) ==> #[trigger] taken_in(
                es,
                clock,
                rs,
                gs,
            ).0.contains(es[j]),
    decreases rs.len(),
{
    if rs.len() > 0 {
        let p = rs.drop_last();
        lemma_taken_in_keeps_covers(es, clock, p, gs);
        let before = taken_in(es, clock, p, gs);
        let r = rs.last();
        let n = rs.len() - 1;
        assert(r == rs[n]);
        let now = taken_in(es, clock, rs, gs);
        if r.generation == generation_of(gs, r.game_id@) {
            let e = CachedCover { game_id: r.game_id, texture: r.image, last_used: (before.1 + 1) as u64 };
            assert(now.0 == put_entry(before.0, e));
            lemma_put_entry(before.0, e);
            assert forall|k: int| #[trigger] last_current(rs, gs, k) implies exists|i: int|
                0 <= i < now.0.len() && now.0[i].game_id@ == rs[k].game_id@ && now.0[i].texture == rs[k].image by {
                if k == n {
                    let i = choose|i: int| 0 <= i < now.0.len() && now.0[i] == e;
                    assert(now.0[i] == e);
                } else {
                    assert(p[k] == rs[k]);
                    assert forall|j: int| k < j < p.len() && #[trigger] p[j].game_id@ == p[k].game_id@ implies p[j].generation
                        != generation_of(gs, p[k].game_id@) by {
                        assert(p[j] == rs[j]);
                    }
                    assert(last_current(p, gs, k));
                    let i = choose|i: int| 0 <= i < before.0.len() && before.0[i].game_id@ == p[k].game_id@
                        && before.0[i].texture == p[k].image;
                    assert(rs[n].game_id@ != rs[k].game_id@);
                    assert(now.0.contains(before.0[i]));
                    let w = choose|w: int| 0 <= w < now.0.len() && now.0[w] == before.0[i];
                    assert(now.0[w] == before.0[i]);
                }
            }
            assert forall|j: int| 0 <= j < es.len() && !settled(rs, gs, es[j].game_id@) implies #[trigger] now.0.contains(
                es[j],
            ) by {
                if settled(p, gs, es[j].game_id@) {
                    let m = choose|m: int| 0 <= m < p.len() && (#[trigger] p[m]).game_id@ == es[j].game_id@
                        && p[m].generation == generation_of(gs, es[j].game_id@);
                    assert(rs[m] == p[m]);
                }
                assert(es[j].game_id@ != r.game_id@);
                assert(!settled(p, gs, es[j].game_id@));
                assert(before.0.contains(es[j]));
                let w = choose|w: int| 0 <= w < before.0.len() && before.0[w] == es[j];
                assert(before.0[w].game_id@ != e.game_id@);
                assert(now.0.contains(before.0[w]));
            }
        } else {
            assert(now == before);
            assert forall|k: int| #[trigger] last_current(rs, gs, k) implies exists|i: int|
                0 <= i < now.0.len() && now.0[i].game_id@ == rs[k].game_id@ && now.0[i].texture == rs[k].image by {
                assert(k != n);
                assert(p[k] == rs[k]);
                assert forall|j: int| k < j < p.len() && #[trigger] p[j].game_id@ == p[k].game_id@ implies p[j].generation
                    != generation_of(gs, p[k].game_id@) by {
                    assert(p[j] == rs[j]);
                }
                assert(last_current(p, gs, k));
            }
            assert forall|j: int| 0 <= j < es.len() && !settled(rs, gs, es[j].game_id@) implies #[trigger] now.0.contains(
                es[j],
            ) by {
                if settled(p, gs, es[j].game_id@) {
                    let m = choose|m: int| 0 <= m < p.len() && (#[trigger] p[m]).game_id@ == es[j].game_id@
                        && p[m].generation == generation_of(gs, es[j].game_id@);
                    assert(rs[m] == p[m]);
                }
            }
        }
    }
}

} // verus!
