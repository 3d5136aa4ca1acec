//! The release descriptor: the keys and values that name the distribution.
//!
//! The descriptor is a text of lines `KEY=VALUE`, where the value may stand
//! in double quotes. It is read once: the cache below is filled by the first
//! attempt and never changes afterwards.

use crate::text::lines;
use crate::text::lines_of;
use crate::text::slice_views;
use crate::text::split_at_first;
use crate::text::split_once;
use rustc_hash::FxHashMap;
use vstd::prelude::*;
use vstd::slice::*;

verus! {

/// The byte `=`.
pub const EQUALS: u8 = 61;

/// The byte `"`.
pub const QUOTE: u8 = 34;

/// `value` without one double quote at its start and one at its end, as far
/// as it has them.
pub open spec fn unquoted(value: Seq<u8>) -> Seq<u8> {
    let start: int = if value.len() > 0 && value[0] == QUOTE {
        1
    } else {
        0
    };
    let end: int = if value.len() > start && value.last() == QUOTE {
        value.len() - 1
    } else {
        value.len() as int
    };
    value.subrange(start, end)
}

/// Strips one double quote from each end of `value`, as far as it has them.
pub fn unquote(value: &[u8]) -> (r: &[u8])
    ensures
        r@ == unquoted(value@),
{
    let start: usize = if value.len() > 0 && value[0] == QUOTE {
        1
    } else {
        0
    };
    let end: usize = if value.len() > start && value[value.len() - 1] == QUOTE {
        value.len() - 1
    } else {
        value.len()
    };
    slice_subrange(value, start, end)
}

/// The key and the value that a line gives: what stands before its first
/// `=`, and what stands after it, unquoted. A line without `=`, and so an
/// empty line, gives nothing.
pub open spec fn release_entry(line: Seq<u8>) -> Option<(Seq<u8>, Seq<u8>)> {
    match split_at_first(line, EQUALS) {
        Some((key, value)) => Some((key, unquoted(value))),
        None => None,
    }
}

/// The mapping that a list of lines gives. Where a key stands on several
/// lines, the last of them counts.
pub open spec fn release_entries(lines: Seq<Seq<u8>>) -> Map<Seq<u8>, Seq<u8>>
    decreases lines.len(),
{
    if lines.len() == 0 {
        Map::empty()
    } else {
        match release_entry(lines.last()) {
            Some((key, value)) => release_entries(lines.drop_last()).insert(key, value),
            None => release_entries(lines.drop_last()),
        }
    }
}

/// The mapping that the text of a release descriptor gives.
pub open spec fn release_map(text: Seq<u8>) -> Map<Seq<u8>, Seq<u8>> {
    release_entries(lines_of(text))
}

/// What a hash map of byte strings holds: the value of each key that it
/// has, keys and values by their bytes.
pub uninterp spec fn release_contents(map: FxHashMap<Vec<u8>, Vec<u8>>) -> Map<Seq<u8>, Seq<u8>>;

/// Whether a mapping has `count` keys and no more.
pub open spec fn has_keys(contents: Map<Seq<u8>, Seq<u8>>, count: nat) -> bool {
    contents.dom().finite() && contents.dom().len() == count
}

/// `FxHashMap::default`: a new map, which holds nothing.
#[verifier::external_body]
fn fx_map_new() -> (fresh: FxHashMap<Vec<u8>, Vec<u8>>)
    ensures
        has_keys(release_contents(fresh), 0),
{
    FxHashMap::default()
}

/// `HashMap::insert` on a map that hashes with `FxBuildHasher`. Byte
/// strings are equal, and hash alike, exactly where their bytes are the
/// same, so the map holds afterwards what it held, but for `key`, which has
/// the value `value`.
#[verifier::external_body]
fn fx_map_insert(map: &mut FxHashMap<Vec<u8>, Vec<u8>>, key: Vec<u8>, value: Vec<u8>)
    ensures
        release_contents(*final(map)) == release_contents(*old(map)).insert(key@, value@),
{
    map.insert(key, value);
}

/// `HashMap::get` on a map that hashes with `FxBuildHasher`: the value of
/// the key with the bytes of `key`, if the map has that key.
#[verifier::external_body]
fn fx_map_get<'a>(map: &'a FxHashMap<Vec<u8>, Vec<u8>>, key: &[u8]) -> (value: Option<&'a [u8]>)
    ensures
        match value {
            Some(found) => release_contents(*map).contains_key(key@) && release_contents(
                *map,
            )[key@] == found@,
            None => !release_contents(*map).contains_key(key@),
        },
{
    map.get(key).map(|found| found.as_slice())
}

/// `HashMap::len`: the number of keys, of which there are finitely many.
#[verifier::external_body]
fn fx_map_len(map: &FxHashMap<Vec<u8>, Vec<u8>>) -> (count: usize)
    ensures
        has_keys(release_contents(*map), count as nat),
{
    map.len()
}

/// A mapping from keys to values, both byte strings. No key is held twice.
#[derive(Debug)]
pub struct ReleaseMap {
    map: FxHashMap<Vec<u8>, Vec<u8>>,
}

impl View for ReleaseMap {
    type V = Map<Seq<u8>, Seq<u8>>;

    closed spec fn view(&self) -> Map<Seq<u8>, Seq<u8>> {
        release_contents(self.map)
    }
}

impl ReleaseMap {
    /// A mapping that holds nothing.
    pub fn new() -> (map: ReleaseMap)
        ensures
            map@ == Map::<Seq<u8>, Seq<u8>>::empty(),
    {
        let map = ReleaseMap { map: fx_map_new() };
        proof {
            map@.dom().lemma_len0_is_empty();
            assert(map@ =~= Map::<Seq<u8>, Seq<u8>>::empty());
        }
        map
    }

    /// The mapping with `value` as the value of `key`, in place of the one it
    /// had, if any.
    pub fn with(self, key: Vec<u8>, value: Vec<u8>) -> (map: ReleaseMap)
        ensures
            map@ == self@.insert(key@, value@),
    {
        let mut map = self.map;
        fx_map_insert(&mut map, key, value);
        ReleaseMap { map }
    }

    /// The value of `key`, if it has one.
    pub fn get(&self, key: &[u8]) -> (r: Option<&[u8]>)
        ensures
            match r {
                Some(value) => self@.contains_key(key@) && self@[key@] == value@,
                None => !self@.contains_key(key@),
            },
    {
        fx_map_get(&self.map, key)
    }

    /// The number of keys.
    pub fn len(&self) -> (r: usize)
        ensures
            self@.dom().finite(),
            r == self@.dom().len(),
    {
        fx_map_len(&self.map)
    }

    /// Whether the mapping holds nothing.
    pub fn is_empty(&self) -> (r: bool)
        ensures
            r == (self@ == Map::<Seq<u8>, Seq<u8>>::empty()),
    {
        let count = fx_map_len(&self.map);
        proof {
            if count == 0 {
                self@.dom().lemma_len0_is_empty();
                assert(self@ =~= Map::<Seq<u8>, Seq<u8>>::empty());
            } else {
                assert(self@.dom().len() != 0);
                assert(Map::<Seq<u8>, Seq<u8>>::empty().dom() =~= Set::empty());
            }
        }
        count == 0
    }
}

/// Reads the text of a release descriptor. Each line with an `=` gives a
/// key and a value; the other lines give nothing.
pub fn parse_release(text: &[u8]) -> (map: ReleaseMap)
    ensures
        map@ == release_map(text@),
{
    let all = lines(text);
    let mut map = ReleaseMap::new();
    let mut i: usize = 0;
    assert(slice_views(all@).take(0) =~= Seq::empty());
    while i < all.len()
        invariant
            i <= all.len(),
            map@ == release_entries(slice_views(all@).take(i as int)),
        decreases all.len() - i,
    {
        proof {
            let seen = slice_views(all@).take(i + 1);
            assert(seen.drop_last() =~= slice_views(all@).take(i as int));
            assert(seen.last() == all[i as int]@);
        }
        match split_once(all[i], EQUALS) {
            Some((key, value)) => {
                map = map.with(slice_to_vec(key), slice_to_vec(unquote(value)));
            },
            None => {},
        }
        i += 1;
    }
    assert(slice_views(all@).take(i as int) =~= slice_views(all@));
    map
}

/// What a cache holds: whether it was filled, and the mapping.
pub struct CacheState {
    /// Whether an attempt to fill the cache was made.
    pub attempted: bool,
    /// The mapping, which is empty until the cache is filled.
    pub map: Map<Seq<u8>, Seq<u8>>,
}

/// The state of a cache after an attempt to fill it with `content`, the text
/// of the descriptor, or nothing where the descriptor could not be read.
/// Only the first attempt counts.
pub open spec fn populated(state: CacheState, content: Option<Seq<u8>>) -> CacheState {
    if state.attempted {
        state
    } else {
        CacheState {
            attempted: true,
            map: match content {
                Some(text) => release_map(text),
                None => Map::empty(),
            },
        }
    }
}

/// The release descriptor, read at most once.
#[derive(Debug)]
pub struct ReleaseCache {
    attempted: bool,
    map: ReleaseMap,
}

impl View for ReleaseCache {
    type V = CacheState;

    closed spec fn view(&self) -> CacheState {
        CacheState { attempted: self.attempted, map: self.map@ }
    }
}

impl ReleaseCache {
    #[verifier::type_invariant]
    spec fn well_formed(self) -> bool {
        !self.attempted ==> self.map@ == Map::<Seq<u8>, Seq<u8>>::empty()
    }

    /// A cache that no attempt has filled yet.
    pub fn new() -> (cache: ReleaseCache)
        ensures
            !cache@.attempted,
            cache@.map == Map::<Seq<u8>, Seq<u8>>::empty(),
    {
        ReleaseCache { attempted: false, map: ReleaseMap::new() }
    }

    /// Whether the descriptor is still to be read.
    pub fn needs_population(&self) -> (r: bool)
        ensures
            r == !self@.attempted,
            r ==> self@.map == Map::<Seq<u8>, Seq<u8>>::empty(),
    {
        proof {
            use_type_invariant(self);
        }
        !self.attempted
    }

    /// Fills the cache with the text of the descriptor, or leaves it empty
    /// for good where the descriptor could not be read. Any later call
    /// changes nothing.
    pub fn populate(&mut self, content: Option<&[u8]>)
        ensures
            final(self)@ == populated(
                old(self)@,
                match content {
                    Some(text) => Some(text@),
                    None => None,
                },
            ),
    {
        if self.attempted {
            return ;
        }
        proof {
            use_type_invariant(&*self);
        }
        let map = match content {
            Some(text) => parse_release(text),
            None => ReleaseMap::new(),
        };
        *self = ReleaseCache { attempted: true, map };
    }

    /// The value of `key` in the descriptor, if it has one.
    pub fn get(&self, key: &[u8]) -> (r: Option<&[u8]>)
        ensures
            match r {
                Some(value) => self@.map.contains_key(key@) && self@.map[key@] == value@,
                None => !self@.map.contains_key(key@),
            },
    {
        self.map.get(key)
    }
}

/// Reading the same text twice gives the same mapping.
pub proof fn lemma_two_readings_agree(
    text: Seq<u8>,
    first: Map<Seq<u8>, Seq<u8>>,
    second: Map<Seq<u8>, Seq<u8>>,
)
    requires
        first == release_map(text),
        second == release_map(text),
    ensures
        first == second,
{
}

/// Filling a cache is idempotent: after the first attempt a second one,
/// with whatever content, changes nothing.
pub proof fn lemma_population_is_idempotent(
    state: CacheState,
    first: Option<Seq<u8>>,
    second: Option<Seq<u8>>,
)
    ensures
        populated(populated(state, first), second) == populated(state, first),
{
}

/// A cache is either untouched and empty, or filled for good: no attempt
/// leaves it with a part of a mapping.
pub proof fn lemma_population_is_whole(state: CacheState, content: Option<Seq<u8>>)
    requires
        !state.attempted,
    ensures
        populated(state, content).attempted,
        populated(state, content).map == match content {
            Some(text) => release_map(text),
            None => Map::empty(),
        },
{
}

} // verus!
