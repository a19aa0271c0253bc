//! Recursive listing: a breadth-first walk over a delimiter-based listing
//! API, with a bounded number of listings in flight.
//!
//! [`RecursiveLister`] holds the frontier and the results gathered so far. It
//! says which prefix to list next, takes each listing's outcome, and in the
//! end hands out the sorted result. The driver makes the listing calls.

use crate::metadata::{directory_entry, DirectoryListing, ListResult, ObjectMetadata};
use crate::path::{canonical_path, canonicalize_path};
use crate::text::{lemma_lex_le_antisymmetric, lex_le, str_ends_with};
use std::collections::VecDeque;
use vstd::prelude::*;

verus! {

/// A key passes the optional suffix filter.
pub open spec fn key_matches(key: Seq<char>, suffix: Option<String>) -> bool {
    match suffix {
        Some(s) => s@.is_suffix_of(key),
        None => true,
    }
}

/// The entries whose key passes the suffix filter, in their order.
pub open spec fn matching(entries: Seq<ObjectMetadata>, suffix: Option<String>) -> Seq<
    ObjectMetadata,
> {
    entries.filter(|m: ObjectMetadata| key_matches(m.key@, suffix))
}

/// `s`, cut down to its first `limit` elements where a limit is set.
pub open spec fn capped<A>(s: Seq<A>, limit: Option<usize>) -> Seq<A> {
    match limit {
        Some(x) => if x < s.len() {
            s.take(x as int)
        } else {
            s
        },
        None => s,
    }
}

/// What one listing contributes: the entries that pass the suffix filter, at
/// most `limit` of them.
pub open spec fn selected(
    entries: Seq<ObjectMetadata>,
    limit: Option<usize>,
    suffix: Option<String>,
) -> Seq<ObjectMetadata> {
    capped(matching(entries, suffix), limit)
}

/// Whether `key` passes the optional suffix filter.
pub fn passes_filter(key: &String, suffix: &Option<String>) -> (ok: bool)
    ensures
        ok == key_matches(key@, *suffix),
{
    match suffix {
        Some(s) => str_ends_with(key.as_str(), s.as_str()),
        None => true,
    }
}

/// Picks from the objects of one listing those that pass the suffix filter,
/// stopping once `limit` of them are found.
pub fn select_objects(
    entries: Vec<ObjectMetadata>,
    limit: Option<usize>,
    suffix: &Option<String>,
) -> (out: Vec<ObjectMetadata>)
    ensures
        out@ == selected(entries@, limit, *suffix),
{
    let mut out: Vec<ObjectMetadata> = Vec::new();
    let ghost src = entries@;
    let ghost pred = |m: ObjectMetadata| key_matches(m.key@, *suffix);
    let mut full: bool = false;
    for entry in it: entries.into_iter()
        invariant
            it.seq() == src,
            pred == (|m: ObjectMetadata| key_matches(m.key@, *suffix)),
            out@ == capped(src.take(it.index() as int).filter(pred), limit),
            full ==> limit is Some && out@.len() >= limit->0,
    {
        proof {
            let i = it.index() as int;
            assert(src.take(i + 1).drop_last() == src.take(i));
            assert(src.take(i + 1).last() == entry);
            assert(src.take(i + 1) == src.take(i).push(entry));
            src.take(i).lemma_filter_push(entry, pred);
        }
        if !full {
            let at_limit: bool = match limit {
                Some(x) => out.len() >= x,
                None => false,
            };
            if at_limit {
                full = true;
            } else if passes_filter(&entry.key, suffix) {
                out.push(entry);
            }
        }
    }
    proof {
        assert(src.take(src.len() as int) == src);
    }
    out
}

/// The prefixes that a listing at `depth` found are queued for a visit: the
/// listed directory lies above the depth bound, where one is set. (The depth
/// of the children must fit in `usize`.)
pub open spec fn expands(depth: usize, max_depth: Option<usize>) -> bool {
    depth < usize::MAX && match max_depth {
        Some(m) => depth < m,
        None => true,
    }
}

/// One listing that the driver is asked to make.
#[derive(Debug)]
pub struct ListRequest {
    /// The prefix to list, in canonical form.
    pub prefix: String,
    /// How far below the seed prefixes it lies.
    pub depth: usize,
    /// How many more objects were wanted when the request was made.
    pub remaining_limit: Option<usize>,
}

/// What the driver does next.
#[derive(Debug)]
pub enum ListAction {
    /// Start this listing, then ask again.
    List(ListRequest),
    /// Wait for one of the listings in flight, and report it with
    /// [`RecursiveLister::complete`].
    Wait,
    /// The walk is over: call [`RecursiveLister::finish`].
    Finished,
}

/// The state of a walk, as the contracts see it.
pub struct ListerState {
    /// Prefixes still to be visited, first in first out, each with its depth.
    pub frontier: Seq<(Seq<char>, usize)>,
    /// Listings started and not yet reported.
    pub outstanding: nat,
    /// Objects gathered so far, in the order in which they were reported.
    pub objects: Seq<ObjectMetadata>,
    /// Directories gathered so far, in the order in which they were reported.
    pub directories: Seq<ObjectMetadata>,
    pub limit: Option<usize>,
    pub suffix: Option<String>,
    pub max_depth: Option<usize>,
    pub max_concurrency: usize,
    /// A reported listing brought the number of objects up to the limit.
    pub limit_reached: bool,
}

impl ListerState {
    /// How many more objects are wanted.
    pub open spec fn remaining(self) -> Option<usize> {
        match self.limit {
            Some(x) => Some((x - self.objects.len()) as usize),
            None => None,
        }
    }

    /// The state after the listing of a directory at `depth`, asked for with
    /// `remaining_limit`, reported `objects` and `prefixes`.
    pub open spec fn after_listing(
        self,
        depth: usize,
        remaining_limit: Option<usize>,
        objects: Seq<ObjectMetadata>,
        prefixes: Seq<String>,
    ) -> ListerState {
        let found = self.objects + selected(objects, remaining_limit, self.suffix);
        ListerState {
            frontier: if expands(depth, self.max_depth) {
                self.frontier + prefixes.map_values(|p: String| (p@, (depth + 1) as usize))
            } else {
                self.frontier
            },
            outstanding: (self.outstanding - 1) as nat,
            objects: found,
            directories: self.directories + prefixes.map_values(|p: String| directory_entry(p)),
            limit_reached: self.limit_reached || (self.limit is Some && found.len()
                >= self.limit->0),
            ..self
        }
    }
}

/// The views of the frontier's entries.
pub open spec fn frontier_view(frontier: Seq<(String, usize)>) -> Seq<(Seq<char>, usize)> {
    frontier.map_values(|e: (String, usize)| (e.0@, e.1))
}

/// A depth-limited, concurrency-bounded breadth-first walk over listings.
pub struct RecursiveLister {
    frontier: VecDeque<(String, usize)>,
    outstanding: usize,
    objects: Vec<ObjectMetadata>,
    directories: Vec<ObjectMetadata>,
    limit: Option<usize>,
    suffix: Option<String>,
    max_depth: Option<usize>,
    max_concurrency: usize,
    limit_reached: bool,
}

impl View for RecursiveLister {
    type V = ListerState;

    closed spec fn view(&self) -> ListerState {
        ListerState {
            frontier: frontier_view(self.frontier@),
            outstanding: self.outstanding as nat,
            objects: self.objects@,
            directories: self.directories@,
            limit: self.limit,
            suffix: self.suffix,
            max_depth: self.max_depth,
            max_concurrency: self.max_concurrency,
            limit_reached: self.limit_reached,
        }
    }
}

impl RecursiveLister {
    /// The walk's invariant: the window is positive and never overfull, and
    /// while the limit is not reached no more objects are held than it allows.
    pub open spec fn wf(&self) -> bool {
        &&& self@.max_concurrency > 0
        &&& self@.outstanding <= self@.max_concurrency
        &&& !self@.limit_reached && self@.limit is Some ==> self@.objects.len() <= self@.limit->0
    }

    /// A walk that starts at `prefixes`, each at depth 0 and in canonical
    /// form, with nothing in flight and nothing found.
    pub fn new(
        prefixes: Vec<String>,
        limit: Option<usize>,
        suffix: Option<String>,
        max_depth: Option<usize>,
        max_concurrency: usize,
    ) -> (lister: RecursiveLister)
        requires
            max_concurrency > 0,
        ensures
            lister.wf(),
            lister@.frontier == prefixes@.map_values(|p: String| (canonical_path(p@), 0usize)),
            lister@.outstanding == 0,
            lister@.objects == Seq::<ObjectMetadata>::empty(),
            lister@.directories == Seq::<ObjectMetadata>::empty(),
            lister@.limit == limit,
            lister@.suffix == suffix,
            lister@.max_depth == max_depth,
            lister@.max_concurrency == max_concurrency,
            !lister@.limit_reached,
    {
        let mut frontier: VecDeque<(String, usize)> = VecDeque::new();
        let ghost seed = |p: String| (canonical_path(p@), 0usize);
        let n: usize = prefixes.len();
        let mut i: usize = 0;
        while i < n
            invariant
                n == prefixes@.len(),
                i <= n,
                seed == (|p: String| (canonical_path(p@), 0usize)),
                frontier_view(frontier@) =~= prefixes@.take(i as int).map_values(seed),
            decreases n - i,
        {
            let ghost queued = frontier@;
            let path = canonicalize_path(prefixes[i].as_str());
            frontier.push_back((path, 0));
            proof {
                assert(queued.len() == frontier_view(queued).len());
                assert forall|k: int| 0 <= k < i + 1 implies frontier_view(frontier@)[k]
                    == prefixes@.take(i + 1).map_values(seed)[k] by {
                    if k < i {
                        assert(frontier_view(queued)[k] == prefixes@.take(i as int).map_values(
                            seed,
                        )[k]);
                    }
                }
            }
            i = i + 1;
        }
        proof {
            assert(prefixes@.take(n as int) == prefixes@);
        }
        RecursiveLister {
            frontier,
            outstanding: 0,
            objects: Vec::new(),
            directories: Vec::new(),
            limit,
            suffix,
            max_depth,
            max_concurrency,
            limit_reached: false,
        }
    }

    /// Listings started and not yet reported.
    pub fn outstanding(&self) -> (n: usize)
        ensures
            n == self@.outstanding,
    {
        self.outstanding
    }

    /// Prefixes waiting in the frontier.
    pub fn pending(&self) -> (n: usize)
        ensures
            n == self@.frontier.len(),
    {
        self.frontier.len()
    }

    /// Objects gathered so far.
    pub fn objects_found(&self) -> (n: usize)
        ensures
            n == self@.objects.len(),
    {
        self.objects.len()
    }

    /// Whether a reported listing brought the number of objects up to the
    /// limit.
    pub fn limit_reached(&self) -> (b: bool)
        ensures
            b == self@.limit_reached,
    {
        self.limit_reached
    }
}

/// The entries are in ascending order of their keys.
pub open spec fn sorted_by_key(entries: Seq<ObjectMetadata>) -> bool {
    forall|i: int, j: int|
        0 <= i < j < entries.len() ==> lex_le(#[trigger] entries[i].key@, #[trigger] entries[j].key@)
}

/// The entries that carry the key `key`, in their order.
pub open spec fn with_key(entries: Seq<ObjectMetadata>, key: Seq<char>) -> Seq<ObjectMetadata> {
    entries.filter(|m: ObjectMetadata| m.key@ == key)
}

/// `sorted` holds the entries of `unsorted`, in ascending order of their
/// keys, and entries with equal keys in the order that they had.
pub open spec fn is_stable_sort_of(sorted: Seq<ObjectMetadata>, unsorted: Seq<ObjectMetadata>) -> bool {
    &&& sorted_by_key(sorted)
    &&& sorted.to_multiset() == unsorted.to_multiset()
    &&& forall|key: Seq<char>| #[trigger] with_key(sorted, key) == with_key(unsorted, key)
}

/// Calls `slice::sort_by_cached_key` with each entry's key as its sort key.
/// The standard library documents that the entries come out in ascending
/// order of their keys, that entries with equal keys keep their order, and
/// that strings are ordered lexicographically by their code points.
#[verifier::external_body]
pub(crate) fn sort_by_key(entries: &mut Vec<ObjectMetadata>)
    ensures
        is_stable_sort_of(final(entries)@, old(entries)@),
{
    entries.sort_by_cached_key(|m| m.key.clone());
}

impl ListerState {
    /// The listing that comes next, if one may be started: the first entry of
    /// the frontier, while the limit is not reached and the window has room.
    pub open spec fn next_listing(self) -> Option<(Seq<char>, usize)> {
        if !self.limit_reached && self.outstanding < self.max_concurrency && self.frontier.len()
            > 0 {
            Some(self.frontier[0])
        } else {
            None
        }
    }

    /// The state after the driver asked what to do next: a listing that is
    /// started leaves the frontier and counts as in flight.
    pub open spec fn after_next(self) -> ListerState {
        if self.next_listing() is Some {
            ListerState {
                frontier: self.frontier.drop_first(),
                outstanding: self.outstanding + 1,
                ..self
            }
        } else {
            self
        }
    }
}

impl RecursiveLister {
    /// Says what the driver does next.
    ///
    /// Once the limit is reached the walk is over. Otherwise, while the
    /// window has room, the first prefix of the frontier is handed out. With
    /// nothing to hand out, the driver waits for a listing in flight, and with
    /// none in flight the walk is over.
    pub fn next_action(&mut self) -> (action: ListAction)
        requires
            old(self).wf(),
        ensures
            final(self).wf(),
            final(self)@ == old(self)@.after_next(),
            match action {
                ListAction::List(request) => {
                    &&& old(self)@.next_listing() == Some((request.prefix@, request.depth))
                    &&& request.remaining_limit == old(self)@.remaining()
                },
                ListAction::Wait => {
                    &&& old(self)@.next_listing() is None
                    &&& !old(self)@.limit_reached
                    &&& old(self)@.outstanding > 0
                },
                ListAction::Finished => {
                    &&& old(self)@.next_listing() is None
                    &&& old(self)@.limit_reached || (old(self)@.outstanding == 0 && old(
                        self,
                    )@.frontier.len() == 0)
                },
            },
    {
        if self.limit_reached {
            return ListAction::Finished;
        }
        if self.outstanding < self.max_concurrency {
            let ghost queued = self.frontier@;
            match self.frontier.pop_front() {
                Some((prefix, depth)) => {
                    proof {
                        assert(frontier_view(self.frontier@) =~= frontier_view(queued).drop_first());
                    }
                    let remaining_limit: Option<usize> = match self.limit {
                        Some(x) => Some(x - self.objects.len()),
                        None => None,
                    };
                    self.outstanding = self.outstanding + 1;
                    return ListAction::List(ListRequest { prefix, depth, remaining_limit });
                },
                None => {},
            }
        }
        if self.outstanding > 0 {
            ListAction::Wait
        } else {
            ListAction::Finished
        }
    }

    /// Takes in what one listing reported.
    ///
    /// Of its objects, those that pass the suffix filter are kept, at most as
    /// many as were still wanted when the listing was asked for. Every prefix
    /// that it found is recorded as a directory, and is queued one level
    /// deeper if the listed directory lies above the depth bound; the objects
    /// of a directory at the bound are kept all the same. The walk stops once
    /// the objects held reach the limit.
    pub fn complete(&mut self, request: &ListRequest, listing: DirectoryListing)
        requires
            old(self).wf(),
            old(self)@.outstanding > 0,
        ensures
            final(self).wf(),
            final(self)@ == old(self)@.after_listing(
                request.depth,
                request.remaining_limit,
                listing.objects@,
                listing.common_prefixes@,
            ),
    {
        let ghost before = self@;
        let ghost found = listing.common_prefixes@;
        let DirectoryListing { objects, common_prefixes } = listing;
        let mut chosen = select_objects(objects, request.remaining_limit, &self.suffix);
        let depth: usize = request.depth;
        let expand: bool = depth < usize::MAX && match self.max_depth {
            Some(m) => depth < m,
            None => true,
        };
        let ghost child = |p: String| (p@, (depth + 1) as usize);
        let ghost entry = |p: String| directory_entry(p);
        for prefix in it: common_prefixes.into_iter()
            invariant
                it.seq() == found,
                expand == expands(depth, before.max_depth),
                child == (|p: String| (p@, (depth + 1) as usize)),
                entry == (|p: String| directory_entry(p)),
                self@ == (ListerState {
                    frontier: self@.frontier,
                    directories: self@.directories,
                    ..before
                }),
                self@.directories =~= before.directories + found.take(it.index() as int).map_values(
                    entry,
                ),
                expand ==> self@.frontier =~= before.frontier + found.take(
                    it.index() as int,
                ).map_values(child),
                !expand ==> self@.frontier == before.frontier,
        {
            let ghost queued = self.frontier@;
            if expand {
                let key = prefix.clone();
                self.frontier.push_back((key, depth + 1));
                proof {
                    assert(frontier_view(self.frontier@) =~= frontier_view(queued).push(
                        (prefix@, (depth + 1) as usize),
                    ));
                }
            }
            self.directories.push(ObjectMetadata::directory(prefix));
        }
        proof {
            assert(found.take(found.len() as int) == found);
        }
        self.objects.append(&mut chosen);
        self.outstanding = self.outstanding - 1;
        let at_limit: bool = match self.limit {
            Some(x) => self.objects.len() >= x,
            None => false,
        };
        if at_limit {
            self.limit_reached = true;
        }
    }

    /// Ends the walk: the objects and the directories gathered, each sorted
    /// by key and holding every key once, the objects cut down to the limit
    /// where one is set. Of entries that were reported under one key, the one
    /// that was reported first is kept.
    pub fn finish(self) -> (result: ListResult)
        ensures
            exists|sorted: Seq<ObjectMetadata>| #[trigger]
                is_stable_sort_of(sorted, self@.objects) && result.objects@ == capped(
                    without_repeats(sorted),
                    self@.limit,
                ),
            exists|sorted: Seq<ObjectMetadata>| #[trigger]
                is_stable_sort_of(sorted, self@.directories) && result.directories@
                    == without_repeats(sorted),
            sorted_by_key(result.objects@),
            sorted_by_key(result.directories@),
            keys_distinct(result.objects@),
            keys_distinct(result.directories@),
            self@.limit is Some ==> result.objects@.len() <= self@.limit->0,
            result.objects@.len() <= self@.objects.len(),
    {
        let mut objects = self.objects;
        let mut directories = self.directories;
        sort_by_key(&mut objects);
        sort_by_key(&mut directories);
        let ghost sorted = objects@;
        let ghost sorted_directories = directories@;
        proof {
            sorted.to_multiset_ensures();
            self@.objects.to_multiset_ensures();
            lemma_without_repeats(sorted);
            lemma_without_repeats(sorted_directories);
        }
        let mut objects = drop_repeats(objects);
        let directories = drop_repeats(directories);
        let ghost kept = objects@;
        match self.limit {
            Some(x) => {
                objects.truncate(x);
            },
            None => {},
        }
        proof {
            assert(objects@ == capped(kept, self.limit));
            assert forall|i: int, j: int| 0 <= i < j < objects@.len() implies lex_le(
                #[trigger] objects@[i].key@,
                #[trigger] objects@[j].key@,
            ) && objects@[i].key@ != objects@[j].key@ by {
                assert(objects@[i] == kept[i] && objects@[j] == kept[j]);
            }
            assert(is_stable_sort_of(sorted, self@.objects));
            assert(is_stable_sort_of(sorted_directories, self@.directories));
        }
        ListResult { objects, directories }
    }
}

/// No prefix in the frontier lies below the depth bound, where one is set.
pub open spec fn within_depth(state: ListerState) -> bool {
    state.max_depth is Some ==> forall|k: int|
        0 <= k < state.frontier.len() ==> (#[trigger] state.frontier[k]).1 <= state.max_depth->0
}

/// The walk never goes below the depth bound: if no queued prefix lies below
/// it, and a listing at or above it reports, then still no queued prefix lies
/// below it.
pub proof fn lemma_walk_stays_within_depth(
    state: ListerState,
    depth: usize,
    remaining_limit: Option<usize>,
    objects: Seq<ObjectMetadata>,
    prefixes: Seq<String>,
)
    requires
        within_depth(state),
    ensures
        within_depth(state.after_listing(depth, remaining_limit, objects, prefixes)),
        within_depth(state.after_next()),
{
    let after = state.after_listing(depth, remaining_limit, objects, prefixes);
    if state.max_depth is Some {
        assert forall|k: int| 0 <= k < after.frontier.len() implies (#[trigger] after.frontier[k]).1
            <= state.max_depth->0 by {
            if k < state.frontier.len() {
                assert(after.frontier[k] == state.frontier[k]);
            }
        }
        let next = state.after_next();
        assert forall|k: int| 0 <= k < next.frontier.len() implies (#[trigger] next.frontier[k]).1
            <= state.max_depth->0 by {
            if state.next_listing() is Some {
                assert(next.frontier[k] == state.frontier[k + 1]);
            }
        }
    }
}

/// With a depth bound of 0 no subdirectory is expanded: whatever a listing
/// reports, the frontier stays as it is, so only the seed prefixes are ever
/// listed.
pub proof fn lemma_depth_zero_expands_nothing(
    state: ListerState,
    depth: usize,
    remaining_limit: Option<usize>,
    objects: Seq<ObjectMetadata>,
    prefixes: Seq<String>,
)
    requires
        state.max_depth == Some(0usize),
    ensures
        state.after_listing(depth, remaining_limit, objects, prefixes).frontier == state.frontier,
{
}

/// Once the objects held reach the limit, no further listing is started and
/// the state stays as it is.
pub proof fn lemma_limit_stops_the_walk(state: ListerState)
    requires
        state.limit_reached,
    ensures
        state.next_listing() is None,
        state.after_next() == state,
{
}

/// A walk ends only once the limit is reached or nothing is left to list:
/// with room in the window, nothing in flight and the limit not reached, a
/// queued prefix is always handed out.
pub proof fn lemma_walk_ends_only_when_done(state: ListerState)
    requires
        state.max_concurrency > 0,
        state.next_listing() is None,
        state.outstanding == 0,
        !state.limit_reached,
    ensures
        state.frontier.len() == 0,
{
}

/// A listing that brings the objects held up to the limit stops the walk,
/// and one that leaves them below it does not.
pub proof fn lemma_limit_is_noticed(
    state: ListerState,
    depth: usize,
    remaining_limit: Option<usize>,
    objects: Seq<ObjectMetadata>,
    prefixes: Seq<String>,
)
    requires
        !state.limit_reached,
        state.limit is Some,
    ensures
        state.after_listing(depth, remaining_limit, objects, prefixes).limit_reached <==> state.objects.len()
            + selected(objects, remaining_limit, state.suffix).len() >= state.limit->0,
{
}

/// One listing adds no more objects than were still wanted when it was asked
/// for.
pub proof fn lemma_selection_respects_limit(
    entries: Seq<ObjectMetadata>,
    limit: Option<usize>,
    suffix: Option<String>,
)
    ensures
        limit is Some ==> selected(entries, limit, suffix).len() <= limit->0,
        selected(entries, limit, suffix).len() <= entries.len(),
        forall|i: int|
            0 <= i < selected(entries, limit, suffix).len() ==> key_matches(
                (#[trigger] selected(entries, limit, suffix)[i]).key@,
                suffix,
            ),
{
    let pred = |m: ObjectMetadata| key_matches(m.key@, suffix);
    entries.lemma_filter_len(pred);
    assert forall|i: int| 0 <= i < selected(entries, limit, suffix).len() implies key_matches(
        (#[trigger] selected(entries, limit, suffix)[i]).key@,
        suffix,
    ) by {
        entries.lemma_filter_pred(pred, i);
    }
}

/// No two entries carry the same key.
pub open spec fn keys_distinct(entries: Seq<ObjectMetadata>) -> bool {
    forall|i: int, j: int|
        0 <= i < j < entries.len() ==> (#[trigger] entries[i]).key@ != (#[trigger] entries[j]).key@
}

/// The entries without repeated keys: of a run of entries with one key the
/// first is kept. Each entry is kept whose key differs from the key of the
/// entry kept before it.
pub open spec fn without_repeats(entries: Seq<ObjectMetadata>) -> Seq<ObjectMetadata>
    decreases entries.len(),
{
    if entries.len() == 0 {
        entries
    } else {
        let kept = without_repeats(entries.drop_last());
        if kept.len() > 0 && kept.last().key@ == entries.last().key@ {
            kept
        } else {
            kept.push(entries.last())
        }
    }
}

/// Some entry carries the key `key`.
pub open spec fn holds_key(entries: Seq<ObjectMetadata>, key: Seq<char>) -> bool {
    exists|i: int| 0 <= i < entries.len() && (#[trigger] entries[i]).key@ == key
}

/// Of entries in ascending order of their keys, what is left without repeats
/// is still in ascending order, holds no key twice, holds only entries that
/// were there, and holds every key that was there.
pub proof fn lemma_without_repeats(entries: Seq<ObjectMetadata>)
    requires
        sorted_by_key(entries),
    ensures
        sorted_by_key(without_repeats(entries)),
        keys_distinct(without_repeats(entries)),
        without_repeats(entries).len() <= entries.len(),
        entries.len() > 0 ==> without_repeats(entries).len() > 0 && without_repeats(
            entries,
        ).last().key@ == entries.last().key@,
        forall|i: int|
            0 <= i < without_repeats(entries).len() ==> entries.contains(
                #[trigger] without_repeats(entries)[i],
            ),
        forall|m: int|
            0 <= m < entries.len() ==> holds_key(
                without_repeats(entries),
                (#[trigger] entries[m]).key@,
            ),
    decreases entries.len(),
{
    if entries.len() > 0 {
        let front = entries.drop_last();
        let x = entries.last();
        let last = entries.len() - 1;
        assert(forall|m: int| 0 <= m < front.len() ==> front[m] == entries[m]);
        assert(sorted_by_key(front));
        lemma_without_repeats(front);
        let kept = without_repeats(front);
        let out = without_repeats(entries);
        // Every entry kept so far stands in `entries` before `x`.
        assert forall|i: int| 0 <= i < kept.len() implies entries.contains(#[trigger] kept[i])
            && lex_le(kept[i].key@, x.key@) by {
            assert(front.contains(kept[i]));
            let m = choose|m: int| 0 <= m < front.len() && front[m] == kept[i];
            assert(entries[m] == kept[i]);
            assert(lex_le(entries[m].key@, entries[last].key@));
        }
        if kept.len() > 0 && kept.last().key@ == x.key@ {
            assert(out == kept);
            assert forall|m: int| 0 <= m < entries.len() implies holds_key(
                out,
                (#[trigger] entries[m]).key@,
            ) by {
                if m == last {
                    assert(out[out.len() - 1].key@ == x.key@);
                } else {
                    assert(front[m] == entries[m]);
                    assert(holds_key(kept, front[m].key@));
                }
            }
        } else {
            assert(out == kept.push(x));
            assert(entries[last] == x);
            assert forall|i: int| 0 <= i < out.len() implies entries.contains(#[trigger] out[i]) by {
                if i < kept.len() {
                    assert(out[i] == kept[i]);
                }
            }
            assert forall|i: int, j: int| 0 <= i < j < out.len() implies lex_le(
                #[trigger] out[i].key@,
                #[trigger] out[j].key@,
            ) && out[i].key@ != out[j].key@ by {
                assert(out[i] == kept[i]);
                if j < kept.len() {
                    assert(out[j] == kept[j]);
                } else {
                    assert(out[j] == x);
                    if kept[i].key@ == x.key@ {
                        // Then the last entry of `front` carries the key of `x` too.
                        assert(kept.last().key@ == front.last().key@);
                        assert(lex_le(kept[i].key@, front.last().key@)) by {
                            assert(front.contains(kept[i]));
                            let m = choose|m: int| 0 <= m < front.len() && front[m] == kept[i];
                            if m < front.len() - 1 {
                                assert(lex_le(front[m].key@, front[front.len() - 1].key@));
                            } else {
                                lemma_lex_le_reflexive(kept[i].key@);
                            }
                        }
                        assert(lex_le(entries[last - 1].key@, entries[last].key@));
                        assert(front.last() == entries[last - 1]);
                        lemma_lex_le_antisymmetric(front.last().key@, x.key@);
                        assert(false);
                    }
                }
            }
            assert forall|m: int| 0 <= m < entries.len() implies holds_key(
                out,
                (#[trigger] entries[m]).key@,
            ) by {
                if m == last {
                    assert(out[out.len() - 1].key@ == x.key@);
                } else {
                    assert(front[m] == entries[m]);
                    assert(holds_key(kept, front[m].key@));
                    let i = choose|i: int|
                        0 <= i < kept.len() && (#[trigger] kept[i]).key@ == front[m].key@;
                    assert(out[i] == kept[i]);
                }
            }
        }
    }
}

/// A text comes before itself.
proof fn lemma_lex_le_reflexive(a: Seq<char>)
    ensures
        lex_le(a, a),
    decreases a.len(),
{
    if a.len() > 0 {
        lemma_lex_le_reflexive(a.drop_first());
    }
}

/// Drops the entries that repeat the key of the entry kept before them.
pub fn drop_repeats(entries: Vec<ObjectMetadata>) -> (kept: Vec<ObjectMetadata>)
    ensures
        kept@ == without_repeats(entries@),
{
    let mut kept: Vec<ObjectMetadata> = Vec::new();
    let ghost src = entries@;
    proof {
        assert(src.take(0) =~= Seq::<ObjectMetadata>::empty());
    }
    for entry in it: entries.into_iter()
        invariant
            it.seq() == src,
            kept@ == without_repeats(src.take(it.index() as int)),
    {
        proof {
            let i = it.index() as int;
            assert(src.take(i + 1).drop_last() =~= src.take(i));
            assert(src.take(i + 1).last() == entry);
        }
        let n: usize = kept.len();
        let repeats: bool = n > 0 && kept[n - 1].key == entry.key;
        if !repeats {
            kept.push(entry);
        }
    }
    proof {
        assert(src.take(src.len() as int) =~= src);
    }
    kept
}

} // verus!
