//! The completion index: where the entry of a track lives, and what a
//! look-up means for the track.
//!
//! Entries live in a hidden directory below the destination, one per track,
//! named by the track's identifier and pointing at the track's output file.
//! The layout does not depend on the folder structure of the downloads.

use vstd::prelude::*;
use vstd::string::*;
use crate::text::{decimal, join_path, joined_path, lemma_decimal_injective,
    lemma_joined_path_injective, push_decimal};

verus! {

/// What a look-up of a track's entry found.
#[derive(Debug, Clone, PartialEq, Eq)]
pub enum LinkState {
    /// The index has no entry for the track.
    Missing,
    /// The index has an entry that points at `target`.
    Present { target: String, target_exists: bool },
}

/// Mathematical model of [`LinkState`].
pub enum LinkStateView {
    Missing,
    Present { target: Seq<char>, target_exists: bool },
}

impl View for LinkState {
    type V = LinkStateView;

    open spec fn view(&self) -> LinkStateView {
        match self {
            LinkState::Missing => LinkStateView::Missing,
            LinkState::Present { target, target_exists } => LinkStateView::Present {
                target: target@,
                target_exists: *target_exists,
            },
        }
    }
}

/// What the index says of a track.
#[derive(Debug, Clone, Copy, PartialEq, Eq, Structural)]
pub enum CacheDecision {
    /// No entry: the track is downloaded.
    Download,
    /// A stale entry, whose target is gone: it is removed, and the track is
    /// downloaded afresh.
    Invalidate,
    /// A valid entry: the track was downloaded before and is skipped.
    Skip,
}

/// Model of durable storage as the index sees it: the entries of the
/// index, from entry to target, and the files that exist.
pub struct StoreView {
    pub entries: Map<Seq<char>, Seq<char>>,
    pub files: Set<Seq<char>>,
}

impl StoreView {
    /// What a look-up of the entry `link` finds.
    pub open spec fn lookup(self, link: Seq<char>) -> LinkStateView {
        if self.entries.contains_key(link) {
            LinkStateView::Present {
                target: self.entries[link],
                target_exists: self.files.contains(self.entries[link]),
            }
        } else {
            LinkStateView::Missing
        }
    }

    /// Storage after the file `path` was written.
    pub open spec fn write(self, path: Seq<char>) -> StoreView {
        StoreView { files: self.files.insert(path), ..self }
    }

    /// Storage after the file `path` was deleted.
    pub open spec fn delete(self, path: Seq<char>) -> StoreView {
        StoreView { files: self.files.remove(path), ..self }
    }

    /// Storage after the entry `link` was made to point at `path`.
    pub open spec fn commit(self, link: Seq<char>, path: Seq<char>) -> StoreView {
        StoreView { entries: self.entries.insert(link, path), ..self }
    }

    /// Storage after the entry `link` was removed.
    pub open spec fn invalidate(self, link: Seq<char>) -> StoreView {
        StoreView { entries: self.entries.remove(link), ..self }
    }
}

/// The directory of the index below `destination`.
pub open spec fn index_dir_text(destination: Seq<char>) -> Seq<char> {
    joined_path(destination, ".index"@)
}

/// The entry of track `id` in the index below `destination`.
pub open spec fn link_path_text(destination: Seq<char>, id: nat) -> Seq<char> {
    joined_path(destination, ".index/"@ + decimal(id))
}

/// The decision that a look-up leads to: an entry is valid if and only if
/// its target still exists.
pub open spec fn cache_decision(state: LinkStateView) -> CacheDecision {
    match state {
        LinkStateView::Missing => CacheDecision::Download,
        LinkStateView::Present { target, target_exists } => if target_exists {
            CacheDecision::Skip
        } else {
            CacheDecision::Invalidate
        },
    }
}

/// The directory of the index below `destination`.
pub fn index_dir(destination: &str) -> (dir: String)
    ensures
        dir@ == index_dir_text(destination@),
{
    join_path(destination, ".index")
}

/// The entry of track `id` in the index below `destination`.
pub fn link_path(destination: &str, id: u128) -> (link: String)
    ensures
        link@ == link_path_text(destination@, id as nat),
{
    let mut name = String::from_str(".index/");
    push_decimal(&mut name, id);
    join_path(destination, name.as_str())
}

/// Decides what a look-up means for the track.
pub fn check_cache(state: &LinkState) -> (decision: CacheDecision)
    ensures
        decision == cache_decision(state@),
{
    match state {
        LinkState::Missing => CacheDecision::Download,
        LinkState::Present { target: _, target_exists } => if *target_exists {
            CacheDecision::Skip
        } else {
            CacheDecision::Invalidate
        },
    }
}

/// Two tracks never share an entry: below one destination, different
/// identifiers have different entries.
pub proof fn lemma_link_path_injective(destination: Seq<char>, a: nat, b: nat)
    requires
        link_path_text(destination, a) == link_path_text(destination, b),
    ensures
        a == b,
{
    let head = ".index/"@;
    lemma_joined_path_injective(destination, head + decimal(a), head + decimal(b));
    assert forall|i: int| 0 <= i < decimal(a).len() implies decimal(a)[i] == decimal(b)[i] by {
        assert(decimal(a)[i] == (head + decimal(a))[head.len() + i]);
        assert(decimal(b)[i] == (head + decimal(b))[head.len() + i]);
    }
    assert((head + decimal(a)).len() == (head + decimal(b)).len());
    assert(decimal(a) =~= decimal(b));
    lemma_decimal_injective(a, b);
}

/// Every entry lies directly in the index directory.
pub proof fn lemma_link_in_index_dir(destination: Seq<char>, id: nat)
    ensures
        link_path_text(destination, id) == index_dir_text(destination) + "/"@ + decimal(id),
{
    reveal_strlit(".index/");
    reveal_strlit(".index");
    reveal_strlit("/");
    assert(".index/"@ =~= ".index"@ + "/"@);
    assert(link_path_text(destination, id) =~= index_dir_text(destination) + "/"@ + decimal(id));
}

/// An entry that was committed after its file was written is valid: a
/// look-up finds it, with its target in place, and the track is skipped.
pub proof fn lemma_committed_entry_is_valid(store: StoreView, link: Seq<char>, path: Seq<char>)
    ensures
        store.write(path).commit(link, path).lookup(link) == (LinkStateView::Present {
            target: path,
            target_exists: true,
        }),
        cache_decision(store.write(path).commit(link, path).lookup(link)) == CacheDecision::Skip,
{
}

/// An entry whose target is gone is stale: it is to be removed, and once
/// it is removed the track counts as never downloaded.
pub proof fn lemma_stale_entry_is_invalidated(store: StoreView, link: Seq<char>)
    requires
        store.entries.contains_key(link),
        !store.files.contains(store.entries[link]),
    ensures
        cache_decision(store.lookup(link)) == CacheDecision::Invalidate,
        cache_decision(store.invalidate(link).lookup(link)) == CacheDecision::Download,
{
}

/// Deleting the output file of a committed track makes its entry stale.
pub proof fn lemma_deleted_target_is_stale(store: StoreView, link: Seq<char>)
    requires
        store.entries.contains_key(link),
    ensures
        cache_decision(store.delete(store.entries[link]).lookup(link))
            == CacheDecision::Invalidate,
{
}

/// A track changes its own entry only: committing or removing one entry
/// leaves every other entry as it was.
pub proof fn lemma_entries_are_independent(
    store: StoreView,
    link: Seq<char>,
    path: Seq<char>,
    other: Seq<char>,
)
    requires
        other != link,
    ensures
        store.commit(link, path).lookup(other) == store.lookup(other),
        store.invalidate(link).lookup(other) == store.lookup(other),
{
}

} // verus!
