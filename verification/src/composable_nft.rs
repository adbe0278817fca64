//! Composable NFTs: tip receipts that can be combined and nested in
//! parent-child relationships.

use vstd::prelude::*;

use crate::ledger::Address;
use crate::table::{list_at, Table};

verus! {

/// A composable NFT record.
#[derive(Clone, Debug)]
pub struct ComposableNft {
    pub id: u64,
    pub owner: Address,
    pub metadata: String,
    pub parent_id: Option<u64>,
    pub created_at: u64,
    pub active: bool,
}

/// A composition history entry.
#[derive(Clone, Copy, PartialEq, Eq, Structural, Debug)]
pub struct CompositionEvent {
    pub parent_id: u64,
    pub child_id: u64,
    pub timestamp: u64,
    pub is_decompose: bool,
}

/// Why a composition or decomposition was refused.
#[derive(Clone, Copy, PartialEq, Eq, Structural, Debug)]
pub enum NftError {
    /// An NFT cannot be composed into itself.
    SelfComposition,
    ParentNotFound,
    ChildNotFound,
    NotParentOwner,
    NotChildOwner,
    ParentInactive,
    ChildInactive,
    /// The child already has a parent.
    AlreadyComposed,
    /// The caller does not own the child.
    NotOwner,
    /// The child has no parent.
    NotComposed,
}

/// `n` with its parent set to `parent`.
pub open spec fn with_parent(n: ComposableNft, parent: Option<u64>) -> ComposableNft {
    ComposableNft {
        id: n.id,
        owner: n.owner,
        metadata: n.metadata,
        parent_id: parent,
        created_at: n.created_at,
        active: n.active,
    }
}

/// `s` without any occurrence of `x`, the rest in order.
pub open spec fn drop_id(s: Seq<u64>, x: u64) -> Seq<u64>
    decreases s.len(),
{
    if s.len() == 0 {
        s
    } else if s.last() == x {
        drop_id(s.drop_last(), x)
    } else {
        drop_id(s.drop_last(), x).push(s.last())
    }
}

proof fn lemma_drop_id_absent(s: Seq<u64>, x: u64)
    requires
        !s.contains(x),
    ensures
        drop_id(s, x) == s,
    decreases s.len(),
{
    if s.len() > 0 {
        assert(!s.drop_last().contains(x)) by {
            if s.drop_last().contains(x) {
                let i = choose|i: int| 0 <= i < s.drop_last().len() && s.drop_last()[i] == x;
                assert(s[i] == x);
            }
        }
        lemma_drop_id_absent(s.drop_last(), x);
        assert(s.last() != x) by {
            assert(s[s.len() - 1] == s.last());
        }
        assert(s.drop_last().push(s.last()) =~= s);
    }
}

proof fn lemma_drop_id_contains(s: Seq<u64>, x: u64)
    ensures
        forall|y: u64| #[trigger] drop_id(s, x).contains(y) ==> s.contains(y) && y != x,
    decreases s.len(),
{
    if s.len() > 0 {
        let p = s.drop_last();
        lemma_drop_id_contains(p, x);
        assert forall|y: u64| #[trigger] drop_id(s, x).contains(y) implies s.contains(y) && y != x by {
            let w = drop_id(p, x);
            let i = choose|i: int| 0 <= i < drop_id(s, x).len() && drop_id(s, x)[i] == y;
            if s.last() == x || i < w.len() {
                assert(w[i] == y);
                assert(w.contains(y));
                let j = choose|j: int| 0 <= j < p.len() && p[j] == y;
                assert(s[j] == y);
            } else {
                assert(s[s.len() - 1] == y);
            }
        }
    }
}

/// A copy of `ids` without `x`.
fn list_without_id(v: &Vec<u64>, x: u64) -> (r: Vec<u64>)
    ensures
        r@ == drop_id(v@, x),
{
    let mut out: Vec<u64> = Vec::new();
    let mut i: usize = 0;
    while i < v.len()
        invariant
            0 <= i <= v@.len(),
            out@ == drop_id(v@.take(i as int), x),
        decreases v@.len() - i,
    {
        proof {
            assert(v@.take(i + 1).drop_last() =~= v@.take(i as int));
        }
        if v[i] != x {
            out.push(v[i]);
        }
        i = i + 1;
    }
    proof {
        assert(v@.take(i as int) =~= v@);
    }
    out
}

fn copy_nft(n: &ComposableNft) -> (r: ComposableNft)
    ensures
        r == *n,
{
    ComposableNft {
        id: n.id,
        owner: n.owner,
        metadata: n.metadata.clone(),
        parent_id: n.parent_id,
        created_at: n.created_at,
        active: n.active,
    }
}

/// The NFT records, who owns them, how they nest and how their nesting
/// changed.
pub struct NftBook {
    nfts: Table<u64, ComposableNft>,
    counter: u64,
    owner_nfts: Table<Address, Vec<u64>>,
    children: Table<u64, Vec<u64>>,
    history: Table<u64, Vec<CompositionEvent>>,
}

/// The refusal that a composition of `child_id` into `parent_id` by `owner`
/// meets, if any, in the order in which the checks are made.
pub open spec fn compose_error(book: NftBook, owner: Address, parent_id: u64, child_id: u64) -> Option<NftError> {
    let m = book.nft_map();
    if parent_id == child_id {
        Some(NftError::SelfComposition)
    } else if !m.contains_key(parent_id) {
        Some(NftError::ParentNotFound)
    } else if !m.contains_key(child_id) {
        Some(NftError::ChildNotFound)
    } else if m[parent_id].owner != owner {
        Some(NftError::NotParentOwner)
    } else if m[child_id].owner != owner {
        Some(NftError::NotChildOwner)
    } else if !m[parent_id].active {
        Some(NftError::ParentInactive)
    } else if !m[child_id].active {
        Some(NftError::ChildInactive)
    } else if m[child_id].parent_id is Some {
        Some(NftError::AlreadyComposed)
    } else {
        None
    }
}

/// `post` is `pre` after `child_id` was nested under `parent_id` at `now`.
pub open spec fn composed(pre: NftBook, post: NftBook, now: u64, parent_id: u64, child_id: u64) -> bool {
    &&& post.nft_map() == pre.nft_map().insert(child_id, with_parent(pre.nft_map()[child_id], Some(parent_id)))
    &&& post.counter() == pre.counter()
    &&& forall|a: Address| #[trigger] post.owned_of(a) == pre.owned_of(a)
    &&& post.children_of(parent_id) == pre.children_of(parent_id).push(child_id)
    &&& forall|q: u64| q != parent_id ==> #[trigger] post.children_of(q) == pre.children_of(q)
    &&& post.history_of(parent_id) == pre.history_of(parent_id).push(
        CompositionEvent { parent_id, child_id, timestamp: now, is_decompose: false },
    )
    &&& forall|q: u64| q != parent_id ==> #[trigger] post.history_of(q) == pre.history_of(q)
}

/// The refusal that a decomposition of `child_id` by `owner` meets, if any.
pub open spec fn decompose_error(book: NftBook, owner: Address, child_id: u64) -> Option<NftError> {
    let m = book.nft_map();
    if !m.contains_key(child_id) {
        Some(NftError::ChildNotFound)
    } else if m[child_id].owner != owner {
        Some(NftError::NotOwner)
    } else if m[child_id].parent_id is None {
        Some(NftError::NotComposed)
    } else {
        None
    }
}

/// `post` is `pre` after `child_id` was taken out of its parent at `now`.
pub open spec fn decomposed(pre: NftBook, post: NftBook, now: u64, child_id: u64) -> bool {
    let parent_id = pre.nft_map()[child_id].parent_id->0;
    &&& post.nft_map() == pre.nft_map().insert(child_id, with_parent(pre.nft_map()[child_id], None))
    &&& post.counter() == pre.counter()
    &&& forall|a: Address| #[trigger] post.owned_of(a) == pre.owned_of(a)
    &&& post.children_of(parent_id) == drop_id(pre.children_of(parent_id), child_id)
    &&& forall|q: u64| q != parent_id ==> #[trigger] post.children_of(q) == pre.children_of(q)
    &&& post.history_of(parent_id) == pre.history_of(parent_id).push(
        CompositionEvent { parent_id, child_id, timestamp: now, is_decompose: true },
    )
    &&& forall|q: u64| q != parent_id ==> #[trigger] post.history_of(q) == pre.history_of(q)
}

impl NftBook {
    pub closed spec fn nft_map(&self) -> Map<u64, ComposableNft> {
        self.nfts@
    }

    /// The id the next NFT receives.
    pub closed spec fn counter(&self) -> u64 {
        self.counter
    }

    pub closed spec fn owner_map(&self) -> Map<Address, Vec<u64>> {
        self.owner_nfts@
    }

    pub closed spec fn children_map(&self) -> Map<u64, Vec<u64>> {
        self.children@
    }

    pub closed spec fn history_map(&self) -> Map<u64, Vec<CompositionEvent>> {
        self.history@
    }

    /// The NFTs minted to `owner`, in order of minting.
    pub open spec fn owned_of(&self, owner: Address) -> Seq<u64> {
        list_at(self.owner_map(), owner)
    }

    /// The children of `parent_id`, in order of composition.
    pub open spec fn children_of(&self, parent_id: u64) -> Seq<u64> {
        list_at(self.children_map(), parent_id)
    }

    /// The composition history of `nft_id`, oldest first.
    pub open spec fn history_of(&self, nft_id: u64) -> Seq<CompositionEvent> {
        list_at(self.history_map(), nft_id)
    }

    /// Each record is stored under its own id, below the counter; an NFT is
    /// listed as a child of `p` only while its parent is `p`.
    pub closed spec fn wf(&self) -> bool {
        &&& self.nfts.wf()
        &&& self.owner_nfts.wf()
        &&& self.children.wf()
        &&& self.history.wf()
        &&& forall|id: u64| #[trigger]
            self.nfts@.contains_key(id) ==> self.nfts@[id].id == id && id < self.counter
        &&& forall|p: u64, c: u64| #[trigger]
            self.children_of(p).contains(c) ==> self.nfts@.contains_key(c) && self.nfts@[c].parent_id
                == Some(p)
    }

    /// No NFTs yet; the first one minted gets id 0.
    pub fn new() -> (s: Self)
        ensures
            s.wf(),
            s.nft_map() == Map::<u64, ComposableNft>::empty(),
            s.counter() == 0,
            forall|a: Address| #[trigger] s.owned_of(a).len() == 0,
            forall|p: u64| #[trigger] s.children_of(p).len() == 0,
            forall|p: u64| #[trigger] s.history_of(p).len() == 0,
    {
        NftBook {
            nfts: Table::new(),
            counter: 0,
            owner_nfts: Table::new(),
            children: Table::new(),
            history: Table::new(),
        }
    }

    /// Mint a new composable NFT for `owner` at time `now`; returns its id.
    pub fn mint(&mut self, now: u64, owner: Address, metadata: String) -> (id: u64)
        requires
            old(self).wf(),
            old(self).counter() < u64::MAX,
        ensures
            final(self).wf(),
            id == old(self).counter(),
            final(self).counter() == id + 1,
            final(self).nft_map() == old(self).nft_map().insert(
                id,
                ComposableNft { id, owner, metadata, parent_id: None, created_at: now, active: true },
            ),
            final(self).owned_of(owner) == old(self).owned_of(owner).push(id),
            forall|a: Address| a != owner ==> #[trigger] final(self).owned_of(a) == old(self).owned_of(a),
            forall|p: u64| #[trigger] final(self).children_of(p) == old(self).children_of(p),
            forall|p: u64| #[trigger] final(self).history_of(p) == old(self).history_of(p),
    {
        let id = self.counter;
        self.counter = id + 1;
        let nft = ComposableNft { id, owner, metadata, parent_id: None, created_at: now, active: true };
        proof {
            assert(!old(self).nft_map().contains_key(id));
        }
        self.nfts.insert(id, nft);
        self.owner_nfts.push_onto(owner, id);
        proof {
            assert forall|p: u64, c: u64| #[trigger] self.children_of(p).contains(c) implies self.nfts@.contains_key(c)
                && self.nfts@[c].parent_id == Some(p) by {
                assert(old(self).children_of(p).contains(c));
            }
        }
        id
    }

    /// Compose the child NFT into the parent; both must belong to `owner`,
    /// be active, and the child must not be nested already.
    pub fn compose(&mut self, now: u64, owner: Address, parent_id: u64, child_id: u64) -> (r: Result<(), NftError>)
        requires
            old(self).wf(),
        ensures
            final(self).wf(),
            match compose_error(*old(self), owner, parent_id, child_id) {
                Some(e) => r == Err::<(), NftError>(e) && *final(self) == *old(self),
                None => r is Ok && composed(*old(self), *final(self), now, parent_id, child_id),
            },
    {
        if parent_id == child_id {
            return Err(NftError::SelfComposition);
        }
        let (p_owner, p_active) = match self.nfts.get(&parent_id) {
            Some(p) => (p.owner, p.active),
            None => {
                return Err(NftError::ParentNotFound);
            },
        };
        let (c_owner, c_active, c_parent) = match self.nfts.get(&child_id) {
            Some(c) => (c.owner, c.active, c.parent_id),
            None => {
                return Err(NftError::ChildNotFound);
            },
        };
        if p_owner != owner {
            return Err(NftError::NotParentOwner);
        }
        if c_owner != owner {
            return Err(NftError::NotChildOwner);
        }
        if !p_active {
            return Err(NftError::ParentInactive);
        }
        if !c_active {
            return Err(NftError::ChildInactive);
        }
        if c_parent.is_some() {
            return Err(NftError::AlreadyComposed);
        }
        let mut child = match self.nfts.get(&child_id) {
            Some(c) => copy_nft(c),
            None => {
                return Err(NftError::ChildNotFound);
            },
        };
        child.parent_id = Some(parent_id);
        self.nfts.insert(child_id, child);
        self.children.push_onto(parent_id, child_id);
        self.history.push_onto(
            parent_id,
            CompositionEvent { parent_id, child_id, timestamp: now, is_decompose: false },
        );
        proof {
            let pre = *old(self);
            assert forall|p: u64, c: u64| #[trigger] self.children_of(p).contains(c) implies self.nfts@.contains_key(c)
                && self.nfts@[c].parent_id == Some(p) by {
                if p == parent_id && c == child_id {
                } else if p == parent_id {
                    let i = choose|i: int| 0 <= i < self.children_of(p).len() && self.children_of(p)[i] == c;
                    assert(pre.children_of(p)[i] == c);
                    assert(pre.children_of(p).contains(c));
                } else {
                    assert(pre.children_of(p).contains(c));
                }
                if c == child_id && p != parent_id {
                    assert(pre.children_of(p).contains(c));
                }
            }
            assert forall|id: u64| #[trigger] self.nfts@.contains_key(id) implies self.nfts@[id].id == id
                && id < self.counter by {
                assert(pre.nft_map().contains_key(id));
            }
        }
        Ok(())
    }

    /// Take the child NFT out of its parent; the child must belong to
    /// `owner` and have a parent.
    pub fn decompose(&mut self, now: u64, owner: Address, child_id: u64) -> (r: Result<(), NftError>)
        requires
            old(self).wf(),
        ensures
            final(self).wf(),
            match decompose_error(*old(self), owner, child_id) {
                Some(e) => r == Err::<(), NftError>(e) && *final(self) == *old(self),
                None => r is Ok && decomposed(*old(self), *final(self), now, child_id),
            },
    {
        let mut child = match self.nfts.get(&child_id) {
            Some(c) => copy_nft(c),
            None => {
                return Err(NftError::ChildNotFound);
            },
        };
        if child.owner != owner {
            return Err(NftError::NotOwner);
        }
        let parent_id = match child.parent_id {
            Some(p) => p,
            None => {
                return Err(NftError::NotComposed);
            },
        };
        child.parent_id = None;
        self.nfts.insert(child_id, child);
        let remaining = match self.children.get(&parent_id) {
            Some(list) => list_without_id(list, child_id),
            None => Vec::new(),
        };
        self.children.replace_list(parent_id, remaining);
        self.history.push_onto(
            parent_id,
            CompositionEvent { parent_id, child_id, timestamp: now, is_decompose: true },
        );
        proof {
            let pre = *old(self);
            lemma_drop_id_contains(pre.children_of(parent_id), child_id);
            assert forall|p: u64, c: u64| #[trigger] self.children_of(p).contains(c) implies self.nfts@.contains_key(c)
                && self.nfts@[c].parent_id == Some(p) by {
                if p == parent_id {
                    assert(pre.children_of(p).contains(c));
                } else {
                    assert(pre.children_of(p).contains(c));
                    if c == child_id {
                        assert(pre.nft_map()[c].parent_id == Some(p));
                    }
                }
            }
            assert forall|id: u64| #[trigger] self.nfts@.contains_key(id) implies self.nfts@[id].id == id
                && id < self.counter by {
                assert(pre.nft_map().contains_key(id));
            }
        }
        Ok(())
    }

    /// The NFT record under `nft_id`, if there is one.
    pub fn get_nft(&self, nft_id: u64) -> (r: Option<ComposableNft>)
        requires
            self.wf(),
        ensures
            r == (if self.nft_map().contains_key(nft_id) {
                Some(self.nft_map()[nft_id])
            } else {
                None
            }),
    {
        match self.nfts.get(&nft_id) {
            Some(n) => Some(copy_nft(n)),
            None => None,
        }
    }

    /// The ids of the NFTs minted to `owner`.
    pub fn get_owner_nfts(&self, owner: Address) -> (r: Vec<u64>)
        requires
            self.wf(),
        ensures
            r@ == self.owned_of(owner),
    {
        self.owner_nfts.list_copy(&owner)
    }

    /// The ids of the children of `parent_id`.
    pub fn get_children(&self, parent_id: u64) -> (r: Vec<u64>)
        requires
            self.wf(),
        ensures
            r@ == self.children_of(parent_id),
    {
        self.children.list_copy(&parent_id)
    }

    /// The composition history of `nft_id`, oldest first.
    pub fn get_composition_history(&self, nft_id: u64) -> (r: Vec<CompositionEvent>)
        requires
            self.wf(),
        ensures
            r@ == self.history_of(nft_id),
    {
        self.history.list_copy(&nft_id)
    }
}

/// Decomposing a child right after composing it undoes the composition:
/// the records and every child list are as they were, and the parent's
/// history holds the two events.
pub proof fn lemma_decompose_undoes_compose(
    s0: NftBook,
    s1: NftBook,
    s2: NftBook,
    owner: Address,
    parent_id: u64,
    child_id: u64,
    t1: u64,
    t2: u64,
)
    requires
        s0.wf(),
        compose_error(s0, owner, parent_id, child_id) is None,
        composed(s0, s1, t1, parent_id, child_id),
        decomposed(s1, s2, t2, child_id),
    ensures
        decompose_error(s1, owner, child_id) is None,
        s2.nft_map() == s0.nft_map(),
        forall|q: u64| #[trigger] s2.children_of(q) == s0.children_of(q),
        s2.history_of(parent_id) == s0.history_of(parent_id).push(
            CompositionEvent { parent_id, child_id, timestamp: t1, is_decompose: false },
        ).push(CompositionEvent { parent_id, child_id, timestamp: t2, is_decompose: true }),
{
    let n0 = s0.nft_map()[child_id];
    assert(s1.nft_map()[child_id] == with_parent(n0, Some(parent_id)));
    assert(with_parent(with_parent(n0, Some(parent_id)), None) == n0);
    assert(s2.nft_map() =~= s0.nft_map());
    assert(!s0.children_of(parent_id).contains(child_id));
    lemma_drop_id_absent(s0.children_of(parent_id), child_id);
    assert(s1.children_of(parent_id).drop_last() =~= s0.children_of(parent_id));
}

} // verus!
