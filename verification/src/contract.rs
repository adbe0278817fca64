//! The tip jar itself: whitelisted tokens, tips held in escrow for creators,
//! withdrawals, an emergency pause and role-based access control.

use vstd::prelude::*;

use crate::ledger::{copy_list, fits, Address, Transfer};
use vstd::utf8::encode_utf8;
use crate::table::{Table, TableKey};

verus! {

/// A tip that came with a note and metadata.
#[derive(Clone, Debug)]
pub struct TipWithMessage {
    pub sender: Address,
    pub creator: Address,
    pub amount: i128,
    pub message: String,
    pub metadata: Vec<(String, String)>,
    pub timestamp: u64,
}

/// A funding goal of a creator.
#[derive(Clone, Debug)]
pub struct Milestone {
    pub id: u64,
    pub creator: Address,
    pub goal_amount: i128,
    pub current_amount: i128,
    pub description: String,
    pub deadline: Option<u64>,
    pub completed: bool,
}

/// Role enum for role-based access control.
#[derive(Clone, Copy, PartialEq, Eq, Structural, Debug)]
pub enum Role {
    Admin,
    Moderator,
    Creator,
}

impl TableKey for Role {
    fn same_key(&self, other: &Self) -> (r: bool) {
        *self == *other
    }
}

/// Why the tip jar refused an operation.
#[derive(Clone, Copy, PartialEq, Eq, Structural, Debug)]
pub enum TipJarError {
    AlreadyInitialized,
    TokenNotWhitelisted,
    InvalidAmount,
    NothingToWithdraw,
    MessageTooLong,
    MilestoneNotFound,
    MilestoneAlreadyCompleted,
    InvalidGoalAmount,
    Unauthorized,
    RoleNotFound,
    /// The contract is paused.
    ContractPaused,
}

/// The longest note a tip may carry, in bytes.
pub const MAX_MESSAGE_BYTES: usize = 280;

/// `s` without any occurrence of `a`, the rest in order.
pub open spec fn without(s: Seq<Address>, a: Address) -> Seq<Address>
    decreases s.len(),
{
    if s.len() == 0 {
        s
    } else if s.last() == a {
        without(s.drop_last(), a)
    } else {
        without(s.drop_last(), a).push(s.last())
    }
}

proof fn lemma_without(s: Seq<Address>, a: Address)
    ensures
        forall|x: Address| #[trigger] without(s, a).contains(x) <==> (s.contains(x) && x != a),
        s.no_duplicates() ==> without(s, a).no_duplicates(),
    decreases s.len(),
{
    if s.len() > 0 {
        let p = s.drop_last();
        lemma_without(p, a);
        assert forall|x: Address| #[trigger] s.contains(x) <==> (p.contains(x) || x == s.last()) by {
            if s.contains(x) {
                let i = choose|i: int| 0 <= i < s.len() && s[i] == x;
                if i < s.len() - 1 {
                    assert(p[i] == x);
                }
            }
            if p.contains(x) {
                let i = choose|i: int| 0 <= i < p.len() && p[i] == x;
                assert(s[i] == x);
            }
            if x == s.last() {
                assert(s[s.len() - 1] == x);
            }
        }
        if s.last() != a {
            let w = without(p, a);
            assert forall|x: Address| #[trigger] w.push(s.last()).contains(x) <==> (w.contains(x) || x
                == s.last()) by {
                if w.push(s.last()).contains(x) {
                    let i = choose|i: int| 0 <= i < w.len() + 1 && w.push(s.last())[i] == x;
                    if i < w.len() {
                        assert(w[i] == x);
                    }
                }
                if w.contains(x) {
                    let i = choose|i: int| 0 <= i < w.len() && w[i] == x;
                    assert(w.push(s.last())[i] == x);
                }
                if x == s.last() {
                    assert(w.push(s.last())[w.len() as int] == x);
                }
            }
            if s.no_duplicates() {
                assert(p.no_duplicates()) by {
                    assert forall|i: int, j: int| 0 <= i < p.len() && 0 <= j < p.len() && i != j implies p[i]
                        != p[j] by {
                        assert(s[i] == p[i] && s[j] == p[j]);
                    }
                }
                assert(!p.contains(s.last())) by {
                    if p.contains(s.last()) {
                        let i = choose|i: int| 0 <= i < p.len() && p[i] == s.last();
                        assert(s[i] == s[s.len() - 1]);
                    }
                }
                let wp = w.push(s.last());
                assert forall|i: int, j: int| 0 <= i < wp.len() && 0 <= j < wp.len() && i != j implies wp[i]
                    != wp[j] by {
                    if i < w.len() && j < w.len() {
                        assert(wp[i] == w[i] && wp[j] == w[j]);
                    } else if i < w.len() {
                        assert(w.contains(wp[i]));
                    } else {
                        assert(w.contains(wp[j]));
                    }
                }
            }
        } else if s.no_duplicates() {
            assert(p.no_duplicates()) by {
                assert forall|i: int, j: int| 0 <= i < p.len() && 0 <= j < p.len() && i != j implies p[i]
                    != p[j] by {
                    assert(s[i] == p[i] && s[j] == p[j]);
                }
            }
        }
    }
}

pub(crate) fn list_contains(v: &Vec<Address>, a: Address) -> (r: bool)
    ensures
        r == v@.contains(a),
{
    let mut i: usize = 0;
    while i < v.len()
        invariant
            0 <= i <= v@.len(),
            forall|j: int| 0 <= j < i ==> v@[j] != a,
        decreases v@.len() - i,
    {
        if v[i] == a {
            assert(v@[i as int] == a);
            return true;
        }
        i = i + 1;
    }
    false
}

fn list_without(v: &Vec<Address>, a: Address) -> (r: Vec<Address>)
    ensures
        r@ == without(v@, a),
{
    let mut out: Vec<Address> = Vec::new();
    let mut i: usize = 0;
    while i < v.len()
        invariant
            0 <= i <= v@.len(),
            out@ == without(v@.take(i as int), a),
        decreases v@.len() - i,
    {
        proof {
            assert(v@.take(i + 1).drop_last() =~= v@.take(i as int));
        }
        if v[i] != a {
            out.push(v[i]);
        }
        i = i + 1;
    }
    proof {
        assert(v@.take(i as int) =~= v@);
    }
    out
}

/// `a` and `b` record the same tip: every field equal, the metadata entry
/// by entry.
pub open spec fn same_message(a: TipWithMessage, b: TipWithMessage) -> bool {
    &&& a.sender == b.sender
    &&& a.creator == b.creator
    &&& a.amount == b.amount
    &&& a.message == b.message
    &&& a.metadata@ == b.metadata@
    &&& a.timestamp == b.timestamp
}

/// A copy of a tip's note and metadata.
fn copy_tip_message(m: &TipWithMessage) -> (r: TipWithMessage)
    ensures
        same_message(r, *m),
{
    let mut metadata: Vec<(String, String)> = Vec::new();
    let mut i: usize = 0;
    while i < m.metadata.len()
        invariant
            0 <= i <= m.metadata@.len(),
            metadata@ == m.metadata@.take(i as int),
        decreases m.metadata@.len() - i,
    {
        let (k, v) = &m.metadata[i];
        metadata.push((k.clone(), v.clone()));
        proof {
            assert(m.metadata@.take(i + 1) =~= m.metadata@.take(i as int).push(m.metadata@[i as int]));
        }
        i = i + 1;
    }
    proof {
        assert(m.metadata@.take(i as int) =~= m.metadata@);
    }
    TipWithMessage {
        sender: m.sender,
        creator: m.creator,
        amount: m.amount,
        message: m.message.clone(),
        metadata,
        timestamp: m.timestamp,
    }
}

/// The records of the tip jar.
pub struct TipJarContract {
    admin: Option<Address>,
    paused: bool,
    whitelist: Table<Address, bool>,
    creator_balance: Table<(Address, Address), i128>,
    creator_total: Table<(Address, Address), i128>,
    tip_counts: Table<Address, u64>,
    messages: Table<Address, Vec<TipWithMessage>>,
    user_role: Table<Address, Role>,
    role_members: Table<Role, Vec<Address>>,
}

impl TipJarContract {
    /// The administrator chosen at set-up, if set up.
    pub closed spec fn admin(&self) -> Option<Address> {
        self.admin
    }

    pub closed spec fn is_paused_spec(&self) -> bool {
        self.paused
    }

    pub closed spec fn whitelist_map(&self) -> Map<Address, bool> {
        self.whitelist@
    }

    pub closed spec fn balance_map(&self) -> Map<(Address, Address), i128> {
        self.creator_balance@
    }

    pub closed spec fn total_map(&self) -> Map<(Address, Address), i128> {
        self.creator_total@
    }

    pub closed spec fn tip_count_map(&self) -> Map<Address, u64> {
        self.tip_counts@
    }

    pub closed spec fn message_map(&self) -> Map<Address, Vec<TipWithMessage>> {
        self.messages@
    }

    pub closed spec fn role_map(&self) -> Map<Address, Role> {
        self.user_role@
    }

    pub closed spec fn members_map(&self) -> Map<Role, Vec<Address>> {
        self.role_members@
    }

    /// Whether `token` may be tipped with.
    pub open spec fn whitelisted(&self, token: Address) -> bool {
        self.whitelist_map().contains_key(token) && self.whitelist_map()[token]
    }

    /// The escrowed, withdrawable balance of `creator` in `token`.
    pub open spec fn balance_of(&self, creator: Address, token: Address) -> i128 {
        if self.balance_map().contains_key((creator, token)) {
            self.balance_map()[(creator, token)]
        } else {
            0
        }
    }

    /// All tips `creator` ever received in `token`.
    pub open spec fn total_of(&self, creator: Address, token: Address) -> i128 {
        if self.total_map().contains_key((creator, token)) {
            self.total_map()[(creator, token)]
        } else {
            0
        }
    }

    /// The number of tips recorded for `creator`.
    pub open spec fn tip_count_of(&self, creator: Address) -> u64 {
        if self.tip_count_map().contains_key(creator) {
            self.tip_count_map()[creator]
        } else {
            0
        }
    }

    /// The messages left for `creator`, oldest first.
    pub open spec fn messages_of(&self, creator: Address) -> Seq<TipWithMessage> {
        if self.message_map().contains_key(creator) {
            self.message_map()[creator]@
        } else {
            Seq::empty()
        }
    }

    /// Whether `target` holds `role`.
    pub open spec fn holds(&self, target: Address, role: Role) -> bool {
        self.role_map().contains_key(target) && self.role_map()[target] == role
    }

    /// The addresses listed under `role`.
    pub open spec fn members_of(&self, role: Role) -> Seq<Address> {
        if self.members_map().contains_key(role) {
            self.members_map()[role]@
        } else {
            Seq::empty()
        }
    }

    /// The invariant of the tip jar: escrowed balances are never negative and
    /// never exceed the creator's historical total; whoever holds a role is
    /// listed under it; no list names an address twice.
    pub closed spec fn wf(&self) -> bool {
        &&& self.whitelist.wf()
        &&& self.creator_balance.wf()
        &&& self.creator_total.wf()
        &&& self.tip_counts.wf()
        &&& self.messages.wf()
        &&& self.user_role.wf()
        &&& self.role_members.wf()
        &&& forall|c: Address, t: Address|
            0 <= #[trigger] self.balance_of(c, t) <= self.total_of(c, t)
        &&& forall|a: Address, r: Role| #[trigger] self.holds(a, r) ==> self.members_of(r).contains(a)
        &&& forall|r: Role| #[trigger] self.members_of(r).no_duplicates()
    }

    closed spec fn tables_wf(&self) -> bool {
        &&& self.whitelist.wf()
        &&& self.creator_balance.wf()
        &&& self.creator_total.wf()
        &&& self.tip_counts.wf()
        &&& self.messages.wf()
        &&& self.user_role.wf()
        &&& self.role_members.wf()
    }

    /// The invariant carries over to records that agree on funds and roles.
    proof fn lemma_wf_carries(&self, before: Self)
        requires
            before.wf(),
            self.tables_wf(),
            self.same_funds(before),
            self.same_roles(before),
        ensures
            self.wf(),
    {
        assert forall|c: Address, t: Address| 0 <= #[trigger] self.balance_of(c, t) <= self.total_of(c, t) by {
            assert(0 <= before.balance_of(c, t) <= before.total_of(c, t));
        }
        assert forall|a: Address, r: Role| #[trigger] self.holds(a, r) implies self.members_of(r).contains(a) by {
            assert(before.holds(a, r));
            assert(before.members_of(r).contains(a));
        }
        assert forall|r: Role| #[trigger] self.members_of(r).no_duplicates() by {
            assert(before.members_of(r).no_duplicates());
        }
    }

    /// The escrow law: a creator's withdrawable balance in a token is never
    /// negative and never exceeds all the tips the creator ever received in it.
    pub proof fn lemma_balance_within_total(&self, creator: Address, token: Address)
        requires
            self.wf(),
        ensures
            0 <= self.balance_of(creator, token) <= self.total_of(creator, token),
    {
    }

    /// An uninitialized tip jar with no records.
    pub fn new() -> (s: Self)
        ensures
            s.wf(),
            s.admin() is None,
            !s.is_paused_spec(),
            forall|t: Address| !s.whitelisted(t),
            forall|c: Address, t: Address| s.balance_of(c, t) == 0 && s.total_of(c, t) == 0,
            forall|a: Address, r: Role| !s.holds(a, r),
            forall|r: Role| s.members_of(r).len() == 0,
            forall|c: Address| s.tip_count_of(c) == 0 && s.messages_of(c).len() == 0,
    {
        TipJarContract {
            admin: None,
            paused: false,
            whitelist: Table::new(),
            creator_balance: Table::new(),
            creator_total: Table::new(),
            tip_counts: Table::new(),
            messages: Table::new(),
            user_role: Table::new(),
            role_members: Table::new(),
        }
    }

    /// Shared write path for granting a role: records `role` for `target`
    /// and lists `target` under `role` unless already listed.
    fn grant_role_internal(&mut self, target: Address, role: Role)
        requires
            old(self).wf(),
        ensures
            final(self).wf(),
            final(self).role_map() == old(self).role_map().insert(target, role),
            final(self).members_of(role) == if old(self).members_of(role).contains(target) {
                old(self).members_of(role)
            } else {
                old(self).members_of(role).push(target)
            },
            forall|r: Role| r != role ==> #[trigger] final(self).members_of(r) == old(self).members_of(r),
            final(self).unchanged_except_roles(*old(self)),
    {
        self.user_role.insert(target, role);
        let mut members = match self.role_members.remove(&role) {
            Some(m) => m,
            None => Vec::new(),
        };
        let ghost before = members@;
        proof {
            assert(before == old(self).members_of(role));
            assert(old(self).members_of(role).no_duplicates());
        }
        if !list_contains(&members, target) {
            members.push(target);
        }
        proof {
            if !before.contains(target) {
                assert forall|i: int, j: int|
                    0 <= i < members@.len() && 0 <= j < members@.len() && i != j implies members@[i]
                    != members@[j] by {
                    if i < before.len() && j < before.len() {
                        assert(before[i] != before[j]);
                    } else if i < before.len() {
                        assert(before.contains(members@[i]));
                    } else {
                        assert(before.contains(members@[j]));
                    }
                }
            }
            assert forall|x: Address| before.contains(x) implies members@.contains(x) by {
                let i = choose|i: int| 0 <= i < before.len() && before[i] == x;
                assert(members@[i] == x);
            }
            assert(members@.contains(target)) by {
                if !before.contains(target) {
                    assert(members@[before.len() as int] == target);
                }
            }
        }
        self.role_members.insert(role, members);
        proof {
            assert forall|r: Role| r != role implies #[trigger] self.members_of(r) == old(self).members_of(r) by {
                assert(self.members_map().contains_key(r) == old(self).members_map().contains_key(r));
            }
            assert forall|a: Address, r: Role| #[trigger] self.holds(a, r) implies self.members_of(r).contains(a) by {
                if a != target {
                    assert(old(self).holds(a, r));
                    assert(old(self).members_of(r).contains(a));
                    if r == role {
                        assert(before.contains(a));
                    }
                }
            }
            assert forall|r: Role| #[trigger] self.members_of(r).no_duplicates() by {
                if r != role {
                    assert(old(self).members_of(r).no_duplicates());
                }
            }
            assert forall|c: Address, t: Address| 0 <= #[trigger] self.balance_of(c, t) <= self.total_of(c, t) by {
                assert(0 <= old(self).balance_of(c, t) <= old(self).total_of(c, t));
            }
        }
    }

    /// Succeeds exactly when `addr` holds `required`.
    fn require_role(&self, addr: Address, required: Role) -> (r: Result<(), TipJarError>)
        requires
            self.wf(),
        ensures
            r == if self.holds(addr, required) {
                Ok::<(), TipJarError>(())
            } else {
                Err(TipJarError::Unauthorized)
            },
    {
        match self.user_role.get(&addr) {
            Some(r) => if *r == required {
                Ok(())
            } else {
                Err(TipJarError::Unauthorized)
            },
            None => Err(TipJarError::Unauthorized),
        }
    }

    /// Succeeds exactly when `addr` holds one of `roles`.
    fn require_any_role(&self, addr: Address, roles: &[Role]) -> (r: Result<(), TipJarError>)
        requires
            self.wf(),
        ensures
            r == if exists|i: int| 0 <= i < roles@.len() && self.holds(addr, #[trigger] roles@[i]) {
                Ok::<(), TipJarError>(())
            } else {
                Err(TipJarError::Unauthorized)
            },
    {
        let assigned = match self.user_role.get(&addr) {
            Some(r) => *r,
            None => {
                return Err(TipJarError::Unauthorized);
            },
        };
        let mut i: usize = 0;
        while i < roles.len()
            invariant
                0 <= i <= roles@.len(),
                self.role_map().contains_key(addr),
                self.role_map()[addr] == assigned,
                forall|j: int| 0 <= j < i ==> roles@[j] != assigned,
            decreases roles@.len() - i,
        {
            if roles[i] == assigned {
                assert(self.holds(addr, roles@[i as int]));
                return Ok(());
            }
            i = i + 1;
        }
        Err(TipJarError::Unauthorized)
    }

    /// The escrowed balances, historical totals and tip counts are as in `other`.
    pub open spec fn same_funds(&self, other: Self) -> bool {
        &&& self.balance_map() == other.balance_map()
        &&& self.total_map() == other.total_map()
        &&& self.tip_count_map() == other.tip_count_map()
    }

    /// The roles and role lists are as in `other`.
    pub open spec fn same_roles(&self, other: Self) -> bool {
        &&& self.role_map() == other.role_map()
        &&& self.members_map() == other.members_map()
    }

    /// The records other than roles are as in `other`.
    pub open spec fn unchanged_except_roles(&self, other: Self) -> bool {
        &&& self.admin() == other.admin()
        &&& self.is_paused_spec() == other.is_paused_spec()
        &&& self.whitelist_map() == other.whitelist_map()
        &&& self.same_funds(other)
        &&& self.message_map() == other.message_map()
    }
}

impl TipJarContract {
    /// Everything but the balances, totals and messages is as in `other`
    /// (the tip counts too).
    pub open spec fn others_same_as_after_credit(&self, other: Self) -> bool {
        &&& self.admin() == other.admin()
        &&& self.is_paused_spec() == other.is_paused_spec()
        &&& self.whitelist_map() == other.whitelist_map()
        &&& self.tip_count_map() == other.tip_count_map()
        &&& self.same_roles(other)
    }

    /// Everything but the pause flag is as in `other`.
    pub open spec fn unchanged_except_pause(&self, other: Self) -> bool {
        &&& self.admin() == other.admin()
        &&& self.whitelist_map() == other.whitelist_map()
        &&& self.same_funds(other)
        &&& self.message_map() == other.message_map()
        &&& self.same_roles(other)
    }

    /// All records are as in `other`.
    pub open spec fn same_records(&self, other: Self) -> bool {
        &&& self.unchanged_except_roles(other)
        &&& self.role_map() == other.role_map()
        &&& self.members_map() == other.members_map()
    }

    /// `after` differs from `before` only by `role` granted to `target`.
    pub open spec fn granted(before: Self, after: Self, target: Address, role: Role) -> bool {
        &&& after.unchanged_except_roles(before)
        &&& Self::granted_roles(before, after, target, role)
    }

    /// In `after` the role records are those of `before` with `role` granted to `target`.
    pub open spec fn granted_roles(before: Self, after: Self, target: Address, role: Role) -> bool {
        &&& after.role_map() == before.role_map().insert(target, role)
        &&& after.members_of(role) == if before.members_of(role).contains(target) {
            before.members_of(role)
        } else {
            before.members_of(role).push(target)
        }
        &&& forall|r: Role| r != role ==> #[trigger] after.members_of(r) == before.members_of(r)
    }

    /// One-time setup to choose the administrator for the TipJar; the
    /// administrator receives the Admin role.
    pub fn init(&mut self, admin: Address) -> (r: Result<(), TipJarError>)
        requires
            old(self).wf(),
        ensures
            final(self).wf(),
            old(self).admin() is Some ==> r == Err::<(), TipJarError>(TipJarError::AlreadyInitialized)
                && final(self).same_records(*old(self)),
            old(self).admin() is None ==> {
                &&& r is Ok
                &&& final(self).admin() == Some(admin)
                &&& !final(self).is_paused_spec()
                &&& final(self).whitelist_map() == old(self).whitelist_map()
                &&& final(self).same_funds(*old(self))
                &&& final(self).message_map() == old(self).message_map()
                &&& Self::granted_roles(*old(self), *final(self), admin, Role::Admin)
            },
    {
        if self.admin.is_some() {
            return Err(TipJarError::AlreadyInitialized);
        }
        self.admin = Some(admin);
        self.paused = false;
        proof {
            self.lemma_wf_carries(*old(self));
        }
        self.grant_role_internal(admin, Role::Admin);
        Ok(())
    }

    /// Adds a token to the whitelist (Admin only).
    pub fn add_token(&mut self, admin: Address, token: Address) -> (r: Result<(), TipJarError>)
        requires
            old(self).wf(),
        ensures
            final(self).wf(),
            r == if old(self).holds(admin, Role::Admin) {
                Ok::<(), TipJarError>(())
            } else {
                Err(TipJarError::Unauthorized)
            },
            r is Err ==> final(self).same_records(*old(self)),
            r is Ok ==> final(self).whitelist_map() == old(self).whitelist_map().insert(token, true),
            r is Ok ==> final(self).admin() == old(self).admin() && final(self).is_paused_spec() == old(
                self,
            ).is_paused_spec() && final(self).same_funds(*old(self)) && final(self).message_map() == old(
                self,
            ).message_map() && final(self).same_roles(*old(self)),
    {
        self.require_role(admin, Role::Admin)?;
        self.whitelist.insert(token, true);
        proof {
            self.lemma_wf_carries(*old(self));
        }
        Ok(())
    }

    /// Removes a token from the whitelist (Admin only).
    pub fn remove_token(&mut self, admin: Address, token: Address) -> (r: Result<(), TipJarError>)
        requires
            old(self).wf(),
        ensures
            final(self).wf(),
            r == if old(self).holds(admin, Role::Admin) {
                Ok::<(), TipJarError>(())
            } else {
                Err(TipJarError::Unauthorized)
            },
            r is Err ==> final(self).same_records(*old(self)),
            r is Ok ==> final(self).whitelist_map() == old(self).whitelist_map().insert(token, false),
            r is Ok ==> final(self).admin() == old(self).admin() && final(self).is_paused_spec() == old(
                self,
            ).is_paused_spec() && final(self).same_funds(*old(self)) && final(self).message_map() == old(
                self,
            ).message_map() && final(self).same_roles(*old(self)),
    {
        self.require_role(admin, Role::Admin)?;
        self.whitelist.insert(token, false);
        proof {
            self.lemma_wf_carries(*old(self));
        }
        Ok(())
    }

    /// Credits `amount` to both the escrowed balance and the historical total
    /// of `creator` in `token`.
    fn credit(&mut self, creator: Address, token: Address, amount: i128)
        requires
            old(self).wf(),
            amount > 0,
            fits(old(self).total_of(creator, token) + amount),
        ensures
            final(self).wf(),
            final(self).balance_map() == old(self).balance_map().insert(
                (creator, token),
                (old(self).balance_of(creator, token) + amount) as i128,
            ),
            final(self).total_map() == old(self).total_map().insert(
                (creator, token),
                (old(self).total_of(creator, token) + amount) as i128,
            ),
            final(self).others_same_as_after_credit(*old(self)),
            final(self).message_map() == old(self).message_map(),
    {
        let balance = match self.creator_balance.get(&(creator, token)) {
            Some(b) => *b,
            None => 0,
        };
        let total = match self.creator_total.get(&(creator, token)) {
            Some(t) => *t,
            None => 0,
        };
        proof {
            assert(0 <= old(self).balance_of(creator, token) <= old(self).total_of(creator, token));
        }
        self.creator_balance.insert((creator, token), balance + amount);
        self.creator_total.insert((creator, token), total + amount);
        proof {
            assert forall|c: Address, t: Address| 0 <= #[trigger] self.balance_of(c, t) <= self.total_of(c, t) by {
                assert(0 <= old(self).balance_of(c, t) <= old(self).total_of(c, t));
            }
            assert forall|a: Address, r: Role| #[trigger] self.holds(a, r) implies self.members_of(r).contains(a) by {
                assert(old(self).holds(a, r));
            }
            assert forall|r: Role| #[trigger] self.members_of(r).no_duplicates() by {
                assert(old(self).members_of(r).no_duplicates());
            }
        }
    }

    /// Moves `amount` tokens from `sender` into contract escrow for `creator`.
    pub fn tip(&mut self, sender: Address, creator: Address, token: Address, amount: i128) -> (r: Result<
        Transfer,
        TipJarError,
    >)
        requires
            old(self).wf(),
            !old(self).is_paused_spec() && amount > 0 && old(self).whitelisted(token) ==> fits(
                old(self).total_of(creator, token) + amount,
            ),
        ensures
            final(self).wf(),
            r is Err ==> final(self).same_records(*old(self)),
            old(self).is_paused_spec() ==> r == Err::<Transfer, TipJarError>(TipJarError::ContractPaused),
            !old(self).is_paused_spec() && amount <= 0 ==> r == Err::<Transfer, TipJarError>(
                TipJarError::InvalidAmount,
            ),
            !old(self).is_paused_spec() && amount > 0 && !old(self).whitelisted(token) ==> r == Err::<
                Transfer,
                TipJarError,
            >(TipJarError::TokenNotWhitelisted),
            !old(self).is_paused_spec() && amount > 0 && old(self).whitelisted(token) ==> {
                &&& r == Ok::<Transfer, TipJarError>(Transfer::Deposit { token, from: sender, amount })
                &&& final(self).balance_of(creator, token) == old(self).balance_of(creator, token) + amount
                &&& final(self).total_of(creator, token) == old(self).total_of(creator, token) + amount
                &&& final(self).balance_map() == old(self).balance_map().insert(
                    (creator, token),
                    final(self).balance_of(creator, token),
                )
                &&& final(self).total_map() == old(self).total_map().insert(
                    (creator, token),
                    final(self).total_of(creator, token),
                )
                &&& final(self).others_same_as_after_credit(*old(self))
                &&& final(self).message_map() == old(self).message_map()
            },
    {
        if self.paused {
            return Err(TipJarError::ContractPaused);
        }
        if amount <= 0 {
            return Err(TipJarError::InvalidAmount);
        }
        if !self.is_whitelisted(token) {
            return Err(TipJarError::TokenNotWhitelisted);
        }
        self.credit(creator, token, amount);
        Ok(Transfer::Deposit { token, from: sender, amount })
    }

    /// Allows supporters to attach a note (at most 280 bytes) and metadata to
    /// a tip made at `now`.
    pub fn tip_with_message(
        &mut self,
        now: u64,
        sender: Address,
        creator: Address,
        token: Address,
        amount: i128,
        message: String,
        metadata: Vec<(String, String)>,
    ) -> (r: Result<Transfer, TipJarError>)
        requires
            old(self).wf(),
            !old(self).is_paused_spec() && amount > 0 && old(self).whitelisted(token) ==> fits(
                old(self).total_of(creator, token) + amount,
            ),
        ensures
            final(self).wf(),
            r is Err ==> final(self).same_records(*old(self)),
            old(self).is_paused_spec() ==> r == Err::<Transfer, TipJarError>(TipJarError::ContractPaused),
            !old(self).is_paused_spec() && amount <= 0 ==> r == Err::<Transfer, TipJarError>(
                TipJarError::InvalidAmount,
            ),
            !old(self).is_paused_spec() && amount > 0 && encode_utf8(message@).len() > MAX_MESSAGE_BYTES
                ==> r == Err::<Transfer, TipJarError>(TipJarError::MessageTooLong),
            !old(self).is_paused_spec() && amount > 0 && encode_utf8(message@).len() <= MAX_MESSAGE_BYTES
                && !old(self).whitelisted(token) ==> r == Err::<Transfer, TipJarError>(
                TipJarError::TokenNotWhitelisted,
            ),
            !old(self).is_paused_spec() && amount > 0 && encode_utf8(message@).len() <= MAX_MESSAGE_BYTES
                && old(self).whitelisted(token) ==> {
                &&& r == Ok::<Transfer, TipJarError>(Transfer::Deposit { token, from: sender, amount })
                &&& final(self).balance_of(creator, token) == old(self).balance_of(creator, token) + amount
                &&& final(self).total_of(creator, token) == old(self).total_of(creator, token) + amount
                &&& final(self).balance_map() == old(self).balance_map().insert(
                    (creator, token),
                    final(self).balance_of(creator, token),
                )
                &&& final(self).total_map() == old(self).total_map().insert(
                    (creator, token),
                    final(self).total_of(creator, token),
                )
                &&& final(self).messages_of(creator) == old(self).messages_of(creator).push(
                    TipWithMessage { sender, creator, amount, message, metadata, timestamp: now },
                )
                &&& forall|c: Address| c != creator ==> #[trigger] final(self).messages_of(c) == old(self).messages_of(c)
                &&& final(self).others_same_as_after_credit(*old(self))
            },
    {
        if self.paused {
            return Err(TipJarError::ContractPaused);
        }
        if amount <= 0 {
            return Err(TipJarError::InvalidAmount);
        }
        let message_bytes = message.as_str().as_bytes().len();
        proof {
            assert(message_bytes == encode_utf8(message@).len());
        }
        if message_bytes > MAX_MESSAGE_BYTES {
            return Err(TipJarError::MessageTooLong);
        }
        if !self.is_whitelisted(token) {
            return Err(TipJarError::TokenNotWhitelisted);
        }
        self.credit(creator, token, amount);
        let ghost credited = *self;
        let payload = TipWithMessage { sender, creator, amount, message, metadata, timestamp: now };
        let mut list = match self.messages.remove(&creator) {
            Some(l) => l,
            None => Vec::new(),
        };
        list.push(payload);
        self.messages.insert(creator, list);
        proof {
            assert forall|c: Address| c != creator implies #[trigger] self.messages_of(c) == old(self).messages_of(c) by {
                assert(self.message_map().contains_key(c) == old(self).message_map().contains_key(c));
            }
            self.lemma_wf_carries(credited);
        }
        Ok(Transfer::Deposit { token, from: sender, amount })
    }

    /// Returns total historical tips for a creator for a specific token.
    pub fn get_total_tips(&self, creator: Address, token: Address) -> (r: i128)
        requires
            self.wf(),
        ensures
            r == self.total_of(creator, token),
    {
        match self.creator_total.get(&(creator, token)) {
            Some(t) => *t,
            None => 0,
        }
    }

    /// Returns stored messages for a creator.
    pub fn get_messages(&self, creator: Address) -> (r: Vec<TipWithMessage>)
        requires
            self.wf(),
        ensures
            r@.len() == self.messages_of(creator).len(),
            forall|i: int| 0 <= i < r@.len() ==> same_message(#[trigger] r@[i], self.messages_of(creator)[i]),
    {
        let mut out: Vec<TipWithMessage> = Vec::new();
        match self.messages.get(&creator) {
            Some(l) => {
                let mut i: usize = 0;
                while i < l.len()
                    invariant
                        0 <= i <= l@.len(),
                        out@.len() == i,
                        forall|j: int| 0 <= j < i ==> same_message(#[trigger] out@[j], l@[j]),
                    decreases l@.len() - i,
                {
                    out.push(copy_tip_message(&l[i]));
                    i = i + 1;
                }
            },
            None => {},
        }
        out
    }

    /// Returns currently withdrawable escrowed tips for a creator for a specific token.
    pub fn get_withdrawable_balance(&self, creator: Address, token: Address) -> (r: i128)
        requires
            self.wf(),
        ensures
            r == self.balance_of(creator, token),
    {
        match self.creator_balance.get(&(creator, token)) {
            Some(b) => *b,
            None => 0,
        }
    }

    /// The number of tips recorded for `creator`.
    pub fn get_tip_count(&self, creator: Address) -> (r: u64)
        requires
            self.wf(),
        ensures
            r == self.tip_count_of(creator),
    {
        match self.tip_counts.get(&creator) {
            Some(n) => *n,
            None => 0,
        }
    }

    /// Allows creator to withdraw their accumulated escrowed tips for a specific token.
    pub fn withdraw(&mut self, creator: Address, token: Address) -> (r: Result<Transfer, TipJarError>)
        requires
            old(self).wf(),
        ensures
            final(self).wf(),
            r is Err ==> final(self).same_records(*old(self)),
            old(self).is_paused_spec() ==> r == Err::<Transfer, TipJarError>(TipJarError::ContractPaused),
            !old(self).is_paused_spec() && !old(self).holds(creator, Role::Creator) ==> r == Err::<
                Transfer,
                TipJarError,
            >(TipJarError::Unauthorized),
            !old(self).is_paused_spec() && old(self).holds(creator, Role::Creator) && old(self).balance_of(
                creator,
                token,
            ) <= 0 ==> r == Err::<Transfer, TipJarError>(TipJarError::NothingToWithdraw),
            !old(self).is_paused_spec() && old(self).holds(creator, Role::Creator) && old(self).balance_of(
                creator,
                token,
            ) > 0 ==> {
                &&& r == Ok::<Transfer, TipJarError>(
                    Transfer::Payout { token, to: creator, amount: old(self).balance_of(creator, token) },
                )
                &&& final(self).balance_map() == old(self).balance_map().insert((creator, token), 0)
                &&& final(self).others_same_as_after_credit(*old(self))
                &&& final(self).total_map() == old(self).total_map()
                &&& final(self).message_map() == old(self).message_map()
            },
    {
        if self.paused {
            return Err(TipJarError::ContractPaused);
        }
        self.require_role(creator, Role::Creator)?;
        let amount = self.get_withdrawable_balance(creator, token);
        if amount <= 0 {
            return Err(TipJarError::NothingToWithdraw);
        }
        self.creator_balance.insert((creator, token), 0);
        proof {
            assert forall|c: Address, t: Address| 0 <= #[trigger] self.balance_of(c, t) <= self.total_of(c, t) by {
                assert(0 <= old(self).balance_of(c, t) <= old(self).total_of(c, t));
            }
            assert forall|a: Address, r: Role| #[trigger] self.holds(a, r) implies self.members_of(r).contains(a) by {
                assert(old(self).holds(a, r));
            }
            assert forall|r: Role| #[trigger] self.members_of(r).no_duplicates() by {
                assert(old(self).members_of(r).no_duplicates());
            }
        }
        Ok(Transfer::Payout { token, to: creator, amount })
    }

    /// Whether `token` is whitelisted.
    pub fn is_whitelisted(&self, token: Address) -> (r: bool)
        requires
            self.wf(),
        ensures
            r == self.whitelisted(token),
    {
        match self.whitelist.get(&token) {
            Some(w) => *w,
            None => false,
        }
    }

    /// Emergency pause to stop all state-changing activities (Admin or Moderator only).
    pub fn pause(&mut self, admin: Address) -> (r: Result<(), TipJarError>)
        requires
            old(self).wf(),
        ensures
            final(self).wf(),
            r == if old(self).holds(admin, Role::Admin) || old(self).holds(admin, Role::Moderator) {
                Ok::<(), TipJarError>(())
            } else {
                Err(TipJarError::Unauthorized)
            },
            r is Ok ==> final(self).is_paused_spec(),
            r is Ok ==> final(self).unchanged_except_pause(*old(self)),
            r is Err ==> final(self).same_records(*old(self)),
    {
        self.set_paused(admin, true)
    }

    /// Resume contract activities after an emergency pause (Admin or Moderator only).
    pub fn unpause(&mut self, admin: Address) -> (r: Result<(), TipJarError>)
        requires
            old(self).wf(),
        ensures
            final(self).wf(),
            r == if old(self).holds(admin, Role::Admin) || old(self).holds(admin, Role::Moderator) {
                Ok::<(), TipJarError>(())
            } else {
                Err(TipJarError::Unauthorized)
            },
            r is Ok ==> !final(self).is_paused_spec(),
            r is Ok ==> final(self).unchanged_except_pause(*old(self)),
            r is Err ==> final(self).same_records(*old(self)),
    {
        self.set_paused(admin, false)
    }

    fn set_paused(&mut self, admin: Address, paused: bool) -> (r: Result<(), TipJarError>)
        requires
            old(self).wf(),
        ensures
            final(self).wf(),
            r == if old(self).holds(admin, Role::Admin) || old(self).holds(admin, Role::Moderator) {
                Ok::<(), TipJarError>(())
            } else {
                Err(TipJarError::Unauthorized)
            },
            r is Ok ==> final(self).unchanged_except_pause(*old(self)) && final(self).is_paused_spec() == paused,
            r is Err ==> final(self).same_records(*old(self)),
    {
        let roles = [Role::Admin, Role::Moderator];
        let result = self.require_any_role(admin, roles.as_slice());
        proof {
            assert(roles@[0] == Role::Admin && roles@[1] == Role::Moderator);
            if old(self).holds(admin, Role::Admin) {
                assert(self.holds(admin, roles@[0]));
            }
            if old(self).holds(admin, Role::Moderator) {
                assert(self.holds(admin, roles@[1]));
            }
        }
        result?;
        self.paused = paused;
        proof {
            self.lemma_wf_carries(*old(self));
        }
        Ok(())
    }

    /// Whether the contract is paused.
    pub fn is_paused(&self) -> (r: bool)
        ensures
            r == self.is_paused_spec(),
    {
        self.paused
    }

    /// Returns `true` iff `target` currently holds `role`.
    pub fn has_role(&self, target: Address, role: Role) -> (r: bool)
        requires
            self.wf(),
        ensures
            r == self.holds(target, role),
    {
        match self.user_role.get(&target) {
            Some(r) => *r == role,
            None => false,
        }
    }

    /// The addresses listed under `role`.
    pub fn get_role_members(&self, role: Role) -> (r: Vec<Address>)
        requires
            self.wf(),
        ensures
            r@ == self.members_of(role),
    {
        match self.role_members.get(&role) {
            Some(m) => copy_list(m),
            None => Vec::new(),
        }
    }

    /// Grants `role` to `target`. Caller must be Admin.
    pub fn grant_role(&mut self, caller: Address, target: Address, role: Role) -> (r: Result<(), TipJarError>)
        requires
            old(self).wf(),
        ensures
            final(self).wf(),
            r == if old(self).holds(caller, Role::Admin) {
                Ok::<(), TipJarError>(())
            } else {
                Err(TipJarError::Unauthorized)
            },
            r is Err ==> final(self).same_records(*old(self)),
            r is Ok ==> Self::granted(*old(self), *final(self), target, role),
    {
        self.require_role(caller, Role::Admin)?;
        self.grant_role_internal(target, role);
        Ok(())
    }

    /// Revokes the role from `target`: it no longer holds a role and is no
    /// longer listed under the role it held. Caller must be Admin.
    pub fn revoke_role(&mut self, caller: Address, target: Address) -> (r: Result<(), TipJarError>)
        requires
            old(self).wf(),
        ensures
            final(self).wf(),
            !old(self).holds(caller, Role::Admin) ==> r == Err::<(), TipJarError>(TipJarError::Unauthorized),
            old(self).holds(caller, Role::Admin) && !old(self).role_map().contains_key(target) ==> r == Err::<
                (),
                TipJarError,
            >(TipJarError::RoleNotFound),
            r is Err ==> final(self).same_records(*old(self)),
            old(self).holds(caller, Role::Admin) && old(self).role_map().contains_key(target) ==> {
                let role = old(self).role_map()[target];
                &&& r is Ok
                &&& final(self).role_map() == old(self).role_map().remove(target)
                &&& final(self).members_of(role) == without(old(self).members_of(role), target)
                &&& forall|q: Role| q != role ==> #[trigger] final(self).members_of(q) == old(self).members_of(q)
                &&& final(self).unchanged_except_roles(*old(self))
            },
    {
        self.require_role(caller, Role::Admin)?;
        let role = match self.user_role.remove(&target) {
            Some(r) => r,
            None => {
                proof {
                    assert(self.role_map() =~= old(self).role_map());
                    self.lemma_wf_carries(*old(self));
                }
                return Err(TipJarError::RoleNotFound);
            },
        };
        let members = match self.role_members.remove(&role) {
            Some(m) => m,
            None => Vec::new(),
        };
        let filtered = list_without(&members, target);
        proof {
            assert(members@ == old(self).members_of(role));
            lemma_without(members@, target);
            assert(old(self).members_of(role).no_duplicates());
        }
        self.role_members.insert(role, filtered);
        proof {
            assert forall|q: Role| q != role implies #[trigger] self.members_of(q) == old(self).members_of(q) by {
                assert(self.members_map().contains_key(q) == old(self).members_map().contains_key(q));
            }
            assert forall|a: Address, q: Role| #[trigger] self.holds(a, q) implies self.members_of(q).contains(a) by {
                assert(a != target);
                assert(old(self).holds(a, q));
                assert(old(self).members_of(q).contains(a));
            }
            assert forall|q: Role| #[trigger] self.members_of(q).no_duplicates() by {
                if q != role {
                    assert(old(self).members_of(q).no_duplicates());
                }
            }
            assert forall|c: Address, t: Address| 0 <= #[trigger] self.balance_of(c, t) <= self.total_of(c, t) by {
                assert(0 <= old(self).balance_of(c, t) <= old(self).total_of(c, t));
            }
        }
        Ok(())
    }
}

/// After a role is granted, the target holds it and is listed under it
/// exactly once, however often it was granted before.
pub proof fn lemma_granted_role_is_held(before: TipJarContract, after: TipJarContract, target: Address, role: Role)
    requires
        after.wf(),
        TipJarContract::granted_roles(before, after, target, role),
    ensures
        after.holds(target, role),
        after.members_of(role).contains(target),
        after.members_of(role).no_duplicates(),
{
}

/// After a role is revoked, the target holds no role and is no longer
/// listed under the role it held.
pub proof fn lemma_revoked_role_is_gone(before: TipJarContract, after: TipJarContract, target: Address, role: Role)
    requires
        before.holds(target, role),
        after.role_map() == before.role_map().remove(target),
        after.members_of(role) == without(before.members_of(role), target),
    ensures
        forall|r: Role| !after.holds(target, r),
        !after.members_of(role).contains(target),
{
    lemma_without(before.members_of(role), target);
}

} // verus!
