//! The authoritative in-memory store of user records, and the economy /
//! inventory bridge the game variants call: balance lookup, credit, debit,
//! and item access, all keyed by user id.
//!
//! Exclusive access (`&mut Users`) is the mutual-exclusion discipline: a
//! caller holding the store performs its whole check-then-act sequence in one
//! critical section.
use vstd::prelude::*;
use crate::items::{InventoryItem, SuperDrill};
use crate::userdata::{UserFile, UserValues};

verus! {

/// Addition clipped to the 64-bit ceiling, the arithmetic every credit uses.
pub open spec fn sat64(v: int) -> u64 {
    if v <= u64::MAX {
        v as u64
    } else {
        u64::MAX
    }
}

/// An escrowed stake refunded in full restores the balance exactly: the
/// refund's saturating credit never clips, because the debited balance plus
/// the stake is the pre-stake balance again. Together with `debit` (which
/// takes the stake exactly) and `credit` (which returns it exactly), a
/// cancelled stake is never destroyed nor duplicated.
pub proof fn lemma_escrow_refund_exact(bal: u64, stake: u64)
    requires
        stake <= bal,
    ensures
        sat64((bal - stake) + stake) == bal,
{
}

pub struct Users {
    pub list: Vec<UserValues>,
}

impl Users {
    /// Record ids are unique, so each user has one authoritative record.
    pub open spec fn wf(self) -> bool {
        forall|i: int, j: int|
            0 <= i < j < self.list@.len() ==> (#[trigger] self.list@[i]).id != (
            #[trigger] self.list@[j]).id
    }

    pub open spec fn spec_has(self, user: u64) -> bool {
        exists|i: int| 0 <= i < self.list@.len() && (#[trigger] self.list@[i]).id == user
    }

    pub open spec fn spec_index(self, user: u64) -> int {
        choose|i: int| 0 <= i < self.list@.len() && (#[trigger] self.list@[i]).id == user
    }

    /// The user's record; meaningful only when the user is present.
    pub open spec fn spec_file(self, user: u64) -> UserFile {
        self.list@[self.spec_index(user)].file
    }

    /// The user's balance; a user without a record holds nothing.
    pub open spec fn spec_balance(self, user: u64) -> u64 {
        if self.spec_has(user) {
            self.spec_file(user).bananas
        } else {
            0
        }
    }

    pub fn new() -> (s: Users)
        ensures
            s.list@.len() == 0,
            s.wf(),
    {
        Users { list: Vec::new() }
    }

    /// Index of the user's record, when one exists.
    fn find(&self, user: u64) -> (r: Option<usize>)
        ensures
            match r {
                Option::Some(i) => i < self.list@.len() && self.list@[i as int].id == user,
                Option::None => !self.spec_has(user),
            },
    {
        let mut i: usize = 0;
        while i < self.list.len()
            invariant
                i <= self.list@.len(),
                forall|j: int| 0 <= j < i ==> (#[trigger] self.list@[j]).id != user,
            decreases self.list@.len() - i,
        {
            if self.list[i].id == user {
                return Some(i);
            }
            i = i + 1;
        }
        None
    }

    pub fn get_balance(&self, user: u64) -> (b: u64)
        requires
            self.wf(),
        ensures
            b == self.spec_balance(user),
    {
        match self.find(user) {
            Some(i) => {
                proof {
                    self.lemma_index_agrees(i as int, user);
                }
                self.list[i].file.bananas
            },
            None => 0,
        }
    }

    /// With unique ids, any index holding the user's id is the chosen one.
    proof fn lemma_index_agrees(self, i: int, user: u64)
        requires
            self.wf(),
            0 <= i < self.list@.len(),
            self.list@[i].id == user,
        ensures
            self.spec_has(user),
            self.spec_index(user) == i,
    {
        assert(self.spec_has(user));
        let j = self.spec_index(user);
        assert(0 <= j < self.list@.len() && self.list@[j].id == user);
        if i != j {
            assert(self.list@[i].id != self.list@[j].id);
        }
    }

    /// Make sure a record for the user exists, creating a fresh one when
    /// absent, and report its index.
    fn ensure_entry(&mut self, user: u64) -> (i: usize)
        requires
            old(self).wf(),
        ensures
            final(self).wf(),
            i < final(self).list@.len(),
            final(self).list@[i as int].id == user,
            final(self).spec_has(user),
            final(self).spec_index(user) == i,
            old(self).spec_has(user) ==> *final(self) == *old(self) && old(self).spec_index(
                user,
            ) == i,
            !old(self).spec_has(user) ==> ({
                let fresh = final(self).list@.last();
                &&& final(self).list@.drop_last() == old(self).list@
                &&& fresh.id == user
                &&& fresh.file.bananas == 0
                &&& fresh.file.inventory.items@.len() == 0
                &&& fresh.file.inventory.equiped is None
                &&& fresh.file.super_nanners == 0
                &&& fresh.file.level == 1
                &&& fresh.file.prestige == 1
            }),
            forall|v: u64|
                v != user ==> old(self).spec_has(v) == final(self).spec_has(v) && (old(
                    self,
                ).spec_has(v) ==> final(self).spec_file(v) == old(self).spec_file(v)
                    && final(self).spec_index(v) == old(self).spec_index(v)),
    {
        match self.find(user) {
            Some(i) => {
                proof {
                    self.lemma_index_agrees(i as int, user);
                }
                i
            },
            None => {
                let fresh = UserValues::new(user);
                let i = self.list.len();
                self.list.push(fresh);
                proof {
                    assert(self.list@.drop_last() == old(self).list@);
                    assert forall|a: int, b: int|
                        0 <= a < b < self.list@.len() implies (#[trigger] self.list@[a]).id != (
                        #[trigger] self.list@[b]).id by {
                        if b < self.list@.len() - 1 {
                            assert(old(self).list@[a].id != old(self).list@[b].id);
                        } else {
                            assert(old(self).list@[a].id != user);
                        }
                    }
                    self.lemma_index_agrees(i as int, user);
                    assert forall|v: u64| v != user implies old(self).spec_has(v) == self
                        .spec_has(v) && (old(self).spec_has(v) ==> self.spec_file(v) == old(
                        self,
                    ).spec_file(v) && self.spec_index(v) == old(self).spec_index(v)) by {
                        if old(self).spec_has(v) {
                            let j = old(self).spec_index(v);
                            assert(self.list@[j].id == v);
                            self.lemma_index_agrees(j, v);
                        }
                        if self.spec_has(v) {
                            let j = self.spec_index(v);
                            assert(self.list@[j].id == v);
                            assert(j < self.list@.len() - 1);
                            assert(old(self).list@[j].id == v);
                            assert(old(self).spec_has(v));
                        }
                    }
                }
                i
            },
        }
    }

    /// A single-record replacement that keeps the id in place preserves
    /// well-formedness, membership, and every other user's record.
    proof fn lemma_point_update(pre: Users, post: Users, i: int, user: u64)
        requires
            pre.wf(),
            0 <= i < pre.list@.len(),
            pre.list@[i].id == user,
            post.list@ == pre.list@.update(i, post.list@[i]),
            post.list@[i].id == user,
        ensures
            post.wf(),
            forall|v: u64| pre.spec_has(v) == post.spec_has(v),
            forall|v: u64|
                v != user && pre.spec_has(v) ==> post.spec_file(v) == pre.spec_file(v),
            pre.spec_index(user) == i,
            post.spec_index(user) == i,
            post.spec_file(user) == post.list@[i].file,
    {
        pre.lemma_index_agrees(i, user);
        assert forall|a: int, b: int|
            0 <= a < b < post.list@.len() implies (#[trigger] post.list@[a]).id != (
        #[trigger] post.list@[b]).id by {
            assert(pre.list@[a].id != pre.list@[b].id);
        }
        post.lemma_index_agrees(i, user);
        assert forall|v: u64| pre.spec_has(v) == post.spec_has(v) by {
            if pre.spec_has(v) {
                let j = pre.spec_index(v);
                assert(post.list@[if j == i {
                    i
                } else {
                    j
                }].id == v);
            }
            if post.spec_has(v) {
                let j = post.spec_index(v);
                assert(pre.list@[if j == i {
                    i
                } else {
                    j
                }].id == v);
            }
        }
        assert forall|v: u64| v != user && pre.spec_has(v) implies post.spec_file(v)
            == pre.spec_file(v) by {
            let j = pre.spec_index(v);
            assert(pre.list@[j].id == v);
            assert(j != i);
            assert(post.list@[j].id == v);
            post.lemma_index_agrees(j, v);
        }
    }

    /// The user's equipped item, when the user has a record and something
    /// equipped.
    pub fn equipped_of(&self, user: u64) -> (r: Option<InventoryItem>)
        requires
            self.wf(),
        ensures
            r == if self.spec_has(user) {
                self.spec_file(user).inventory.equiped
            } else {
                Option::<InventoryItem>::None
            },
    {
        match self.find(user) {
            Some(i) => {
                proof {
                    self.lemma_index_agrees(i as int, user);
                }
                self.list[i].file.inventory.get_equipped()
            },
            None => None,
        }
    }

    /// Number of items the user carries; a user without a record carries
    /// nothing.
    pub fn items_len_of(&self, user: u64) -> (n: usize)
        requires
            self.wf(),
        ensures
            n == if self.spec_has(user) {
                self.spec_file(user).inventory.items@.len()
            } else {
                0
            },
    {
        match self.find(user) {
            Some(i) => {
                proof {
                    self.lemma_index_agrees(i as int, user);
                }
                self.list[i].file.inventory.items.len()
            },
            None => 0,
        }
    }

    /// The user's item in the given slot, when it exists.
    pub fn item_at(&self, user: u64, idx: usize) -> (r: Option<InventoryItem>)
        requires
            self.wf(),
        ensures
            r == if self.spec_has(user) && idx < self.spec_file(user).inventory.items@.len() {
                Option::Some(self.spec_file(user).inventory.items@[idx as int])
            } else {
                Option::<InventoryItem>::None
            },
    {
        match self.find(user) {
            Some(i) => {
                proof {
                    self.lemma_index_agrees(i as int, user);
                }
                if idx < self.list[i].file.inventory.items.len() {
                    Some(self.list[i].file.inventory.items[idx])
                } else {
                    None
                }
            },
            None => None,
        }
    }

    /// Remove the user's item in the given slot; the caller establishes that
    /// the slot exists. Nothing else about the record changes.
    pub fn remove_item_at(&mut self, user: u64, idx: usize)
        requires
            old(self).wf(),
            old(self).spec_has(user),
            idx < old(self).spec_file(user).inventory.items@.len(),
        ensures
            final(self).wf(),
            final(self).spec_file(user).inventory.items@ == old(self).spec_file(
                user,
            ).inventory.items@.remove(idx as int),
            final(self).spec_file(user).inventory.equiped == old(self).spec_file(
                user,
            ).inventory.equiped,
            final(self).spec_file(user).bananas == old(self).spec_file(user).bananas,
            final(self).spec_file(user).super_nanners == old(self).spec_file(
                user,
            ).super_nanners,
            forall|v: u64| old(self).spec_has(v) == final(self).spec_has(v),
            forall|v: u64|
                v != user && old(self).spec_has(v) ==> final(self).spec_file(v) == old(
                    self,
                ).spec_file(v),
    {
        let i = self.find(user).unwrap();
        proof {
            self.lemma_index_agrees(i as int, user);
        }
        let ghost pre = *self;
        self.list[i].file.inventory.items.remove(idx);
        proof {
            assert(self.list@ == pre.list@.update(i as int, self.list@[i as int]));
            Users::lemma_point_update(pre, *self, i as int, user);
        }
    }

    /// Append an item to the user's inventory, creating the record when
    /// absent. Nothing else about the record changes.
    pub fn add_item_to(&mut self, user: u64, item: InventoryItem)
        requires
            old(self).wf(),
        ensures
            final(self).wf(),
            final(self).spec_has(user),
            final(self).spec_file(user).inventory.items@ == if old(self).spec_has(user) {
                old(self).spec_file(user).inventory.items@.push(item)
            } else {
                seq![item]
            },
            final(self).spec_balance(user) == old(self).spec_balance(user),
            old(self).spec_has(user) ==> final(self).spec_file(user).super_nanners == old(
                self,
            ).spec_file(user).super_nanners && final(self).spec_file(user).inventory.equiped
                == old(self).spec_file(user).inventory.equiped,
            forall|v: u64|
                v != user ==> old(self).spec_has(v) == final(self).spec_has(v) && (old(
                    self,
                ).spec_has(v) ==> final(self).spec_file(v) == old(self).spec_file(v)),
    {
        let i = self.ensure_entry(user);
        let ghost pre = *self;
        self.list[i].file.inventory.items.push(item);
        proof {
            assert(self.list@ == pre.list@.update(i as int, self.list@[i as int]));
            Users::lemma_point_update(pre, *self, i as int, user);
        }
    }

    /// Tier of the user's first super drill: zero without a record or
    /// without a drill, else the tier at the first drill position.
    pub open spec fn spec_drill_tier(self, user: u64) -> u8 {
        if !self.spec_has(user) {
            0
        } else {
            let items = self.spec_file(user).inventory.items@;
            if exists|i: int| 0 <= i < items.len() && (#[trigger] items[i]) is SuperDrill {
                let i = choose|i: int|
                    0 <= i < items.len() && (#[trigger] items[i]) is SuperDrill && (forall|
                        j: int,
                    | 0 <= j < i ==> !((#[trigger] items[j]) is SuperDrill));
                items[i]->SuperDrill_0.tier
            } else {
                0
            }
        }
    }

    /// Tier of the first super drill the user carries, or zero without one
    /// (or without a record).
    pub fn super_drill_tier_of(&self, user: u64) -> (t: u8)
        requires
            self.wf(),
        ensures
            t == self.spec_drill_tier(user),
    {
        match self.find(user) {
            Some(i) => {
                proof {
                    self.lemma_index_agrees(i as int, user);
                }
                match self.list[i].file.inventory.get_super_drill() {
                    Some(d) => {
                        proof {
                            let items = self.spec_file(user).inventory.items@;
                            let k = choose|k: int|
                                0 <= k < items.len() && #[trigger] items[k]
                                    == InventoryItem::SuperDrill(d) && (forall|j: int|
                                    0 <= j < k ==> !((#[trigger] items[j]) is SuperDrill));
                            let ci = choose|ci: int|
                                0 <= ci < items.len() && (#[trigger] items[ci]) is SuperDrill
                                    && (forall|j: int|
                                    0 <= j < ci ==> !((#[trigger] items[j]) is SuperDrill));
                            if ci < k {
                                assert(!(items[ci] is SuperDrill));
                            }
                            if k < ci {
                                assert(!(items[k] is SuperDrill));
                            }
                            assert(ci == k);
                        }
                        d.tier
                    },
                    None => 0,
                }
            },
            None => 0,
        }
    }

    /// Whether the user's inventory is at capacity.
    pub fn is_full_of(&self, user: u64) -> (r: bool)
        requires
            self.wf(),
        ensures
            r == (self.spec_has(user) && self.spec_file(user).inventory.items@.len()
                >= crate::items::MAX_INVENTORY_SIZE),
    {
        match self.find(user) {
            Some(i) => {
                proof {
                    self.lemma_index_agrees(i as int, user);
                }
                self.list[i].file.inventory.is_full()
            },
            None => false,
        }
    }

    /// The user's holding of the secondary currency.
    pub fn get_super_nanners_of(&self, user: u64) -> (n: u16)
        requires
            self.wf(),
        ensures
            n == if self.spec_has(user) {
                self.spec_file(user).super_nanners
            } else {
                0u16
            },
    {
        match self.find(user) {
            Some(i) => {
                proof {
                    self.lemma_index_agrees(i as int, user);
                }
                self.list[i].file.super_nanners
            },
            None => 0,
        }
    }

    /// Whether the user carries a super drill.
    pub fn has_super_drill_of(&self, user: u64) -> (r: bool)
        requires
            self.wf(),
        ensures
            r == (self.spec_has(user) && exists|i: int|
                0 <= i < self.spec_file(user).inventory.items@.len() && (#[trigger] self
                    .spec_file(user).inventory.items@[i]) is SuperDrill),
    {
        match self.find(user) {
            Some(i) => {
                proof {
                    self.lemma_index_agrees(i as int, user);
                }
                self.list[i].file.inventory.get_super_drill().is_some()
            },
            None => false,
        }
    }

    /// Take the secondary currency when the holding covers the amount;
    /// report whether it did. A short holding changes nothing.
    pub fn debit_super_nanners(&mut self, user: u64, amount: u16) -> (ok: bool)
        requires
            old(self).wf(),
        ensures
            final(self).wf(),
            ok == ((if old(self).spec_has(user) {
                old(self).spec_file(user).super_nanners
            } else {
                0u16
            }) >= amount),
            ok && old(self).spec_has(user) ==> final(self).spec_file(user) == (UserFile {
                super_nanners: (old(self).spec_file(user).super_nanners - amount) as u16,
                ..old(self).spec_file(user)
            }),
            final(self).spec_has(user) == old(self).spec_has(user),
            final(self).spec_balance(user) == old(self).spec_balance(user),
            !ok ==> *final(self) == *old(self),
            forall|v: u64|
                v != user ==> old(self).spec_has(v) == final(self).spec_has(v) && (old(
                    self,
                ).spec_has(v) ==> final(self).spec_file(v) == old(self).spec_file(v)),
    {
        match self.find(user) {
            Some(i) => {
                proof {
                    self.lemma_index_agrees(i as int, user);
                }
                let cur = self.list[i].file.super_nanners;
                if cur >= amount {
                    let ghost pre = *self;
                    self.list[i].file.super_nanners = cur - amount;
                    proof {
                        assert(self.list@ == pre.list@.update(i as int, self.list@[i as int]));
                        Users::lemma_point_update(pre, *self, i as int, user);
                    }
                    true
                } else {
                    false
                }
            },
            None => amount == 0,
        }
    }

    /// Grant the secondary currency, creating the record when absent and
    /// stopping at the 16-bit ceiling.
    pub fn add_super_nanners_to(&mut self, user: u64, amt: u16)
        requires
            old(self).wf(),
        ensures
            final(self).wf(),
            final(self).spec_has(user),
            final(self).spec_file(user).super_nanners == if (if old(self).spec_has(user) {
                old(self).spec_file(user).super_nanners as int
            } else {
                0
            }) + amt <= u16::MAX {
                ((if old(self).spec_has(user) {
                    old(self).spec_file(user).super_nanners as int
                } else {
                    0
                }) + amt) as u16
            } else {
                u16::MAX
            },
            final(self).spec_balance(user) == old(self).spec_balance(user),
            old(self).spec_has(user) ==> final(self).spec_file(user) == (UserFile {
                super_nanners: final(self).spec_file(user).super_nanners,
                ..old(self).spec_file(user)
            }),
            forall|v: u64|
                v != user ==> old(self).spec_has(v) == final(self).spec_has(v) && (old(
                    self,
                ).spec_has(v) ==> final(self).spec_file(v) == old(self).spec_file(v)),
    {
        let i = self.ensure_entry(user);
        let ghost pre = *self;
        let cur = self.list[i].file.super_nanners;
        let newv = if cur <= u16::MAX - amt {
            cur + amt
        } else {
            u16::MAX
        };
        self.list[i].file.super_nanners = newv;
        proof {
            assert(self.list@ == pre.list@.update(i as int, self.list@[i as int]));
            Users::lemma_point_update(pre, *self, i as int, user);
        }
    }

    /// Add currency to the user's balance (creating the record when absent),
    /// stopping at the 64-bit ceiling rather than wrapping. Every other
    /// user's record is untouched.
    pub fn credit(&mut self, user: u64, amount: u64)
        requires
            old(self).wf(),
        ensures
            final(self).wf(),
            final(self).spec_has(user),
            final(self).spec_balance(user) == if old(self).spec_balance(user) + amount
                <= u64::MAX {
                (old(self).spec_balance(user) + amount) as u64
            } else {
                u64::MAX
            },
            forall|v: u64|
                v != user ==> old(self).spec_has(v) == final(self).spec_has(v) && (old(
                    self,
                ).spec_has(v) ==> final(self).spec_file(v) == old(self).spec_file(v)),
            old(self).spec_has(user) ==> final(self).spec_file(user) == (UserFile {
                bananas: final(self).spec_balance(user),
                ..old(self).spec_file(user)
            }),
    {
        let i = self.ensure_entry(user);
        let ghost mid = *self;
        let bal = self.list[i].file.bananas;
        let newbal = if bal <= u64::MAX - amount {
            bal + amount
        } else {
            u64::MAX
        };
        self.list[i].file.bananas = newbal;
        proof {
            assert(self.list@ == mid.list@.update(i as int, self.list@[i as int]));
            self.lemma_index_agrees(i as int, user);
            assert forall|v: u64| v != user implies mid.spec_has(v) == self.spec_has(v) && (
            mid.spec_has(v) ==> self.spec_file(v) == mid.spec_file(v)) by {
                if mid.spec_has(v) {
                    let j = mid.spec_index(v);
                    assert(self.list@[j].id == v);
                    self.lemma_index_agrees(j, v);
                    assert(j != i);
                }
                if self.spec_has(v) {
                    let j = self.spec_index(v);
                    assert(mid.list@[j].id == v);
                    assert(mid.spec_has(v));
                }
            }
        }
    }

    /// Take currency from the user's balance when it covers the amount;
    /// report whether it did. A short balance leaves every record untouched
    /// (check-then-act: no partial debit).
    pub fn debit(&mut self, user: u64, amount: u64) -> (ok: bool)
        requires
            old(self).wf(),
        ensures
            final(self).wf(),
            ok == (old(self).spec_balance(user) >= amount),
            ok ==> final(self).spec_balance(user) == old(self).spec_balance(user) - amount,
            ok && old(self).spec_has(user) ==> final(self).spec_file(user) == (UserFile {
                bananas: final(self).spec_balance(user),
                ..old(self).spec_file(user)
            }),
            !ok ==> *final(self) == *old(self),
            forall|v: u64|
                v != user ==> old(self).spec_has(v) == final(self).spec_has(v) && (old(
                    self,
                ).spec_has(v) ==> final(self).spec_file(v) == old(self).spec_file(v)),
    {
        match self.find(user) {
            Some(i) => {
                proof {
                    self.lemma_index_agrees(i as int, user);
                }
                let bal = self.list[i].file.bananas;
                if bal >= amount {
                    let ghost mid = *self;
                    self.list[i].file.bananas = bal - amount;
                    proof {
                        assert(self.list@ == mid.list@.update(i as int, self.list@[i as int]));
                        self.lemma_index_agrees(i as int, user);
                        assert forall|v: u64| v != user implies mid.spec_has(v) == self.spec_has(
                            v,
                        ) && (mid.spec_has(v) ==> self.spec_file(v) == mid.spec_file(v)) by {
                            if mid.spec_has(v) {
                                let j = mid.spec_index(v);
                                assert(self.list@[j].id == v);
                                self.lemma_index_agrees(j, v);
                                assert(j != i);
                            }
                            if self.spec_has(v) {
                                let j = self.spec_index(v);
                                assert(mid.list@[j].id == v);
                                assert(mid.spec_has(v));
                            }
                        }
                    }
                    true
                } else {
                    false
                }
            },
            None => amount == 0,
        }
    }
}

} // verus!
