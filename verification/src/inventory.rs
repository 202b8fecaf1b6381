//! Slot-based inventories: stacking items, taking them out, looking them up.

use vstd::prelude::*;

use crate::item::{ItemEntity, ItemStackType, ItemType};
use crate::text::string_eq_str;

verus! {

/// One occupied inventory slot.
#[derive(Debug)]
pub struct Slot {
    pub name: String,
    pub id_name: String,
    pub id_source: Option<String>,
    pub item_type: ItemType,
    pub durability: Option<usize>,
    pub stack_size: Option<usize>,
    pub stackable: Option<ItemStackType>,
    pub count: usize,
}

/// `a - b`, or 0 when `b` exceeds `a`.
pub open spec fn saturating_diff(a: int, b: int) -> int {
    if a >= b {
        a - b
    } else {
        0
    }
}

impl Slot {
    pub open spec fn spec_check_stackable(&self) -> bool {
        crate::item::stacks(self.stackable)
    }

    /// A slot without a stack size counts as full.
    pub open spec fn spec_is_full(&self) -> bool {
        match self.stack_size {
            Some(ss) => self.count == ss,
            None => true,
        }
    }

    /// The slot after `count` more items are put on it, and how many are handed back.
    /// A stackable slot with a stack size is set to that size, handing back what
    /// exceeds it; one without a size takes everything; a slot that does not stack
    /// is left as it is and hands back nothing.
    pub open spec fn stacked(self, count: usize) -> (Slot, int) {
        if self.spec_check_stackable() {
            match self.stack_size {
                Some(ss) => (Slot { count: ss, ..self }, saturating_diff(self.count + count, ss as int)),
                None => (Slot { count: (self.count + count) as usize, ..self }, 0),
            }
        } else {
            (self, 0)
        }
    }

    /// True when items of this slot may pile up.
    pub fn check_stackable(&self) -> (r: bool)
        ensures
            r == self.spec_check_stackable(),
    {
        match self.stackable {
            Some(stack) => stack.is_stackable(),
            None => false,
        }
    }

    /// True when the slot holds as many as its stack size, or has no stack size.
    pub fn is_full(&self) -> (r: bool)
        ensures
            r == self.spec_is_full(),
    {
        match self.stack_size {
            Some(stack_size) => self.count == stack_size,
            None => true,
        }
    }

    fn add_to_exist(&mut self, count: usize) -> (remaining: usize)
        requires
            old(self).spec_check_stackable() ==> old(self).count + count <= usize::MAX,
        ensures
            (*final(self), remaining as int) == old(self).stacked(count),
    {
        if self.check_stackable() {
            if let Some(stack_size) = self.stack_size {
                let total = self.count + count;
                let remaining = if total >= stack_size {
                    total - stack_size
                } else {
                    0
                };
                self.count = stack_size;
                remaining
            } else {
                self.count = self.count + count;
                0
            }
        } else {
            0
        }
    }
}

/// The slot an item fills when it is put into an empty place.
pub open spec fn slot_of(item: ItemEntity) -> Slot {
    Slot {
        name: item.name,
        id_name: item.id_name,
        id_source: item.id_source,
        item_type: item.item_type,
        durability: item.durability,
        stack_size: item.stack_size,
        stackable: item.stackable,
        count: item.count,
    }
}

fn clone_opt_string(s: &Option<String>) -> (r: Option<String>)
    ensures
        r == *s,
{
    match s {
        Some(v) => Some(v.clone()),
        None => None,
    }
}

fn make_slot(item: &ItemEntity) -> (r: Slot)
    ensures
        r == slot_of(*item),
{
    Slot {
        name: item.name.clone(),
        id_name: item.id_name.clone(),
        id_source: clone_opt_string(&item.id_source),
        item_type: item.item_type,
        durability: item.durability,
        stack_size: item.stack_size,
        stackable: item.stackable,
        count: item.count,
    }
}

// ------------------------------------------------------------------
// First index at which a slot predicate holds
// ------------------------------------------------------------------

pub open spec fn is_first_where(
    s: Seq<Option<Slot>>,
    p: spec_fn(Option<Slot>) -> bool,
    i: int,
) -> bool {
    &&& 0 <= i < s.len()
    &&& p(s[i])
    &&& forall|j: int| 0 <= j < i ==> !p(#[trigger] s[j])
}

/// The first index whose slot satisfies `p`, if any.
pub open spec fn first_where(s: Seq<Option<Slot>>, p: spec_fn(Option<Slot>) -> bool) -> Option<int> {
    if exists|i: int| is_first_where(s, p, i) {
        Some(choose|i: int| is_first_where(s, p, i))
    } else {
        None
    }
}

pub proof fn lemma_first_where_found(s: Seq<Option<Slot>>, p: spec_fn(Option<Slot>) -> bool, k: int)
    requires
        is_first_where(s, p, k),
    ensures
        first_where(s, p) == Some(k),
{
    let i = choose|i: int| is_first_where(s, p, i);
    assert(is_first_where(s, p, i));
    if i < k {
        assert(!p(s[i]));
    } else if k < i {
        assert(!p(s[k]));
    }
}

pub proof fn lemma_first_where_none(s: Seq<Option<Slot>>, p: spec_fn(Option<Slot>) -> bool)
    requires
        forall|j: int| 0 <= j < s.len() ==> !p(#[trigger] s[j]),
    ensures
        first_where(s, p) is None,
{
    if exists|i: int| is_first_where(s, p, i) {
        let i = choose|i: int| is_first_where(s, p, i);
        assert(p(s[i]));
    }
}

// ------------------------------------------------------------------
// Slot predicates
// ------------------------------------------------------------------

/// A slot that `item` may be stacked onto: same id and type, stackable, not full.
pub open spec fn stack_target(item: ItemEntity) -> spec_fn(Option<Slot>) -> bool {
    |o: Option<Slot>|
        match o {
            Some(s) => s.id_name@ == item.id_name@ && s.item_type == item.item_type
                && s.spec_check_stackable() && !s.spec_is_full(),
            None => false,
        }
}

/// An empty place.
pub open spec fn empty_place() -> spec_fn(Option<Slot>) -> bool {
    |o: Option<Slot>| o is None
}

/// A slot with the given id holding at least `n` items.
pub open spec fn take_target(name: Seq<char>, n: usize) -> spec_fn(Option<Slot>) -> bool {
    |o: Option<Slot>|
        match o {
            Some(s) => s.id_name@ == name && s.count >= n,
            None => false,
        }
}

/// A slot whose id or name is the given text.
pub open spec fn named(name: Seq<char>) -> spec_fn(Option<Slot>) -> bool {
    |o: Option<Slot>|
        match o {
            Some(s) => s.id_name@ == name || s.name@ == name,
            None => false,
        }
}

/// A slot whose display name is the given text.
pub open spec fn display_named(name: Seq<char>) -> spec_fn(Option<Slot>) -> bool {
    |o: Option<Slot>|
        match o {
            Some(s) => s.name@ == name,
            None => false,
        }
}

// ------------------------------------------------------------------
// The operations, as functions of the slot sequence
// ------------------------------------------------------------------

/// Second stacking step of `add`: what is left after the first target is
/// stacked onto the next target, if there is one.
pub open spec fn spec_add_rest(items: Seq<Option<Slot>>, item: ItemEntity, left: int) -> (
    Seq<Option<Slot>>,
    int,
) {
    if left > 0 {
        match first_where(items, stack_target(item)) {
            Some(j) => {
                let (s2, r2) = items[j].unwrap().stacked(left as usize);
                (items.update(j, Some(s2)), r2)
            },
            None => (items, left),
        }
    } else {
        (items, left)
    }
}

/// What `add` does: the new slots, the count left on the item, the answer.
/// The item is stacked onto the first slot it may join, and what is left onto the
/// next such slot; with no slot to join it goes whole into the first empty place.
pub open spec fn spec_add(items: Seq<Option<Slot>>, item: ItemEntity) -> (
    Seq<Option<Slot>>,
    int,
    bool,
) {
    match first_where(items, stack_target(item)) {
        Some(i) => {
            let (s1, r1) = items[i].unwrap().stacked(item.count);
            let (rest, left) = spec_add_rest(items.update(i, Some(s1)), item, r1);
            (rest, left, left == 0)
        },
        None => match first_where(items, empty_place()) {
            Some(e) => (items.update(e, Some(slot_of(item))), 0, true),
            None => (items, item.count as int, item.count == 0),
        },
    }
}

/// `add` does not overflow a count: the sums it forms fit in a `usize`.
pub open spec fn add_fits(items: Seq<Option<Slot>>, item: ItemEntity) -> bool {
    match first_where(items, stack_target(item)) {
        Some(i) => {
            let (s1, r1) = items[i].unwrap().stacked(item.count);
            let items1 = items.update(i, Some(s1));
            &&& items[i].unwrap().count + item.count <= usize::MAX
            &&& (r1 > 0 ==> match first_where(items1, stack_target(item)) {
                Some(j) => items1[j].unwrap().count + r1 <= usize::MAX,
                None => true,
            })
        },
        None => true,
    }
}

/// What `take` does: the new slots and whether the items were there.
pub open spec fn spec_take(items: Seq<Option<Slot>>, name: Seq<char>, n: usize) -> (
    Seq<Option<Slot>>,
    bool,
) {
    match first_where(items, take_target(name, n)) {
        Some(i) => {
            let s = items[i].unwrap();
            if s.count > n {
                (items.update(i, Some(Slot { count: (s.count - n) as usize, ..s })), true)
            } else {
                (items.update(i, None), true)
            }
        },
        None => (items, false),
    }
}

/// The occupied slots, in order.
pub open spec fn occupied(s: Seq<Option<Slot>>) -> Seq<Slot>
    decreases s.len(),
{
    if s.len() == 0 {
        Seq::empty()
    } else {
        let rest = occupied(s.drop_last());
        match s.last() {
            Some(v) => rest.push(v),
            None => rest,
        }
    }
}

/// How many items with the given id the slots hold together.
pub open spec fn total_count(s: Seq<Option<Slot>>, id: Seq<char>) -> int
    decreases s.len(),
{
    if s.len() == 0 {
        0
    } else {
        total_count(s.drop_last(), id) + slot_count(s.last(), id)
    }
}

pub open spec fn slot_count(o: Option<Slot>, id: Seq<char>) -> int {
    match o {
        Some(s) => if s.id_name@ == id {
            s.count as int
        } else {
            0
        },
        None => 0,
    }
}

// ------------------------------------------------------------------
// Inventory
// ------------------------------------------------------------------

/// A fixed number of places, each empty or holding one slot.
#[derive(Debug)]
pub struct Inventory {
    items: Vec<Option<Slot>>,
}

impl View for Inventory {
    type V = Seq<Option<Slot>>;

    closed spec fn view(&self) -> Seq<Option<Slot>> {
        self.items@
    }
}

} // verus!

verus! {

impl Inventory {
    /// Number of places an inventory has unless told otherwise.
    pub const DEFAULT_CAPACITY: usize = 12;

    /// An inventory of `cap` empty places.
    pub fn with_capacity(cap: usize) -> (r: Self)
        ensures
            r@ == Seq::new(cap as nat, |i: int| None::<Slot>),
    {
        let mut items: Vec<Option<Slot>> = Vec::new();
        let mut i: usize = 0;
        while i < cap
            invariant
                i <= cap,
                items@ == Seq::new(i as nat, |k: int| None::<Slot>),
            decreases cap - i,
        {
            items.push(None);
            i = i + 1;
            assert(items@ =~= Seq::new(i as nat, |k: int| None::<Slot>));
        }
        Inventory { items }
    }

    fn find_first_stack_target(&self, item: &ItemEntity) -> (r: Option<usize>)
        ensures
            match r {
                Some(i) => is_first_where(self@, stack_target(*item), i as int),
                None => forall|j: int|
                    0 <= j < self@.len() ==> !stack_target(*item)(#[trigger] self@[j]),
            },
    {
        let mut i: usize = 0;
        while i < self.items.len()
            invariant
                i <= self.items@.len(),
                forall|j: int| 0 <= j < i ==> !stack_target(*item)(#[trigger] self.items@[j]),
            decreases self.items@.len() - i,
        {
            match &self.items[i] {
                Some(slot) => {
                    if slot.id_name == item.id_name && slot.item_type == item.item_type
                        && slot.check_stackable() && !slot.is_full() {
                        return Some(i);
                    }
                },
                None => {},
            }
            i = i + 1;
        }
        None
    }

    fn find_first_empty(&self) -> (r: Option<usize>)
        ensures
            match r {
                Some(i) => is_first_where(self@, empty_place(), i as int),
                None => forall|j: int| 0 <= j < self@.len() ==> !empty_place()(#[trigger] self@[j]),
            },
    {
        let mut i: usize = 0;
        while i < self.items.len()
            invariant
                i <= self.items@.len(),
                forall|j: int| 0 <= j < i ==> !empty_place()(#[trigger] self.items@[j]),
            decreases self.items@.len() - i,
        {
            if self.items[i].is_none() {
                return Some(i);
            }
            i = i + 1;
        }
        None
    }

    /// Stacks `count` items onto the slot at `i`.
    fn stack_at(&mut self, i: usize, count: usize) -> (remaining: usize)
        requires
            i < old(self)@.len(),
            old(self)@[i as int] is Some,
            old(self)@[i as int].unwrap().spec_check_stackable() ==> old(self)@[i as int].unwrap().count
                + count <= usize::MAX,
        ensures
            final(self)@ == old(self)@.update(i as int, Some(old(self)@[i as int].unwrap().stacked(count).0)),
            remaining as int == old(self)@[i as int].unwrap().stacked(count).1,
    {
        let mut taken: Option<Slot> = None;
        self.items.set_and_swap(i, &mut taken);
        match taken {
            Some(mut slot) => {
                let remaining = slot.add_to_exist(count);
                self.items.set(i, Some(slot));
                assert(self.items@ =~= old(self)@.update(i as int, Some(old(self)@[i as int].unwrap().stacked(count).0)));
                remaining
            },
            None => {
                self.items.set(i, None);
                0
            },
        }
    }

    /// Puts the item into the first empty place, whole; false when there is none.
    fn add_to_empty_slot(&mut self, item: &ItemEntity) -> (r: bool)
        ensures
            match first_where(old(self)@, empty_place()) {
                Some(e) => r && final(self)@ == old(self)@.update(e, Some(slot_of(*item))),
                None => !r && final(self)@ == old(self)@,
            },
    {
        match self.find_first_empty() {
            Some(e) => {
                proof {
                    lemma_first_where_found(self@, empty_place(), e as int);
                }
                let slot = make_slot(item);
                self.items.set(e, Some(slot));
                true
            },
            None => {
                proof {
                    lemma_first_where_none(self@, empty_place());
                }
                false
            },
        }
    }

    /// Puts the item in: onto the first slot it may stack with and what is left
    /// onto the next one; with no such slot, whole into the first empty place.
    /// The item keeps the count that found no place; true when none is left.
    pub fn add(&mut self, item: &mut ItemEntity) -> (r: bool)
        requires
            add_fits(old(self)@, *old(item)),
        ensures
            final(self)@ == spec_add(old(self)@, *old(item)).0,
            final(item).count as int == spec_add(old(self)@, *old(item)).1,
            r == spec_add(old(self)@, *old(item)).2,
            *final(item) == (ItemEntity { count: final(item).count, ..*old(item) }),
    {
        let ghost items0 = self@;
        let ghost item0 = *item;
        match self.find_first_stack_target(item) {
            Some(i) => {
                proof {
                    lemma_first_where_found(items0, stack_target(item0), i as int);
                }
                let remaining = self.stack_at(i, item.count);
                item.count = remaining;
                let ghost items1 = self@;
                assert(stack_target(*item) == stack_target(item0));
                if remaining > 0 {
                    match self.find_first_stack_target(item) {
                        Some(j) => {
                            proof {
                                lemma_first_where_found(items1, stack_target(item0), j as int);
                            }
                            let rest = self.stack_at(j, remaining);
                            item.count = rest;
                        },
                        None => {
                            proof {
                                lemma_first_where_none(items1, stack_target(item0));
                            }
                        },
                    }
                }
                item.count == 0
            },
            None => {
                proof {
                    lemma_first_where_none(items0, stack_target(item0));
                }
                if self.add_to_empty_slot(item) {
                    item.count = 0;
                    return true;
                }
                item.count == 0
            },
        }
    }

    /// Puts the item, whole, into the first empty place.
    pub fn add_ex(&mut self, item: ItemEntity) -> (r: bool)
        ensures
            match first_where(old(self)@, empty_place()) {
                Some(e) => r && final(self)@ == old(self)@.update(e, Some(slot_of(item))),
                None => !r && final(self)@ == old(self)@,
            },
    {
        self.add_to_empty_slot(&item)
    }
}

} // verus!

verus! {

impl Inventory {
    fn find_first_take(&self, name: &String, n: usize) -> (r: Option<usize>)
        ensures
            match r {
                Some(i) => is_first_where(self@, take_target(name@, n), i as int),
                None => forall|j: int|
                    0 <= j < self@.len() ==> !take_target(name@, n)(#[trigger] self@[j]),
            },
    {
        let mut i: usize = 0;
        while i < self.items.len()
            invariant
                i <= self.items@.len(),
                forall|j: int| 0 <= j < i ==> !take_target(name@, n)(#[trigger] self.items@[j]),
            decreases self.items@.len() - i,
        {
            match &self.items[i] {
                Some(slot) => {
                    if slot.id_name == *name && slot.count >= n {
                        return Some(i);
                    }
                },
                None => {},
            }
            i = i + 1;
        }
        None
    }

    fn find_first_named(&self, name: &str) -> (r: Option<usize>)
        ensures
            match r {
                Some(i) => is_first_where(self@, named(name@), i as int),
                None => forall|j: int| 0 <= j < self@.len() ==> !named(name@)(#[trigger] self@[j]),
            },
    {
        let mut i: usize = 0;
        while i < self.items.len()
            invariant
                i <= self.items@.len(),
                forall|j: int| 0 <= j < i ==> !named(name@)(#[trigger] self.items@[j]),
            decreases self.items@.len() - i,
        {
            match &self.items[i] {
                Some(slot) => {
                    if string_eq_str(&slot.id_name, name) || string_eq_str(&slot.name, name) {
                        return Some(i);
                    }
                },
                None => {},
            }
            i = i + 1;
        }
        None
    }

    /// Takes `item.1` items with id `item.0` out of the first slot that holds at
    /// least that many; a slot left with none becomes empty. False when no slot
    /// holds enough.
    pub fn take(&mut self, item: (String, usize)) -> (r: bool)
        ensures
            final(self)@ == spec_take(old(self)@, item.0@, item.1).0,
            r == spec_take(old(self)@, item.0@, item.1).1,
    {
        let ghost items0 = self@;
        match self.find_first_take(&item.0, item.1) {
            Some(i) => {
                proof {
                    lemma_first_where_found(items0, take_target(item.0@, item.1), i as int);
                }
                let mut taken: Option<Slot> = None;
                self.items.set_and_swap(i, &mut taken);
                match taken {
                    Some(mut slot) => {
                        if slot.count > item.1 {
                            slot.count = slot.count - item.1;
                            self.items.set(i, Some(slot));
                        } else {
                            self.items.set(i, None);
                        }
                    },
                    None => {},
                }
                assert(self@ =~= spec_take(items0, item.0@, item.1).0);
                true
            },
            None => {
                proof {
                    lemma_first_where_none(items0, take_target(item.0@, item.1));
                }
                false
            },
        }
    }

    /// Empties the first slot whose id or name is `name` and hands its content over.
    pub fn take_all_ex(&mut self, name: &str) -> (r: Option<Slot>)
        ensures
            match first_where(old(self)@, named(name@)) {
                Some(i) => r == old(self)@[i] && final(self)@ == old(self)@.update(i, None),
                None => r is None && final(self)@ == old(self)@,
            },
    {
        let ghost items0 = self@;
        match self.find_first_named(name) {
            Some(i) => {
                proof {
                    lemma_first_where_found(items0, named(name@), i as int);
                }
                let mut taken: Option<Slot> = None;
                self.items.set_and_swap(i, &mut taken);
                taken
            },
            None => {
                proof {
                    lemma_first_where_none(items0, named(name@));
                }
                None
            },
        }
    }

    /// True when some slot has `name` as its id or name.
    pub fn find(&mut self, name: &str) -> (r: bool)
        ensures
            r == exists|j: int| 0 <= j < old(self)@.len() && named(name@)(#[trigger] old(self)@[j]),
            final(self)@ == old(self)@,
    {
        match self.find_first_named(name) {
            Some(i) => {
                assert(named(name@)(self@[i as int]));
                true
            },
            None => false,
        }
    }

    /// Index of the first slot whose display name is `name`.
    pub fn find_slot_index(&self, name: &str) -> (r: Option<usize>)
        ensures
            match first_where(self@, display_named(name@)) {
                Some(i) => r == Some(i as usize),
                None => r is None,
            },
    {
        let mut i: usize = 0;
        while i < self.items.len()
            invariant
                i <= self.items@.len(),
                forall|j: int| 0 <= j < i ==> !display_named(name@)(#[trigger] self.items@[j]),
            decreases self.items@.len() - i,
        {
            match &self.items[i] {
                Some(slot) => {
                    if string_eq_str(&slot.name, name) {
                        proof {
                            lemma_first_where_found(self@, display_named(name@), i as int);
                        }
                        return Some(i);
                    }
                },
                None => {},
            }
            i = i + 1;
        }
        proof {
            lemma_first_where_none(self@, display_named(name@));
        }
        None
    }

    /// The occupied slots, in order.
    pub fn iter_some(&self) -> (r: Vec<&Slot>)
        ensures
            r@.map_values(|s: &Slot| *s) == occupied(self@),
    {
        let mut r: Vec<&Slot> = Vec::new();
        let mut i: usize = 0;
        while i < self.items.len()
            invariant
                i <= self.items@.len(),
                r@.map_values(|s: &Slot| *s) == occupied(self.items@.take(i as int)),
            decreases self.items@.len() - i,
        {
            assert(self.items@.take(i as int + 1).drop_last() =~= self.items@.take(i as int));
            match &self.items[i] {
                Some(slot) => {
                    r.push(slot);
                },
                None => {},
            }
            assert(r@.map_values(|s: &Slot| *s) =~= occupied(self.items@.take(i as int + 1)));
            i = i + 1;
        }
        assert(self.items@.take(self.items@.len() as int) =~= self.items@);
        r
    }

    /// True when no place is empty.
    pub fn is_full(&self) -> (r: bool)
        ensures
            r == forall|j: int| 0 <= j < self@.len() ==> (#[trigger] self@[j]) is Some,
    {
        let mut i: usize = 0;
        while i < self.items.len()
            invariant
                i <= self.items@.len(),
                forall|j: int| 0 <= j < i ==> (#[trigger] self.items@[j]) is Some,
            decreases self.items@.len() - i,
        {
            if self.items[i].is_none() {
                return false;
            }
            i = i + 1;
        }
        true
    }

    /// Number of places.
    pub fn len(&self) -> (r: usize)
        ensures
            r == self@.len(),
    {
        self.items.len()
    }

    /// True when every place is empty.
    pub fn is_empty(&self) -> (r: bool)
        ensures
            r == forall|j: int| 0 <= j < self@.len() ==> (#[trigger] self@[j]) is None,
    {
        let mut i: usize = 0;
        while i < self.items.len()
            invariant
                i <= self.items@.len(),
                forall|j: int| 0 <= j < i ==> (#[trigger] self.items@[j]) is None,
            decreases self.items@.len() - i,
        {
            if self.items[i].is_some() {
                return false;
            }
            i = i + 1;
        }
        true
    }

    /// The place at `index`, if there is one.
    pub fn get_slot(&self, index: usize) -> (r: Option<&Option<Slot>>)
        ensures
            index < self@.len() ==> r == Some(&self@[index as int]),
            index >= self@.len() ==> r is None,
    {
        if index < self.items.len() {
            Some(&self.items[index])
        } else {
            None
        }
    }

    /// Puts `slot` at `index`; nothing happens when there is no such place.
    pub fn add_to_slot(&mut self, index: usize, slot: Option<Slot>)
        ensures
            index < old(self)@.len() ==> final(self)@ == old(self)@.update(index as int, slot),
            index >= old(self)@.len() ==> final(self)@ == old(self)@,
    {
        if index < self.items.len() {
            self.items.set(index, slot);
        }
    }

    /// The place at `index`.
    pub fn index(&self, index: usize) -> (r: &Option<Slot>)
        requires
            index < self@.len(),
        ensures
            *r == self@[index as int],
    {
        &self.items[index]
    }
}

impl Default for Inventory {
    fn default() -> (r: Self)
        ensures
            r@ == Seq::new(12, |i: int| None::<Slot>),
    {
        Self::with_capacity(Inventory::DEFAULT_CAPACITY)
    }
}

/// What the cursor carries while an item is dragged.
pub struct CursorContainer {
    pub slot: Option<Slot>,
}

impl Default for CursorContainer {
    fn default() -> (r: Self)
        ensures
            r.slot is None,
    {
        CursorContainer { slot: None }
    }
}

} // verus!

verus! {

// ------------------------------------------------------------------
// Laws
// ------------------------------------------------------------------

/// Replacing one place changes the total of an id by what leaves and what comes.
pub proof fn lemma_total_count_update(s: Seq<Option<Slot>>, i: int, x: Option<Slot>, id: Seq<char>)
    requires
        0 <= i < s.len(),
    ensures
        total_count(s.update(i, x), id) == total_count(s, id) - slot_count(s[i], id) + slot_count(x, id),
    decreases s.len(),
{
    let t = s.update(i, x);
    if i == s.len() - 1 {
        assert(t.drop_last() =~= s.drop_last());
    } else {
        assert(t.drop_last() =~= s.drop_last().update(i, x));
        lemma_total_count_update(s.drop_last(), i, x, id);
    }
}

/// Putting an item in never changes how many places the inventory has.
pub proof fn law_add_keeps_places(items: Seq<Option<Slot>>, item: ItemEntity)
    ensures
        spec_add(items, item).0.len() == items.len(),
{
}

/// `add` answers true exactly when no item is left over.
pub proof fn law_add_answer_means_all_placed(items: Seq<Option<Slot>>, item: ItemEntity)
    ensures
        spec_add(items, item).2 == (spec_add(items, item).1 == 0),
{
}

/// Putting an item in never destroys items: what the inventory holds of the id,
/// plus what is left on the item, is at least what there was before.
pub proof fn law_add_never_destroys_items(items: Seq<Option<Slot>>, item: ItemEntity)
    requires
        add_fits(items, item),
    ensures
        total_count(spec_add(items, item).0, item.id_name@) + spec_add(items, item).1
            >= total_count(items, item.id_name@) + item.count,
{
    let id = item.id_name@;
    let p = stack_target(item);
    match first_where(items, p) {
        Some(i) => {
            let i_ = choose|k: int| is_first_where(items, p, k);
            assert(is_first_where(items, p, i_));
            assert(p(items[i]));
            let s = items[i].unwrap();
            let (s1, r1) = s.stacked(item.count);
            let items1 = items.update(i, Some(s1));
            lemma_total_count_update(items, i, Some(s1), id);
            assert(s1.count + r1 >= s.count + item.count);
            if r1 > 0 {
                match first_where(items1, p) {
                    Some(j) => {
                        let j_ = choose|k: int| is_first_where(items1, p, k);
                        assert(is_first_where(items1, p, j_));
                        assert(p(items1[j]));
                        let t = items1[j].unwrap();
                        let (s2, r2) = t.stacked(r1 as usize);
                        lemma_total_count_update(items1, j, Some(s2), id);
                        assert(s2.count + r2 >= t.count + r1);
                    },
                    None => {},
                }
            }
        },
        None => {
            match first_where(items, empty_place()) {
                Some(e) => {
                    let e_ = choose|k: int| is_first_where(items, empty_place(), k);
                    assert(is_first_where(items, empty_place(), e_));
                    lemma_total_count_update(items, e, Some(slot_of(item)), id);
                },
                None => {},
            }
        },
    }
}

/// A successful `take` removes exactly the requested number of items of that id;
/// a refused one changes nothing.
pub proof fn law_take_removes_exactly(items: Seq<Option<Slot>>, name: Seq<char>, n: usize)
    ensures
        total_count(spec_take(items, name, n).0, name) == total_count(items, name) - (if spec_take(
            items,
            name,
            n,
        ).1 {
            n as int
        } else {
            0
        }),
        spec_take(items, name, n).0.len() == items.len(),
{
    match first_where(items, take_target(name, n)) {
        Some(i) => {
            let i_ = choose|k: int| is_first_where(items, take_target(name, n), k);
            assert(is_first_where(items, take_target(name, n), i_));
            assert(take_target(name, n)(items[i]));
            let s = items[i].unwrap();
            if s.count > n {
                lemma_total_count_update(items, i, Some(Slot { count: (s.count - n) as usize, ..s }), name);
            } else {
                lemma_total_count_update(items, i, None, name);
            }
        },
        None => {},
    }
}

/// An item that found no stack to join and went into an empty place can be
/// taken back out, in the same number.
pub proof fn law_placed_item_can_be_taken_back(items: Seq<Option<Slot>>, item: ItemEntity)
    requires
        first_where(items, stack_target(item)) is None,
        first_where(items, empty_place()) is Some,
    ensures
        spec_take(spec_add(items, item).0, item.id_name@, item.count).1,
        spec_add(items, item).2,
{
    let e = first_where(items, empty_place()).unwrap();
    let e_ = choose|k: int| is_first_where(items, empty_place(), k);
    assert(is_first_where(items, empty_place(), e_));
    let after = items.update(e, Some(slot_of(item)));
    assert(take_target(item.id_name@, item.count)(after[e]));
    if first_where(after, take_target(item.id_name@, item.count)) is None {
        if exists|k: int| is_first_where(after, take_target(item.id_name@, item.count), k) {
        } else {
            lemma_first_found_exists(after, take_target(item.id_name@, item.count), e);
        }
    }
}

/// A stackable item with a stack size that finds no stack to join goes into an
/// empty place as a slot with the item's own id, count and stacking rule. So more
/// of the same item, as long as it fits under the stack size, stacks onto that
/// place: the second add fills no other place, leaves nothing over and answers
/// true, and the place ends at the stack size.
pub proof fn law_new_stack_takes_more_of_the_same(
    items: Seq<Option<Slot>>,
    item: ItemEntity,
    more: ItemEntity,
)
    requires
        forall|k: int| 0 <= k < items.len() ==> !(#[trigger] stack_target(item)(items[k])),
        exists|k: int| 0 <= k < items.len() && (#[trigger] items[k]) is None,
        crate::item::stacks(item.stackable),
        item.stack_size is Some,
        item.count < item.stack_size->0,
        item.count + more.count <= item.stack_size->0,
        more.id_name@ == item.id_name@,
        more.item_type == item.item_type,
    ensures
        ({
            let after = spec_add(items, item).0;
            let again = spec_add(after, more);
            exists|e: int|
                {
                    &&& 0 <= e < items.len()
                    &&& items[e] is None
                    &&& #[trigger] after[e] matches Some(s)
                    &&& s.id_name@ == item.id_name@
                    &&& s.item_type == item.item_type
                    &&& s.stackable == item.stackable
                    &&& s.stack_size == item.stack_size
                    &&& s.count == item.count
                    &&& again.0[e] matches Some(t)
                    &&& t.id_name@ == item.id_name@
                    &&& t.count == item.stack_size->0
                    &&& again.1 == 0
                    &&& again.2
                    &&& again.0.len() == items.len()
                    &&& forall|k: int|
                        0 <= k < items.len() && k != e ==> again.0[k] == items[k] && after[k]
                            == items[k]
                }
        }),
{
    let st = stack_target(item);
    if first_where(items, st) is Some {
        let i = choose|i: int| is_first_where(items, st, i);
        assert(is_first_where(items, st, i));
        assert(st(items[i]));
    }
    let k0 = choose|k: int| 0 <= k < items.len() && (#[trigger] items[k]) is None;
    lemma_first_found_exists(items, empty_place(), k0);
    let e = first_where(items, empty_place())->0;
    let e_ = choose|k: int| is_first_where(items, empty_place(), k);
    assert(is_first_where(items, empty_place(), e_));
    let after = items.update(e, Some(slot_of(item)));
    assert(spec_add(items, item).0 == after);
    let st2 = stack_target(more);
    assert(st2(after[e]));
    assert forall|j: int| 0 <= j < e implies !st2(#[trigger] after[j]) by {
        assert(after[j] == items[j]);
        assert(!st(items[j]));
    }
    lemma_first_where_found(after, st2, e);
    let s1 = Slot { count: item.stack_size->0, ..slot_of(item) };
    assert(after[e].unwrap().stacked(more.count) == (s1, 0int));
    let again = spec_add(after, more);
    assert(again.0 == after.update(e, Some(s1)));
    assert(again.0[e] == Some(s1));
}

/// When some place satisfies `p`, there is a first such place.
pub proof fn lemma_first_found_exists(s: Seq<Option<Slot>>, p: spec_fn(Option<Slot>) -> bool, k: int)
    requires
        0 <= k < s.len(),
        p(s[k]),
    ensures
        first_where(s, p) is Some,
    decreases k,
{
    if forall|j: int| 0 <= j < k ==> !p(#[trigger] s[j]) {
        lemma_first_where_found(s, p, k);
    } else {
        let j = choose|j: int| 0 <= j < k && !!p(#[trigger] s[j]);
        lemma_first_found_exists(s, p, j);
    }
}

} // verus!

verus! {

// ------------------------------------------------------------------
// What an inventory window shows in one place
// ------------------------------------------------------------------

/// A place of an inventory window: which inventory place it shows and what it shows.
#[derive(Debug)]
pub struct InventoryDisplaySlot {
    pub index: usize,
    pub item: Option<String>,
    pub count: Option<usize>,
}

impl Default for InventoryDisplaySlot {
    fn default() -> (r: Self)
        ensures
            r.index == 0,
            r.item is None,
            r.count is None,
    {
        InventoryDisplaySlot { index: 0, item: None, count: None }
    }
}

/// What the window must do with the picture of a place.
#[derive(Debug, PartialEq, Eq, Clone, Copy, Structural)]
pub enum SlotRefresh {
    /// The picture is still right.
    Unchanged,
    /// Nothing was drawn yet: draw the item.
    Draw,
    /// Another item is shown: remove the picture and draw the item.
    Redraw,
    /// The place became empty: remove the picture.
    Clear,
}

impl InventoryDisplaySlot {
    /// Brings what the window shows in line with the inventory place it watches:
    /// a new item name is recorded and drawn, an empty place is cleared.
    /// The count is recorded with a first drawing, and on a redraw only when one
    /// was recorded before.
    pub fn refresh(&mut self, inventory: &Inventory) -> (r: SlotRefresh)
        requires
            old(self).index < inventory@.len(),
        ensures
            final(self).index == old(self).index,
            match inventory@[old(self).index as int] {
                Some(s) => match old(self).item {
                    Some(shown) => if s.name@ != shown@ {
                        &&& r == SlotRefresh::Redraw
                        &&& final(self).item == Some(s.name)
                        &&& final(self).count == (if old(self).count is Some {
                            Some(s.count)
                        } else {
                            None
                        })
                    } else {
                        r == SlotRefresh::Unchanged && *final(self) == *old(self)
                    },
                    None => {
                        &&& r == SlotRefresh::Draw
                        &&& final(self).item == Some(s.name)
                        &&& final(self).count == Some(s.count)
                    },
                },
                None => r == SlotRefresh::Clear && final(self).item is None && final(self).count
                    == old(self).count,
            },
    {
        match inventory.index(self.index) {
            Some(slot) => {
                match &self.item {
                    Some(shown) => {
                        if slot.name != *shown {
                            self.item = Some(slot.name.clone());
                            if self.count.is_some() {
                                self.count = Some(slot.count);
                            }
                            SlotRefresh::Redraw
                        } else {
                            SlotRefresh::Unchanged
                        }
                    },
                    None => {
                        self.item = Some(slot.name.clone());
                        self.count = Some(slot.count);
                        SlotRefresh::Draw
                    },
                }
            },
            None => {
                self.item = None;
                SlotRefresh::Clear
            },
        }
    }
}

/// An item kind with a count, as a world container keeps it.
pub struct ItemStack {
    pub item_type: ItemEntity,
    pub count: usize,
}

impl Default for ItemStack {
    fn default() -> (r: Self)
        ensures
            r.item_type.count == 0,
            r.item_type.item_type == ItemType::Empty,
            r.count == 0,
    {
        ItemStack { item_type: ItemEntity::default(), count: 0 }
    }
}

/// A stack together with the container place it sits in.
pub struct InventoryItemSlot {
    pub item_stack: ItemStack,
    pub slot: usize,
}

impl Default for InventoryItemSlot {
    fn default() -> (r: Self)
        ensures
            r.item_stack.count == 0,
            r.slot == 0,
    {
        InventoryItemSlot { item_stack: ItemStack::default(), slot: 0 }
    }
}

} // verus!

verus! {

impl Inventory {
    /// The place at `index`, to be changed in place, if there is one.
    pub fn get_slot_mut(&mut self, index: usize) -> (r: Option<&mut Option<Slot>>)
        ensures
            index < old(self)@.len() ==> (r matches Some(p) && *p == old(self)@[index as int]
                && final(self)@ == old(self)@.update(index as int, *final(p))),
            index >= old(self)@.len() ==> r is None && final(self)@ == old(self)@,
    {
        if index < self.items.len() {
            Some(&mut self.items[index])
        } else {
            None
        }
    }
}

} // verus!

verus! {

/// What pressing the inventory key does to the inventory window.
#[derive(Debug, PartialEq, Eq, Clone, Copy, Structural)]
pub enum InventoryToggle {
    /// Nothing to do.
    Nothing,
    /// The asking body has no inventory: report it and handle no further requests.
    MissingInventory,
    /// Remove the open window.
    Close,
    /// Build the window with one place per inventory place.
    Open,
}

/// The inventory key, asked for by a body: with the bar shown and a bar panel
/// present, a window already open for the body is closed, otherwise a window is
/// opened unless the panel counts one as open. `inventory_open` is the panel's
/// flag; the second result is its new value, flipped by an opening or closing.
pub fn inventory_toggle(
    bar_shown: bool,
    has_panel: bool,
    has_inventory: bool,
    window_for_actor: bool,
    inventory_open: bool,
) -> (r: (InventoryToggle, bool))
    ensures
        !(bar_shown && has_panel) ==> r == (InventoryToggle::Nothing, inventory_open),
        bar_shown && has_panel && !has_inventory ==> r == (InventoryToggle::MissingInventory, inventory_open),
        bar_shown && has_panel && has_inventory && window_for_actor ==> r == (InventoryToggle::Close, !inventory_open),
        bar_shown && has_panel && has_inventory && !window_for_actor && !inventory_open ==> r == (
            InventoryToggle::Open,
            true,
        ),
        bar_shown && has_panel && has_inventory && !window_for_actor && inventory_open ==> r == (
            InventoryToggle::Nothing,
            true,
        ),
{
    if !(bar_shown && has_panel) {
        return (InventoryToggle::Nothing, inventory_open);
    }
    if !has_inventory {
        return (InventoryToggle::MissingInventory, inventory_open);
    }
    if window_for_actor {
        return (InventoryToggle::Close, !inventory_open);
    }
    if !inventory_open {
        (InventoryToggle::Open, !inventory_open)
    } else {
        (InventoryToggle::Nothing, inventory_open)
    }
}

/// What the picture that follows the cursor does in one frame.
#[derive(Debug, PartialEq, Eq, Clone, Copy, Structural)]
pub enum PreviewAction {
    /// Leave it as it is.
    Keep,
    /// Remove it.
    Remove,
    /// Show the carried item.
    Show,
}

/// The cursor picture follows what the cursor carries: when that changed, an
/// empty cursor loses its picture and a carrying cursor without one gets one.
pub fn preview_step(changed: bool, carries: bool, shown: bool) -> (r: PreviewAction)
    ensures
        changed && !carries && shown ==> r == PreviewAction::Remove,
        changed && carries && !shown ==> r == PreviewAction::Show,
        !(changed && (!carries && shown || carries && !shown)) ==> r == PreviewAction::Keep,
{
    if changed {
        if !carries && !shown {
            return PreviewAction::Keep;
        }
        if !carries && shown {
            return PreviewAction::Remove;
        }
        if carries && !shown {
            return PreviewAction::Show;
        }
    }
    PreviewAction::Keep
}

} // verus!
