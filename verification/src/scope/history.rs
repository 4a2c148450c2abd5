//! The newest items of an endless stream, in fixed storage.
use vstd::prelude::*;

verus! {

/// The last `limit` items of a sequence, or all of them if there are fewer.
pub open spec fn newest<T>(items: Seq<T>, limit: int) -> Seq<T> {
    if items.len() <= limit {
        items
    } else {
        items.skip(items.len() - limit)
    }
}

/// What leaves the storage when one more item comes: the oldest item where there is no
/// room, else the blank that stood there.
pub open spec fn outgoing_item<T>(items: Seq<T>, limit: int, blank: T) -> T {
    if items.len() == limit {
        items[0]
    } else {
        blank
    }
}

/// What leaves is what is missing afterwards: where there is no room, what was kept and the
/// new item are what leaves and then what is kept; where there is room, nothing is missing
/// and the blank leaves.
pub proof fn what_leaves_is_missing<T>(items: Seq<T>, item: T, limit: int, blank: T)
    requires
        0 < limit,
        items.len() <= limit,
    ensures
        items.len() == limit ==> items.push(item) == seq![outgoing_item(items, limit, blank)]
            + newest(items.push(item), limit),
        items.len() < limit ==> newest(items.push(item), limit) == items.push(item),
        items.len() < limit ==> outgoing_item(items, limit, blank) == blank,
{
    if items.len() == limit {
        assert(items.push(item) =~= seq![outgoing_item(items, limit, blank)] + newest(
            items.push(item),
            limit,
        ));
    }
}

/// A vector of `count` copies of an item.
pub fn filled<T: Copy>(item: T, count: usize) -> (items: Vec<T>)
    ensures
        items@.len() == count,
        forall|i: int| 0 <= i < count ==> items@[i] == item,
{
    let mut items: Vec<T> = Vec::with_capacity(count);
    while items.len() < count
        invariant
            items@.len() <= count,
            forall|i: int| 0 <= i < items@.len() ==> items@[i] == item,
        decreases count - items@.len(),
    {
        items.push(item);
    }
    items
}

/// The newest items of a stream, oldest first. Storage is fixed when it is
/// made; storage that no item has reached yet holds a blank.
#[derive(Debug)]
pub struct History<T> {
    items: Vec<T>,
    write: usize,
    count: usize,
    blank: T,
}

impl<T: Copy> History<T> {
    /// Whether the storage is laid out as a ring of items.
    pub closed spec fn is_valid(self) -> bool {
        &&& 0 < self.items@.len()
        &&& self.write < self.items@.len()
        &&& self.count <= self.items@.len()
        &&& self.count < self.items@.len() ==> self.write == self.count
        &&& forall|i: int|
            self.count <= i < self.items@.len() ==> #[trigger] self.items@[i] == self.blank
    }

    /// How many items fit.
    pub closed spec fn limit(self) -> int {
        self.items@.len() as int
    }

    /// What stands where no item has been.
    pub closed spec fn blank_item(self) -> T {
        self.blank
    }

    /// The storage place of the item that is behind `index` older ones.
    pub closed spec fn place(self, index: int) -> int {
        if self.count < self.items@.len() {
            index
        } else if self.write + index < self.items@.len() {
            self.write + index
        } else {
            self.write + index - self.items@.len()
        }
    }

    /// The items, oldest first.
    pub closed spec fn view(&self) -> Seq<T> {
        Seq::new(self.count as nat, |index: int| self.items@[self.place(index)])
    }

    /// There is room for at least one item, and never more items than room.
    pub proof fn has_room(self)
        requires
            self.is_valid(),
        ensures
            self.limit() > 0,
            self@.len() <= self.limit(),
    {
    }

    /// Allocates room for `limit` items.
    pub fn new(limit: usize, blank: T) -> (history: Self)
        requires
            limit > 0,
        ensures
            history.is_valid(),
            history.limit() == limit,
            history.blank_item() == blank,
            history@ == Seq::<T>::empty(),
    {
        let items = filled(blank, limit);
        let history = History { items, write: 0, count: 0, blank };
        assert(history@ =~= Seq::<T>::empty());
        history
    }

    /// How many items there are.
    pub fn len(&self) -> (count: usize)
        requires
            self.is_valid(),
        ensures
            count == self@.len(),
            count <= self.limit(),
    {
        self.count
    }

    /// How many items fit.
    pub fn capacity(&self) -> (limit: usize)
        ensures
            limit == self.limit(),
    {
        self.items.len()
    }

    /// The storage place of the item that is behind `index` older ones.
    fn storage_index(&self, index: usize) -> (place: usize)
        requires
            self.is_valid(),
            index < self@.len(),
        ensures
            place == self.place(index as int),
            place < self.items@.len(),
    {
        if self.count < self.items.len() {
            index
        } else if index < self.items.len() - self.write {
            self.write + index
        } else {
            index - (self.items.len() - self.write)
        }
    }

    /// The item that is behind `index` older ones.
    pub fn get(&self, index: usize) -> (item: Option<T>)
        requires
            self.is_valid(),
        ensures
            item == (if index < self@.len() {
                Some(self@[index as int])
            } else {
                None
            }),
    {
        if index < self.count {
            Some(self.items[self.storage_index(index)])
        } else {
            None
        }
    }

    /// Adds an item as the newest. Where there is no room the oldest item
    /// leaves. What stood in the storage before is handed back.
    pub fn push(&mut self, item: T) -> (outgoing: T)
        requires
            old(self).is_valid(),
        ensures
            final(self).is_valid(),
            final(self).limit() == old(self).limit(),
            final(self).blank_item() == old(self).blank_item(),
            final(self)@ == newest(old(self)@.push(item), old(self).limit()),
            outgoing == outgoing_item(old(self)@, old(self).limit(), old(self).blank_item()),
            outgoing == (if old(self)@.len() == old(self).limit() {
                old(self)@[0]
            } else {
                old(self).blank_item()
            }),
    {
        let ghost before = *self;
        let outgoing = self.items[self.write];
        self.items[self.write] = item;
        if self.write == self.items.len() - 1 {
            self.write = 0;
        } else {
            self.write = self.write + 1;
        }
        if self.count < self.items.len() {
            self.count = self.count + 1;
        }
        proof {
            let expected = newest(before@.push(item), before.limit());
            assert(self@.len() == expected.len());
            assert forall|index: int| 0 <= index < self@.len() implies #[trigger] self@[index]
                == expected[index] by {
                if before.count < before.items@.len() {
                    if self.count < self.items@.len() {
                        assert(self.place(index) == index);
                    } else {
                        assert(self.place(index) == index);
                    }
                    assert(before.place(index) == index);
                } else {
                    if index < before@.len() - 1 {
                        assert(self.place(index) == before.place(index + 1));
                        assert(before@[index + 1] == before.items@[before.place(index + 1)]);
                    }
                }
            }
            assert(self@ =~= expected);
            if before.count == before.items@.len() {
                assert(before@[0] == before.items@[before.place(0)]);
            }
        }
        outgoing
    }

    /// Puts another item in the place of the newest one, if there is one.
    pub fn replace_newest(&mut self, item: T)
        requires
            old(self).is_valid(),
        ensures
            final(self).is_valid(),
            final(self).limit() == old(self).limit(),
            final(self).blank_item() == old(self).blank_item(),
            final(self)@ == (if old(self)@.len() > 0 {
                old(self)@.drop_last().push(item)
            } else {
                old(self)@
            }),
    {
        let ghost before = *self;
        if self.count > 0 {
            let place: usize = self.storage_index(self.count - 1);
            self.items[place] = item;
            proof {
                let last = (before.count - 1) as int;
                assert forall|index: int| 0 <= index < self@.len() implies #[trigger] self@[index]
                    == before@.drop_last().push(item)[index] by {
                    assert(self.place(index) == before.place(index));
                    if index < last {
                        assert(before.place(index) != before.place(last));
                    }
                }
                assert(self@ =~= before@.drop_last().push(item));
            }
        } else {
            assert(self@ =~= before@);
        }
    }

    /// Copies the newest items, oldest first, into as much of the destination
    /// as they fill. A short destination gets the newest items.
    pub fn copy_newest(&self, destination: &mut [T]) -> (amount: usize)
        requires
            self.is_valid(),
        ensures
            final(destination)@.len() == old(destination)@.len(),
            amount == newest(self@, old(destination)@.len() as int).len(),
            final(destination)@.take(amount as int) == newest(
                self@,
                old(destination)@.len() as int,
            ),
            forall|i: int|
                amount <= i < old(destination)@.len() ==> #[trigger] final(destination)@[i]
                    == old(destination)@[i],
    {
        let ghost before = destination@;
        let amount: usize = if destination.len() < self.count {
            destination.len()
        } else {
            self.count
        };
        let first: usize = self.count - amount;
        let mut index: usize = 0;
        while index < amount
            invariant
                self.is_valid(),
                index <= amount <= destination@.len(),
                first + amount == self@.len(),
                destination@.len() == before.len(),
                forall|i: int| 0 <= i < index ==> #[trigger] destination@[i] == self@[first + i],
                forall|i: int| amount <= i < before.len() ==> #[trigger] destination@[i] == before[i],
            decreases amount - index,
        {
            destination[index] = self.items[self.storage_index(first + index)];
            index = index + 1;
        }
        assert(destination@.take(amount as int) =~= newest(self@, before.len() as int));
        amount
    }

    /// Forgets every item and keeps the storage.
    pub fn reset(&mut self)
        requires
            old(self).is_valid(),
        ensures
            final(self).is_valid(),
            final(self).limit() == old(self).limit(),
            final(self).blank_item() == old(self).blank_item(),
            final(self)@ == Seq::<T>::empty(),
    {
        let ghost before = *self;
        let mut index: usize = 0;
        while index < self.items.len()
            invariant
                self.items@.len() == before.items@.len(),
                self.items@.len() > 0,
                self.blank == before.blank,
                index <= self.items@.len(),
                forall|i: int| 0 <= i < index ==> #[trigger] self.items@[i] == self.blank,
            decreases self.items@.len() - index,
        {
            self.items[index] = self.blank;
            index = index + 1;
        }
        self.write = 0;
        self.count = 0;
        assert(self@ =~= Seq::<T>::empty());
    }
}

/// Pushing one item after another keeps the newest of the whole stream: what
/// was cut off earlier would be cut off now.
pub proof fn newest_of_longer_stream<T>(stream: Seq<T>, item: T, limit: int)
    requires
        limit > 0,
    ensures
        newest(newest(stream, limit).push(item), limit) == newest(stream.push(item), limit),
{
    assert(newest(newest(stream, limit).push(item), limit) =~= newest(stream.push(item), limit));
}

/// The newest items are the end of the sequence, as much of it as the limit allows.
pub proof fn newest_is_the_end<T>(items: Seq<T>, limit: int)
    requires
        limit >= 0,
    ensures
        newest(items, limit).len() <= items.len(),
        newest(items, limit).len() <= limit,
        newest(items, limit).len() == items.len() || newest(items, limit).len() == limit,
        forall|i: int|
            0 <= i < newest(items, limit).len() ==> #[trigger] newest(items, limit)[i]
                == items[items.len() - newest(items, limit).len() + i],
{
}

} // verus!
