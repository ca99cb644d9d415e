use vstd::prelude::*;
use crate::data::Data;
use crate::data::DataView;
use crate::data::Item;
use crate::data::ItemView;
use crate::data::null_item;
use crate::data::plain;
use crate::data::same_data;

verus! {

/// One entry of a table.
#[derive(Debug, PartialEq, Eq)]
pub struct Entry {
    pub key: Data,
    pub val: Item,
}

/// A table: entries in the order in which their keys were first set.
#[derive(Debug, PartialEq, Eq)]
pub struct Table {
    pub entries: Vec<Entry>,
}

/// All tables of an engine, each at the index that is its handle.
///
/// Tables are shared by handle, so a table can hold itself or be held by a table that
/// it holds.
#[derive(Debug, PartialEq, Eq)]
pub struct Heap {
    pub tables: Vec<Table>,
}

/// The mathematical value of a table: its entries, as pairs of key and value.
pub type TableView = Seq<(DataView, ItemView)>;

/// The mathematical value of a heap.
pub type HeapView = Seq<TableView>;

impl View for Table {
    type V = TableView;

    open spec fn view(&self) -> TableView {
        Seq::new(self.entries@.len(), |i: int| (self.entries@[i].key@, self.entries@[i].val@))
    }
}

impl View for Heap {
    type V = HeapView;

    open spec fn view(&self) -> HeapView {
        Seq::new(self.tables@.len(), |i: int| self.tables@[i]@)
    }
}

/// Index of the first entry from index `i` on whose key is the same value as the given
/// key, or the table's length.
pub open spec fn find_from(table: TableView, key: DataView, i: nat) -> nat
    decreases table.len() - i,
{
    if i >= table.len() {
        table.len()
    } else if same_data(table[i as int].0, key) {
        i
    } else {
        find_from(table, key, i + 1)
    }
}

/// Whether a table has an entry with the given key.
pub open spec fn table_has(table: TableView, key: DataView) -> bool {
    find_from(table, key, 0) < table.len()
}

/// What a table holds under a key; null if it holds nothing.
pub open spec fn table_get(table: TableView, key: DataView) -> ItemView {
    if table_has(table, key) {
        table[find_from(table, key, 0) as int].1
    } else {
        null_item()
    }
}

/// A table with a value set under a key: in place of the old value, or as a new entry.
pub open spec fn table_set(table: TableView, key: DataView, val: ItemView) -> TableView {
    if table_has(table, key) {
        table.update(find_from(table, key, 0) as int, (key, val))
    } else {
        table.push((key, val))
    }
}

/// Whether a value is a table of the heap that has the key.
pub open spec fn contains_key(heap: HeapView, val: DataView, key: DataView) -> bool {
    match val {
        DataView::Table(t) => t < heap.len() && table_has(heap[t as int], key),
        _ => false,
    }
}

/// What a value holds under a key: null unless it is a table of the heap with the key.
pub open spec fn data_get(heap: HeapView, val: DataView, key: DataView) -> ItemView {
    match val {
        DataView::Table(t) => if t < heap.len() {
            table_get(heap[t as int], key)
        } else {
            null_item()
        },
        _ => null_item(),
    }
}

/// The heap after setting a key on a value: changed only if the value is a table of it.
pub open spec fn data_set(heap: HeapView, val: DataView, key: DataView, item: ItemView) -> HeapView {
    match val {
        DataView::Table(t) => if t < heap.len() {
            heap.update(t as int, table_set(heap[t as int], key, item))
        } else {
            heap
        },
        _ => heap,
    }
}

/// What an item holds under a key: what its own value holds if that has the key, else
/// what its super link holds, else null.
pub open spec fn get_key(heap: HeapView, item: ItemView, key: DataView) -> ItemView
    decreases item,
{
    if contains_key(heap, item.val, key) {
        data_get(heap, item.val, key)
    } else {
        match item.sup {
            Some(s) => get_key(heap, *s, key),
            None => null_item(),
        }
    }
}

/// The heap after setting a key on an item: on its own value if that is a table, else
/// on the first item up its chain of super links whose value is one.
pub open spec fn set_key(heap: HeapView, item: ItemView, key: DataView, val: ItemView) -> HeapView
    decreases item,
{
    if item.val is Table {
        data_set(heap, item.val, key, val)
    } else {
        match item.sup {
            Some(s) => set_key(heap, *s, key, val),
            None => heap,
        }
    }
}

/// `find_from` is the first index from `i` on with the key, or the length.
pub proof fn lemma_find_from(table: TableView, key: DataView, i: nat, j: nat)
    requires
        i <= j <= table.len(),
        forall|k: int| i <= k < j ==> !same_data(table[k].0, key),
        j < table.len() ==> same_data(table[j as int].0, key),
    ensures
        find_from(table, key, i) == j,
    decreases j - i,
{
    if i < j {
        lemma_find_from(table, key, i + 1, j);
    }
}

/// What `find_from` gives: an index not before `i`, with the key unless it is the length,
/// and no entry with the key between.
pub proof fn lemma_find_from_is_first(table: TableView, key: DataView, i: nat)
    requires
        i <= table.len(),
    ensures
        i <= find_from(table, key, i) <= table.len(),
        find_from(table, key, i) < table.len() ==> same_data(
            table[find_from(table, key, i) as int].0,
            key,
        ),
        forall|k: int| i <= k < find_from(table, key, i) ==> !same_data(table[k].0, key),
    decreases table.len() - i,
{
    if i < table.len() && !same_data(table[i as int].0, key) {
        lemma_find_from_is_first(table, key, i + 1);
    }
}

/// A table gives back what was set under a key, and keeps what it held under others.
pub proof fn lemma_table_set_get(table: TableView, key: DataView, val: ItemView, other: DataView)
    ensures
        table_get(table_set(table, key, val), key) == val,
        !same_data(other, key) ==> table_get(table_set(table, key, val), other) == table_get(
            table,
            other,
        ),
        !same_data(other, key) ==> table_has(table_set(table, key, val), other) == table_has(
            table,
            other,
        ),
        table_has(table_set(table, key, val), key),
{
    let after = table_set(table, key, val);
    let at = find_from(table, key, 0);
    lemma_find_from_is_first(table, key, 0);
    lemma_find_from(after, key, 0, at);
    if !same_data(other, key) {
        let there = find_from(table, other, 0);
        lemma_find_from_is_first(table, other, 0);
        if there < table.len() {
            lemma_find_from(after, other, 0, there);
        } else {
            lemma_find_from(after, other, 0, after.len());
        }
    }
}

/// Whether a table is the value of an item or of an item up its chain of super links.
pub open spec fn on_chain(item: ItemView, t: usize) -> bool
    decreases item,
{
    item.val == DataView::Table(t) || match item.sup {
        Some(s) => on_chain(*s, t),
        None => false,
    }
}

/// A lookup does not see a change to a table that is not on the item's chain.
pub proof fn lemma_get_key_elsewhere(
    heap: HeapView,
    item: ItemView,
    key: DataView,
    t: usize,
    table: TableView,
)
    requires
        t < heap.len(),
        !on_chain(item, t),
    ensures
        get_key(heap.update(t as int, table), item, key) == get_key(heap, item, key),
    decreases item,
{
    match item.sup {
        Some(s) => {
            lemma_get_key_elsewhere(heap, *s, key, t, table);
        },
        None => {},
    }
}

/// Lookup falls through: an item that does not hold a key itself gives what its super
/// link gives, and an item that holds it gives its own value.
pub proof fn lemma_lookup_falls_through(heap: HeapView, item: ItemView, key: DataView)
    ensures
        contains_key(heap, item.val, key) ==> get_key(heap, item, key) == data_get(
            heap,
            item.val,
            key,
        ),
        !contains_key(heap, item.val, key) && item.sup is Some ==> get_key(heap, item, key)
            == get_key(heap, *item.sup->Some_0, key),
        !contains_key(heap, item.val, key) && item.sup is None ==> get_key(heap, item, key)
            == null_item(),
{
}

/// Shadowing: setting a key on a scope whose value is a table changes what that scope
/// gives under the key, and nothing that a chain without that table gives under any key.
pub proof fn lemma_assignment_shadows(
    heap: HeapView,
    scope: ItemView,
    outer: ItemView,
    key: DataView,
    val: ItemView,
    other: DataView,
)
    requires
        scope.val is Table,
        scope.val->Table_0 < heap.len(),
        !on_chain(outer, scope.val->Table_0),
    ensures
        get_key(set_key(heap, scope, key, val), scope, key) == val,
        get_key(set_key(heap, scope, key, val), outer, other) == get_key(heap, outer, other),
{
    let t = scope.val->Table_0;
    let table = table_set(heap[t as int], key, val);
    lemma_table_set_get(heap[t as int], key, val, key);
    lemma_get_key_elsewhere(heap, outer, other, t, table);
}

/// A table can hold itself: it is found under the key it was set under, and so is what
/// is found there, however often the lookup is repeated.
pub proof fn lemma_table_in_itself(heap: HeapView, t: usize, key: DataView)
    requires
        t < heap.len(),
    ensures
        ({
            let me = plain(DataView::Table(t));
            let after = set_key(heap, me, key, me);
            &&& get_key(after, me, key) == me
            &&& get_key(after, get_key(after, me, key), key) == me
        }),
{
    let me = plain(DataView::Table(t));
    lemma_table_set_get(heap[t as int], key, me, key);
}

impl Table {
    /// Index of the first entry with the key, or the number of entries.
    pub fn find(&self, key: &Data) -> (i: usize)
        ensures
            i == find_from(self@, key@, 0),
            i <= self.entries@.len(),
    {
        let mut i: usize = 0;
        while i < self.entries.len()
            invariant
                i <= self.entries@.len(),
                forall|k: int| 0 <= k < i ==> !same_data(self@[k].0, key@),
            decreases self.entries.len() - i,
        {
            if self.entries[i].key.same(key) {
                proof {
                    lemma_find_from(self@, key@, 0, i as nat);
                }
                return i;
            }
            i = i + 1;
        }
        proof {
            lemma_find_from(self@, key@, 0, i as nat);
        }
        i
    }

    /// What the table holds under a key; null if it holds nothing.
    pub fn get(&self, key: &Data) -> (r: Item)
        ensures
            r@ == table_get(self@, key@),
    {
        let i = self.find(key);
        if i < self.entries.len() {
            self.entries[i].val.copy()
        } else {
            Data::Null.into_item()
        }
    }

    /// Sets a value under a key.
    pub fn insert(&mut self, key: Data, val: Item)
        ensures
            final(self)@ == table_set(old(self)@, key@, val@),
    {
        let i = self.find(&key);
        let ghost before = self@;
        if i < self.entries.len() {
            self.entries.set(i, Entry { key, val });
            assert(self@ =~= before.update(i as int, (key@, val@)));
        } else {
            self.entries.push(Entry { key, val });
            assert(self@ =~= before.push((key@, val@)));
        }
    }
}

impl Heap {
    /// A heap without tables.
    pub fn new() -> (r: Heap)
        ensures
            r@ == Seq::<TableView>::empty(),
    {
        let r = Heap { tables: Vec::new() };
        assert(r@ =~= Seq::<TableView>::empty());
        r
    }

    /// Adds an empty table and gives its handle.
    pub fn add_table(&mut self) -> (t: usize)
        ensures
            t == old(self)@.len(),
            final(self)@ == old(self)@.push(Seq::empty()),
    {
        let ghost before = self@;
        let table = Table { entries: Vec::new() };
        assert(table@ =~= Seq::empty());
        self.tables.push(table);
        assert(self@ =~= before.push(Seq::empty()));
        self.tables.len() - 1
    }
}

impl Data {
    /// A fresh empty table in the heap.
    pub fn new_table(heap: &mut Heap) -> (r: Data)
        ensures
            r@ == DataView::Table(old(heap)@.len() as usize),
            final(heap)@ == old(heap)@.push(Seq::empty()),
    {
        Data::Table(heap.add_table())
    }

    /// Sets a value under a key, if this value is a table of the heap.
    pub fn set_key(&self, heap: &mut Heap, key: Data, val: Item)
        ensures
            final(heap)@ == data_set(old(heap)@, self@, key@, val@),
    {
        match self {
            Data::Table(t) => {
                if *t < heap.tables.len() {
                    let ghost before = heap@;
                    heap.tables[*t].insert(key, val);
                    assert(heap@ =~= before.update(
                        *t as int,
                        table_set(before[*t as int], key@, val@),
                    ));
                }
            },
            _ => {},
        }
    }

    /// Whether this value is a table of the heap that has the key.
    pub fn contains_key(&self, heap: &Heap, key: &Data) -> (r: bool)
        ensures
            r == contains_key(heap@, self@, key@),
    {
        match self {
            Data::Table(t) => {
                if *t < heap.tables.len() {
                    let table = &heap.tables[*t];
                    table.find(key) < table.entries.len()
                } else {
                    false
                }
            },
            _ => false,
        }
    }

    /// What this value holds under a key; null unless it is a table of the heap.
    pub fn get_key(&self, heap: &Heap, key: &Data) -> (r: Item)
        ensures
            r@ == data_get(heap@, self@, key@),
    {
        match self {
            Data::Table(t) => {
                if *t < heap.tables.len() {
                    heap.tables[*t].get(key)
                } else {
                    Data::Null.into_item()
                }
            },
            _ => Data::Null.into_item(),
        }
    }
}

impl Item {
    /// Sets a value under a key: on the item's own value if that is a table, else on the
    /// first item up its chain of super links whose value is one.
    pub fn set_key(&self, heap: &mut Heap, key: Data, val: Item)
        ensures
            final(heap)@ == set_key(old(heap)@, self@, key@, val@),
        decreases self,
    {
        if self.val.can_set_key() {
            self.val.set_key(heap, key, val);
        } else {
            match &self.sup {
                Some(s) => {
                    s.set_key(heap, key, val);
                },
                None => {},
            }
        }
    }

    /// What the item holds under a key: what its own value holds if that has the key,
    /// else what its super link holds, else null.
    pub fn get_key(&self, heap: &Heap, key: &Data) -> (r: Item)
        ensures
            r@ == get_key(heap@, self@, key@),
        decreases self,
    {
        if self.val.contains_key(heap, key) {
            return self.val.get_key(heap, key);
        }
        match &self.sup {
            Some(s) => s.get_key(heap, key),
            None => Data::Null.into_item(),
        }
    }
}

} // verus!
