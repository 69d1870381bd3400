//! The value store: named, typed values that anyone may read and only their
//! creator may write, addressed by handles that notice when they are stale.

use crate::error::ManagerError;
use crate::slot::ValueStore;
use crate::token::{AccessToken, DataHandle};
use crate::value::{Datum, FloatText, Value};
use std::collections::hash_map::DefaultHasher;
use std::hash::Hasher;
use vstd::hash_map::StringHashMap;
use vstd::prelude::*;
use vstd::std_specs::hash::DefaultHasherAdditionalSpecFns;
use vstd::utf8::encode_utf8;

verus! {

/// The byte that closes a name when it is hashed.  It occurs in no text, so
/// no name's bytes are the beginning of another's.
pub const NAME_END: u8 = 0xff;

/// The fingerprint of a name: what the standard library's default hasher,
/// freshly made, gives once it has been fed the name's bytes and then the
/// closing byte.
pub open spec fn name_fingerprint(name: Seq<char>) -> u64 {
    DefaultHasher::spec_finish(seq![encode_utf8(name), seq![NAME_END]])
}

/// Computes the fingerprint of `name`.
fn fingerprint(name: &str) -> (h: u64)
    ensures
        h == name_fingerprint(name@),
{
    let end: [u8; 1] = [NAME_END];
    let mut hasher = DefaultHasher::new();
    hasher.write(name.as_bytes());
    hasher.write(end.as_slice());
    proof {
        assert(end@ =~= seq![NAME_END]);
        assert(hasher@ =~= seq![encode_utf8(name@), seq![NAME_END]]);
    }
    hasher.finish()
}

/// One record of the store, as the contracts see it.
pub struct Row {
    /// The name the value was created under.
    pub name: Seq<char>,
    /// The text of the token that created it.
    pub owner: Seq<char>,
    /// The fingerprint of the name.
    pub fingerprint: u64,
    /// What the slot holds.
    pub value: Datum,
}

/// Whether some row carries `name`.
pub open spec fn has_name(rows: Seq<Row>, name: Seq<char>) -> bool {
    exists|i: int| 0 <= i < rows.len() && #[trigger] rows[i].name == name
}

/// Whether `handle` addresses a row and carries that row's fingerprint.
pub open spec fn handle_valid(rows: Seq<Row>, handle: DataHandle) -> bool {
    handle.index < rows.len() && rows[handle.index as int].fingerprint == handle.name_hash
}

/// No two rows carry the same name, and each row's fingerprint is that of
/// its name.
pub open spec fn rows_wf(rows: Seq<Row>) -> bool {
    &&& forall|i: int, j: int|
        0 <= i < rows.len() && 0 <= j < rows.len() && #[trigger] rows[i].name
            == #[trigger] rows[j].name ==> i == j
    &&& forall|i: int|
        0 <= i < rows.len() ==> #[trigger] rows[i].fingerprint == name_fingerprint(rows[i].name)
}

/// The handle of a value that is created under `name` when the store holds
/// `rows`: the next free index, with the fingerprint of the name.
pub open spec fn new_handle(rows: Seq<Row>, name: Seq<char>) -> DataHandle {
    DataHandle { index: rows.len() as usize, name_hash: name_fingerprint(name) }
}

/// The row of a value that is created under `name` by the holder of `owner`
/// with `value` as its first content.
pub open spec fn new_row(name: Seq<char>, owner: Seq<char>, value: Datum) -> Row {
    Row { name, owner, fingerprint: name_fingerprint(name), value }
}

/// The rows with the value of row `index` replaced.
pub open spec fn with_value(rows: Seq<Row>, index: int, value: Datum) -> Seq<Row> {
    rows.update(index, Row { value, ..rows[index] })
}

/// One record of the store: a name, the token of its creator, the
/// fingerprint of the name, and the slot.
pub struct DataContainer {
    name: String,
    owner: AccessToken,
    name_hash: u64,
    value: ValueStore,
}

impl View for DataContainer {
    type V = Row;

    closed spec fn view(&self) -> Row {
        Row {
            name: self.name@,
            owner: self.owner@,
            fingerprint: self.name_hash,
            value: self.value@,
        }
    }
}

/// The store.  Its view is the sequence of its rows in the order of their
/// creation; a row is never removed, so a row's index is its for good.
pub struct Data<P, T> {
    key_map: StringHashMap<usize>,
    data_store: Vec<DataContainer>,
    text: FloatText<P, T>,
}

impl<P: Fn(&String) -> Option<u64>, T: Fn(u64) -> String> View for Data<P, T> {
    type V = Seq<Row>;

    closed spec fn view(&self) -> Seq<Row> {
        Seq::new(self.data_store@.len(), |i: int| self.data_store@[i]@)
    }
}

impl<P: Fn(&String) -> Option<u64>, T: Fn(u64) -> String> Data<P, T> {
    /// The conversions between float patterns and text that the store was
    /// made with.
    pub closed spec fn text(&self) -> FloatText<P, T> {
        self.text
    }

    /// The name index agrees with the rows: it maps exactly the names of the
    /// rows, each to the index of its row.
    pub closed spec fn indexed(&self) -> bool {
        &&& forall|i: int|
            0 <= i < self@.len() ==> self.key_map@.contains_key(#[trigger] self@[i].name)
                && self.key_map@[self@[i].name] == i
        &&& forall|name: Seq<char>| #[trigger]
            self.key_map@.contains_key(name) ==> self.key_map@[name] < self@.len()
                && self@[self.key_map@[name] as int].name == name
    }

    /// The store is well formed.
    pub open spec fn wf(&self) -> bool {
        &&& self.text().wf()
        &&& self.indexed()
        &&& rows_wf(self@)
    }

    /// An empty store that converts float text with `text`.
    pub fn new(text: FloatText<P, T>) -> (data: Self)
        requires
            text.wf(),
        ensures
            data.wf(),
            data@ == Seq::<Row>::empty(),
            data.text() == text,
    {
        let data = Data { key_map: StringHashMap::new(), data_store: Vec::new(), text };
        assert(data@ =~= Seq::<Row>::empty());
        data
    }

    /// The number of rows.
    pub fn len(&self) -> (n: usize)
        ensures
            n == self@.len(),
    {
        self.data_store.len()
    }

    /// Creates the value `key` with `val_type` as its first content and as
    /// the type of its slot, owned by `access_token`.  A name that exists is
    /// refused with `DuplicateKey`, and the store stays as it was.
    pub fn create_value(&mut self, key: String, access_token: &AccessToken, val_type: Value) -> (r:
        Result<DataHandle, ManagerError>)
        requires
            old(self).wf(),
        ensures
            final(self).wf(),
            final(self).text() == old(self).text(),
            match r {
                Ok(handle) => {
                    &&& !has_name(old(self)@, key@)
                    &&& handle == new_handle(old(self)@, key@)
                    &&& final(self)@ == old(self)@.push(new_row(key@, access_token@, val_type@))
                    &&& has_name(final(self)@, key@)
                    &&& handle_valid(final(self)@, handle)
                },
                Err(e) => {
                    &&& e == ManagerError::DuplicateKey
                    &&& has_name(old(self)@, key@)
                    &&& final(self)@ == old(self)@
                },
            },
    {
        if self.key_map.contains_key(key.as_str()) {
            proof {
                let i = self.key_map@[key@] as int;
                assert(self@[i].name == key@);
            }
            return Err(ManagerError::DuplicateKey);
        }
        let handle = DataHandle { index: self.data_store.len(), name_hash: fingerprint(key.as_str()) };
        let ghost before = self@;
        self.key_map.insert(key.clone(), handle.index);
        self.data_store.push(
            DataContainer {
                name: key,
                owner: access_token.clone(),
                name_hash: handle.name_hash,
                value: ValueStore::from(val_type),
            },
        );
        proof {
            assert(self@ =~= before.push(new_row(key@, access_token@, val_type@)));
            assert(self@[handle.index as int].name == key@);
        }
        Ok(handle)
    }

    /// Writes `val` into the slot that `handle` addresses, converted to the
    /// slot's type.  Refused with `StaleHandle` where the handle addresses no
    /// slot or carries another fingerprint than the slot's; else with
    /// `NotOwner` where `access_token` is not the creator's; else with
    /// `TypeCoercion` where the value cannot be converted.  A refused write
    /// changes nothing, and a write changes no other row.
    pub fn set_value(&mut self, handle: &DataHandle, access_token: &AccessToken, val: Value) -> (r:
        Result<(), ManagerError>)
        requires
            old(self).wf(),
        ensures
            final(self).wf(),
            final(self).text() == old(self).text(),
            final(self)@.len() == old(self)@.len(),
            forall|name: Seq<char>| has_name(final(self)@, name) == has_name(old(self)@, name),
            forall|other: DataHandle|
                handle_valid(final(self)@, other) == handle_valid(old(self)@, other),
            match r {
                Ok(()) => {
                    &&& handle_valid(old(self)@, *handle)
                    &&& old(self)@[handle.index as int].owner == access_token@
                    &&& old(self).text().converts(
                        val,
                        old(self)@[handle.index as int].value.kind(),
                        Some(final(self)@[handle.index as int].value),
                    )
                    &&& final(self)@[handle.index as int].value.kind() == old(
                        self,
                    )@[handle.index as int].value.kind()
                    &&& final(self)@ == with_value(
                        old(self)@,
                        handle.index as int,
                        final(self)@[handle.index as int].value,
                    )
                },
                Err(e) => {
                    &&& final(self)@ == old(self)@
                    &&& match e {
                        ManagerError::StaleHandle => !handle_valid(old(self)@, *handle),
                        ManagerError::NotOwner => handle_valid(old(self)@, *handle) && old(
                            self,
                        )@[handle.index as int].owner != access_token@,
                        ManagerError::TypeCoercion => handle_valid(old(self)@, *handle) && old(
                            self,
                        )@[handle.index as int].owner == access_token@ && old(
                            self,
                        ).text().converts(
                            val,
                            old(self)@[handle.index as int].value.kind(),
                            None,
                        ),
                        _ => false,
                    }
                },
            },
    {
        if handle.index >= self.data_store.len() {
            return Err(ManagerError::StaleHandle);
        }
        if self.data_store[handle.index].name_hash != handle.name_hash {
            return Err(ManagerError::StaleHandle);
        }
        if !self.data_store[handle.index].owner.matches(access_token) {
            return Err(ManagerError::NotOwner);
        }
        let ghost before = self@;
        let r = self.data_store[handle.index].value.update(val, &self.text);
        proof {
            assert(self@ =~= with_value(before, handle.index as int, self@[handle.index as int].value));
            lemma_write_keeps_names(before, handle.index as int, self@[handle.index as int].value);
        }
        r
    }

    /// What the slot that `handle` addresses holds; `StaleHandle` where the
    /// handle addresses no slot or carries another fingerprint than the
    /// slot's.  Anyone may read.
    pub fn get_value(&self, handle: &DataHandle) -> (r: Result<Value, ManagerError>)
        ensures
            match r {
                Ok(value) => handle_valid(self@, *handle) && value@ == self@[handle.index as int].value,
                Err(e) => e == ManagerError::StaleHandle && !handle_valid(self@, *handle),
            },
    {
        if handle.index >= self.data_store.len() {
            return Err(ManagerError::StaleHandle);
        }
        let container = &self.data_store[handle.index];
        if container.name_hash != handle.name_hash {
            return Err(ManagerError::StaleHandle);
        }
        Ok(container.value.read())
    }

    /// The handle of the value `key`, or nothing where no value has that
    /// name.
    pub fn get_data_handle(&self, key: &str) -> (r: Option<DataHandle>)
        requires
            self.wf(),
        ensures
            match r {
                Some(handle) => {
                    &&& handle_valid(self@, handle)
                    &&& self@[handle.index as int].name == key@
                },
                None => !has_name(self@, key@),
            },
    {
        match self.key_map.get(key) {
            Some(index) => {
                let index = *index;
                Some(DataHandle { index, name_hash: self.data_store[index].name_hash })
            },
            None => None,
        }
    }
}

/// A write changes no name and no fingerprint: the same names are held and
/// the same handles are valid before and after it.
pub proof fn lemma_write_keeps_names(rows: Seq<Row>, index: int, value: Datum)
    requires
        0 <= index < rows.len(),
    ensures
        forall|name: Seq<char>| has_name(with_value(rows, index, value), name) == has_name(rows, name),
        forall|handle: DataHandle|
            handle_valid(with_value(rows, index, value), handle) == handle_valid(rows, handle),
{
    let after = with_value(rows, index, value);
    assert forall|name: Seq<char>| has_name(after, name) == has_name(rows, name) by {
        if has_name(rows, name) {
            let i = choose|i: int| 0 <= i < rows.len() && #[trigger] rows[i].name == name;
            assert(after[i].name == name);
        }
        if has_name(after, name) {
            let i = choose|i: int| 0 <= i < after.len() && #[trigger] after[i].name == name;
            assert(rows[i].name == name);
        }
    }
}

/// One write, as the contracts see it: the index of the row and the value
/// that the row holds afterwards.
pub struct Write {
    pub index: int,
    pub value: Datum,
}

/// The rows after `writes`, applied in their order.
pub open spec fn after_writes(rows: Seq<Row>, writes: Seq<Write>) -> Seq<Row>
    decreases writes.len(),
{
    if writes.len() == 0 {
        rows
    } else {
        with_value(
            after_writes(rows, writes.drop_last()),
            writes.last().index,
            writes.last().value,
        )
    }
}

/// Values created one after another under names that differ from one
/// another and from every name in the store are all created: none of the
/// calls is refused, no two of the handles they answer with are the same, and
/// the store stays well formed.
pub proof fn lemma_fresh_names_are_all_created(rows: Seq<Row>, fresh: Seq<Row>)
    requires
        rows_wf(rows),
        rows.len() + fresh.len() <= usize::MAX,
        forall|i: int, j: int|
            0 <= i < j < fresh.len() ==> (#[trigger] fresh[i]).name != (#[trigger] fresh[j]).name,
        forall|i: int|
            0 <= i < fresh.len() ==> !has_name(rows, (#[trigger] fresh[i]).name) && fresh[i]
                == new_row(fresh[i].name, fresh[i].owner, fresh[i].value),
    ensures
        forall|k: int|
            0 <= k < fresh.len() ==> !has_name(rows + fresh.take(k), (#[trigger] fresh[k]).name),
        forall|j: int, k: int|
            0 <= j < k < fresh.len() ==> new_handle(rows + fresh.take(j), (#[trigger] fresh[j]).name)
                != new_handle(rows + fresh.take(k), (#[trigger] fresh[k]).name),
        rows_wf(rows + fresh),
{
    assert forall|k: int| 0 <= k < fresh.len() implies !has_name(
        rows + fresh.take(k),
        (#[trigger] fresh[k]).name,
    ) by {
        let held = rows + fresh.take(k);
        if has_name(held, fresh[k].name) {
            let i = choose|i: int| 0 <= i < held.len() && #[trigger] held[i].name == fresh[k].name;
            if i < rows.len() {
                assert(rows[i].name == fresh[k].name);
            } else {
                assert(held[i] == fresh[i - rows.len()]);
            }
        }
    }
    let all = rows + fresh;
    assert forall|i: int, j: int|
        0 <= i < all.len() && 0 <= j < all.len() && #[trigger] all[i].name
            == #[trigger] all[j].name implies i == j by {
        if i != j {
            let (a, b) = if i < j {
                (i, j)
            } else {
                (j, i)
            };
            if b < rows.len() {
                assert(rows[a].name == rows[b].name);
            } else if a < rows.len() {
                assert(rows[a].name == fresh[b - rows.len()].name);
            } else {
                assert(fresh[a - rows.len()].name == fresh[b - rows.len()].name);
            }
        }
    }
    assert forall|i: int| 0 <= i < all.len() implies #[trigger] all[i].fingerprint
        == name_fingerprint(all[i].name) by {
        if i >= rows.len() {
            assert(all[i] == fresh[i - rows.len()]);
        }
    }
}

/// A handle that is valid stays valid, and stays on the row of the same
/// name, through every later creation and every later write: a row is never
/// removed, renamed or moved.
pub proof fn lemma_valid_handles_stay_valid(
    rows: Seq<Row>,
    handle: DataHandle,
    created: Row,
    written: Write,
)
    requires
        handle_valid(rows, handle),
        0 <= written.index < rows.len(),
    ensures
        handle_valid(rows.push(created), handle),
        rows.push(created)[handle.index as int].name == rows[handle.index as int].name,
        handle_valid(with_value(rows, written.index, written.value), handle),
        with_value(rows, written.index, written.value)[handle.index as int].name
            == rows[handle.index as int].name,
{
}

/// Writes to other rows leave a row as it is: whatever is written elsewhere,
/// in whatever order, a row holds what was last written to it.
pub proof fn lemma_writes_elsewhere_leave_a_row(rows: Seq<Row>, writes: Seq<Write>, index: int)
    requires
        0 <= index < rows.len(),
        forall|k: int|
            0 <= k < writes.len() ==> 0 <= (#[trigger] writes[k]).index < rows.len()
                && writes[k].index != index,
    ensures
        after_writes(rows, writes).len() == rows.len(),
        after_writes(rows, writes)[index] == rows[index],
    decreases writes.len(),
{
    if writes.len() > 0 {
        lemma_writes_elsewhere_leave_a_row(rows, writes.drop_last(), index);
    }
}

} // verus!
