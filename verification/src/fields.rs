//! The result of decoding a form body: a mapping from field names to the
//! bytes submitted under them.

use vstd::prelude::*;

verus! {

/// One decoded field, as it occurred in the body.
#[derive(Clone, Debug)]
pub struct Field {
    /// The decoded name.
    pub name: String,
    /// The decoded value, which need not be text.
    pub value: Vec<u8>,
}

/// The mapping that a run of fields amounts to: every name maps to the value
/// of its last occurrence.
pub open spec fn field_map(fields: Seq<Field>) -> Map<Seq<char>, Seq<u8>>
    decreases fields.len(),
{
    if fields.len() == 0 {
        Map::empty()
    } else {
        field_map(fields.drop_last()).insert(fields.last().name@, fields.last().value@)
    }
}

/// A mapping from field names to values. Fields are recorded in the order in
/// which they were inserted; a later field replaces an earlier one of the
/// same name, so the mapping itself has no order and no duplicate key.
#[derive(Clone, Debug)]
pub struct FormResult {
    entries: Vec<Field>,
}

impl View for FormResult {
    type V = Map<Seq<char>, Seq<u8>>;

    closed spec fn view(&self) -> Map<Seq<char>, Seq<u8>> {
        field_map(self.entries@)
    }
}

/// A name that occurs in no field is no key of the mapping, and the last
/// field of a name decides its value.
proof fn field_map_lookup(fields: Seq<Field>, key: Seq<char>, at: int)
    requires
        -1 <= at < fields.len(),
        at >= 0 ==> fields[at].name@ == key,
        forall|j: int| at < j < fields.len() ==> fields[j].name@ != key,
    ensures
        at < 0 ==> !field_map(fields).contains_key(key),
        at >= 0 ==> field_map(fields).contains_key(key) && field_map(fields)[key]
            == fields[at].value@,
    decreases fields.len(),
{
    if fields.len() > 0 && at < fields.len() - 1 {
        let front = fields.drop_last();
        assert(forall|j: int| at < j < front.len() ==> front[j] == fields[j]);
        field_map_lookup(front, key, at);
    }
}

impl FormResult {
    /// The mapping without any field.
    pub fn new() -> (form: FormResult)
        ensures
            form@ == Map::<Seq<char>, Seq<u8>>::empty(),
    {
        FormResult { entries: Vec::new() }
    }

    /// Maps `name` to `value`, replacing what `name` was mapped to before.
    pub fn insert(&mut self, name: String, value: Vec<u8>)
        ensures
            final(self)@ == old(self)@.insert(name@, value@),
    {
        let ghost before = self.entries@;
        self.entries.push(Field { name, value });
        assert(self.entries@.drop_last() =~= before);
    }

    /// The place of the last of the first `end` fields that is named `key`.
    fn last_before(&self, key: &String, end: usize) -> (found: Option<usize>)
        requires
            end <= self.entries@.len(),
        ensures
            match found {
                Some(at) => at < end && self.entries@[at as int].name@ == key@ && field_map(
                    self.entries@.take(end as int),
                ).contains_key(key@) && field_map(self.entries@.take(end as int))[key@]
                    == self.entries@[at as int].value@,
                None => !field_map(self.entries@.take(end as int)).contains_key(key@),
            },
    {
        let ghost prefix = self.entries@.take(end as int);
        let mut i: usize = end;
        while i > 0
            invariant
                i <= end <= self.entries@.len(),
                prefix == self.entries@.take(end as int),
                forall|j: int| i <= j < end ==> self.entries@[j].name@ != key@,
            decreases i,
        {
            i -= 1;
            if self.entries[i].name == *key {
                proof {
                    field_map_lookup(prefix, key@, i as int);
                }
                return Some(i);
            }
        }
        proof {
            field_map_lookup(prefix, key@, -1);
        }
        None
    }

    /// The value that `name` is mapped to, if any.
    pub fn get(&self, name: &str) -> (value: Option<&Vec<u8>>)
        ensures
            match value {
                Some(v) => self@.contains_key(name@) && self@[name@] == v@,
                None => !self@.contains_key(name@),
            },
    {
        let key: String = name.to_owned();
        assert(self.entries@.take(self.entries@.len() as int) =~= self.entries@);
        match self.last_before(&key, self.entries.len()) {
            Some(at) => Some(&self.entries[at].value),
            None => None,
        }
    }

    /// The number of names that are mapped to a value.
    pub fn len(&self) -> (count: usize)
        ensures
            self@.dom().finite(),
            count == self@.len(),
    {
        let mut count: usize = 0;
        let mut i: usize = 0;
        assert(self.entries@.take(0) =~= Seq::<Field>::empty());
        while i < self.entries.len()
            invariant
                i <= self.entries@.len(),
                count <= i,
                field_map(self.entries@.take(i as int)).dom().finite(),
                count == field_map(self.entries@.take(i as int)).dom().len(),
            decreases self.entries@.len() - i,
        {
            let seen = self.last_before(&self.entries[i].name, i);
            proof {
                let next = self.entries@.take(i + 1);
                assert(next.drop_last() =~= self.entries@.take(i as int));
                assert(next.last() == self.entries@[i as int]);
                assert(field_map(next).dom() =~= field_map(self.entries@.take(i as int)).dom().insert(
                    self.entries@[i as int].name@,
                ));
            }
            if seen.is_none() {
                count += 1;
            }
            i += 1;
        }
        assert(self.entries@.take(self.entries@.len() as int) =~= self.entries@);
        count
    }

    /// Whether `name` is mapped to a value.
    pub fn contains_key(&self, name: &str) -> (present: bool)
        ensures
            present == self@.contains_key(name@),
    {
        self.get(name).is_some()
    }

    /// Whether the mapping has no field at all.
    pub fn is_empty(&self) -> (empty: bool)
        ensures
            empty == (self@ == Map::<Seq<char>, Seq<u8>>::empty()),
    {
        let empty = self.entries.len() == 0;
        proof {
            if !empty {
                let last = self.entries@.last();
                assert(self@.contains_key(last.name@));
                assert(!Map::<Seq<char>, Seq<u8>>::empty().contains_key(last.name@));
            }
        }
        empty
    }

    /// The fields in the order of their insertion, superseded ones included.
    /// Inserting them in this order into any map gives this mapping.
    pub fn fields(&self) -> (fields: &Vec<Field>)
        ensures
            field_map(fields@) == self@,
    {
        &self.entries
    }
}

} // verus!
