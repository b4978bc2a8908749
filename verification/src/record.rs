use crate::json::{Json, JsonModel};
use vstd::prelude::*;

verus! {

/// The mathematical value of a record: its fields, each a column name with a
/// value, in the order in which the names first came.
pub type RecordModel = Seq<(Seq<char>, JsonModel)>;

/// The position of the first field of `fields` named `name`, or the number of
/// fields where none has that name.
pub open spec fn index_of(fields: RecordModel, name: Seq<char>) -> nat
    decreases fields.len(),
{
    if fields.len() == 0 || fields.first().0 == name {
        0
    } else {
        1 + index_of(fields.drop_first(), name)
    }
}

/// Whether no two fields have the same name.
pub open spec fn distinct_names(fields: RecordModel) -> bool {
    forall|i: int, j: int|
        0 <= i < j < fields.len() ==> (#[trigger] fields[i]).0 != (#[trigger] fields[j]).0
}

/// `fields` with `name` set to `value`: a field of that name keeps its place
/// and takes the value, and a new name comes last.
pub open spec fn put(fields: RecordModel, name: Seq<char>, value: JsonModel) -> RecordModel {
    let at = index_of(fields, name) as int;
    if at < fields.len() {
        fields.update(at, (name, value))
    } else {
        fields.push((name, value))
    }
}

/// The value of the field named `name`, where there is one.
pub open spec fn value_of(fields: RecordModel, name: Seq<char>) -> Option<JsonModel> {
    let at = index_of(fields, name) as int;
    if at < fields.len() {
        Some(fields[at].1)
    } else {
        None
    }
}

/// `index_of` finds `at` where no earlier field has the name and either the
/// field at `at` has it or `at` is the number of fields.
pub proof fn lemma_index_of(fields: RecordModel, name: Seq<char>, at: int)
    requires
        0 <= at <= fields.len(),
        forall|j: int| 0 <= j < at ==> fields[j].0 != name,
        at == fields.len() || fields[at].0 == name,
    ensures
        index_of(fields, name) == at,
    decreases at,
{
    if at > 0 {
        lemma_index_of(fields.drop_first(), name, at - 1);
    }
}

/// `index_of` is within the fields or just behind them, no earlier field has
/// the name, and the field it points at has it.
pub proof fn lemma_index_of_found(fields: RecordModel, name: Seq<char>)
    ensures
        index_of(fields, name) <= fields.len(),
        forall|j: int| 0 <= j < index_of(fields, name) ==> fields[j].0 != name,
        index_of(fields, name) < fields.len() ==> fields[index_of(fields, name) as int].0 == name,
    decreases fields.len(),
{
    if fields.len() > 0 && fields.first().0 != name {
        let rest = fields.drop_first();
        lemma_index_of_found(rest, name);
        assert forall|j: int| 0 <= j < index_of(fields, name) implies fields[j].0 != name by {
            if j > 0 {
                assert(fields[j] == rest[j - 1]);
            }
        }
    }
}

/// Setting a name keeps the names distinct, adds at most one field, and the
/// name then has the value.
pub proof fn lemma_put(fields: RecordModel, name: Seq<char>, value: JsonModel)
    requires
        distinct_names(fields),
    ensures
        distinct_names(put(fields, name, value)),
        fields.len() <= put(fields, name, value).len() <= fields.len() + 1,
        value_of(put(fields, name, value), name) == Some(value),
{
    lemma_index_of_found(fields, name);
    let after = put(fields, name, value);
    let at = index_of(fields, name) as int;
    lemma_index_of(after, name, at);
    assert forall|i: int, j: int| 0 <= i < j < after.len() implies (#[trigger] after[i]).0 != (
    #[trigger] after[j]).0 by {
        if at < fields.len() {
            assert(after[i].0 == fields[i].0);
            assert(after[j].0 == fields[j].0);
        }
    }
}

/// One field of a record.
#[derive(Debug, PartialEq, Eq)]
pub struct Field {
    pub name: String,
    pub value: Json,
}

/// One row of a measurement: the values of the row, each under the name of
/// its column. No two fields have the same name.
#[derive(Debug, PartialEq, Eq)]
pub struct Record {
    fields: Vec<Field>,
}

impl View for Record {
    type V = RecordModel;

    closed spec fn view(&self) -> RecordModel {
        Seq::new(self.fields@.len(), |i: int| (self.fields@[i].name@, self.fields@[i].value@))
    }
}

impl Record {
    #[verifier::type_invariant]
    spec fn names_are_distinct(self) -> bool {
        distinct_names(self@)
    }

    /// A record without fields.
    pub fn new() -> (record: Record)
        ensures
            record@ == Seq::<(Seq<char>, JsonModel)>::empty(),
    {
        let record = Record { fields: Vec::new() };
        assert(record@ =~= Seq::<(Seq<char>, JsonModel)>::empty());
        record
    }

    /// The number of fields.
    pub fn len(&self) -> (n: usize)
        ensures
            n == self@.len(),
    {
        self.fields.len()
    }

    /// Sets the field `name` to `value`.
    pub fn insert(&mut self, name: String, value: Json)
        ensures
            final(self)@ == put(old(self)@, name@, value@),
            distinct_names(final(self)@),
    {
        let mut taken = Record::new();
        core::mem::swap(self, &mut taken);
        let ghost before = taken@;
        proof {
            use_type_invariant(&taken);
            lemma_put(before, name@, value@);
        }
        let Record { fields } = taken;
        let mut fields = fields;
        let mut at: usize = 0;
        while at < fields.len() && fields[at].name != name
            invariant
                at <= fields.len(),
                before.len() == fields@.len(),
                forall|j: int|
                    0 <= j < fields@.len() ==> before[j] == (fields@[j].name@, fields@[j].value@),
                forall|j: int| 0 <= j < at ==> before[j].0 != name@,
            decreases fields.len() - at,
        {
            at += 1;
        }
        proof {
            lemma_index_of(before, name@, at as int);
        }
        if at < fields.len() {
            fields.set(at, Field { name, value });
        } else {
            fields.push(Field { name, value });
        }
        proof {
            let target = Seq::new(
                fields@.len(),
                |i: int| (fields@[i].name@, fields@[i].value@),
            );
            assert(target =~= put(before, name@, value@));
        }
        let after = Record { fields };
        assert(after@ =~= put(before, name@, value@));
        *self = after;
    }

    /// The value of the field `name`.
    pub fn get(&self, name: &str) -> (found: Option<&Json>)
        ensures
            match found {
                Some(value) => value_of(self@, name@) == Some(value@),
                None => value_of(self@, name@) is None,
            },
    {
        let wanted = String::from_str(name);
        let mut at: usize = 0;
        while at < self.fields.len() && self.fields[at].name != wanted
            invariant
                at <= self.fields.len(),
                wanted@ == name@,
                forall|j: int| 0 <= j < at ==> self@[j].0 != name@,
            decreases self.fields.len() - at,
        {
            at += 1;
        }
        proof {
            lemma_index_of(self@, name@, at as int);
        }
        if at < self.fields.len() {
            Some(&self.fields[at].value)
        } else {
            None
        }
    }

    /// A copy of the record.
    pub fn duplicate(&self) -> (copy: Record)
        ensures
            copy@ == self@,
    {
        proof {
            use_type_invariant(self);
        }
        let mut fields: Vec<Field> = Vec::new();
        let mut i: usize = 0;
        while i < self.fields.len()
            invariant
                i <= self.fields.len(),
                fields@.len() == i,
                forall|j: int|
                    0 <= j < i ==> self@[j] == (#[trigger] fields@[j].name@, fields@[j].value@),
            decreases self.fields.len() - i,
        {
            fields.push(
                Field { name: self.fields[i].name.clone(), value: self.fields[i].value.clone() },
            );
            i += 1;
        }
        proof {
            let target = Seq::new(
                fields@.len(),
                |i: int| (fields@[i].name@, fields@[i].value@),
            );
            assert(target =~= self@);
        }
        Record { fields }
    }

    /// The fields, in order.
    pub fn fields(&self) -> (fields: &Vec<Field>)
        ensures
            fields@.len() == self@.len(),
            forall|i: int|
                0 <= i < fields@.len() ==> self@[i] == (fields@[i].name@, fields@[i].value@),
            distinct_names(self@),
    {
        proof {
            use_type_invariant(self);
        }
        &self.fields
    }
}

impl Clone for Record {
    fn clone(&self) -> (copy: Record)
        ensures
            copy@ == self@,
    {
        self.duplicate()
    }
}

} // verus!
