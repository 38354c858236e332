use vstd::prelude::*;

verus! {

/// `serde_json::Value`: a dynamically typed value (string, number, boolean,
/// array, object or null). The library carries such values and never looks
/// inside one.
#[verifier::external_type_specification]
#[verifier::external_body]
pub struct ExValue(serde_json::Value);

/// Calls `Value::clone`, which copies the value with everything inside it: the
/// copy and `value` are equal.
#[verifier::external_body]
fn clone_value(value: &serde_json::Value) -> (copy: serde_json::Value)
    ensures
        copy == *value,
{
    value.clone()
}

/// The keys of a list of fields, in their order.
pub open spec fn keys_of(fields: Seq<(String, serde_json::Value)>) -> Seq<Seq<char>> {
    fields.map_values(|field: (String, serde_json::Value)| field.0@)
}

/// The record that a list of fields writes, one field after the other: a key
/// that is written again gets the later value.
pub open spec fn record_of(fields: Seq<(String, serde_json::Value)>) -> Map<
    Seq<char>,
    serde_json::Value,
>
    decreases fields.len(),
{
    if fields.len() == 0 {
        Map::empty()
    } else {
        record_of(fields.drop_last()).insert(fields.last().0@, fields.last().1)
    }
}

/// Fields with the same keys and the same values write the same record.
proof fn lemma_record_same(
    one: Seq<(String, serde_json::Value)>,
    other: Seq<(String, serde_json::Value)>,
)
    requires
        one.len() == other.len(),
        forall|k: int|
            0 <= k < one.len() ==> (#[trigger] one[k]).0@ == other[k].0@ && one[k].1 == other[k].1,
    ensures
        record_of(one) == record_of(other),
    decreases one.len(),
{
    if one.len() > 0 {
        lemma_record_same(one.drop_last(), other.drop_last());
    }
}

/// The record holds exactly the keys of the fields.
pub proof fn lemma_record_keys(fields: Seq<(String, serde_json::Value)>, key: Seq<char>)
    ensures
        record_of(fields).contains_key(key) <==> keys_of(fields).contains(key),
    decreases fields.len(),
{
    if fields.len() > 0 {
        let shorter = fields.drop_last();
        lemma_record_keys(shorter, key);
        if keys_of(shorter).contains(key) {
            let i = choose|i: int| 0 <= i < shorter.len() && keys_of(shorter)[i] == key;
            assert(keys_of(fields)[i] == key);
        }
        if keys_of(fields).contains(key) {
            let i = choose|i: int| 0 <= i < fields.len() && keys_of(fields)[i] == key;
            if i < shorter.len() {
                assert(keys_of(shorter)[i] == key);
            }
        } else {
            assert(keys_of(fields)[fields.len() - 1] != key);
        }
    }
}

/// Last write wins: the record gives a key the value of the last field that
/// is written under it.
pub proof fn lemma_last_write_wins(fields: Seq<(String, serde_json::Value)>, i: int)
    requires
        0 <= i < fields.len(),
        forall|j: int| i < j < fields.len() ==> keys_of(fields)[j] != keys_of(fields)[i],
    ensures
        record_of(fields).contains_key(fields[i].0@),
        record_of(fields)[fields[i].0@] == fields[i].1,
    decreases fields.len(),
{
    let shorter = fields.drop_last();
    let last = fields.len() - 1;
    if i < last {
        assert(keys_of(fields)[last] != keys_of(fields)[i]);
        assert forall|j: int| i < j < shorter.len() implies keys_of(shorter)[j] != keys_of(
            shorter,
        )[i] by {
            assert(keys_of(fields)[j] != keys_of(fields)[i]);
        }
        lemma_last_write_wins(shorter, i);
    }
}

/// Where no key stands twice, a new value in the place of an old one is that
/// value written under its key.
proof fn lemma_record_update(
    fields: Seq<(String, serde_json::Value)>,
    i: int,
    field: (String, serde_json::Value),
)
    requires
        keys_of(fields).no_duplicates(),
        0 <= i < fields.len(),
        field.0@ == fields[i].0@,
    ensures
        record_of(fields.update(i, field)) == record_of(fields).insert(field.0@, field.1),
        keys_of(fields.update(i, field)) == keys_of(fields),
    decreases fields.len(),
{
    let changed = fields.update(i, field);
    let shorter = fields.drop_last();
    let last = fields.len() - 1;
    assert(keys_of(changed) =~= keys_of(fields));
    if i < last {
        assert(keys_of(fields)[i] != keys_of(fields)[last]);
        assert forall|a: int, b: int|
            0 <= a < shorter.len() && 0 <= b < shorter.len() && a != b implies keys_of(shorter)[a]
            != keys_of(shorter)[b] by {
            assert(keys_of(fields)[a] != keys_of(fields)[b]);
        }
        lemma_record_update(shorter, i, field);
        assert(changed.drop_last() =~= shorter.update(i, field));
        assert(changed.last() == fields.last());
        assert(record_of(changed) =~= record_of(fields).insert(field.0@, field.1));
    } else {
        assert(changed.drop_last() =~= shorter);
        assert(record_of(changed) =~= record_of(fields).insert(field.0@, field.1));
    }
}

/// An open record from string keys to dynamically typed values.
///
/// A key stands once in a message, and the order in which the fields were
/// written means nothing. A message carries neither an identity nor a route
/// history: where it goes is a property of the channel it is sent on.
#[derive(Debug)]
pub struct Message {
    fields: Vec<(String, serde_json::Value)>,
}

impl View for Message {
    type V = Map<Seq<char>, serde_json::Value>;

    /// The record that the message holds.
    closed spec fn view(&self) -> Map<Seq<char>, serde_json::Value> {
        record_of(self.fields@)
    }
}

impl Clone for Message {
    /// A message of its own with the same record.
    fn clone(&self) -> (copy: Self)
        ensures
            copy@ == self@,
    {
        proof {
            use_type_invariant(self);
        }
        let mut fields: Vec<(String, serde_json::Value)> = Vec::new();
        let mut i: usize = 0;
        while i < self.fields.len()
            invariant
                i <= self.fields.len(),
                fields.len() == i,
                forall|k: int|
                    0 <= k < i ==> (#[trigger] fields[k]).0@ == self.fields[k].0@ && fields[k].1
                        == self.fields[k].1,
            decreases self.fields.len() - i,
        {
            fields.push((self.fields[i].0.clone(), clone_value(&self.fields[i].1)));
            i += 1;
        }
        proof {
            assert(keys_of(fields@) =~= keys_of(self.fields@));
            lemma_record_same(fields@, self.fields@);
        }
        Message { fields }
    }
}

/// Finds the field that is written under `key`.
fn field_of(fields: &Vec<(String, serde_json::Value)>, key: &String) -> (found: Option<usize>)
    ensures
        match found {
            Some(i) => i < fields.len() && fields[i as int].0@ == key@,
            None => !keys_of(fields@).contains(key@),
        },
{
    let mut i: usize = 0;
    while i < fields.len()
        invariant
            i <= fields.len(),
            forall|k: int| 0 <= k < i ==> keys_of(fields@)[k] != key@,
        decreases fields.len() - i,
    {
        if fields[i].0 == *key {
            return Some(i);
        }
        i += 1;
    }
    None
}

impl Message {
    #[verifier::type_invariant]
    spec fn keys_stand_once(&self) -> bool {
        keys_of(self.fields@).no_duplicates()
    }

    /// Builds a message from a bag of fields. The fields are written in their
    /// order, so of two fields with one key the later one stays; nothing else
    /// is checked.
    pub fn new(fields: Vec<(String, serde_json::Value)>) -> (message: Self)
        ensures
            message@ == record_of(fields@),
    {
        let mut message = Message { fields: Vec::new() };
        for field in it: fields
            invariant
                it.seq() == fields@,
                message@ == record_of(fields@.take(it.index() as int)),
        {
            proof {
                let at = it.index() as int;
                assert(fields@.take(at + 1).drop_last() =~= fields@.take(at));
            }
            message = message.with(field.0, field.1);
        }
        assert(fields@.take(fields@.len() as int) =~= fields@);
        message
    }

    /// The message with `value` written under `key`: the value stands for the
    /// key, whatever stood there before, and every other field stays.
    pub fn with(self, key: String, value: serde_json::Value) -> (message: Self)
        ensures
            message@ == self@.insert(key@, value),
    {
        proof {
            use_type_invariant(&self);
        }
        let Message { fields } = self;
        let mut fields = fields;
        let ghost before = fields@;
        match field_of(&fields, &key) {
            Some(i) => {
                proof {
                    lemma_record_update(before, i as int, (key, value));
                }
                fields[i] = (key, value);
            },
            None => {
                fields.push((key, value));
                proof {
                    let old_keys = keys_of(before);
                    let new_keys = keys_of(fields@);
                    assert(fields@.drop_last() =~= before);
                    assert(new_keys =~= old_keys.push(key@));
                    assert forall|a: int, b: int|
                        0 <= a < new_keys.len() && 0 <= b < new_keys.len() && a != b implies new_keys[a]
                        != new_keys[b] by {
                        if a < old_keys.len() && b < old_keys.len() {
                            assert(old_keys[a] != old_keys[b]);
                        } else if a < old_keys.len() {
                            assert(old_keys[a] != key@);
                        } else {
                            assert(old_keys[b] != key@);
                        }
                    }
                }
            },
        }
        Message { fields }
    }

    /// The value written under `key`, if there is one.
    pub fn get(&self, key: &str) -> (value: Option<&serde_json::Value>)
        ensures
            match value {
                Some(value) => self@.contains_key(key@) && *value == self@[key@],
                None => !self@.contains_key(key@),
            },
    {
        let key = key.to_owned();
        proof {
            use_type_invariant(self);
            lemma_record_keys(self.fields@, key@);
        }
        match field_of(&self.fields, &key) {
            Some(i) => {
                proof {
                    lemma_last_write_wins(self.fields@, i as int);
                }
                Some(&self.fields[i].1)
            },
            None => None,
        }
    }

    /// The fields of the message, each key once, in no order that means
    /// anything.
    pub fn fields(&self) -> (fields: &Vec<(String, serde_json::Value)>)
        ensures
            record_of(fields@) == self@,
            keys_of(fields@).no_duplicates(),
    {
        proof {
            use_type_invariant(self);
        }
        &self.fields
    }

    /// How many fields the message holds.
    pub fn len(&self) -> (count: usize)
        ensures
            self@.dom().finite(),
            count == self@.len(),
    {
        proof {
            use_type_invariant(self);
            lemma_record_len(self.fields@);
        }
        self.fields.len()
    }
}

/// Where no key stands twice, the record holds as many keys as there are
/// fields.
pub proof fn lemma_record_len(fields: Seq<(String, serde_json::Value)>)
    requires
        keys_of(fields).no_duplicates(),
    ensures
        record_of(fields).dom().finite(),
        record_of(fields).len() == fields.len(),
    decreases fields.len(),
{
    if fields.len() > 0 {
        let shorter = fields.drop_last();
        let last = fields.len() - 1;
        assert forall|a: int, b: int|
            0 <= a < shorter.len() && 0 <= b < shorter.len() && a != b implies keys_of(shorter)[a]
            != keys_of(shorter)[b] by {
            assert(keys_of(fields)[a] != keys_of(fields)[b]);
        }
        lemma_record_len(shorter);
        lemma_record_keys(shorter, fields.last().0@);
        if keys_of(shorter).contains(fields.last().0@) {
            let i = choose|i: int| 0 <= i < shorter.len() && keys_of(shorter)[i] == fields.last().0@;
            assert(keys_of(fields)[i] == keys_of(fields)[last]);
        }
    }
}

} // verus!
