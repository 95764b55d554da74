use vstd::prelude::*;

verus! {

/// One typed value stored under a name in a tag compound.
///
/// Only the shapes that the scan inspects are distinguished: signed
/// 32-bit integers, nested compounds and lists of compounds.  Every
/// other stored shape (strings, arrays, and so on) is carried as
/// `Other`, which the typed accessors treat as a type mismatch.
pub enum TagValue {
    Int(i32),
    Compound(TagCompound),
    CompoundList(Vec<TagCompound>),
    Other,
}

/// One named entry of a tag compound; the name is kept as its bytes.
pub struct TagEntry {
    pub key: Vec<u8>,
    pub value: TagValue,
}

/// A decoded tag tree node: a sequence of named, typed entries.
pub struct TagCompound {
    pub entries: Vec<TagEntry>,
}

/// Why a typed lookup in a tag compound failed.
#[derive(Clone, Copy, Debug, PartialEq, Eq, Structural)]
pub enum TagError {
    /// No entry carries the requested name.
    NotFound,
    /// An entry carries the name, but not the requested shape.
    WrongType,
}

/// The value stored under `key`, going by the first entry that carries it.
pub open spec fn lookup_entries(entries: Seq<TagEntry>, key: Seq<u8>) -> Option<TagValue>
    decreases entries.len(),
{
    if entries.len() == 0 {
        None
    } else if entries[0].key@ == key {
        Some(entries[0].value)
    } else {
        lookup_entries(entries.drop_first(), key)
    }
}

/// Byte-for-byte equality of two names.
pub fn bytes_eq(a: &Vec<u8>, b: &Vec<u8>) -> (r: bool)
    ensures
        r == (a@ == b@),
{
    if a.len() != b.len() {
        assert(a@ != b@);
        return false;
    }
    let mut i: usize = 0;
    while i < a.len()
        invariant
            i <= a.len(),
            a@.len() == b@.len(),
            forall|j: int| 0 <= j < i ==> a@[j] == b@[j],
        decreases a.len() - i,
    {
        if a[i] != b[i] {
            return false;
        }
        i += 1;
    }
    assert(a@ =~= b@);
    true
}

impl TagCompound {
    /// The value stored under `key`, if any.
    pub open spec fn lookup(self, key: Seq<u8>) -> Option<TagValue> {
        lookup_entries(self.entries@, key)
    }

    /// The signed 32-bit integer stored under `key`.
    pub open spec fn spec_get_i32(self, key: Seq<u8>) -> Result<i32, TagError> {
        match self.lookup(key) {
            Option::None => Result::Err(TagError::NotFound),
            Option::Some(TagValue::Int(x)) => Result::Ok(x),
            Option::Some(_) => Result::Err(TagError::WrongType),
        }
    }

    /// The nested compound stored under `key`.
    pub open spec fn spec_get_compound(self, key: Seq<u8>) -> Result<TagCompound, TagError> {
        match self.lookup(key) {
            Option::None => Result::Err(TagError::NotFound),
            Option::Some(TagValue::Compound(c)) => Result::Ok(c),
            Option::Some(_) => Result::Err(TagError::WrongType),
        }
    }

    /// The list of compounds stored under `key`.
    pub open spec fn spec_get_compound_vec(self, key: Seq<u8>) -> Result<Seq<TagCompound>, TagError> {
        match self.lookup(key) {
            Option::None => Result::Err(TagError::NotFound),
            Option::Some(TagValue::CompoundList(l)) => Result::Ok(l@),
            Option::Some(_) => Result::Err(TagError::WrongType),
        }
    }

    /// A reference to the value stored under `key`, if any.
    pub fn get(&self, key: &Vec<u8>) -> (r: Option<&TagValue>)
        ensures
            match r {
                Option::Some(v) => self.lookup(key@) == Option::Some(*v),
                Option::None => self.lookup(key@) is None,
            },
    {
        let mut i: usize = 0;
        assert(self.entries@.skip(0) =~= self.entries@);
        while i < self.entries.len()
            invariant
                i <= self.entries@.len(),
                lookup_entries(self.entries@, key@) == lookup_entries(
                    self.entries@.skip(i as int),
                    key@,
                ),
            decreases self.entries@.len() - i,
        {
            let suffix = Ghost(self.entries@.skip(i as int));
            assert(suffix@[0] == self.entries@[i as int]);
            if bytes_eq(&self.entries[i].key, key) {
                return Option::Some(&self.entries[i].value);
            }
            assert(suffix@.drop_first() =~= self.entries@.skip(i + 1));
            i += 1;
        }
        assert(self.entries@.skip(i as int) =~= Seq::<TagEntry>::empty());
        Option::None
    }

    /// The signed 32-bit integer stored under `key`, as the tag tree
    /// reader's typed accessor hands it out.
    pub fn get_i32(&self, key: &Vec<u8>) -> (r: Result<i32, TagError>)
        ensures
            r == self.spec_get_i32(key@),
    {
        match self.get(key) {
            Option::Some(TagValue::Int(x)) => Result::Ok(*x),
            Option::Some(_) => Result::Err(TagError::WrongType),
            Option::None => Result::Err(TagError::NotFound),
        }
    }

    /// The nested compound stored under `key`.
    pub fn get_compound_tag(&self, key: &Vec<u8>) -> (r: Result<&TagCompound, TagError>)
        ensures
            match r {
                Result::Ok(c) => self.spec_get_compound(key@) == Result::<TagCompound, TagError>::Ok(*c),
                Result::Err(e) => self.spec_get_compound(key@) == Result::<TagCompound, TagError>::Err(e),
            },
    {
        match self.get(key) {
            Option::Some(TagValue::Compound(c)) => Result::Ok(c),
            Option::Some(_) => Result::Err(TagError::WrongType),
            Option::None => Result::Err(TagError::NotFound),
        }
    }

    /// The list of compounds stored under `key`.
    pub fn get_compound_tag_vec(&self, key: &Vec<u8>) -> (r: Result<&Vec<TagCompound>, TagError>)
        ensures
            match r {
                Result::Ok(l) => self.spec_get_compound_vec(key@) == Result::<Seq<TagCompound>, TagError>::Ok(l@),
                Result::Err(e) => self.spec_get_compound_vec(key@) == Result::<Seq<TagCompound>, TagError>::Err(e),
            },
    {
        match self.get(key) {
            Option::Some(TagValue::CompoundList(l)) => Result::Ok(l),
            Option::Some(_) => Result::Err(TagError::WrongType),
            Option::None => Result::Err(TagError::NotFound),
        }
    }
}

} // verus!
