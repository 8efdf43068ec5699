//! Types shared by the tokenizer and its callers.

use vstd::prelude::*;

verus! {

/// What can go wrong around the tokenizer: in reading, in decoding a file of
/// cases, in building a tree. Each kind carries the message.
#[derive(Debug)]
pub enum Error {
    General(String),
    IO(String),
    Json(String),
    TreeConstruction(String),
    Utf8Error(String),
}

/// One attribute of a start tag.
#[derive(Debug, PartialEq)]
pub struct Attribute {
    pub name: String,
    pub value: String,
}

impl View for Attribute {
    type V = (Seq<char>, Seq<char>);

    open spec fn view(&self) -> (Seq<char>, Seq<char>) {
        (self.name@, self.value@)
    }
}

/// No two entries of `s` share a name.
pub open spec fn unique_names(s: Seq<(Seq<char>, Seq<char>)>) -> bool {
    forall|i: int, j: int| 0 <= i < j < s.len() ==> (#[trigger] s[i]).0 != (#[trigger] s[j]).0
}

/// Some entry of `s` is called `name`.
pub open spec fn has_name(s: Seq<(Seq<char>, Seq<char>)>, name: Seq<char>) -> bool {
    exists|i: int| 0 <= i < s.len() && (#[trigger] s[i]).0 == name
}

/// The value of the first entry of `s` called `name`, if there is one.
pub open spec fn value_of(s: Seq<(Seq<char>, Seq<char>)>, name: Seq<char>) -> Option<Seq<char>>
    decreases s.len(),
{
    if s.len() == 0 {
        None
    } else if s[0].0 == name {
        Some(s[0].1)
    } else {
        value_of(s.drop_first(), name)
    }
}

/// `s` with `(name, value)` appended, unless `name` is already there: the first
/// value given to a name is the one that stays.
pub open spec fn with_attribute(
    s: Seq<(Seq<char>, Seq<char>)>,
    name: Seq<char>,
    value: Seq<char>,
) -> Seq<(Seq<char>, Seq<char>)> {
    if has_name(s, name) {
        s
    } else {
        s.push((name, value))
    }
}

/// Adding an attribute keeps the names unique.
pub proof fn lemma_with_attribute_unique(
    s: Seq<(Seq<char>, Seq<char>)>,
    name: Seq<char>,
    value: Seq<char>,
)
    requires
        unique_names(s),
    ensures
        unique_names(with_attribute(s, name, value)),
        has_name(with_attribute(s, name, value), name),
{
    let t = with_attribute(s, name, value);
    if !has_name(s, name) {
        assert(t[s.len() as int].0 == name);
        assert forall|i: int, j: int| 0 <= i < j < t.len() implies (#[trigger] t[i]).0 != (
        #[trigger] t[j]).0 by {
            if j == s.len() {
                assert(s[i].0 != name);
            } else {
                assert(s[i].0 != s[j].0);
            }
        }
    }
}

/// The two lists give the same values to the same names, whatever their
/// order: they are as long as each other, and each name of the first has in
/// the second the value that it has in the first.
pub open spec fn same_attributes(
    a: Seq<(Seq<char>, Seq<char>)>,
    b: Seq<(Seq<char>, Seq<char>)>,
) -> bool {
    &&& a.len() == b.len()
    &&& forall|i: int| 0 <= i < a.len() ==> value_of(b, (#[trigger] a[i]).0) == Some(a[i].1)
}

/// The attributes of a start tag: names with their values, in the order in
/// which they were first given, each name at most once.
#[derive(Debug, PartialEq)]
pub struct AttributeMap {
    entries: Vec<Attribute>,
}

impl View for AttributeMap {
    type V = Seq<(Seq<char>, Seq<char>)>;

    closed spec fn view(&self) -> Seq<(Seq<char>, Seq<char>)> {
        self.entries@.map_values(|a: Attribute| a@)
    }
}

impl AttributeMap {
    #[verifier::type_invariant]
    closed spec fn names_are_unique(self) -> bool {
        unique_names(self@)
    }

    /// A map without attributes.
    pub fn new() -> (m: AttributeMap)
        ensures
            m@ == Seq::<(Seq<char>, Seq<char>)>::empty(),
    {
        let m = AttributeMap { entries: Vec::new() };
        assert(m@ =~= Seq::<(Seq<char>, Seq<char>)>::empty());
        m
    }

    /// The number of attributes. Their names are always unique.
    pub fn len(&self) -> (n: usize)
        ensures
            n == self@.len(),
            unique_names(self@),
    {
        proof {
            use_type_invariant(self);
        }
        self.entries.len()
    }

    /// Whether the map holds no attribute.
    pub fn is_empty(&self) -> (b: bool)
        ensures
            b == (self@.len() == 0),
    {
        self.entries.len() == 0
    }

    /// The place of `name` among the entries.
    fn position(&self, name: &String) -> (r: Option<usize>)
        ensures
            match r {
                Some(i) => i < self@.len() && self@[i as int].0 == name@,
                None => !has_name(self@, name@),
            },
    {
        let mut i: usize = 0;
        while i < self.entries.len()
            invariant
                i <= self.entries.len(),
                forall|k: int| 0 <= k < i ==> (#[trigger] self@[k]).0 != name@,
            decreases self.entries.len() - i,
        {
            if self.entries[i].name == *name {
                return Some(i);
            }
            i += 1;
        }
        None
    }

    /// Whether an attribute has this name.
    pub fn contains_key(&self, name: &String) -> (b: bool)
        ensures
            b == has_name(self@, name@),
    {
        self.position(name).is_some()
    }

    /// The value of the attribute of this name.
    pub fn get(&self, name: &String) -> (r: Option<&String>)
        ensures
            match r {
                Some(v) => value_of(self@, name@) == Some(v@),
                None => value_of(self@, name@) is None,
            },
            r is Some <==> has_name(self@, name@),
    {
        match self.position(name) {
            Some(i) => {
                proof {
                    use_type_invariant(self);
                    lemma_value_of_at(self@, i as int);
                }
                Some(&self.entries[i].value)
            },
            None => {
                proof {
                    lemma_value_of_absent(self@, name@);
                }
                None
            },
        }
    }

    /// Adds `name` with `value` unless the name is already there. Says whether
    /// it was added.
    pub fn insert(&mut self, name: String, value: String) -> (added: bool)
        ensures
            added == !has_name(old(self)@, name@),
            final(self)@ == with_attribute(old(self)@, name@, value@),
    {
        proof {
            use_type_invariant(&*self);
        }
        if self.position(&name).is_some() {
            false
        } else {
            let ghost before = self@;
            let ghost n = name@;
            let ghost v = value@;
            let mut entries: Vec<Attribute> = Vec::new();
            assert(entries@.map_values(|a: Attribute| a@) =~= Seq::<
                (Seq<char>, Seq<char>),
            >::empty());
            std::mem::swap(&mut self.entries, &mut entries);
            entries.push(Attribute { name, value });
            proof {
                lemma_with_attribute_unique(before, n, v);
                assert(entries@.map_values(|a: Attribute| a@) =~= before.push((n, v)));
            }
            std::mem::swap(&mut self.entries, &mut entries);
            true
        }
    }

    /// Whether the two maps give the same values to the same names.
    pub fn same_as(&self, other: &AttributeMap) -> (b: bool)
        ensures
            b == same_attributes(self@, other@),
    {
        if self.entries.len() != other.entries.len() {
            return false;
        }
        let mut i: usize = 0;
        while i < self.entries.len()
            invariant
                i <= self.entries.len(),
                self@.len() == other@.len(),
                forall|k: int| 0 <= k < i ==> value_of(other@, (#[trigger] self@[k]).0) == Some(
                    self@[k].1,
                ),
            decreases self.entries.len() - i,
        {
            let same = match other.get(&self.entries[i].name) {
                Some(value) => *value == self.entries[i].value,
                None => false,
            };
            if !same {
                assert(value_of(other@, self@[i as int].0) != Some(self@[i as int].1));
                return false;
            }
            i += 1;
        }
        true
    }

    /// The entry at place `i`, name first.
    pub fn entry(&self, i: usize) -> (r: (&String, &String))
        requires
            i < self@.len(),
        ensures
            r.0@ == self@[i as int].0,
            r.1@ == self@[i as int].1,
    {
        (&self.entries[i].name, &self.entries[i].value)
    }
}

/// With unique names, the value found for the name at place `i` is the value at
/// place `i`.
pub proof fn lemma_value_of_at(s: Seq<(Seq<char>, Seq<char>)>, i: int)
    requires
        unique_names(s),
        0 <= i < s.len(),
    ensures
        value_of(s, s[i].0) == Some(s[i].1),
    decreases s.len(),
{
    if i != 0 {
        assert(s[0].0 != s[i].0);
        let t = s.drop_first();
        assert(t[i - 1] == s[i]);
        assert forall|a: int, b: int| 0 <= a < b < t.len() implies (#[trigger] t[a]).0 != (
        #[trigger] t[b]).0 by {
            assert(t[a] == s[a + 1] && t[b] == s[b + 1]);
        }
        lemma_value_of_at(t, i - 1);
    }
}

/// A name that no entry has is given no value.
pub proof fn lemma_value_of_absent(s: Seq<(Seq<char>, Seq<char>)>, name: Seq<char>)
    requires
        !has_name(s, name),
    ensures
        value_of(s, name) is None,
    decreases s.len(),
{
    if s.len() != 0 {
        assert(s[0].0 != name);
        let t = s.drop_first();
        assert forall|i: int| 0 <= i < t.len() implies (#[trigger] t[i]).0 != name by {
            assert(t[i] == s[i + 1]);
        }
        lemma_value_of_absent(t, name);
    }
}

} // verus!
