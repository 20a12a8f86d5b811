//! The typed property model: a closed set of property kinds, their optional
//! metadata, and a name-keyed table kept in ascending key order.
use vstd::prelude::*;

use crate::order::{lemma_lex_irreflexive, lemma_lex_total, lemma_lex_transitive, lex_less, lex_lt};

verus! {

/// Root document: a title and its named properties.
pub struct Schema {
    pub title: String,
    pub properties: PropertyMap,
}

/// One declared field: six kinds, five of them tagged and the reference untagged.
pub enum Property {
    Array(ArrayProperty),
    Object(ObjectProperty),
    String(StringProperty),
    Integer(IntegerProperty),
    Boolean(BooleanProperty),
    Reference(Reference),
}

/// A slot that may hold an inline property or a pointer to one.
pub enum PropertyOrReference {
    Property(Property),
    Reference(Reference),
}

/// An opaque pointer to a named definition; never resolved here.
pub struct Reference {
    pub reference: String,
}

/// A list; its item schema sits in `items`.
pub struct ArrayProperty {
    pub title: Option<String>,
    pub description: Option<String>,
    pub items: Box<PropertyOrReference>,
}

/// A record; its children, when declared, sit in `properties`.
pub struct ObjectProperty {
    pub title: Option<String>,
    pub description: Option<String>,
    pub properties: Option<PropertyMap>,
}

pub struct StringProperty {
    pub title: Option<String>,
    pub description: Option<String>,
    pub example: Option<String>,
}

pub struct IntegerProperty {
    pub title: Option<String>,
    pub description: Option<String>,
    pub example: Option<String>,
}

pub struct BooleanProperty {
    pub title: Option<String>,
    pub description: Option<String>,
    pub example: Option<String>,
}

/// The description if present, else the placeholder `"TODO"`.
pub open spec fn description_or_todo(d: Option<String>) -> Seq<char> {
    match d {
        Some(s) => s@,
        None => "TODO"@,
    }
}

impl Property {
    /// Canonical lowercase name of the property's kind.
    pub open spec fn kind_name(&self) -> Seq<char> {
        match self {
            Property::Array(_) => "array"@,
            Property::Object(_) => "object"@,
            Property::String(_) => "string"@,
            Property::Integer(_) => "integer"@,
            Property::Boolean(_) => "boolean"@,
            Property::Reference(_) => "reference"@,
        }
    }

    /// The property's own description; a reference has none.
    pub open spec fn description_field(&self) -> Option<String> {
        match self {
            Property::Array(p) => p.description,
            Property::Object(p) => p.description,
            Property::String(p) => p.description,
            Property::Integer(p) => p.description,
            Property::Boolean(p) => p.description,
            Property::Reference(_) => None,
        }
    }

    /// Description text shown for the property: its description, else `"TODO"`.
    pub open spec fn description_text(&self) -> Seq<char> {
        description_or_todo(self.description_field())
    }

    pub fn human_type(&self) -> (r: &str)
        ensures
            r@ == self.kind_name(),
    {
        match self {
            Property::Array(_) => "array",
            Property::Object(_) => "object",
            Property::String(_) => "string",
            Property::Integer(_) => "integer",
            Property::Boolean(_) => "boolean",
            Property::Reference(_) => "reference",
        }
    }

    pub fn description(&self) -> (r: &str)
        ensures
            r@ == self.description_text(),
    {
        let d = match self {
            Property::Array(p) => &p.description,
            Property::Object(p) => &p.description,
            Property::String(p) => &p.description,
            Property::Integer(p) => &p.description,
            Property::Boolean(p) => &p.description,
            Property::Reference(_) => return "TODO",
        };
        match d {
            Some(text) => text.as_str(),
            None => "TODO",
        }
    }
}

/// Keys of `e` are in strictly ascending lexicographic order, hence unique.
pub open spec fn keys_ascending(e: Seq<(String, Property)>) -> bool {
    forall|i: int, j: int| 0 <= i < j < e.len() ==> lex_lt(#[trigger] e[i].0@, #[trigger] e[j].0@)
}

/// `k` is one of the keys of `e`.
pub open spec fn has_key(e: Seq<(String, Property)>, k: Seq<char>) -> bool {
    exists|i: int| 0 <= i < e.len() && #[trigger] e[i].0@ == k
}

/// A mapping from property name to property, kept in ascending key order.
pub struct PropertyMap {
    entries: Vec<(String, Property)>,
}

impl View for PropertyMap {
    type V = Seq<(String, Property)>;

    closed spec fn view(&self) -> Seq<(String, Property)> {
        self.entries@
    }
}

impl PropertyMap {
    /// Every map the library hands out keeps its keys in ascending order.
    pub open spec fn wf(&self) -> bool {
        keys_ascending(self@)
    }

    pub fn new() -> (m: Self)
        ensures
            m@.len() == 0,
            m.wf(),
    {
        PropertyMap { entries: Vec::new() }
    }

    pub fn len(&self) -> (n: usize)
        ensures
            n == self@.len(),
    {
        self.entries.len()
    }

    /// The entries, in ascending key order.
    pub fn entries(&self) -> (r: &[(String, Property)])
        ensures
            r@ == self@,
    {
        self.entries.as_slice()
    }

    /// Gives up the entries, in ascending key order.
    pub fn into_entries(self) -> (r: Vec<(String, Property)>)
        ensures
            r@ == self@,
    {
        self.entries
    }

    /// Adds `name ↦ property`; an entry already under `name` is replaced.
    pub fn insert(&mut self, name: String, property: Property)
        requires
            old(self).wf(),
        ensures
            final(self).wf(),
            is_insertion(old(self)@, final(self)@, name@, property),
    {
        let n = self.entries.len();
        let mut p: usize = 0;
        while p < n && lex_less(self.entries[p].0.as_str(), name.as_str())
            invariant
                n == self.entries@.len(),
                self.entries@ == old(self).entries@,
                keys_ascending(self.entries@),
                p <= n,
                forall|i: int| 0 <= i < p ==> lex_lt(#[trigger] self.entries@[i].0@, name@),
            decreases n - p,
        {
            p = p + 1;
        }
        let ghost e = self.entries@;
        proof {
            if p < n {
                assert(e[p as int].0@.subrange(0, 0) =~= name@.subrange(0, 0));
                lemma_lex_total(e[p as int].0@, name@, 0);
            }
        }
        if p < n && self.entries[p].0 == name {
            let ghost entry = (name, property);
            self.entries.set(p, (name, property));
            proof {
                lemma_replaced(e, p as int, entry);
            }
        } else {
            let ghost entry = (name, property);
            self.entries.insert(p, (name, property));
            proof {
                lemma_inserted(e, p as int, entry);
            }
        }
    }
}

/// `after` is `before` with `name ↦ property` added, or put in place of the
/// entry already under `name`, keys kept ascending.
pub open spec fn is_insertion(
    before: Seq<(String, Property)>,
    after: Seq<(String, Property)>,
    name: Seq<char>,
    property: Property,
) -> bool {
    &&& keys_ascending(after)
    &&& has_key(before, name) ==> after.len() == before.len()
    &&& !has_key(before, name) ==> after.len() == before.len() + 1
    &&& has_key(after, name)
    &&& forall|i: int| 0 <= i < after.len() && #[trigger] after[i].0@ == name ==> after[i].1 == property
    &&& forall|i: int|
        0 <= i < after.len() && #[trigger] after[i].0@ != name ==> exists|j: int|
            0 <= j < before.len() && #[trigger] before[j] == after[i]
    &&& forall|j: int|
        0 <= j < before.len() && #[trigger] before[j].0@ != name ==> exists|i: int|
            0 <= i < after.len() && #[trigger] after[i] == before[j]
}

proof fn lemma_replaced(e: Seq<(String, Property)>, p: int, entry: (String, Property))
    requires
        keys_ascending(e),
        0 <= p < e.len(),
        e[p].0@ == entry.0@,
    ensures
        is_insertion(e, e.update(p, entry), entry.0@, entry.1),
{
    let name = entry.0@;
    let f = e.update(p, entry);
    assert forall|i: int, j: int| 0 <= i < j < f.len() implies lex_lt(
        #[trigger] f[i].0@,
        #[trigger] f[j].0@,
    ) by {
        assert(e[i].0@ == f[i].0@);
        assert(e[j].0@ == f[j].0@);
    }
    assert forall|i: int| 0 <= i < f.len() && #[trigger] f[i].0@ == name implies f[i].1
        == entry.1 by {
        if i != p {
            if i < p {
                assert(lex_lt(e[i].0@, e[p].0@));
            } else {
                assert(lex_lt(e[p].0@, e[i].0@));
            }
            lemma_lex_irreflexive(name, 0);
        }
    }
    assert(f[p].0@ == name);
    assert forall|i: int| 0 <= i < f.len() && #[trigger] f[i].0@ != name implies exists|j: int|
        0 <= j < e.len() && #[trigger] e[j] == f[i] by {
        assert(e[i] == f[i]);
    }
    assert forall|j: int| 0 <= j < e.len() && #[trigger] e[j].0@ != name implies exists|i: int|
        0 <= i < f.len() && #[trigger] f[i] == e[j] by {
        assert(e[j] == f[j]);
    }
    assert(has_key(e, name));
    assert(has_key(f, name));
}

proof fn lemma_inserted(e: Seq<(String, Property)>, p: int, entry: (String, Property))
    requires
        keys_ascending(e),
        0 <= p <= e.len(),
        forall|i: int| 0 <= i < p ==> lex_lt(#[trigger] e[i].0@, entry.0@),
        p < e.len() ==> lex_lt(entry.0@, e[p].0@),
    ensures
        is_insertion(e, e.insert(p, entry), entry.0@, entry.1),
{
    let name = entry.0@;
    let f = e.insert(p, entry);
    let n = e.len();
    assert forall|j: int| p <= j < n implies lex_lt(name, #[trigger] e[j].0@) by {
        if j > p {
            lemma_lex_transitive(name, e[p].0@, e[j].0@, 0);
        }
    }
    assert forall|i: int, j: int| 0 <= i < j < f.len() implies lex_lt(
        #[trigger] f[i].0@,
        #[trigger] f[j].0@,
    ) by {
        if j < p {
            assert(f[i] == e[i] && f[j] == e[j]);
        } else if j == p {
            assert(f[i] == e[i]);
        } else if i < p {
            assert(f[i] == e[i] && f[j] == e[j - 1]);
            assert(lex_lt(e[i].0@, e[j - 1].0@));
        } else if i == p {
            assert(f[j] == e[j - 1]);
        } else {
            assert(f[i] == e[i - 1] && f[j] == e[j - 1]);
        }
    }
    assert(!has_key(e, name)) by {
        if has_key(e, name) {
            let k = choose|k: int| 0 <= k < e.len() && #[trigger] e[k].0@ == name;
            lemma_lex_irreflexive(name, 0);
            if k < p {
                assert(lex_lt(e[k].0@, name));
            } else {
                assert(lex_lt(name, e[k].0@));
            }
        }
    }
    assert forall|i: int| 0 <= i < f.len() && #[trigger] f[i].0@ == name implies f[i].1
        == entry.1 by {
        if i < p {
            assert(f[i] == e[i]);
            lemma_lex_irreflexive(name, 0);
        } else if i > p {
            assert(f[i] == e[i - 1]);
            lemma_lex_irreflexive(name, 0);
        }
    }
    assert(f[p].0@ == name);
    assert forall|i: int| 0 <= i < f.len() && #[trigger] f[i].0@ != name implies exists|j: int|
        0 <= j < e.len() && #[trigger] e[j] == f[i] by {
        if i < p {
            assert(e[i] == f[i]);
        } else {
            assert(e[i - 1] == f[i]);
        }
    }
    assert forall|j: int| 0 <= j < e.len() && #[trigger] e[j].0@ != name implies exists|i: int|
        0 <= i < f.len() && #[trigger] f[i] == e[j] by {
        if j < p {
            assert(e[j] == f[j]);
        } else {
            assert(e[j] == f[j + 1]);
        }
    }
}

} // verus!
