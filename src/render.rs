//! Renders a schema as markdown: headings for containers, a one-level summary
//! table for each object's children, and sentinel text for absent metadata.
use vstd::prelude::*;

use crate::schema::{
    ArrayProperty, BooleanProperty, IntegerProperty, ObjectProperty, Property, PropertyMap,
    Reference, Schema, StringProperty,
};

verus! {

/// The text of each line, in order.
pub open spec fn lines_of(v: Seq<String>) -> Seq<Seq<char>> {
    v.map_values(|s: String| s@)
}

/// A run of `n` `#` characters.
pub open spec fn hashes(n: nat) -> Seq<char>
    decreases n,
{
    if n == 0 {
        Seq::empty()
    } else {
        hashes((n - 1) as nat) + "#"@
    }
}

/// The title if present, else `"No title"`.
pub open spec fn title_or_default(t: Option<String>) -> Seq<char> {
    match t {
        Some(s) => s@,
        None => "No title"@,
    }
}

/// `("#" * level) + " " + name + ": " + title`.
pub open spec fn heading(level: nat, name: Seq<char>, title: Option<String>) -> Seq<char> {
    hashes(level) + " "@ + name + ": "@ + title_or_default(title)
}

/// One line holding the text when it is present, no line otherwise.
pub open spec fn optional_line(t: Option<String>) -> Seq<Seq<char>> {
    match t {
        Some(s) => seq![s@],
        None => Seq::empty(),
    }
}

/// `|name|kind|description|`.
pub open spec fn table_row(name: Seq<char>, p: Property) -> Seq<char> {
    "|"@ + name + "|"@ + p.kind_name() + "|"@ + p.description_text() + "|"@
}

pub open spec fn table_rows(e: Seq<(String, Property)>) -> Seq<Seq<char>> {
    e.map_values(|en: (String, Property)| table_row(en.0@, en.1))
}

/// Header, separator, one row per entry in order, and a trailing blank line.
pub open spec fn table_lines(e: Seq<(String, Property)>) -> Seq<Seq<char>> {
    seq!["|Key|Type|Description|"@, "|-|-|-|"@] + table_rows(e) + seq![Seq::<char>::empty()]
}

pub open spec fn object_lines(name: Seq<char>, o: ObjectProperty, level: nat) -> Seq<Seq<char>> {
    seq![heading(level, name, o.title)] + optional_line(o.description) + match o.properties {
        Some(m) => table_lines(m@),
        None => Seq::empty(),
    }
}

/// Item schemas are not expanded: a fixed marker line stands in their place.
pub open spec fn array_lines(name: Seq<char>, a: ArrayProperty, level: nat) -> Seq<Seq<char>> {
    seq![heading(level, name, a.title), "To be implemented"@]
}

/// What one property renders to at heading depth `level`.
pub open spec fn property_lines(name: Seq<char>, p: Property, level: nat) -> Seq<Seq<char>> {
    match p {
        Property::Array(a) => array_lines(name, a, level),
        Property::Object(o) => object_lines(name, o, level),
        Property::String(s) => optional_line(s.title),
        Property::Integer(i) => optional_line(i.title),
        Property::Boolean(b) => optional_line(b.title),
        Property::Reference(r) => seq![r.reference@],
    }
}

/// The properties of `e` rendered one after another, in order.
pub open spec fn properties_lines(e: Seq<(String, Property)>, level: nat) -> Seq<Seq<char>>
    decreases e.len(),
{
    if e.len() == 0 {
        Seq::empty()
    } else {
        properties_lines(e.drop_last(), level) + property_lines(e.last().0@, e.last().1, level)
    }
}

/// The whole document: the title heading, then each property at level 2.
pub open spec fn document_lines(s: Schema) -> Seq<Seq<char>> {
    seq!["# "@ + s.title@] + properties_lines(s.properties@, 2)
}

/// Accumulates the lines of one document.
pub struct MarkdownWriter {
    content: Vec<String>,
}

impl View for MarkdownWriter {
    type V = Seq<Seq<char>>;

    closed spec fn view(&self) -> Seq<Seq<char>> {
        lines_of(self.content@)
    }
}

impl Default for MarkdownWriter {
    fn default() -> (w: Self)
        ensures
            w@ == Seq::<Seq<char>>::empty(),
    {
        let w = MarkdownWriter { content: Vec::new() };
        assert(w@ =~= Seq::<Seq<char>>::empty());
        w
    }
}

/// Renders `schema` into its lines.
pub fn render(schema: &Schema) -> (r: Vec<String>)
    ensures
        lines_of(r@) == document_lines(*schema),
{
    let w = MarkdownWriter::default();
    let r = w.write(schema);
    assert(lines_of(r@) =~= document_lines(*schema));
    r
}

fn heading_line(level: usize, name: &str, title: &Option<String>) -> (r: String)
    ensures
        r@ == heading(level as nat, name@, *title),
{
    let mut line = String::new();
    let mut i: usize = 0;
    while i < level
        invariant
            i <= level,
            line@ == hashes(i as nat),
        decreases level - i,
    {
        line.append("#");
        i = i + 1;
    }
    line.append(" ");
    line.append(name);
    line.append(": ");
    match title {
        Some(t) => line.append(t.as_str()),
        None => line.append("No title"),
    }
    line
}

impl MarkdownWriter {
    fn push_line(&mut self, line: String)
        ensures
            final(self)@ == old(self)@.push(line@),
    {
        self.content.push(line);
        assert(self@ =~= old(self)@.push(line@));
    }

    fn push_optional(&mut self, text: &Option<String>)
        ensures
            final(self)@ == old(self)@ + optional_line(*text),
    {
        match text {
            Some(t) => self.push_line(t.clone()),
            None => {},
        }
        assert(self@ =~= old(self)@ + optional_line(*text));
    }

    /// Appends the document for `schema` and hands back all lines written.
    pub fn write(self, schema: &Schema) -> (r: Vec<String>)
        ensures
            lines_of(r@) == self@ + document_lines(*schema),
    {
        let ghost start = self@;
        let mut w = self;
        let mut head = String::from_str("# ");
        head.append(schema.title.as_str());
        w.push_line(head);
        let entries = schema.properties.entries();
        let mut i: usize = 0;
        while i < entries.len()
            invariant
                i <= entries@.len(),
                entries@ == schema.properties@,
                w@ == start + seq!["# "@ + schema.title@] + properties_lines(
                    entries@.subrange(0, i as int),
                    2,
                ),
            decreases entries@.len() - i,
        {
            let (name, property) = &entries[i];
            w.write_property(name.as_str(), property, 2);
            assert(entries@.subrange(0, i + 1).drop_last() =~= entries@.subrange(0, i as int));
            i = i + 1;
        }
        assert(entries@.subrange(0, i as int) =~= entries@);
        assert(w@ =~= start + document_lines(*schema));
        w.content
    }

    /// Appends what `property`, named `name`, renders to at depth `level`.
    pub fn write_property(&mut self, name: &str, property: &Property, level: usize)
        ensures
            final(self)@ == old(self)@ + property_lines(name@, *property, level as nat),
    {
        match property {
            Property::Array(array) => self.write_array_property(name, array, level),
            Property::Object(object) => self.write_object_property(name, object, level),
            Property::String(string) => self.write_string_property(string),
            Property::Integer(integer) => self.write_integer_property(integer),
            Property::Boolean(boolean) => self.write_boolean_property(boolean),
            Property::Reference(reference) => self.write_reference(reference),
        }
    }

    pub fn write_array_property(&mut self, name: &str, property: &ArrayProperty, level: usize)
        ensures
            final(self)@ == old(self)@ + array_lines(name@, *property, level as nat),
    {
        self.push_line(heading_line(level, name, &property.title));
        self.push_line(String::from_str("To be implemented"));
        assert(self@ =~= old(self)@ + array_lines(name@, *property, level as nat));
    }

    pub fn write_object_property(&mut self, name: &str, property: &ObjectProperty, level: usize)
        ensures
            final(self)@ == old(self)@ + object_lines(name@, *property, level as nat),
    {
        self.push_line(heading_line(level, name, &property.title));
        self.push_optional(&property.description);
        match &property.properties {
            Some(properties) => self.write_properties_table(properties),
            None => {},
        }
        assert(self@ =~= old(self)@ + object_lines(name@, *property, level as nat));
    }

    /// Appends the one-level summary table of `properties`, in key order.
    pub fn write_properties_table(&mut self, properties: &PropertyMap)
        ensures
            final(self)@ == old(self)@ + table_lines(properties@),
    {
        self.push_line(String::from_str("|Key|Type|Description|"));
        self.push_line(String::from_str("|-|-|-|"));
        let entries = properties.entries();
        let mut i: usize = 0;
        while i < entries.len()
            invariant
                i <= entries@.len(),
                entries@ == properties@,
                self@ == old(self)@ + seq!["|Key|Type|Description|"@, "|-|-|-|"@] + table_rows(
                    entries@.subrange(0, i as int),
                ),
            decreases entries@.len() - i,
        {
            let (name, property) = &entries[i];
            let mut row = String::from_str("|");
            row.append(name.as_str());
            row.append("|");
            row.append(property.human_type());
            row.append("|");
            row.append(property.description());
            row.append("|");
            self.push_line(row);
            assert(table_rows(entries@.subrange(0, i + 1)) =~= table_rows(
                entries@.subrange(0, i as int),
            ).push(table_row(name@, *property)));
            i = i + 1;
        }
        assert(entries@.subrange(0, i as int) =~= entries@);
        self.push_line(String::new());
        assert(self@ =~= old(self)@ + table_lines(properties@));
    }

    pub fn write_string_property(&mut self, property: &StringProperty)
        ensures
            final(self)@ == old(self)@ + optional_line(property.title),
    {
        self.push_optional(&property.title);
    }

    pub fn write_integer_property(&mut self, property: &IntegerProperty)
        ensures
            final(self)@ == old(self)@ + optional_line(property.title),
    {
        self.push_optional(&property.title);
    }

    pub fn write_boolean_property(&mut self, property: &BooleanProperty)
        ensures
            final(self)@ == old(self)@ + optional_line(property.title),
    {
        self.push_optional(&property.title);
    }

    /// The raw reference string, unresolved.
    pub fn write_reference(&mut self, reference: &Reference)
        ensures
            final(self)@ == old(self)@.push(reference.reference@),
    {
        self.push_line(reference.reference.clone());
    }
}

} // verus!
