use schema_doc::{
    lex_less, render, ArrayProperty, BooleanProperty, IntegerProperty, MarkdownWriter,
    ObjectProperty, Property, PropertyMap, PropertyOrReference, Reference, Schema,
    StringProperty,
};

fn text(s: &str) -> Option<String> {
    Some(s.to_string())
}

fn string_prop(title: Option<String>, description: Option<String>) -> Property {
    Property::String(StringProperty { title, description, example: None })
}

fn reference(target: &str) -> Reference {
    Reference { reference: target.to_string() }
}

fn map_of(entries: Vec<(&str, Property)>) -> PropertyMap {
    let mut m = PropertyMap::new();
    for (name, p) in entries {
        m.insert(name.to_string(), p);
    }
    m
}

fn schema(title: &str, entries: Vec<(&str, Property)>) -> Schema {
    Schema { title: title.to_string(), properties: map_of(entries) }
}

fn object(title: Option<String>, description: Option<String>, children: Option<PropertyMap>) -> Property {
    Property::Object(ObjectProperty { title, description, properties: children })
}

fn array(title: Option<String>) -> Property {
    Property::Array(ArrayProperty {
        title,
        description: None,
        items: Box::new(PropertyOrReference::Property(string_prop(text("Item"), None))),
    })
}

#[test]
fn scalar_property_emits_its_title_only() {
    let s = schema("Pet", vec![("name", string_prop(text("Name"), None))]);
    assert_eq!(render(&s), vec!["# Pet", "Name"]);
}

#[test]
fn object_property_emits_heading_and_table() {
    let children = map_of(vec![("city", string_prop(text("City"), None))]);
    let s = schema("Pet", vec![("address", object(text("Address"), None, Some(children)))]);
    assert_eq!(
        render(&s),
        vec!["# Pet", "## address: Address", "|Key|Type|Description|", "|-|-|-|", "|city|string|TODO|", ""]
    );
}

#[test]
fn array_property_emits_marker_line() {
    let s = schema("Post", vec![("tags", array(text("Tags")))]);
    assert_eq!(render(&s), vec!["# Post", "## tags: Tags", "To be implemented"]);
}

#[test]
fn array_items_are_never_inspected() {
    let p = Property::Array(ArrayProperty {
        title: text("Tags"),
        description: text("ignored"),
        items: Box::new(PropertyOrReference::Reference(reference("#/$defs/Tag"))),
    });
    let s = schema("Post", vec![("tags", p)]);
    assert_eq!(render(&s), vec!["# Post", "## tags: Tags", "To be implemented"]);
}

#[test]
fn reference_child_row_shows_kind_and_placeholder() {
    let children = map_of(vec![("owner", Property::Reference(reference("#/$defs/Person")))]);
    let s = schema("Pet", vec![("info", object(text("Info"), None, Some(children)))]);
    let out = render(&s);
    assert_eq!(out[4], "|owner|reference|TODO|");
    assert!(!out.iter().any(|l| l.contains("Person")));
}

#[test]
fn standalone_reference_emits_target_verbatim() {
    let s = schema("Pet", vec![("owner", Property::Reference(reference("#/$defs/Person")))]);
    assert_eq!(render(&s), vec!["# Pet", "#/$defs/Person"]);
}

#[test]
fn render_twice_gives_identical_lines() {
    let children = map_of(vec![
        ("b", Property::Integer(IntegerProperty { title: None, description: text("count"), example: None })),
        ("a", string_prop(None, None)),
    ]);
    let s = schema("Doc", vec![("obj", object(None, text("An object"), Some(children))), ("arr", array(None))]);
    assert_eq!(render(&s), render(&s));
}

#[test]
fn table_rows_ascend_regardless_of_insertion_order() {
    let names = ["zeta", "alpha", "mid", "Alpha", "al"];
    let build = |order: &[usize]| {
        let mut m = PropertyMap::new();
        for &k in order {
            m.insert(names[k].to_string(), string_prop(None, text(names[k])));
        }
        let s = schema("T", vec![("o", object(text("O"), None, Some(m)))]);
        render(&s)
    };
    let first = build(&[0, 1, 2, 3, 4]);
    let second = build(&[4, 3, 2, 1, 0]);
    assert_eq!(first, second);
    assert_eq!(
        first[4..9].to_vec(),
        vec![
            "|Alpha|string|Alpha|",
            "|al|string|al|",
            "|alpha|string|alpha|",
            "|mid|string|mid|",
            "|zeta|string|zeta|"
        ]
    );
}

#[test]
fn top_level_properties_render_in_key_order() {
    let s = schema("T", vec![("b", string_prop(text("B"), None)), ("a", string_prop(text("A"), None))]);
    assert_eq!(render(&s), vec!["# T", "A", "B"]);
}

#[test]
fn insert_replaces_existing_key() {
    let mut m = PropertyMap::new();
    m.insert("k".to_string(), string_prop(text("first"), None));
    m.insert("j".to_string(), string_prop(None, None));
    m.insert("k".to_string(), Property::Boolean(BooleanProperty { title: None, description: text("second"), example: None }));
    assert_eq!(m.len(), 2);
    let e = m.entries();
    assert_eq!(e[0].0, "j");
    assert_eq!(e[1].0, "k");
    assert_eq!(e[1].1.human_type(), "boolean");
    assert_eq!(e[1].1.description(), "second");
}

#[test]
fn missing_titles_and_descriptions_use_sentinels() {
    let children = map_of(vec![("x", string_prop(text("X title"), None))]);
    let s = schema("S", vec![("o", object(None, None, Some(children))), ("p", array(None))]);
    assert_eq!(
        render(&s),
        vec!["# S", "## o: No title", "|Key|Type|Description|", "|-|-|-|", "|x|string|TODO|", "", "## p: No title", "To be implemented"]
    );
}

#[test]
fn table_row_uses_description_not_title() {
    let children = map_of(vec![("x", string_prop(text("Title"), text("Desc")))]);
    let s = schema("S", vec![("o", object(text("O"), text("About o"), Some(children)))]);
    assert_eq!(
        render(&s),
        vec!["# S", "## o: O", "About o", "|Key|Type|Description|", "|-|-|-|", "|x|string|Desc|", ""]
    );
}

#[test]
fn object_without_children_has_no_table() {
    let s = schema("S", vec![("o", object(text("O"), text("About o"), None))]);
    assert_eq!(render(&s), vec!["# S", "## o: O", "About o"]);
}

#[test]
fn object_with_empty_children_has_empty_table() {
    let s = schema("S", vec![("o", object(text("O"), None, Some(PropertyMap::new())))]);
    assert_eq!(render(&s), vec!["# S", "## o: O", "|Key|Type|Description|", "|-|-|-|", ""]);
}

#[test]
fn heading_depth_follows_level() {
    let mut w = MarkdownWriter::default();
    w.write_property("deep", &array(text("D")), 5);
    w.write_property("flat", &object(None, None, None), 0);
    let out = w.write(&schema("S", vec![]));
    assert_eq!(out, vec!["##### deep: D", "To be implemented", " flat: No title", "# S"]);
}

#[test]
fn scalar_without_title_emits_nothing() {
    let s = schema("S", vec![
        ("i", Property::Integer(IntegerProperty { title: None, description: text("d"), example: text("3") })),
        ("b", Property::Boolean(BooleanProperty { title: text("Flag"), description: None, example: None })),
    ]);
    assert_eq!(render(&s), vec!["# S", "Flag"]);
}

#[test]
fn kind_names_and_descriptions() {
    let cases = vec![
        (array(None), "array"),
        (object(None, None, None), "object"),
        (string_prop(None, None), "string"),
        (Property::Integer(IntegerProperty { title: None, description: None, example: None }), "integer"),
        (Property::Boolean(BooleanProperty { title: None, description: None, example: None }), "boolean"),
        (Property::Reference(reference("r")), "reference"),
    ];
    for (p, kind) in &cases {
        assert_eq!(p.human_type(), *kind);
        assert_eq!(p.description(), "TODO");
    }
    assert_eq!(object(None, text("obj desc"), None).description(), "obj desc");
}

#[test]
fn lexicographic_comparison() {
    assert!(lex_less("a", "b"));
    assert!(!lex_less("b", "a"));
    assert!(lex_less("ab", "abc"));
    assert!(!lex_less("abc", "ab"));
    assert!(!lex_less("same", "same"));
    assert!(lex_less("", "x"));
    assert!(!lex_less("", ""));
    assert!(lex_less("Z", "a"));
    assert!(lex_less("é", "ü"));
    assert!(lex_less("z", "é"));
}
