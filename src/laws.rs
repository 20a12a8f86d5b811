//! Properties of the rendered document, stated over the model and proved.
use vstd::prelude::*;

use crate::order::{lemma_lex_irreflexive, lemma_lex_transitive, lex_lt};
use crate::render::{
    document_lines, hashes, heading, lines_of, properties_lines, property_lines, table_lines,
    table_row, table_rows,
};
use crate::schema::{keys_ascending, Property, PropertyMap, Schema};

verus! {

/// Rendering is deterministic: any two line sequences that `render` may hand
/// back for one schema are the same lines.
pub proof fn render_is_deterministic(s: Schema, r1: Seq<String>, r2: Seq<String>)
    requires
        lines_of(r1) == document_lines(s),
        lines_of(r2) == document_lines(s),
    ensures
        lines_of(r1) == lines_of(r2),
{
}

/// Within a summary table, row `i` describes the `i`-th entry of the map, and
/// the entries' keys are strictly ascending: the rows come in ascending key order.
pub proof fn table_rows_ascending(m: PropertyMap)
    requires
        m.wf(),
    ensures
        table_lines(m@).len() == m@.len() + 3,
        forall|i: int|
            0 <= i < m@.len() ==> #[trigger] table_lines(m@)[i + 2] == table_row(
                m@[i].0@,
                m@[i].1,
            ),
        forall|i: int, j: int|
            0 <= i < j < m@.len() ==> lex_lt(#[trigger] m@[i].0@, #[trigger] m@[j].0@),
{
    assert forall|i: int| 0 <= i < m@.len() implies #[trigger] table_lines(m@)[i + 2] == table_row(
        m@[i].0@,
        m@[i].1,
    ) by {
        assert(table_lines(m@)[i + 2] == table_rows(m@)[i]);
    }
}

/// `e` holds an entry with key `k` and property `p`.
pub open spec fn has_entry(e: Seq<(String, Property)>, k: Seq<char>, p: Property) -> bool {
    exists|i: int| 0 <= i < e.len() && #[trigger] e[i].0@ == k && e[i].1 == p
}

proof fn lemma_sorted_same_entries(e1: Seq<(String, Property)>, e2: Seq<(String, Property)>)
    requires
        keys_ascending(e1),
        keys_ascending(e2),
        forall|k: Seq<char>, p: Property| has_entry(e1, k, p) <==> has_entry(e2, k, p),
    ensures
        e1.len() == e2.len(),
        forall|i: int| 0 <= i < e1.len() ==> #[trigger] e1[i].0@ == e2[i].0@ && e1[i].1 == e2[i].1,
    decreases e1.len(),
{
    if e1.len() == 0 {
        if e2.len() > 0 {
            assert(has_entry(e2, e2[0].0@, e2[0].1));
        }
    } else {
        let n1 = e1.len() - 1;
        let k = e1[n1].0@;
        let p = e1[n1].1;
        assert(has_entry(e1, k, p));
        let j = choose|j: int| 0 <= j < e2.len() && #[trigger] e2[j].0@ == k && e2[j].1 == p;
        let n2 = e2.len() - 1;
        if j < n2 {
            assert(has_entry(e2, e2[n2].0@, e2[n2].1));
            let i = choose|i: int|
                0 <= i < e1.len() && #[trigger] e1[i].0@ == e2[n2].0@ && e1[i].1 == e2[n2].1;
            assert(lex_lt(k, e2[n2].0@));
            if i < n1 {
                assert(lex_lt(e1[i].0@, k));
                lemma_lex_transitive(k, e2[n2].0@, k, 0);
            }
            lemma_lex_irreflexive(k, 0);
        }
        let d1 = e1.drop_last();
        let d2 = e2.drop_last();
        assert forall|k2: Seq<char>, p2: Property| has_entry(d1, k2, p2) <==> has_entry(
            d2,
            k2,
            p2,
        ) by {
            if has_entry(d1, k2, p2) {
                let a = choose|a: int| 0 <= a < d1.len() && #[trigger] d1[a].0@ == k2 && d1[a].1 == p2;
                assert(has_entry(e1, k2, p2) && e1[a] == d1[a]);
                let b = choose|b: int|
                    0 <= b < e2.len() && #[trigger] e2[b].0@ == k2 && e2[b].1 == p2;
                if b == n2 {
                    assert(lex_lt(e1[a].0@, e1[n1].0@));
                    lemma_lex_irreflexive(k, 0);
                }
                assert(d2[b] == e2[b]);
            }
            if has_entry(d2, k2, p2) {
                let b = choose|b: int| 0 <= b < d2.len() && #[trigger] d2[b].0@ == k2 && d2[b].1 == p2;
                assert(has_entry(e2, k2, p2) && e2[b] == d2[b]);
                let a = choose|a: int|
                    0 <= a < e1.len() && #[trigger] e1[a].0@ == k2 && e1[a].1 == p2;
                if a == n1 {
                    assert(lex_lt(e2[b].0@, e2[n2].0@));
                    lemma_lex_irreflexive(k, 0);
                }
                assert(d1[a] == e1[a]);
            }
        }
        lemma_sorted_same_entries(d1, d2);
        assert forall|i: int| 0 <= i < e1.len() implies #[trigger] e1[i].0@ == e2[i].0@ && e1[i].1
            == e2[i].1 by {
            if i < n1 {
                assert(d1[i] == e1[i] && d2[i] == e2[i]);
            }
        }
    }
}

/// The summary table does not depend on the order in which entries were
/// inserted: two maps holding the same name-to-property entries render the
/// same table.
pub proof fn table_independent_of_insertion_order(m1: PropertyMap, m2: PropertyMap)
    requires
        m1.wf(),
        m2.wf(),
        forall|k: Seq<char>, p: Property| has_entry(m1@, k, p) <==> has_entry(m2@, k, p),
    ensures
        table_lines(m1@) == table_lines(m2@),
{
    lemma_sorted_same_entries(m1@, m2@);
    assert(table_rows(m1@) =~= table_rows(m2@));
}

/// Absent metadata is replaced by sentinel text: a missing description reads
/// `"TODO"` (in table rows too), and a container without a title is headed
/// `"No title"`.
pub proof fn sentinel_substitution(name: Seq<char>, p: Property, level: nat)
    ensures
        p.description_field() is None ==> p.description_text() == "TODO"@ && table_row(name, p)
            == "|"@ + name + "|"@ + p.kind_name() + "|"@ + "TODO"@ + "|"@,
        match p {
            Property::Array(a) => a.title is None ==> property_lines(name, p, level)[0]
                == hashes(level) + " "@ + name + ": "@ + "No title"@,
            Property::Object(o) => o.title is None ==> property_lines(name, p, level)[0]
                == hashes(level) + " "@ + name + ": "@ + "No title"@,
            _ => true,
        },
{
}

proof fn lemma_hashes(n: nat)
    ensures
        hashes(n).len() == n,
        forall|i: int| 0 <= i < n ==> #[trigger] hashes(n)[i] == '#',
    decreases n,
{
    reveal_strlit("#");
    if n > 0 {
        lemma_hashes((n - 1) as nat);
    }
}

/// A heading at depth `level` starts with exactly `level` `#` characters,
/// followed by a space.
pub proof fn heading_depth(level: nat, name: Seq<char>, title: Option<String>)
    ensures
        heading(level, name, title).len() > level,
        forall|i: int| 0 <= i < level ==> #[trigger] heading(level, name, title)[i] == '#',
        heading(level, name, title)[level as int] == ' ',
{
    lemma_hashes(level);
    reveal_strlit(" ");
}

proof fn lemma_properties_lines_contain(e: Seq<(String, Property)>, level: nat, i: int)
    requires
        0 <= i < e.len(),
    ensures
        exists|off: int|
            0 <= off && off + property_lines(e[i].0@, e[i].1, level).len() <= properties_lines(
                e,
                level,
            ).len() && #[trigger] properties_lines(e, level).subrange(
                off,
                off + property_lines(e[i].0@, e[i].1, level).len(),
            ) == property_lines(e[i].0@, e[i].1, level),
    decreases e.len(),
{
    let d = e.drop_last();
    let pl = property_lines(e[i].0@, e[i].1, level);
    let all = properties_lines(e, level);
    if i == e.len() - 1 {
        let off = properties_lines(d, level).len() as int;
        assert(all.subrange(off, off + pl.len()) =~= pl);
    } else {
        lemma_properties_lines_contain(d, level, i);
        assert(d[i] == e[i]);
        let off = choose|off: int|
            0 <= off && off + pl.len() <= properties_lines(d, level).len()
                && #[trigger] properties_lines(d, level).subrange(off, off + pl.len()) == pl;
        assert(all.subrange(off, off + pl.len()) =~= properties_lines(d, level).subrange(
            off,
            off + pl.len(),
        ));
    }
}

/// Each top-level object or array property of a schema is headed at depth 2:
/// its heading line, with exactly two `#` characters and a space, stands in
/// the document.
pub proof fn top_level_heading_depth(s: Schema, i: int)
    requires
        0 <= i < s.properties@.len(),
        s.properties@[i].1 is Array || s.properties@[i].1 is Object,
    ensures
        exists|k: int|
            0 <= k < document_lines(s).len() && #[trigger] document_lines(s)[k] == property_lines(
                s.properties@[i].0@,
                s.properties@[i].1,
                2,
            )[0],
        property_lines(s.properties@[i].0@, s.properties@[i].1, 2)[0].len() > 2,
        property_lines(s.properties@[i].0@, s.properties@[i].1, 2)[0][0] == '#',
        property_lines(s.properties@[i].0@, s.properties@[i].1, 2)[0][1] == '#',
        property_lines(s.properties@[i].0@, s.properties@[i].1, 2)[0][2] == ' ',
{
    let e = s.properties@;
    let pl = property_lines(e[i].0@, e[i].1, 2);
    lemma_properties_lines_contain(e, 2, i);
    let off = choose|off: int|
        0 <= off && off + pl.len() <= properties_lines(e, 2).len()
            && #[trigger] properties_lines(e, 2).subrange(off, off + pl.len()) == pl;
    match e[i].1 {
        Property::Array(a) => heading_depth(2, e[i].0@, a.title),
        Property::Object(o) => heading_depth(2, e[i].0@, o.title),
        _ => {},
    }
    assert(pl.len() >= 1);
    assert(properties_lines(e, 2)[off] == pl[0]);
    assert(document_lines(s)[off + 1] == properties_lines(e, 2)[off]);
}

} // verus!
