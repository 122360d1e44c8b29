//! What the `leaves` and `list` commands print: the task files of a tree,
//! and the operations that any of them offers.

use vstd::prelude::*;

use crate::leaf::{offers, Leaf, LeafView};
use crate::steps::texts;

verus! {

/// How a list is printed.
#[derive(Debug, Clone, Copy, PartialEq, Eq)]
pub enum PrintStyle {
    /// With a heading and a bullet before each entry.
    Pretty,
    /// One bare entry per line, for scripts.
    Porcelain,
}

/// The order of texts by which lists are sorted: by the first character in
/// which two texts differ, compared by code point, a text coming before
/// every longer text that starts with it.
pub open spec fn text_before(a: Seq<char>, b: Seq<char>) -> bool
    decreases a.len(),
{
    if b.len() == 0 {
        false
    } else if a.len() == 0 {
        true
    } else if a[0] == b[0] {
        text_before(a.skip(1), b.skip(1))
    } else {
        (a[0] as u32) < (b[0] as u32)
    }
}

/// Whether each text comes before all that follow it.
pub open spec fn ascending(names: Seq<Seq<char>>) -> bool {
    forall|i: int, j: int| 0 <= i < j < names.len() ==> text_before(names[i], names[j])
}

/// The views of a sequence of leaves.
pub open spec fn leaf_views(leaves: Seq<Leaf>) -> Seq<LeafView> {
    leaves.map_values(|leaf: Leaf| leaf@)
}

/// Whether at least one of the files offers the operation.
pub open spec fn offered_by_any(leaves: Seq<LeafView>, name: Seq<char>) -> bool {
    exists|i: int| 0 <= i < leaves.len() && offers((#[trigger] leaves[i]).custom, name)
}

/// Whether `names` lists the operations that at least one of the files
/// offers: all of them and nothing else, in ascending order, so each once.
pub open spec fn lists_operations(names: Seq<Seq<char>>, leaves: Seq<LeafView>) -> bool {
    &&& ascending(names)
    &&& forall|name: Seq<char>| #[trigger] names.contains(name) <==> offered_by_any(leaves, name)
}

/// The list of the operations that at least one of the files offers. There
/// is one such list and no other: see `lemma_ascending_unique`.
pub open spec fn operations_of(leaves: Seq<LeafView>) -> Seq<Seq<char>> {
    choose|names: Seq<Seq<char>>| lists_operations(names, leaves)
}

/// The lines of a list: the entries as they are, or a heading and then each
/// entry behind a bullet.
pub open spec fn rendered(
    style: PrintStyle,
    heading: Seq<char>,
    bullet: Seq<char>,
    entries: Seq<Seq<char>>,
) -> Seq<Seq<char>> {
    match style {
        PrintStyle::Porcelain => entries,
        PrintStyle::Pretty => seq![heading] + entries.map_values(|entry: Seq<char>| bullet + entry),
    }
}

/// The heading of the list of task files.
pub open spec fn leaves_heading() -> Seq<char> {
    "Considering leaves:"@
}

/// The bullet before a task file.
pub open spec fn leaves_bullet() -> Seq<char> {
    " *\t"@
}

/// The heading of the list of operations.
pub open spec fn operations_heading() -> Seq<char> {
    "Available commands are"@
}

/// The bullet before an operation.
pub open spec fn operations_bullet() -> Seq<char> {
    " * "@
}

/// No text comes before itself.
pub proof fn lemma_before_irreflexive(a: Seq<char>)
    ensures
        !text_before(a, a),
    decreases a.len(),
{
    if a.len() > 0 {
        lemma_before_irreflexive(a.skip(1));
    }
}

/// Of two different texts one comes before the other.
pub proof fn lemma_before_total(a: Seq<char>, b: Seq<char>)
    ensures
        a == b || text_before(a, b) || text_before(b, a),
    decreases a.len(),
{
    if a.len() > 0 && b.len() > 0 && a[0] == b[0] {
        lemma_before_total(a.skip(1), b.skip(1));
        if a.skip(1) == b.skip(1) {
            assert(a =~= seq![a[0]] + a.skip(1));
            assert(b =~= seq![b[0]] + b.skip(1));
        }
    } else if a.len() == 0 && b.len() == 0 {
        assert(a =~= b);
    } else if a.len() > 0 && b.len() > 0 {
        vstd::utf8::char_u32_cast(a[0], a[0] as u32);
        vstd::utf8::char_u32_cast(b[0], b[0] as u32);
    }
}

/// What comes before a text comes before all that the text comes before.
pub proof fn lemma_before_transitive(a: Seq<char>, b: Seq<char>, c: Seq<char>)
    requires
        text_before(a, b),
        text_before(b, c),
    ensures
        text_before(a, c),
    decreases a.len(),
{
    if a.len() > 0 && a[0] == b[0] && b[0] == c[0] {
        lemma_before_transitive(a.skip(1), b.skip(1), c.skip(1));
    }
}

/// Two ascending lists that hold the same texts are the same list.
pub proof fn lemma_ascending_unique(a: Seq<Seq<char>>, b: Seq<Seq<char>>)
    requires
        ascending(a),
        ascending(b),
        forall|name: Seq<char>| a.contains(name) <==> b.contains(name),
    ensures
        a == b,
    decreases a.len(),
{
    if a.len() == 0 {
        if b.len() > 0 {
            assert(b.contains(b[0]));
        }
        assert(a =~= b);
    } else if b.len() == 0 {
        assert(a.contains(a[0]));
    } else {
        assert(a.contains(a[0]));
        assert(b.contains(b[0]));
        let j = choose|j: int| 0 <= j < b.len() && b[j] == a[0];
        let i = choose|i: int| 0 <= i < a.len() && a[i] == b[0];
        lemma_before_irreflexive(a[0]);
        if j > 0 && i > 0 {
            lemma_before_transitive(a[0], a[i], a[0]);
        }
        assert(a[0] == b[0]);
        let rest_a = a.skip(1);
        let rest_b = b.skip(1);
        assert forall|name: Seq<char>| rest_a.contains(name) <==> rest_b.contains(name) by {
            lemma_before_irreflexive(name);
            if rest_a.contains(name) {
                let k = choose|k: int| 0 <= k < rest_a.len() && rest_a[k] == name;
                assert(a[k + 1] == name);
                assert(b.contains(name));
                let m = choose|m: int| 0 <= m < b.len() && b[m] == name;
                assert(m > 0);
                assert(rest_b[m - 1] == name);
            }
            if rest_b.contains(name) {
                let k = choose|k: int| 0 <= k < rest_b.len() && rest_b[k] == name;
                assert(b[k + 1] == name);
                assert(a.contains(name));
                let m = choose|m: int| 0 <= m < a.len() && a[m] == name;
                assert(m > 0);
                assert(rest_a[m - 1] == name);
            }
        }
        assert(ascending(rest_a)) by {
            assert forall|x: int, y: int| 0 <= x < y < rest_a.len() implies text_before(
                rest_a[x],
                rest_a[y],
            ) by {
                assert(text_before(a[x + 1], a[y + 1]));
            }
        }
        assert(ascending(rest_b)) by {
            assert forall|x: int, y: int| 0 <= x < y < rest_b.len() implies text_before(
                rest_b[x],
                rest_b[y],
            ) by {
                assert(text_before(b[x + 1], b[y + 1]));
            }
        }
        lemma_ascending_unique(rest_a, rest_b);
        assert(a =~= seq![a[0]] + rest_a);
        assert(b =~= seq![b[0]] + rest_b);
    }
}

/// Whether `a` comes before `b`.
pub fn comes_before(a: &String, b: &String) -> (before: bool)
    ensures
        before == text_before(a@, b@),
{
    let a_len = a.as_str().unicode_len();
    let b_len = b.as_str().unicode_len();
    let mut i: usize = 0;
    assert(a@.skip(0) =~= a@ && b@.skip(0) =~= b@);
    loop
        invariant
            i <= a_len == a@.len(),
            i <= b_len == b@.len(),
            text_before(a@, b@) == text_before(a@.skip(i as int), b@.skip(i as int)),
        decreases a_len - i,
    {
        if i == b_len {
            return false;
        }
        if i == a_len {
            return true;
        }
        let x = a.as_str().get_char(i);
        let y = b.as_str().get_char(i);
        proof {
            assert(a@.skip(i as int)[0] == x && b@.skip(i as int)[0] == y);
            assert(a@.skip(i as int).skip(1) =~= a@.skip(i + 1));
            assert(b@.skip(i as int).skip(1) =~= b@.skip(i + 1));
        }
        if x != y {
            return (x as u32) < (y as u32);
        }
        i += 1;
    }
}

/// Puts a name into an ascending list, at its place, unless it is there.
pub fn insert_name(names: &mut Vec<String>, name: String)
    requires
        ascending(texts(old(names)@)),
    ensures
        ascending(texts(final(names)@)),
        forall|other: Seq<char>| #[trigger]
            texts(final(names)@).contains(other) <==> texts(old(names)@).contains(other) || other
                == name@,
{
    let ghost before = texts(names@);
    let mut at: usize = 0;
    while at < names.len() && comes_before(&names[at], &name)
        invariant
            at <= names.len(),
            texts(names@) == before,
            forall|j: int| 0 <= j < at ==> text_before(#[trigger] before[j], name@),
        decreases names.len() - at,
    {
        at += 1;
    }
    if at < names.len() && names[at] == name {
        assert(before[at as int] == name@);
        return ;
    }
    names.insert(at, name);
    proof {
        let after = texts(names@);
        assert(after =~= before.insert(at as int, name@));
        if at < before.len() {
            lemma_before_total(before[at as int], name@);
        }
        assert forall|i: int, j: int| 0 <= i < j < after.len() implies text_before(
            after[i],
            after[j],
        ) by {
            if j < at {
                assert(after[i] == before[i] && after[j] == before[j]);
            } else if j == at {
                assert(after[i] == before[i]);
            } else if i == at {
                assert(after[j] == before[j - 1]);
                if j - 1 > at {
                    lemma_before_transitive(name@, before[at as int], before[j - 1]);
                }
            } else if i < at {
                assert(after[i] == before[i] && after[j] == before[j - 1]);
            } else {
                assert(after[i] == before[i - 1] && after[j] == before[j - 1]);
            }
        }
        assert forall|other: Seq<char>|
            after.contains(other) <==> before.contains(other) || other == name@ by {
            if before.contains(other) {
                let i = choose|i: int| 0 <= i < before.len() && before[i] == other;
                if i < at {
                    assert(after[i] == other);
                } else {
                    assert(after[i + 1] == other);
                }
            }
            if other == name@ {
                assert(after[at as int] == other);
            }
            if after.contains(other) {
                let i = choose|i: int| 0 <= i < after.len() && after[i] == other;
                if i < at {
                    assert(before[i] == other);
                } else if i > at {
                    assert(before[i - 1] == other);
                }
            }
        }
    }
}

/// The operations that at least one of the files offers, each once, in
/// ascending order.
pub fn all_operations(leaves: &Vec<Leaf>) -> (names: Vec<String>)
    ensures
        lists_operations(texts(names@), leaf_views(leaves@)),
        texts(names@) == operations_of(leaf_views(leaves@)),
{
    let mut names: Vec<String> = Vec::new();
    let mut i: usize = 0;
    while i < leaves.len()
        invariant
            i <= leaves.len(),
            ascending(texts(names@)),
            forall|name: Seq<char>| #[trigger]
                texts(names@).contains(name) <==> offered_by_any(
                    leaf_views(leaves@).take(i as int),
                    name,
                ),
        decreases leaves.len() - i,
    {
        let own = leaves[i].operations();
        let ghost start = texts(names@);
        let mut k: usize = 0;
        while k < own.len()
            invariant
                k <= own.len(),
                ascending(texts(names@)),
                forall|name: Seq<char>| #[trigger]
                    texts(names@).contains(name) <==> start.contains(name) || texts(own@).take(
                        k as int,
                    ).contains(name),
            decreases own.len() - k,
        {
            let ghost held = texts(names@);
            insert_name(&mut names, own[k].clone());
            proof {
                let seen = texts(own@).take(k as int);
                let more = texts(own@).take(k + 1);
                assert(more =~= seen.push(own[k as int]@));
                assert forall|name: Seq<char>|
                    texts(names@).contains(name) <==> start.contains(name) || more.contains(
                        name,
                    ) by {
                    assert(texts(names@).contains(name) <==> held.contains(name) || name
                        == own[k as int]@);
                    assert(held.contains(name) <==> start.contains(name) || seen.contains(name));
                    if seen.contains(name) {
                        let e = choose|e: int| 0 <= e < seen.len() && seen[e] == name;
                        assert(more[e] == name);
                    }
                    if name == own[k as int]@ {
                        assert(more[k as int] == name);
                    }
                    if more.contains(name) {
                        let e = choose|e: int| 0 <= e < more.len() && more[e] == name;
                        if e < k {
                            assert(seen[e] == name);
                        }
                    }
                }
            }
            k += 1;
        }
        proof {
            let views = leaf_views(leaves@);
            assert(texts(own@).take(k as int) =~= texts(own@));
            assert forall|name: Seq<char>|
                texts(names@).contains(name) <==> offered_by_any(views.take(i + 1), name) by {
                assert(texts(names@).contains(name) <==> start.contains(name) || texts(
                    own@,
                ).contains(name));
                assert(start.contains(name) <==> offered_by_any(views.take(i as int), name));
                assert(texts(own@).contains(name) <==> offers(leaves[i as int]@.custom, name));
                if offered_by_any(views.take(i as int), name) {
                    let e = choose|e: int|
                        0 <= e < i && offers((#[trigger] views.take(i as int)[e]).custom, name);
                    assert(views.take(i + 1)[e] == views.take(i as int)[e]);
                }
                if offers(leaves[i as int]@.custom, name) {
                    assert(views.take(i + 1)[i as int] == leaves[i as int]@);
                }
                if offered_by_any(views.take(i + 1), name) {
                    let e = choose|e: int|
                        0 <= e < i + 1 && offers((#[trigger] views.take(i + 1)[e]).custom, name);
                    if e < i {
                        assert(views.take(i as int)[e] == views.take(i + 1)[e]);
                    }
                }
            }
        }
        i += 1;
    }
    proof {
        let views = leaf_views(leaves@);
        assert(views.take(i as int) =~= views);
        assert(lists_operations(texts(names@), views));
        lemma_ascending_unique(texts(names@), operations_of(views));
    }
    names
}

/// The lines of a list of entries in a style.
pub fn render(style: PrintStyle, heading: &str, bullet: &str, entries: &Vec<String>) -> (lines: Vec<
    String,
>)
    ensures
        texts(lines@) == rendered(style, heading@, bullet@, texts(entries@)),
{
    let mut lines: Vec<String> = Vec::new();
    match style {
        PrintStyle::Pretty => {
            lines.push(heading.to_owned());
        },
        PrintStyle::Porcelain => {},
    }
    let ghost lead = texts(lines@);
    let mut i: usize = 0;
    while i < entries.len()
        invariant
            i <= entries.len(),
            lead.len() == (if style == PrintStyle::Pretty { 1nat } else { 0nat }),
            style == PrintStyle::Pretty ==> lead[0] == heading@,
            lines.len() == lead.len() + i,
            forall|k: int| 0 <= k < lead.len() ==> (#[trigger] lines[k])@ == lead[k],
            forall|k: int|
                lead.len() <= k < lines.len() ==> (#[trigger] lines[k])@ == (match style {
                    PrintStyle::Pretty => bullet@ + entries[k - lead.len()]@,
                    PrintStyle::Porcelain => entries[k - lead.len()]@,
                }),
        decreases entries.len() - i,
    {
        let line = match style {
            PrintStyle::Pretty => bullet.to_owned().concat(entries[i].as_str()),
            PrintStyle::Porcelain => entries[i].clone(),
        };
        lines.push(line);
        i += 1;
    }
    proof {
        let wanted = rendered(style, heading@, bullet@, texts(entries@));
        assert(texts(lines@).len() == wanted.len());
        assert forall|k: int| 0 <= k < wanted.len() implies texts(lines@)[k] == wanted[k] by {
            assert(texts(lines@)[k] == lines[k]@);
            if k >= lead.len() {
                assert(texts(entries@)[k - lead.len()] == entries[k - lead.len()]@);
            }
        }
        assert(texts(lines@) =~= wanted);
    }
    lines
}

/// The lines that list the task files: their locations, in their order.
pub fn list_of_leaves(leaves: &Vec<Leaf>, style: PrintStyle) -> (lines: Vec<String>)
    ensures
        texts(lines@) == rendered(
            style,
            leaves_heading(),
            leaves_bullet(),
            leaf_views(leaves@).map_values(|leaf: LeafView| leaf.path),
        ),
{
    let mut paths: Vec<String> = Vec::new();
    let mut i: usize = 0;
    while i < leaves.len()
        invariant
            i <= leaves.len(),
            paths.len() == i,
            forall|j: int| 0 <= j < i ==> (#[trigger] paths[j])@ == leaves[j]@.path,
        decreases leaves.len() - i,
    {
        paths.push(leaves[i].path());
        i += 1;
    }
    assert(texts(paths@) =~= leaf_views(leaves@).map_values(|leaf: LeafView| leaf.path));
    render(style, "Considering leaves:", " *\t", &paths)
}

/// The lines that list the operations that at least one of the files
/// offers: each once, in ascending order.
pub fn list_of_operations(leaves: &Vec<Leaf>, style: PrintStyle) -> (lines: Vec<String>)
    ensures
        texts(lines@) == rendered(
            style,
            operations_heading(),
            operations_bullet(),
            operations_of(leaf_views(leaves@)),
        ),
{
    let names = all_operations(leaves);
    render(style, "Available commands are", " * ", &names)
}

} // verus!
