//! The `[warpify]` -> `[heddlify]` migration applied to the text of the settings file.
//!
//! The text is parsed with `toml_edit`, whose document keeps the user's comments, key
//! order and formatting. The migration is planned from the shape of the parsed file
//! (`key_migration::plan_migration`), carried out on the document item by item, and the
//! document is written back out as text. Each step is stated over what the document holds
//! (`toml_document_model`, `toml_item_model`), so the text that comes out is proved to hold
//! `migrated_root` of what went in.

use vstd::prelude::*;
use crate::key_migration::{
    entries_view, first_index, keys_distinct, lemma_lookup_at, lemma_lookup_push,
    lemma_lookup_set_key, lemma_migration_is_idempotent, lookup, merged, merged_entries,
    migrated_root, missing_paths, paths_view, plan_migration, remove_key, set_key, ssh_entries,
    ssh_step, with_ssh_key_renamed, MigrationPlan, ShapeModel, SshKeyStep, TableStep, TomlShape,
    NEW_SSH_KEY, NEW_TABLE, OLD_SSH_KEY, OLD_TABLE, SSH_TABLE,
};

verus! {

/// A parsed settings file.
#[verifier::external_type_specification]
#[verifier::external_body]
pub struct ExTomlDocument(toml_edit::DocumentMut);

/// An item of a parsed settings file: a table, a value, or an array of tables.
#[verifier::external_type_specification]
#[verifier::external_body]
pub struct ExTomlItem(toml_edit::Item);

/// The top-level entries of the settings text `text`, with the shape of each, when `text`
/// parses as TOML: what `toml_edit` makes of it.
pub uninterp spec fn toml_root_shape(text: Seq<char>) -> Option<Seq<(Seq<char>, ShapeModel)>>;

/// What an item holds. A table or an inline table holds its entries, in the table's own
/// order; a key that `toml_edit` holds a placeholder for (an empty item, which lookups and
/// iteration skip) shows as a value with empty text. Anything else is a value: its TOML
/// text without the spaces and comment around it.
pub uninterp spec fn toml_item_model(item: toml_edit::Item) -> ShapeModel;

/// What a document holds: the entries of its root table, as `toml_item_model` shows a
/// table.
pub uninterp spec fn toml_document_model(doc: toml_edit::DocumentMut) -> Seq<(Seq<char>, ShapeModel)>;

/// Whether every value below `s` has text: no placeholder is left anywhere in it. Text
/// that `toml_edit` parsed has none, and every TOML value is written with at least one
/// character.
pub open spec fn shape_complete(s: ShapeModel) -> bool
    decreases s,
{
    match s {
        ShapeModel::Value(t) => t.len() > 0,
        ShapeModel::Table(e) => table_complete(e),
    }
}

/// Whether no placeholder is left below any of the entries `e`.
pub open spec fn table_complete(e: Seq<(Seq<char>, ShapeModel)>) -> bool
    decreases e,
{
    if e.len() == 0 {
        true
    } else {
        table_complete(e.drop_last()) && shape_complete(e.last().1)
    }
}

/// Whether every entry of `e` is complete.
pub open spec fn entries_complete(e: Seq<(Seq<char>, ShapeModel)>) -> bool {
    forall|i: int| 0 <= i < e.len() ==> #[trigger] shape_complete(e[i].1)
}

/// A table is complete when each of its entries is.
proof fn lemma_complete_table(e: Seq<(Seq<char>, ShapeModel)>)
    ensures
        shape_complete(ShapeModel::Table(e)) == entries_complete(e),
    decreases e.len(),
{
    if e.len() > 0 {
        let p = e.drop_last();
        lemma_complete_table(p);
        assert(shape_complete(ShapeModel::Table(e)) == (table_complete(p) && shape_complete(
            e.last().1,
        )));
        if entries_complete(e) {
            assert forall|i: int| 0 <= i < p.len() implies #[trigger] shape_complete(p[i].1) by {
                assert(p[i] == e[i]);
            }
            assert(shape_complete(e[e.len() - 1].1));
        }
        if table_complete(p) && shape_complete(e.last().1) {
            assert forall|i: int| 0 <= i < e.len() implies #[trigger] shape_complete(e[i].1) by {
                if i < p.len() {
                    assert(p[i] == e[i]);
                }
            }
        }
    }
}

/// What is found at a key path: a table, or a value with its text.
pub enum TomlNode {
    Table,
    Leaf(Seq<char>),
}

/// What the key path `p` leads to from the entries `e`, if anything.
pub open spec fn node_at(e: Seq<(Seq<char>, ShapeModel)>, p: Seq<Seq<char>>) -> Option<TomlNode>
    decreases p.len(),
{
    if p.len() == 0 {
        Some(TomlNode::Table)
    } else {
        match lookup(e, p[0]) {
            None => None,
            Some(ShapeModel::Value(t)) => if p.len() == 1 {
                Some(TomlNode::Leaf(t))
            } else {
                None
            },
            Some(ShapeModel::Table(c)) => node_at(c, p.drop_first()),
        }
    }
}

/// Whether a key path leads to a value.
pub open spec fn is_leaf(n: Option<TomlNode>) -> bool {
    n matches Some(TomlNode::Leaf(_))
}

/// Whether no table below `s` holds one key twice, as in any TOML document.
pub open spec fn shape_distinct(s: ShapeModel) -> bool
    decreases s,
{
    match s {
        ShapeModel::Value(_) => true,
        ShapeModel::Table(e) => keys_distinct(e) && table_distinct(e),
    }
}

/// Whether no table below any of the entries `e` holds one key twice.
pub open spec fn table_distinct(e: Seq<(Seq<char>, ShapeModel)>) -> bool
    decreases e,
{
    if e.len() == 0 {
        true
    } else {
        table_distinct(e.drop_last()) && shape_distinct(e.last().1)
    }
}

/// Whether the entries `read`, parsed back from the text a document with entries `written`
/// was written out as, agree with them: whatever `read` has at a key path, `written` has
/// the same there, and every value of `written` is in `read` at its path with its text.
/// Order is not compared: tables are written in the order of their place in the file.
/// Nor are tables that hold nothing and had no header of their own, which leave no text.
pub open spec fn written_back(
    read: Seq<(Seq<char>, ShapeModel)>,
    written: Seq<(Seq<char>, ShapeModel)>,
) -> bool {
    &&& forall|p: Seq<Seq<char>>| #[trigger] node_at(read, p) is Some ==> node_at(read, p) == node_at(written, p)
    &&& forall|p: Seq<Seq<char>>| #[trigger] node_at(written, p) matches Some(TomlNode::Leaf(_)) ==> node_at(read, p) == node_at(written, p)
}

/// The shape of a parsed item: its entries, in document order, when it is a table or an
/// inline table, and the shape of each of them; otherwise its text without the spaces and
/// comment around it. Converts the result of `parse_toml_root_shape`; a tree cannot be
/// converted within one body.
#[verifier::external_body]
fn toml_item_shape(item: &toml_edit::Item) -> TomlShape {
    match item.as_table_like() {
        Some(t) => TomlShape::Table(t.iter().map(|(k, v)| (k.to_owned(), toml_item_shape(v))).collect()),
        None => TomlShape::Value(match item {
            toml_edit::Item::Value(v) => v.clone().decorated("", "").to_string(),
            other => other.to_string(),
        }),
    }
}

/// Parses `text` with `toml_edit` (`DocumentMut::from_str`) and reads the shape of its
/// top-level entries.
///
/// Trusted: the result is named `toml_root_shape`; it is `None` exactly when `toml_edit`
/// refuses the text. A parsed table has no two entries with one key (it is an `IndexMap`)
/// and holds no placeholder; nor does any table below it.
#[verifier::external_body]
fn parse_toml_root_shape(text: &str) -> (r: Option<Vec<(String, TomlShape)>>)
    ensures
        r is Some <==> toml_root_shape(text@) is Some,
        r matches Some(v) ==> entries_view(v@) == toml_root_shape(text@)->0,
        r matches Some(v) ==> shape_distinct(ShapeModel::Table(entries_view(v@))) && entries_complete(
            entries_view(v@),
        ),
{
    let doc = text.parse::<toml_edit::DocumentMut>().ok()?;
    Some(doc.as_table().iter().map(|(k, v)| (k.to_owned(), toml_item_shape(v))).collect())
}

/// Parses `text` with `toml_edit` (`DocumentMut::from_str`).
///
/// Trusted: it succeeds exactly when the shape of `text` can be read, and the document
/// holds that shape, since both parse the same text with the same function.
#[verifier::external_body]
fn parse_toml_document(text: &str) -> (r: Option<toml_edit::DocumentMut>)
    ensures
        r is Some <==> toml_root_shape(text@) is Some,
        r matches Some(d) ==> toml_document_model(d) == toml_root_shape(text@)->0,
{
    text.parse::<toml_edit::DocumentMut>().ok()
}

/// The root table of a document, as an item (`DocumentMut::as_item_mut`).
///
/// Trusted: the root item is the table the document holds, and while it stays a table the
/// document holds what it holds.
#[verifier::external_body]
fn document_root(doc: &mut toml_edit::DocumentMut) -> (r: &mut toml_edit::Item)
    ensures
        toml_item_model(*r) == ShapeModel::Table(toml_document_model(*old(doc))),
        toml_item_model(*final(r)) matches ShapeModel::Table(e) ==> toml_document_model(
            *final(doc),
        ) == e,
{
    doc.as_item_mut()
}

/// The text of a document (`DocumentMut`'s `Display`).
///
/// Trusted: `toml_edit` writes a document out with its keys, tables and values, which is
/// what it is for ("parse and modify toml documents, while preserving comments, spaces and
/// relative order"), so the text parses back to the same entries. Order is not promised:
/// tables are written by their place in the file, and dotted keys may move. A table that
/// holds nothing and had no header of its own is not written. A placeholder is not
/// written either, so none may be left.
#[verifier::external_body]
fn render_document(doc: &toml_edit::DocumentMut) -> (r: String)
    requires
        entries_complete(toml_document_model(*doc)),
    ensures
        toml_root_shape(r@) is Some,
        written_back(toml_root_shape(r@)->0, toml_document_model(*doc)),
{
    doc.to_string()
}

/// Whether `item` is a table or an inline table (`Item::is_table_like`).
#[verifier::external_body]
fn item_is_table(item: &toml_edit::Item) -> (r: bool)
    ensures
        r == toml_item_model(*item) is Table,
{
    item.is_table_like()
}

/// The keys of the table `item`, in order (`TableLike::iter`).
///
/// Trusted: iteration yields every entry but placeholders, so with none it yields every
/// key; a table never holds one key twice.
#[verifier::external_body]
fn item_keys(item: &toml_edit::Item) -> (r: Vec<String>)
    requires
        toml_item_model(*item) is Table,
        shape_complete(toml_item_model(*item)),
    ensures
        r@.len() == toml_item_model(*item)->Table_0.len(),
        forall|i: int| 0 <= i < r@.len() ==> #[trigger] r@[i]@ == toml_item_model(*item)->Table_0[i].0,
        forall|i: int, j: int| 0 <= i < j < r@.len() ==> #[trigger] r@[i]@ != #[trigger] r@[j]@,
{
    match item.as_table_like() {
        Some(t) => t.iter().map(|(k, _)| k.to_owned()).collect(),
        None => Vec::new(),
    }
}

/// The item under `key` in `item`, when `item` is a table holding one (`Item::get`).
///
/// Trusted: a lookup skips placeholders only, so with none it finds exactly the entry.
#[verifier::external_body]
fn item_get<'a>(item: &'a toml_edit::Item, key: &str) -> (r: Option<&'a toml_edit::Item>)
    requires
        shape_complete(toml_item_model(*item)),
    ensures
        match toml_item_model(*item) {
            ShapeModel::Table(e) => match lookup(e, key@) {
                None => r is None,
                Some(x) => r matches Some(c) && toml_item_model(*c) == x,
            },
            ShapeModel::Value(_) => r is None,
        },
{
    item.get(key)
}

/// The item under `key` in the table `item`, mutably (`Item::get_mut`): what is done to it
/// is done to that entry of the table, in its place.
#[verifier::external_body]
fn item_child_mut<'a>(item: &'a mut toml_edit::Item, key: &str) -> (r: &'a mut toml_edit::Item)
    requires
        toml_item_model(*old(item)) matches ShapeModel::Table(e) && lookup(e, key@) is Some,
    ensures
        toml_item_model(*r) == lookup(toml_item_model(*old(item))->Table_0, key@)->0,
        toml_item_model(*final(item)) == ShapeModel::Table(
            set_key(toml_item_model(*old(item))->Table_0, key@, toml_item_model(*final(r))),
        ),
{
    item.get_mut(key).expect("the key is present")
}

/// Removes `key` from the table `item` (`TableLike::remove`): the entry goes, the others
/// keep their order.
#[verifier::external_body]
fn item_remove(item: &mut toml_edit::Item, key: &str) -> (r: Option<toml_edit::Item>)
    requires
        toml_item_model(*old(item)) is Table,
        shape_complete(toml_item_model(*old(item))),
    ensures
        match lookup(toml_item_model(*old(item))->Table_0, key@) {
            None => r is None && toml_item_model(*final(item)) == toml_item_model(*old(item)),
            Some(x) => r matches Some(v) && toml_item_model(v) == x && toml_item_model(
                *final(item),
            ) == ShapeModel::Table(remove_key(toml_item_model(*old(item))->Table_0, key@)),
        },
{
    item.as_table_like_mut().and_then(|t| t.remove(key))
}

/// Stores `value` under `key` in the table `item` (`TableLike::insert`): a new key goes
/// last, an existing one keeps its place.
#[verifier::external_body]
fn item_insert(item: &mut toml_edit::Item, key: &str, value: toml_edit::Item)
    requires
        toml_item_model(*old(item)) is Table,
        shape_complete(toml_item_model(*old(item))),
        shape_complete(toml_item_model(value)),
    ensures
        toml_item_model(*final(item)) == ShapeModel::Table(
            if lookup(toml_item_model(*old(item))->Table_0, key@) is Some {
                set_key(toml_item_model(*old(item))->Table_0, key@, toml_item_model(value))
            } else {
                toml_item_model(*old(item))->Table_0.push((key@, toml_item_model(value)))
            },
        ),
{
    if let Some(t) = item.as_table_like_mut() {
        t.insert(key, value);
    }
}

/// A copy of `item` (`Item::clone`).
#[verifier::external_body]
fn item_clone(item: &toml_edit::Item) -> (r: toml_edit::Item)
    ensures
        toml_item_model(r) == toml_item_model(*item),
{
    item.clone()
}

/// Removing an entry leaves no placeholder behind.
proof fn lemma_complete_remove(e: Seq<(Seq<char>, ShapeModel)>, k: Seq<char>)
    requires
        entries_complete(e),
    ensures
        entries_complete(remove_key(e, k)),
    decreases e.len(),
{
    if e.len() > 0 {
        let t = e.drop_first();
        assert forall|i: int| 0 <= i < t.len() implies #[trigger] shape_complete(t[i].1) by {
            assert(t[i] == e[i + 1]);
        }
        if e[0].0 != k {
            lemma_complete_remove(t, k);
            let r = remove_key(t, k);
            assert(remove_key(e, k) == seq![e[0]] + r);
            assert forall|i: int| 0 <= i < remove_key(e, k).len() implies #[trigger] shape_complete(
                remove_key(e, k)[i].1,
            ) by {
                if i > 0 {
                    assert(remove_key(e, k)[i] == r[i - 1]);
                }
            }
        }
    }
}

/// Replacing an entry's item by one without placeholders leaves none.
proof fn lemma_complete_set(e: Seq<(Seq<char>, ShapeModel)>, k: Seq<char>, v: ShapeModel)
    requires
        entries_complete(e),
        shape_complete(v),
    ensures
        entries_complete(set_key(e, k, v)),
    decreases e.len(),
{
    if e.len() > 0 {
        let t = e.drop_first();
        assert forall|i: int| 0 <= i < t.len() implies #[trigger] shape_complete(t[i].1) by {
            assert(t[i] == e[i + 1]);
        }
        let x = set_key(e, k, v);
        if e[0].0 == k {
            assert(x == seq![(k, v)] + t);
            assert forall|i: int| 0 <= i < x.len() implies #[trigger] shape_complete(x[i].1) by {
                if i > 0 {
                    assert(x[i] == t[i - 1]);
                }
            }
        } else {
            lemma_complete_set(t, k, v);
            let r = set_key(t, k, v);
            assert(x == seq![e[0]] + r);
            assert forall|i: int| 0 <= i < x.len() implies #[trigger] shape_complete(x[i].1) by {
                if i > 0 {
                    assert(x[i] == r[i - 1]);
                }
            }
        }
    }
}

/// Appending an item without placeholders leaves none.
proof fn lemma_complete_push(e: Seq<(Seq<char>, ShapeModel)>, k: Seq<char>, v: ShapeModel)
    requires
        entries_complete(e),
        shape_complete(v),
    ensures
        entries_complete(e.push((k, v))),
{
    let x = e.push((k, v));
    assert forall|i: int| 0 <= i < x.len() implies #[trigger] shape_complete(x[i].1) by {
        if i < e.len() {
            assert(x[i] == e[i]);
        }
    }
}

/// What a lookup finds below complete entries is complete.
proof fn lemma_complete_lookup(e: Seq<(Seq<char>, ShapeModel)>, k: Seq<char>)
    requires
        entries_complete(e),
    ensures
        lookup(e, k) matches Some(x) ==> shape_complete(x),
    decreases e.len(),
{
    if e.len() > 0 {
        let t = e.drop_first();
        assert(shape_complete(e[0].1));
        assert forall|i: int| 0 <= i < t.len() implies #[trigger] shape_complete(t[i].1) by {
            assert(t[i] == e[i + 1]);
        }
        lemma_complete_lookup(t, k);
    }
}

/// Storing what a key already holds changes nothing.
proof fn lemma_set_key_same(e: Seq<(Seq<char>, ShapeModel)>, k: Seq<char>)
    requires
        lookup(e, k) is Some,
    ensures
        set_key(e, k, lookup(e, k)->0) == e,
    decreases e.len(),
{
    let t = e.drop_first();
    if e[0].0 == k {
        assert(seq![(k, e[0].1)] + t =~= e);
    } else {
        lemma_set_key_same(t, k);
        assert(seq![e[0]] + t =~= e);
    }
}

/// Merges the table `from` into the table `target`, key by key in order: a key `target`
/// lacks is added with a copy of `from`'s item; where both hold a table, the two are
/// merged below it; otherwise `target` keeps its own item.
fn merge_missing(target: &mut toml_edit::Item, from: &toml_edit::Item)
    requires
        toml_item_model(*old(target)) is Table,
        toml_item_model(*from) is Table,
        shape_complete(toml_item_model(*old(target))),
        shape_complete(toml_item_model(*from)),
    ensures
        toml_item_model(*final(target)) == merged(toml_item_model(*old(target)), toml_item_model(*from)),
        shape_complete(toml_item_model(*final(target))),
    decreases toml_item_model(*from),
{
    let ghost t = toml_item_model(*target)->Table_0;
    let ghost o = toml_item_model(*from)->Table_0;
    let keys = item_keys(from);
    assert forall|a: int, b: int| 0 <= a < b < o.len() implies #[trigger] o[a].0 != #[trigger] o[b].0 by {
        assert(keys@[a]@ != keys@[b]@);
    }
    let mut i: usize = 0;
    assert(o.take(0) =~= Seq::<(Seq<char>, ShapeModel)>::empty());
    while i < keys.len()
        invariant
            keys@.len() == o.len(),
            forall|j: int| 0 <= j < keys@.len() ==> #[trigger] keys@[j]@ == o[j].0,
            keys_distinct(o),
            i <= keys@.len(),
            toml_item_model(*from) == ShapeModel::Table(o),
            shape_complete(toml_item_model(*from)),
            toml_item_model(*target) == ShapeModel::Table(merged_entries(t, o.take(i as int))),
            shape_complete(toml_item_model(*target)),
        decreases keys@.len() - i,
    {
        let key = keys[i].as_str();
        let ghost cur = merged_entries(t, o.take(i as int));
        let ghost k = o[i as int].0;
        proof {
            lemma_complete_table(o);
            lemma_complete_table(cur);
            assert(first_index(o, k, i as int));
            lemma_lookup_at(o, k, i as int);
            assert(shape_complete(o[i as int].1));
            lemma_complete_lookup(cur, k);
            assert(o.take(i + 1).drop_last() =~= o.take(i as int));
            assert(o.take(i + 1).last() == o[i as int]);
        }
        if let Some(source) = item_get(from, key) {
            let present = match item_get(target, key) {
                None => None,
                Some(existing) => Some(item_is_table(existing)),
            };
            match present {
                None => {
                    let copy = item_clone(source);
                    item_insert(target, key, copy);
                    proof {
                        lemma_complete_push(cur, k, o[i as int].1);
                        lemma_complete_table(cur.push((k, o[i as int].1)));
                    }
                },
                Some(true) => {
                    if item_is_table(source) {
                        let child = item_child_mut(target, key);
                        assert(decreases_to!(toml_item_model(*from) => toml_item_model(*source))) by {
                            assert(decreases_to!(ShapeModel::Table(o) => o));
                            assert(decreases_to!(o => o[i as int]));
                            assert(decreases_to!(o[i as int] => o[i as int].1));
                        }
                        merge_missing(child, source);
                        proof {
                            lemma_complete_set(cur, k, toml_item_model(*child));
                            lemma_complete_table(set_key(cur, k, toml_item_model(*child)));
                        }
                    }
                },
                Some(false) => {},
            }
        }
        i = i + 1;
    }
    assert(o.take(o.len() as int) =~= o);
}

/// Carries out `plan` on the document: the old table is taken out, its key renamed as the
/// plan says, and then either stored as the new table or merged into it.
fn apply_plan(doc: &mut toml_edit::DocumentMut, plan: &MigrationPlan)
    requires
        plans(toml_document_model(*old(doc)), *plan),
        entries_complete(toml_document_model(*old(doc))),
    ensures
        toml_document_model(*final(doc)) == migrated_root(toml_document_model(*old(doc))),
        entries_complete(toml_document_model(*final(doc))),
{
    let ghost m = toml_document_model(*doc);
    let ghost old_model = lookup(m, OLD_TABLE@)->0;
    let ghost w = remove_key(m, OLD_TABLE@);
    let root = document_root(doc);
    proof {
        lemma_complete_table(m);
        lemma_complete_lookup(m, OLD_TABLE@);
        lemma_complete_remove(m, OLD_TABLE@);
        lemma_complete_table(w);
        if let Some(ShapeModel::Table(e)) = lookup(m, OLD_TABLE@) {
            lemma_complete_table(e);
        }
    }
    let mut old_table = match item_remove(root, OLD_TABLE) {
        Some(o) => o,
        None => return,
    };
    match plan.ssh_key {
        SshKeyStep::Keep => {
            proof {
                if let Some(s) = ssh_entries(old_model) {
                    lemma_set_key_same(old_model->Table_0, SSH_TABLE@);
                }
            }
        },
        SshKeyStep::DropOld => {
            let ghost e = old_model->Table_0;
            let ghost s = ssh_entries(old_model)->0;
            proof {
                lemma_complete_lookup(e, SSH_TABLE@);
                lemma_complete_table(s);
                lemma_complete_remove(s, OLD_SSH_KEY@);
                lemma_complete_table(remove_key(s, OLD_SSH_KEY@));
            }
            let ssh = item_child_mut(&mut old_table, SSH_TABLE);
            let _ = item_remove(ssh, OLD_SSH_KEY);
            proof {
                lemma_complete_set(e, SSH_TABLE@, toml_item_model(*ssh));
                lemma_complete_table(set_key(e, SSH_TABLE@, toml_item_model(*ssh)));
            }
        },
        SshKeyStep::Rename => {
            let ghost e = old_model->Table_0;
            let ghost s = ssh_entries(old_model)->0;
            proof {
                lemma_complete_lookup(e, SSH_TABLE@);
                lemma_complete_table(s);
                lemma_complete_lookup(s, OLD_SSH_KEY@);
                lemma_complete_remove(s, OLD_SSH_KEY@);
                lemma_complete_table(remove_key(s, OLD_SSH_KEY@));
            }
            let ssh = item_child_mut(&mut old_table, SSH_TABLE);
            if let Some(value) = item_remove(ssh, OLD_SSH_KEY) {
                item_insert(ssh, NEW_SSH_KEY, value);
                proof {
                    lemma_complete_push(remove_key(s, OLD_SSH_KEY@), NEW_SSH_KEY@, toml_item_model(value));
                    lemma_complete_table(remove_key(s, OLD_SSH_KEY@).push((NEW_SSH_KEY@, toml_item_model(value))));
                }
            }
            proof {
                lemma_complete_set(e, SSH_TABLE@, toml_item_model(*ssh));
                lemma_complete_table(set_key(e, SSH_TABLE@, toml_item_model(*ssh)));
            }
        },
    }
    let ghost renamed = with_ssh_key_renamed(old_model);
    assert(toml_item_model(old_table) == renamed);
    match &plan.table {
        TableStep::Move => {
            item_insert(root, NEW_TABLE, old_table);
            proof {
                lemma_complete_push(w, NEW_TABLE@, renamed);
            }
            assert(toml_item_model(*root) == ShapeModel::Table(w.push((NEW_TABLE@, renamed))));
        },
        TableStep::Merge { .. } => {
            proof {
                lemma_complete_lookup(w, NEW_TABLE@);
            }
            let target = item_child_mut(root, NEW_TABLE);
            if item_is_table(target) && item_is_table(&old_table) {
                merge_missing(target, &old_table);
            }
            proof {
                lemma_complete_set(w, NEW_TABLE@, toml_item_model(*target));
            }
            assert(toml_item_model(*root) == ShapeModel::Table(
                set_key(w, NEW_TABLE@, toml_item_model(*target)),
            ));
        },
    }
}

/// What a key path starting with `k` leads to: what the rest of it leads to below `k`'s
/// item.
proof fn lemma_node_below(e: Seq<(Seq<char>, ShapeModel)>, k: Seq<char>, p: Seq<Seq<char>>)
    ensures
        node_at(e, seq![k] + p) == match lookup(e, k) {
            None => None,
            Some(ShapeModel::Value(t)) => if p.len() == 0 {
                Some(TomlNode::Leaf(t))
            } else {
                None
            },
            Some(ShapeModel::Table(c)) => node_at(c, p),
        },
{
    let q = seq![k] + p;
    assert(q[0] == k);
    assert(q.drop_first() =~= p);
}

/// Merging keeps every value the new table holds, at any depth.
pub proof fn lemma_merge_keeps_new_leaves(
    t: Seq<(Seq<char>, ShapeModel)>,
    o: Seq<(Seq<char>, ShapeModel)>,
    p: Seq<Seq<char>>,
)
    requires
        node_at(t, p) matches Some(TomlNode::Leaf(_)),
    ensures
        node_at(merged_entries(t, o), p) == node_at(t, p),
    decreases o,
{
    if o.len() > 0 {
        let prev = o.drop_last();
        let t1 = merged_entries(t, prev);
        let kl = o.last().0;
        lemma_merge_keeps_new_leaves(t, prev, p);
        let k = p[0];
        let rest = p.drop_first();
        assert(seq![k] + rest =~= p);
        lemma_node_below(t1, k, rest);
        match lookup(t1, kl) {
            None => {
                lemma_lookup_push(t1, kl, o.last().1, k);
                lemma_node_below(t1.push((kl, o.last().1)), k, rest);
            },
            Some(ShapeModel::Table(tc)) => match o.last().1 {
                ShapeModel::Table(oc) => {
                    let x = set_key(t1, kl, ShapeModel::Table(merged_entries(tc, oc)));
                    lemma_lookup_set_key(t1, kl, ShapeModel::Table(merged_entries(tc, oc)), k);
                    lemma_node_below(x, k, rest);
                    if k == kl {
                        assert(decreases_to!(o => oc)) by {
                            assert(decreases_to!(o => o[o.len() - 1]));
                            assert(decreases_to!(o[o.len() - 1] => o[o.len() - 1].1));
                        }
                        lemma_merge_keeps_new_leaves(tc, oc, rest);
                    }
                },
                ShapeModel::Value(_) => {},
            },
            Some(ShapeModel::Value(_)) => {},
        }
    }
}

/// A key that merging does not bring in keeps what the new table holds under it.
proof fn lemma_merge_untouched_key(
    t: Seq<(Seq<char>, ShapeModel)>,
    o: Seq<(Seq<char>, ShapeModel)>,
    k: Seq<char>,
)
    requires
        lookup(o, k) is None,
    ensures
        lookup(merged_entries(t, o), k) == lookup(t, k),
    decreases o.len(),
{
    if o.len() > 0 {
        let prev = o.drop_last();
        let kl = o.last().0;
        assert(o =~= prev.push(o.last()));
        lemma_lookup_push(prev, kl, o.last().1, k);
        lemma_merge_untouched_key(t, prev, k);
        let t1 = merged_entries(t, prev);
        match lookup(t1, kl) {
            None => {
                lemma_lookup_push(t1, kl, o.last().1, k);
            },
            Some(ShapeModel::Table(tc)) => match o.last().1 {
                ShapeModel::Table(oc) => {
                    lemma_lookup_set_key(t1, kl, ShapeModel::Table(merged_entries(tc, oc)), k);
                },
                ShapeModel::Value(_) => {},
            },
            Some(ShapeModel::Value(_)) => {},
        }
    }
}

/// Merging brings in every value of the old table whose key path the new table does not
/// define and below no value of the new table.
pub proof fn lemma_merge_fills_missing(
    t: Seq<(Seq<char>, ShapeModel)>,
    o: Seq<(Seq<char>, ShapeModel)>,
    p: Seq<Seq<char>>,
)
    requires
        shape_distinct(ShapeModel::Table(o)),
        is_leaf(node_at(o, p)),
        node_at(t, p) is None,
        forall|j: int| 1 <= j < p.len() ==> !is_leaf(#[trigger] node_at(t, p.take(j))),
    ensures
        node_at(merged_entries(t, o), p) == node_at(o, p),
    decreases o,
{
    let k = p[0];
    let rest = p.drop_first();
    assert(seq![k] + rest =~= p);
    let prev = o.drop_last();
    let kl = o.last().0;
    let vl = o.last().1;
    let t1 = merged_entries(t, prev);
    assert(o =~= prev.push((kl, vl)));
    lemma_node_below(o, k, rest);
    lemma_node_below(t, k, rest);
    lemma_node_below(t1, k, rest);
    assert(keys_distinct(prev)) by {
        assert forall|a: int, b: int| 0 <= a < b < prev.len() implies #[trigger] prev[a].0
            != #[trigger] prev[b].0 by {
            assert(prev[a] == o[a] && prev[b] == o[b]);
        }
    }
    lemma_lookup_push(prev, kl, vl, k);
    if k != kl {
        lemma_merge_fills_missing(t, prev, p);
        match lookup(t1, kl) {
            None => {
                lemma_lookup_push(t1, kl, vl, k);
                lemma_node_below(t1.push((kl, vl)), k, rest);
            },
            Some(ShapeModel::Table(tc)) => match vl {
                ShapeModel::Table(oc) => {
                    let x = set_key(t1, kl, ShapeModel::Table(merged_entries(tc, oc)));
                    lemma_lookup_set_key(t1, kl, ShapeModel::Table(merged_entries(tc, oc)), k);
                    lemma_node_below(x, k, rest);
                },
                ShapeModel::Value(_) => {},
            },
            Some(ShapeModel::Value(_)) => {},
        }
    } else {
        assert forall|j: int| 0 <= j < prev.len() implies #[trigger] prev[j].0 != k by {
            assert(prev[j] == o[j]);
            assert(o[prev.len() as int].0 == k);
        }
        lemma_lookup_at(prev, k, 0);
        lemma_merge_untouched_key(t, prev, k);
        match lookup(t, k) {
            None => {
                lemma_lookup_push(t1, kl, vl, k);
                lemma_node_below(t1.push((kl, vl)), k, rest);
            },
            Some(ShapeModel::Value(_)) => {
                if p.len() > 1 {
                    assert(p.take(1) =~= seq![k] + Seq::<Seq<char>>::empty());
                    lemma_node_below(t, k, Seq::<Seq<char>>::empty());
                    assert(!is_leaf(node_at(t, p.take(1))));
                }
            },
            Some(ShapeModel::Table(tc)) => match vl {
                ShapeModel::Table(oc) => {
                    let x = set_key(t1, kl, ShapeModel::Table(merged_entries(tc, oc)));
                    lemma_lookup_set_key(t1, kl, ShapeModel::Table(merged_entries(tc, oc)), k);
                    lemma_node_below(x, k, rest);
                    assert(rest.len() > 0);
                    assert forall|j: int| 1 <= j < rest.len() implies !is_leaf(
                        #[trigger] node_at(tc, rest.take(j)),
                    ) by {
                        assert(p.take(j + 1) =~= seq![k] + rest.take(j));
                        lemma_node_below(t, k, rest.take(j));
                        assert(!is_leaf(node_at(t, p.take(j + 1))));
                    }
                    assert(table_distinct(o) ==> shape_distinct(o.last().1));
                    assert(decreases_to!(o => oc)) by {
                        assert(decreases_to!(o => o[o.len() - 1]));
                        assert(decreases_to!(o[o.len() - 1] => o[o.len() - 1].1));
                    }
                    lemma_merge_fills_missing(tc, oc, rest);
                },
                ShapeModel::Value(_) => {},
            },
        }
    }
}

/// Law: when both tables exist, the old table fills in what the new one lacks, at any
/// depth: every value of the old table (its key renamed) at a key path the new table does
/// not define, with no value of the new table above it, is in the migrated text at that
/// path below the new name, with its text unchanged.
pub proof fn lemma_missing_values_filled_in(
    m: Seq<(Seq<char>, ShapeModel)>,
    read: Seq<(Seq<char>, ShapeModel)>,
    t: Seq<(Seq<char>, ShapeModel)>,
    o: Seq<(Seq<char>, ShapeModel)>,
    p: Seq<Seq<char>>,
)
    requires
        lookup(m, OLD_TABLE@) is Some,
        lookup(remove_key(m, OLD_TABLE@), NEW_TABLE@) == Some(ShapeModel::Table(t)),
        with_ssh_key_renamed(lookup(m, OLD_TABLE@)->0) == ShapeModel::Table(o),
        shape_distinct(ShapeModel::Table(o)),
        is_leaf(node_at(o, p)),
        node_at(t, p) is None,
        forall|j: int| 1 <= j < p.len() ==> !is_leaf(#[trigger] node_at(t, p.take(j))),
        written_back(read, migrated_root(m)),
    ensures
        node_at(read, seq![NEW_TABLE@] + p) == node_at(o, p),
{
    let w = remove_key(m, OLD_TABLE@);
    let nv = ShapeModel::Table(merged_entries(t, o));
    lemma_lookup_set_key(w, NEW_TABLE@, nv, NEW_TABLE@);
    lemma_node_below(migrated_root(m), NEW_TABLE@, p);
    lemma_merge_fills_missing(t, o, p);
    assert(node_at(migrated_root(m), seq![NEW_TABLE@] + p) == node_at(o, p));
}

/// Law: a migrated file is not migrated again. What the migrated text reads back as has
/// no old table, so running `migrate_warpify_text` on it returns `Ok(None)` and leaves it
/// as it is.
pub proof fn lemma_migrated_text_is_final(
    m: Seq<(Seq<char>, ShapeModel)>,
    read: Seq<(Seq<char>, ShapeModel)>,
)
    requires
        keys_distinct(m),
        written_back(read, migrated_root(m)),
    ensures
        lookup(read, OLD_TABLE@) is None,
{
    lemma_migration_is_idempotent(m);
    let e = Seq::<Seq<char>>::empty();
    let p = seq![OLD_TABLE@] + e;
    lemma_node_below(read, OLD_TABLE@, e);
    lemma_node_below(migrated_root(m), OLD_TABLE@, e);
    if lookup(read, OLD_TABLE@) is Some {
        assert(node_at(read, p) is Some);
    }
}

/// Law: when both tables exist, the new one wins every conflict, at any depth: every value
/// the new table holds at a key path is in the migrated text at that path below it, with
/// its text unchanged.
pub proof fn lemma_new_values_survive(
    m: Seq<(Seq<char>, ShapeModel)>,
    read: Seq<(Seq<char>, ShapeModel)>,
    t: Seq<(Seq<char>, ShapeModel)>,
    p: Seq<Seq<char>>,
)
    requires
        lookup(m, OLD_TABLE@) is Some,
        lookup(remove_key(m, OLD_TABLE@), NEW_TABLE@) == Some(ShapeModel::Table(t)),
        node_at(t, p) matches Some(TomlNode::Leaf(_)),
        written_back(read, migrated_root(m)),
    ensures
        node_at(read, seq![NEW_TABLE@] + p) == node_at(t, p),
{
    let w = remove_key(m, OLD_TABLE@);
    let renamed = with_ssh_key_renamed(lookup(m, OLD_TABLE@)->0);
    let nv = merged(ShapeModel::Table(t), renamed);
    lemma_lookup_set_key(w, NEW_TABLE@, nv, NEW_TABLE@);
    lemma_node_below(migrated_root(m), NEW_TABLE@, p);
    if let ShapeModel::Table(o) = renamed {
        lemma_merge_keeps_new_leaves(t, o, p);
    }
    assert(node_at(migrated_root(m), seq![NEW_TABLE@] + p) == node_at(t, p));
}

/// Law: without a new table, the old one moves under the new name with its values: every
/// value of the old table (its key renamed) is in the migrated text at the same path below
/// the new name, with its text unchanged.
pub proof fn lemma_moved_values_survive(
    m: Seq<(Seq<char>, ShapeModel)>,
    read: Seq<(Seq<char>, ShapeModel)>,
    o: Seq<(Seq<char>, ShapeModel)>,
    p: Seq<Seq<char>>,
)
    requires
        lookup(m, OLD_TABLE@) is Some,
        lookup(remove_key(m, OLD_TABLE@), NEW_TABLE@) is None,
        with_ssh_key_renamed(lookup(m, OLD_TABLE@)->0) == ShapeModel::Table(o),
        node_at(o, p) matches Some(TomlNode::Leaf(_)),
        written_back(read, migrated_root(m)),
    ensures
        node_at(read, seq![NEW_TABLE@] + p) == node_at(o, p),
{
    let w = remove_key(m, OLD_TABLE@);
    lemma_lookup_push(w, NEW_TABLE@, ShapeModel::Table(o), NEW_TABLE@);
    lemma_node_below(migrated_root(m), NEW_TABLE@, p);
    assert(node_at(migrated_root(m), seq![NEW_TABLE@] + p) == node_at(o, p));
}

/// Why the settings text could not be migrated.
#[derive(Debug, Clone, Copy, PartialEq, Eq)]
pub enum MigrationError {
    /// The text is not TOML. It is left exactly as it was.
    NotToml,
}

/// Whether `plan` is the migration plan of the settings file whose top-level entries are
/// `m`, as `plan_migration` states it.
pub open spec fn plans(m: Seq<(Seq<char>, ShapeModel)>, plan: MigrationPlan) -> bool {
    match lookup(m, OLD_TABLE@) {
        None => false,
        Some(old) => plan.ssh_key == ssh_step(old) && match lookup(
            remove_key(m, OLD_TABLE@),
            NEW_TABLE@,
        ) {
            None => plan.table is Move,
            Some(new) => plan.table matches TableStep::Merge { copies } && paths_view(copies@)
                == missing_paths(new, with_ssh_key_renamed(old)),
        },
    }
}

/// Plans the migration of the settings text `text`: an error when it is not TOML, `None`
/// when it has no old table, and otherwise the plan for its shape.
pub fn plan_text_migration(text: &str) -> (r: Result<Option<MigrationPlan>, MigrationError>)
    ensures
        match toml_root_shape(text@) {
            None => r == Err::<Option<MigrationPlan>, MigrationError>(MigrationError::NotToml),
            Some(m) => keys_distinct(m) && shape_distinct(ShapeModel::Table(m)) && entries_complete(m)
                && match lookup(m, OLD_TABLE@) {
                None => r == Ok::<Option<MigrationPlan>, MigrationError>(None),
                Some(_) => r matches Ok(Some(plan)) && plans(m, plan),
            },
        },
{
    let shape = match parse_toml_root_shape(text) {
        None => return Err(MigrationError::NotToml),
        Some(s) => s,
    };
    Ok(plan_migration(shape))
}

/// Migrates the settings text `text`: an error when it is not TOML, `None` when there is
/// nothing to migrate, and otherwise the migrated text, with comments and formatting kept.
/// The migrated text holds what `migrated_root` says: the old table is gone, and the new
/// table holds the old one's settings (its key renamed), merged below any it already had,
/// its own winning every conflict; every other entry is kept.
pub fn migrate_warpify_text(text: &str) -> (r: Result<Option<String>, MigrationError>)
    ensures
        match toml_root_shape(text@) {
            None => r == Err::<Option<String>, MigrationError>(MigrationError::NotToml),
            Some(m) => match lookup(m, OLD_TABLE@) {
                None => r == Ok::<Option<String>, MigrationError>(None),
                Some(_) => r matches Ok(Some(out)) && toml_root_shape(out@) matches Some(read)
                    && written_back(read, migrated_root(m)),
            },
        },
{
    let plan = match plan_text_migration(text) {
        Err(e) => return Err(e),
        Ok(None) => return Ok(None),
        Ok(Some(plan)) => plan,
    };
    let mut doc = match parse_toml_document(text) {
        Some(doc) => doc,
        None => return Err(MigrationError::NotToml),
    };
    apply_plan(&mut doc, &plan);
    Ok(Some(render_document(&doc)))
}

} // verus!
