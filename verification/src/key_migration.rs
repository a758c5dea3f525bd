//! The one-time migration of the persisted `[warpify]` settings table to `[heddlify]`.
//!
//! Settings are addressed by their path in the settings file, so renaming the table
//! without moving what the user stored under it would silently reset every setting in it.
//! Only two things are renamed: the top-level table `warpify` becomes `heddlify`, and the
//! key `enable_ssh_warpification` under its `ssh` table becomes `enable_ssh_heddlification`
//! (a new-style key already there wins). When both tables exist, the old one is merged into
//! the new one key by key, the new one winning every conflict.
//!
//! The file itself is edited by a format-preserving TOML editor, which keeps the user's
//! comments and layout. This module models the file as its tree of keys, each leading to a
//! table or to a value with its text, says what the migration makes of that tree
//! (`migrated_root`), and plans the edit from it.

use vstd::prelude::*;
use crate::text::str_eq;

verus! {

/// The table the settings used to live in.
pub const OLD_TABLE: &'static str = "warpify";
/// The table the settings live in now.
pub const NEW_TABLE: &'static str = "heddlify";
/// The table, under the settings table, that holds the renamed key.
pub const SSH_TABLE: &'static str = "ssh";
/// The key under `ssh` whose own name carried the old stem.
pub const OLD_SSH_KEY: &'static str = "enable_ssh_warpification";
/// The key's new name.
pub const NEW_SSH_KEY: &'static str = "enable_ssh_heddlification";

/// The shape of an item of the settings file: a table with its keys in document order, or
/// any other value.
#[derive(Debug)]
pub enum TomlShape {
    /// A value that is not a table: its TOML text, without the spaces and comment around
    /// it.
    Value(String),
    /// A table, standard or inline: its entries in document order.
    Table(Vec<(String, TomlShape)>),
}

/// The mathematical model of a shape: keys are character sequences.
pub enum ShapeModel {
    Value(Seq<char>),
    Table(Seq<(Seq<char>, ShapeModel)>),
}

/// The model of a shape.
pub open spec fn shape_view(s: TomlShape) -> ShapeModel
    decreases s,
{
    match s {
        TomlShape::Value(t) => ShapeModel::Value(t@),
        TomlShape::Table(v) => ShapeModel::Table(entries_view(v@)),
    }
}

/// The model of a table's entries.
pub open spec fn entries_view(e: Seq<(String, TomlShape)>) -> Seq<(Seq<char>, ShapeModel)>
    decreases e,
{
    if e.len() == 0 {
        Seq::empty()
    } else {
        entries_view(e.drop_last()).push((e.last().0@, shape_view(e.last().1)))
    }
}

/// Entry by entry, the model of a table's entries is the model of each entry.
pub proof fn lemma_entries_view(e: Seq<(String, TomlShape)>)
    ensures
        entries_view(e).len() == e.len(),
        forall|i: int|
            0 <= i < e.len() ==> #[trigger] entries_view(e)[i] == (e[i].0@, shape_view(e[i].1)),
    decreases e.len(),
{
    if e.len() > 0 {
        lemma_entries_view(e.drop_last());
        assert forall|i: int| 0 <= i < e.len() implies #[trigger] entries_view(e)[i] == (
            e[i].0@,
            shape_view(e[i].1),
        ) by {
            if i < e.len() - 1 {
                assert(e.drop_last()[i] == e[i]);
            }
        }
    }
}

/// The item stored under `k`: the first entry with that key, if any.
pub open spec fn lookup(e: Seq<(Seq<char>, ShapeModel)>, k: Seq<char>) -> Option<ShapeModel>
    decreases e.len(),
{
    if e.len() == 0 {
        None
    } else if e[0].0 == k {
        Some(e[0].1)
    } else {
        lookup(e.drop_first(), k)
    }
}

/// The index of the first entry with key `k`, if any.
pub open spec fn first_index(e: Seq<(Seq<char>, ShapeModel)>, k: Seq<char>, i: int) -> bool {
    0 <= i < e.len() && e[i].0 == k && forall|j: int| 0 <= j < i ==> #[trigger] e[j].0 != k
}

/// What `lookup` finds at a first index, and that it finds nothing without one.
pub proof fn lemma_lookup_at(e: Seq<(Seq<char>, ShapeModel)>, k: Seq<char>, i: int)
    ensures
        first_index(e, k, i) ==> lookup(e, k) == Some(e[i].1),
        (forall|j: int| 0 <= j < e.len() ==> #[trigger] e[j].0 != k) ==> lookup(e, k) is None,
    decreases e.len(),
{
    if e.len() > 0 {
        let t = e.drop_first();
        lemma_lookup_at(t, k, i - 1);
        if first_index(e, k, i) && i > 0 {
            assert(e[0].0 != k);
            assert forall|j: int| 0 <= j < i - 1 implies #[trigger] t[j].0 != k by {
                assert(t[j] == e[j + 1]);
            }
            assert(first_index(t, k, i - 1));
        }
        if forall|j: int| 0 <= j < e.len() ==> #[trigger] e[j].0 != k {
            assert(e[0].0 != k);
            assert forall|j: int| 0 <= j < t.len() implies #[trigger] t[j].0 != k by {
                assert(t[j] == e[j + 1]);
            }
        }
    }
}

/// The position of the first entry of `e` whose key is `k`.
fn find_entry(e: &Vec<(String, TomlShape)>, k: &str) -> (r: Option<usize>)
    ensures
        match r {
            Some(i) => first_index(entries_view(e@), k@, i as int) && lookup(
                entries_view(e@),
                k@,
            ) == Some(shape_view(e@[i as int].1)),
            None => lookup(entries_view(e@), k@) is None,
        },
{
    proof {
        lemma_entries_view(e@);
    }
    let ghost m = entries_view(e@);
    let mut i: usize = 0;
    while i < e.len()
        invariant
            m == entries_view(e@),
            m.len() == e@.len(),
            forall|j: int| 0 <= j < m.len() ==> #[trigger] m[j] == (e@[j].0@, shape_view(e@[j].1)),
            i <= e@.len(),
            forall|j: int| 0 <= j < i ==> #[trigger] m[j].0 != k@,
        decreases e.len() - i,
    {
        if str_eq(e[i].0.as_str(), k) {
            proof {
                assert(m[i as int].0 == k@);
                assert(first_index(m, k@, i as int));
                lemma_lookup_at(m, k@, i as int);
            }
            return Some(i);
        }
        assert(m[i as int].0 != k@);
        i = i + 1;
    }
    proof {
        lemma_lookup_at(m, k@, 0);
    }
    None
}

/// `e` without its first entry with key `k`.
pub open spec fn remove_key(e: Seq<(Seq<char>, ShapeModel)>, k: Seq<char>) -> Seq<(Seq<char>, ShapeModel)>
    decreases e.len(),
{
    if e.len() == 0 {
        e
    } else if e[0].0 == k {
        e.drop_first()
    } else {
        seq![e[0]] + remove_key(e.drop_first(), k)
    }
}

/// `e` with the item of its first entry with key `k` replaced by `v`.
pub open spec fn set_key(e: Seq<(Seq<char>, ShapeModel)>, k: Seq<char>, v: ShapeModel) -> Seq<(Seq<char>, ShapeModel)>
    decreases e.len(),
{
    if e.len() == 0 {
        e
    } else if e[0].0 == k {
        seq![(k, v)] + e.drop_first()
    } else {
        seq![e[0]] + set_key(e.drop_first(), k, v)
    }
}

/// Removing or replacing the first entry with key `k` works on its first index.
pub proof fn lemma_edit_at(e: Seq<(Seq<char>, ShapeModel)>, k: Seq<char>, v: ShapeModel, i: int)
    requires
        first_index(e, k, i),
    ensures
        remove_key(e, k) == e.remove(i),
        set_key(e, k, v) == e.update(i, (k, v)),
    decreases e.len(),
{
    let t = e.drop_first();
    if i == 0 {
        assert(e.remove(0) =~= t);
        assert(seq![(k, v)] + t =~= e.update(0, (k, v)));
    } else {
        assert(e[0].0 != k);
        assert forall|j: int| 0 <= j < i - 1 implies #[trigger] t[j].0 != k by {
            assert(t[j] == e[j + 1]);
        }
        lemma_edit_at(t, k, v, i - 1);
        assert(seq![e[0]] + t.remove(i - 1) =~= e.remove(i));
        assert(seq![e[0]] + t.update(i - 1, (k, v)) =~= e.update(i, (k, v)));
    }
}

/// Without an entry with key `k`, removing it changes nothing.
pub proof fn lemma_remove_absent(e: Seq<(Seq<char>, ShapeModel)>, k: Seq<char>)
    requires
        forall|j: int| 0 <= j < e.len() ==> #[trigger] e[j].0 != k,
    ensures
        remove_key(e, k) == e,
    decreases e.len(),
{
    if e.len() > 0 {
        let t = e.drop_first();
        assert(e[0].0 != k);
        assert forall|j: int| 0 <= j < t.len() implies #[trigger] t[j].0 != k by {
            assert(t[j] == e[j + 1]);
        }
        lemma_remove_absent(t, k);
        assert(seq![e[0]] + t =~= e);
    }
}

/// What the key's rename does to the `ssh` table: the old key is dropped, and its item
/// is kept under the new name unless the new name is already taken.
pub open spec fn renamed_ssh_entries(s: Seq<(Seq<char>, ShapeModel)>) -> Seq<(Seq<char>, ShapeModel)> {
    match lookup(s, OLD_SSH_KEY@) {
        None => s,
        Some(v) => {
            let w = remove_key(s, OLD_SSH_KEY@);
            if lookup(w, NEW_SSH_KEY@) is Some {
                w
            } else {
                w.push((NEW_SSH_KEY@, v))
            }
        },
    }
}

/// What happens to the old key under `ssh`.
#[derive(Debug, Clone, Copy, PartialEq, Eq, Structural)]
pub enum SshKeyStep {
    /// There is no old key under a `ssh` table: nothing to do.
    Keep,
    /// The old key is renamed: removed, and its item stored under the new name, last.
    Rename,
    /// The old key is removed; the new key already there wins.
    DropOld,
}

/// The `ssh` table of an old settings table, if it has one.
pub open spec fn ssh_entries(old: ShapeModel) -> Option<Seq<(Seq<char>, ShapeModel)>> {
    match old {
        ShapeModel::Table(e) => match lookup(e, SSH_TABLE@) {
            Some(ShapeModel::Table(s)) => Some(s),
            _ => None,
        },
        ShapeModel::Value(_) => None,
    }
}

/// The step for the old key of the old settings table `old`.
pub open spec fn ssh_step(old: ShapeModel) -> SshKeyStep {
    match ssh_entries(old) {
        Some(s) => if lookup(s, OLD_SSH_KEY@) is None {
            SshKeyStep::Keep
        } else if lookup(remove_key(s, OLD_SSH_KEY@), NEW_SSH_KEY@) is Some {
            SshKeyStep::DropOld
        } else {
            SshKeyStep::Rename
        },
        None => SshKeyStep::Keep,
    }
}

/// The old settings table after its key's rename.
pub open spec fn with_ssh_key_renamed(old: ShapeModel) -> ShapeModel {
    match ssh_entries(old) {
        Some(s) => ShapeModel::Table(
            set_key(old->Table_0, SSH_TABLE@, ShapeModel::Table(renamed_ssh_entries(s))),
        ),
        None => old,
    }
}

/// Two entry lists with the same models entry by entry have the same model.
pub proof fn lemma_entries_view_eq(a: Seq<(String, TomlShape)>, b: Seq<(Seq<char>, ShapeModel)>)
    requires
        a.len() == b.len(),
        forall|i: int| 0 <= i < a.len() ==> b[i] == (#[trigger] a[i].0@, shape_view(a[i].1)),
    ensures
        entries_view(a) == b,
{
    lemma_entries_view(a);
    assert(entries_view(a) =~= b);
}

/// Puts `entry` back at position `i` of `e`, from where it was taken.
fn put_back(e: &mut Vec<(String, TomlShape)>, i: usize, entry: (String, TomlShape))
    requires
        i <= old(e)@.len(),
    ensures
        final(e)@ == old(e)@.insert(i as int, entry),
{
    e.insert(i, entry);
}

/// Renames the old key under the `ssh` table of the old settings table `old`, and says
/// what it did.
fn rename_ssh_key(old: TomlShape) -> (r: (SshKeyStep, TomlShape))
    ensures
        r.0 == ssh_step(shape_view(old)),
        shape_view(r.1) == with_ssh_key_renamed(shape_view(old)),
{
    let ghost ov = shape_view(old);
    let mut e = match old {
        TomlShape::Value(t) => return (SshKeyStep::Keep, TomlShape::Value(t)),
        TomlShape::Table(e) => e,
    };
    let ghost e0 = e@;
    let ghost m = entries_view(e0);
    assert(ov == ShapeModel::Table(m));
    proof {
        lemma_entries_view(e0);
    }
    let i = match find_entry(&e, SSH_TABLE) {
        None => return (SshKeyStep::Keep, TomlShape::Table(e)),
        Some(i) => i,
    };
    let (key, ssh) = e.remove(i);
    assert(e0[i as int] == (key, ssh));
    let mut s = match ssh {
        TomlShape::Value(t) => {
            put_back(&mut e, i, (key, TomlShape::Value(t)));
            assert(e@ =~= e0);
            return (SshKeyStep::Keep, TomlShape::Table(e));
        },
        TomlShape::Table(s) => s,
    };
    let ghost s0 = s@;
    let ghost sm = entries_view(s0);
    assert(m[i as int] == (SSH_TABLE@, ShapeModel::Table(sm)));
    assert(ssh_entries(ov) == Some(sm));
    proof {
        lemma_entries_view(s0);
    }
    let step = match find_entry(&s, OLD_SSH_KEY) {
        None => {
            proof {
                lemma_edit_at(m, SSH_TABLE@, ShapeModel::Table(sm), i as int);
                assert(m.update(i as int, (SSH_TABLE@, ShapeModel::Table(sm))) =~= m);
            }
            put_back(&mut e, i, (key, TomlShape::Table(s)));
            assert(e@ =~= e0);
            return (SshKeyStep::Keep, TomlShape::Table(e));
        },
        Some(j) => {
            let (_, value) = s.remove(j);
            proof {
                lemma_edit_at(sm, OLD_SSH_KEY@, ShapeModel::Value(Seq::empty()), j as int);
                lemma_entries_view_eq(s@, sm.remove(j as int));
                assert(lookup(sm, OLD_SSH_KEY@) == Some(shape_view(value)));
            }
            if find_entry(&s, NEW_SSH_KEY).is_some() {
                SshKeyStep::DropOld
            } else {
                let ghost w = s@;
                s.push((NEW_SSH_KEY.to_owned(), value));
                proof {
                    lemma_entries_view_eq(
                        s@,
                        entries_view(w).push((NEW_SSH_KEY@, shape_view(value))),
                    );
                }
                SshKeyStep::Rename
            }
        },
    };
    assert(entries_view(s@) == renamed_ssh_entries(sm));
    let ghost renamed = ShapeModel::Table(renamed_ssh_entries(sm));
    put_back(&mut e, i, (key, TomlShape::Table(s)));
    proof {
        lemma_edit_at(m, SSH_TABLE@, renamed, i as int);
        lemma_entries_view_eq(e@, m.update(i as int, (SSH_TABLE@, renamed)));
    }
    (step, TomlShape::Table(e))
}

/// The model of a list of key paths.
pub open spec fn paths_view(ps: Seq<Vec<String>>) -> Seq<Seq<Seq<char>>> {
    ps.map_values(|p: Vec<String>| p@.map_values(|s: String| s@))
}

/// `ps`, each path under the key `k`.
pub open spec fn prefixed(k: Seq<char>, ps: Seq<Seq<Seq<char>>>) -> Seq<Seq<Seq<char>>> {
    ps.map_values(|p: Seq<Seq<char>>| seq![k] + p)
}

/// The paths, relative to the new table's entries `t`, of the items of the old table's
/// entries `o` that merging copies across, in the order they are copied: an old key the
/// new table lacks is copied whole; where both hold a table under a key, the two are
/// merged below it; where either holds a plain value, the new table's item wins.
pub open spec fn missing_in(
    t: Seq<(Seq<char>, ShapeModel)>,
    o: Seq<(Seq<char>, ShapeModel)>,
) -> Seq<Seq<Seq<char>>>
    decreases o,
{
    if o.len() == 0 {
        Seq::empty()
    } else {
        let k = o.last().0;
        missing_in(t, o.drop_last()) + match lookup(t, k) {
            None => seq![seq![k]],
            Some(ShapeModel::Table(tc)) => match o.last().1 {
                ShapeModel::Table(oc) => prefixed(k, missing_in(tc, oc)),
                ShapeModel::Value(_) => Seq::empty(),
            },
            Some(ShapeModel::Value(_)) => Seq::empty(),
        }
    }
}

/// The paths merging copies from the old settings table `old` into the new one `new`:
/// none unless both are tables.
pub open spec fn missing_paths(new: ShapeModel, old: ShapeModel) -> Seq<Seq<Seq<char>>> {
    match (new, old) {
        (ShapeModel::Table(t), ShapeModel::Table(o)) => missing_in(t, o),
        _ => Seq::empty(),
    }
}

/// The model of one key path.
pub open spec fn path_view(p: Vec<String>) -> Seq<Seq<char>> {
    p@.map_values(|s: String| s@)
}

/// Appending a path appends its model.
proof fn lemma_paths_view_push(ps: Seq<Vec<String>>, p: Vec<String>)
    ensures
        paths_view(ps.push(p)) == paths_view(ps).push(path_view(p)),
{
    assert(paths_view(ps.push(p)) =~= paths_view(ps).push(path_view(p)));
}

/// `paths`, each under the key `k`.
fn prepend_key(k: &String, paths: Vec<Vec<String>>) -> (r: Vec<Vec<String>>)
    ensures
        paths_view(r@) == prefixed(k@, paths_view(paths@)),
{
    let ghost orig = paths@;
    let n = paths.len();
    let mut rest = paths;
    let mut out: Vec<Vec<String>> = Vec::new();
    let mut i: usize = 0;
    while rest.len() > 0
        invariant
            n == orig.len(),
            i <= n,
            rest@ == orig.subrange(i as int, n as int),
            paths_view(out@) == prefixed(k@, paths_view(orig.take(i as int))),
        decreases rest.len(),
    {
        let ghost before = out@;
        let mut p = rest.remove(0);
        assert(p == orig[i as int]);
        let mut path: Vec<String> = Vec::new();
        path.push(k.clone());
        path.append(&mut p);
        assert(path_view(path) =~= seq![k@] + path_view(orig[i as int]));
        out.push(path);
        proof {
            lemma_paths_view_push(before, path);
            assert(orig.take(i + 1) =~= orig.take(i as int).push(orig[i as int]));
            lemma_paths_view_push(orig.take(i as int), orig[i as int]);
            assert(prefixed(k@, paths_view(orig.take(i + 1))) =~= prefixed(
                k@,
                paths_view(orig.take(i as int)),
            ).push(seq![k@] + path_view(orig[i as int])));
        }
        i = i + 1;
        assert(rest@ =~= orig.subrange(i as int, n as int));
    }
    assert(orig.take(i as int) =~= orig);
    out
}

/// The paths merging copies from the old table's entries `o` into the new table's
/// entries `t`.
fn missing_in_entries(t: &Vec<(String, TomlShape)>, o: &Vec<(String, TomlShape)>) -> (r: Vec<
    Vec<String>,
>)
    ensures
        paths_view(r@) == missing_in(entries_view(t@), entries_view(o@)),
    decreases o@,
{
    let ghost tm = entries_view(t@);
    let ghost om = entries_view(o@);
    proof {
        lemma_entries_view(o@);
        lemma_entries_view(t@);
    }
    let mut out: Vec<Vec<String>> = Vec::new();
    let mut i: usize = 0;
    while i < o.len()
        invariant
            tm == entries_view(t@),
            om == entries_view(o@),
            om.len() == o@.len(),
            forall|j: int| 0 <= j < om.len() ==> #[trigger] om[j] == (o@[j].0@, shape_view(o@[j].1)),
            tm.len() == t@.len(),
            forall|j: int| 0 <= j < tm.len() ==> #[trigger] tm[j] == (t@[j].0@, shape_view(t@[j].1)),
            i <= o@.len(),
            paths_view(out@) == missing_in(tm, om.take(i as int)),
        decreases o.len() - i,
    {
        let ghost before = out@;
        let ghost prefix = om.take(i + 1);
        assert(prefix.drop_last() =~= om.take(i as int));
        assert(prefix.last() == om[i as int]);
        let key = &o[i].0;
        let found = find_entry(t, key.as_str());
        match found {
            None => {
                let mut path: Vec<String> = Vec::new();
                path.push(key.clone());
                assert(path_view(path) =~= seq![key@]);
                out.push(path);
                proof {
                    lemma_paths_view_push(before, path);
                }
                assert(paths_view(out@) =~= paths_view(before) + seq![seq![key@]]);
            },
            Some(j) => {
                match (&t[j].1, &o[i].1) {
                    (TomlShape::Table(tc), TomlShape::Table(oc)) => {
                        assert(shape_view(t@[j as int].1) == ShapeModel::Table(entries_view(tc@)));
                        assert(om[i as int].1 == ShapeModel::Table(entries_view(oc@)));
                        assert(decreases_to!(o@ => oc@)) by {
                            assert(decreases_to!(o@ => o@[i as int]));
                            assert(decreases_to!(o@[i as int] => o@[i as int].1));
                        }
                        let sub = missing_in_entries(tc, oc);
                        let mut below = prepend_key(key, sub);
                        out.append(&mut below);
                        assert(paths_view(out@) =~= paths_view(before) + prefixed(
                            key@,
                            missing_in(entries_view(tc@), entries_view(oc@)),
                        ));
                    },
                    (TomlShape::Table(_), TomlShape::Value(_)) => {
                        assert(paths_view(out@) =~= paths_view(before) + Seq::empty());
                    },
                    (TomlShape::Value(_), _) => {
                        assert(paths_view(out@) =~= paths_view(before) + Seq::empty());
                    },
                }
            },
        }
        i = i + 1;
    }
    assert(om.take(i as int) =~= om);
    out
}

/// What becomes of the old settings table.
#[derive(Debug, Clone, PartialEq, Eq)]
pub enum TableStep {
    /// There is no new table: the old one, its key renamed, becomes the new one.
    Move,
    /// Both tables exist: each of these paths of the old table (its key renamed) is copied
    /// into the new table, in order, and the old table is dropped.
    Merge { copies: Vec<Vec<String>> },
}

/// The edit that migrates a settings file.
#[derive(Debug, Clone, PartialEq, Eq)]
pub struct MigrationPlan {
    /// What happens to the old key under the old table's `ssh` table; done first.
    pub ssh_key: SshKeyStep,
    /// What becomes of the old table; it is removed from the file either way.
    pub table: TableStep,
}

/// Plans the migration of a settings file whose top-level entries are `root`. Returns
/// `None` when there is no old table, so nothing is to be done.
///
/// The old table's key is renamed first. Then, without a new table, the old one becomes
/// it; with one, the old table is merged into it, the new table winning every conflict.
pub fn plan_migration(root: Vec<(String, TomlShape)>) -> (r: Option<MigrationPlan>)
    ensures
        ({
            let m = entries_view(root@);
            match lookup(m, OLD_TABLE@) {
                None => r is None,
                Some(old) => r matches Some(plan) && plan.ssh_key == ssh_step(old) && match lookup(
                    remove_key(m, OLD_TABLE@),
                    NEW_TABLE@,
                ) {
                    None => plan.table is Move,
                    Some(new) => plan.table matches TableStep::Merge { copies } && paths_view(
                        copies@,
                    ) == missing_paths(new, with_ssh_key_renamed(old)),
                },
            }
        }),
{
    let ghost m = entries_view(root@);
    proof {
        lemma_entries_view(root@);
    }
    let mut root = root;
    let i = match find_entry(&root, OLD_TABLE) {
        None => return None,
        Some(i) => i,
    };
    let ghost before = root@;
    let (_, old) = root.remove(i);
    assert(before[i as int].1 == old);
    proof {
        lemma_edit_at(m, OLD_TABLE@, ShapeModel::Value(Seq::empty()), i as int);
        lemma_entries_view_eq(root@, m.remove(i as int));
    }
    let ghost old_view = shape_view(old);
    let (ssh_key, renamed) = rename_ssh_key(old);
    match find_entry(&root, NEW_TABLE) {
        None => Some(MigrationPlan { ssh_key, table: TableStep::Move }),
        Some(j) => {
            let copies = match (&root[j].1, &renamed) {
                (TomlShape::Table(t), TomlShape::Table(o)) => missing_in_entries(t, o),
                _ => Vec::new(),
            };
            Some(MigrationPlan { ssh_key, table: TableStep::Merge { copies } })
        },
    }
}

/// Whether no two entries share a key, as in any TOML table.
pub open spec fn keys_distinct(e: Seq<(Seq<char>, ShapeModel)>) -> bool {
    forall|i: int, j: int| 0 <= i < j < e.len() ==> #[trigger] e[i].0 != #[trigger] e[j].0
}

/// The new table's entries `t` after the old table's entries `o` are merged into them,
/// key by key in order: a key `t` lacks is added with the old item, last; where both hold a
/// table the two are merged; otherwise `t`'s item stays.
pub open spec fn merged_entries(
    t: Seq<(Seq<char>, ShapeModel)>,
    o: Seq<(Seq<char>, ShapeModel)>,
) -> Seq<(Seq<char>, ShapeModel)>
    decreases o,
{
    if o.len() == 0 {
        t
    } else {
        let t1 = merged_entries(t, o.drop_last());
        let k = o.last().0;
        match lookup(t1, k) {
            None => t1.push((k, o.last().1)),
            Some(ShapeModel::Table(tc)) => match o.last().1 {
                ShapeModel::Table(oc) => set_key(t1, k, ShapeModel::Table(merged_entries(tc, oc))),
                ShapeModel::Value(_) => t1,
            },
            Some(ShapeModel::Value(_)) => t1,
        }
    }
}

/// The new table after the old one is merged into it: unchanged unless both are tables.
pub open spec fn merged(new: ShapeModel, old: ShapeModel) -> ShapeModel {
    match (new, old) {
        (ShapeModel::Table(t), ShapeModel::Table(o)) => ShapeModel::Table(merged_entries(t, o)),
        _ => new,
    }
}

/// The top-level entries of a settings file after its migration.
pub open spec fn migrated_root(m: Seq<(Seq<char>, ShapeModel)>) -> Seq<(Seq<char>, ShapeModel)> {
    match lookup(m, OLD_TABLE@) {
        None => m,
        Some(old) => {
            let w = remove_key(m, OLD_TABLE@);
            let renamed = with_ssh_key_renamed(old);
            match lookup(w, NEW_TABLE@) {
                None => w.push((NEW_TABLE@, renamed)),
                Some(new) => set_key(w, NEW_TABLE@, merged(new, renamed)),
            }
        },
    }
}

/// The item at the key path `p` below the entries `e`, if there is one.
pub open spec fn item_at(e: Seq<(Seq<char>, ShapeModel)>, p: Seq<Seq<char>>) -> Option<ShapeModel>
    decreases p.len(),
{
    if p.len() == 0 {
        Some(ShapeModel::Table(e))
    } else {
        match lookup(e, p[0]) {
            None => None,
            Some(x) => if p.len() == 1 {
                Some(x)
            } else {
                match x {
                    ShapeModel::Table(c) => item_at(c, p.drop_first()),
                    ShapeModel::Value(_) => None,
                }
            },
        }
    }
}

/// Lookup after appending an entry.
pub proof fn lemma_lookup_push(e: Seq<(Seq<char>, ShapeModel)>, k: Seq<char>, v: ShapeModel, k2: Seq<char>)
    ensures
        lookup(e.push((k, v)), k2) == if lookup(e, k2) is Some {
            lookup(e, k2)
        } else if k == k2 {
            Some(v)
        } else {
            None
        },
    decreases e.len(),
{
    if e.len() > 0 {
        assert(e.push((k, v))[0] == e[0]);
        assert(e.push((k, v)).drop_first() =~= e.drop_first().push((k, v)));
        lemma_lookup_push(e.drop_first(), k, v, k2);
    } else {
        assert(e.push((k, v))[0] == (k, v));
        assert(e.push((k, v)).drop_first().len() == 0);
        assert(lookup(e.push((k, v)).drop_first(), k2) is None);
        assert(lookup(e, k2) is None);
    }
}

/// Lookup after replacing the item of a key.
pub proof fn lemma_lookup_set_key(e: Seq<(Seq<char>, ShapeModel)>, k: Seq<char>, v: ShapeModel, k2: Seq<char>)
    ensures
        lookup(set_key(e, k, v), k2) == if k2 == k && lookup(e, k) is Some {
            Some(v)
        } else {
            lookup(e, k2)
        },
    decreases e.len(),
{
    if e.len() > 0 {
        if e[0].0 == k {
            assert((seq![(k, v)] + e.drop_first()).drop_first() =~= e.drop_first());
        } else {
            assert((seq![e[0]] + set_key(e.drop_first(), k, v)).drop_first() =~= set_key(
                e.drop_first(),
                k,
                v,
            ));
            lemma_lookup_set_key(e.drop_first(), k, v, k2);
        }
    }
}

/// Lookup after removing a key: other keys are unaffected, and with distinct keys the
/// removed one is gone.
pub proof fn lemma_lookup_remove(e: Seq<(Seq<char>, ShapeModel)>, k: Seq<char>, k2: Seq<char>)
    ensures
        k2 != k ==> lookup(remove_key(e, k), k2) == lookup(e, k2),
        keys_distinct(e) ==> lookup(remove_key(e, k), k) is None,
    decreases e.len(),
{
    if e.len() > 0 {
        let t = e.drop_first();
        assert(keys_distinct(e) ==> keys_distinct(t)) by {
            if keys_distinct(e) {
                assert forall|i: int, j: int| 0 <= i < j < t.len() implies #[trigger] t[i].0
                    != #[trigger] t[j].0 by {
                    assert(t[i] == e[i + 1] && t[j] == e[j + 1]);
                }
            }
        }
        lemma_lookup_remove(t, k, k2);
        if e[0].0 == k {
            if keys_distinct(e) {
                assert forall|j: int| 0 <= j < t.len() implies #[trigger] t[j].0 != k by {
                    assert(t[j] == e[j + 1]);
                }
                lemma_lookup_at(t, k, 0);
            }
        } else {
            assert((seq![e[0]] + remove_key(t, k)).drop_first() =~= remove_key(t, k));
        }
    }
}

/// The two table names differ.
proof fn lemma_table_names_differ()
    ensures
        OLD_TABLE@ != NEW_TABLE@,
{
    reveal_strlit("warpify");
    reveal_strlit("heddlify");
    assert(OLD_TABLE@[0] != NEW_TABLE@[0]);
}

/// Law: the migration is idempotent. With distinct top-level keys, as in any TOML file, a
/// migrated file has no old table left and has a new one, so planning it again finds
/// nothing to do; a file without an old table is left as it is.
pub proof fn lemma_migration_is_idempotent(m: Seq<(Seq<char>, ShapeModel)>)
    requires
        keys_distinct(m),
    ensures
        lookup(m, OLD_TABLE@) is Some ==> lookup(migrated_root(m), OLD_TABLE@) is None && lookup(
            migrated_root(m),
            NEW_TABLE@,
        ) is Some,
        lookup(m, OLD_TABLE@) is None ==> migrated_root(m) == m,
{
    lemma_table_names_differ();
    if let Some(old) = lookup(m, OLD_TABLE@) {
        let w = remove_key(m, OLD_TABLE@);
        let renamed = with_ssh_key_renamed(old);
        lemma_lookup_remove(m, OLD_TABLE@, OLD_TABLE@);
        match lookup(w, NEW_TABLE@) {
            None => {
                lemma_lookup_push(w, NEW_TABLE@, renamed, OLD_TABLE@);
                lemma_lookup_push(w, NEW_TABLE@, renamed, NEW_TABLE@);
            },
            Some(new) => {
                lemma_lookup_set_key(w, NEW_TABLE@, merged(new, renamed), OLD_TABLE@);
                lemma_lookup_set_key(w, NEW_TABLE@, merged(new, renamed), NEW_TABLE@);
            },
        }
    }
}

/// Law: merging loses no key. Every key of the new table and every key of the old one is
/// a key of the merged table, and the merged table has no other.
pub proof fn lemma_merge_keeps_every_key(
    t: Seq<(Seq<char>, ShapeModel)>,
    o: Seq<(Seq<char>, ShapeModel)>,
    k: Seq<char>,
)
    ensures
        lookup(merged_entries(t, o), k) is Some <==> (lookup(t, k) is Some || lookup(o, k) is Some),
    decreases o.len(),
{
    if o.len() > 0 {
        let p = o.drop_last();
        let t1 = merged_entries(t, p);
        let kl = o.last().0;
        lemma_merge_keeps_every_key(t, p, k);
        assert(o =~= p.push(o.last()));
        lemma_lookup_push(p, kl, o.last().1, k);
        match lookup(t1, kl) {
            None => {
                lemma_lookup_push(t1, kl, o.last().1, k);
            },
            Some(ShapeModel::Table(tc)) => match o.last().1 {
                ShapeModel::Table(oc) => {
                    lemma_lookup_set_key(t1, kl, ShapeModel::Table(merged_entries(tc, oc)), k);
                },
                ShapeModel::Value(_) => {},
            },
            Some(ShapeModel::Value(_)) => {},
        }
    }
}

/// Law: the new table wins every conflict. A plain value of the new table is kept as it is
/// by the merge, whatever the old table held under its key.
pub proof fn lemma_merge_keeps_new_values(
    t: Seq<(Seq<char>, ShapeModel)>,
    o: Seq<(Seq<char>, ShapeModel)>,
    k: Seq<char>,
)
    requires
        lookup(t, k) matches Some(ShapeModel::Value(_)),
    ensures
        lookup(merged_entries(t, o), k) == lookup(t, k),
    decreases o.len(),
{
    if o.len() > 0 {
        let p = o.drop_last();
        let t1 = merged_entries(t, p);
        let kl = o.last().0;
        lemma_merge_keeps_new_values(t, p, k);
        match lookup(t1, kl) {
            None => {
                lemma_lookup_push(t1, kl, o.last().1, k);
            },
            Some(ShapeModel::Table(tc)) => match o.last().1 {
                ShapeModel::Table(oc) => {
                    lemma_lookup_set_key(t1, kl, ShapeModel::Table(merged_entries(tc, oc)), k);
                },
                ShapeModel::Value(_) => {},
            },
            Some(ShapeModel::Value(_)) => {},
        }
    }
}

/// Law: every path the merge copies lands outside the new table, under a table of it: a
/// copy never overwrites anything the new table defines.
pub proof fn lemma_copies_never_overwrite(
    t: Seq<(Seq<char>, ShapeModel)>,
    o: Seq<(Seq<char>, ShapeModel)>,
    p: Seq<Seq<char>>,
)
    requires
        missing_in(t, o).contains(p),
    ensures
        p.len() >= 1,
        item_at(t, p) is None,
        item_at(t, p.drop_last()) matches Some(ShapeModel::Table(_)),
    decreases o,
{
    let prev = o.drop_last();
    let k = o.last().0;
    let here = match lookup(t, k) {
        None => seq![seq![k]],
        Some(ShapeModel::Table(tc)) => match o.last().1 {
            ShapeModel::Table(oc) => prefixed(k, missing_in(tc, oc)),
            ShapeModel::Value(_) => Seq::empty(),
        },
        Some(ShapeModel::Value(_)) => Seq::empty(),
    };
    assert(missing_in(t, o) == missing_in(t, prev) + here);
    let n = missing_in(t, prev).len();
    let idx = choose|idx: int| 0 <= idx < missing_in(t, o).len() && missing_in(t, o)[idx] == p;
    if idx < n {
        assert(missing_in(t, prev)[idx] == p);
        lemma_copies_never_overwrite(t, prev, p);
    } else {
        assert(here[idx - n] == p);
        match lookup(t, k) {
            None => {
                assert(p == seq![k]);
                assert(p.drop_last() =~= Seq::<Seq<char>>::empty());
            },
            Some(ShapeModel::Table(tc)) => match o.last().1 {
                ShapeModel::Table(oc) => {
                    let q = missing_in(tc, oc)[idx - n];
                    assert(p == seq![k] + q);
                    assert(missing_in(tc, oc).contains(q));
                    assert(decreases_to!(o => oc)) by {
                        assert(decreases_to!(o => o[o.len() - 1]));
                        assert(decreases_to!(o[o.len() - 1] => o[o.len() - 1].1));
                    }
                    lemma_copies_never_overwrite(tc, oc, q);
                    assert(p.drop_first() =~= q);
                    if q.len() == 1 {
                        assert(p.drop_last() =~= seq![k]);
                    } else {
                        assert(p.drop_last() =~= seq![k] + q.drop_last());
                        assert(p.drop_last().drop_first() =~= q.drop_last());
                    }
                },
                ShapeModel::Value(_) => {},
            },
            Some(ShapeModel::Value(_)) => {},
        }
    }
}

/// The two key names differ.
proof fn lemma_ssh_key_names_differ()
    ensures
        OLD_SSH_KEY@ != NEW_SSH_KEY@,
{
    reveal_strlit("enable_ssh_warpification");
    reveal_strlit("enable_ssh_heddlification");
    assert(OLD_SSH_KEY@[12] != NEW_SSH_KEY@[12]);
}

/// Law: renaming the key moves its value and nothing else. Afterwards the old table's
/// `ssh` table has no old key; the new key holds what it already held, or else the old
/// key's item; every other key is untouched.
pub proof fn lemma_ssh_rename_moves_the_value(old: ShapeModel, k: Seq<char>)
    requires
        ssh_entries(old) matches Some(s) && keys_distinct(s),
    ensures
        ({
            let s = ssh_entries(old)->0;
            let r = ssh_entries(with_ssh_key_renamed(old))->0;
            &&& ssh_entries(with_ssh_key_renamed(old)) is Some
            &&& lookup(r, OLD_SSH_KEY@) is None
            &&& lookup(r, NEW_SSH_KEY@) == if lookup(s, NEW_SSH_KEY@) is Some {
                lookup(s, NEW_SSH_KEY@)
            } else {
                lookup(s, OLD_SSH_KEY@)
            }
            &&& k != OLD_SSH_KEY@ && k != NEW_SSH_KEY@ ==> lookup(r, k) == lookup(s, k)
        }),
{
    let s = ssh_entries(old)->0;
    let e = old->Table_0;
    let r = renamed_ssh_entries(s);
    lemma_ssh_key_names_differ();
    lemma_lookup_set_key(e, SSH_TABLE@, ShapeModel::Table(r), SSH_TABLE@);
    assert(ssh_entries(with_ssh_key_renamed(old)) == Some(r));
    if let Some(v) = lookup(s, OLD_SSH_KEY@) {
        let w = remove_key(s, OLD_SSH_KEY@);
        lemma_lookup_remove(s, OLD_SSH_KEY@, OLD_SSH_KEY@);
        lemma_lookup_remove(s, OLD_SSH_KEY@, NEW_SSH_KEY@);
        lemma_lookup_remove(s, OLD_SSH_KEY@, k);
        if lookup(w, NEW_SSH_KEY@) is None {
            lemma_lookup_push(w, NEW_SSH_KEY@, v, OLD_SSH_KEY@);
            lemma_lookup_push(w, NEW_SSH_KEY@, v, NEW_SSH_KEY@);
            lemma_lookup_push(w, NEW_SSH_KEY@, v, k);
        }
    }
}

} // verus!
