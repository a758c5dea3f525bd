//! Renamed action IDs and the edits made to the stored keybindings.
//!
//! An action ID written into `keybindings.yaml` is a persistence contract, not just a name.
//! The loader hands whatever the file says to the keymap, and an ID matching no registered
//! action is silently ignored -- so renaming one would turn every existing user binding for
//! it inert. Renamed IDs therefore keep resolving through a fixed table of
//! `(old, current)` pairs, and every write or removal of a current ID also drops the stale
//! spellings of the same action from the file.

use vstd::prelude::*;
use crate::footer::HEDDLIFY_SUBSHELL_ACTION;
use crate::keymap::KeybindingMap;
use crate::text::{
    join_with_spaces, join_with_spaces_spec, split_whitespace, split_whitespace_spec, str_eq,
};

verus! {

/// The file the keybindings are stored in, inside the configuration directory.
pub const KEYBINDINGS_FILE_NAME: &'static str = "keybindings.yaml";

/// Action IDs that have been renamed, as `(old, current)`. Entries stay here forever.
pub open spec fn renamed_actions() -> Seq<(Seq<char>, Seq<char>)> {
    seq![
        ("terminal:warpify_subshell"@, "terminal:heddlify_subshell"@),
        ("workspace:show_settings_warpify_page"@, "workspace:show_settings_heddlify_page"@),
    ]
}

/// The current name of `name` according to `table`: the first matching entry's current
/// name, or `name` itself when no entry matches.
pub open spec fn canonical_in(table: Seq<(Seq<char>, Seq<char>)>, name: Seq<char>) -> Seq<char>
    decreases table.len(),
{
    if table.len() == 0 {
        name
    } else if table[0].0 == name {
        table[0].1
    } else {
        canonical_in(table.drop_first(), name)
    }
}

/// The old names in `table` whose current name is `current`, in table order.
pub open spec fn aliases_in(table: Seq<(Seq<char>, Seq<char>)>, current: Seq<char>) -> Seq<
    Seq<char>,
>
    decreases table.len(),
{
    if table.len() == 0 {
        Seq::empty()
    } else if table.last().1 == current {
        aliases_in(table.drop_last(), current).push(table.last().0)
    } else {
        aliases_in(table.drop_last(), current)
    }
}

/// The action ID the app registers today for `name`.
pub open spec fn canonical_action(name: Seq<char>) -> Seq<char> {
    canonical_in(renamed_actions(), name)
}

/// The legacy IDs that alias `current`.
pub open spec fn legacy_aliases(current: Seq<char>) -> Seq<Seq<char>> {
    aliases_in(renamed_actions(), current)
}

/// `m` without any of `names`.
pub open spec fn without_names<V>(m: Map<Seq<char>, V>, names: Seq<Seq<char>>) -> Map<
    Seq<char>,
    V,
> {
    m.remove_keys(names.to_set())
}

/// The stored bindings after `value` is recorded for `name`.
pub open spec fn binding_written<V>(m: Map<Seq<char>, V>, name: Seq<char>, value: V) -> Map<
    Seq<char>,
    V,
> {
    without_names(m, legacy_aliases(name)).insert(name, value)
}

/// The stored bindings after `name` is forgotten.
pub open spec fn binding_removed<V>(m: Map<Seq<char>, V>, name: Seq<char>) -> Map<Seq<char>, V> {
    without_names(m, legacy_aliases(name)).remove(name)
}

/// The renamed-action table as executable data.
fn renamed_actions_table() -> (r: Vec<(&'static str, &'static str)>)
    ensures
        r@.len() == renamed_actions().len(),
        forall|i: int|
            0 <= i < r@.len() ==> (#[trigger] r@[i]).0@ == renamed_actions()[i].0 && r@[i].1@
                == renamed_actions()[i].1,
{
    let mut table: Vec<(&'static str, &'static str)> = Vec::new();
    table.push(("terminal:warpify_subshell", "terminal:heddlify_subshell"));
    table.push(("workspace:show_settings_warpify_page", "workspace:show_settings_heddlify_page"));
    table
}

/// Maps a possibly-legacy action ID to the one the app registers today.
///
/// Unknown IDs pass through untouched: this exists to rescue renamed actions, not to
/// validate them, and a typo should still reach the loader's warning path.
pub fn canonical_action_name(name: &str) -> (r: &str)
    ensures
        r@ == canonical_action(name@),
{
    let table = renamed_actions_table();
    let ghost t = renamed_actions();
    let mut i: usize = 0;
    assert(t.subrange(0, t.len() as int) =~= t);
    while i < table.len()
        invariant
            table@.len() == t.len(),
            forall|j: int|
                0 <= j < table@.len() ==> (#[trigger] table@[j]).0@ == t[j].0 && table@[j].1@
                    == t[j].1,
            i <= table@.len(),
            canonical_action(name@) == canonical_in(t.subrange(i as int, t.len() as int), name@),
        decreases table.len() - i,
    {
        let ghost rest = t.subrange(i as int, t.len() as int);
        assert(rest.drop_first() =~= t.subrange(i + 1, t.len() as int));
        assert(rest[0] == t[i as int]);
        let (old, current) = table[i];
        if str_eq(old, name) {
            return current;
        }
        i = i + 1;
    }
    name
}

/// The legacy IDs that alias `current`.
fn legacy_aliases_for(current: &str) -> (r: Vec<&'static str>)
    ensures
        r@.len() == legacy_aliases(current@).len(),
        forall|i: int| 0 <= i < r@.len() ==> (#[trigger] r@[i])@ == legacy_aliases(current@)[i],
{
    let table = renamed_actions_table();
    let ghost t = renamed_actions();
    let mut out: Vec<&'static str> = Vec::new();
    let mut i: usize = 0;
    while i < table.len()
        invariant
            table@.len() == t.len(),
            forall|j: int|
                0 <= j < table@.len() ==> (#[trigger] table@[j]).0@ == t[j].0 && table@[j].1@
                    == t[j].1,
            i <= table@.len(),
            out@.len() == aliases_in(t.take(i as int), current@).len(),
            forall|j: int|
                0 <= j < out@.len() ==> (#[trigger] out@[j])@ == aliases_in(
                    t.take(i as int),
                    current@,
                )[j],
        decreases table.len() - i,
    {
        assert(t.take(i + 1).drop_last() =~= t.take(i as int));
        let (old, canonical) = table[i];
        if str_eq(canonical, current) {
            out.push(old);
        }
        i = i + 1;
    }
    assert(t.take(t.len() as int) =~= t);
    out
}

/// The names in a one-longer prefix are those of the prefix and the next name.
proof fn lemma_take_to_set_step(names: Seq<Seq<char>>, i: int)
    requires
        0 <= i < names.len(),
    ensures
        names.take(i + 1).to_set() == names.take(i).to_set().insert(names[i]),
{
    let a = names.take(i + 1);
    let b = names.take(i);
    assert forall|x: Seq<char>| a.to_set().contains(x) <==> b.to_set().insert(names[i]).contains(
        x,
    ) by {
        if a.contains(x) {
            let j = choose|j: int| 0 <= j < a.len() && a[j] == x;
            if j < i {
                assert(b[j] == x);
                assert(b.contains(x));
            }
        }
        if b.contains(x) {
            let j = choose|j: int| 0 <= j < b.len() && b[j] == x;
            assert(a[j] == x);
        }
        if x == names[i] {
            assert(a[i] == x);
        }
    }
    assert(a.to_set() =~= b.to_set().insert(names[i]));
}

/// Removes every legacy spelling of `current` from `map`, returning how many were dropped.
fn purge_legacy_aliases<V>(map: &mut KeybindingMap<V>, current: &str) -> (r: usize)
    ensures
        final(map)@ == without_names(old(map)@, legacy_aliases(current@)),
        old(map)@.dom().finite(),
        r == old(map)@.len() - final(map)@.len(),
{
    let aliases = legacy_aliases_for(current);
    let ghost names = legacy_aliases(current@);
    let ghost start = map@;
    let mut dropped: usize = 0;
    let mut i: usize = 0;
    let _ = map.len();
    while i < aliases.len()
        invariant
            aliases@.len() == names.len(),
            forall|j: int| 0 <= j < aliases@.len() ==> (#[trigger] aliases@[j])@ == names[j],
            i <= aliases@.len(),
            start.dom().finite(),
            map@ == without_names(start, names.take(i as int)),
            map@.dom().finite(),
            dropped == start.len() - map@.len(),
            dropped <= i,
        decreases aliases.len() - i,
    {
        let ghost before = map@;
        let removed = map.remove(aliases[i]);
        if removed.is_some() {
            dropped = dropped + 1;
        }
        proof {
            lemma_take_to_set_step(names, i as int);
            assert(map@ =~= without_names(start, names.take(i + 1)));
        }
        i = i + 1;
    }
    assert(names.take(names.len() as int) =~= names);
    dropped
}

/// Records `value` for `name`, dropping any stale spelling of the same action.
pub fn apply_binding_write<V>(map: &mut KeybindingMap<V>, name: String, value: V)
    ensures
        final(map)@ == binding_written(old(map)@, name@, value),
{
    purge_legacy_aliases(map, name.as_str());
    map.insert(name, value);
}

/// Forgets `name`, along with any stale spelling of the same action.
///
/// Removing only the current ID would leave a legacy entry behind to be re-applied on the
/// next launch, quietly reversing the reset the user just asked for.
pub fn apply_binding_removal<V>(map: &mut KeybindingMap<V>, name: &str)
    ensures
        final(map)@ == binding_removed(old(map)@, name@),
{
    purge_legacy_aliases(map, name);
    map.remove(name);
}

/// When this environment variable is set, keybindings are not saved (integration tests
/// must not clobber the user's file).
pub const DISABLE_SAVE_ENV_VAR: &'static str = "WARP_TEST_DISABLE_KEYBINDING_SAVE";

/// The path of the file `name` inside the directory `dir`, with `/` as separator.
pub open spec fn joined_path(dir: Seq<char>, name: Seq<char>) -> Seq<char> {
    if dir.len() == 0 {
        name
    } else if dir.last() == '/' {
        dir + name
    } else {
        dir + seq!['/'] + name
    }
}

/// The path of the keybindings file inside the configuration directory `config_local_dir`.
pub fn keybinding_file_path(config_local_dir: &str) -> (r: String)
    ensures
        r@ == joined_path(config_local_dir@, KEYBINDINGS_FILE_NAME@),
{
    let chars = crate::text::chars_of(config_local_dir);
    let mut path = String::from_str(config_local_dir);
    if chars.len() > 0 && chars[chars.len() - 1] != '/' {
        path.append("/");
        proof {
            reveal_strlit("/");
        }
    }
    path.append(KEYBINDINGS_FILE_NAME);
    path
}

/// The stored bindings, or none when nothing could be read.
pub open spec fn stored_or_empty<V>(stored: Option<KeybindingMap<V>>) -> Map<Seq<char>, V> {
    match stored {
        Some(m) => m@,
        None => Map::empty(),
    }
}

/// The bindings to save after the user binds `name` to `value`: what is stored (nothing,
/// when the file could not be read), with `value` for `name` and no stale spelling of it.
pub fn write_custom_keybinding<V>(stored: Option<KeybindingMap<V>>, name: String, value: V) -> (r:
    KeybindingMap<V>)
    ensures
        r@ == binding_written(stored_or_empty(stored), name@, value),
{
    let mut map = match stored {
        Some(m) => m,
        None => KeybindingMap::new(),
    };
    apply_binding_write(&mut map, name, value);
    map
}

/// The bindings to save after the user resets `name`: what is stored (nothing, when the
/// file could not be read), without `name` or any stale spelling of it.
pub fn remove_custom_keybinding<V>(stored: Option<KeybindingMap<V>>, name: &str) -> (r:
    KeybindingMap<V>)
    ensures
        r@ == binding_removed(stored_or_empty(stored), name@),
{
    let mut map = match stored {
        Some(m) => m,
        None => KeybindingMap::new(),
    };
    apply_binding_removal(&mut map, name);
    map
}

/// The four names of the table are pairwise distinct: no current name is an old name,
/// and the two actions do not share a name.
proof fn lemma_table_names_distinct()
    ensures
        renamed_actions()[0].0 != renamed_actions()[0].1,
        renamed_actions()[0].0 != renamed_actions()[1].1,
        renamed_actions()[1].0 != renamed_actions()[0].1,
        renamed_actions()[1].0 != renamed_actions()[1].1,
        renamed_actions()[0].0 != renamed_actions()[1].0,
        renamed_actions()[0].1 != renamed_actions()[1].1,
{
    reveal_strlit("terminal:warpify_subshell");
    reveal_strlit("terminal:heddlify_subshell");
    reveal_strlit("workspace:show_settings_warpify_page");
    reveal_strlit("workspace:show_settings_heddlify_page");
    assert("terminal:warpify_subshell"@[9] != "terminal:heddlify_subshell"@[9]);
    assert("terminal:warpify_subshell"@[0] != "workspace:show_settings_heddlify_page"@[0]);
    assert("workspace:show_settings_warpify_page"@[0] != "terminal:heddlify_subshell"@[0]);
    assert("workspace:show_settings_warpify_page"@[24] != "workspace:show_settings_heddlify_page"@[24]);
    assert("terminal:warpify_subshell"@[0] != "workspace:show_settings_warpify_page"@[0]);
    assert("terminal:heddlify_subshell"@[0] != "workspace:show_settings_heddlify_page"@[0]);
}

/// How the table resolves each name, spelled out.
proof fn lemma_canonical_cases(name: Seq<char>)
    ensures
        name == renamed_actions()[0].0 ==> canonical_action(name) == renamed_actions()[0].1,
        name == renamed_actions()[1].0 ==> canonical_action(name) == renamed_actions()[1].1,
        name != renamed_actions()[0].0 && name != renamed_actions()[1].0 ==> canonical_action(
            name,
        ) == name,
        legacy_aliases(name) == if name == renamed_actions()[0].1 {
            seq![renamed_actions()[0].0]
        } else if name == renamed_actions()[1].1 {
            seq![renamed_actions()[1].0]
        } else {
            Seq::<Seq<char>>::empty()
        },
{
    let t = renamed_actions();
    lemma_table_names_distinct();
    reveal_with_fuel(canonical_in, 3);
    reveal_with_fuel(aliases_in, 3);
    assert(t.drop_first().drop_first() =~= Seq::<(Seq<char>, Seq<char>)>::empty());
    assert(t.drop_last().drop_last() =~= Seq::<(Seq<char>, Seq<char>)>::empty());
    assert(t.drop_first()[0] == t[1]);
    assert(t.drop_last().last() == t[0]);
}

/// Law: canonicalising is idempotent. A current name is never itself a legacy name, so an
/// ID that has been rescued once is not rewritten again.
pub proof fn lemma_canonical_action_idempotent(name: Seq<char>)
    ensures
        canonical_action(canonical_action(name)) == canonical_action(name),
{
    lemma_table_names_distinct();
    lemma_canonical_cases(name);
    lemma_canonical_cases(canonical_action(name));
}

/// Law: the only names that resolve to `current` are `current` itself and its legacy
/// aliases.
pub proof fn lemma_canonical_preimage(name: Seq<char>, current: Seq<char>)
    requires
        canonical_action(name) == current,
    ensures
        name == current || legacy_aliases(current).contains(name),
{
    lemma_table_names_distinct();
    lemma_canonical_cases(name);
    lemma_canonical_cases(current);
    if name != current {
        assert(legacy_aliases(current)[0] == name);
    }
}

/// Law: a reset does not undo itself. After `name` is removed, no stored entry resolves
/// to `name` any more, so nothing re-applies a binding for it on the next launch.
pub proof fn lemma_removal_leaves_nothing_resolving_to_name<V>(m: Map<Seq<char>, V>, name: Seq<char>)
    ensures
        forall|k: Seq<char>| #[trigger]
            binding_removed(m, name).contains_key(k) ==> canonical_action(k) != name,
{
    assert forall|k: Seq<char>| #[trigger]
        binding_removed(m, name).contains_key(k) implies canonical_action(k) != name by {
        if canonical_action(k) == name {
            lemma_canonical_preimage(k, name);
            if k != name {
                assert(legacy_aliases(name).to_set().contains(k));
            }
        }
    }
}

/// Law: after a write, `name` holds the written value and is the only stored entry that
/// resolves to `name`; every entry for another action is unchanged.
pub proof fn lemma_write_is_the_only_binding<V>(m: Map<Seq<char>, V>, name: Seq<char>, value: V)
    ensures
        binding_written(m, name, value).contains_key(name),
        binding_written(m, name, value)[name] == value,
        forall|k: Seq<char>| #[trigger]
            binding_written(m, name, value).contains_key(k) && canonical_action(k) == name
                ==> k == name,
        forall|k: Seq<char>|
            canonical_action(k) != name && k != name ==> (#[trigger] binding_written(
                m,
                name,
                value,
            ).contains_key(k) <==> m.contains_key(k)),
{
    assert forall|k: Seq<char>| #[trigger]
        binding_written(m, name, value).contains_key(k) && canonical_action(k) == name
            implies k == name by {
        lemma_canonical_preimage(k, name);
        if k != name {
            assert(legacy_aliases(name).to_set().contains(k));
        }
    }
    assert forall|k: Seq<char>|
        canonical_action(k) != name && k != name implies (#[trigger] binding_written(
            m,
            name,
            value,
        ).contains_key(k) <==> m.contains_key(k)) by {
        lemma_canonical_cases(name);
        lemma_canonical_cases(k);
        if legacy_aliases(name).to_set().contains(k) {
            let j = choose|j: int| 0 <= j < legacy_aliases(name).len() && legacy_aliases(name)[j] == k;
            assert(legacy_aliases(name)[j] == k);
        }
    }
}

/// Law: removing a binding right after writing it leaves the stored bindings as removing
/// it alone would. A write followed by a reset is a reset.
pub proof fn lemma_removal_undoes_write<V>(m: Map<Seq<char>, V>, name: Seq<char>, value: V)
    ensures
        binding_removed(binding_written(m, name, value), name) == binding_removed(m, name),
{
    assert(binding_removed(binding_written(m, name, value), name) =~= binding_removed(m, name));
}

/// What the keybindings file stores for an action whose default binding the user removed.
pub const REMOVED_KEYBINDING_SERIALIZATION: &'static str = "none";

/// A keybinding provided by a user in their keybindings file: either a non-empty series
/// of keystrokes, or the removal of the action's binding.
#[derive(PartialEq, Debug)]
pub enum UserDefinedKeybinding<K> {
    /// Keystrokes that were parsed and will be recognized. Never empty.
    Keystrokes(Vec<K>),
    /// The user chose to remove the keybinding for an action.
    Removed,
}

/// The normalized text of a keystroke or series of keystrokes, as written into the
/// keybindings file. Multiple keystrokes are separated by a space.
#[derive(Debug, PartialEq, Clone)]
pub struct PersistedTrigger(pub String);

/// Why a stored trigger could not be read.
#[derive(Debug, PartialEq, Clone)]
pub enum TriggerError {
    /// One of the trigger's keystrokes did not parse.
    UnparsableKeystroke { keystroke: String },
    /// The trigger holds no keystrokes at all.
    NoKeystrokes,
}

/// The stored text of a keybinding whose keystrokes are given in normalized form.
pub open spec fn persisted_text(kb: UserDefinedKeybinding<String>) -> Seq<char> {
    match kb {
        UserDefinedKeybinding::Keystrokes(ks) => join_with_spaces_spec(
            ks@.map_values(|k: String| k@),
        ),
        UserDefinedKeybinding::Removed => "none"@,
    }
}

impl PersistedTrigger {
    /// The persisted form of a keybinding whose keystrokes are given normalized: the
    /// keystrokes joined by spaces, or `none` for a removed binding.
    pub fn from_keybinding(kb: &UserDefinedKeybinding<String>) -> (r: PersistedTrigger)
        ensures
            r.0@ == persisted_text(*kb),
    {
        match kb {
            UserDefinedKeybinding::Keystrokes(ks) => PersistedTrigger(join_with_spaces(ks)),
            UserDefinedKeybinding::Removed => PersistedTrigger(
                REMOVED_KEYBINDING_SERIALIZATION.to_owned(),
            ),
        }
    }
}

/// Whether `f`, called on some string holding `word`, may return `result`.
pub open spec fn parses_to<K, F: Fn(&str) -> Option<K>>(f: F, word: Seq<char>, result: Option<K>) -> bool {
    exists|w: &str| w@ == word && #[trigger] call_ensures(f, (w,), result)
}

/// Whether each of the first `i` words parsed with `f`, to the keystrokes of some list.
pub open spec fn all_parse_before<K, F: Fn(&str) -> Option<K>>(f: F, words: Seq<Seq<char>>, i: int) -> bool {
    exists|ks: Seq<K>|
        #![trigger ks.len()]
        ks.len() == i && forall|j: int| 0 <= j < i ==> #[trigger] parses_to(f, words[j], Some(ks[j]))
}

impl<K> UserDefinedKeybinding<K> {
    /// The keybinding of the single keystroke `value`.
    pub fn keystroke(value: K) -> (r: Self)
        ensures
            r matches UserDefinedKeybinding::Keystrokes(ks) && ks@ == seq![value],
    {
        let mut ks: Vec<K> = Vec::new();
        ks.push(value);
        UserDefinedKeybinding::Keystrokes(ks)
    }

    /// Reads a stored trigger, parsing each white-space separated keystroke with
    /// `parse_keystroke`.
    ///
    /// `none` is a removed binding. Otherwise the first keystroke that does not parse is
    /// reported (every word before it parsed), and a trigger without any keystroke is
    /// refused.
    pub fn try_from_trigger<F: Fn(&str) -> Option<K>>(
        trigger: &PersistedTrigger,
        parse_keystroke: F,
    ) -> (r: Result<Self, TriggerError>)
        requires
            forall|w: &str| call_requires(parse_keystroke, (w,)),
        ensures
            r matches Ok(UserDefinedKeybinding::Removed) <==> trigger.0@ == "none"@,
            r matches Err(TriggerError::NoKeystrokes) <==> (trigger.0@ != "none"@
                && split_whitespace_spec(trigger.0@).len() == 0),
            r matches Ok(UserDefinedKeybinding::Keystrokes(ks)) ==> {
                let words = split_whitespace_spec(trigger.0@);
                &&& trigger.0@ != "none"@
                &&& ks@.len() == words.len()
                &&& ks@.len() > 0
                &&& forall|i: int|
                    0 <= i < ks@.len() ==> #[trigger] parses_to(
                        parse_keystroke,
                        words[i],
                        Some(ks@[i]),
                    )
            },
            r matches Err(TriggerError::UnparsableKeystroke { keystroke }) ==> {
                let words = split_whitespace_spec(trigger.0@);
                &&& trigger.0@ != "none"@
                &&& exists|i: int|
                    0 <= i < words.len() && keystroke@ == words[i] && #[trigger] parses_to(
                        parse_keystroke,
                        words[i],
                        None::<K>,
                    ) && all_parse_before(parse_keystroke, words, i)
            },
    {
        if str_eq(trigger.0.as_str(), REMOVED_KEYBINDING_SERIALIZATION) {
            return Ok(UserDefinedKeybinding::Removed);
        }
        let words = split_whitespace(trigger.0.as_str());
        let ghost spec_words = split_whitespace_spec(trigger.0@);
        let mut keystrokes: Vec<K> = Vec::new();
        let mut i: usize = 0;
        while i < words.len()
            invariant
                forall|w: &str| call_requires(parse_keystroke, (w,)),
                trigger.0@ != "none"@,
                spec_words == split_whitespace_spec(trigger.0@),
                words@.len() == spec_words.len(),
                forall|j: int| 0 <= j < words@.len() ==> (#[trigger] words@[j])@ == spec_words[j],
                i <= words@.len(),
                keystrokes@.len() == i,
                forall|j: int|
                    0 <= j < i ==> #[trigger] call_ensures(
                        parse_keystroke,
                        (words@[j],),
                        Some(keystrokes@[j]),
                    ),
            decreases words.len() - i,
        {
            let word = words[i];
            let ghost old_ks = keystrokes@;
            match parse_keystroke(word) {
                Some(k) => {
                    keystrokes.push(k);
                    assert(call_ensures(parse_keystroke, (word,), Some(keystrokes@[i as int])));
                    assert forall|j: int| 0 <= j < i + 1 implies #[trigger] call_ensures(
                        parse_keystroke,
                        (words@[j],),
                        Some(keystrokes@[j]),
                    ) by {
                        if j < i {
                            assert(keystrokes@[j] == old_ks[j]);
                        }
                    }
                },
                None => {
                    let keystroke = word.to_owned();
                    assert(keystroke@ == spec_words[i as int]);
                    assert(parses_to(parse_keystroke, spec_words[i as int], None::<K>));
                    assert forall|j: int| 0 <= j < i implies #[trigger] parses_to(
                        parse_keystroke,
                        spec_words[j],
                        Some(keystrokes@[j]),
                    ) by {
                        assert(words@[j]@ == spec_words[j]);
                        assert(call_ensures(parse_keystroke, (words@[j],), Some(keystrokes@[j])));
                    }
                    assert(keystrokes@.len() == i);
                    assert(all_parse_before(parse_keystroke, spec_words, i as int));
                    return Err(TriggerError::UnparsableKeystroke { keystroke });
                },
            }
            i = i + 1;
        }
        if keystrokes.len() == 0 {
            return Err(TriggerError::NoKeystrokes);
        }
        assert forall|j: int| 0 <= j < keystrokes@.len() implies #[trigger] parses_to(
            parse_keystroke,
            spec_words[j],
            Some(keystrokes@[j]),
        ) by {
            let w = words@[j];
            assert(call_ensures(parse_keystroke, (w,), Some(keystrokes@[j])));
            assert(w@ == spec_words[j]);
        }
        Ok(UserDefinedKeybinding::Keystrokes(keystrokes))
    }
}

/// Whether `name` is a legacy spelling of some action.
pub open spec fn is_legacy_name(name: Seq<char>) -> bool {
    canonical_action(name) != name
}

/// The entries of `s` whose name is (`legacy`) or is not (`!legacy`) a legacy spelling, in
/// order, each under its canonical name.
pub open spec fn canonicalized_part<V>(s: Seq<(String, V)>, legacy: bool) -> Seq<(Seq<char>, V)>
    decreases s.len(),
{
    if s.len() == 0 {
        Seq::empty()
    } else {
        let prev = canonicalized_part(s.drop_last(), legacy);
        if is_legacy_name(s.last().0@) == legacy {
            prev.push((canonical_action(s.last().0@), s.last().1))
        } else {
            prev
        }
    }
}

/// The order stored bindings are applied in: every legacy spelling first, then every
/// current one, each under its canonical name. A later entry for the same action
/// overwrites an earlier one, so a current spelling wins over a stale one.
pub open spec fn load_order<V>(s: Seq<(String, V)>) -> Seq<(Seq<char>, V)> {
    canonicalized_part(s, true) + canonicalized_part(s, false)
}

/// Collects the entries of one part, in order, under their canonical names.
fn collect_part<V>(entries: Vec<(String, V)>, legacy: bool) -> (r: (
    Vec<(String, V)>,
    Vec<(String, V)>,
))
    ensures
        r.0@.map_values(|e: (String, V)| (e.0@, e.1)) == canonicalized_part(entries@, legacy),
        r.1@.map_values(|e: (String, V)| (e.0@, e.1)) == canonicalized_part(entries@, !legacy),
{
    let ghost orig = entries@;
    let mut rest = entries;
    let mut chosen: Vec<(String, V)> = Vec::new();
    let mut others: Vec<(String, V)> = Vec::new();
    let mut i: usize = 0;
    let total = rest.len();
    while rest.len() > 0
        invariant
            total == orig.len(),
            i <= orig.len(),
            rest@.len() + i == orig.len(),
            rest@ == orig.subrange(i as int, orig.len() as int),
            chosen@.map_values(|e: (String, V)| (e.0@, e.1)) == canonicalized_part(
                orig.take(i as int),
                legacy,
            ),
            others@.map_values(|e: (String, V)| (e.0@, e.1)) == canonicalized_part(
                orig.take(i as int),
                !legacy,
            ),
        decreases rest.len(),
    {
        assert(i < orig.len());
        let ghost before = orig.take(i as int);
        let ghost after = orig.take(i + 1);
        assert(after.drop_last() =~= before);
        let (name, value) = rest.remove(0);
        assert(after.last() == orig[i as int]);
        let canonical = canonical_action_name(name.as_str()).to_owned();
        let legacy_name = !str_eq(canonical.as_str(), name.as_str());
        if legacy_name == legacy {
            chosen.push((canonical, value));
            assert(chosen@.map_values(|e: (String, V)| (e.0@, e.1)) =~= canonicalized_part(
                after,
                legacy,
            ));
            assert(others@.map_values(|e: (String, V)| (e.0@, e.1)) =~= canonicalized_part(
                after,
                !legacy,
            ));
        } else {
            others.push((canonical, value));
            assert(chosen@.map_values(|e: (String, V)| (e.0@, e.1)) =~= canonicalized_part(
                after,
                legacy,
            ));
            assert(others@.map_values(|e: (String, V)| (e.0@, e.1)) =~= canonicalized_part(
                after,
                !legacy,
            ));
        }
        i = i + 1;
        assert(rest@ =~= orig.subrange(i as int, orig.len() as int));
    }
    assert(orig.take(i as int) =~= orig);
    (chosen, others)
}

/// Orders stored bindings for loading: legacy spellings first, then current ones, each
/// renamed to its canonical action ID. Applying them in this order lets the spelling the
/// user's current build wrote win over a stale one.
pub fn keybindings_in_load_order<V>(entries: Vec<(String, V)>) -> (r: Vec<(String, V)>)
    ensures
        r@.map_values(|e: (String, V)| (e.0@, e.1)) == load_order(entries@),
{
    let (mut legacy, mut current) = collect_part(entries, true);
    let ghost a = legacy@.map_values(|e: (String, V)| (e.0@, e.1));
    let ghost b = current@.map_values(|e: (String, V)| (e.0@, e.1));
    legacy.append(&mut current);
    assert(legacy@.map_values(|e: (String, V)| (e.0@, e.1)) =~= a + b);
    legacy
}

/// Law: the action whose keybinding the subshell footer shows is a current action ID, so
/// the keybinding it looks up is the one the app registers.
pub proof fn lemma_footer_binding_is_current()
    ensures
        canonical_action(HEDDLIFY_SUBSHELL_ACTION@) == HEDDLIFY_SUBSHELL_ACTION@,
        !is_legacy_name(HEDDLIFY_SUBSHELL_ACTION@),
{
    assert(HEDDLIFY_SUBSHELL_ACTION@ == renamed_actions()[0].1);
    lemma_table_names_distinct();
    lemma_canonical_cases(HEDDLIFY_SUBSHELL_ACTION@);
}

} // verus!
