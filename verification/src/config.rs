//! The configuration of a server, in its two shapes: the tree a file
//! holds, mappings within mappings, and the flat list of settings a host
//! asks, each under the names of its mappings joined by dots.
//!
//! What a setting holds is the host's business: the leaves of a tree are of
//! any one type.

use crate::text::{find_char, find_from, same_text, str_chars, string_of};
use vstd::prelude::*;
use vstd::string::StringExecFns;

verus! {

/// What stands under a key of a tree: a value, or a mapping of its own.
pub enum ConfigValue<L> {
    Leaf(L),
    Mapping(Vec<ConfigEntry<L>>),
}

/// The key of an entry: a text, or something else, which has no place in
/// the flat list.
pub enum ConfigKey {
    Text(String),
    Other,
}

/// An entry of a mapping.
pub struct ConfigEntry<L> {
    pub key: ConfigKey,
    pub value: ConfigValue<L>,
}

/// A setting of the flat list.
pub struct Setting<L> {
    pub key: String,
    pub value: L,
}

/// A [`ConfigValue`] as contracts see it.
pub enum TreeView<L> {
    Leaf(L),
    Mapping(Seq<BranchView<L>>),
}

/// A [`ConfigKey`] as contracts see it.
pub enum KeyView {
    Text(Seq<char>),
    Other,
}

/// A [`ConfigEntry`] as contracts see it.
pub struct BranchView<L> {
    pub key: KeyView,
    pub value: TreeView<L>,
}

/// A [`Setting`] as contracts see it.
pub struct SettingView<L> {
    pub key: Seq<char>,
    pub value: L,
}

impl View for ConfigKey {
    type V = KeyView;

    open spec fn view(&self) -> KeyView {
        match self {
            ConfigKey::Text(text) => KeyView::Text(text@),
            ConfigKey::Other => KeyView::Other,
        }
    }
}

/// A tree as contracts see it: its keys as sequences of characters.
pub open spec fn tree_view<L>(value: ConfigValue<L>) -> TreeView<L>
    decreases value,
{
    match value {
        ConfigValue::Leaf(leaf) => TreeView::Leaf(leaf),
        ConfigValue::Mapping(entries) => TreeView::Mapping(
            Seq::new(
                entries@.len(),
                |i: int|
                    if 0 <= i < entries@.len() {
                        BranchView { key: entries@[i].key@, value: tree_view(entries@[i].value) }
                    } else {
                        BranchView { key: KeyView::Other, value: TreeView::Mapping(Seq::empty()) }
                    },
            ),
        ),
    }
}

impl<L> View for ConfigValue<L> {
    type V = TreeView<L>;

    open spec fn view(&self) -> TreeView<L> {
        tree_view(*self)
    }
}

impl<L> View for ConfigEntry<L> {
    type V = BranchView<L>;

    open spec fn view(&self) -> BranchView<L> {
        BranchView { key: self.key@, value: self.value@ }
    }
}

impl<L> View for Setting<L> {
    type V = SettingView<L>;

    open spec fn view(&self) -> SettingView<L> {
        SettingView { key: self.key@, value: self.value }
    }
}

/// The views of `entries`, in order.
pub open spec fn branch_views<L>(entries: Seq<ConfigEntry<L>>) -> Seq<BranchView<L>> {
    Seq::new(entries.len(), |i: int| entries[i]@)
}

/// The views of `settings`, in order.
pub open spec fn setting_views<L>(settings: Seq<Setting<L>>) -> Seq<SettingView<L>> {
    Seq::new(settings.len(), |i: int| settings[i]@)
}

/// The name of what stands under `key` in the mapping called `prefix`:
/// the two joined by a dot, or the key alone at the root.
pub open spec fn joined(prefix: Seq<char>, key: Seq<char>) -> Seq<char> {
    if prefix.len() == 0 {
        key
    } else {
        prefix + seq!['.'] + key
    }
}

/// The first place from `from` on where `settings` has a setting under
/// `key`; the number of settings where it has none.
pub open spec fn setting_index<L>(settings: Seq<SettingView<L>>, key: Seq<char>, from: int) -> int
    decreases settings.len() - from,
{
    if from < 0 || from >= settings.len() {
        settings.len() as int
    } else if settings[from].key == key {
        from
    } else {
        setting_index(settings, key, from + 1)
    }
}

/// `settings` with `value` under `key`: in place of the setting that was
/// under the key, or behind all settings if none was.
pub open spec fn with_setting<L>(settings: Seq<SettingView<L>>, key: Seq<char>, value: L) -> Seq<
    SettingView<L>,
> {
    let at = setting_index(settings, key, 0);
    if at < settings.len() {
        settings.update(at, SettingView { key, value })
    } else {
        settings.push(SettingView { key, value })
    }
}

/// The settings that the first `n` of `entries`, in the mapping called
/// `prefix`, add to `before`. An entry whose key is no text adds none.
pub open spec fn flattened_entries<L>(
    prefix: Seq<char>,
    entries: Seq<BranchView<L>>,
    n: nat,
    before: Seq<SettingView<L>>,
) -> Seq<SettingView<L>>
    decreases entries, n,
{
    if n == 0 || n > entries.len() {
        before
    } else {
        let earlier = flattened_entries(prefix, entries, (n - 1) as nat, before);
        match entries[n - 1].key {
            KeyView::Text(key) => flattened(joined(prefix, key), entries[n - 1].value, earlier),
            KeyView::Other => earlier,
        }
    }
}

/// The settings that `tree`, called `prefix`, adds to `before`: a value is
/// one setting under the name of the tree; a mapping adds what its entries
/// add, each called by the name of the mapping and its own key.
pub open spec fn flattened<L>(
    prefix: Seq<char>,
    tree: TreeView<L>,
    before: Seq<SettingView<L>>,
) -> Seq<SettingView<L>>
    decreases tree,
{
    match tree {
        TreeView::Leaf(leaf) => with_setting(before, prefix, leaf),
        TreeView::Mapping(entries) => flattened_entries(prefix, entries, entries.len(), before),
    }
}

/// Puts `value` under `key` into `settings`: in place of the setting
/// under that key, or behind all settings if there is none.
pub fn set_setting<L>(settings: &mut Vec<Setting<L>>, key: String, value: L)
    ensures
        setting_views(final(settings)@) == with_setting(setting_views(old(settings)@), key@, value),
{
    let ghost before = setting_views(settings@);
    let total: usize = settings.len();
    let mut at: usize = 0;
    let mut found: usize = total;
    while at < total && found == total
        invariant
            at <= total == settings@.len(),
            setting_views(settings@) == before,
            found == total || (found < at && before[found as int].key == key@),
            setting_index(before, key@, 0) == if found < total {
                found as int
            } else {
                setting_index(before, key@, at as int)
            },
        decreases total - at,
    {
        assert(before[at as int] == settings@[at as int]@);
        if same_text(&settings[at].key, &key) {
            found = at;
        }
        at += 1;
    }
    if found < total {
        settings.set(found, Setting { key, value });
        assert(setting_views(settings@) =~= before.update(
            found as int,
            SettingView { key: key@, value },
        ));
    } else {
        settings.push(Setting { key, value });
        assert(setting_views(settings@) =~= before.push(SettingView { key: key@, value }));
    }
}

/// The setting under `key`, if there is one.
pub fn get_setting<'a, L>(settings: &'a Vec<Setting<L>>, key: &str) -> (value: Option<&'a L>)
    ensures
        ({
            let at = setting_index(setting_views(settings@), key@, 0);
            if at < settings@.len() {
                value == Some(&settings@[at].value)
            } else {
                value is None
            }
        }),
{
    let wanted = key.to_owned();
    let ghost views = setting_views(settings@);
    let mut at: usize = 0;
    while at < settings.len()
        invariant
            at <= settings@.len(),
            views == setting_views(settings@),
            wanted@ == key@,
            setting_index(views, key@, 0) == setting_index(views, key@, at as int),
        decreases settings@.len() - at,
    {
        assert(views[at as int] == settings@[at as int]@);
        if same_text(&settings[at].key, &wanted) {
            return Some(&settings[at].value);
        }
        at += 1;
    }
    None
}

fn join(prefix: &str, key: &str) -> (name: String)
    ensures
        name@ == joined(prefix@, key@),
{
    if prefix.unicode_len() == 0 {
        key.to_owned()
    } else {
        let name = prefix.to_owned().concat(".").concat(key);
        proof {
            reveal_strlit(".");
            assert("."@ =~= seq!['.']);
        }
        name
    }
}

/// Adds to `settings` what `value`, called `prefix`, holds: each value
/// under the keys of the mappings it stands in, joined by dots.
pub fn flatten<L>(prefix: &str, value: ConfigValue<L>, settings: &mut Vec<Setting<L>>)
    ensures
        setting_views(final(settings)@) == flattened(prefix@, value@, setting_views(old(settings)@)),
    decreases value,
{
    match value {
        ConfigValue::Leaf(leaf) => {
            set_setting(settings, prefix.to_owned(), leaf);
        },
        ConfigValue::Mapping(entries) => {
            let ghost views = value@->Mapping_0;
            let ghost before = setting_views(settings@);
            let ghost children = entries@;
            let ghost list = entries;
            assert(views =~= branch_views(children));
            for entry in it: entries.into_iter()
                invariant
                    it.seq() == children,
                    value == ConfigValue::Mapping(list),
                    children == list@,
                    views == branch_views(children),
                    setting_views(settings@) == flattened_entries(
                        prefix@,
                        views,
                        it.index() as nat,
                        before,
                    ),
            {
                proof {
                    broadcast use vstd::std_specs::vec::axiom_vec_index_decreases;

                    assert(entry == list@[it.index() as int]);
                    assert(views[it.index() as int] == entry@);
                    assert(list == value->Mapping_0);
                    assert(decreases_to!(value => value->Mapping_0));
                }
                let ConfigEntry { key, value: child } = entry;
                match key {
                    ConfigKey::Text(key) => {
                        let name = join(prefix, key.as_str());
                        flatten(name.as_str(), child, settings);
                    },
                    ConfigKey::Other => {},
                }
            }
        },
    }
}

/// The parts of `key` between its dots.
pub open spec fn split_key(key: Seq<char>) -> Seq<Seq<char>>
    decreases key.len(),
{
    let dot = find_from(key, '.', 0);
    if dot >= key.len() {
        seq![key]
    } else {
        seq![key.take(dot)] + split_key(key.skip(dot + 1))
    }
}

/// The texts of `parts`, in order.
pub open spec fn texts(parts: Seq<String>) -> Seq<Seq<char>> {
    Seq::new(parts.len(), |i: int| parts[i]@)
}

/// The first place from `from` on where `entries` has an entry under the
/// text `name`; the number of entries where it has none.
pub open spec fn branch_index<L>(entries: Seq<BranchView<L>>, name: Seq<char>, from: int) -> int
    decreases entries.len() - from,
{
    if from < 0 || from >= entries.len() {
        entries.len() as int
    } else if entries[from].key == KeyView::Text(name) {
        from
    } else {
        branch_index(entries, name, from + 1)
    }
}

/// `entries` with `value` under the text `name`: in place of the entry
/// that was under the name, or behind all entries if none was.
pub open spec fn with_branch<L>(
    entries: Seq<BranchView<L>>,
    name: Seq<char>,
    value: TreeView<L>,
) -> Seq<BranchView<L>> {
    let at = branch_index(entries, name, 0);
    let branch = BranchView { key: KeyView::Text(name), value };
    if at < entries.len() {
        entries.update(at, branch)
    } else {
        entries.push(branch)
    }
}

/// The mapping under the text `name` in `entries`; the empty mapping
/// where there is none, or where a value stands under the name.
pub open spec fn mapping_under<L>(entries: Seq<BranchView<L>>, name: Seq<char>) -> Seq<
    BranchView<L>,
> {
    let at = branch_index(entries, name, 0);
    if at < entries.len() {
        match entries[at].value {
            TreeView::Mapping(inner) => inner,
            TreeView::Leaf(_) => Seq::empty(),
        }
    } else {
        Seq::empty()
    }
}

/// `entries` with `value` planted under the path `parts`, from its
/// `from`-th part on: the value comes under the last part, in the mapping
/// under the part before it, and so on up; a mapping that is not there is
/// made, and a value that stands where a mapping must be gives way to it.
pub open spec fn planted<L>(
    entries: Seq<BranchView<L>>,
    parts: Seq<Seq<char>>,
    from: int,
    value: L,
) -> Seq<BranchView<L>>
    decreases parts.len() - from,
{
    if from < 0 || from >= parts.len() {
        entries
    } else if from == parts.len() - 1 {
        with_branch(entries, parts[from], TreeView::Leaf(value))
    } else {
        with_branch(
            entries,
            parts[from],
            TreeView::Mapping(planted(mapping_under(entries, parts[from]), parts, from + 1, value)),
        )
    }
}

/// The tree that the first `n` of `settings` make: each is planted, in
/// its turn, under the parts of its key.
pub open spec fn nested<L>(settings: Seq<SettingView<L>>, n: nat) -> Seq<BranchView<L>>
    decreases n,
{
    if n == 0 || n > settings.len() {
        Seq::empty()
    } else {
        planted(
            nested(settings, (n - 1) as nat),
            split_key(settings[n - 1].key),
            0,
            settings[n - 1].value,
        )
    }
}

/// The parts of `key` between its dots.
pub fn split(key: &str) -> (parts: Vec<String>)
    ensures
        texts(parts@) == split_key(key@),
        parts@.len() >= 1,
{
    let chars = str_chars(key);
    let total: usize = chars.len();
    let mut parts: Vec<String> = Vec::new();
    let mut start: usize = 0;
    assert(chars@.skip(0) =~= chars@);
    assert(texts(parts@) =~= Seq::empty());
    loop
        invariant_except_break
            split_key(key@) == texts(parts@) + split_key(chars@.skip(start as int)),
        invariant
            start <= total == chars@.len(),
            chars@ == key@,
        ensures
            texts(parts@) == split_key(key@),
            parts@.len() >= 1,
        decreases total - start,
    {
        let ghost rest = chars@.skip(start as int);
        let ghost done = texts(parts@);
        let dot = find_char(&chars, '.', start, total);
        assert(chars@.subrange(start as int, total as int) =~= rest);
        if dot >= total {
            parts.push(string_of(&chars, start, total));
            assert(texts(parts@) =~= done + split_key(rest));
            break ;
        }
        parts.push(string_of(&chars, start, dot));
        proof {
            assert(chars@.subrange(start as int, dot as int) =~= rest.take(dot - start));
            assert(rest.skip(dot - start + 1) =~= chars@.skip(dot + 1));
            assert(texts(parts@) =~= done + seq![rest.take(dot - start)]);
            assert(done + (seq![rest.take(dot - start)] + split_key(chars@.skip(dot + 1)))
                =~= texts(parts@) + split_key(chars@.skip(dot + 1)));
        }
        start = dot + 1;
    }
    parts
}

fn key_is(key: &ConfigKey, name: &String) -> (same: bool)
    ensures
        same == (key@ == KeyView::Text(name@)),
{
    match key {
        ConfigKey::Text(text) => same_text(text, name),
        ConfigKey::Other => false,
    }
}

/// The place of the first entry under the text `name`.
fn find_branch<L>(entries: &Vec<ConfigEntry<L>>, name: &String) -> (at: usize)
    ensures
        at == branch_index(branch_views(entries@), name@, 0),
        at <= entries@.len(),
{
    let ghost views = branch_views(entries@);
    let mut at: usize = 0;
    while at < entries.len()
        invariant
            at <= entries@.len(),
            views == branch_views(entries@),
            branch_index(views, name@, 0) == branch_index(views, name@, at as int),
        decreases entries@.len() - at,
    {
        assert(views[at as int] == entries@[at as int]@);
        if key_is(&entries[at].key, name) {
            return at;
        }
        at += 1;
    }
    at
}

/// Puts `value` under the text `name`, in place of what is there or
/// behind all entries.
fn put_branch<L>(entries: &mut Vec<ConfigEntry<L>>, at: usize, name: String, value: ConfigValue<L>)
    requires
        at == branch_index(branch_views(old(entries)@), name@, 0),
        at <= old(entries)@.len(),
    ensures
        branch_views(final(entries)@) == with_branch(branch_views(old(entries)@), name@, value@),
{
    let ghost before = branch_views(entries@);
    let entry = ConfigEntry { key: ConfigKey::Text(name), value };
    if at < entries.len() {
        entries.set(at, entry);
        assert(branch_views(entries@) =~= before.update(at as int, entry@));
    } else {
        entries.push(entry);
        assert(branch_views(entries@) =~= before.push(entry@));
    }
}

/// Takes the mapping under the place `at` out of `entries`, leaving an
/// empty one; gives an empty mapping where a value stands there.
fn take_mapping<L>(entries: &mut Vec<ConfigEntry<L>>, at: usize) -> (inner: Vec<ConfigEntry<L>>)
    requires
        at < old(entries)@.len(),
    ensures
        branch_views(inner@) == (match branch_views(old(entries)@)[at as int].value {
            TreeView::Mapping(m) => m,
            TreeView::Leaf(_) => Seq::empty(),
        }),
        final(entries)@.len() == old(entries)@.len(),
        forall|i: int|
            0 <= i < old(entries)@.len() && i != at ==> final(entries)@[i] == old(entries)@[i],
        final(entries)@[at as int].key == old(entries)@[at as int].key,
{
    let ghost before = entries@;
    let mut inner: Vec<ConfigEntry<L>> = Vec::new();
    assert(branch_views(inner@) =~= Seq::empty());
    match &mut entries[at].value {
        ConfigValue::Mapping(held) => {
            core::mem::swap(held, &mut inner);
        },
        ConfigValue::Leaf(_) => {},
    }
    proof {
        match before[at as int].value {
            ConfigValue::Mapping(m) => {
                assert(before[at as int].value@->Mapping_0 =~= branch_views(m@));
            },
            ConfigValue::Leaf(_) => {},
        }
    }
    inner
}

/// Plants `value` in `entries` under the path `parts`, from its `from`-th
/// part on.
pub fn plant<L>(entries: &mut Vec<ConfigEntry<L>>, parts: &Vec<String>, from: usize, value: L)
    requires
        from < parts@.len(),
    ensures
        branch_views(final(entries)@) == planted(
            branch_views(old(entries)@),
            texts(parts@),
            from as int,
            value,
        ),
    decreases parts@.len() - from,
{
    let ghost before = branch_views(entries@);
    let ghost names = texts(parts@);
    assert(names[from as int] == parts@[from as int]@);
    let at = find_branch(entries, &parts[from]);
    if from == parts.len() - 1 {
        put_branch(entries, at, parts[from].clone(), ConfigValue::Leaf(value));
    } else {
        let mut inner: Vec<ConfigEntry<L>> = if at < entries.len() {
            take_mapping(entries, at)
        } else {
            let empty: Vec<ConfigEntry<L>> = Vec::new();
            assert(branch_views(empty@) =~= Seq::empty());
            empty
        };
        assert(branch_views(inner@) == mapping_under(before, names[from as int]));
        plant(&mut inner, parts, from + 1, value);
        let ghost mid = branch_views(entries@);
        proof {
            assert(mid.len() == before.len());
            assert forall|i: int| 0 <= i < before.len() implies (#[trigger] mid[i]).key
                == before[i].key by {}
            lemma_branch_index_by_keys(mid, before, names[from as int], 0);
        }
        let subtree = ConfigValue::Mapping(inner);
        assert(subtree@->Mapping_0 =~= branch_views(inner@));
        put_branch(entries, at, parts[from].clone(), subtree);
        proof {
            let branch = BranchView { key: KeyView::Text(names[from as int]), value: subtree@ };
            if at < before.len() {
                assert(mid.update(at as int, branch) =~= before.update(at as int, branch));
            } else {
                assert(mid =~= before);
            }
        }
    }
}

/// Where two lists of entries have the same keys, a name is found at the
/// same place in both.
proof fn lemma_branch_index_by_keys<L>(
    a: Seq<BranchView<L>>,
    b: Seq<BranchView<L>>,
    name: Seq<char>,
    from: int,
)
    requires
        a.len() == b.len(),
        forall|i: int| 0 <= i < a.len() ==> (#[trigger] a[i]).key == b[i].key,
    ensures
        branch_index(a, name, from) == branch_index(b, name, from),
    decreases a.len() - from,
{
    if 0 <= from < a.len() && a[from].key != KeyView::Text(name) {
        lemma_branch_index_by_keys(a, b, name, from + 1);
    }
}

/// The tree that `settings` make: each is planted, in its turn, under the
/// parts of its key.
pub fn nest<L>(settings: Vec<Setting<L>>) -> (root: Vec<ConfigEntry<L>>)
    ensures
        branch_views(root@) == nested(setting_views(settings@), settings@.len()),
{
    let mut root: Vec<ConfigEntry<L>> = Vec::new();
    let ghost views = setting_views(settings@);
    let ghost all = settings@;
    assert(branch_views(root@) =~= Seq::empty());
    for setting in it: settings.into_iter()
        invariant
            it.seq() == all,
            views == setting_views(all),
            branch_views(root@) == nested(views, it.index() as nat),
    {
        assert(views[it.index() as int] == setting@);
        let Setting { key, value } = setting;
        let parts = split(key.as_str());
        plant(&mut root, &parts, 0, value);
    }
    root
}

} // verus!
