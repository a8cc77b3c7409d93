//! The scene panel: the tree of scenes, entities and their assets, what its
//! search shows, what a click selects, and how file sizes are written.
use vstd::prelude::*;
use vstd::arithmetic::div_mod::lemma_fundamental_div_mod;
use crate::ecs::{Entity, Scene, SceneManager};
use crate::ecs::entity::{opt_text, EntityView};
use crate::ecs::scene::SceneView;
use crate::ecs::tables::{entities_entry, entities_len, scenes_entry, scenes_len};
use crate::file_system::{name_of, name_of_path};
use crate::gui_state::{GuiState, ScenePanelSelectedItem, SelectedItem};
use crate::order::{key_views, lemma_sorts_stably_views, sorts_stably, stable_order, stable_sort, SortKey};
use crate::paths::{components, paths_equal};
use crate::project::{lowercase_text, unicode_lowercase};
use crate::text::{decimal, decimal_text, joined, joined3, occurs_in, text_contains, text_rfind, texts};

verus! {

pub const KB: u64 = 1024;
pub const MB: u64 = 1048576;
pub const GB: u64 = 1073741824;

/// 2 to the power `e`.
pub open spec fn pow2(e: nat) -> nat
    decreases e,
{
    if e == 0 { 1 } else { 2 * pow2((e - 1) as nat) }
}

/// `a / d` rounded to the nearest integer, a tie going to the even one.
pub open spec fn div_round_even(a: nat, d: nat) -> nat
    recommends
        d > 0,
{
    let q = a / d;
    let r = a % d;
    if 2 * r > d || (2 * r == d && q % 2 == 1) { q + 1 } else { q }
}

/// How many low bits of `n` an `f64` cannot keep: how often `n` must be
/// halved to fall below 2^53.
pub open spec fn excess_bits(n: nat) -> nat
    decreases n,
{
    if n < 0x20_0000_0000_0000 { 0 } else { 1 + excess_bits(n / 2) }
}

/// The value of `n as f64`: `n` rounded to the nearest multiple of its
/// last kept bit, a tie going to the even multiple.
pub open spec fn f64_value(n: nat) -> nat {
    let u = pow2(excess_bits(n));
    div_round_even(n, u) * u
}

/// `size / unit`, as `f64` computes it, in hundredths rounded as `{:.2}`
/// rounds: to the nearest, a tie to the even one.
pub open spec fn hundredths(size: nat, unit: nat) -> nat {
    div_round_even(100 * f64_value(size), unit)
}

/// A number of hundredths written with two decimal places.
pub open spec fn two_places(h: nat) -> Seq<char> {
    decimal(h / 100) + "."@ + decimal((h / 10) % 10) + decimal(h % 10)
}

/// A size in bytes as the panel writes it: in GB, MB or KB with two decimal
/// places from 1 KB on, else in bytes.
pub open spec fn file_size_text(size: nat) -> Seq<char> {
    if size >= GB {
        two_places(hundredths(size, GB as nat)) + " GB"@
    } else if size >= MB {
        two_places(hundredths(size, MB as nat)) + " MB"@
    } else if size >= KB {
        two_places(hundredths(size, KB as nat)) + " KB"@
    } else {
        decimal(size) + " B"@
    }
}

proof fn lemma_pow2_monotonic(a: nat, b: nat)
    requires
        a <= b,
    ensures
        1 <= pow2(a) <= pow2(b),
    decreases b,
{
    if b > 0 {
        if a < b {
            lemma_pow2_monotonic(a, (b - 1) as nat);
        } else {
            lemma_pow2_monotonic((b - 1) as nat, (b - 1) as nat);
        }
    }
}

proof fn lemma_excess_bound(n: nat, j: nat)
    requires
        n < 0x20_0000_0000_0000 * pow2(j),
    ensures
        excess_bits(n) <= j,
    decreases j,
{
    if n >= 0x20_0000_0000_0000 {
        if j == 0 {
            assert(false);
        } else {
            lemma_excess_bound(n / 2, (j - 1) as nat);
        }
    }
}

/// `n as f64`'s value, exactly.
fn f64_value_of(n: u64) -> (r: u128)
    ensures
        r == f64_value(n as nat),
        r <= n + 2048,
{
    proof {
        reveal_with_fuel(pow2, 12);
        assert(pow2(11) == 2048);
        lemma_excess_bound(n as nat, 11);
    }
    let mut m: u64 = n;
    let mut k: u32 = 0;
    let mut u: u128 = 1;
    while m >= 0x20_0000_0000_0000
        invariant
            excess_bits(n as nat) == k + excess_bits(m as nat),
            excess_bits(n as nat) <= 11,
            pow2(11) == 2048,
            u == pow2(k as nat),
        decreases m,
    {
        m = m / 2;
        k = k + 1;
        proof {
            lemma_pow2_monotonic(k as nat, 11);
        }
        u = u * 2;
    }
    proof {
        lemma_pow2_monotonic(k as nat, 11);
    }
    let q: u128 = (n as u128) / u;
    let rem: u128 = (n as u128) % u;
    proof {
        lemma_fundamental_div_mod(n as int, u as int);
        assert(q <= n) by (nonlinear_arith)
            requires
                u * q + rem == n,
                rem >= 0,
                u >= 1,
        ;
    }
    let rounded: u128 = if 2 * rem > u || (2 * rem == u && q % 2 == 1) { q + 1 } else { q };
    proof {
        assert(rounded * u <= n + u) by (nonlinear_arith)
            requires
                u * q + rem == n,
                rounded <= q + 1,
                rem >= 0,
        ;
        assert(rounded * u <= 0x1_0000_0000_0000_0000 * 2048) by (nonlinear_arith)
            requires
                rounded <= n + 1,
                n < 0x1_0000_0000_0000_0000,
                u <= 2048,
        ;
    }
    rounded * u
}

/// `size / unit` in hundredths (see `hundredths`).
fn hundredths_of(size: u64, unit: u64) -> (r: u64)
    requires
        unit >= KB,
    ensures
        r == hundredths(size as nat, unit as nat),
{
    let s = f64_value_of(size);
    let a: u128 = 100 * s;
    let d: u128 = unit as u128;
    let q: u128 = a / d;
    let rem: u128 = a % d;
    proof {
        lemma_fundamental_div_mod(a as int, d as int);
        assert(q * 1024 <= a) by (nonlinear_arith)
            requires
                d * q + rem == a,
                d >= 1024,
                rem >= 0,
                q >= 0,
        ;
    }
    let h: u128 = if 2 * rem > d || (2 * rem == d && q % 2 == 1) { q + 1 } else { q };
    h as u64
}

/// The text of a number of hundredths with two decimal places.
fn two_places_text(h: u64) -> (r: String)
    ensures
        r@ == two_places(h as nat),
{
    let whole = decimal_text(h / 100);
    let tens = decimal_text((h / 10) % 10);
    let ones = decimal_text(h % 10);
    let head = joined(whole.as_str(), ".");
    joined3(head.as_str(), tens.as_str(), ones.as_str())
}

/// A file size for display: `"512 B"`, `"1.50 KB"`, `"2.00 MB"`, `"1.25 GB"`
/// (see `file_size_text`).
pub fn format_file_size(size_in_bytes: u64) -> (r: String)
    ensures
        r@ == file_size_text(size_in_bytes as nat),
{
    if size_in_bytes >= GB {
        let t = two_places_text(hundredths_of(size_in_bytes, GB));
        joined(t.as_str(), " GB")
    } else if size_in_bytes >= MB {
        let t = two_places_text(hundredths_of(size_in_bytes, MB));
        joined(t.as_str(), " MB")
    } else if size_in_bytes >= KB {
        let t = two_places_text(hundredths_of(size_in_bytes, KB));
        joined(t.as_str(), " KB")
    } else {
        let t = decimal_text(size_in_bytes);
        joined(t.as_str(), " B")
    }
}

// ------------------------------------------------------------ the tree

/// What the tree shows of an entity: names only, never its attributes.
#[derive(Debug)]
pub struct EntityDisplay {
    pub id: u128,
    pub name: String,
    pub image_names: Vec<String>,
    pub sound_names: Vec<String>,
    pub script_name: Option<String>,
    /// The script's stored path, to open it in the editor.
    pub script_path: Option<String>,
}

pub struct EntityDisplayView {
    pub id: u128,
    pub name: Seq<char>,
    pub image_names: Seq<Seq<char>>,
    pub sound_names: Seq<Seq<char>>,
    pub script_name: Option<Seq<char>>,
    pub script_path: Option<Seq<char>>,
}

impl View for EntityDisplay {
    type V = EntityDisplayView;

    open spec fn view(&self) -> EntityDisplayView {
        EntityDisplayView {
            id: self.id,
            name: self.name@,
            image_names: texts(self.image_names@),
            sound_names: texts(self.sound_names@),
            script_name: opt_text(self.script_name),
            script_path: opt_text(self.script_path),
        }
    }
}

/// What the tree shows of a scene: its entities, ordered by name.
#[derive(Debug)]
pub struct SceneDisplay {
    pub id: u128,
    pub name: String,
    pub entities: Vec<EntityDisplay>,
}

pub struct SceneDisplayView {
    pub id: u128,
    pub name: Seq<char>,
    pub entities: Seq<EntityDisplayView>,
}

/// The views of a list of entity displays.
pub open spec fn entity_display_views(v: Seq<EntityDisplay>) -> Seq<EntityDisplayView> {
    v.map_values(|d: EntityDisplay| d@)
}

impl View for SceneDisplay {
    type V = SceneDisplayView;

    open spec fn view(&self) -> SceneDisplayView {
        SceneDisplayView { id: self.id, name: self.name@, entities: entity_display_views(self.entities@) }
    }
}

/// The views of a list of scene displays.
pub open spec fn scene_display_views(v: Seq<SceneDisplay>) -> Seq<SceneDisplayView> {
    v.map_values(|d: SceneDisplay| d@)
}

/// The file names of a list of paths.
pub open spec fn names_of_paths(ps: Seq<Seq<char>>) -> Seq<Seq<char>> {
    ps.map_values(|p: Seq<char>| name_of_path(p))
}

/// What the tree shows of the entity `e` with id `id`.
pub open spec fn entity_display(id: u128, e: EntityView) -> EntityDisplayView {
    EntityDisplayView {
        id,
        name: e.name,
        image_names: names_of_paths(e.images),
        sound_names: names_of_paths(e.sounds),
        script_name: match e.script {
            Some(p) => Some(name_of_path(p)),
            None => None,
        },
        script_path: e.script,
    }
}

/// The displays of a table of entities, in table order.
pub open spec fn entity_displays(t: Seq<(u128, EntityView)>) -> Seq<EntityDisplayView> {
    t.map_values(|x: (u128, EntityView)| entity_display(x.0, x.1))
}

/// The key the tree orders by: the lower-cased name.
pub open spec fn name_key(name: Seq<char>) -> (u8, Seq<char>) {
    (0u8, unicode_lowercase(name))
}

/// The keys of a table of entities.
pub open spec fn entity_keys(t: Seq<(u128, EntityView)>) -> Seq<(u8, Seq<char>)> {
    t.map_values(|x: (u128, EntityView)| name_key(x.1.name))
}

/// The keys of a table of scenes.
pub open spec fn scene_keys(t: Seq<(u128, SceneView)>) -> Seq<(u8, Seq<char>)> {
    t.map_values(|x: (u128, SceneView)| name_key(x.1.name))
}

/// `out` lists the entities of table `t`: their displays ordered stably by
/// lower-cased name.
pub open spec fn lists_entities(t: Seq<(u128, EntityView)>, out: Seq<EntityDisplayView>) -> bool {
    exists|perm: Seq<usize>| sorts_stably(entity_displays(t), entity_keys(t), out, perm)
}

/// `d` shows the scene `s` with id `id`.
pub open spec fn shows_scene(d: SceneDisplayView, id: u128, s: SceneView) -> bool {
    d.id == id && d.name == s.name && lists_entities(s.entities, d.entities)
}

/// `out` is the tree of the scenes of table `t`: each scene's display,
/// the scenes ordered stably by lower-cased name.
pub open spec fn lists_scenes(t: Seq<(u128, SceneView)>, out: Seq<SceneDisplayView>) -> bool {
    exists|perm: Seq<usize>| {
        &&& stable_order(scene_keys(t), perm)
        &&& out.len() == t.len()
        &&& forall|k: int| 0 <= k < out.len() ==> shows_scene(#[trigger] out[k], t[perm[k] as int].0, t[perm[k] as int].1)
    }
}

/// The file names of a list of paths.
fn names_of(paths: &Vec<String>) -> (r: Vec<String>)
    ensures
        texts(r@) == names_of_paths(texts(paths@)),
{
    let mut r: Vec<String> = Vec::new();
    let mut i: usize = 0;
    while i < paths.len()
        invariant
            i <= paths.len(),
            texts(r@) == names_of_paths(texts(paths@.take(i as int))),
        decreases paths.len() - i,
    {
        let ghost r0 = r@;
        r.push(name_of(paths[i].as_str()));
        proof {
            assert(paths@.take(i + 1) =~= paths@.take(i as int).push(paths@[i as int]));
            assert(texts(r@) =~= texts(r0).push(name_of_path(paths@[i as int]@)));
            assert(names_of_paths(texts(paths@.take(i + 1))) =~= names_of_paths(texts(paths@.take(i as int))).push(
                name_of_path(paths@[i as int]@),
            ));
        }
        i = i + 1;
    }
    assert(paths@.take(paths.len() as int) =~= paths@);
    r
}

/// A copy of an optional text.
fn copy_opt(s: &Option<String>) -> (r: Option<String>)
    ensures
        opt_text(r) == opt_text(*s),
{
    match s {
        Some(t) => Some(t.clone()),
        None => None,
    }
}

pub struct EntityItem;

impl EntityItem {
    /// What the tree shows of `entity`, listed under id `id`.
    pub fn display(id: u128, entity: &Entity) -> (r: EntityDisplay)
        ensures
            r@ == entity_display(id, entity@),
    {
        let script_name = match &entity.script {
            Some(p) => Some(name_of(p.as_str())),
            None => None,
        };
        EntityDisplay {
            id,
            name: entity.name.clone(),
            image_names: names_of(&entity.images),
            sound_names: names_of(&entity.sounds),
            script_name,
            script_path: copy_opt(&entity.script),
        }
    }

    /// The search shows an entity named `name`: the query is empty, or its
    /// lower-cased form occurs in the lower-cased name.
    pub fn matches_search(name: &str, query: &str) -> (r: bool)
        ensures
            r == (query@.len() == 0 || occurs_in(unicode_lowercase(name@), unicode_lowercase(query@))),
    {
        if query.unicode_len() == 0 {
            return true;
        }
        let n = lowercase_text(name);
        let q = lowercase_text(query);
        text_contains(n.as_str(), q.as_str())
    }

    /// An entity with images, sounds or a script shows as a folding node.
    pub fn has_assets(entity: &EntityDisplay) -> (r: bool)
        ensures
            r == (entity@.image_names.len() > 0 || entity@.sound_names.len() > 0 || entity@.script_name is Some),
    {
        entity.image_names.len() > 0 || entity.sound_names.len() > 0 || entity.script_name.is_some()
    }

    /// The label of an entity: its name after the last `/`.
    pub fn display_name(name: &str) -> (r: String)
        ensures
            r@ == after_last_slash(name@),
    {
        let n = name.unicode_len();
        match text_rfind(name, "/") {
            Some(i) => {
                proof {
                    reveal_strlit("/");
                    assert("/"@.len() == 1);
                    assert(crate::text::occurs_at(name@, "/"@, i as int));
                }
                let tail = name.substring_char(i + 1, n);
                proof {
                    let c = crate::paths::last_occurrence(name@, "/"@);
                    assert(crate::text::occurs_at(name@, "/"@, c));
                    if c < i {
                        assert(!crate::text::occurs_at(name@, "/"@, i as int));
                    }
                    if c > i {
                        assert(!crate::text::occurs_at(name@, "/"@, c));
                    }
                    assert(tail@ =~= name@.skip(i + 1));
                }
                tail.to_string()
            },
            None => name.to_string(),
        }
    }

    /// Is the entity the scene panel's selection?
    pub fn is_selected(gui_state: &GuiState, scene_id: u128, entity_id: u128) -> (r: bool)
        ensures
            r == (gui_state.scene_panel_selected_item matches ScenePanelSelectedItem::Entity(s, e)
                && s == scene_id && e == entity_id),
    {
        match gui_state.scene_panel_selected_item {
            ScenePanelSelectedItem::Entity(s, e) => s == scene_id && e == entity_id,
            _ => false,
        }
    }

    /// A click on the entity: it becomes the editor's and the panel's selection.
    pub fn select(gui_state: &mut GuiState, scene_id: u128, entity_id: u128)
        ensures
            *final(gui_state) == (GuiState {
                selected_item: SelectedItem::Entity(scene_id, entity_id),
                scene_panel_selected_item: ScenePanelSelectedItem::Entity(scene_id, entity_id),
                ..*old(gui_state)
            }),
    {
        gui_state.selected_item = SelectedItem::Entity(scene_id, entity_id);
        gui_state.scene_panel_selected_item = ScenePanelSelectedItem::Entity(scene_id, entity_id);
    }
}

/// What follows the last `/` of a name (all of it when there is none).
pub open spec fn after_last_slash(name: Seq<char>) -> Seq<char> {
    if occurs_in(name, "/"@) {
        name.skip(crate::paths::last_occurrence(name, "/"@) + 1)
    } else {
        name
    }
}

pub struct SceneItem;

impl SceneItem {
    /// The tree's list of the entities of `scene` (see `lists_entities`).
    pub fn entity_list(scene: &Scene) -> (r: Vec<EntityDisplay>)
        ensures
            lists_entities(scene@.entities, entity_display_views(r@)),
    {
        let ghost t = scene@.entities;
        let n = entities_len(&scene.entities);
        let mut items: Vec<EntityDisplay> = Vec::new();
        let mut keys: Vec<SortKey> = Vec::new();
        let mut i: usize = 0;
        while i < n
            invariant
                t == scene@.entities,
                n == t.len(),
                i <= n,
                entity_display_views(items@) == entity_displays(t.take(i as int)),
                key_views(keys@) == entity_keys(t.take(i as int)),
            decreases n - i,
        {
            let (id, entity) = entities_entry(&scene.entities, i);
            let d = EntityItem::display(id, entity);
            let k = SortKey { rank: 0, text: lowercase_text(entity.name.as_str()) };
            let ghost i0 = items@;
            let ghost k0 = keys@;
            items.push(d);
            keys.push(k);
            proof {
                assert(t.take(i + 1) =~= t.take(i as int).push(t[i as int]));
                assert(entity_display_views(items@) =~= entity_display_views(i0).push(d@));
                assert(key_views(keys@) =~= key_views(k0).push(k@));
                assert(entity_displays(t.take(i + 1)) =~= entity_displays(t.take(i as int)).push(
                    entity_display(t[i as int].0, t[i as int].1),
                ));
                assert(entity_keys(t.take(i + 1)) =~= entity_keys(t.take(i as int)).push(name_key(t[i as int].1.name)));
            }
            i = i + 1;
        }
        proof {
            assert(t.take(n as int) =~= t);
        }
        let ghost before = items@;
        let sorted = stable_sort(items, &keys);
        proof {
            let perm = choose|perm: Seq<usize>| sorts_stably(before, key_views(keys@), sorted@, perm);
            lemma_sorts_stably_views(before, key_views(keys@), sorted@, perm, |d: EntityDisplay| d@);
            assert(sorts_stably(entity_displays(t), entity_keys(t), entity_display_views(sorted@), perm));
        }
        sorted
    }

    /// The tree of the scene panel (see `lists_scenes`).
    pub fn display_model(scene_manager: &SceneManager) -> (r: Vec<SceneDisplay>)
        ensures
            lists_scenes(scene_manager@.scenes, scene_display_views(r@)),
    {
        let ghost t = scene_manager@.scenes;
        let n = scenes_len(&scene_manager.scenes);
        let mut items: Vec<SceneDisplay> = Vec::new();
        let mut keys: Vec<SortKey> = Vec::new();
        let mut i: usize = 0;
        while i < n
            invariant
                t == scene_manager@.scenes,
                n == t.len(),
                i <= n,
                items.len() == i,
                forall|j: int| 0 <= j < i ==> shows_scene(#[trigger] items@[j]@, t[j].0, t[j].1),
                key_views(keys@) == scene_keys(t.take(i as int)),
            decreases n - i,
        {
            let (id, scene) = scenes_entry(&scene_manager.scenes, i);
            let entities = Self::entity_list(scene);
            let d = SceneDisplay { id, name: scene.name.clone(), entities };
            let k = SortKey { rank: 0, text: lowercase_text(scene.name.as_str()) };
            let ghost k0 = keys@;
            items.push(d);
            keys.push(k);
            proof {
                assert(t.take(i + 1) =~= t.take(i as int).push(t[i as int]));
                assert(key_views(keys@) =~= key_views(k0).push(k@));
                assert(scene_keys(t.take(i + 1)) =~= scene_keys(t.take(i as int)).push(name_key(t[i as int].1.name)));
                assert(shows_scene(items@[i as int]@, t[i as int].0, t[i as int].1));
            }
            i = i + 1;
        }
        proof {
            assert(t.take(n as int) =~= t);
        }
        let ghost before = items@;
        let sorted = stable_sort(items, &keys);
        proof {
            let perm = choose|perm: Seq<usize>| sorts_stably(before, key_views(keys@), sorted@, perm);
            let out = scene_display_views(sorted@);
            assert forall|k: int| 0 <= k < out.len() implies shows_scene(#[trigger] out[k], t[perm[k] as int].0, t[perm[k] as int].1) by {
                assert(sorted@[k] == before[perm[k] as int]);
                assert(perm[k] < t.len());
            }
            assert(stable_order(scene_keys(t), perm));
        }
        sorted
    }

    /// Is the scene the scene panel's selection?
    pub fn is_selected(gui_state: &GuiState, scene_id: u128) -> (r: bool)
        ensures
            r == (gui_state.scene_panel_selected_item matches ScenePanelSelectedItem::Scene(s) && s == scene_id),
    {
        match gui_state.scene_panel_selected_item {
            ScenePanelSelectedItem::Scene(s) => s == scene_id,
            _ => false,
        }
    }

    /// A click on the scene: it becomes the editor's and the panel's selection.
    pub fn select(gui_state: &mut GuiState, scene_id: u128)
        ensures
            *final(gui_state) == (GuiState {
                selected_item: SelectedItem::Scene(scene_id),
                scene_panel_selected_item: ScenePanelSelectedItem::Scene(scene_id),
                ..*old(gui_state)
            }),
    {
        gui_state.selected_item = SelectedItem::Scene(scene_id);
        gui_state.scene_panel_selected_item = ScenePanelSelectedItem::Scene(scene_id);
    }
}

pub struct ResourceItem;

impl ResourceItem {
    /// Is the asset at `path` of the entity the scene panel's selection?
    pub fn is_selected(gui_state: &GuiState, scene_id: u128, entity_id: u128, path: &str) -> (r: bool)
        ensures
            r == (gui_state.scene_panel_selected_item matches ScenePanelSelectedItem::Asset(s, e, p)
                && s == scene_id && e == entity_id && components(p@) == components(path@)),
    {
        match &gui_state.scene_panel_selected_item {
            ScenePanelSelectedItem::Asset(s, e, p) => *s == scene_id && *e == entity_id && paths_equal(p.as_str(), path),
            _ => false,
        }
    }

    /// A click on the asset: it becomes the editor's and the panel's selection.
    pub fn select(gui_state: &mut GuiState, scene_id: u128, entity_id: u128, path: &str)
        ensures
            final(gui_state).selected_item matches SelectedItem::Asset(s, e, p) && s == scene_id
                && e == entity_id && p@ == path@,
            final(gui_state).scene_panel_selected_item matches ScenePanelSelectedItem::Asset(s, e, p)
                && s == scene_id && e == entity_id && p@ == path@,
            *final(gui_state) == (GuiState {
                selected_item: final(gui_state).selected_item,
                scene_panel_selected_item: final(gui_state).scene_panel_selected_item,
                ..*old(gui_state)
            }),
    {
        gui_state.selected_item = SelectedItem::Asset(scene_id, entity_id, path.to_string());
        gui_state.scene_panel_selected_item = ScenePanelSelectedItem::Asset(scene_id, entity_id, path.to_string());
    }
}

} // verus!
