//! Entities: named bags of typed attributes plus resource paths.
use indexmap::IndexMap;
use vstd::prelude::*;
use crate::ids::{fresh_id, id_text, uuid_text};
use crate::table::{has_key, key_index, keys_unique, lemma_insert, lemma_key_at, lookup, table_insert, table_remove};
use crate::text::{copy_texts, decimal, decimal_text, joined3, occurs_in, owned, text_contains, text_eq, texts};
use crate::paths::{has_path, paths_contain, paths_without, without_path};
use super::attribute::{Attribute, AttributeType, AttributeValue, AttributeValueView, AttributeView, PhysicsProperties, F32_600, F32_800, F32_ONE, F32_ZERO};
use super::tables::{attribute_entries, attributes_clone, attributes_entry, attributes_index_of, attributes_insert, attributes_len, attributes_new, attributes_shift_remove, attributes_value_mut};

verus! {

/// An entity. Resource paths are held as texts.
#[derive(Debug)]
pub struct Entity {
    pub id: u128,
    pub name: String,
    pub attributes: IndexMap<u128, Attribute>,
    pub images: Vec<String>,
    pub sounds: Vec<String>,
    pub script: Option<String>,
}

pub struct EntityView {
    pub id: u128,
    pub name: Seq<char>,
    pub attributes: Seq<(u128, AttributeView)>,
    pub images: Seq<Seq<char>>,
    pub sounds: Seq<Seq<char>>,
    pub script: Option<Seq<char>>,
}

/// The text of an optional text.
pub open spec fn opt_text(s: Option<String>) -> Option<Seq<char>> {
    match s {
        Some(t) => Some(t@),
        None => None,
    }
}

impl View for Entity {
    type V = EntityView;

    open spec fn view(&self) -> EntityView {
        EntityView {
            id: self.id,
            name: self.name@,
            attributes: attribute_entries(self.attributes),
            images: texts(self.images@),
            sounds: texts(self.sounds@),
            script: opt_text(self.script),
        }
    }
}

// ---------------------------------------------------------------- model

/// Some attribute of the table has this name.
pub open spec fn has_named(t: Seq<(u128, AttributeView)>, name: Seq<char>) -> bool {
    exists|i: int| 0 <= i < t.len() && #[trigger] t[i].1.name == name
}

/// `i` is the first position whose attribute has this name.
pub open spec fn is_first_named(t: Seq<(u128, AttributeView)>, name: Seq<char>, i: int) -> bool {
    &&& 0 <= i < t.len()
    &&& t[i].1.name == name
    &&& forall|j: int| 0 <= j < i ==> #[trigger] t[j].1.name != name
}

/// The first position whose attribute has this name (when there is one).
pub open spec fn first_named(t: Seq<(u128, AttributeView)>, name: Seq<char>) -> int {
    choose|i: int| is_first_named(t, name, i)
}

/// The first attribute with this name, if any: the one that name lookups find.
pub open spec fn named(t: Seq<(u128, AttributeView)>, name: Seq<char>) -> Option<AttributeView> {
    if has_named(t, name) {
        Some(t[first_named(t, name)].1)
    } else {
        None
    }
}

/// The `f32` bits held by the attribute with this name, or `default` when it
/// is missing or holds no float.
pub open spec fn float_or(t: Seq<(u128, AttributeView)>, name: Seq<char>, default: u32) -> u32 {
    match named(t, name) {
        Some(a) => match a.value {
            AttributeValueView::Float(b) => b,
            _ => default,
        },
        None => default,
    }
}

/// The table after the attribute with this name got the float value `v`.
pub open spec fn set_float_named(t: Seq<(u128, AttributeView)>, name: Seq<char>, v: u32) -> Seq<(u128, AttributeView)> {
    let i = first_named(t, name);
    t.update(i, (t[i].0, AttributeView { value: AttributeValueView::Float(v), ..t[i].1 }))
}

/// All attribute names of the table are in `names`.
pub open spec fn names_among(t: Seq<(u128, AttributeView)>, names: Set<Seq<char>>) -> bool {
    forall|i: int| 0 <= i < t.len() ==> names.contains(#[trigger] t[i].1.name)
}

/// No two attributes of the table share a name.
pub open spec fn names_unique(t: Seq<(u128, AttributeView)>) -> bool {
    forall|i: int, j: int|
        0 <= i < t.len() && 0 <= j < t.len() && i != j ==> #[trigger] t[i].1.name != #[trigger] t[j].1.name
}

/// An attribute definition: name, type and value.
pub type AttributeDef = (Seq<char>, AttributeType, AttributeValueView);

/// The attribute that a definition gives under id `id`.
pub open spec fn defined(id: u128, d: AttributeDef) -> AttributeView {
    AttributeView { id, name: d.0, data_type: d.1, value: d.2 }
}

/// The table after creating the defined attributes in order, under the given ids.
pub open spec fn build_attributes(
    t: Seq<(u128, AttributeView)>,
    ids: Seq<u128>,
    defs: Seq<AttributeDef>,
) -> Seq<(u128, AttributeView)>
    decreases defs.len(),
{
    if defs.len() == 0 || ids.len() == 0 {
        t
    } else {
        build_attributes(
            table_insert(t, ids[0], defined(ids[0], defs[0])),
            ids.drop_first(),
            defs.drop_first(),
        )
    }
}

/// The names that a list of definitions defines.
pub open spec fn def_names(defs: Seq<AttributeDef>) -> Set<Seq<char>> {
    Set::new(|n: Seq<char>| exists|i: int| 0 <= i < defs.len() && #[trigger] defs[i].0 == n)
}

/// The position attributes every entity starts with.
pub open spec fn core_defs() -> Seq<AttributeDef> {
    seq![
        ("x"@, AttributeType::Float, AttributeValueView::Float(F32_ZERO)),
        ("y"@, AttributeType::Float, AttributeValueView::Float(F32_ZERO)),
        ("z"@, AttributeType::Float, AttributeValueView::Float(F32_ZERO)),
    ]
}

/// The attributes a camera adds to an entity.
pub open spec fn camera_defs() -> Seq<AttributeDef> {
    seq![
        ("width"@, AttributeType::Float, AttributeValueView::Float(F32_800)),
        ("height"@, AttributeType::Float, AttributeValueView::Float(F32_600)),
        ("zoom"@, AttributeType::Float, AttributeValueView::Float(F32_ONE)),
        ("rotation"@, AttributeType::Float, AttributeValueView::Float(F32_ZERO)),
        ("is_camera"@, AttributeType::Boolean, AttributeValueView::Boolean(true)),
    ]
}

/// The attributes a physical entity adds, from its physics properties.
pub open spec fn physics_defs(p: PhysicsProperties) -> Seq<AttributeDef> {
    seq![
        ("is_movable"@, AttributeType::Boolean, AttributeValueView::Boolean(p.is_movable)),
        ("has_gravity"@, AttributeType::Boolean, AttributeValueView::Boolean(p.affected_by_gravity)),
        ("creates_gravity"@, AttributeType::Boolean, AttributeValueView::Boolean(p.creates_gravity)),
        ("has_collision"@, AttributeType::Boolean, AttributeValueView::Boolean(p.has_collision)),
        ("friction"@, AttributeType::Float, AttributeValueView::Float(p.friction)),
        ("restitution"@, AttributeType::Float, AttributeValueView::Float(p.restitution)),
        ("density"@, AttributeType::Float, AttributeValueView::Float(p.density)),
        ("can_rotate"@, AttributeType::Boolean, AttributeValueView::Boolean(p.can_rotate)),
    ]
}

/// Names of the attributes a physical entity keeps.
pub open spec fn is_physics_name(n: Seq<char>) -> bool {
    n == "is_movable"@ || n == "has_gravity"@ || n == "creates_gravity"@ || n == "has_collision"@
        || n == "friction"@ || n == "restitution"@ || n == "density"@ || n == "can_rotate"@
}

/// Names of the attributes a camera entity keeps.
pub open spec fn is_camera_name(n: Seq<char>) -> bool {
    n == "width"@ || n == "height"@ || n == "zoom"@ || n == "rotation"@ || n == "is_camera"@
}

/// Why deleting an attribute named `attr` from an entity named `entity` is
/// refused, if it is.
pub open spec fn deletion_refusal(entity: Seq<char>, attr: Seq<char>) -> Option<Seq<char>> {
    if attr == "x"@ || attr == "y"@ || attr == "z"@ {
        Some("Cannot delete core position attributes"@)
    } else if is_physics_name(attr) && occurs_in(entity, "physical"@) {
        Some("Cannot delete physics attributes from physical entity"@)
    } else if is_camera_name(attr) && occurs_in(entity, "camera"@) {
        Some("Cannot delete camera attributes from camera entity"@)
    } else {
        None
    }
}

/// An attribute after a modification: each given part replaces the old one.
pub open spec fn modified(
    a: AttributeView,
    new_name: Option<Seq<char>>,
    new_type: Option<AttributeType>,
    new_value: Option<AttributeValueView>,
) -> AttributeView {
    AttributeView {
        id: a.id,
        name: match new_name { Some(n) => n, None => a.name },
        data_type: match new_type { Some(t) => t, None => a.data_type },
        value: match new_value { Some(v) => v, None => a.value },
    }
}

/// The view of an optional attribute value.
pub open spec fn opt_value(v: Option<AttributeValue>) -> Option<AttributeValueView> {
    match v {
        Some(x) => Some(x@),
        None => None,
    }
}

impl EntityView {
    /// An entity with a name and nothing else.
    pub open spec fn blank(id: u128, name: Seq<char>) -> EntityView {
        EntityView {
            id,
            name,
            attributes: Seq::empty(),
            images: Seq::empty(),
            sounds: Seq::empty(),
            script: None,
        }
    }

    pub open spec fn with_attributes(self, t: Seq<(u128, AttributeView)>) -> EntityView {
        EntityView { attributes: t, ..self }
    }

    pub open spec fn with_name(self, name: Seq<char>) -> EntityView {
        EntityView { name, ..self }
    }

    pub open spec fn with_images(self, images: Seq<Seq<char>>) -> EntityView {
        EntityView { images, ..self }
    }

    pub open spec fn with_sounds(self, sounds: Seq<Seq<char>>) -> EntityView {
        EntityView { sounds, ..self }
    }

    pub open spec fn with_script(self, script: Option<Seq<char>>) -> EntityView {
        EntityView { script, ..self }
    }

    /// The entity after creating the defined attributes under the given ids.
    pub open spec fn build(self, ids: Seq<u128>, defs: Seq<AttributeDef>) -> EntityView {
        self.with_attributes(build_attributes(self.attributes, ids, defs))
    }

    /// A new entity: the position attributes at 0.
    pub open spec fn created(id: u128, name: Seq<char>, ids: Seq<u128>) -> EntityView {
        EntityView::blank(id, name).build(ids, core_defs())
    }

    /// The entity after `set_position(x, y, z)`, and why it failed, if it did:
    /// `x`, `y` and `z` are set in turn until one of them is missing.
    pub open spec fn position_outcome(self, x: u32, y: u32, z: u32) -> (EntityView, Option<Seq<char>>) {
        let t = self.attributes;
        if !has_named(t, "x"@) {
            (self, Some("X attribute not found"@))
        } else {
            let t1 = set_float_named(t, "x"@, x);
            if !has_named(t1, "y"@) {
                (self.with_attributes(t1), Some("Y attribute not found"@))
            } else {
                let t2 = set_float_named(t1, "y"@, y);
                if !has_named(t2, "z"@) {
                    (self.with_attributes(t2), Some("Z attribute not found"@))
                } else {
                    (self.with_attributes(set_float_named(t2, "z"@, z)), None)
                }
            }
        }
    }

    /// The entity after `set_camera_size(width, height)`, and why it failed, if it did.
    pub open spec fn camera_size_outcome(self, width: u32, height: u32) -> (EntityView, Option<Seq<char>>) {
        let t = self.attributes;
        if !has_named(t, "width"@) {
            (self, Some("Width attribute not found"@))
        } else {
            let t1 = set_float_named(t, "width"@, width);
            if !has_named(t1, "height"@) {
                (self.with_attributes(t1), Some("Height attribute not found"@))
            } else {
                (self.with_attributes(set_float_named(t1, "height"@, height)), None)
            }
        }
    }
}

/// The definitions held by a list of (name, type, value) triples.
pub open spec fn defs_view(defs: Seq<(&str, AttributeType, AttributeValue)>) -> Seq<AttributeDef> {
    defs.map_values(|d: (&str, AttributeType, AttributeValue)| (d.0@, d.1, d.2@))
}

/// The definitions' names are pairwise distinct.
pub open spec fn def_names_distinct(defs: Seq<AttributeDef>) -> bool {
    forall|i: int, j: int| 0 <= i < defs.len() && 0 <= j < defs.len() && i != j ==> #[trigger] defs[i].0 != #[trigger] defs[j].0
}

// ---------------------------------------------------------------- lemmas

/// The characters of the attribute names the model treats specially.
pub proof fn lemma_attribute_name_texts()
    ensures
        "x"@ == seq!['x'],
        "y"@ == seq!['y'],
        "z"@ == seq!['z'],
        "width"@ == seq!['w','i','d','t','h'],
        "height"@ == seq!['h','e','i','g','h','t'],
        "zoom"@ == seq!['z','o','o','m'],
        "rotation"@ == seq!['r','o','t','a','t','i','o','n'],
        "is_camera"@ == seq!['i','s','_','c','a','m','e','r','a'],
        "is_movable"@ == seq!['i','s','_','m','o','v','a','b','l','e'],
        "has_gravity"@ == seq!['h','a','s','_','g','r','a','v','i','t','y'],
        "creates_gravity"@ == seq!['c','r','e','a','t','e','s','_','g','r','a','v','i','t','y'],
        "has_collision"@ == seq!['h','a','s','_','c','o','l','l','i','s','i','o','n'],
        "friction"@ == seq!['f','r','i','c','t','i','o','n'],
        "restitution"@ == seq!['r','e','s','t','i','t','u','t','i','o','n'],
        "density"@ == seq!['d','e','n','s','i','t','y'],
        "can_rotate"@ == seq!['c','a','n','_','r','o','t','a','t','e'],
        "physical"@ == seq!['p','h','y','s','i','c','a','l'],
        "camera"@ == seq!['c','a','m','e','r','a'],
{
    reveal_strlit("x");
    reveal_strlit("y");
    reveal_strlit("z");
    reveal_strlit("width");
    reveal_strlit("height");
    reveal_strlit("zoom");
    reveal_strlit("rotation");
    reveal_strlit("is_camera");
    reveal_strlit("is_movable");
    reveal_strlit("has_gravity");
    reveal_strlit("creates_gravity");
    reveal_strlit("has_collision");
    reveal_strlit("friction");
    reveal_strlit("restitution");
    reveal_strlit("density");
    reveal_strlit("can_rotate");
    reveal_strlit("physical");
    reveal_strlit("camera");
    assert("x"@ =~= seq!['x']);
    assert("y"@ =~= seq!['y']);
    assert("z"@ =~= seq!['z']);
    assert("width"@ =~= seq!['w','i','d','t','h']);
    assert("height"@ =~= seq!['h','e','i','g','h','t']);
    assert("zoom"@ =~= seq!['z','o','o','m']);
    assert("rotation"@ =~= seq!['r','o','t','a','t','i','o','n']);
    assert("is_camera"@ =~= seq!['i','s','_','c','a','m','e','r','a']);
    assert("is_movable"@ =~= seq!['i','s','_','m','o','v','a','b','l','e']);
    assert("has_gravity"@ =~= seq!['h','a','s','_','g','r','a','v','i','t','y']);
    assert("creates_gravity"@ =~= seq!['c','r','e','a','t','e','s','_','g','r','a','v','i','t','y']);
    assert("has_collision"@ =~= seq!['h','a','s','_','c','o','l','l','i','s','i','o','n']);
    assert("friction"@ =~= seq!['f','r','i','c','t','i','o','n']);
    assert("restitution"@ =~= seq!['r','e','s','t','i','t','u','t','i','o','n']);
    assert("density"@ =~= seq!['d','e','n','s','i','t','y']);
    assert("can_rotate"@ =~= seq!['c','a','n','_','r','o','t','a','t','e']);
    assert("physical"@ =~= seq!['p','h','y','s','i','c','a','l']);
    assert("camera"@ =~= seq!['c','a','m','e','r','a']);
}

/// The protected attributes: `x`, `y` and `z` can never be deleted; the
/// physics attributes (`is_movable`, `has_gravity`, `creates_gravity`,
/// `has_collision`, `friction`, `restitution`, `density`, `can_rotate`) not
/// from an entity whose name contains "physical"; the camera attributes
/// (`width`, `height`, `zoom`, `rotation`, `is_camera`) not from an entity
/// whose name contains "camera". Every other deletion is allowed.
pub proof fn law_protected_attributes_stay(entity: Seq<char>, attr: Seq<char>)
    ensures
        (attr == "x"@ || attr == "y"@ || attr == "z"@)
            ==> deletion_refusal(entity, attr) == Some("Cannot delete core position attributes"@),
        occurs_in(entity, "physical"@) && (attr == "is_movable"@ || attr == "has_gravity"@
            || attr == "creates_gravity"@ || attr == "has_collision"@ || attr == "friction"@
            || attr == "restitution"@ || attr == "density"@ || attr == "can_rotate"@)
            ==> deletion_refusal(entity, attr) == Some("Cannot delete physics attributes from physical entity"@),
        occurs_in(entity, "camera"@) && (attr == "width"@ || attr == "height"@ || attr == "zoom"@
            || attr == "rotation"@ || attr == "is_camera"@)
            ==> deletion_refusal(entity, attr) == Some("Cannot delete camera attributes from camera entity"@),
        deletion_refusal(entity, attr) is None <==> {
            &&& !(attr == "x"@ || attr == "y"@ || attr == "z"@)
            &&& !(occurs_in(entity, "physical"@) && (attr == "is_movable"@ || attr == "has_gravity"@
                || attr == "creates_gravity"@ || attr == "has_collision"@ || attr == "friction"@
                || attr == "restitution"@ || attr == "density"@ || attr == "can_rotate"@))
            &&& !(occurs_in(entity, "camera"@) && (attr == "width"@ || attr == "height"@ || attr == "zoom"@
                || attr == "rotation"@ || attr == "is_camera"@))
        },
{
    lemma_attribute_name_texts();
    assert("x"@.len() == 1 && "y"@.len() == 1 && "z"@.len() == 1);
    assert("is_movable"@.len() == 10 && "has_gravity"@.len() == 11 && "creates_gravity"@.len() == 15);
    assert("has_collision"@.len() == 13 && "friction"@.len() == 8 && "restitution"@.len() == 11);
    assert("density"@.len() == 7 && "can_rotate"@.len() == 10);
    assert("width"@.len() == 5 && "height"@.len() == 6 && "zoom"@.len() == 4);
    assert("rotation"@.len() == 8 && "is_camera"@.len() == 9);
    assert("rotation"@[0] == 'r' && "friction"@[0] == 'f');
}

/// Setting a named float changes only the value of the first attribute of
/// that name: the table keeps its length, keys, names and types, every other
/// entry is unchanged, and a lookup of the name then finds the new value.
pub proof fn law_set_float_named(t: Seq<(u128, AttributeView)>, name: Seq<char>, v: u32, i: int, k: int)
    requires
        has_named(t, name),
    ensures
        ({
            let t2 = set_float_named(t, name, v);
            &&& t2.len() == t.len()
            &&& named(t2, name) matches Some(a) && a.value == AttributeValueView::Float(v) && a.name == name
            &&& 0 <= k < t.len() ==> t2[k].0 == t[k].0 && t2[k].1.id == t[k].1.id && t2[k].1.name == t[k].1.name
                && t2[k].1.data_type == t[k].1.data_type
            &&& is_first_named(t, name, i) && 0 <= k < t.len() && k != i ==> t2[k] == t[k]
            &&& is_first_named(t, name, i) ==> t2[i].1.value == AttributeValueView::Float(v)
        }),
{
    lemma_has_first_named(t, name);
    let f = first_named(t, name);
    let t2 = set_float_named(t, name, v);
    lemma_names_kept(t, name, v, name, f);
    lemma_first_named(t2, name, f);
    if is_first_named(t, name, i) {
        lemma_first_named(t, name, i);
    }
}

/// Setting the position of an entity that has `x`, `y` and `z` succeeds,
/// and its `x`, `y` and `z` attributes then hold the new values; the
/// entity's attributes keep their keys and names.
pub proof fn law_position_set(e: EntityView, x: u32, y: u32, z: u32)
    requires
        has_named(e.attributes, "x"@),
        has_named(e.attributes, "y"@),
        has_named(e.attributes, "z"@),
    ensures
        e.position_outcome(x, y, z).1 is None,
        ({
            let t = e.position_outcome(x, y, z).0.attributes;
            &&& t.len() == e.attributes.len()
            &&& forall|k: int| 0 <= k < t.len() ==> t[k].0 == e.attributes[k].0 && #[trigger] t[k].1.name == e.attributes[k].1.name
            &&& named(t, "x"@) matches Some(a) && a.value == AttributeValueView::Float(x)
            &&& named(t, "y"@) matches Some(a) && a.value == AttributeValueView::Float(y)
            &&& named(t, "z"@) matches Some(a) && a.value == AttributeValueView::Float(z)
        }),
{
    lemma_attribute_name_texts();
    assert("x"@[0] == 'x' && "y"@[0] == 'y' && "z"@[0] == 'z');
    assert("x"@ != "y"@ && "y"@ != "z"@ && "x"@ != "z"@);
    let t = e.attributes;
    lemma_has_first_named(t, "x"@);
    lemma_has_first_named(t, "y"@);
    lemma_has_first_named(t, "z"@);
    let ix = first_named(t, "x"@);
    let iy = first_named(t, "y"@);
    let iz = first_named(t, "z"@);
    let t1 = set_float_named(t, "x"@, x);
    lemma_names_kept(t, "x"@, x, "y"@, iy);
    lemma_names_kept(t, "x"@, x, "z"@, iz);
    lemma_first_named(t1, "y"@, iy);
    let t2 = set_float_named(t1, "y"@, y);
    lemma_names_kept(t1, "y"@, y, "z"@, iz);
    lemma_names_kept(t1, "y"@, y, "x"@, ix);
    lemma_names_kept(t, "x"@, x, "x"@, ix);
    lemma_first_named(t2, "z"@, iz);
    let t3 = set_float_named(t2, "z"@, z);
    lemma_names_kept(t2, "z"@, z, "x"@, ix);
    lemma_names_kept(t2, "z"@, z, "y"@, iy);
    lemma_names_kept(t1, "y"@, y, "y"@, iy);
    lemma_names_kept(t2, "z"@, z, "z"@, iz);
    lemma_first_named(t3, "x"@, ix);
    lemma_first_named(t3, "y"@, iy);
    lemma_first_named(t3, "z"@, iz);
    assert(e.position_outcome(x, y, z).0.attributes == t3);
    assert forall|k: int| 0 <= k < t3.len() implies t3[k].0 == t[k].0 && #[trigger] t3[k].1.name == t[k].1.name by {
        assert(t3[k].1.name == t2[k].1.name);
        assert(t2[k].1.name == t1[k].1.name);
        assert(t1[k].1.name == t[k].1.name);
    }
}

/// Setting a named float keeps every name where it was, so each name's
/// first position stays the same.
proof fn lemma_names_kept(t: Seq<(u128, AttributeView)>, name: Seq<char>, v: u32, other: Seq<char>, j: int)
    requires
        has_named(t, name),
        is_first_named(t, other, j),
    ensures
        ({
            let t2 = set_float_named(t, name, v);
            &&& t2.len() == t.len()
            &&& forall|k: int| 0 <= k < t.len() ==> t2[k].0 == t[k].0 && #[trigger] t2[k].1.name == t[k].1.name
            &&& is_first_named(t2, other, j)
            &&& other == name ==> t2[j].1.value == AttributeValueView::Float(v)
            &&& other != name ==> t2[j] == t[j]
        }),
{
    lemma_has_first_named(t, name);
    let f = first_named(t, name);
    let t2 = set_float_named(t, name, v);
    assert forall|k: int| 0 <= k < j implies #[trigger] t2[k].1.name != other by {
        assert(t2[k].1.name == t[k].1.name);
    }
    if other == name {
        lemma_first_named(t, name, j);
    } else {
        assert(f != j);
    }
}

/// A modification replaces exactly the parts it is given: the id never
/// changes, and each part left out keeps its old value.
pub proof fn law_modify_replaces_given_parts(
    a: AttributeView,
    n: Seq<char>,
    t: AttributeType,
    v: AttributeValueView,
)
    ensures
        modified(a, Some(n), Some(t), Some(v)) == (AttributeView { id: a.id, name: n, data_type: t, value: v }),
        modified(a, None, None, None) == a,
        modified(a, Some(n), None, None) == (AttributeView { name: n, ..a }),
        modified(a, None, Some(t), None) == (AttributeView { data_type: t, ..a }),
        modified(a, None, None, Some(v)) == (AttributeView { value: v, ..a }),
{
}

/// The first position with a name is unique.
pub proof fn lemma_first_named(t: Seq<(u128, AttributeView)>, name: Seq<char>, i: int)
    requires
        is_first_named(t, name, i),
    ensures
        has_named(t, name),
        first_named(t, name) == i,
        named(t, name) == Some(t[i].1),
{
    assert(t[i].1.name == name);
    let c = first_named(t, name);
    assert(is_first_named(t, name, c));
    if c < i {
        assert(t[c].1.name != name);
    }
    if c > i {
        assert(t[i].1.name != name);
    }
}

/// When a name occurs, it has a first position.
pub proof fn lemma_has_first_named(t: Seq<(u128, AttributeView)>, name: Seq<char>)
    requires
        has_named(t, name),
    ensures
        is_first_named(t, name, first_named(t, name)),
    decreases t.len(),
{
    if t[0].1.name == name {
        assert(is_first_named(t, name, 0));
    } else {
        let r = t.drop_first();
        let w = choose|i: int| 0 <= i < t.len() && #[trigger] t[i].1.name == name;
        assert(r[w - 1].1.name == name);
        lemma_has_first_named(r, name);
        let k = first_named(r, name);
        assert(is_first_named(t, name, k + 1)) by {
            assert forall|j: int| 0 <= j < k + 1 implies #[trigger] t[j].1.name != name by {
                if j > 0 {
                    assert(t[j] == r[j - 1]);
                }
            }
        }
    }
}

/// Inserting an attribute keeps the names among the known names plus its own.
pub proof fn lemma_insert_names(t: Seq<(u128, AttributeView)>, k: u128, a: AttributeView, names: Set<Seq<char>>)
    requires
        names_among(t, names),
    ensures
        names_among(table_insert(t, k, a), names.insert(a.name)),
{
    let r = table_insert(t, k, a);
    assert forall|i: int| 0 <= i < r.len() implies names.insert(a.name).contains(#[trigger] r[i].1.name) by {
        if has_key(t, k) {
            let c = key_index(t, k);
            if i != c {
                assert(r[i] == t[i]);
            }
        } else {
            if i < t.len() {
                assert(r[i] == t[i]);
            }
        }
    }
}

/// Building from definitions adds only defined names.
pub proof fn lemma_build_names(t: Seq<(u128, AttributeView)>, ids: Seq<u128>, defs: Seq<AttributeDef>, names: Set<Seq<char>>)
    requires
        names_among(t, names),
    ensures
        names_among(build_attributes(t, ids, defs), names.union(def_names(defs))),
    decreases defs.len(),
{
    if defs.len() == 0 || ids.len() == 0 {
        assert(names.subset_of(names.union(def_names(defs))));
    } else {
        let t1 = table_insert(t, ids[0], defined(ids[0], defs[0]));
        lemma_insert_names(t, ids[0], defined(ids[0], defs[0]), names);
        let n1 = names.insert(defs[0].0);
        lemma_build_names(t1, ids.drop_first(), defs.drop_first(), n1);
        assert(n1.union(def_names(defs.drop_first())) =~= names.union(def_names(defs))) by {
            assert forall|n: Seq<char>| def_names(defs.drop_first()).contains(n) implies def_names(defs).contains(n) by {
                let i = choose|i: int| 0 <= i < defs.drop_first().len() && #[trigger] defs.drop_first()[i].0 == n;
                assert(defs[i + 1].0 == n);
            }
            assert forall|n: Seq<char>| def_names(defs).contains(n) implies n1.union(def_names(defs.drop_first())).contains(n) by {
                let i = choose|i: int| 0 <= i < defs.len() && #[trigger] defs[i].0 == n;
                if i > 0 {
                    assert(defs.drop_first()[i - 1].0 == n);
                }
            }
            assert(def_names(defs).contains(defs[0].0));
        }
    }
}

/// One step of building.
pub proof fn lemma_build_step(t: Seq<(u128, AttributeView)>, ids: Seq<u128>, defs: Seq<AttributeDef>)
    ensures
        build_attributes(t, ids, defs) == if defs.len() == 0 || ids.len() == 0 {
            t
        } else {
            build_attributes(table_insert(t, ids[0], defined(ids[0], defs[0])), ids.drop_first(), defs.drop_first())
        },
{
}

/// Building one more definition at the end inserts it last.
pub proof fn lemma_build_snoc(t: Seq<(u128, AttributeView)>, ids: Seq<u128>, defs: Seq<AttributeDef>, k: u128, d: AttributeDef)
    requires
        ids.len() == defs.len(),
    ensures
        build_attributes(t, ids.push(k), defs.push(d)) == table_insert(build_attributes(t, ids, defs), k, defined(k, d)),
    decreases defs.len(),
{
    if defs.len() == 0 {
        assert(ids.push(k).drop_first() =~= Seq::<u128>::empty());
        assert(defs.push(d).drop_first() =~= Seq::<AttributeDef>::empty());
        lemma_build_step(t, ids.push(k), defs.push(d));
        lemma_build_step(table_insert(t, k, defined(k, d)), Seq::<u128>::empty(), Seq::<AttributeDef>::empty());
    } else {
        let t1 = table_insert(t, ids[0], defined(ids[0], defs[0]));
        lemma_build_snoc(t1, ids.drop_first(), defs.drop_first(), k, d);
        assert(ids.push(k).drop_first() =~= ids.drop_first().push(k));
        assert(defs.push(d).drop_first() =~= defs.drop_first().push(d));
    }
}

/// Setting an attribute's float value keeps every name in place.
pub proof fn lemma_set_float_names(t: Seq<(u128, AttributeView)>, name: Seq<char>, v: u32, names: Set<Seq<char>>)
    requires
        has_named(t, name),
        names_among(t, names),
    ensures
        names_among(set_float_named(t, name, v), names),
        keys_unique(t) ==> keys_unique(set_float_named(t, name, v)),
        forall|n: Seq<char>| #[trigger] has_named(set_float_named(t, name, v), n) == has_named(t, n),
{
    lemma_has_first_named(t, name);
    let i = first_named(t, name);
    let r = set_float_named(t, name, v);
    assert forall|j: int| 0 <= j < r.len() implies #[trigger] r[j].1.name == t[j].1.name && r[j].0 == t[j].0 by {}
    assert forall|n: Seq<char>| #[trigger] has_named(r, n) == has_named(t, n) by {
        if has_named(r, n) {
            let w = choose|j: int| 0 <= j < r.len() && #[trigger] r[j].1.name == n;
            assert(t[w].1.name == n);
        }
        if has_named(t, n) {
            let w = choose|j: int| 0 <= j < t.len() && #[trigger] t[j].1.name == n;
            assert(r[w].1.name == n);
        }
    }
    if keys_unique(t) {
        assert forall|a: int, b: int| 0 <= a < r.len() && 0 <= b < r.len() && a != b implies
            #[trigger] r[a].0 != #[trigger] r[b].0 by {
            assert(t[a].0 != t[b].0);
        }
    }
}

/// A name outside the known names is absent.
pub proof fn lemma_absent_name(t: Seq<(u128, AttributeView)>, names: Set<Seq<char>>, n: Seq<char>)
    requires
        names_among(t, names),
        !names.contains(n),
    ensures
        !has_named(t, n),
{
    if has_named(t, n) {
        let w = choose|j: int| 0 <= j < t.len() && #[trigger] t[j].1.name == n;
        assert(names.contains(t[w].1.name));
    }
}

/// The names of the position attributes, and none of the names added to them.
pub proof fn lemma_core_names()
    ensures
        forall|n: Seq<char>| def_names(core_defs()).contains(n) <==> (n == "x"@ || n == "y"@ || n == "z"@),
        def_names_distinct(camera_defs()),
        forall|p: PhysicsProperties| def_names_distinct(#[trigger] physics_defs(p)),
        forall|i: int| 0 <= i < camera_defs().len() ==> !def_names(core_defs()).contains(#[trigger] camera_defs()[i].0),
        forall|p: PhysicsProperties, i: int| 0 <= i < physics_defs(p).len()
            ==> !def_names(core_defs()).contains(#[trigger] physics_defs(p)[i].0),
{
    lemma_attribute_name_texts();
    let d = core_defs();
    assert forall|n: Seq<char>| def_names(d).contains(n) <==> (n == "x"@ || n == "y"@ || n == "z"@) by {
        if n == "x"@ { assert(d[0].0 == n); }
        if n == "y"@ { assert(d[1].0 == n); }
        if n == "z"@ { assert(d[2].0 == n); }
    }
    assert(forall|i: int| 0 <= i < camera_defs().len() ==> (#[trigger] camera_defs()[i].0).len() > 1);
    assert(forall|p: PhysicsProperties, i: int| 0 <= i < physics_defs(p).len() ==> (#[trigger] physics_defs(p)[i].0).len() > 1);
    assert forall|i: int, j: int| 0 <= i < camera_defs().len() && 0 <= j < camera_defs().len() && i != j implies
        #[trigger] camera_defs()[i].0 != #[trigger] camera_defs()[j].0 by {
        let a = camera_defs()[i].0;
        let b = camera_defs()[j].0;
        assert(a.len() != b.len() || a[0] != b[0] || a[1] != b[1]);
    }
    assert forall|p: PhysicsProperties, i: int, j: int| 0 <= i < physics_defs(p).len() && 0 <= j < physics_defs(p).len() && i != j implies
        #[trigger] physics_defs(p)[i].0 != #[trigger] physics_defs(p)[j].0 by {
        let a = physics_defs(p)[i].0;
        let b = physics_defs(p)[j].0;
        assert(a.len() != b.len() || a[0] != b[0] || a[1] != b[1]);
    }
}

/// Building keeps keys unique.
pub proof fn lemma_build_keys(t: Seq<(u128, AttributeView)>, ids: Seq<u128>, defs: Seq<AttributeDef>)
    requires
        keys_unique(t),
    ensures
        keys_unique(build_attributes(t, ids, defs)),
    decreases defs.len(),
{
    if defs.len() > 0 && ids.len() > 0 {
        lemma_insert(t, ids[0], defined(ids[0], defs[0]));
        lemma_build_keys(table_insert(t, ids[0], defined(ids[0], defs[0])), ids.drop_first(), defs.drop_first());
    }
}

// ---------------------------------------------------------------- exec

impl Clone for Entity {
    fn clone(&self) -> (r: Self)
        ensures
            r@ == self@,
    {
        Entity {
            id: self.id,
            name: self.name.clone(),
            attributes: attributes_clone(&self.attributes),
            images: copy_texts(&self.images),
            sounds: copy_texts(&self.sounds),
            script: match &self.script {
                Some(s) => Some(s.clone()),
                None => None,
            },
        }
    }
}

impl Entity {
    /// An entity with the position attributes `x`, `y`, `z` (all 0.0), which
    /// can never be deleted. Each attribute gets a fresh random id.
    pub fn new(id: u128, name: &str) -> (r: Result<Entity, String>)
        ensures
            r matches Ok(e) && exists|ids: Seq<u128>|
                ids.len() == 3 && e@ == #[trigger] EntityView::created(id, name@, ids),
            r matches Ok(e) && keys_unique(e@.attributes),
    {
        let mut entity = Entity {
            id,
            name: owned(name),
            attributes: attributes_new(),
            images: Vec::new(),
            sounds: Vec::new(),
            script: None,
        };
        proof {
            lemma_attribute_name_texts();
        }
        let ghost e0 = entity@;
        let a = entity.create_attribute("x", AttributeType::Float, AttributeValue::Float(F32_ZERO));
        let ghost e1 = entity@;
        proof {
            assert(!has_named(e0.attributes, "x"@));
        }
        let a = match a { Ok(a) => a, Err(_) => { proof { assert(false); } return Err(owned("")); } };
        proof {
            lemma_insert_names(e0.attributes, a, defined(a, core_defs()[0]), Set::empty());
            assert(Set::<Seq<char>>::empty().insert("x"@) =~= set!["x"@]);
        }
        proof {
            assert(e1.attributes == table_insert(e0.attributes, a, defined(a, core_defs()[0])));
            assert(names_among(e1.attributes, set!["x"@]));
            if has_named(e1.attributes, "y"@) {
                let w = choose|i: int| 0 <= i < e1.attributes.len() && #[trigger] e1.attributes[i].1.name == "y"@;
                assert(set!["x"@].contains(e1.attributes[w].1.name));
                assert(e1.attributes[w].1.name[0] == 'y');
                assert(false);
            }
        }
        let b = entity.create_attribute("y", AttributeType::Float, AttributeValue::Float(F32_ZERO));
        let ghost e2 = entity@;
        let b = match b { Ok(b) => b, Err(_) => { proof { assert(false); } return Err(owned("")); } };
        proof {
            lemma_insert_names(e1.attributes, b, defined(b, core_defs()[1]), set!["x"@]);
        }
        proof {
            if has_named(e2.attributes, "z"@) {
                let w = choose|i: int| 0 <= i < e2.attributes.len() && #[trigger] e2.attributes[i].1.name == "z"@;
                assert(set!["x"@].insert("y"@).contains(e2.attributes[w].1.name));
                assert(e2.attributes[w].1.name[0] == 'z');
                assert(false);
            }
        }
        let c = entity.create_attribute("z", AttributeType::Float, AttributeValue::Float(F32_ZERO));
        let c = match c { Ok(c) => c, Err(_) => { proof { assert(false); } return Err(owned("")); } };
        proof {
            let ids = seq![a, b, c];
            let d = core_defs();
            let t0 = e0.attributes;
            let t1 = table_insert(t0, a, defined(a, d[0]));
            let t2 = table_insert(t1, b, defined(b, d[1]));
            let t3 = table_insert(t2, c, defined(c, d[2]));
            assert(entity@.attributes == t3);
            assert(ids.drop_first() =~= seq![b, c]);
            assert(ids.drop_first().drop_first() =~= seq![c]);
            assert(d.drop_first() =~= seq![d[1], d[2]]);
            assert(d.drop_first().drop_first() =~= seq![d[2]]);
            lemma_build_step(t0, ids, d);
            lemma_build_step(t1, ids.drop_first(), d.drop_first());
            lemma_build_step(t2, ids.drop_first().drop_first(), d.drop_first().drop_first());
            lemma_build_step(t3, ids.drop_first().drop_first().drop_first(), d.drop_first().drop_first().drop_first());
            assert(d.drop_first().drop_first().drop_first().len() == 0);
            assert(build_attributes(t0, ids, d) == t3);
            assert(texts(entity.images@) =~= Seq::<Seq<char>>::empty());
            assert(texts(entity.sounds@) =~= Seq::<Seq<char>>::empty());
            assert(entity@ == EntityView::created(id, name@, ids));
        }
        Ok(entity)
    }

    // ------------------------------------------------------------ names

    /// Renames the entity; an empty name is refused.
    pub fn change_entity_name(&mut self, new_name: &str) -> (r: Result<(), String>)
        ensures
            match r {
                Ok(()) => new_name@.len() > 0 && final(self)@ == old(self)@.with_name(new_name@),
                Err(e) => new_name@.len() == 0 && e@ == "Entity name cannot be empty"@ && final(self)@ == old(self)@,
            },
    {
        if new_name.is_empty() {
            return Err(owned("Entity name cannot be empty"));
        }
        self.name = owned(new_name);
        Ok(())
    }

    // ------------------------------------------------------------ resources

    /// Adds an image path; a path already present is refused.
    pub fn add_image(&mut self, path: String) -> (r: Result<(), String>)
        ensures
            match r {
                Ok(()) => !has_path(old(self)@.images, path@)
                    && final(self)@ == old(self)@.with_images(old(self)@.images.push(path@)),
                Err(e) => has_path(old(self)@.images, path@) && e@ == "Image already exists"@
                    && final(self)@ == old(self)@,
            },
    {
        if !paths_contain(&self.images, path.as_str()) {
            let ghost p = path@;
            self.images.push(path);
            assert(texts(self.images@) =~= texts(old(self).images@).push(p));
            Ok(())
        } else {
            Err(owned("Image already exists"))
        }
    }

    /// Removes an image path; a path not present is refused.
    pub fn remove_image(&mut self, path: &String) -> (r: Result<(), String>)
        ensures
            match r {
                Ok(()) => has_path(old(self)@.images, path@) && final(self)@ == old(self)@.with_images(
                    without_path(old(self)@.images, path@),
                ),
                Err(e) => !has_path(old(self)@.images, path@) && e@ == "Image not found"@
                    && final(self)@ == old(self)@,
            },
    {
        if !paths_contain(&self.images, path.as_str()) {
            return Err(owned("Image not found"));
        }
        self.images = paths_without(&self.images, path.as_str());
        Ok(())
    }

    /// Adds a sound path; a path already present is refused.
    pub fn add_sound(&mut self, path: String) -> (r: Result<(), String>)
        ensures
            match r {
                Ok(()) => !has_path(old(self)@.sounds, path@)
                    && final(self)@ == old(self)@.with_sounds(old(self)@.sounds.push(path@)),
                Err(e) => has_path(old(self)@.sounds, path@) && e@ == "Sound already exists"@
                    && final(self)@ == old(self)@,
            },
    {
        if !paths_contain(&self.sounds, path.as_str()) {
            let ghost p = path@;
            self.sounds.push(path);
            assert(texts(self.sounds@) =~= texts(old(self).sounds@).push(p));
            Ok(())
        } else {
            Err(owned("Sound already exists"))
        }
    }

    /// Removes a sound path; a path not present is refused.
    pub fn remove_sound(&mut self, path: &String) -> (r: Result<(), String>)
        ensures
            match r {
                Ok(()) => has_path(old(self)@.sounds, path@) && final(self)@ == old(self)@.with_sounds(
                    without_path(old(self)@.sounds, path@),
                ),
                Err(e) => !has_path(old(self)@.sounds, path@) && e@ == "Sound not found"@
                    && final(self)@ == old(self)@,
            },
    {
        if !paths_contain(&self.sounds, path.as_str()) {
            return Err(owned("Sound not found"));
        }
        self.sounds = paths_without(&self.sounds, path.as_str());
        Ok(())
    }

    /// Sets the entity's one script; refused when it already has one.
    pub fn set_script(&mut self, path: String) -> (r: Result<(), String>)
        ensures
            match r {
                Ok(()) => old(self)@.script is None
                    && final(self)@ == old(self)@.with_script(Some(path@)),
                Err(e) => old(self)@.script is Some && e@ == "Script already exists"@
                    && final(self)@ == old(self)@,
            },
    {
        if self.script.is_some() {
            Err(owned("Script already exists"))
        } else {
            self.script = Some(path);
            Ok(())
        }
    }

    /// Removes the entity's script; refused when it has none.
    pub fn remove_script(&mut self) -> (r: Result<(), String>)
        ensures
            match r {
                Ok(()) => old(self)@.script is Some
                    && final(self)@ == old(self)@.with_script(None),
                Err(e) => old(self)@.script is None && e@ == "No script to remove"@
                    && final(self)@ == old(self)@,
            },
    {
        if self.script.is_none() {
            return Err(owned("No script to remove"));
        }
        self.script = None;
        Ok(())
    }

    pub fn has_image(&self, path: &String) -> (r: bool)
        ensures
            r == has_path(self@.images, path@),
    {
        paths_contain(&self.images, path.as_str())
    }

    pub fn has_sound(&self, path: &String) -> (r: bool)
        ensures
            r == has_path(self@.sounds, path@),
    {
        paths_contain(&self.sounds, path.as_str())
    }

    pub fn has_script(&self) -> (r: bool)
        ensures
            r == self@.script is Some,
    {
        self.script.is_some()
    }

    pub fn list_images(&self) -> (r: &Vec<String>)
        ensures
            texts(r@) == self@.images,
    {
        &self.images
    }

    pub fn list_sounds(&self) -> (r: &Vec<String>)
        ensures
            texts(r@) == self@.sounds,
    {
        &self.sounds
    }

    /// The image at a position of the list.
    pub fn get_image(&self, index: usize) -> (r: Result<&String, String>)
        ensures
            match r {
                Ok(p) => index < self@.images.len() && p@ == self@.images[index as int],
                Err(e) => index >= self@.images.len()
                    && e@ == "Image at index "@ + decimal(index as nat) + " not found"@,
            },
    {
        if index < self.images.len() {
            Ok(&self.images[index])
        } else {
            let n = decimal_text(index as u64);
            Err(joined3("Image at index ", n.as_str(), " not found"))
        }
    }

    /// The sound at a position of the list.
    pub fn get_sound(&self, index: usize) -> (r: Result<&String, String>)
        ensures
            match r {
                Ok(p) => index < self@.sounds.len() && p@ == self@.sounds[index as int],
                Err(e) => index >= self@.sounds.len()
                    && e@ == "Sound at index "@ + decimal(index as nat) + " not found"@,
            },
    {
        if index < self.sounds.len() {
            Ok(&self.sounds[index])
        } else {
            let n = decimal_text(index as u64);
            Err(joined3("Sound at index ", n.as_str(), " not found"))
        }
    }

    pub fn get_script(&self) -> (r: Option<&String>)
        ensures
            match r {
                Some(s) => self@.script == Some(s@),
                None => self@.script is None,
            },
    {
        self.script.as_ref()
    }

    // ------------------------------------------------------------ attributes

    /// The position of the first attribute with this name.
    fn find_named(&self, name: &str) -> (r: Option<usize>)
        ensures
            match r {
                Some(i) => is_first_named(self@.attributes, name@, i as int),
                None => !has_named(self@.attributes, name@),
            },
    {
        let n = attributes_len(&self.attributes);
        let mut i: usize = 0;
        while i < n
            invariant
                n == self@.attributes.len(),
                i <= n,
                forall|j: int| 0 <= j < i ==> #[trigger] self@.attributes[j].1.name != name@,
            decreases n - i,
        {
            let (_, a) = attributes_entry(&self.attributes, i);
            if text_eq(a.name.as_str(), name) {
                return Some(i);
            }
            i = i + 1;
        }
        None
    }

    /// Creates an attribute under a fresh random id; a name already used by
    /// an attribute of this entity is refused.
    pub fn create_attribute(&mut self, name: &str, data_type: AttributeType, value: AttributeValue) -> (r: Result<u128, String>)
        ensures
            match r {
                Ok(id) => !has_named(old(self)@.attributes, name@) && final(self)@ == old(self)@.with_attributes(
                    table_insert(old(self)@.attributes, id, defined(id, (name@, data_type, value@))),
                ),
                Err(e) => has_named(old(self)@.attributes, name@)
                    && e@ == "Attribute '"@ + name@ + "' already exists"@ && final(self)@ == old(self)@,
            },
    {
        if self.find_named(name).is_some() {
            return Err(joined3("Attribute '", name, "' already exists"));
        }
        let id = fresh_id();
        let attribute = Attribute { id, name: owned(name), data_type, value };
        attributes_insert(&mut self.attributes, id, attribute);
        Ok(id)
    }

    /// Deletes an attribute by id. The position attributes can never be
    /// deleted; physics attributes not from an entity whose name contains
    /// "physical"; camera attributes not from one whose name contains
    /// "camera". Returns whether an attribute was removed.
    pub fn delete_attribute(&mut self, id: u128) -> (r: Result<bool, String>)
        ensures
            match lookup(old(self)@.attributes, id) {
                Some(a) => match deletion_refusal(old(self)@.name, a.name) {
                    Some(m) => r matches Err(e) && e@ == m && final(self)@ == old(self)@,
                    None => r == Ok::<bool, String>(true)
                        && final(self)@ == old(self)@.with_attributes(table_remove(old(self)@.attributes, id))
                        && !has_key(final(self)@.attributes, id),
                },
                None => r == Ok::<bool, String>(false) && final(self)@ == old(self)@,
            },
    {
        match attributes_index_of(&self.attributes, id) {
            Some(i) => {
                proof {
                    lemma_key_at(self@.attributes, i as int);
                }
                let (_, attr) = attributes_entry(&self.attributes, i);
                let n = attr.name.as_str();
                proof {
                    reveal_strlit("x");
                    reveal_strlit("y");
                    reveal_strlit("z");
                }
                if text_eq(n, "x") || text_eq(n, "y") || text_eq(n, "z") {
                    return Err(owned("Cannot delete core position attributes"));
                }
                if text_eq(n, "is_movable") || text_eq(n, "has_gravity") || text_eq(n, "creates_gravity")
                    || text_eq(n, "has_collision") || text_eq(n, "friction") || text_eq(n, "restitution")
                    || text_eq(n, "density") || text_eq(n, "can_rotate")
                {
                    if text_contains(self.name.as_str(), "physical") {
                        return Err(owned("Cannot delete physics attributes from physical entity"));
                    }
                }
                if text_eq(n, "width") || text_eq(n, "height") || text_eq(n, "zoom")
                    || text_eq(n, "rotation") || text_eq(n, "is_camera")
                {
                    if text_contains(self.name.as_str(), "camera") {
                        return Err(owned("Cannot delete camera attributes from camera entity"));
                    }
                }
                proof {
                    crate::table::lemma_remove_sole_key(self@.attributes, id, Some(i));
                }
                let removed = attributes_shift_remove(&mut self.attributes, id);
                Ok(removed.is_some())
            },
            None => Ok(false),
        }
    }

    /// The attributes' ids and names, in order.
    pub fn list_attribute(&self) -> (r: Vec<(u128, &str)>)
        ensures
            r@.len() == self@.attributes.len(),
            forall|i: int| 0 <= i < r@.len() ==> (#[trigger] r@[i]).0 == self@.attributes[i].0
                && r@[i].1@ == self@.attributes[i].1.name,
    {
        let n = attributes_len(&self.attributes);
        let mut r: Vec<(u128, &str)> = Vec::new();
        let mut i: usize = 0;
        while i < n
            invariant
                n == self@.attributes.len(),
                i <= n,
                r@.len() == i,
                forall|j: int| 0 <= j < i ==> (#[trigger] r@[j]).0 == self@.attributes[j].0
                    && r@[j].1@ == self@.attributes[j].1.name,
            decreases n - i,
        {
            let (k, a) = attributes_entry(&self.attributes, i);
            r.push((k, a.name.as_str()));
            i = i + 1;
        }
        r
    }

    /// The attribute with this id.
    pub fn get_attribute(&self, id: u128) -> (r: Result<&Attribute, String>)
        ensures
            match r {
                Ok(a) => lookup(self@.attributes, id) == Some(a@),
                Err(e) => lookup(self@.attributes, id) is None
                    && e@ == "Attribute "@ + uuid_text(id) + " not found"@,
            },
    {
        match attributes_index_of(&self.attributes, id) {
            Some(i) => {
                proof {
                    lemma_key_at(self@.attributes, i as int);
                }
                let (_, a) = attributes_entry(&self.attributes, i);
                Ok(a)
            },
            None => {
                let t = id_text(id);
                Err(joined3("Attribute ", t.as_str(), " not found"))
            },
        }
    }

    /// The attribute with this id, to change in place.
    pub fn get_attribute_mut(&mut self, id: u128) -> (r: Result<&mut Attribute, String>)
        ensures
            match r {
                Ok(a) => has_key(old(self)@.attributes, id) && lookup(old(self)@.attributes, id) == Some(a@)
                    && final(self)@ == old(self)@.with_attributes(old(self)@.attributes.update(
                        key_index(old(self)@.attributes, id),
                        (id, (*final(a))@),
                    )),
                Err(e) => !has_key(old(self)@.attributes, id)
                    && e@ == "Attribute "@ + uuid_text(id) + " not found"@ && final(self)@ == old(self)@,
            },
    {
        match attributes_index_of(&self.attributes, id) {
            Some(i) => {
                proof {
                    lemma_key_at(self@.attributes, i as int);
                }
                Ok(attributes_value_mut(&mut self.attributes, i))
            },
            None => {
                let t = id_text(id);
                Err(joined3("Attribute ", t.as_str(), " not found"))
            },
        }
    }

    /// Changes an attribute's name, type and/or value. The `is_camera`
    /// attribute cannot be modified.
    pub fn modify_attribute(
        &mut self,
        id: u128,
        new_name: Option<String>,
        new_type: Option<AttributeType>,
        new_value: Option<AttributeValue>,
    ) -> (r: Result<(), String>)
        ensures
            match lookup(old(self)@.attributes, id) {
                Some(a) => if a.name == "is_camera"@ {
                    r matches Err(e) && e@ == "Cannot modify is_camera attribute"@ && final(self)@ == old(self)@
                } else {
                    r is Ok && final(self)@ == old(self)@.with_attributes(old(self)@.attributes.update(
                        key_index(old(self)@.attributes, id),
                        (id, modified(a, opt_text(new_name), new_type, opt_value(new_value))),
                    ))
                },
                None => r matches Err(e) && e@ == "Attribute not found"@ && final(self)@ == old(self)@,
            },
    {
        match attributes_index_of(&self.attributes, id) {
            Some(i) => {
                proof {
                    lemma_key_at(self@.attributes, i as int);
                }
                let (_, current) = attributes_entry(&self.attributes, i);
                if text_eq(current.name.as_str(), "is_camera") {
                    return Err(owned("Cannot modify is_camera attribute"));
                }
                let attr = attributes_value_mut(&mut self.attributes, i);
                if let Some(name) = new_name {
                    attr.name = name;
                }
                if let Some(data_type) = new_type {
                    attr.data_type = data_type;
                }
                if let Some(value) = new_value {
                    attr.value = value;
                }
                Ok(())
            },
            None => Err(owned("Attribute not found")),
        }
    }

    /// The first attribute with this name.
    pub fn get_attribute_by_name(&self, name: &str) -> (r: Result<&Attribute, String>)
        ensures
            match r {
                Ok(a) => named(self@.attributes, name@) == Some(a@),
                Err(e) => named(self@.attributes, name@) is None
                    && e@ == "Attribute '"@ + name@ + "' not found"@,
            },
    {
        match self.find_named(name) {
            Some(i) => {
                proof {
                    lemma_first_named(self@.attributes, name@, i as int);
                }
                let (_, a) = attributes_entry(&self.attributes, i);
                Ok(a)
            },
            None => Err(joined3("Attribute '", name, "' not found")),
        }
    }
}


impl Entity {
    /// Creates the defined attributes in order. Every creation succeeds when
    /// the definitions' names are distinct and none is already used.
    pub(crate) fn create_attributes(&mut self, defs: &Vec<(&str, AttributeType, AttributeValue)>, Ghost(names): Ghost<Set<Seq<char>>>) -> (ids: Ghost<Seq<u128>>)
        requires
            names_among(old(self)@.attributes, names),
            keys_unique(old(self)@.attributes),
            def_names_distinct(defs_view(defs@)),
            forall|i: int| 0 <= i < defs@.len() ==> !names.contains(#[trigger] defs_view(defs@)[i].0),
        ensures
            ids@.len() == defs@.len(),
            final(self)@ == old(self)@.build(ids@, defs_view(defs@)),
            keys_unique(final(self)@.attributes),
            names_among(final(self)@.attributes, names.union(def_names(defs_view(defs@)))),
    {
        let ghost dv = defs_view(defs@);
        let ghost start = self@;
        let ghost mut ids: Seq<u128> = Seq::empty();
        let mut i: usize = 0;
        proof {
            lemma_build_step(start.attributes, ids, dv.take(0));
            assert(dv.take(0) =~= Seq::<AttributeDef>::empty());
            assert(self@ == start.build(ids, dv.take(0)));
        }
        while i < defs.len()
            invariant
                dv == defs_view(defs@),
                i <= defs@.len(),
                ids.len() == i,
                self@ == start.build(ids, dv.take(i as int)),
                keys_unique(self@.attributes),
                names_among(start.attributes, names),
                names_among(self@.attributes, names.union(def_names(dv.take(i as int)))),
                def_names_distinct(dv),
                forall|k: int| 0 <= k < dv.len() ==> !names.contains(#[trigger] dv[k].0),
            decreases defs@.len() - i,
        {
            let ghost before = self@;
            let ghost d = dv[i as int];
            proof {
                assert(!def_names(dv.take(i as int)).contains(d.0)) by {
                    if def_names(dv.take(i as int)).contains(d.0) {
                        let w = choose|w: int| 0 <= w < dv.take(i as int).len() && #[trigger] dv.take(i as int)[w].0 == d.0;
                        assert(dv[w].0 == dv[i as int].0);
                    }
                }
                assert(!names.contains(dv[i as int].0));
                lemma_absent_name(before.attributes, names.union(def_names(dv.take(i as int))), d.0);
            }
            let r = self.create_attribute(defs[i].0, defs[i].1, defs[i].2.clone());
            let id = match r {
                Ok(id) => id,
                Err(_) => {
                    proof { assert(false); }
                    0
                },
            };
            proof {
                assert(defined(id, (defs@[i as int].0@, defs@[i as int].1, defs@[i as int].2@)) == defined(id, d));
                lemma_build_snoc(start.attributes, ids, dv.take(i as int), id, d);
                assert(dv.take(i as int).push(d) =~= dv.take(i + 1));
                lemma_insert(before.attributes, id, defined(id, d));
                lemma_insert_names(before.attributes, id, defined(id, d), names.union(def_names(dv.take(i as int))));
                assert(names.union(def_names(dv.take(i as int))).insert(d.0) =~= names.union(def_names(dv.take(i + 1)))) by {
                    assert(dv.take(i + 1)[i as int] == d);
                    assert forall|n: Seq<char>| def_names(dv.take(i + 1)).contains(n) implies
                        names.union(def_names(dv.take(i as int))).insert(d.0).contains(n) by {
                        let w = choose|w: int| 0 <= w < dv.take(i + 1).len() && #[trigger] dv.take(i + 1)[w].0 == n;
                        if w < i {
                            assert(dv.take(i as int)[w].0 == n);
                        }
                    }
                    assert forall|n: Seq<char>| def_names(dv.take(i as int)).contains(n) implies
                        def_names(dv.take(i + 1)).contains(n) by {
                        let w = choose|w: int| 0 <= w < dv.take(i as int).len() && #[trigger] dv.take(i as int)[w].0 == n;
                        assert(dv.take(i + 1)[w].0 == n);
                    }
                    assert(def_names(dv.take(i + 1)).contains(d.0));
                }
                ids = ids.push(id);
            }
            i = i + 1;
        }
        proof {
            assert(dv.take(i as int) =~= dv);
        }
        Ghost(ids)
    }

    /// A camera entity: a new entity plus `width` (800.0), `height` (600.0),
    /// `zoom` (1.0), `rotation` (0.0) and `is_camera` (true).
    pub fn new_camera(id: u128, name: &str) -> (r: Result<Entity, String>)
        ensures
            r matches Ok(e) && exists|ids: Seq<u128>, more: Seq<u128>|
                ids.len() == 3 && more.len() == 5
                    && e@ == #[trigger] EntityView::created(id, name@, ids).build(more, camera_defs()),
            r matches Ok(e) && keys_unique(e@.attributes),
    {
        let mut entity = match Self::new(id, name) {
            Ok(e) => e,
            Err(e) => return Err(e),
        };
        let ghost ids = choose|ids: Seq<u128>| ids.len() == 3 && entity@ == #[trigger] EntityView::created(id, name@, ids);
        let defs = vec![
            ("width", AttributeType::Float, AttributeValue::Float(F32_800)),
            ("height", AttributeType::Float, AttributeValue::Float(F32_600)),
            ("zoom", AttributeType::Float, AttributeValue::Float(F32_ONE)),
            ("rotation", AttributeType::Float, AttributeValue::Float(F32_ZERO)),
            ("is_camera", AttributeType::Boolean, AttributeValue::Boolean(true)),
        ];
        proof {
            lemma_attribute_name_texts();
            lemma_build_names(Seq::empty(), ids, core_defs(), Set::empty());
            assert(defs_view(defs@) =~= camera_defs());
            lemma_core_names();
        }
        let Ghost(more) = entity.create_attributes(&defs, Ghost(Set::<Seq<char>>::empty().union(def_names(core_defs()))));
        Ok(entity)
    }

    /// A physical entity: a new entity placed at `position` (bit patterns of
    /// x, y, z) with the physics attributes of `physics`.
    pub fn new_physical(id: u128, name: &str, position: (u32, u32, u32), physics: PhysicsProperties) -> (r: Result<Entity, String>)
        ensures
            match r {
                Ok(e) => exists|ids: Seq<u128>, more: Seq<u128>|
                    ids.len() == 3 && more.len() == 8
                        && EntityView::created(id, name@, ids).position_outcome(position.0, position.1, position.2).1 is None
                        && e@ == #[trigger] EntityView::created(id, name@, ids).position_outcome(position.0, position.1, position.2).0.build(more, physics_defs(physics)),
                Err(m) => exists|ids: Seq<u128>|
                    ids.len() == 3 && #[trigger] EntityView::created(id, name@, ids).position_outcome(position.0, position.1, position.2).1 == Some(m@),
            },
    {
        let mut entity = match Self::new(id, name) {
            Ok(e) => e,
            Err(e) => return Err(e),
        };
        let ghost ids = choose|ids: Seq<u128>| ids.len() == 3 && entity@ == #[trigger] EntityView::created(id, name@, ids);
        let ghost placed = entity@;
        match entity.set_position(position.0, position.1, position.2) {
            Ok(()) => {},
            Err(e) => return Err(e),
        }
        let defs = vec![
            ("is_movable", AttributeType::Boolean, AttributeValue::Boolean(physics.is_movable)),
            ("has_gravity", AttributeType::Boolean, AttributeValue::Boolean(physics.affected_by_gravity)),
            ("creates_gravity", AttributeType::Boolean, AttributeValue::Boolean(physics.creates_gravity)),
            ("has_collision", AttributeType::Boolean, AttributeValue::Boolean(physics.has_collision)),
            ("friction", AttributeType::Float, AttributeValue::Float(physics.friction)),
            ("restitution", AttributeType::Float, AttributeValue::Float(physics.restitution)),
            ("density", AttributeType::Float, AttributeValue::Float(physics.density)),
            ("can_rotate", AttributeType::Boolean, AttributeValue::Boolean(physics.can_rotate)),
        ];
        proof {
            lemma_attribute_name_texts();
            lemma_build_names(Seq::empty(), ids, core_defs(), Set::empty());
            lemma_build_keys(Seq::empty(), ids, core_defs());
            let names = Set::<Seq<char>>::empty().union(def_names(core_defs()));
            let t = placed.attributes;
            let t1 = set_float_named(t, "x"@, position.0);
            let t2 = set_float_named(t1, "y"@, position.1);
            lemma_set_float_names(t, "x"@, position.0, names);
            lemma_set_float_names(t1, "y"@, position.1, names);
            lemma_set_float_names(t2, "z"@, position.2, names);
            assert(defs_view(defs@) =~= physics_defs(physics));
            lemma_core_names();
        }
        let Ghost(more) = entity.create_attributes(&defs, Ghost(Set::<Seq<char>>::empty().union(def_names(core_defs()))));
        Ok(entity)
    }

    // ------------------------------------------------------------ floats by name

    /// Sets the float value of the first attribute with this name.
    fn set_float_attribute(&mut self, name: &str, v: u32, missing: &str) -> (r: Result<(), String>)
        requires
            name@ != "is_camera"@,
        ensures
            match r {
                Ok(()) => has_named(old(self)@.attributes, name@)
                    && final(self)@ == old(self)@.with_attributes(set_float_named(old(self)@.attributes, name@, v)),
                Err(e) => !has_named(old(self)@.attributes, name@) && e@ == missing@ && final(self)@ == old(self)@,
            },
    {
        let attr_id = match self.find_named(name) {
            Some(i) => {
                proof {
                    lemma_first_named(self@.attributes, name@, i as int);
                }
                let (k, _) = attributes_entry(&self.attributes, i);
                proof {
                    lemma_key_at(self@.attributes, i as int);
                }
                k
            },
            None => return Err(owned(missing)),
        };
        let _ = self.modify_attribute(attr_id, None, None, Some(AttributeValue::Float(v)));
        Ok(())
    }

    /// The float bits of the first attribute with this name, or `default`.
    fn float_attribute_or(&self, name: &str, default: u32) -> (r: u32)
        ensures
            r == float_or(self@.attributes, name@, default),
    {
        match self.get_attribute_by_name(name) {
            Ok(attr) => match attr.value {
                AttributeValue::Float(b) => b,
                _ => default,
            },
            Err(_) => default,
        }
    }

    pub fn set_x(&mut self, x: u32) -> (r: Result<(), String>)
        ensures
            match r {
                Ok(()) => has_named(old(self)@.attributes, "x"@)
                    && final(self)@ == old(self)@.with_attributes(set_float_named(old(self)@.attributes, "x"@, x)),
                Err(e) => !has_named(old(self)@.attributes, "x"@) && e@ == "X attribute not found"@ && final(self)@ == old(self)@,
            },
    {
        proof { lemma_attribute_name_texts(); }
        self.set_float_attribute("x", x, "X attribute not found")
    }

    pub fn set_y(&mut self, y: u32) -> (r: Result<(), String>)
        ensures
            match r {
                Ok(()) => has_named(old(self)@.attributes, "y"@)
                    && final(self)@ == old(self)@.with_attributes(set_float_named(old(self)@.attributes, "y"@, y)),
                Err(e) => !has_named(old(self)@.attributes, "y"@) && e@ == "Y attribute not found"@ && final(self)@ == old(self)@,
            },
    {
        proof { lemma_attribute_name_texts(); }
        self.set_float_attribute("y", y, "Y attribute not found")
    }

    pub fn set_z(&mut self, z: u32) -> (r: Result<(), String>)
        ensures
            match r {
                Ok(()) => has_named(old(self)@.attributes, "z"@)
                    && final(self)@ == old(self)@.with_attributes(set_float_named(old(self)@.attributes, "z"@, z)),
                Err(e) => !has_named(old(self)@.attributes, "z"@) && e@ == "Z attribute not found"@ && final(self)@ == old(self)@,
            },
    {
        proof { lemma_attribute_name_texts(); }
        self.set_float_attribute("z", z, "Z attribute not found")
    }

    /// Sets `x`, `y` and `z` in turn, stopping at the first one missing.
    pub fn set_position(&mut self, x: u32, y: u32, z: u32) -> (r: Result<(), String>)
        ensures
            final(self)@ == old(self)@.position_outcome(x, y, z).0,
            match r {
                Ok(()) => old(self)@.position_outcome(x, y, z).1 is None,
                Err(e) => old(self)@.position_outcome(x, y, z).1 == Some(e@),
            },
    {
        self.set_x(x)?;
        self.set_y(y)?;
        self.set_z(z)?;
        Ok(())
    }

    pub fn get_x(&self) -> (r: u32)
        ensures
            r == float_or(self@.attributes, "x"@, F32_ZERO),
    {
        self.float_attribute_or("x", F32_ZERO)
    }

    pub fn get_y(&self) -> (r: u32)
        ensures
            r == float_or(self@.attributes, "y"@, F32_ZERO),
    {
        self.float_attribute_or("y", F32_ZERO)
    }

    pub fn get_z(&self) -> (r: u32)
        ensures
            r == float_or(self@.attributes, "z"@, F32_ZERO),
    {
        self.float_attribute_or("z", F32_ZERO)
    }

    pub fn get_position(&self) -> (r: Result<(u32, u32, u32), String>)
        ensures
            r == Ok::<(u32, u32, u32), String>((
                float_or(self@.attributes, "x"@, F32_ZERO),
                float_or(self@.attributes, "y"@, F32_ZERO),
                float_or(self@.attributes, "z"@, F32_ZERO),
            )),
    {
        Ok((self.get_x(), self.get_y(), self.get_z()))
    }

    pub fn get_camera_width(&self) -> (r: u32)
        ensures
            r == float_or(self@.attributes, "width"@, F32_800),
    {
        self.float_attribute_or("width", F32_800)
    }

    pub fn get_camera_height(&self) -> (r: u32)
        ensures
            r == float_or(self@.attributes, "height"@, F32_600),
    {
        self.float_attribute_or("height", F32_600)
    }

    pub fn get_camera_zoom(&self) -> (r: u32)
        ensures
            r == float_or(self@.attributes, "zoom"@, F32_ONE),
    {
        self.float_attribute_or("zoom", F32_ONE)
    }

    pub fn get_camera_rotation(&self) -> (r: u32)
        ensures
            r == float_or(self@.attributes, "rotation"@, F32_ZERO),
    {
        self.float_attribute_or("rotation", F32_ZERO)
    }

    pub fn set_camera_width(&mut self, width: u32) -> (r: Result<(), String>)
        ensures
            match r {
                Ok(()) => has_named(old(self)@.attributes, "width"@)
                    && final(self)@ == old(self)@.with_attributes(set_float_named(old(self)@.attributes, "width"@, width)),
                Err(e) => !has_named(old(self)@.attributes, "width"@) && e@ == "Width attribute not found"@ && final(self)@ == old(self)@,
            },
    {
        proof { lemma_attribute_name_texts(); }
        self.set_float_attribute("width", width, "Width attribute not found")
    }

    pub fn set_camera_height(&mut self, height: u32) -> (r: Result<(), String>)
        ensures
            match r {
                Ok(()) => has_named(old(self)@.attributes, "height"@)
                    && final(self)@ == old(self)@.with_attributes(set_float_named(old(self)@.attributes, "height"@, height)),
                Err(e) => !has_named(old(self)@.attributes, "height"@) && e@ == "Height attribute not found"@ && final(self)@ == old(self)@,
            },
    {
        proof { lemma_attribute_name_texts(); }
        self.set_float_attribute("height", height, "Height attribute not found")
    }

    pub fn set_camera_zoom(&mut self, zoom: u32) -> (r: Result<(), String>)
        ensures
            match r {
                Ok(()) => has_named(old(self)@.attributes, "zoom"@)
                    && final(self)@ == old(self)@.with_attributes(set_float_named(old(self)@.attributes, "zoom"@, zoom)),
                Err(e) => !has_named(old(self)@.attributes, "zoom"@) && e@ == "Zoom attribute not found"@ && final(self)@ == old(self)@,
            },
    {
        proof { lemma_attribute_name_texts(); }
        self.set_float_attribute("zoom", zoom, "Zoom attribute not found")
    }

    pub fn set_camera_rotation(&mut self, rotation: u32) -> (r: Result<(), String>)
        ensures
            match r {
                Ok(()) => has_named(old(self)@.attributes, "rotation"@)
                    && final(self)@ == old(self)@.with_attributes(set_float_named(old(self)@.attributes, "rotation"@, rotation)),
                Err(e) => !has_named(old(self)@.attributes, "rotation"@) && e@ == "Rotation attribute not found"@ && final(self)@ == old(self)@,
            },
    {
        proof { lemma_attribute_name_texts(); }
        self.set_float_attribute("rotation", rotation, "Rotation attribute not found")
    }

    /// Sets `width` then `height`, stopping at the first one missing.
    pub fn set_camera_size(&mut self, width: u32, height: u32) -> (r: Result<(), String>)
        ensures
            final(self)@ == old(self)@.camera_size_outcome(width, height).0,
            match r {
                Ok(()) => old(self)@.camera_size_outcome(width, height).1 is None,
                Err(e) => old(self)@.camera_size_outcome(width, height).1 == Some(e@),
            },
    {
        self.set_camera_width(width)?;
        self.set_camera_height(height)?;
        Ok(())
    }

    /// Whether the entity's `is_camera` attribute holds `true`.
    pub fn is_camera(&self) -> (r: bool)
        ensures
            r == (named(self@.attributes, "is_camera"@) matches Some(a) && a.value == AttributeValueView::Boolean(true)),
    {
        match self.get_attribute_by_name("is_camera") {
            Ok(attr) => match attr.value {
                AttributeValue::Boolean(b) => b,
                _ => false,
            },
            Err(_) => false,
        }
    }
}
} // verus!
