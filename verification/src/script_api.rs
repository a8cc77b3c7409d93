//! The engine functions that game scripts call. Scripts name scenes and
//! entities by the text of their ids; each function reads those ids, finds
//! what they name and acts on it, or says why it cannot. The scripting
//! runtime turns script values into these arguments and the results back.
use vstd::prelude::*;
use crate::ecs::{AttributeType, AttributeValue, Entity, SceneManager};
use crate::ecs::attribute::AttributeValueView;
use crate::ecs::attribute::{PhysicsProperties, F32_HALF, F32_ONE, F32_ZERO};
use crate::ecs::entity::{
    core_defs, def_names, def_names_distinct, defined, defs_view, float_or, has_named, lemma_attribute_name_texts,
    lemma_build_names, lemma_core_names, named, physics_defs, set_float_named, AttributeDef, EntityView,
};
use crate::ecs::scene::{entity_not_found, is_new_entity, value_update, SceneView};
use crate::ecs::scene_manager::SceneManagerView;
use crate::ids::{id_text, invalid_uuid_message, parse_uuid, uuid_parse, uuid_text};
use crate::paths::{has_path, join_path, join_paths};
use crate::project::ProjectManager;
use crate::table::{has_key, key_index, lookup, table_insert, table_remove};
use crate::text::{joined, joined3, owned};

verus! {

/// The message of a scene id that names no scene.
pub open spec fn scene_missing(id: u128) -> Seq<char> {
    "Scene '"@ + uuid_text(id) + "' not found"@
}

/// The message of an entity id that names no entity of the scene.
pub open spec fn entity_missing(id: u128) -> Seq<char> {
    "Entity '"@ + uuid_text(id) + "' not found: "@ + entity_not_found(id)
}

/// Reads a scene id and an entity id and looks them up, in that order; the
/// first step that fails gives the error.
pub open spec fn locate(m: SceneManagerView, scene_text: Seq<char>, entity_text: Seq<char>) -> Result<(u128, u128), Seq<char>> {
    match uuid_parse(scene_text) {
        None => Err(invalid_uuid_message(scene_text, "scene"@)),
        Some(sid) => match uuid_parse(entity_text) {
            None => Err(invalid_uuid_message(entity_text, "entity"@)),
            Some(eid) => match lookup(m.scenes, sid) {
                None => Err(scene_missing(sid)),
                Some(s) => if has_key(s.entities, eid) {
                    Ok((sid, eid))
                } else {
                    Err(entity_missing(eid))
                },
            },
        },
    }
}

/// The entity `eid` of scene `sid`.
pub open spec fn entity_at(m: SceneManagerView, sid: u128, eid: u128) -> EntityView {
    lookup(lookup(m.scenes, sid)->0.entities, eid)->0
}

/// The manager with entity `eid` of scene `sid` replaced by `e`.
pub open spec fn with_entity(m: SceneManagerView, sid: u128, eid: u128, e: EntityView) -> SceneManagerView {
    let s = lookup(m.scenes, sid)->0;
    m.with_scenes(m.scenes.update(
        key_index(m.scenes, sid),
        (sid, s.with_entities(s.entities.update(key_index(s.entities, eid), (eid, e)))),
    ))
}

/// Putting back the entity that is there changes nothing.
pub proof fn lemma_with_same_entity(m: SceneManagerView, sid: u128, eid: u128)
    requires
        locate_ok(m, sid, eid),
    ensures
        with_entity(m, sid, eid, entity_at(m, sid, eid)) == m,
{
    let s = lookup(m.scenes, sid)->0;
    let i = key_index(m.scenes, sid);
    let j = key_index(s.entities, eid);
    assert(s.entities.update(j, (eid, entity_at(m, sid, eid))) =~= s.entities);
    assert(s.with_entities(s.entities) == s);
    assert(m.scenes.update(i, (sid, s)) =~= m.scenes);
}

/// Scene `sid` exists and holds entity `eid`.
pub open spec fn locate_ok(m: SceneManagerView, sid: u128, eid: u128) -> bool {
    has_key(m.scenes, sid) && has_key(lookup(m.scenes, sid)->0.entities, eid)
}

fn scene_missing_text(id: u128) -> (r: String)
    ensures
        r@ == scene_missing(id),
{
    let t = id_text(id);
    joined3("Scene '", t.as_str(), "' not found")
}

fn entity_missing_text(id: u128, cause: &str) -> (r: String)
    ensures
        r@ == "Entity '"@ + uuid_text(id) + "' not found: "@ + cause@,
{
    let t = id_text(id);
    let mut m = joined3("Entity '", t.as_str(), "' not found: ");
    m.append(cause);
    m
}

/// An error as scripts get it: what failed, on what, and why.
pub open spec fn quoted(head: Seq<char>, name: Seq<char>, cause: Seq<char>) -> Seq<char> {
    head + "'"@ + name + "': "@ + cause
}

/// The text of `quoted`.
fn quoted_error(head: &str, name: &str, cause: &str) -> (r: String)
    ensures
        r@ == quoted(head@, name@, cause@),
{
    let mut m = joined3(head, "'", name);
    m.append("': ");
    m.append(cause);
    m
}

/// The ids of the entity that a script names by the texts of a scene id
/// and an entity id (see `locate`).
fn locate_ids(manager: &SceneManager, scene_id: &str, entity_id: &str) -> (r: Result<(u128, u128), String>)
    ensures
        match r {
            Ok(ids) => locate(manager@, scene_id@, entity_id@) == Ok::<(u128, u128), Seq<char>>(ids)
                && locate_ok(manager@, ids.0, ids.1),
            Err(x) => locate(manager@, scene_id@, entity_id@) == Err::<(u128, u128), Seq<char>>(x@),
        },
{
    let sid = match parse_uuid(scene_id, "scene") {
        Ok(v) => v,
        Err(e) => return Err(e),
    };
    let eid = match parse_uuid(entity_id, "entity") {
        Ok(v) => v,
        Err(e) => return Err(e),
    };
    let scene = match manager.get_scene(sid) {
        Some(s) => s,
        None => return Err(scene_missing_text(sid)),
    };
    match scene.get_entity(eid) {
        Ok(_) => Ok((sid, eid)),
        Err(m) => Err(entity_missing_text(eid, m.as_str())),
    }
}

/// A coordinate of an entity's position.
#[derive(Clone, Copy, Debug, PartialEq, Eq, Structural)]
pub enum Axis {
    X,
    Y,
    Z,
}

/// The attribute holding a coordinate.
pub open spec fn axis_attribute(a: Axis) -> Seq<char> {
    match a {
        Axis::X => "x"@,
        Axis::Y => "y"@,
        Axis::Z => "z"@,
    }
}

/// Why a coordinate could not be set.
pub open spec fn axis_failure(a: Axis) -> Seq<char> {
    match a {
        Axis::X => "Failed to set set_x: X attribute not found"@,
        Axis::Y => "Failed to set set_y: Y attribute not found"@,
        Axis::Z => "Failed to set set_z: Z attribute not found"@,
    }
}

/// Each script coordinate setter writes its own attribute: `set_x` the
/// `x` attribute, `set_y` the `y`, `set_z` the `z`; no two share one.
pub proof fn law_each_axis_its_own_attribute(a: Axis, b: Axis)
    ensures
        axis_attribute(Axis::X) == "x"@,
        axis_attribute(Axis::Y) == "y"@,
        axis_attribute(Axis::Z) == "z"@,
        a != b ==> axis_attribute(a) != axis_attribute(b),
{
    reveal_strlit("x");
    reveal_strlit("y");
    reveal_strlit("z");
    assert("x"@[0] == 'x' && "y"@[0] == 'y' && "z"@[0] == 'z');
}

/// `set_x`, `set_y`, `set_z` for scripts: sets one coordinate (an `f32`
/// bit pattern) of the entity.
pub fn set_coordinate(manager: &mut SceneManager, scene_id: &str, entity_id: &str, axis: Axis, value: u32) -> (r: Result<(), String>)
    ensures
        match locate(old(manager)@, scene_id@, entity_id@) {
            Err(msg) => r matches Err(x) && x@ == msg && final(manager)@ == old(manager)@,
            Ok((sid, eid)) => {
                let e = entity_at(old(manager)@, sid, eid);
                if has_named(e.attributes, axis_attribute(axis)) {
                    r is Ok && final(manager)@ == with_entity(old(manager)@, sid, eid,
                        e.with_attributes(set_float_named(e.attributes, axis_attribute(axis), value)))
                } else {
                    r matches Err(x) && x@ == axis_failure(axis) && final(manager)@ == old(manager)@
                }
            },
        },
{
    let ghost m0 = manager@;
    let (sid, eid) = match locate_ids(manager, scene_id, entity_id) {
        Ok(ids) => ids,
        Err(x) => return Err(x),
    };
    let scene = match manager.get_scene_mut(sid) {
        Some(s) => s,
        None => return vstd::pervasive::unreached(),
    };
    let entity = match scene.get_entity_mut(eid) {
        Ok(e) => e,
        Err(_) => return vstd::pervasive::unreached(),
    };
    let res = match axis {
        Axis::X => entity.set_x(value),
        Axis::Y => entity.set_y(value),
        Axis::Z => entity.set_z(value),
    };
    match res {
        Ok(()) => Ok(()),
        Err(_) => {
            proof {
                lemma_with_same_entity(m0, sid, eid);
            }
            match axis {
                Axis::X => Err(owned("Failed to set set_x: X attribute not found")),
                Axis::Y => Err(owned("Failed to set set_y: Y attribute not found")),
                Axis::Z => Err(owned("Failed to set set_z: Z attribute not found")),
            }
        },
    }
}

/// The manager with scene `sid` replaced by `s`.
pub open spec fn with_scene(m: SceneManagerView, sid: u128, s: SceneView) -> SceneManagerView {
    m.with_scenes(m.scenes.update(key_index(m.scenes, sid), (sid, s)))
}

/// `add_entity` for scripts: creates an entity named `entity_name` in the
/// scene and returns the text of its new id.
pub fn add_entity(manager: &mut SceneManager, scene_id: &str, entity_name: &str) -> (r: Result<String, String>)
    ensures
        match uuid_parse(scene_id@) {
            None => r matches Err(x) && x@ == invalid_uuid_message(scene_id@, "scene"@)
                && final(manager)@ == old(manager)@,
            Some(sid) => match lookup(old(manager)@.scenes, sid) {
                None => r matches Err(x) && x@ == scene_missing(sid) && final(manager)@ == old(manager)@,
                Some(s) => r matches Ok(t) && exists|id: u128, e: EntityView| {
                    &&& t@ == uuid_text(id)
                    &&& is_new_entity(e, id, entity_name@)
                    &&& final(manager)@ == with_scene(old(manager)@, sid, s.with_entities(table_insert(s.entities, id, e)))
                },
            },
        },
{
    let sid = match parse_uuid(scene_id, "scene") {
        Ok(v) => v,
        Err(e) => return Err(e),
    };
    let scene = match manager.get_scene_mut(sid) {
        Some(s) => s,
        None => return Err(scene_missing_text(sid)),
    };
    match scene.create_entity(entity_name) {
        Ok(id) => Ok(id_text(id)),
        Err(e) => Err(quoted_error("Failed to create entity ", entity_name, e.as_str())),
    }
}

/// `remove_entity` for scripts: deletes the entity from the scene; says
/// whether there was one. The scene's default camera cannot be deleted.
pub fn remove_entity(manager: &mut SceneManager, scene_id: &str, entity_id: &str) -> (r: Result<bool, String>)
    ensures
        match uuid_parse(scene_id@) {
            None => r matches Err(x) && x@ == invalid_uuid_message(scene_id@, "scene"@)
                && final(manager)@ == old(manager)@,
            Some(sid) => match uuid_parse(entity_id@) {
                None => r matches Err(x) && x@ == invalid_uuid_message(entity_id@, "entity"@)
                    && final(manager)@ == old(manager)@,
                Some(eid) => match lookup(old(manager)@.scenes, sid) {
                    None => r matches Err(x) && x@ == scene_missing(sid) && final(manager)@ == old(manager)@,
                    Some(s) => if s.default_camera == Some(eid) {
                        r matches Err(x) && x@ == quoted("Failed to delete entity "@, uuid_text(eid),
                            "Cannot delete default camera"@) && final(manager)@ == old(manager)@
                    } else {
                        r == Ok::<bool, String>(has_key(s.entities, eid))
                            && final(manager)@ == with_scene(old(manager)@, sid, s.with_entities(table_remove(s.entities, eid)))
                    },
                },
            },
        },
{
    let ghost m0 = manager@;
    let sid = match parse_uuid(scene_id, "scene") {
        Ok(v) => v,
        Err(e) => return Err(e),
    };
    let eid = match parse_uuid(entity_id, "entity") {
        Ok(v) => v,
        Err(e) => return Err(e),
    };
    let scene = match manager.get_scene_mut(sid) {
        Some(s) => s,
        None => return Err(scene_missing_text(sid)),
    };
    let ghost s0 = scene@;
    match scene.delete_entity(eid) {
        Ok(b) => Ok(b),
        Err(e) => {
            proof {
                assert(m0.scenes.update(key_index(m0.scenes, sid), (sid, s0)) =~= m0.scenes);
            }
            let t = id_text(eid);
            Err(quoted_error("Failed to delete entity ", t.as_str(), e.as_str()))
        },
    }
}

/// `set_position` for scripts: sets `x`, then `y` (`z` stays); when `y`
/// is missing, `x` stays set.
pub fn set_position(manager: &mut SceneManager, scene_id: &str, entity_id: &str, x: u32, y: u32) -> (r: Result<(), String>)
    ensures
        match locate(old(manager)@, scene_id@, entity_id@) {
            Err(msg) => r matches Err(m) && m@ == msg && final(manager)@ == old(manager)@,
            Ok((sid, eid)) => {
                let e = entity_at(old(manager)@, sid, eid);
                let e1 = e.with_attributes(set_float_named(e.attributes, "x"@, x));
                if !has_named(e.attributes, "x"@) {
                    r matches Err(m) && m@ == "Failed to set position: X attribute not found"@
                        && final(manager)@ == old(manager)@
                } else if !has_named(e1.attributes, "y"@) {
                    r matches Err(m) && m@ == "Failed to set position: Y attribute not found"@
                        && final(manager)@ == with_entity(old(manager)@, sid, eid, e1)
                } else {
                    r is Ok && final(manager)@ == with_entity(old(manager)@, sid, eid,
                        e1.with_attributes(set_float_named(e1.attributes, "y"@, y)))
                }
            },
        },
{
    let ghost m0 = manager@;
    let (sid, eid) = match locate_ids(manager, scene_id, entity_id) {
        Ok(ids) => ids,
        Err(x) => return Err(x),
    };
    let scene = match manager.get_scene_mut(sid) {
        Some(s) => s,
        None => return vstd::pervasive::unreached(),
    };
    let entity = match scene.get_entity_mut(eid) {
        Ok(e) => e,
        Err(_) => return vstd::pervasive::unreached(),
    };
    match entity.set_x(x) {
        Ok(()) => {},
        Err(_) => {
            proof {
                lemma_with_same_entity(m0, sid, eid);
            }
            return Err(owned("Failed to set position: X attribute not found"));
        },
    }
    match entity.set_y(y) {
        Ok(()) => Ok(()),
        Err(_) => Err(owned("Failed to set position: Y attribute not found")),
    }
}

/// The id of the active scene.
pub open spec fn active_id(m: SceneManagerView) -> u128 {
    m.active_scene->0
}

/// A path that a script gives, taken relative to the open project.
pub open spec fn project_relative(project: Seq<char>, path: Seq<char>) -> Seq<char> {
    join_path(project, path)
}

/// `add_image` for scripts: attaches an image, its path taken relative to
/// the open project, to an entity of the active scene.
pub fn add_image(manager: &mut SceneManager, project: &ProjectManager, entity_id: &str, image_path: &str) -> (r: Result<(), String>)
    ensures
        match uuid_parse(entity_id@) {
            None => r matches Err(x) && x@ == invalid_uuid_message(entity_id@, "entity"@)
                && final(manager)@ == old(manager)@,
            Some(eid) => match old(manager)@.active() {
                None => r matches Err(x) && x@ == "No active scene found"@ && final(manager)@ == old(manager)@,
                Some(s) => if !has_key(s.entities, eid) {
                    r matches Err(x) && x@ == entity_missing(eid) && final(manager)@ == old(manager)@
                } else {
                    match project.project_path() {
                        None => r matches Err(x) && x@ == "No project is currently open"@
                            && final(manager)@ == old(manager)@,
                        Some(p) => {
                            let full = project_relative(p, image_path@);
                            let e = lookup(s.entities, eid)->0;
                            if has_path(e.images, full) {
                                r matches Err(x) && x@ == quoted("Failed to add image to entity "@, uuid_text(eid),
                                    "Image already exists"@) && final(manager)@ == old(manager)@
                            } else {
                                r is Ok && final(manager)@ == with_entity(old(manager)@, active_id(old(manager)@), eid,
                                    e.with_images(e.images.push(full)))
                            }
                        },
                    }
                },
            },
        },
{
    let ghost m0 = manager@;
    let eid = match parse_uuid(entity_id, "entity") {
        Ok(v) => v,
        Err(e) => return Err(e),
    };
    let scene = match manager.get_active_scene_mut() {
        Some(s) => s,
        None => return Err(owned("No active scene found")),
    };
    let ghost s0 = scene@;
    let entity = match scene.get_entity_mut(eid) {
        Ok(e) => e,
        Err(m) => {
            proof {
                assert(m0.scenes.update(key_index(m0.scenes, active_id(m0)), (active_id(m0), s0)) =~= m0.scenes);
            }
            return Err(entity_missing_text(eid, m.as_str()));
        },
    };
    let p = match project.get_project_path() {
        Some(p) => p,
        None => {
            proof {
                lemma_with_same_entity(m0, active_id(m0), eid);
            }
            return Err(owned("No project is currently open"));
        },
    };
    let full = join_paths(p.as_str(), image_path);
    match entity.add_image(full) {
        Ok(()) => Ok(()),
        Err(e) => {
            proof {
                lemma_with_same_entity(m0, active_id(m0), eid);
            }
            let t = id_text(eid);
            Err(quoted_error("Failed to add image to entity ", t.as_str(), e.as_str()))
        },
    }
}

/// `set_script` for scripts: attaches a script, its path taken relative to
/// the open project, to an entity of the active scene that has none.
pub fn set_script(manager: &mut SceneManager, project: &ProjectManager, entity_id: &str, script_path: &str) -> (r: Result<(), String>)
    ensures
        match uuid_parse(entity_id@) {
            None => r matches Err(x) && x@ == invalid_uuid_message(entity_id@, "entity"@)
                && final(manager)@ == old(manager)@,
            Some(eid) => match old(manager)@.active() {
                None => r matches Err(x) && x@ == "No active scene found"@ && final(manager)@ == old(manager)@,
                Some(s) => if !has_key(s.entities, eid) {
                    r matches Err(x) && x@ == entity_missing(eid) && final(manager)@ == old(manager)@
                } else {
                    match project.project_path() {
                        None => r matches Err(x) && x@ == "No project is currently open"@
                            && final(manager)@ == old(manager)@,
                        Some(p) => {
                            let full = project_relative(p, script_path@);
                            let e = lookup(s.entities, eid)->0;
                            if e.script is Some {
                                r matches Err(x) && x@ == quoted("Failed to set script for entity "@, uuid_text(eid),
                                    "Script already exists"@) && final(manager)@ == old(manager)@
                            } else {
                                r is Ok && final(manager)@ == with_entity(old(manager)@, active_id(old(manager)@), eid,
                                    e.with_script(Some(full)))
                            }
                        },
                    }
                },
            },
        },
{
    let ghost m0 = manager@;
    let eid = match parse_uuid(entity_id, "entity") {
        Ok(v) => v,
        Err(e) => return Err(e),
    };
    let scene = match manager.get_active_scene_mut() {
        Some(s) => s,
        None => return Err(owned("No active scene found")),
    };
    let ghost s0 = scene@;
    let entity = match scene.get_entity_mut(eid) {
        Ok(e) => e,
        Err(m) => {
            proof {
                assert(m0.scenes.update(key_index(m0.scenes, active_id(m0)), (active_id(m0), s0)) =~= m0.scenes);
            }
            return Err(entity_missing_text(eid, m.as_str()));
        },
    };
    let p = match project.get_project_path() {
        Some(p) => p,
        None => {
            proof {
                lemma_with_same_entity(m0, active_id(m0), eid);
            }
            return Err(owned("No project is currently open"));
        },
    };
    let full = join_paths(p.as_str(), script_path);
    match entity.set_script(full) {
        Ok(()) => Ok(()),
        Err(e) => {
            proof {
                lemma_with_same_entity(m0, active_id(m0), eid);
            }
            let t = id_text(eid);
            Err(quoted_error("Failed to set script for entity ", t.as_str(), e.as_str()))
        },
    }
}

/// "Attribute 'name' not found: cause", as scripts get it.
pub open spec fn attribute_missing(name: Seq<char>) -> Seq<char> {
    "Attribute '"@ + name + "' not found: "@ + ("Attribute '"@ + name + "' not found"@)
}

fn attribute_missing_text(name: &str, cause: &str) -> (r: String)
    ensures
        r@ == "Attribute '"@ + name@ + "' not found: "@ + cause@,
{
    let mut m = joined3("Attribute '", name, "' not found: ");
    m.append(cause);
    m
}

/// `update_entity_attribute_bool` for scripts: sets the value of the
/// entity's attribute with this name to a boolean.
pub fn update_entity_attribute_bool(
    manager: &mut SceneManager,
    scene_id: &str,
    entity_id: &str,
    attr_name: &str,
    value: bool,
) -> (r: Result<(), String>)
    ensures
        match locate(old(manager)@, scene_id@, entity_id@) {
            Err(msg) => r matches Err(m) && m@ == msg && final(manager)@ == old(manager)@,
            Ok((sid, eid)) => match named(entity_at(old(manager)@, sid, eid).attributes, attr_name@) {
                None => r matches Err(m) && m@ == attribute_missing(attr_name@) && final(manager)@ == old(manager)@,
                Some(a) => {
                    let s = lookup(old(manager)@.scenes, sid)->0;
                    let (s2, err) = s.apply_update((eid, a.id, AttributeValueView::Boolean(value)));
                    &&& final(manager)@ == with_scene(old(manager)@, sid, s2)
                    &&& match err {
                        None => r is Ok,
                        Some(c) => r matches Err(m) && m@ == quoted("Failed to update attribute "@, attr_name@, c),
                    }
                },
            },
        },
{
    let ghost m0 = manager@;
    let (sid, eid) = match locate_ids(manager, scene_id, entity_id) {
        Ok(ids) => ids,
        Err(x) => return Err(x),
    };
    let scene = match manager.get_scene_mut(sid) {
        Some(s) => s,
        None => return vstd::pervasive::unreached(),
    };
    let ghost s0 = scene@;
    let attr_id = match scene.get_entity(eid) {
        Ok(entity) => match entity.get_attribute_by_name(attr_name) {
            Ok(a) => a.id,
            Err(m) => {
                proof {
                    assert(m0.scenes.update(key_index(m0.scenes, sid), (sid, s0)) =~= m0.scenes);
                }
                return Err(attribute_missing_text(attr_name, m.as_str()));
            },
        },
        Err(_) => return vstd::pervasive::unreached(),
    };
    match scene.update_entity_attribute(eid, attr_id, AttributeValue::Boolean(value)) {
        Ok(()) => Ok(()),
        Err(e) => Err(quoted_error("Failed to update attribute ", attr_name, e.as_str())),
    }
}

/// A value a script passes to `set_attribute`, as the scripting runtime
/// reads it (it does the floating-point conversions).
pub enum ScriptValue {
    /// A script integer: the `i32` it wraps to, and the nearest `f32` (bits).
    Integer(i32, u32),
    /// A script float: the nearest `f32` (bits), and the `i32` it converts
    /// to when it has no fractional part.
    Number(u32, Option<i32>),
    Boolean(bool),
    String(String),
    /// A table, with its `x` and `y` (or first and second) entries read as
    /// `f32`s (bits), or the error reading them gave.
    Table(Result<(u32, u32), String>),
    /// Any other kind of value, by its type name.
    Other(String),
}

/// The name of a script value's type (as Lua names it).
pub open spec fn script_type_name(v: ScriptValue) -> Seq<char> {
    match v {
        ScriptValue::Integer(_, _) => "integer"@,
        ScriptValue::Number(_, _) => "number"@,
        ScriptValue::Boolean(_) => "boolean"@,
        ScriptValue::String(_) => "string"@,
        ScriptValue::Table(_) => "table"@,
        ScriptValue::Other(n) => n@,
    }
}

/// What a script value gives an attribute of a type.
pub enum Coercion {
    /// The new value.
    Value(AttributeValueView),
    /// The value has the wrong type; what the attribute is.
    WrongType(Seq<char>),
    /// A table whose coordinates could not be read, and why.
    Unreadable(Seq<char>),
}

/// A script value as a value of type `t`: floats from numbers and integers;
/// integers from integers and whole numbers; booleans, texts and vectors
/// (tables) from their own kind.
pub open spec fn coerced(t: AttributeType, v: ScriptValue) -> Coercion {
    match t {
        AttributeType::Float => match v {
            ScriptValue::Number(b, _) => Coercion::Value(AttributeValueView::Float(b)),
            ScriptValue::Integer(_, b) => Coercion::Value(AttributeValueView::Float(b)),
            _ => Coercion::WrongType("a Float"@),
        },
        AttributeType::Integer => match v {
            ScriptValue::Integer(i, _) => Coercion::Value(AttributeValueView::Integer(i)),
            ScriptValue::Number(_, Some(i)) => Coercion::Value(AttributeValueView::Integer(i)),
            _ => Coercion::WrongType("an Integer"@),
        },
        AttributeType::Boolean => match v {
            ScriptValue::Boolean(b) => Coercion::Value(AttributeValueView::Boolean(b)),
            _ => Coercion::WrongType("a Boolean"@),
        },
        AttributeType::String => match v {
            ScriptValue::String(s) => Coercion::Value(AttributeValueView::String(s@)),
            _ => Coercion::WrongType("a String"@),
        },
        AttributeType::Vector2 => match v {
            ScriptValue::Table(Ok((x, y))) => Coercion::Value(AttributeValueView::Vector2(x, y)),
            ScriptValue::Table(Err(m)) => Coercion::Unreadable(m@),
            _ => Coercion::WrongType("a Vector2 ({x, y} table)"@),
        },
    }
}

/// Every attribute type accepts a script value of its own kind: a Float a
/// script number or integer (as the nearest `f32`), an Integer a script
/// integer or a whole number, a Boolean a boolean, a String a string, a
/// Vector2 a table with readable coordinates. The value stored always has
/// the attribute's type, and a value of another kind is refused as the wrong
/// type, naming what the attribute is.
pub proof fn law_each_type_takes_its_own_kind(
    b: u32,
    n: Option<i32>,
    i: i32,
    flag: bool,
    text: String,
    x: u32,
    y: u32,
    v: ScriptValue,
)
    ensures
        coerced(AttributeType::Float, ScriptValue::Number(b, n)) == Coercion::Value(AttributeValueView::Float(b)),
        coerced(AttributeType::Float, ScriptValue::Integer(i, b)) == Coercion::Value(AttributeValueView::Float(b)),
        coerced(AttributeType::Integer, ScriptValue::Integer(i, b)) == Coercion::Value(AttributeValueView::Integer(i)),
        coerced(AttributeType::Integer, ScriptValue::Number(b, Some(i))) == Coercion::Value(AttributeValueView::Integer(i)),
        coerced(AttributeType::Integer, ScriptValue::Number(b, None)) == Coercion::WrongType("an Integer"@),
        coerced(AttributeType::Boolean, ScriptValue::Boolean(flag)) == Coercion::Value(AttributeValueView::Boolean(flag)),
        coerced(AttributeType::String, ScriptValue::String(text)) == Coercion::Value(AttributeValueView::String(text@)),
        coerced(AttributeType::Vector2, ScriptValue::Table(Ok((x, y)))) == Coercion::Value(AttributeValueView::Vector2(x, y)),
        !(v is Number) && !(v is Integer) ==> coerced(AttributeType::Float, v) == Coercion::WrongType("a Float"@),
        !(v is Number) && !(v is Integer) ==> coerced(AttributeType::Integer, v) == Coercion::WrongType("an Integer"@),
        !(v is Boolean) ==> coerced(AttributeType::Boolean, v) == Coercion::WrongType("a Boolean"@),
        !(v is String) ==> coerced(AttributeType::String, v) == Coercion::WrongType("a String"@),
        !(v is Table) ==> coerced(AttributeType::Vector2, v) == Coercion::WrongType("a Vector2 ({x, y} table)"@),
        coerced(AttributeType::Float, v) matches Coercion::Value(w) ==> w is Float,
        coerced(AttributeType::Integer, v) matches Coercion::Value(w) ==> w is Integer,
        coerced(AttributeType::Boolean, v) matches Coercion::Value(w) ==> w is Boolean,
        coerced(AttributeType::String, v) matches Coercion::Value(w) ==> w is String,
        coerced(AttributeType::Vector2, v) matches Coercion::Value(w) ==> w is Vector2,
{
}

/// The message of a script value of the wrong type.
pub open spec fn type_mismatch(name: Seq<char>, expected: Seq<char>, got: Seq<char>) -> Seq<char> {
    "Attribute '"@ + name + "' is "@ + expected + ", got Lua "@ + got
}

fn type_name_text(v: &ScriptValue) -> (r: String)
    ensures
        r@ == script_type_name(*v),
{
    match v {
        ScriptValue::Integer(_, _) => owned("integer"),
        ScriptValue::Number(_, _) => owned("number"),
        ScriptValue::Boolean(_) => owned("boolean"),
        ScriptValue::String(_) => owned("string"),
        ScriptValue::Table(_) => owned("table"),
        ScriptValue::Other(n) => n.clone(),
    }
}

fn coerce_value(name: &str, t: AttributeType, v: ScriptValue) -> (r: Result<AttributeValue, String>)
    ensures
        match coerced(t, v) {
            Coercion::Value(x) => r matches Ok(y) && y@ == x,
            Coercion::WrongType(e) => r matches Err(m) && m@ == type_mismatch(name@, e, script_type_name(v)),
            Coercion::Unreadable(e) => r matches Err(m) && m@ == e,
        },
{
    let got = type_name_text(&v);
    let expected = match t {
        AttributeType::Float => match v {
            ScriptValue::Number(b, _) => return Ok(AttributeValue::Float(b)),
            ScriptValue::Integer(_, b) => return Ok(AttributeValue::Float(b)),
            _ => "a Float",
        },
        AttributeType::Integer => match v {
            ScriptValue::Integer(i, _) => return Ok(AttributeValue::Integer(i)),
            ScriptValue::Number(_, Some(i)) => return Ok(AttributeValue::Integer(i)),
            _ => "an Integer",
        },
        AttributeType::Boolean => match v {
            ScriptValue::Boolean(b) => return Ok(AttributeValue::Boolean(b)),
            _ => "a Boolean",
        },
        AttributeType::String => match v {
            ScriptValue::String(s) => return Ok(AttributeValue::String(s)),
            _ => "a String",
        },
        AttributeType::Vector2 => match v {
            ScriptValue::Table(Ok((x, y))) => return Ok(AttributeValue::Vector2(x, y)),
            ScriptValue::Table(Err(m)) => return Err(m),
            _ => "a Vector2 ({x, y} table)",
        },
    };
    let mut m = joined3("Attribute '", name, "' is ");
    m.append(expected);
    m.append(", got Lua ");
    m.append(got.as_str());
    Err(m)
}

/// `set_attribute` for scripts: sets the value of the entity's attribute
/// with this name to the script's value, converted to the attribute's type
/// (see `coerced`). The scene and entity are found as `locate` says, then
/// the attribute by name; the first step that fails gives the error.
pub fn set_attribute(
    manager: &mut SceneManager,
    scene_id: &str,
    entity_id: &str,
    name: &str,
    value: ScriptValue,
) -> (r: Result<(), String>)
    ensures
        match locate(old(manager)@, scene_id@, entity_id@) {
            Err(msg) => r matches Err(m) && m@ == msg && final(manager)@ == old(manager)@,
            Ok((sid, eid)) => match named(entity_at(old(manager)@, sid, eid).attributes, name@) {
                None => r matches Err(m) && m@ == attribute_missing(name@) && final(manager)@ == old(manager)@,
                Some(a) => match coerced(a.data_type, value) {
                    Coercion::WrongType(e) => r matches Err(m)
                        && m@ == type_mismatch(name@, e, script_type_name(value)) && final(manager)@ == old(manager)@,
                    Coercion::Unreadable(e) => r matches Err(m) && m@ == e && final(manager)@ == old(manager)@,
                    Coercion::Value(v) => {
                        let s = lookup(old(manager)@.scenes, sid)->0;
                        let (s2, err) = s.apply_update((eid, a.id, v));
                        &&& final(manager)@ == with_scene(old(manager)@, sid, s2)
                        &&& match err {
                            None => r is Ok,
                            Some(c) => r matches Err(m) && m@ == c,
                        }
                    },
                },
            },
        },
{
    let ghost m0 = manager@;
    let (sid, eid) = match locate_ids(manager, scene_id, entity_id) {
        Ok(ids) => ids,
        Err(x) => return Err(x),
    };
    let scene = match manager.get_scene_mut(sid) {
        Some(s) => s,
        None => return vstd::pervasive::unreached(),
    };
    let ghost s0 = scene@;
    proof {
        assert(m0.scenes.update(key_index(m0.scenes, sid), (sid, s0)) =~= m0.scenes);
    }
    let (attr_id, attr_type) = match scene.get_entity(eid) {
        Ok(entity) => match entity.get_attribute_by_name(name) {
            Ok(a) => (a.id, a.data_type),
            Err(m) => return Err(attribute_missing_text(name, m.as_str())),
        },
        Err(_) => return vstd::pervasive::unreached(),
    };
    let new_value = match coerce_value(name, attr_type, value) {
        Ok(v) => v,
        Err(m) => return Err(m),
    };
    scene.update_entity_attribute(eid, attr_id, new_value)
}

/// What a failed attribute creation says it was creating.
pub open spec fn creation_label(t: AttributeType) -> Seq<char> {
    match t {
        AttributeType::Vector2 => "Failed to create vector2 attribute "@,
        _ => "Failed to create attribute "@,
    }
}

/// `create_attribute_float`, `create_attribute_bool` and
/// `create_attribute_vector2` for scripts: adds an attribute to the entity;
/// a name already in use is refused.
pub fn create_attribute(
    manager: &mut SceneManager,
    scene_id: &str,
    entity_id: &str,
    attr_name: &str,
    data_type: AttributeType,
    value: AttributeValue,
) -> (r: Result<(), String>)
    ensures
        match locate(old(manager)@, scene_id@, entity_id@) {
            Err(msg) => r matches Err(m) && m@ == msg && final(manager)@ == old(manager)@,
            Ok((sid, eid)) => {
                let e = entity_at(old(manager)@, sid, eid);
                if has_named(e.attributes, attr_name@) {
                    r matches Err(m) && m@ == quoted(creation_label(data_type), attr_name@,
                        "Attribute '"@ + attr_name@ + "' already exists"@) && final(manager)@ == old(manager)@
                } else {
                    r is Ok && exists|id: u128| final(manager)@ == with_entity(old(manager)@, sid, eid,
                        e.with_attributes(table_insert(e.attributes, id, defined(id, (attr_name@, data_type, value@)))))
                }
            },
        },
{
    let ghost m0 = manager@;
    let (sid, eid) = match locate_ids(manager, scene_id, entity_id) {
        Ok(ids) => ids,
        Err(x) => return Err(x),
    };
    let scene = match manager.get_scene_mut(sid) {
        Some(s) => s,
        None => return vstd::pervasive::unreached(),
    };
    let entity = match scene.get_entity_mut(eid) {
        Ok(e) => e,
        Err(_) => return vstd::pervasive::unreached(),
    };
    let label = match data_type {
        AttributeType::Vector2 => "Failed to create vector2 attribute ",
        _ => "Failed to create attribute ",
    };
    match entity.create_attribute(attr_name, data_type, value) {
        Ok(_) => Ok(()),
        Err(e) => {
            proof {
                lemma_with_same_entity(m0, sid, eid);
            }
            Err(quoted_error(label, attr_name, e.as_str()))
        },
    }
}

/// Reads the scene id, then the entity id.
pub open spec fn parse_ids(scene_text: Seq<char>, entity_text: Seq<char>) -> Result<(u128, u128), Seq<char>> {
    match uuid_parse(scene_text) {
        None => Err(invalid_uuid_message(scene_text, "scene"@)),
        Some(sid) => match uuid_parse(entity_text) {
            None => Err(invalid_uuid_message(entity_text, "entity"@)),
            Some(eid) => Ok((sid, eid)),
        },
    }
}

fn parse_ids_exec(scene_id: &str, entity_id: &str) -> (r: Result<(u128, u128), String>)
    ensures
        match r {
            Ok(ids) => parse_ids(scene_id@, entity_id@) == Ok::<(u128, u128), Seq<char>>(ids),
            Err(x) => parse_ids(scene_id@, entity_id@) == Err::<(u128, u128), Seq<char>>(x@),
        },
{
    let sid = match parse_uuid(scene_id, "scene") {
        Ok(v) => v,
        Err(e) => return Err(e),
    };
    match parse_uuid(entity_id, "entity") {
        Ok(eid) => Ok((sid, eid)),
        Err(e) => Err(e),
    }
}

/// The entity a pair of ids names, if the scene and the entity exist.
pub open spec fn find_entity(m: SceneManagerView, sid: u128, eid: u128) -> Option<EntityView> {
    match lookup(m.scenes, sid) {
        Some(s) => lookup(s.entities, eid),
        None => None,
    }
}

fn find_entity_exec(manager: &SceneManager, sid: u128, eid: u128) -> (r: Option<&Entity>)
    ensures
        match r {
            Some(e) => find_entity(manager@, sid, eid) == Some(e@),
            None => find_entity(manager@, sid, eid) is None,
        },
{
    match manager.get_scene(sid) {
        Some(scene) => match scene.get_entity(eid) {
            Ok(e) => Some(e),
            Err(_) => None,
        },
        None => None,
    }
}

/// `get_attribute` for scripts: the value of the entity's attribute with
/// this name; nothing when the scene, the entity or the attribute is missing.
pub fn get_attribute(manager: &SceneManager, scene_id: &str, entity_id: &str, name: &str) -> (r: Result<Option<AttributeValue>, String>)
    ensures
        match parse_ids(scene_id@, entity_id@) {
            Err(msg) => r matches Err(m) && m@ == msg,
            Ok((sid, eid)) => r matches Ok(v) && match find_entity(manager@, sid, eid) {
                Some(e) => match named(e.attributes, name@) {
                    Some(a) => v matches Some(x) && x@ == a.value,
                    None => v is None,
                },
                None => v is None,
            },
        },
{
    let (sid, eid) = match parse_ids_exec(scene_id, entity_id) {
        Ok(ids) => ids,
        Err(x) => return Err(x),
    };
    match find_entity_exec(manager, sid, eid) {
        Some(entity) => match entity.get_attribute_by_name(name) {
            Ok(a) => Ok(Some(a.value.clone())),
            Err(_) => Ok(None),
        },
        None => Ok(None),
    }
}

/// `has_attribute` for scripts: the entity exists and has an attribute
/// with this name.
pub fn has_attribute(manager: &SceneManager, scene_id: &str, entity_id: &str, name: &str) -> (r: Result<bool, String>)
    ensures
        match parse_ids(scene_id@, entity_id@) {
            Err(msg) => r matches Err(m) && m@ == msg,
            Ok((sid, eid)) => r == Ok::<bool, String>(match find_entity(manager@, sid, eid) {
                Some(e) => named(e.attributes, name@) is Some,
                None => false,
            }),
        },
{
    let (sid, eid) = match parse_ids_exec(scene_id, entity_id) {
        Ok(ids) => ids,
        Err(x) => return Err(x),
    };
    match find_entity_exec(manager, sid, eid) {
        Some(entity) => Ok(entity.get_attribute_by_name(name).is_ok()),
        None => Ok(false),
    }
}

/// `get_entity_name` for scripts: the entity's name, or nothing when it no
/// longer exists.
pub fn get_entity_name(manager: &SceneManager, scene_id: &str, entity_id: &str) -> (r: Result<Option<String>, String>)
    ensures
        match parse_ids(scene_id@, entity_id@) {
            Err(msg) => r matches Err(m) && m@ == msg,
            Ok((sid, eid)) => r matches Ok(v) && match find_entity(manager@, sid, eid) {
                Some(e) => v matches Some(n) && n@ == e.name,
                None => v is None,
            },
        },
{
    let (sid, eid) = match parse_ids_exec(scene_id, entity_id) {
        Ok(ids) => ids,
        Err(x) => return Err(x),
    };
    match find_entity_exec(manager, sid, eid) {
        Some(entity) => Ok(Some(entity.name.clone())),
        None => Ok(None),
    }
}

/// A row of `list_entities_name_x_y`: the entity's id text, name, and `x`
/// and `y` (`f32` bit patterns; 0.0 when missing).
#[derive(Debug)]
pub struct EntityRow {
    pub id: String,
    pub name: String,
    pub x: u32,
    pub y: u32,
}

/// The row of an entity listed under id `id`.
pub open spec fn row_of(r: EntityRow, id: u128, e: EntityView) -> bool {
    &&& r.id@ == uuid_text(id)
    &&& r.name@ == e.name
    &&& r.x == float_or(e.attributes, "x"@, crate::ecs::attribute::F32_ZERO)
    &&& r.y == float_or(e.attributes, "y"@, crate::ecs::attribute::F32_ZERO)
}

/// `list_entities_name_x_y` for scripts: a row per entity of the scene, in
/// the scene's order.
pub fn list_entities(manager: &SceneManager, scene_id: &str) -> (r: Result<Vec<EntityRow>, String>)
    ensures
        match uuid_parse(scene_id@) {
            None => r matches Err(m) && m@ == invalid_uuid_message(scene_id@, "scene"@),
            Some(sid) => match lookup(manager@.scenes, sid) {
                None => r matches Err(m) && m@ == scene_missing(sid),
                Some(s) => r matches Ok(rows) && rows@.len() == s.entities.len() && forall|i: int|
                    0 <= i < rows@.len() ==> row_of(#[trigger] rows@[i], s.entities[i].0, s.entities[i].1),
            },
        },
{
    let sid = match parse_uuid(scene_id, "scene") {
        Ok(v) => v,
        Err(e) => return Err(e),
    };
    let scene = match manager.get_scene(sid) {
        Some(s) => s,
        None => return Err(scene_missing_text(sid)),
    };
    let n = crate::ecs::tables::entities_len(&scene.entities);
    let mut rows: Vec<EntityRow> = Vec::new();
    let mut i: usize = 0;
    while i < n
        invariant
            n == scene@.entities.len(),
            i <= n,
            rows@.len() == i,
            forall|j: int| 0 <= j < i ==> row_of(#[trigger] rows@[j], scene@.entities[j].0, scene@.entities[j].1),
        decreases n - i,
    {
        let (id, entity) = crate::ecs::tables::entities_entry(&scene.entities, i);
        rows.push(EntityRow { id: id_text(id), name: entity.name.clone(), x: entity.get_x(), y: entity.get_y() });
        i = i + 1;
    }
    Ok(rows)
}

/// The physics of the "Physics" entity preset: a movable body that falls,
/// collides and may rotate, with friction 0.5, no restitution, density 1.
pub open spec fn preset_physics() -> PhysicsProperties {
    PhysicsProperties {
        is_movable: true,
        affected_by_gravity: true,
        creates_gravity: false,
        has_collision: true,
        friction: F32_HALF,
        restitution: F32_ZERO,
        density: F32_ONE,
        can_rotate: true,
    }
}

/// The attributes of the "Physics" entity preset: `position` at (0, 0),
/// then the physics attributes of `preset_physics`.
pub open spec fn physics_preset_defs() -> Seq<AttributeDef> {
    seq![("position"@, AttributeType::Vector2, AttributeValueView::Vector2(F32_ZERO, F32_ZERO))]
        + physics_defs(preset_physics())
}

/// A physical entity as a script creates it: a new entity given the preset's
/// attributes, placed at (x, y, z), its `position` then set to (x, y); or,
/// when placing fails, the entity as far as it got and why.
pub open spec fn spawned(id: u128, name: Seq<char>, ids: Seq<u128>, more: Seq<u128>, x: u32, y: u32, z: u32) -> (EntityView, Option<Seq<char>>) {
    let e1 = EntityView::created(id, name, ids).build(more, physics_preset_defs());
    let (e2, err) = e1.position_outcome(x, y, z);
    match err {
        Some(c) => (e2, Some(c)),
        None => match named(e2.attributes, "position"@) {
            Some(a) => (value_update(e2, a.id, AttributeValueView::Vector2(x, y)).0, None),
            None => (e2, None),
        },
    }
}

/// `create_physical_entity` for scripts: a new entity in the scene with
/// the "Physics" preset, placed at (x, y, z) (`f32` bit patterns); returns
/// the text of its id.
pub fn create_physical_entity(
    manager: &mut SceneManager,
    scene_id: &str,
    name: &str,
    x: u32,
    y: u32,
    z: u32,
) -> (r: Result<String, String>)
    ensures
        match uuid_parse(scene_id@) {
            None => r matches Err(m) && m@ == invalid_uuid_message(scene_id@, "scene"@)
                && final(manager)@ == old(manager)@,
            Some(sid) => match lookup(old(manager)@.scenes, sid) {
                None => r matches Err(m) && m@ == scene_missing(sid) && final(manager)@ == old(manager)@,
                Some(s) => exists|id: u128, ids: Seq<u128>, more: Seq<u128>| {
                    &&& ids.len() == 3
                    &&& more.len() == 9
                    &&& final(manager)@ == with_scene(old(manager)@, sid,
                        s.with_entities(table_insert(s.entities, id, #[trigger] spawned(id, name@, ids, more, x, y, z).0)))
                    &&& match spawned(id, name@, ids, more, x, y, z).1 {
                        None => r matches Ok(t) && t@ == uuid_text(id),
                        Some(c) => r matches Err(m) && m@ == "Failed to set spawn position: "@ + c,
                    }
                },
            },
        },
{
    let sid = match parse_uuid(scene_id, "scene") {
        Ok(v) => v,
        Err(e) => return Err(e),
    };
    let scene = match manager.get_scene_mut(sid) {
        Some(s) => s,
        None => return Err(scene_missing_text(sid)),
    };
    let id = crate::ids::fresh_id();
    let mut entity = match Entity::new(id, name) {
        Ok(e) => e,
        Err(_) => return vstd::pervasive::unreached(),
    };
    let ghost ids = choose|ids: Seq<u128>| ids.len() == 3 && entity@ == #[trigger] EntityView::created(id, name@, ids);
    let defs = vec![
        ("position", AttributeType::Vector2, AttributeValue::Vector2(F32_ZERO, F32_ZERO)),
        ("is_movable", AttributeType::Boolean, AttributeValue::Boolean(true)),
        ("has_gravity", AttributeType::Boolean, AttributeValue::Boolean(true)),
        ("creates_gravity", AttributeType::Boolean, AttributeValue::Boolean(false)),
        ("has_collision", AttributeType::Boolean, AttributeValue::Boolean(true)),
        ("friction", AttributeType::Float, AttributeValue::Float(F32_HALF)),
        ("restitution", AttributeType::Float, AttributeValue::Float(F32_ZERO)),
        ("density", AttributeType::Float, AttributeValue::Float(F32_ONE)),
        ("can_rotate", AttributeType::Boolean, AttributeValue::Boolean(true)),
    ];
    proof {
        lemma_attribute_name_texts();
        reveal_strlit("position");
        assert("position"@ =~= seq!['p', 'o', 's', 'i', 't', 'i', 'o', 'n']);
        lemma_build_names(Seq::empty(), ids, core_defs(), Set::empty());
        lemma_core_names();
        let dv = defs_view(defs@);
        assert(dv =~= physics_preset_defs());
        let pd = physics_defs(preset_physics());
        assert(forall|i: int| 0 <= i < pd.len() ==> #[trigger] dv[i + 1] == pd[i]);
        assert forall|i: int, j: int| 0 <= i < dv.len() && 0 <= j < dv.len() && i != j implies
            #[trigger] dv[i].0 != #[trigger] dv[j].0 by {
            if i == 0 || j == 0 {
                let a = dv[i].0;
                let b = dv[j].0;
                assert(a.len() != b.len() || a[0] != b[0]);
            } else {
                assert(dv[i] == pd[i - 1]);
                assert(dv[j] == pd[j - 1]);
            }
        }
        assert forall|i: int| 0 <= i < dv.len() implies !Set::<Seq<char>>::empty().union(def_names(core_defs())).contains(#[trigger] dv[i].0) by {
            if i == 0 {
                assert(dv[0].0.len() == 8);
            } else {
                assert(dv[i] == pd[i - 1]);
            }
        }
    }
    let Ghost(more) = entity.create_attributes(&defs, Ghost(Set::<Seq<char>>::empty().union(def_names(core_defs()))));
    let ghost e1 = entity@;
    let outcome = match entity.set_position(x, y, z) {
        Ok(()) => {
            match entity.get_attribute_by_name("position") {
                Ok(pos) => {
                    let pid = pos.id;
                    let _ = entity.modify_attribute(pid, None, None, Some(AttributeValue::Vector2(x, y)));
                },
                Err(_) => {},
            }
            Ok(id_text(id))
        },
        Err(e) => Err(joined("Failed to set spawn position: ", e.as_str())),
    };
    proof {
        assert(entity@ == spawned(id, name@, ids, more, x, y, z).0);
    }
    crate::ecs::tables::entities_insert(&mut scene.entities, id, entity);
    outcome
}

} // verus!
