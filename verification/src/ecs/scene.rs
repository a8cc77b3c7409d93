//! Scenes: the entities of one level, plus references to shared entities.
use indexmap::IndexMap;
use vstd::prelude::*;
use crate::ids::{fresh_id, id_text, uuid_text};
use crate::table::{has_key, key_index, keys_unique, lemma_key_at, lookup, table_insert, table_remove, table_values};
use crate::text::{joined3, owned};
use super::attribute::{AttributeValue, AttributeValueView, PhysicsProperties};
use super::entity::{Entity, EntityView, camera_defs, is_first_named, opt_value, modified, physics_defs};
use super::scene_manager::SceneManager;
use super::tables::{
    entities_clone, entities_entry, entities_index_of, entities_insert, entities_len, entities_new,
    entities_shift_remove, entities_value_mut, entity_entries,
};

verus! {

/// A scene. `default_camera` is the id of the camera entity it was created
/// with, which cannot be deleted.
#[derive(Debug)]
pub struct Scene {
    pub id: u128,
    pub name: String,
    pub entities: IndexMap<u128, Entity>,
    pub shared_entity_refs: Vec<u128>,
    pub default_camera: Option<u128>,
}

pub struct SceneView {
    pub id: u128,
    pub name: Seq<char>,
    pub entities: Seq<(u128, EntityView)>,
    pub shared_entity_refs: Seq<u128>,
    pub default_camera: Option<u128>,
}

impl View for Scene {
    type V = SceneView;

    open spec fn view(&self) -> SceneView {
        SceneView {
            id: self.id,
            name: self.name@,
            entities: entity_entries(self.entities),
            shared_entity_refs: self.shared_entity_refs@,
            default_camera: self.default_camera,
        }
    }
}

impl Clone for Scene {
    fn clone(&self) -> (r: Self)
        ensures
            r@ == self@,
    {
        Scene {
            id: self.id,
            name: self.name.clone(),
            entities: entities_clone(&self.entities),
            shared_entity_refs: self.shared_entity_refs.clone(),
            default_camera: self.default_camera,
        }
    }
}

/// `e` is a new entity with this id and name.
pub open spec fn is_new_entity(e: EntityView, id: u128, name: Seq<char>) -> bool {
    exists|ids: Seq<u128>| ids.len() == 3 && e == #[trigger] EntityView::created(id, name, ids)
}

/// `e` is a new camera entity with this id and name.
pub open spec fn is_new_camera(e: EntityView, id: u128, name: Seq<char>) -> bool {
    exists|ids: Seq<u128>, more: Seq<u128>|
        ids.len() == 3 && more.len() == 5 && e == #[trigger] EntityView::created(id, name, ids).build(more, camera_defs())
}

/// `e` is a new physical entity with this id and name, placed at `position`.
pub open spec fn is_new_physical(e: EntityView, id: u128, name: Seq<char>, position: (u32, u32, u32), physics: PhysicsProperties) -> bool {
    exists|ids: Seq<u128>, more: Seq<u128>|
        ids.len() == 3 && more.len() == 8
            && EntityView::created(id, name, ids).position_outcome(position.0, position.1, position.2).1 is None
            && e == #[trigger] EntityView::created(id, name, ids).position_outcome(position.0, position.1, position.2).0.build(more, physics_defs(physics))
}

/// The message of a missing entity.
pub open spec fn entity_not_found(id: u128) -> Seq<char> {
    "Entity "@ + uuid_text(id) + " not found"@
}

/// The entity after setting the value of its attribute `attr`, and the
/// error, if any (the attribute is missing, or is `is_camera`).
pub open spec fn value_update(e: EntityView, attr: u128, v: AttributeValueView) -> (EntityView, Option<Seq<char>>) {
    match lookup(e.attributes, attr) {
        Some(a) => if a.name == "is_camera"@ {
            (e, Some("Cannot modify is_camera attribute"@))
        } else {
            (e.with_attributes(e.attributes.update(key_index(e.attributes, attr), (attr, modified(a, None, None, Some(v))))), None)
        },
        None => (e, Some("Attribute not found"@)),
    }
}

impl SceneView {
    pub open spec fn with_entities(self, t: Seq<(u128, EntityView)>) -> SceneView {
        SceneView { entities: t, ..self }
    }

    pub open spec fn with_name(self, name: Seq<char>) -> SceneView {
        SceneView { name, ..self }
    }

    pub open spec fn with_refs(self, refs: Seq<u128>) -> SceneView {
        SceneView { shared_entity_refs: refs, ..self }
    }

    /// The scene after one attribute update, and the error, if any.
    pub open spec fn apply_update(self, u: (u128, u128, AttributeValueView)) -> (SceneView, Option<Seq<char>>) {
        match lookup(self.entities, u.0) {
            Some(e) => {
                let (e2, err) = value_update(e, u.1, u.2);
                (self.with_entities(self.entities.update(key_index(self.entities, u.0), (u.0, e2))), err)
            },
            None => (self, Some(entity_not_found(u.0))),
        }
    }

    /// The scene after applying updates in order, stopping at the first error.
    pub open spec fn apply_updates(self, us: Seq<(u128, u128, AttributeValueView)>) -> (SceneView, Option<Seq<char>>)
        decreases us.len(),
    {
        if us.len() == 0 {
            (self, None)
        } else {
            let (s1, err) = self.apply_update(us[0]);
            if err is Some {
                (s1, err)
            } else {
                s1.apply_updates(us.drop_first())
            }
        }
    }
}

/// The views of a list of attribute updates.
pub open spec fn updates_view(us: Seq<(u128, u128, AttributeValue)>) -> Seq<(u128, u128, AttributeValueView)> {
    us.map_values(|u: (u128, u128, AttributeValue)| (u.0, u.1, u.2@))
}

/// The shared entities that a list of references finds in a table, in order.
pub open spec fn referenced(refs: Seq<u128>, shared: Seq<(u128, EntityView)>) -> Seq<EntityView> {
    refs.filter_map(|id: u128| lookup(shared, id))
}

impl Scene {
    /// A scene with a fresh random id and a camera entity named
    /// "main_camera" as its default camera.
    pub fn new(name: &str) -> (r: Result<Scene, String>)
        ensures
            r matches Ok(s) && s@.name == name@ && s@.shared_entity_refs.len() == 0
                && s@.entities.len() == 1 && s@.default_camera == Some(s@.entities[0].0)
                && is_new_camera(s@.entities[0].1, s@.entities[0].0, "main_camera"@),
    {
        let mut scene = Scene {
            id: fresh_id(),
            name: owned(name),
            entities: entities_new(),
            shared_entity_refs: Vec::new(),
            default_camera: None,
        };
        let camera_id = match scene.create_camera("main_camera") {
            Ok(id) => id,
            Err(e) => return Err(e),
        };
        scene.default_camera = Some(camera_id);
        Ok(scene)
    }

    /// Renames the scene; an empty name is refused.
    pub fn modify_scene(&mut self, new_name: &str) -> (r: Result<(), String>)
        ensures
            match r {
                Ok(()) => new_name@.len() > 0 && final(self)@ == old(self)@.with_name(new_name@),
                Err(e) => new_name@.len() == 0 && e@ == "Scene name cannot be empty"@ && final(self)@ == old(self)@,
            },
    {
        if new_name.is_empty() {
            return Err(owned("Scene name cannot be empty"));
        }
        self.name = owned(new_name);
        Ok(())
    }

    /// Creates an entity under a fresh random id.
    pub fn create_entity(&mut self, name: &str) -> (r: Result<u128, String>)
        ensures
            r matches Ok(id) && is_new_entity(lookup(final(self)@.entities, id)->0, id, name@)
                && final(self)@ == old(self)@.with_entities(
                    table_insert(old(self)@.entities, id, lookup(final(self)@.entities, id)->0),
                ),
    {
        let id = fresh_id();
        let entity = match Entity::new(id, name) {
            Ok(e) => e,
            Err(e) => return Err(e),
        };
        let ghost ev = entity@;
        entities_insert(&mut self.entities, id, entity);
        proof {
            crate::table::lemma_insert_lookup(old(self)@.entities, id, ev);
        }
        Ok(id)
    }

    /// Deletes an entity; the default camera cannot be deleted. Returns
    /// whether an entity was removed.
    pub fn delete_entity(&mut self, id: u128) -> (r: Result<bool, String>)
        ensures
            if old(self)@.default_camera == Some(id) {
                r matches Err(e) && e@ == "Cannot delete default camera"@ && final(self)@ == old(self)@
            } else {
                r == Ok::<bool, String>(has_key(old(self)@.entities, id))
                    && final(self)@ == old(self)@.with_entities(table_remove(old(self)@.entities, id))
                    && !has_key(final(self)@.entities, id)
            },
    {
        if Some(id) == self.default_camera {
            return Err(owned("Cannot delete default camera"));
        }
        let found = entities_index_of(&self.entities, id);
        proof {
            crate::table::lemma_remove_sole_key(self@.entities, id, found);
        }
        let removed = entities_shift_remove(&mut self.entities, id);
        Ok(removed.is_some())
    }

    /// The entities' ids and names, in order.
    pub fn list_entity(&self) -> (r: Vec<(u128, &str)>)
        ensures
            r@.len() == self@.entities.len(),
            forall|i: int| 0 <= i < r@.len() ==> (#[trigger] r@[i]).0 == self@.entities[i].0
                && r@[i].1@ == self@.entities[i].1.name,
    {
        let n = entities_len(&self.entities);
        let mut r: Vec<(u128, &str)> = Vec::new();
        let mut i: usize = 0;
        while i < n
            invariant
                n == self@.entities.len(),
                i <= n,
                r@.len() == i,
                forall|j: int| 0 <= j < i ==> (#[trigger] r@[j]).0 == self@.entities[j].0
                    && r@[j].1@ == self@.entities[j].1.name,
            decreases n - i,
        {
            let (k, e) = entities_entry(&self.entities, i);
            r.push((k, e.name.as_str()));
            i = i + 1;
        }
        r
    }

    /// The entity with this id.
    pub fn get_entity(&self, id: u128) -> (r: Result<&Entity, String>)
        ensures
            match r {
                Ok(e) => lookup(self@.entities, id) == Some(e@),
                Err(m) => lookup(self@.entities, id) is None && m@ == entity_not_found(id),
            },
    {
        match entities_index_of(&self.entities, id) {
            Some(i) => {
                proof {
                    lemma_key_at(self@.entities, i as int);
                }
                let (_, e) = entities_entry(&self.entities, i);
                Ok(e)
            },
            None => {
                let t = id_text(id);
                Err(joined3("Entity ", t.as_str(), " not found"))
            },
        }
    }

    /// The entity with this id, to change in place.
    pub fn get_entity_mut(&mut self, id: u128) -> (r: Result<&mut Entity, String>)
        ensures
            match r {
                Ok(e) => has_key(old(self)@.entities, id) && lookup(old(self)@.entities, id) == Some(e@)
                    && final(self)@ == old(self)@.with_entities(old(self)@.entities.update(
                        key_index(old(self)@.entities, id),
                        (id, (*final(e))@),
                    )),
                Err(m) => !has_key(old(self)@.entities, id) && m@ == entity_not_found(id)
                    && final(self)@ == old(self)@,
            },
    {
        match entities_index_of(&self.entities, id) {
            Some(i) => {
                proof {
                    lemma_key_at(self@.entities, i as int);
                }
                Ok(entities_value_mut(&mut self.entities, i))
            },
            None => {
                let t = id_text(id);
                Err(joined3("Entity ", t.as_str(), " not found"))
            },
        }
    }

    /// Is this id among the scene's shared-entity references?
    pub(crate) fn list_shared_entity_ref_contains(&self, id: u128) -> (r: bool)
        ensures
            r == self@.shared_entity_refs.contains(id),
    {
        self.has_shared_ref(id)
    }

    fn has_shared_ref(&self, id: u128) -> (r: bool)
        ensures
            r == self@.shared_entity_refs.contains(id),
    {
        let mut i: usize = 0;
        while i < self.shared_entity_refs.len()
            invariant
                i <= self.shared_entity_refs.len(),
                forall|j: int| 0 <= j < i ==> self.shared_entity_refs@[j] != id,
            decreases self.shared_entity_refs.len() - i,
        {
            if self.shared_entity_refs[i] == id {
                return true;
            }
            i = i + 1;
        }
        false
    }

    /// References a shared entity; a reference already present is refused.
    pub fn add_shared_entity_ref(&mut self, shared_entity_id: u128) -> (r: Result<(), String>)
        ensures
            match r {
                Ok(()) => !old(self)@.shared_entity_refs.contains(shared_entity_id) && final(self)@ == old(self)@.with_refs(
                    old(self)@.shared_entity_refs.push(shared_entity_id),
                ),
                Err(e) => old(self)@.shared_entity_refs.contains(shared_entity_id)
                    && e@ == "Shared entity reference already exists"@ && final(self)@ == old(self)@,
            },
    {
        if self.has_shared_ref(shared_entity_id) {
            Err(owned("Shared entity reference already exists"))
        } else {
            self.shared_entity_refs.push(shared_entity_id);
            Ok(())
        }
    }

    /// Drops a shared-entity reference; a reference not present is refused.
    pub fn remove_shared_entity_ref(&mut self, shared_entity_id: u128) -> (r: Result<(), String>)
        ensures
            match r {
                Ok(()) => old(self)@.shared_entity_refs.contains(shared_entity_id) && final(self)@ == old(self)@.with_refs(
                    old(self)@.shared_entity_refs.filter(|x: u128| x != shared_entity_id),
                ),
                Err(e) => !old(self)@.shared_entity_refs.contains(shared_entity_id)
                    && e@ == "Shared entity reference not found"@ && final(self)@ == old(self)@,
            },
    {
        if !self.has_shared_ref(shared_entity_id) {
            return Err(owned("Shared entity reference not found"));
        }
        let ghost pred = |x: u128| x != shared_entity_id;
        let mut kept: Vec<u128> = Vec::new();
        let mut i: usize = 0;
        while i < self.shared_entity_refs.len()
            invariant
                i <= self.shared_entity_refs.len(),
                pred == (|x: u128| x != shared_entity_id),
                kept@ == self.shared_entity_refs@.take(i as int).filter(pred),
            decreases self.shared_entity_refs.len() - i,
        {
            let x = self.shared_entity_refs[i];
            proof {
                assert(self.shared_entity_refs@.take(i + 1) =~= self.shared_entity_refs@.take(i as int).push(x));
                self.shared_entity_refs@.take(i as int).lemma_filter_push(x, pred);
            }
            if x != shared_entity_id {
                kept.push(x);
            }
            i = i + 1;
        }
        proof {
            assert(self.shared_entity_refs@.take(i as int) =~= self.shared_entity_refs@);
        }
        self.shared_entity_refs = kept;
        Ok(())
    }

    pub fn list_shared_entity_ref(&self) -> (r: Vec<u128>)
        ensures
            r@ == self@.shared_entity_refs,
    {
        self.shared_entity_refs.clone()
    }

    /// A shared entity, found through the scene manager, if this scene
    /// references it.
    pub fn get_shared_entity_ref<'a>(&'a self, scene_manager: &'a SceneManager, id: u128) -> (r: Option<&'a Entity>)
        ensures
            match r {
                Some(e) => self@.shared_entity_refs.contains(id) && lookup(scene_manager@.shared_entities, id) == Some(e@),
                None => !self@.shared_entity_refs.contains(id) || lookup(scene_manager@.shared_entities, id) is None,
            },
    {
        if self.has_shared_ref(id) {
            scene_manager.get_shared_entity(id)
        } else {
            None
        }
    }

    /// A shared entity, to change in place through the scene manager, if
    /// this scene references it.
    pub fn get_shared_entity_ref_mut<'a>(&'a self, scene_manager: &'a mut SceneManager, id: u128) -> (r: Option<&'a mut Entity>)
        ensures
            match r {
                Some(e) => self@.shared_entity_refs.contains(id) && has_key(old(scene_manager)@.shared_entities, id)
                    && lookup(old(scene_manager)@.shared_entities, id) == Some(e@)
                    && final(scene_manager)@ == old(scene_manager)@.with_shared(old(scene_manager)@.shared_entities.update(
                        key_index(old(scene_manager)@.shared_entities, id),
                        (id, (*final(e))@),
                    )),
                None => (!self@.shared_entity_refs.contains(id) || !has_key(old(scene_manager)@.shared_entities, id))
                    && final(scene_manager)@ == old(scene_manager)@,
            },
    {
        if self.has_shared_ref(id) {
            scene_manager.get_shared_entity_mut(id)
        } else {
            None
        }
    }

    /// The scene's own entities, in order, then the shared entities it
    /// references that the scene manager holds, in reference order.
    pub fn get_all_entities<'a>(&'a self, scene_manager: &'a SceneManager) -> (r: Vec<&'a Entity>)
        ensures
            r@.map_values(|e: &Entity| e@) == table_values(self@.entities)
                + referenced(self@.shared_entity_refs, scene_manager@.shared_entities),
    {
        let mut all: Vec<&'a Entity> = Vec::new();
        let n = entities_len(&self.entities);
        let mut i: usize = 0;
        while i < n
            invariant
                n == self@.entities.len(),
                i <= n,
                all@.map_values(|e: &Entity| e@) == table_values(self@.entities).take(i as int),
            decreases n - i,
        {
            let (_, e) = entities_entry(&self.entities, i);
            let ghost before = all@;
            all.push(e);
            proof {
                assert(all@.map_values(|e: &Entity| e@) =~= before.map_values(|e: &Entity| e@).push(e@));
                assert(table_values(self@.entities).take(i + 1) =~= table_values(self@.entities).take(i as int).push(e@));
            }
            i = i + 1;
        }
        proof {
            assert(table_values(self@.entities).take(n as int) =~= table_values(self@.entities));
        }
        let ghost own = all@.map_values(|e: &Entity| e@);
        let ghost f = |id: u128| lookup(scene_manager@.shared_entities, id);
        let mut j: usize = 0;
        while j < self.shared_entity_refs.len()
            invariant
                j <= self.shared_entity_refs.len(),
                own == table_values(self@.entities),
                f == (|id: u128| lookup(scene_manager@.shared_entities, id)),
                all@.map_values(|e: &Entity| e@) == own + self@.shared_entity_refs.take(j as int).filter_map(f),
            decreases self.shared_entity_refs.len() - j,
        {
            let id = self.shared_entity_refs[j];
            let ghost before = all@;
            proof {
                let s = self@.shared_entity_refs.take(j + 1);
                assert(s.drop_last() =~= self@.shared_entity_refs.take(j as int));
                assert(s.last() == id);
                reveal_with_fuel(Seq::filter_map, 1);
            }
            match scene_manager.get_shared_entity(id) {
                Some(e) => {
                    all.push(e);
                    proof {
                        assert(all@.map_values(|e: &Entity| e@) =~= before.map_values(|e: &Entity| e@).push(e@));
                        assert(f(id) == Some(e@));
                        assert(self@.shared_entity_refs.take(j + 1).filter_map(f)
                            == self@.shared_entity_refs.take(j as int).filter_map(f) + seq![e@]);
                    }
                },
                None => {
                    proof {
                        assert(f(id) is None);
                    }
                },
            }
            j = j + 1;
        }
        proof {
            assert(self@.shared_entity_refs.take(j as int) =~= self@.shared_entity_refs);
        }
        all
    }

    /// Creates a camera entity under a fresh random id.
    pub fn create_camera(&mut self, name: &str) -> (r: Result<u128, String>)
        ensures
            r matches Ok(id) && is_new_camera(lookup(final(self)@.entities, id)->0, id, name@)
                && final(self)@ == old(self)@.with_entities(
                    table_insert(old(self)@.entities, id, lookup(final(self)@.entities, id)->0),
                ),
    {
        let id = fresh_id();
        let camera = match Entity::new_camera(id, name) {
            Ok(e) => e,
            Err(e) => return Err(e),
        };
        let ghost ev = camera@;
        entities_insert(&mut self.entities, id, camera);
        proof {
            crate::table::lemma_insert_lookup(old(self)@.entities, id, ev);
        }
        Ok(id)
    }

    /// Creates a physical entity under a fresh random id. Fails only when
    /// the new entity's position attributes cannot be set.
    pub fn create_physical_entity(
        &mut self,
        name: &str,
        position: (u32, u32, u32),
        physics: PhysicsProperties,
    ) -> (r: Result<u128, String>)
        ensures
            match r {
                Ok(id) => is_new_physical(lookup(final(self)@.entities, id)->0, id, name@, position, physics)
                    && final(self)@ == old(self)@.with_entities(
                        table_insert(old(self)@.entities, id, lookup(final(self)@.entities, id)->0),
                    ),
                Err(m) => final(self)@ == old(self)@ && exists|id: u128, ids: Seq<u128>|
                    ids.len() == 3 && #[trigger] EntityView::created(id, name@, ids).position_outcome(
                        position.0, position.1, position.2).1 == Some(m@),
            },
    {
        let id = fresh_id();
        let entity = match Entity::new_physical(id, name, position, physics) {
            Ok(e) => e,
            Err(e) => return Err(e),
        };
        let ghost ev = entity@;
        entities_insert(&mut self.entities, id, entity);
        proof {
            crate::table::lemma_insert_lookup(old(self)@.entities, id, ev);
        }
        Ok(id)
    }

    /// Sets the value of one attribute of one entity.
    pub fn update_entity_attribute(&mut self, entity_id: u128, attr_id: u128, new_value: AttributeValue) -> (r: Result<(), String>)
        ensures
            final(self)@ == old(self)@.apply_update((entity_id, attr_id, new_value@)).0,
            match r {
                Ok(()) => old(self)@.apply_update((entity_id, attr_id, new_value@)).1 is None,
                Err(e) => old(self)@.apply_update((entity_id, attr_id, new_value@)).1 == Some(e@),
            },
    {
        match entities_index_of(&self.entities, entity_id) {
            Some(i) => {
                proof {
                    lemma_key_at(self@.entities, i as int);
                }
                let entity = entities_value_mut(&mut self.entities, i);
                let ghost v = new_value@;
                let res = entity.modify_attribute(attr_id, None, None, Some(new_value));
                proof {
                    assert(opt_value(Some(new_value)) == Some(v));
                }
                match res {
                    Ok(()) => Ok(()),
                    Err(e) => Err(e),
                }
            },
            None => {
                let t = id_text(entity_id);
                Err(joined3("Entity ", t.as_str(), " not found"))
            },
        }
    }

    /// Applies attribute updates in order, stopping at the first one that
    /// fails (the updates before it stay applied).
    pub fn update_entity_attributes(&mut self, updates: Vec<(u128, u128, AttributeValue)>) -> (r: Result<(), String>)
        ensures
            final(self)@ == old(self)@.apply_updates(updates_view(updates@)).0,
            match r {
                Ok(()) => old(self)@.apply_updates(updates_view(updates@)).1 is None,
                Err(e) => old(self)@.apply_updates(updates_view(updates@)).1 == Some(e@),
            },
    {
        let ghost us = updates_view(updates@);
        let mut i: usize = 0;
        assert(us.skip(0) =~= us);
        while i < updates.len()
            invariant
                i <= updates.len(),
                us == updates_view(updates@),
                old(self)@.apply_updates(us) == self@.apply_updates(us.skip(i as int)),
            decreases updates.len() - i,
        {
            let ghost cur = self@;
            proof {
                assert(us.skip(i as int).drop_first() =~= us.skip(i + 1));
                assert(us.skip(i as int)[0] == us[i as int]);
            }
            let (entity_id, attr_id, ref new_value) = updates[i];
            let res = self.update_entity_attribute(entity_id, attr_id, new_value.clone());
            match res {
                Ok(()) => {},
                Err(e) => return Err(e),
            }
            i = i + 1;
        }
        proof {
            assert(us.skip(i as int).len() == 0);
        }
        Ok(())
    }
}

} // verus!
