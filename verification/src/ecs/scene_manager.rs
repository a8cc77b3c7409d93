//! The scene manager: all scenes, the entities shared between them, and the
//! active scene.
use indexmap::IndexMap;
use vstd::prelude::*;
use crate::ids::fresh_id;
use crate::table::{
    first_match, has_key, is_first_match, key_index, lemma_first_match, lemma_insert_lookup, lemma_key_at,
    lookup, table_insert, table_remove, table_values,
};
use crate::text::{owned, text_eq};
use super::entity::{Entity, EntityView};
use super::scene::{Scene, SceneView, is_new_camera, is_new_entity};
use super::tables::{
    entities_entry, entities_index_of, entities_insert, entities_len, entities_new, entities_shift_remove,
    entities_value_mut, entity_entries, scene_entries, scenes_entry, scenes_index_of, scenes_insert, scenes_len,
    scenes_new, scenes_shift_remove, scenes_value_mut,
};

verus! {

#[derive(Debug)]
pub struct SceneManager {
    pub scenes: IndexMap<u128, Scene>,
    pub shared_entities: IndexMap<u128, Entity>,
    pub active_scene: Option<u128>,
}

pub struct SceneManagerView {
    pub scenes: Seq<(u128, SceneView)>,
    pub shared_entities: Seq<(u128, EntityView)>,
    pub active_scene: Option<u128>,
}

impl View for SceneManager {
    type V = SceneManagerView;

    open spec fn view(&self) -> SceneManagerView {
        SceneManagerView {
            scenes: scene_entries(self.scenes),
            shared_entities: entity_entries(self.shared_entities),
            active_scene: self.active_scene,
        }
    }
}

/// `s` is a new scene with this name: only its default camera, named
/// "main_camera", and no shared references.
pub open spec fn is_new_scene(s: SceneView, name: Seq<char>) -> bool {
    &&& s.name == name
    &&& s.shared_entity_refs.len() == 0
    &&& s.entities.len() == 1
    &&& s.default_camera == Some(s.entities[0].0)
    &&& is_new_camera(s.entities[0].1, s.entities[0].0, "main_camera"@)
}

/// Scenes with this name.
pub open spec fn scene_named(name: Seq<char>) -> spec_fn(SceneView) -> bool {
    |s: SceneView| s.name == name
}

/// Entities with this name.
pub open spec fn entity_named(name: Seq<char>) -> spec_fn(EntityView) -> bool {
    |e: EntityView| e.name == name
}

/// Scenes that reference a shared entity.
pub open spec fn scene_uses(entity_id: u128) -> spec_fn(SceneView) -> bool {
    |s: SceneView| s.shared_entity_refs.contains(entity_id)
}

impl SceneManagerView {
    pub open spec fn with_shared(self, t: Seq<(u128, EntityView)>) -> SceneManagerView {
        SceneManagerView { shared_entities: t, ..self }
    }

    pub open spec fn with_scenes(self, t: Seq<(u128, SceneView)>) -> SceneManagerView {
        SceneManagerView { scenes: t, ..self }
    }

    pub open spec fn with_active(self, active: Option<u128>) -> SceneManagerView {
        SceneManagerView { active_scene: active, ..self }
    }

    /// Some scene references the shared entity `id`.
    pub open spec fn is_referenced(self, id: u128) -> bool {
        exists|i: int| 0 <= i < self.scenes.len() && (#[trigger] self.scenes[i]).1.shared_entity_refs.contains(id)
    }

    /// The active scene, if it is set and present.
    pub open spec fn active(self) -> Option<SceneView> {
        match self.active_scene {
            Some(id) => lookup(self.scenes, id),
            None => None,
        }
    }
}

impl Default for SceneManager {
    fn default() -> (r: Self)
        ensures
            r@.scenes.len() == 0 && r@.shared_entities.len() == 0 && r@.active_scene is None,
    {
        Self::new()
    }
}

impl Clone for SceneManager {
    fn clone(&self) -> (r: Self)
        ensures
            r@ == self@,
    {
        SceneManager {
            scenes: super::tables::scenes_clone(&self.scenes),
            shared_entities: super::tables::entities_clone(&self.shared_entities),
            active_scene: self.active_scene,
        }
    }
}

impl SceneManager {
    /// No scenes, no shared entities, no active scene.
    pub fn new() -> (r: Self)
        ensures
            r@.scenes.len() == 0 && r@.shared_entities.len() == 0 && r@.active_scene is None,
    {
        SceneManager { scenes: scenes_new(), shared_entities: entities_new(), active_scene: None }
    }

    /// Creates a scene (with its default camera) under a fresh random id.
    pub fn create_scene(&mut self, name: &str) -> (r: Result<u128, String>)
        ensures
            r matches Ok(id) && is_new_scene(lookup(final(self)@.scenes, id)->0, name@)
                && final(self)@ == old(self)@.with_scenes(
                    table_insert(old(self)@.scenes, id, lookup(final(self)@.scenes, id)->0),
                ),
    {
        let id = fresh_id();
        let scene = match Scene::new(name) {
            Ok(s) => s,
            Err(e) => return Err(e),
        };
        let ghost sv = scene@;
        scenes_insert(&mut self.scenes, id, scene);
        proof {
            lemma_insert_lookup(old(self)@.scenes, id, sv);
        }
        Ok(id)
    }

    /// Deletes a scene; the active scene cannot be deleted. Returns whether
    /// a scene was removed.
    pub fn delete_scene(&mut self, id: u128) -> (r: Result<bool, String>)
        ensures
            if old(self)@.active_scene == Some(id) {
                r matches Err(e) && e@ == "Cannot delete active scene"@ && final(self)@ == old(self)@
            } else {
                r == Ok::<bool, String>(has_key(old(self)@.scenes, id))
                    && final(self)@ == old(self)@.with_scenes(table_remove(old(self)@.scenes, id))
                    && !has_key(final(self)@.scenes, id)
            },
    {
        if self.active_scene == Some(id) {
            return Err(owned("Cannot delete active scene"));
        }
        let found = scenes_index_of(&self.scenes, id);
        proof {
            crate::table::lemma_remove_sole_key(self@.scenes, id, found);
        }
        let removed = scenes_shift_remove(&mut self.scenes, id);
        Ok(removed.is_some())
    }

    /// The scenes' ids and names, in order.
    pub fn list_scene(&self) -> (r: Vec<(u128, &str)>)
        ensures
            r@.len() == self@.scenes.len(),
            forall|i: int| 0 <= i < r@.len() ==> (#[trigger] r@[i]).0 == self@.scenes[i].0
                && r@[i].1@ == self@.scenes[i].1.name,
    {
        let n = scenes_len(&self.scenes);
        let mut r: Vec<(u128, &str)> = Vec::new();
        let mut i: usize = 0;
        while i < n
            invariant
                n == self@.scenes.len(),
                i <= n,
                r@.len() == i,
                forall|j: int| 0 <= j < i ==> (#[trigger] r@[j]).0 == self@.scenes[j].0
                    && r@[j].1@ == self@.scenes[j].1.name,
            decreases n - i,
        {
            let (k, s) = scenes_entry(&self.scenes, i);
            r.push((k, s.name.as_str()));
            i = i + 1;
        }
        r
    }

    pub fn get_scene(&self, id: u128) -> (r: Option<&Scene>)
        ensures
            match r {
                Some(s) => lookup(self@.scenes, id) == Some(s@),
                None => lookup(self@.scenes, id) is None,
            },
    {
        match scenes_index_of(&self.scenes, id) {
            Some(i) => {
                proof {
                    lemma_key_at(self@.scenes, i as int);
                }
                let (_, s) = scenes_entry(&self.scenes, i);
                Some(s)
            },
            None => None,
        }
    }

    pub fn get_scene_mut(&mut self, id: u128) -> (r: Option<&mut Scene>)
        ensures
            match r {
                Some(s) => has_key(old(self)@.scenes, id) && lookup(old(self)@.scenes, id) == Some(s@)
                    && final(self)@ == old(self)@.with_scenes(old(self)@.scenes.update(
                        key_index(old(self)@.scenes, id),
                        (id, (*final(s))@),
                    )),
                None => !has_key(old(self)@.scenes, id) && final(self)@ == old(self)@,
            },
    {
        match scenes_index_of(&self.scenes, id) {
            Some(i) => {
                proof {
                    lemma_key_at(self@.scenes, i as int);
                }
                Some(scenes_value_mut(&mut self.scenes, i))
            },
            None => None,
        }
    }

    /// The first scene with this name.
    pub fn get_scene_by_name(&self, name: &str) -> (r: Option<&Scene>)
        ensures
            match r {
                Some(s) => first_match(self@.scenes, scene_named(name@)) == Some(s@),
                None => first_match(self@.scenes, scene_named(name@)) is None,
            },
    {
        let n = scenes_len(&self.scenes);
        let mut i: usize = 0;
        while i < n
            invariant
                n == self@.scenes.len(),
                i <= n,
                forall|j: int| 0 <= j < i ==> !scene_named(name@)(#[trigger] self@.scenes[j].1),
            decreases n - i,
        {
            let (_, s) = scenes_entry(&self.scenes, i);
            if text_eq(s.name.as_str(), name) {
                proof {
                    assert(is_first_match(self@.scenes, scene_named(name@), i as int));
                    lemma_first_match(self@.scenes, scene_named(name@), i as int);
                }
                return Some(s);
            }
            i = i + 1;
        }
        None
    }

    /// Creates a shared entity under a fresh random id.
    pub fn create_shared_entity(&mut self, name: &str) -> (r: Result<u128, String>)
        ensures
            r matches Ok(id) && is_new_entity(lookup(final(self)@.shared_entities, id)->0, id, name@)
                && final(self)@ == old(self)@.with_shared(
                    table_insert(old(self)@.shared_entities, id, lookup(final(self)@.shared_entities, id)->0),
                ),
    {
        let id = fresh_id();
        let entity = match Entity::new(id, name) {
            Ok(e) => e,
            Err(e) => return Err(e),
        };
        let ghost ev = entity@;
        entities_insert(&mut self.shared_entities, id, entity);
        proof {
            lemma_insert_lookup(old(self)@.shared_entities, id, ev);
        }
        Ok(id)
    }

    /// Deletes a shared entity; one that a scene still references cannot be
    /// deleted. Returns whether an entity was removed.
    pub fn delete_shared_entity(&mut self, id: u128) -> (r: Result<bool, String>)
        ensures
            if old(self)@.is_referenced(id) {
                r matches Err(e) && e@ == "Entity is still referenced by a scene"@ && final(self)@ == old(self)@
            } else {
                r == Ok::<bool, String>(has_key(old(self)@.shared_entities, id))
                    && final(self)@ == old(self)@.with_shared(table_remove(old(self)@.shared_entities, id))
                    && !has_key(final(self)@.shared_entities, id)
            },
    {
        let n = scenes_len(&self.scenes);
        let mut i: usize = 0;
        while i < n
            invariant
                n == self@.scenes.len(),
                i <= n,
                forall|j: int| 0 <= j < i ==> !(#[trigger] self@.scenes[j]).1.shared_entity_refs.contains(id),
            decreases n - i,
        {
            let (_, scene) = scenes_entry(&self.scenes, i);
            if scene.list_shared_entity_ref_contains(id) {
                return Err(owned("Entity is still referenced by a scene"));
            }
            i = i + 1;
        }
        let found = entities_index_of(&self.shared_entities, id);
        proof {
            crate::table::lemma_remove_sole_key(self@.shared_entities, id, found);
        }
        let removed = entities_shift_remove(&mut self.shared_entities, id);
        Ok(removed.is_some())
    }

    /// The shared entities' ids and names, in order.
    pub fn list_shared_entity(&self) -> (r: Vec<(u128, &str)>)
        ensures
            r@.len() == self@.shared_entities.len(),
            forall|i: int| 0 <= i < r@.len() ==> (#[trigger] r@[i]).0 == self@.shared_entities[i].0
                && r@[i].1@ == self@.shared_entities[i].1.name,
    {
        let n = entities_len(&self.shared_entities);
        let mut r: Vec<(u128, &str)> = Vec::new();
        let mut i: usize = 0;
        while i < n
            invariant
                n == self@.shared_entities.len(),
                i <= n,
                r@.len() == i,
                forall|j: int| 0 <= j < i ==> (#[trigger] r@[j]).0 == self@.shared_entities[j].0
                    && r@[j].1@ == self@.shared_entities[j].1.name,
            decreases n - i,
        {
            let (k, e) = entities_entry(&self.shared_entities, i);
            r.push((k, e.name.as_str()));
            i = i + 1;
        }
        r
    }

    pub fn get_shared_entity(&self, id: u128) -> (r: Option<&Entity>)
        ensures
            match r {
                Some(e) => lookup(self@.shared_entities, id) == Some(e@),
                None => lookup(self@.shared_entities, id) is None,
            },
    {
        match entities_index_of(&self.shared_entities, id) {
            Some(i) => {
                proof {
                    lemma_key_at(self@.shared_entities, i as int);
                }
                let (_, e) = entities_entry(&self.shared_entities, i);
                Some(e)
            },
            None => None,
        }
    }

    pub fn get_shared_entity_mut(&mut self, id: u128) -> (r: Option<&mut Entity>)
        ensures
            match r {
                Some(e) => has_key(old(self)@.shared_entities, id) && lookup(old(self)@.shared_entities, id) == Some(e@)
                    && final(self)@ == old(self)@.with_shared(old(self)@.shared_entities.update(
                        key_index(old(self)@.shared_entities, id),
                        (id, (*final(e))@),
                    )),
                None => !has_key(old(self)@.shared_entities, id) && final(self)@ == old(self)@,
            },
    {
        match entities_index_of(&self.shared_entities, id) {
            Some(i) => {
                proof {
                    lemma_key_at(self@.shared_entities, i as int);
                }
                Some(entities_value_mut(&mut self.shared_entities, i))
            },
            None => None,
        }
    }

    /// The first shared entity with this name.
    pub fn get_shared_entity_by_name(&self, name: &str) -> (r: Option<&Entity>)
        ensures
            match r {
                Some(e) => first_match(self@.shared_entities, entity_named(name@)) == Some(e@),
                None => first_match(self@.shared_entities, entity_named(name@)) is None,
            },
    {
        let n = entities_len(&self.shared_entities);
        let mut i: usize = 0;
        while i < n
            invariant
                n == self@.shared_entities.len(),
                i <= n,
                forall|j: int| 0 <= j < i ==> !entity_named(name@)(#[trigger] self@.shared_entities[j].1),
            decreases n - i,
        {
            let (_, e) = entities_entry(&self.shared_entities, i);
            if text_eq(e.name.as_str(), name) {
                proof {
                    assert(is_first_match(self@.shared_entities, entity_named(name@), i as int));
                    lemma_first_match(self@.shared_entities, entity_named(name@), i as int);
                }
                return Some(e);
            }
            i = i + 1;
        }
        None
    }

    /// The scenes that reference a shared entity, in order.
    pub fn get_scenes_using_entity(&self, entity_id: u128) -> (r: Vec<&Scene>)
        ensures
            r@.map_values(|s: &Scene| s@) == table_values(self@.scenes).filter(scene_uses(entity_id)),
    {
        let ghost p = scene_uses(entity_id);
        let n = scenes_len(&self.scenes);
        let mut r: Vec<&Scene> = Vec::new();
        let mut i: usize = 0;
        while i < n
            invariant
                n == self@.scenes.len(),
                i <= n,
                p == scene_uses(entity_id),
                r@.map_values(|s: &Scene| s@) == table_values(self@.scenes).take(i as int).filter(p),
            decreases n - i,
        {
            let (_, s) = scenes_entry(&self.scenes, i);
            let ghost before = r@;
            proof {
                assert(table_values(self@.scenes).take(i + 1) =~= table_values(self@.scenes).take(i as int).push(s@));
                table_values(self@.scenes).take(i as int).lemma_filter_push(s@, p);
            }
            if s.list_shared_entity_ref_contains(entity_id) {
                r.push(s);
                proof {
                    assert(r@.map_values(|s: &Scene| s@) =~= before.map_values(|s: &Scene| s@).push(s@));
                }
            }
            i = i + 1;
        }
        proof {
            assert(table_values(self@.scenes).take(n as int) =~= table_values(self@.scenes));
        }
        r
    }

    /// Makes a scene active; an id with no scene is refused.
    pub fn set_active_scene(&mut self, id: u128) -> (r: Result<(), String>)
        ensures
            match r {
                Ok(()) => has_key(old(self)@.scenes, id)
                    && final(self)@ == old(self)@.with_active(Some(id)),
                Err(e) => !has_key(old(self)@.scenes, id) && e@ == "Scene not found"@ && final(self)@ == old(self)@,
            },
    {
        if scenes_index_of(&self.scenes, id).is_some() {
            self.active_scene = Some(id);
            Ok(())
        } else {
            Err(owned("Scene not found"))
        }
    }

    pub fn get_active_scene(&self) -> (r: Option<&Scene>)
        ensures
            match r {
                Some(s) => self@.active() == Some(s@),
                None => self@.active() is None,
            },
    {
        match self.active_scene {
            Some(id) => self.get_scene(id),
            None => None,
        }
    }

    pub fn get_active_scene_mut(&mut self) -> (r: Option<&mut Scene>)
        ensures
            match r {
                Some(s) => old(self)@.active_scene matches Some(id) && has_key(old(self)@.scenes, id)
                    && old(self)@.active() == Some(s@)
                    && final(self)@ == old(self)@.with_scenes(old(self)@.scenes.update(
                        key_index(old(self)@.scenes, id),
                        (id, (*final(s))@),
                    )),
                None => old(self)@.active() is None && final(self)@ == old(self)@,
            },
    {
        match self.active_scene {
            Some(id) => self.get_scene_mut(id),
            None => None,
        }
    }

    pub fn clear_active_scene(&mut self)
        ensures
            final(self)@ == old(self)@.with_active(None),
    {
        self.active_scene = None;
    }
}

} // verus!
