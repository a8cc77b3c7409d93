//! Resource paths in saved scene files.
//!
//! Asset and script paths are stored relative to the project root (with `/`
//! separators) and resolved back to absolute paths against the opened
//! project's location at load time, so projects stay portable across
//! machines. In memory, entities hold absolute paths.
use indexmap::IndexMap;
use vstd::prelude::*;
use crate::ecs::{Entity, SceneManager};
use crate::ecs::entity::EntityView;
use crate::ecs::scene::SceneView;
use crate::ecs::scene_manager::SceneManagerView;
use crate::ecs::tables::{entities_len, entities_value_mut, entity_entries, scene_entries, scenes_len, scenes_value_mut};
use crate::paths::{
    components, join_path, join_paths, law_relative_then_moved, law_relative_then_resolved, relative_text, resolve_path,
    resolved, strip_prefix, to_relative_string,
};
use crate::text::texts;

verus! {

/// Which way resource paths are rewritten.
#[derive(Clone, Copy, Debug, PartialEq, Eq, Structural)]
pub enum PathMode {
    /// Relative to the project root, for saving (paths outside it stay).
    Portable,
    /// Absolute on this machine, after loading.
    Resolved,
}

/// The rewriting of one path.
pub open spec fn path_map(mode: PathMode, project: Seq<char>) -> spec_fn(Seq<char>) -> Seq<char> {
    match mode {
        PathMode::Portable => |p: Seq<char>| match relative_text(p, project) {
            Some(t) => t,
            None => p,
        },
        PathMode::Resolved => |p: Seq<char>| resolved(p, project),
    }
}

impl EntityView {
    /// The entity with every resource path rewritten.
    pub open spec fn map_paths(self, f: spec_fn(Seq<char>) -> Seq<char>) -> EntityView {
        EntityView {
            images: self.images.map_values(f),
            sounds: self.sounds.map_values(f),
            script: match self.script {
                Some(s) => Some(f(s)),
                None => None,
            },
            ..self
        }
    }
}

/// A table of entities with every resource path rewritten.
pub open spec fn map_entity_paths_table(t: Seq<(u128, EntityView)>, f: spec_fn(Seq<char>) -> Seq<char>) -> Seq<(u128, EntityView)> {
    t.map_values(|e: (u128, EntityView)| (e.0, e.1.map_paths(f)))
}

impl SceneView {
    pub open spec fn map_paths(self, f: spec_fn(Seq<char>) -> Seq<char>) -> SceneView {
        self.with_entities(map_entity_paths_table(self.entities, f))
    }
}

impl SceneManagerView {
    /// The scene manager with every resource path of every entity, in all
    /// scenes and among the shared entities, rewritten.
    pub open spec fn map_paths(self, f: spec_fn(Seq<char>) -> Seq<char>) -> SceneManagerView {
        SceneManagerView {
            scenes: self.scenes.map_values(|e: (u128, SceneView)| (e.0, e.1.map_paths(f))),
            shared_entities: map_entity_paths_table(self.shared_entities, f),
            active_scene: self.active_scene,
        }
    }
}

/// Rewrites one path.
fn map_path(p: &str, project: &str, mode: PathMode) -> (r: String)
    ensures
        r@ == path_map(mode, project@)(p@),
{
    match mode {
        PathMode::Portable => match to_relative_string(p, project) {
            Some(t) => t,
            None => crate::text::owned(p),
        },
        PathMode::Resolved => resolve_path(p, project),
    }
}

/// Rewrites every path of a list.
fn map_path_list(v: &mut Vec<String>, project: &str, mode: PathMode)
    ensures
        texts(final(v)@) == texts(old(v)@).map_values(path_map(mode, project@)),
{
    let ghost f = path_map(mode, project@);
    let ghost orig = texts(v@);
    let mut i: usize = 0;
    while i < v.len()
        invariant
            f == path_map(mode, project@),
            orig.len() == v.len(),
            i <= v.len(),
            forall|j: int| 0 <= j < i ==> #[trigger] texts(v@)[j] == f(orig[j]),
            forall|j: int| i <= j < v.len() ==> #[trigger] texts(v@)[j] == orig[j],
        decreases v.len() - i,
    {
        let ghost before = v@;
        let m = map_path(v[i].as_str(), project, mode);
        proof {
            assert(texts(before)[i as int] == orig[i as int]);
        }
        v.set(i, m);
        proof {
            assert(v@ == before.update(i as int, m));
            assert forall|j: int| 0 <= j < v.len() && j != i implies #[trigger] texts(v@)[j] == texts(before)[j] by {}
            assert(texts(v@)[i as int] == f(orig[i as int]));
        }
        i = i + 1;
    }
    assert(texts(v@) =~= orig.map_values(f));
}

/// Rewrites every resource path of an entity.
fn map_entity(e: &mut Entity, project: &str, mode: PathMode)
    ensures
        final(e)@ == old(e)@.map_paths(path_map(mode, project@)),
{
    map_path_list(&mut e.images, project, mode);
    map_path_list(&mut e.sounds, project, mode);
    let s = e.script.take();
    e.script = match s {
        Some(p) => Some(map_path(p.as_str(), project, mode)),
        None => None,
    };
}

/// Rewrites every resource path of every entity of a table.
fn map_entity_table(m: &mut IndexMap<u128, Entity>, project: &str, mode: PathMode)
    ensures
        entity_entries(*final(m)) == map_entity_paths_table(entity_entries(*old(m)), path_map(mode, project@)),
{
    let ghost f = path_map(mode, project@);
    let ghost orig = entity_entries(*m);
    let n = entities_len(m);
    let mut i: usize = 0;
    while i < n
        invariant
            f == path_map(mode, project@),
            n == orig.len(),
            entity_entries(*m).len() == n,
            i <= n,
            forall|j: int| 0 <= j < i ==> #[trigger] entity_entries(*m)[j] == (orig[j].0, orig[j].1.map_paths(f)),
            forall|j: int| i <= j < n ==> #[trigger] entity_entries(*m)[j] == orig[j],
        decreases n - i,
    {
        let e = entities_value_mut(m, i);
        map_entity(e, project, mode);
        i = i + 1;
    }
    assert(entity_entries(*m) =~= map_entity_paths_table(orig, f));
}

/// Rewrites every resource path in the scene manager: in every scene and
/// among the shared entities.
pub fn map_entity_paths(scene_manager: &mut SceneManager, project: &str, mode: PathMode)
    ensures
        final(scene_manager)@ == old(scene_manager)@.map_paths(path_map(mode, project@)),
{
    let ghost f = path_map(mode, project@);
    let ghost orig = scene_entries(scene_manager.scenes);
    let n = scenes_len(&scene_manager.scenes);
    let mut i: usize = 0;
    while i < n
        invariant
            f == path_map(mode, project@),
            n == orig.len(),
            scene_entries(scene_manager.scenes).len() == n,
            i <= n,
            forall|j: int| 0 <= j < i ==> #[trigger] scene_entries(scene_manager.scenes)[j] == (orig[j].0, orig[j].1.map_paths(f)),
            forall|j: int| i <= j < n ==> #[trigger] scene_entries(scene_manager.scenes)[j] == orig[j],
            scene_manager.shared_entities == old(scene_manager).shared_entities,
            scene_manager.active_scene == old(scene_manager).active_scene,
        decreases n - i,
    {
        let scene = scenes_value_mut(&mut scene_manager.scenes, i);
        map_entity_table(&mut scene.entities, project, mode);
        i = i + 1;
    }
    map_entity_table(&mut scene_manager.shared_entities, project, mode);
    assert(scene_entries(scene_manager.scenes) =~= orig.map_values(|e: (u128, SceneView)| (e.0, e.1.map_paths(f))));
}

/// A copy of the scene manager whose resource paths are relative to the
/// project root, as it is written to the scene file.
pub fn portable_copy(scene_manager: &SceneManager, project_path: &str) -> (r: SceneManager)
    ensures
        r@ == scene_manager@.map_paths(path_map(PathMode::Portable, project_path@)),
{
    let mut portable = scene_manager.clone();
    map_entity_paths(&mut portable, project_path, PathMode::Portable);
    portable
}

/// Makes the resource paths of a loaded scene manager absolute for this
/// machine.
pub fn resolve_loaded_paths(scene_manager: &mut SceneManager, project_path: &str)
    ensures
        final(scene_manager)@ == old(scene_manager)@.map_paths(path_map(PathMode::Resolved, project_path@)),
{
    map_entity_paths(scene_manager, project_path, PathMode::Resolved);
}

/// Where the scene hierarchy of a project is saved.
pub fn scene_file_path(project_path: &str) -> (r: String)
    ensures
        r@ == join_path(join_path(project_path@, "scenes"@), "scene_manager.json"@),
{
    let scenes = join_paths(project_path, "scenes");
    join_paths(scenes.as_str(), "scene_manager.json")
}

/// What saving then loading does to one resource path: made relative to
/// the project, then resolved against it.
pub open spec fn saved_and_loaded(project: Seq<char>) -> spec_fn(Seq<char>) -> Seq<char> {
    |p: Seq<char>| resolved(path_map(PathMode::Portable, project)(p), project)
}

proof fn lemma_entity_compose(e: EntityView, f: spec_fn(Seq<char>) -> Seq<char>, g: spec_fn(Seq<char>) -> Seq<char>)
    ensures
        e.map_paths(f).map_paths(g) == e.map_paths(|p: Seq<char>| g(f(p))),
{
    assert(e.map_paths(f).map_paths(g).images =~= e.map_paths(|p: Seq<char>| g(f(p))).images);
    assert(e.map_paths(f).map_paths(g).sounds =~= e.map_paths(|p: Seq<char>| g(f(p))).sounds);
}

proof fn lemma_table_compose(t: Seq<(u128, EntityView)>, f: spec_fn(Seq<char>) -> Seq<char>, g: spec_fn(Seq<char>) -> Seq<char>)
    ensures
        map_entity_paths_table(map_entity_paths_table(t, f), g) == map_entity_paths_table(t, |p: Seq<char>| g(f(p))),
{
    let h = |p: Seq<char>| g(f(p));
    assert forall|i: int| 0 <= i < t.len() implies #[trigger] map_entity_paths_table(map_entity_paths_table(t, f), g)[i]
        == map_entity_paths_table(t, h)[i] by {
        lemma_entity_compose(t[i].1, f, g);
    }
    assert(map_entity_paths_table(map_entity_paths_table(t, f), g) =~= map_entity_paths_table(t, h));
}

/// Saving a scene manager to its scene file (`portable_copy`) and loading it
/// back (`resolve_loaded_paths`) rewrites every resource path by
/// `saved_and_loaded`; by `law_relative_then_resolved`, each path that lies
/// in the project comes back with the same components.
pub proof fn law_save_then_load(m: SceneManagerView, project: Seq<char>)
    ensures
        m.map_paths(path_map(PathMode::Portable, project)).map_paths(path_map(PathMode::Resolved, project))
            == m.map_paths(saved_and_loaded(project)),
        forall|p: Seq<char>| components(project).len() > 0 && relative_text(p, project) is Some
            ==> components(#[trigger] saved_and_loaded(project)(p)) == components(p),
{
    let f = path_map(PathMode::Portable, project);
    let g = path_map(PathMode::Resolved, project);
    let h = saved_and_loaded(project);
    assert(h == (|p: Seq<char>| g(f(p))));
    let a = m.map_paths(f).map_paths(g);
    let b = m.map_paths(h);
    assert forall|i: int| 0 <= i < m.scenes.len() implies #[trigger] a.scenes[i] == b.scenes[i] by {
        lemma_table_compose(m.scenes[i].1.entities, f, g);
    }
    assert(a.scenes =~= b.scenes);
    lemma_table_compose(m.shared_entities, f, g);
    assert forall|p: Seq<char>| components(project).len() > 0 && relative_text(p, project) is Some implies
        components(#[trigger] h(p)) == components(p) by {
        law_relative_then_resolved(p, project);
    }
}

/// A path written portable for `project` and read back after the project
/// folder moved to `moved_to`.
pub open spec fn saved_and_moved(project: Seq<char>, moved_to: Seq<char>) -> spec_fn(Seq<char>) -> Seq<char> {
    |p: Seq<char>| resolved(path_map(PathMode::Portable, project)(p), moved_to)
}

/// Saving a scene manager in a project and loading it after the project
/// folder moved rewrites every resource path by `saved_and_moved`; by
/// `law_relative_then_moved`, a path that lay in the project then lies at
/// the same place under the new root.
pub proof fn law_save_then_load_moved(m: SceneManagerView, project: Seq<char>, moved_to: Seq<char>)
    ensures
        m.map_paths(path_map(PathMode::Portable, project)).map_paths(path_map(PathMode::Resolved, moved_to))
            == m.map_paths(saved_and_moved(project, moved_to)),
        forall|p: Seq<char>|
            components(project).len() > 0 && components(moved_to).len() > 0 && relative_text(p, project) is Some
                ==> components(#[trigger] saved_and_moved(project, moved_to)(p))
                == components(moved_to) + strip_prefix(p, project)->0,
{
    let f = path_map(PathMode::Portable, project);
    let g = path_map(PathMode::Resolved, moved_to);
    let h = saved_and_moved(project, moved_to);
    assert(h == (|p: Seq<char>| g(f(p))));
    let a = m.map_paths(f).map_paths(g);
    let b = m.map_paths(h);
    assert forall|i: int| 0 <= i < m.scenes.len() implies #[trigger] a.scenes[i] == b.scenes[i] by {
        lemma_table_compose(m.scenes[i].1.entities, f, g);
    }
    assert(a.scenes =~= b.scenes);
    lemma_table_compose(m.shared_entities, f, g);
    assert forall|p: Seq<char>|
        components(project).len() > 0 && components(moved_to).len() > 0 && relative_text(p, project) is Some implies
        components(#[trigger] h(p)) == components(moved_to) + strip_prefix(p, project)->0 by {
        law_relative_then_moved(p, project, moved_to);
    }
}

} // verus!
