//! What the physics simulation reads from entities and writes back: which
//! entities get a body and with which settings, which ones pull others, and
//! the attribute updates a body's new position gives. The simulation itself
//! (floating point) is the physics engine's.
use vstd::prelude::*;
use crate::ecs::{AttributeValue, Entity, Scene};
use crate::ecs::attribute::{AttributeValueView, F32_HALF, F32_ONE, F32_ZERO};
use crate::ecs::entity::{first_named, float_or, has_named, is_first_named, lemma_first_named, lemma_has_first_named, named, EntityView};
use crate::ecs::tables::{entities_entry, entities_len};

verus! {

/// The boolean value of the attribute with this name, or `default`.
pub open spec fn bool_or(t: Seq<(u128, crate::ecs::attribute::AttributeView)>, name: Seq<char>, default: bool) -> bool {
    match named(t, name) {
        Some(a) => match a.value {
            AttributeValueView::Boolean(b) => b,
            _ => default,
        },
        None => default,
    }
}

/// The vector value of the attribute with this name, if it holds one.
pub open spec fn vector_of(t: Seq<(u128, crate::ecs::attribute::AttributeView)>, name: Seq<char>) -> Option<(u32, u32)> {
    match named(t, name) {
        Some(a) => match a.value {
            AttributeValueView::Vector2(x, y) => Some((x, y)),
            _ => None,
        },
        None => None,
    }
}

/// How an entity's body is set up. Floats are `f32` bit patterns.
#[derive(Clone, Copy, Debug, PartialEq, Eq, Structural)]
pub struct BodySettings {
    pub position_x: u32,
    pub position_y: u32,
    pub is_movable: bool,
    pub affected_by_gravity: bool,
    pub has_collision: bool,
    pub friction: u32,
    pub restitution: u32,
    pub density: u32,
    pub can_rotate: bool,
    /// The `position` attribute that follows the body.
    pub position_attr: Option<u128>,
}

/// The settings of an entity's body: none for an entity with none of
/// `has_gravity`, `has_collision`, `creates_gravity`; otherwise its physics
/// attributes, with defaults for the missing ones (not movable, no gravity,
/// colliding, friction 0.5, no restitution, density 1, no rotation, at the
/// origin).
pub open spec fn body_settings_of(e: EntityView) -> Option<BodySettings> {
    let t = e.attributes;
    if named(t, "has_gravity"@) is None && named(t, "has_collision"@) is None && named(t, "creates_gravity"@) is None {
        None
    } else {
        Some(BodySettings {
            position_x: match vector_of(t, "position"@) {
                Some(p) => p.0,
                None => F32_ZERO,
            },
            position_y: match vector_of(t, "position"@) {
                Some(p) => p.1,
                None => F32_ZERO,
            },
            is_movable: bool_or(t, "is_movable"@, false),
            affected_by_gravity: bool_or(t, "has_gravity"@, false),
            has_collision: bool_or(t, "has_collision"@, true),
            friction: float_or(t, "friction"@, F32_HALF),
            restitution: float_or(t, "restitution"@, F32_ZERO),
            density: float_or(t, "density"@, F32_ONE),
            can_rotate: bool_or(t, "can_rotate"@, false),
            position_attr: match named(t, "position"@) {
                Some(a) => Some(a.id),
                None => None,
            },
        })
    }
}

fn bool_attribute(entity: &Entity, name: &str, default: bool) -> (r: bool)
    ensures
        r == bool_or(entity@.attributes, name@, default),
{
    match entity.get_attribute_by_name(name) {
        Ok(a) => match a.value {
            AttributeValue::Boolean(b) => b,
            _ => default,
        },
        Err(_) => default,
    }
}

fn float_attribute(entity: &Entity, name: &str, default: u32) -> (r: u32)
    ensures
        r == float_or(entity@.attributes, name@, default),
{
    match entity.get_attribute_by_name(name) {
        Ok(a) => match a.value {
            AttributeValue::Float(b) => b,
            _ => default,
        },
        Err(_) => default,
    }
}

fn vector_attribute(entity: &Entity, name: &str) -> (r: Option<(u32, u32)>)
    ensures
        r == vector_of(entity@.attributes, name@),
{
    match entity.get_attribute_by_name(name) {
        Ok(a) => match a.value {
            AttributeValue::Vector2(x, y) => Some((x, y)),
            _ => None,
        },
        Err(_) => None,
    }
}

/// The settings of the entity's body (see `body_settings_of`).
pub fn body_settings(entity: &Entity) -> (r: Option<BodySettings>)
    ensures
        r == body_settings_of(entity@),
{
    let simulated = entity.get_attribute_by_name("has_gravity").is_ok()
        || entity.get_attribute_by_name("has_collision").is_ok()
        || entity.get_attribute_by_name("creates_gravity").is_ok();
    if !simulated {
        return None;
    }
    let position = match vector_attribute(entity, "position") {
        Some(p) => p,
        None => (F32_ZERO, F32_ZERO),
    };
    let position_attr = match entity.get_attribute_by_name("position") {
        Ok(a) => Some(a.id),
        Err(_) => None,
    };
    Some(BodySettings {
        position_x: position.0,
        position_y: position.1,
        is_movable: bool_attribute(entity, "is_movable", false),
        affected_by_gravity: bool_attribute(entity, "has_gravity", false),
        has_collision: bool_attribute(entity, "has_collision", true),
        friction: float_attribute(entity, "friction", F32_HALF),
        restitution: float_attribute(entity, "restitution", F32_ZERO),
        density: float_attribute(entity, "density", F32_ONE),
        can_rotate: bool_attribute(entity, "can_rotate", false),
        position_attr,
    })
}

/// The first attribute named `name` holds `v`.
pub open spec fn first_holds(t: Seq<(u128, crate::ecs::attribute::AttributeView)>, name: Seq<char>, v: AttributeValueView) -> bool {
    exists|i: int| is_first_named(t, name, i) && t[i].1.value == v
}

proof fn lemma_first_holds(t: Seq<(u128, crate::ecs::attribute::AttributeView)>, name: Seq<char>, v: AttributeValueView)
    requires
        first_holds(t, name, v),
    ensures
        named(t, name) matches Some(a) && a.value == v,
{
    let i = choose|i: int| is_first_named(t, name, i) && t[i].1.value == v;
    lemma_first_named(t, name, i);
}

/// An entity gets a body exactly when it has a `has_gravity`,
/// `has_collision` or `creates_gravity` attribute. Each setting of the body
/// is then the value of the entity's (first) attribute of that name when it
/// holds a value of the setting's type, and otherwise the default: position
/// (0, 0), not movable, no gravity, colliding, friction 0.5, restitution 0,
/// density 1, no rotation.
pub proof fn law_body_follows_attributes(e: EntityView, b: bool, f: u32, x: u32, y: u32, v: AttributeValueView)
    ensures
        body_settings_of(e) is Some <==> (has_named(e.attributes, "has_gravity"@)
            || has_named(e.attributes, "has_collision"@) || has_named(e.attributes, "creates_gravity"@)),
        body_settings_of(e) matches Some(s) ==> {
            let t = e.attributes;
            &&& first_holds(t, "has_collision"@, AttributeValueView::Boolean(b)) ==> s.has_collision == b
            &&& first_holds(t, "has_gravity"@, AttributeValueView::Boolean(b)) ==> s.affected_by_gravity == b
            &&& first_holds(t, "is_movable"@, AttributeValueView::Boolean(b)) ==> s.is_movable == b
            &&& first_holds(t, "can_rotate"@, AttributeValueView::Boolean(b)) ==> s.can_rotate == b
            &&& first_holds(t, "friction"@, AttributeValueView::Float(f)) ==> s.friction == f
            &&& first_holds(t, "restitution"@, AttributeValueView::Float(f)) ==> s.restitution == f
            &&& first_holds(t, "density"@, AttributeValueView::Float(f)) ==> s.density == f
            &&& first_holds(t, "position"@, AttributeValueView::Vector2(x, y)) ==> s.position_x == x && s.position_y == y
            &&& (first_holds(t, "has_collision"@, v) && !(v is Boolean)) || !has_named(t, "has_collision"@) ==> s.has_collision
            &&& (first_holds(t, "has_gravity"@, v) && !(v is Boolean)) || !has_named(t, "has_gravity"@) ==> !s.affected_by_gravity
            &&& (first_holds(t, "is_movable"@, v) && !(v is Boolean)) || !has_named(t, "is_movable"@) ==> !s.is_movable
            &&& (first_holds(t, "can_rotate"@, v) && !(v is Boolean)) || !has_named(t, "can_rotate"@) ==> !s.can_rotate
            &&& (first_holds(t, "friction"@, v) && !(v is Float)) || !has_named(t, "friction"@) ==> s.friction == F32_HALF
            &&& (first_holds(t, "restitution"@, v) && !(v is Float)) || !has_named(t, "restitution"@) ==> s.restitution == F32_ZERO
            &&& (first_holds(t, "density"@, v) && !(v is Float)) || !has_named(t, "density"@) ==> s.density == F32_ONE
            &&& (first_holds(t, "position"@, v) && !(v is Vector2)) || !has_named(t, "position"@)
                ==> s.position_x == F32_ZERO && s.position_y == F32_ZERO
            &&& has_named(t, "position"@) <==> s.position_attr is Some
        },
{
    let t = e.attributes;
    if first_holds(t, "has_collision"@, AttributeValueView::Boolean(b)) { lemma_first_holds(t, "has_collision"@, AttributeValueView::Boolean(b)); }
    if first_holds(t, "has_gravity"@, AttributeValueView::Boolean(b)) { lemma_first_holds(t, "has_gravity"@, AttributeValueView::Boolean(b)); }
    if first_holds(t, "is_movable"@, AttributeValueView::Boolean(b)) { lemma_first_holds(t, "is_movable"@, AttributeValueView::Boolean(b)); }
    if first_holds(t, "can_rotate"@, AttributeValueView::Boolean(b)) { lemma_first_holds(t, "can_rotate"@, AttributeValueView::Boolean(b)); }
    if first_holds(t, "friction"@, AttributeValueView::Float(f)) { lemma_first_holds(t, "friction"@, AttributeValueView::Float(f)); }
    if first_holds(t, "restitution"@, AttributeValueView::Float(f)) { lemma_first_holds(t, "restitution"@, AttributeValueView::Float(f)); }
    if first_holds(t, "density"@, AttributeValueView::Float(f)) { lemma_first_holds(t, "density"@, AttributeValueView::Float(f)); }
    if first_holds(t, "position"@, AttributeValueView::Vector2(x, y)) { lemma_first_holds(t, "position"@, AttributeValueView::Vector2(x, y)); }
    if first_holds(t, "has_collision"@, v) { lemma_first_holds(t, "has_collision"@, v); }
    if first_holds(t, "has_gravity"@, v) { lemma_first_holds(t, "has_gravity"@, v); }
    if first_holds(t, "is_movable"@, v) { lemma_first_holds(t, "is_movable"@, v); }
    if first_holds(t, "can_rotate"@, v) { lemma_first_holds(t, "can_rotate"@, v); }
    if first_holds(t, "friction"@, v) { lemma_first_holds(t, "friction"@, v); }
    if first_holds(t, "restitution"@, v) { lemma_first_holds(t, "restitution"@, v); }
    if first_holds(t, "density"@, v) { lemma_first_holds(t, "density"@, v); }
    if first_holds(t, "position"@, v) { lemma_first_holds(t, "position"@, v); }
}

/// The views of a list of attribute updates.
pub open spec fn update_views(v: Seq<(u128, u128, AttributeValue)>) -> Seq<(u128, u128, AttributeValueView)> {
    v.map_values(|u: (u128, u128, AttributeValue)| (u.0, u.1, u.2@))
}

/// The updates a body's new position `(x, y)` gives: the entity's `position`
/// attribute, then its `x` and `y` attributes when the entity is there and
/// has them.
pub open spec fn position_updates_of(
    entity_id: u128,
    position_attr: u128,
    entity: Option<EntityView>,
    x: u32,
    y: u32,
) -> Seq<(u128, u128, AttributeValueView)> {
    let head = seq![(entity_id, position_attr, AttributeValueView::Vector2(x, y))];
    match entity {
        None => head,
        Some(e) => {
            let xs = match named(e.attributes, "x"@) {
                Some(a) => seq![(entity_id, a.id, AttributeValueView::Float(x))],
                None => Seq::empty(),
            };
            let ys = match named(e.attributes, "y"@) {
                Some(a) => seq![(entity_id, a.id, AttributeValueView::Float(y))],
                None => Seq::empty(),
            };
            head + xs + ys
        },
    }
}

/// A body's new position `(x, y)` is written back to its entity: first to
/// the body's `position` attribute as a vector, then, when the entity is
/// there, to its (first) `x` attribute as `x` and its (first) `y` attribute
/// as `y`, each present exactly when the entity has such an attribute.
pub proof fn law_position_write_back(
    entity_id: u128,
    position_attr: u128,
    entity: Option<EntityView>,
    x: u32,
    y: u32,
    i: int,
    j: int,
)
    ensures
        ({
            let u = position_updates_of(entity_id, position_attr, entity, x, y);
            &&& u.len() >= 1
            &&& u[0] == (entity_id, position_attr, AttributeValueView::Vector2(x, y))
            &&& entity is None ==> u.len() == 1
            &&& entity matches Some(e) ==> {
                &&& u.len() == 1 + (if has_named(e.attributes, "x"@) { 1int } else { 0 })
                    + (if has_named(e.attributes, "y"@) { 1int } else { 0 })
                &&& is_first_named(e.attributes, "x"@, i)
                    ==> u[1] == (entity_id, e.attributes[i].1.id, AttributeValueView::Float(x))
                &&& is_first_named(e.attributes, "y"@, j)
                    ==> u[u.len() - 1] == (entity_id, e.attributes[j].1.id, AttributeValueView::Float(y))
            }
        }),
{
    if let Some(e) = entity {
        if is_first_named(e.attributes, "x"@, i) {
            lemma_first_named(e.attributes, "x"@, i);
        }
        if is_first_named(e.attributes, "y"@, j) {
            lemma_first_named(e.attributes, "y"@, j);
        }
    }
}

/// The attribute updates for a body's new position (see
/// `position_updates_of`).
pub fn position_updates(entity_id: u128, position_attr: u128, entity: Option<&Entity>, x: u32, y: u32) -> (r: Vec<
    (u128, u128, AttributeValue),
>)
    ensures
        update_views(r@) == position_updates_of(
            entity_id,
            position_attr,
            match entity {
                Some(e) => Some(e@),
                None => None,
            },
            x,
            y,
        ),
{
    let mut r: Vec<(u128, u128, AttributeValue)> = Vec::new();
    r.push((entity_id, position_attr, AttributeValue::Vector2(x, y)));
    let ghost head = update_views(r@);
    assert(head =~= seq![(entity_id, position_attr, AttributeValueView::Vector2(x, y))]);
    if let Some(e) = entity {
        let ghost r0 = r@;
        match e.get_attribute_by_name("x") {
            Ok(a) => {
                r.push((entity_id, a.id, AttributeValue::Float(x)));
            },
            Err(_) => {},
        }
        let ghost r1 = r@;
        proof {
            assert(update_views(r1) =~= head + match named(e@.attributes, "x"@) {
                Some(a) => seq![(entity_id, a.id, AttributeValueView::Float(x))],
                None => Seq::empty(),
            });
        }
        match e.get_attribute_by_name("y") {
            Ok(a) => {
                r.push((entity_id, a.id, AttributeValue::Float(y)));
            },
            Err(_) => {},
        }
        proof {
            assert(update_views(r@) =~= update_views(r1) + match named(e@.attributes, "y"@) {
                Some(a) => seq![(entity_id, a.id, AttributeValueView::Float(y))],
                None => Seq::empty(),
            });
        }
    }
    r
}

/// The entities of a table that pull others: those whose `creates_gravity`
/// is true and whose `position` is a vector, with that position, in order.
pub open spec fn gravity_sources_of(t: Seq<(u128, EntityView)>) -> Seq<(u128, (u32, u32))>
    decreases t.len(),
{
    if t.len() == 0 {
        Seq::empty()
    } else {
        let rest = gravity_sources_of(t.drop_last());
        let e = t.last().1;
        if bool_or(e.attributes, "creates_gravity"@, false) && named(e.attributes, "creates_gravity"@) is Some
            && vector_of(e.attributes, "position"@) is Some {
            rest.push((e.id, vector_of(e.attributes, "position"@)->0))
        } else {
            rest
        }
    }
}

/// The entities of a table that a source pulls: those other than the
/// source whose `has_gravity` is true, in order.
pub open spec fn gravity_targets_of(t: Seq<(u128, EntityView)>, source: u128) -> Seq<u128>
    decreases t.len(),
{
    if t.len() == 0 {
        Seq::empty()
    } else {
        let rest = gravity_targets_of(t.drop_last(), source);
        let e = t.last().1;
        if e.id != source && bool_or(e.attributes, "has_gravity"@, false) {
            rest.push(e.id)
        } else {
            rest
        }
    }
}

/// A named value found by lookup is the value of the first attribute of that
/// name, and the other way round.
proof fn lemma_named_first_holds(t: Seq<(u128, crate::ecs::attribute::AttributeView)>, name: Seq<char>, v: AttributeValueView)
    ensures
        (named(t, name) matches Some(a) && a.value == v) <==> first_holds(t, name, v),
{
    if first_holds(t, name, v) {
        lemma_first_holds(t, name, v);
    }
    if named(t, name) matches Some(a) && a.value == v {
        lemma_has_first_named(t, name);
        let i = first_named(t, name);
        assert(is_first_named(t, name, i) && t[i].1.value == v);
    }
}

/// The entities a gravity source pulls are exactly the other entities of
/// the scene whose (first) `has_gravity` attribute is true.
pub proof fn law_gravity_targets(t: Seq<(u128, EntityView)>, source: u128, id: u128)
    ensures
        gravity_targets_of(t, source).contains(id) <==> exists|i: int| 0 <= i < t.len() && #[trigger] t[i].1.id == id
            && id != source && first_holds(t[i].1.attributes, "has_gravity"@, AttributeValueView::Boolean(true)),
    decreases t.len(),
{
    if t.len() > 0 {
        let p = t.drop_last();
        law_gravity_targets(p, source, id);
        let e = t.last().1;
        lemma_named_first_holds(e.attributes, "has_gravity"@, AttributeValueView::Boolean(true));
        let rest = gravity_targets_of(p, source);
        if exists|i: int| 0 <= i < t.len() && #[trigger] t[i].1.id == id
            && id != source && first_holds(t[i].1.attributes, "has_gravity"@, AttributeValueView::Boolean(true)) {
            let i = choose|i: int| 0 <= i < t.len() && #[trigger] t[i].1.id == id
                && id != source && first_holds(t[i].1.attributes, "has_gravity"@, AttributeValueView::Boolean(true));
            if i < p.len() {
                assert(p[i] == t[i]);
                let k = choose|k: int| 0 <= k < rest.len() && rest[k] == id;
                if e.id != source && bool_or(e.attributes, "has_gravity"@, false) {
                    assert(rest.push(e.id)[k] == id);
                }
            } else {
                assert(t[i] == t.last());
                assert(rest.push(e.id)[rest.len() as int] == id);
            }
        }
        if gravity_targets_of(t, source).contains(id) {
            let out = gravity_targets_of(t, source);
            let k = choose|k: int| 0 <= k < out.len() && out[k] == id;
            if k < rest.len() {
                assert(rest[k] == id);
                let i = choose|i: int| 0 <= i < p.len() && #[trigger] p[i].1.id == id
                    && id != source && first_holds(p[i].1.attributes, "has_gravity"@, AttributeValueView::Boolean(true));
                assert(t[i] == p[i]);
            } else {
                assert(t[t.len() - 1].1.id == id);
            }
        }
    }
}

/// The gravity sources of a scene are exactly its entities whose (first)
/// `creates_gravity` attribute is true and whose (first) `position` is a
/// vector, each with that position.
pub proof fn law_gravity_sources(t: Seq<(u128, EntityView)>, id: u128, x: u32, y: u32)
    ensures
        gravity_sources_of(t).contains((id, (x, y))) <==> exists|i: int| 0 <= i < t.len() && #[trigger] t[i].1.id == id
            && first_holds(t[i].1.attributes, "creates_gravity"@, AttributeValueView::Boolean(true))
            && first_holds(t[i].1.attributes, "position"@, AttributeValueView::Vector2(x, y)),
    decreases t.len(),
{
    if t.len() > 0 {
        let p = t.drop_last();
        law_gravity_sources(p, id, x, y);
        let e = t.last().1;
        lemma_named_first_holds(e.attributes, "creates_gravity"@, AttributeValueView::Boolean(true));
        lemma_named_first_holds(e.attributes, "position"@, AttributeValueView::Vector2(x, y));
        let rest = gravity_sources_of(p);
        let ok = bool_or(e.attributes, "creates_gravity"@, false) && named(e.attributes, "creates_gravity"@) is Some
            && vector_of(e.attributes, "position"@) is Some;
        if exists|i: int| 0 <= i < t.len() && #[trigger] t[i].1.id == id
            && first_holds(t[i].1.attributes, "creates_gravity"@, AttributeValueView::Boolean(true))
            && first_holds(t[i].1.attributes, "position"@, AttributeValueView::Vector2(x, y)) {
            let i = choose|i: int| 0 <= i < t.len() && #[trigger] t[i].1.id == id
                && first_holds(t[i].1.attributes, "creates_gravity"@, AttributeValueView::Boolean(true))
                && first_holds(t[i].1.attributes, "position"@, AttributeValueView::Vector2(x, y));
            if i < p.len() {
                assert(p[i] == t[i]);
                let k = choose|k: int| 0 <= k < rest.len() && rest[k] == (id, (x, y));
                if ok {
                    assert(rest.push((e.id, vector_of(e.attributes, "position"@)->0))[k] == (id, (x, y)));
                }
            } else {
                assert(t[i] == t.last());
                assert(rest.push((e.id, vector_of(e.attributes, "position"@)->0))[rest.len() as int] == (id, (x, y)));
            }
        }
        if gravity_sources_of(t).contains((id, (x, y))) {
            let out = gravity_sources_of(t);
            let k = choose|k: int| 0 <= k < out.len() && out[k] == (id, (x, y));
            if k < rest.len() {
                assert(rest[k] == (id, (x, y)));
                let i = choose|i: int| 0 <= i < p.len() && #[trigger] p[i].1.id == id
                    && first_holds(p[i].1.attributes, "creates_gravity"@, AttributeValueView::Boolean(true))
                    && first_holds(p[i].1.attributes, "position"@, AttributeValueView::Vector2(x, y));
                assert(t[i] == p[i]);
            } else {
                assert(t[t.len() - 1].1.id == id);
            }
        }
    }
}

/// The scene's gravity sources (see `gravity_sources_of`).
pub fn gravity_sources(scene: &Scene) -> (r: Vec<(u128, (u32, u32))>)
    ensures
        r@ == gravity_sources_of(scene@.entities),
{
    let n = entities_len(&scene.entities);
    let ghost t = scene@.entities;
    let mut r: Vec<(u128, (u32, u32))> = Vec::new();
    let mut i: usize = 0;
    while i < n
        invariant
            t == scene@.entities,
            n == t.len(),
            i <= n,
            r@ == gravity_sources_of(t.take(i as int)),
        decreases n - i,
    {
        let (_, e) = entities_entry(&scene.entities, i);
        proof {
            assert(t.take(i + 1).drop_last() =~= t.take(i as int));
            assert(t.take(i + 1).last() == t[i as int]);
        }
        let creates = e.get_attribute_by_name("creates_gravity").is_ok() && bool_attribute(e, "creates_gravity", false);
        if creates {
            match vector_attribute(e, "position") {
                Some(p) => r.push((e.id, p)),
                None => {},
            }
        }
        i = i + 1;
    }
    proof {
        assert(t.take(n as int) =~= t);
    }
    r
}

/// The entities the source pulls (see `gravity_targets_of`).
pub fn gravity_targets(scene: &Scene, source: u128) -> (r: Vec<u128>)
    ensures
        r@ == gravity_targets_of(scene@.entities, source),
{
    let n = entities_len(&scene.entities);
    let ghost t = scene@.entities;
    let mut r: Vec<u128> = Vec::new();
    let mut i: usize = 0;
    while i < n
        invariant
            t == scene@.entities,
            n == t.len(),
            i <= n,
            r@ == gravity_targets_of(t.take(i as int), source),
        decreases n - i,
    {
        let (_, e) = entities_entry(&scene.entities, i);
        proof {
            assert(t.take(i + 1).drop_last() =~= t.take(i as int));
            assert(t.take(i + 1).last() == t[i as int]);
        }
        if e.id != source && bool_attribute(e, "has_gravity", false) {
            r.push(e.id);
        }
        i = i + 1;
    }
    proof {
        assert(t.take(n as int) =~= t);
    }
    r
}

} // verus!
