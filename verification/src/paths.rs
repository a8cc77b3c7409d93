//! Paths as texts with `/` separators, read component by component the way
//! Unix paths are: a leading `/` is the root, empty and `.` parts are
//! skipped (a leading `.` of a relative path stays), `..` is the parent.
use vstd::prelude::*;
use crate::text::{joined, owned, texts};

verus! {

/// A component of a path.
pub enum Component {
    Root,
    Cur,
    Parent,
    Normal(Seq<char>),
}

/// The `/`-separated parts of a text (`"a//b"` has parts `a`, ``, `b`).
pub open spec fn parts(s: Seq<char>) -> Seq<Seq<char>>
    decreases s.len(),
{
    if s.len() == 0 {
        seq![Seq::empty()]
    } else {
        let rest = parts(s.drop_last());
        if s.last() == '/' {
            rest.push(Seq::empty())
        } else {
            rest.update(rest.len() - 1, rest.last().push(s.last()))
        }
    }
}

/// The component that the part at position `i` gives, if any.
pub open spec fn part_component(p: Seq<char>, i: int) -> Option<Component> {
    if p.len() == 0 {
        None
    } else if p == seq!['.'] {
        if i == 0 { Some(Component::Cur) } else { None }
    } else if p == seq!['.', '.'] {
        Some(Component::Parent)
    } else {
        Some(Component::Normal(p))
    }
}

/// The components of the parts from position `from` on.
pub open spec fn part_components(ps: Seq<Seq<char>>, from: int) -> Seq<Component>
    decreases ps.len() - from,
{
    if from >= ps.len() || from < 0 {
        Seq::empty()
    } else {
        let rest = part_components(ps, from + 1);
        match part_component(ps[from], from) {
            Some(c) => seq![c] + rest,
            None => rest,
        }
    }
}

/// The components of a path.
pub open spec fn components(s: Seq<char>) -> Seq<Component> {
    let root = if s.len() > 0 && s[0] == '/' { seq![Component::Root] } else { Seq::empty() };
    root + part_components(parts(s), 0)
}

/// The text of a component.
pub open spec fn component_text(c: Component) -> Seq<char> {
    match c {
        Component::Root => seq!['/'],
        Component::Cur => seq!['.'],
        Component::Parent => seq!['.', '.'],
        Component::Normal(p) => p,
    }
}

/// Texts joined with `/` between them.
pub open spec fn join_texts(ts: Seq<Seq<char>>) -> Seq<char>
    decreases ts.len(),
{
    if ts.len() == 0 {
        Seq::empty()
    } else if ts.len() == 1 {
        ts[0]
    } else {
        join_texts(ts.drop_last()) + seq!['/'] + ts.last()
    }
}

/// The path is absolute: it starts at the root.
pub open spec fn is_absolute(s: Seq<char>) -> bool {
    s.len() > 0 && s[0] == '/'
}

/// `base` joined with `rel`: an absolute `rel` replaces `base`; otherwise a
/// separator goes between them unless `base` is empty or already ends with one.
pub open spec fn join_path(base: Seq<char>, rel: Seq<char>) -> Seq<char> {
    if is_absolute(rel) {
        rel
    } else if base.len() == 0 || base.last() == '/' {
        base + rel
    } else {
        base + seq!['/'] + rel
    }
}

/// The components of `path` after those of `base`, when `base`'s
/// components begin `path`'s.
pub open spec fn strip_prefix(path: Seq<char>, base: Seq<char>) -> Option<Seq<Component>> {
    let pc = components(path);
    let bc = components(base);
    if bc.len() <= pc.len() && pc.take(bc.len() as int) == bc {
        Some(pc.skip(bc.len() as int))
    } else {
        None
    }
}

/// The path of `path` relative to `base`, with `/` separators, when `path`
/// lies under `base`.
pub open spec fn relative_text(path: Seq<char>, base: Seq<char>) -> Option<Seq<char>> {
    match strip_prefix(path, base) {
        Some(cs) => Some(join_texts(cs.map_values(|c: Component| component_text(c)))),
        None => None,
    }
}

/// The last component's text when it is a name (not the root, `.` or `..`).
pub open spec fn file_name(path: Seq<char>) -> Option<Seq<char>> {
    let cs = components(path);
    if cs.len() > 0 && cs.last() is Normal {
        Some(cs.last()->Normal_0)
    } else {
        None
    }
}

// ------------------------------------------------------------ exec

/// The executable form of a component.
#[derive(Debug)]
pub enum PathComponent {
    Root,
    Cur,
    Parent,
    Normal(String),
}

impl View for PathComponent {
    type V = Component;

    open spec fn view(&self) -> Component {
        match self {
            PathComponent::Root => Component::Root,
            PathComponent::Cur => Component::Cur,
            PathComponent::Parent => Component::Parent,
            PathComponent::Normal(s) => Component::Normal(s@),
        }
    }
}

/// The views of a list of components.
pub open spec fn component_views(v: Seq<PathComponent>) -> Seq<Component> {
    v.map_values(|c: PathComponent| c@)
}

/// Is the text exactly `.`?
fn is_dot(p: &Vec<char>) -> (r: bool)
    ensures
        r == (p@ == seq!['.']),
{
    if p.len() == 1 && p[0] == '.' {
        assert(p@ =~= seq!['.']);
        true
    } else {
        false
    }
}

/// Is the text exactly `..`?
fn is_dot_dot(p: &Vec<char>) -> (r: bool)
    ensures
        r == (p@ == seq!['.', '.']),
{
    if p.len() == 2 && p[0] == '.' && p[1] == '.' {
        assert(p@ =~= seq!['.', '.']);
        true
    } else {
        false
    }
}

/// The string of a sequence of characters, from std's `FromIterator<char>`.
#[verifier::external_body]
pub(crate) fn chars_to_string(cs: &Vec<char>) -> (s: String)
    ensures
        s@ == cs@,
{
    cs.iter().collect()
}

/// The `/`-separated parts of a text.
pub fn split_parts(s: &str) -> (r: Vec<Vec<char>>)
    ensures
        r@.map_values(|p: Vec<char>| p@) == parts(s@),
{
    let n = s.unicode_len();
    let mut done: Vec<Vec<char>> = Vec::new();
    let mut cur: Vec<char> = Vec::new();
    let mut i: usize = 0;
    proof {
        assert(s@.take(0) =~= Seq::<char>::empty());
        assert(done@.map_values(|p: Vec<char>| p@).push(cur@) =~= parts(s@.take(0)));
    }
    while i < n
        invariant
            n == s@.len(),
            i <= n,
            done@.map_values(|p: Vec<char>| p@).push(cur@) == parts(s@.take(i as int)),
        decreases n - i,
    {
        let c = s.get_char(i);
        let ghost prev = s@.take(i as int);
        proof {
            assert(s@.take(i + 1).drop_last() =~= prev);
            assert(s@.take(i + 1).last() == c);
        }
        if c == '/' {
            let ghost d0 = done@.map_values(|p: Vec<char>| p@);
            let finished = cur;
            done.push(finished);
            cur = Vec::new();
            proof {
                assert(done@.map_values(|p: Vec<char>| p@) =~= d0.push(finished@));
                assert(done@.map_values(|p: Vec<char>| p@).push(cur@) =~= parts(prev).push(Seq::empty()));
            }
        } else {
            let ghost c0 = cur@;
            cur.push(c);
            proof {
                let d = done@.map_values(|p: Vec<char>| p@);
                assert(d.push(cur@) =~= d.push(c0).update(d.len() as int, c0.push(c)));
            }
        }
        i = i + 1;
    }
    proof {
        assert(s@.take(n as int) =~= s@);
    }
    let ghost d1 = done@.map_values(|p: Vec<char>| p@);
    done.push(cur);
    proof {
        assert(done@.map_values(|p: Vec<char>| p@) =~= d1.push(cur@));
    }
    done
}

/// The components of a path.
pub fn path_components(s: &str) -> (r: Vec<PathComponent>)
    ensures
        component_views(r@) == components(s@),
{
    let ps = split_parts(s);
    let ghost pv = ps@.map_values(|p: Vec<char>| p@);
    let mut out: Vec<PathComponent> = Vec::new();
    let rooted = s.unicode_len() > 0 && s.get_char(0) == '/';
    if rooted {
        out.push(PathComponent::Root);
    }
    let ghost root = if rooted { seq![Component::Root] } else { Seq::<Component>::empty() };
    // Walk the parts from the last one back, so each step prepends.
    let mut rev: Vec<PathComponent> = Vec::new();
    let mut i: usize = ps.len();
    proof {
        assert(component_views(rev@) =~= part_components(pv, i as int));
    }
    while i > 0
        invariant
            i <= ps.len(),
            pv == ps@.map_values(|p: Vec<char>| p@),
            pv.len() == ps.len(),
            component_views(rev@).reverse() == part_components(pv, i as int),
        decreases i,
    {
        let k = i - 1;
        let p = &ps[k];
        let ghost before = component_views(rev@);
        proof {
            assert(pv[k as int] == p@);
        }
        if p.len() == 0 {
        } else if is_dot(p) {
            if k == 0 {
                rev.push(PathComponent::Cur);
                proof {
                    assert(component_views(rev@) =~= before.push(Component::Cur));
                    assert(component_views(rev@).reverse() =~= seq![Component::Cur] + before.reverse());
                }
            }
        } else if is_dot_dot(p) {
            rev.push(PathComponent::Parent);
            proof {
                assert(component_views(rev@) =~= before.push(Component::Parent));
                assert(component_views(rev@).reverse() =~= seq![Component::Parent] + before.reverse());
            }
        } else {
            let name = chars_to_string(p);
            rev.push(PathComponent::Normal(name));
            proof {
                assert(component_views(rev@) =~= before.push(Component::Normal(p@)));
                assert(component_views(rev@).reverse() =~= seq![Component::Normal(p@)] + before.reverse());
            }
        }
        i = k;
    }
    let ghost tail = component_views(rev@).reverse();
    let ghost head = component_views(out@);
    assert(head == root);
    while rev.len() > 0
        invariant
            component_views(out@) + component_views(rev@).reverse() == root + tail,
        decreases rev.len(),
    {
        let ghost r0 = component_views(rev@);
        let ghost o0 = component_views(out@);
        let c = match rev.pop() {
            Some(c) => c,
            None => PathComponent::Root,
        };
        proof {
            assert(r0 =~= component_views(rev@).push(c@));
            assert(r0.reverse() =~= seq![c@] + component_views(rev@).reverse());
        }
        out.push(c);
        proof {
            assert(component_views(out@) =~= o0.push(c@));
            assert(component_views(out@) + component_views(rev@).reverse() =~= o0 + r0.reverse());
        }
    }
    assert(component_views(out@) =~= root + tail);
    out
}


/// Are two components the same?
fn same_component(a: &PathComponent, b: &PathComponent) -> (r: bool)
    ensures
        r == (a@ == b@),
{
    match (a, b) {
        (PathComponent::Root, PathComponent::Root) => true,
        (PathComponent::Cur, PathComponent::Cur) => true,
        (PathComponent::Parent, PathComponent::Parent) => true,
        (PathComponent::Normal(x), PathComponent::Normal(y)) => crate::text::text_eq(x.as_str(), y.as_str()),
        _ => false,
    }
}

/// Do two paths have the same components (how `Path`'s `==` compares)?
pub fn paths_equal(a: &str, b: &str) -> (r: bool)
    ensures
        r == (components(a@) == components(b@)),
{
    let ca = path_components(a);
    let cb = path_components(b);
    let n = ca.len();
    if n != cb.len() {
        proof {
            assert(component_views(ca@).len() != component_views(cb@).len());
        }
        return false;
    }
    let mut i: usize = 0;
    while i < n
        invariant
            n == ca.len(),
            n == cb.len(),
            i <= n,
            component_views(ca@) == components(a@),
            component_views(cb@) == components(b@),
            forall|j: int| 0 <= j < i ==> ca@[j]@ == cb@[j]@,
        decreases n - i,
    {
        if !same_component(&ca[i], &cb[i]) {
            proof {
                assert(component_views(ca@)[i as int] == ca@[i as int]@);
                assert(component_views(cb@)[i as int] == cb@[i as int]@);
                assert(component_views(ca@) != component_views(cb@));
            }
            return false;
        }
        i = i + 1;
    }
    assert(component_views(ca@) =~= component_views(cb@));
    true
}

/// Does the list hold a path equal to `p`, compared component by component
/// as `Path`'s `==` does?
pub open spec fn has_path(list: Seq<Seq<char>>, p: Seq<char>) -> bool {
    exists|i: int| 0 <= i < list.len() && components(#[trigger] list[i]) == components(p)
}

/// The paths of the list that are not equal to `p` (as `Path`'s `==`
/// compares), in order.
pub open spec fn without_path(list: Seq<Seq<char>>, p: Seq<char>) -> Seq<Seq<char>> {
    list.filter(|q: Seq<char>| components(q) != components(p))
}

/// Is a path equal to `p` among those of `v`?
pub fn paths_contain(v: &Vec<String>, p: &str) -> (r: bool)
    ensures
        r == has_path(texts(v@), p@),
{
    let mut i: usize = 0;
    while i < v.len()
        invariant
            i <= v.len(),
            forall|j: int| 0 <= j < i ==> components(v@[j]@) != components(p@),
        decreases v.len() - i,
    {
        if paths_equal(v[i].as_str(), p) {
            assert(texts(v@)[i as int] == v@[i as int]@);
            return true;
        }
        i = i + 1;
    }
    assert forall|j: int| 0 <= j < texts(v@).len() implies components(#[trigger] texts(v@)[j]) != components(p@) by {
        assert(texts(v@)[j] == v@[j]@);
    }
    false
}

/// The paths of `v` other than those equal to `p`, in order.
pub fn paths_without(v: &Vec<String>, p: &str) -> (r: Vec<String>)
    ensures
        texts(r@) == without_path(texts(v@), p@),
{
    let ghost pred = |q: Seq<char>| components(q) != components(p@);
    let mut r: Vec<String> = Vec::new();
    let mut i: usize = 0;
    while i < v.len()
        invariant
            i <= v.len(),
            pred == (|q: Seq<char>| components(q) != components(p@)),
            texts(r@) == texts(v@.subrange(0, i as int)).filter(pred),
        decreases v.len() - i,
    {
        let ghost before = v@.subrange(0, i as int);
        let ghost r_before = r@;
        proof {
            assert(v@.subrange(0, i + 1) =~= before.push(v@[i as int]));
            assert(texts(before.push(v@[i as int])) =~= texts(before).push(v@[i as int]@));
            texts(before).lemma_filter_push(v@[i as int]@, pred);
        }
        if !paths_equal(v[i].as_str(), p) {
            r.push(v[i].clone());
            assert(texts(r@) =~= texts(r_before).push(v@[i as int]@));
        }
        i = i + 1;
    }
    assert(v@.subrange(0, v.len() as int) =~= v@);
    r
}

/// The text of a component.
fn component_string(c: &PathComponent) -> (r: String)
    ensures
        r@ == component_text(c@),
{
    proof {
        lemma_literal_texts();
    }
    match c {
        PathComponent::Root => owned("/"),
        PathComponent::Cur => owned("."),
        PathComponent::Parent => owned(".."),
        PathComponent::Normal(s) => s.clone(),
    }
}

proof fn lemma_literal_texts()
    ensures
        "/"@ == seq!['/'],
        "."@ == seq!['.'],
        ".."@ == seq!['.', '.'],
        "/assets/"@ == seq!['/', 'a', 's', 's', 'e', 't', 's', '/'],
{
    reveal_strlit("/");
    reveal_strlit(".");
    reveal_strlit("..");
    reveal_strlit("/assets/");
    assert("/"@ =~= seq!['/']);
    assert("."@ =~= seq!['.']);
    assert(".."@ =~= seq!['.', '.']);
    assert("/assets/"@ =~= seq!['/', 'a', 's', 's', 'e', 't', 's', '/']);
}

/// `base` joined with `rel` (see `join_path`).
pub fn join_paths(base: &str, rel: &str) -> (r: String)
    ensures
        r@ == join_path(base@, rel@),
{
    proof {
        lemma_literal_texts();
    }
    let n = base.unicode_len();
    if rel.unicode_len() > 0 && rel.get_char(0) == '/' {
        owned(rel)
    } else if n == 0 || base.get_char(n - 1) == '/' {
        joined(base, rel)
    } else {
        crate::text::joined3(base, "/", rel)
    }
}

/// The path of `path` relative to `project_path`, with `/` separators so the
/// stored form is the same on every system; `None` when `path` is not under
/// `project_path`.
pub fn to_relative_string(path: &str, project_path: &str) -> (r: Option<String>)
    ensures
        match r {
            Some(t) => relative_text(path@, project_path@) == Some(t@),
            None => relative_text(path@, project_path@) is None,
        },
{
    proof {
        lemma_literal_texts();
    }
    let pc = path_components(path);
    let bc = path_components(project_path);
    let ghost pv = component_views(pc@);
    let ghost bv = component_views(bc@);
    if bc.len() > pc.len() {
        assert(bv.len() > pv.len());
        assert(components(path@).len() < components(project_path@).len());
        assert(strip_prefix(path@, project_path@) is None);
        return None;
    }
    let mut i: usize = 0;
    while i < bc.len()
        invariant
            pv == component_views(pc@),
            bv == component_views(bc@),
            pv == components(path@),
            bv == components(project_path@),
            bc.len() <= pc.len(),
            i <= bc.len(),
            forall|j: int| 0 <= j < i ==> pv[j] == bv[j],
        decreases bc.len() - i,
    {
        if !same_component(&pc[i], &bc[i]) {
            proof {
                assert(pv.take(bc.len() as int)[i as int] != bv[i as int]);
            }
            return None;
        }
        i = i + 1;
    }
    proof {
        assert(pv.take(bc.len() as int) =~= bv);
    }
    let ghost rest = pv.skip(bc.len() as int);
    let ghost texts = rest.map_values(|c: Component| component_text(c));
    let mut out = String::new();
    let mut k: usize = bc.len();
    proof {
        assert(texts.take(0) =~= Seq::<Seq<char>>::empty());
    }
    while k < pc.len()
        invariant
            pv == component_views(pc@),
            pv == components(path@),
            bv == components(project_path@),
            pv.take(bc.len() as int) == bv,
            bc.len() <= k <= pc.len(),
            rest == pv.skip(bc.len() as int),
            texts == rest.map_values(|c: Component| component_text(c)),
            out@ == join_texts(texts.take(k - bc.len())),
        decreases pc.len() - k,
    {
        let t = component_string(&pc[k]);
        let j = k - bc.len();
        proof {
            lemma_literal_texts();
            assert(texts[j as int] == t@);
            assert(texts.take(j + 1).drop_last() =~= texts.take(j as int));
        }
        if k > bc.len() {
            out.append("/");
        }
        out.append(t.as_str());
        proof {
            if j == 0 {
                assert(texts.take(1) =~= seq![t@]);
                assert(out@ =~= t@);
            } else {
                assert(out@ =~= join_texts(texts.take(j as int)) + seq!['/'] + t@);
            }
        }
        k = k + 1;
    }
    proof {
        assert(texts.take(pc.len() - bc.len()) =~= texts);
    }
    Some(out)
}

/// The last position at which `needle` occurs in `hay` (when it occurs).
pub open spec fn last_occurrence(hay: Seq<char>, needle: Seq<char>) -> int {
    choose|i: int| crate::text::occurs_at(hay, needle, i) && forall|k: int| i < k ==> !crate::text::occurs_at(hay, needle, k)
}

/// The absolute path, on this machine, of a stored resource path: a relative
/// path is joined onto the project root; an absolute one (stored on another
/// machine) is remapped from its last `/assets/` on; other paths stay.
pub open spec fn resolved(stored: Seq<char>, project: Seq<char>) -> Seq<char> {
    if !is_absolute(stored) {
        join_path(project, stored)
    } else if crate::text::occurs_in(stored, "/assets/"@) {
        join_path(project, stored.skip(last_occurrence(stored, "/assets/"@) + 1))
    } else {
        stored
    }
}

/// Turns a stored resource path into an absolute one for this machine.
pub fn resolve_path(stored: &str, project_path: &str) -> (r: String)
    ensures
        r@ == resolved(stored@, project_path@),
{
    let n = stored.unicode_len();
    if !(n > 0 && stored.get_char(0) == '/') {
        return join_paths(project_path, stored);
    }
    match crate::text::text_rfind(stored, "/assets/") {
        Some(pos) => {
            proof {
                lemma_literal_texts();
                let c = last_occurrence(stored@, "/assets/"@);
                assert(crate::text::occurs_at(stored@, "/assets/"@, c));
                if c < pos {
                    assert(!crate::text::occurs_at(stored@, "/assets/"@, pos as int));
                }
                if c > pos {
                    assert(!crate::text::occurs_at(stored@, "/assets/"@, c));
                }
            }
            let tail = stored.substring_char(pos + 1, n);
            proof {
                assert(tail@ =~= stored@.skip(pos + 1));
            }
            join_paths(project_path, tail)
        },
        None => owned(stored),
    }
}

/// The file name of a path: its last component, when that is a name.
pub fn file_name_of(path: &str) -> (r: Option<String>)
    ensures
        match r {
            Some(t) => file_name(path@) == Some(t@),
            None => file_name(path@) is None,
        },
{
    let cs = path_components(path);
    let n = cs.len();
    if n == 0 {
        return None;
    }
    proof {
        assert(component_views(cs@).last() == cs@[n - 1]@);
    }
    match &cs[n - 1] {
        PathComponent::Normal(s) => Some(s.clone()),
        _ => None,
    }
}

// ------------------------------------------------------------ laws

/// The text holds no `/`.
pub open spec fn no_slash(t: Seq<char>) -> bool {
    forall|i: int| 0 <= i < t.len() ==> t[i] != '/'
}

/// A component that can follow the first one: `..`, or a name that is not
/// empty, holds no `/` and is neither `.` nor `..`.
pub open spec fn later_component(c: Component) -> bool {
    match c {
        Component::Parent => true,
        Component::Normal(p) => p.len() > 0 && no_slash(p) && p != seq!['.'] && p != seq!['.', '.'],
        _ => false,
    }
}

/// The components of the parts from position `from` on, read as parts that
/// do not start the path.
pub open spec fn later_components(ps: Seq<Seq<char>>, from: int) -> Seq<Component>
    decreases ps.len() - from,
{
    if from >= ps.len() || from < 0 {
        Seq::empty()
    } else {
        let rest = later_components(ps, from + 1);
        match part_component(ps[from], 1) {
            Some(c) => seq![c] + rest,
            None => rest,
        }
    }
}

proof fn lemma_parts_nonempty(s: Seq<char>)
    ensures
        parts(s).len() >= 1,
    decreases s.len(),
{
    if s.len() > 0 {
        lemma_parts_nonempty(s.drop_last());
    }
}

/// Splitting at a separator splits the parts.
proof fn lemma_parts_join(a: Seq<char>, b: Seq<char>)
    ensures
        parts(a + seq!['/'] + b) == parts(a) + parts(b),
    decreases b.len(),
{
    let s = a + seq!['/'] + b;
    if b.len() == 0 {
        assert(s.drop_last() =~= a);
        assert(parts(b) =~= seq![Seq::<char>::empty()]);
        assert(parts(s) =~= parts(a) + parts(b));
    } else {
        let b1 = b.drop_last();
        assert(s.drop_last() =~= a + seq!['/'] + b1);
        assert(s.last() == b.last());
        lemma_parts_join(a, b1);
        lemma_parts_nonempty(b1);
        let r = parts(a) + parts(b1);
        if b.last() == '/' {
            assert(parts(s) =~= parts(a) + parts(b));
        } else {
            assert(r.last() == parts(b1).last());
            assert(parts(s) =~= parts(a) + parts(b));
        }
    }
}

/// A text without separators is one part.
proof fn lemma_parts_single(t: Seq<char>)
    requires
        no_slash(t),
    ensures
        parts(t) == seq![t],
    decreases t.len(),
{
    if t.len() == 0 {
        assert(t =~= Seq::<char>::empty());
        assert(parts(t) =~= seq![t]);
    } else {
        lemma_parts_single(t.drop_last());
        assert(t.last() != '/');
        assert(t.drop_last().push(t.last()) =~= t);
        assert(parts(t) =~= seq![t]);
    }
}

/// No part holds a separator.
proof fn lemma_parts_no_slash(s: Seq<char>)
    ensures
        forall|i: int| 0 <= i < parts(s).len() ==> no_slash(#[trigger] parts(s)[i]),
    decreases s.len(),
{
    if s.len() > 0 {
        lemma_parts_no_slash(s.drop_last());
        lemma_parts_nonempty(s.drop_last());
        let rest = parts(s.drop_last());
        if s.last() != '/' {
            assert forall|i: int| 0 <= i < parts(s).len() implies no_slash(#[trigger] parts(s)[i]) by {
                if i == rest.len() - 1 {
                    assert(no_slash(rest[i]));
                    assert(parts(s)[i] == rest[i].push(s.last()));
                } else {
                    assert(parts(s)[i] == rest[i]);
                }
            }
        } else {
            assert forall|i: int| 0 <= i < parts(s).len() implies no_slash(#[trigger] parts(s)[i]) by {
                if i < rest.len() {
                    assert(parts(s)[i] == rest[i]);
                }
            }
        }
    }
}

/// Joining texts without separators and splitting them again gives them back.
proof fn lemma_parts_of_joined(ts: Seq<Seq<char>>)
    requires
        ts.len() >= 1,
        forall|i: int| 0 <= i < ts.len() ==> no_slash(#[trigger] ts[i]),
    ensures
        parts(join_texts(ts)) == ts,
    decreases ts.len(),
{
    if ts.len() == 1 {
        lemma_parts_single(ts[0]);
        assert(join_texts(ts) == ts[0]);
        assert(seq![ts[0]] =~= ts);
    } else {
        let t1 = ts.drop_last();
        lemma_parts_of_joined(t1);
        lemma_parts_join(join_texts(t1), ts.last());
        lemma_parts_single(ts.last());
        assert(parts(join_texts(ts)) =~= ts);
    }
}

/// Past the first position, the components of concatenated parts are those
/// of the second list read as later parts.
proof fn lemma_components_tail(ps1: Seq<Seq<char>>, ps2: Seq<Seq<char>>, from: int)
    requires
        ps1.len() >= 1,
        ps1.len() <= from,
    ensures
        part_components(ps1 + ps2, from) == later_components(ps2, from - ps1.len()),
    decreases ps1.len() + ps2.len() - from,
{
    let ps = ps1 + ps2;
    if from < ps.len() {
        lemma_components_tail(ps1, ps2, from + 1);
        assert(ps[from] == ps2[from - ps1.len()]);
    }
}

/// The components of concatenated parts: those of the first list, then the
/// ones from where the second list starts.
proof fn lemma_components_split(ps1: Seq<Seq<char>>, ps2: Seq<Seq<char>>, from: int)
    requires
        0 <= from <= ps1.len(),
    ensures
        part_components(ps1 + ps2, from) == part_components(ps1, from) + part_components(ps1 + ps2, ps1.len() as int),
    decreases ps1.len() - from,
{
    if from < ps1.len() {
        lemma_components_split(ps1, ps2, from + 1);
        assert((ps1 + ps2)[from] == ps1[from]);
        let a = part_components(ps1 + ps2, from + 1);
        let b = part_components(ps1, from + 1);
        let c = part_components(ps1 + ps2, ps1.len() as int);
        match part_component(ps1[from], from) {
            Some(x) => {
                assert(seq![x] + a =~= seq![x] + b + c);
            },
            None => {},
        }
    } else {
        assert(part_components(ps1, from) =~= Seq::<Component>::empty());
        assert(part_components(ps1 + ps2, from) =~= part_components(ps1, from) + part_components(ps1 + ps2, ps1.len() as int));
    }
}

/// Later parts with no separators give later components.
proof fn lemma_later_parts_components(ps: Seq<Seq<char>>, from: int)
    requires
        forall|i: int| 0 <= i < ps.len() ==> no_slash(#[trigger] ps[i]),
        from >= 1,
    ensures
        forall|k: int| 0 <= k < part_components(ps, from).len() ==> later_component(#[trigger] part_components(ps, from)[k]),
    decreases ps.len() - from,
{
    if from < ps.len() {
        lemma_later_parts_components(ps, from + 1);
        let rest = part_components(ps, from + 1);
        match part_component(ps[from], from) {
            Some(c) => {
                assert(later_component(c));
                assert forall|k: int| 0 <= k < part_components(ps, from).len() implies later_component(
                    #[trigger] part_components(ps, from)[k],
                ) by {
                    if k > 0 {
                        assert(part_components(ps, from)[k] == rest[k - 1]);
                    }
                }
            },
            None => {},
        }
    }
}

/// Every component after the first one is a later component.
proof fn lemma_components_later(s: Seq<char>)
    ensures
        forall|k: int| 1 <= k < components(s).len() ==> later_component(#[trigger] components(s)[k]),
{
    let ps = parts(s);
    lemma_parts_no_slash(s);
    lemma_parts_nonempty(s);
    lemma_later_parts_components(ps, 1);
    let tail = part_components(ps, 1);
    let rooted = s.len() > 0 && s[0] == '/';
    if rooted {
        lemma_parts_join(Seq::empty(), s.skip(1));
        assert(Seq::<char>::empty() + seq!['/'] + s.skip(1) =~= s);
        assert(parts(Seq::<char>::empty()) =~= seq![Seq::<char>::empty()]);
        assert(ps[0] == Seq::<char>::empty());
        assert(part_components(ps, 0) == tail);
        assert forall|k: int| 1 <= k < components(s).len() implies later_component(#[trigger] components(s)[k]) by {
            assert(components(s)[k] == tail[k - 1]);
        }
    } else {
        assert(components(s) == part_components(ps, 0));
        assert forall|k: int| 1 <= k < components(s).len() implies later_component(#[trigger] components(s)[k]) by {
            match part_component(ps[0], 0) {
                Some(c) => {
                    assert(components(s)[k] == tail[k - 1]);
                },
                None => {
                    assert(components(s)[k] == tail[k]);
                },
            }
        }
    }
}

/// Later components, written out and read back as later parts, are the same.
proof fn lemma_later_texts(cs: Seq<Component>, from: int)
    requires
        forall|k: int| 0 <= k < cs.len() ==> later_component(#[trigger] cs[k]),
        0 <= from <= cs.len(),
    ensures
        later_components(cs.map_values(|c: Component| component_text(c)), from) == cs.skip(from),
    decreases cs.len() - from,
{
    let ts = cs.map_values(|c: Component| component_text(c));
    if from < cs.len() {
        lemma_later_texts(cs, from + 1);
        let c = cs[from];
        assert(ts[from] == component_text(c));
        assert(later_component(c));
        match c {
            Component::Normal(p) => {
                assert(part_component(p, 1) == Some(Component::Normal(p)));
            },
            _ => {
                assert(part_component(seq!['.', '.'], 1) == Some(Component::Parent));
            },
        }
        assert(cs.skip(from) =~= seq![c] + cs.skip(from + 1));
    } else {
        assert(cs.skip(from) =~= Seq::<Component>::empty());
    }
}

/// An empty last part adds no component.
proof fn lemma_empty_last_part(ps: Seq<Seq<char>>)
    requires
        ps.len() >= 1,
    ensures
        part_components(ps + seq![Seq::<char>::empty()], 0) == part_components(ps, 0),
{
    let e = seq![Seq::<char>::empty()];
    lemma_components_split(ps, e, 0);
    lemma_components_tail(ps, e, ps.len() as int);
    assert(later_components(e, 1) =~= Seq::<Component>::empty());
    assert(later_components(e, 0) =~= Seq::<Component>::empty());
    assert(part_components(ps + e, 0) =~= part_components(ps, 0));
}

/// A non-empty path with a separator added at its end has the same components.
proof fn lemma_trailing_separator(s: Seq<char>)
    requires
        s.len() > 0,
    ensures
        components(s + seq!['/']) == components(s),
{
    let t = s + seq!['/'];
    lemma_parts_join(s, Seq::empty());
    assert(s + seq!['/'] + Seq::<char>::empty() =~= t);
    assert(parts(Seq::<char>::empty()) =~= seq![Seq::<char>::empty()]);
    lemma_parts_nonempty(s);
    lemma_empty_last_part(parts(s));
    assert(t[0] == s[0]);
}

/// Joining a relative text of later components onto a path appends those
/// components to the path's own.
proof fn lemma_join_components(base: Seq<char>, cs: Seq<Component>)
    requires
        base.len() > 0,
        cs.len() >= 1,
        forall|k: int| 0 <= k < cs.len() ==> later_component(#[trigger] cs[k]),
    ensures
        components(join_path(base, join_texts(cs.map_values(|c: Component| component_text(c)))))
            == components(base) + cs,
{
    let ts = cs.map_values(|c: Component| component_text(c));
    let rel = join_texts(ts);
    assert forall|i: int| 0 <= i < ts.len() implies no_slash(#[trigger] ts[i]) by {
        assert(later_component(cs[i]));
        match cs[i] {
            Component::Normal(p) => {},
            _ => {
                assert(ts[i] == seq!['.', '.']);
            },
        }
    }
    lemma_parts_of_joined(ts);
    lemma_later_texts(cs, 0);
    assert(cs.skip(0) =~= cs);
    // The relative text starts with a name or `..`, never with a separator.
    assert(rel.len() > 0 && rel[0] != '/') by {
        lemma_join_texts_start(ts);
        assert(ts[0].len() > 0) by {
            assert(later_component(cs[0]));
            match cs[0] {
                Component::Normal(p) => {},
                _ => {
                    assert(ts[0] == seq!['.', '.']);
                },
            }
        }
    }
    // Write the join as `head + "/" + rel`.
    let head = if base.last() == '/' { base.drop_last() } else { base };
    let joined = head + seq!['/'] + rel;
    assert(join_path(base, rel) =~= joined);
    lemma_parts_join(head, rel);
    lemma_parts_nonempty(head);
    lemma_components_split(parts(head), ts, 0);
    lemma_components_tail(parts(head), ts, parts(head).len() as int);
    assert(part_components(parts(joined), 0) == part_components(parts(head), 0) + cs);
    // The base's own components are those of `head`'s parts.
    assert(part_components(parts(base), 0) == part_components(parts(head), 0)) by {
        if base.last() == '/' {
            lemma_parts_join(head, Seq::empty());
            assert(head + seq!['/'] + Seq::<char>::empty() =~= base);
            assert(parts(Seq::<char>::empty()) =~= seq![Seq::<char>::empty()]);
            lemma_empty_last_part(parts(head));
        }
    }
    assert(joined[0] == base[0]) by {
        if head.len() > 0 {
            assert(joined[0] == head[0]);
            if base.last() == '/' {
                assert(head[0] == base[0]);
            }
        } else if base.last() == '/' {
            assert(base.len() == 1);
        }
    }
    assert(components(joined) =~= components(base) + cs);
}

/// A joined list of texts starts with its first text, when that is not empty.
proof fn lemma_join_texts_start(ts: Seq<Seq<char>>)
    requires
        ts.len() >= 1,
        ts[0].len() > 0,
    ensures
        join_texts(ts).len() > 0,
        join_texts(ts)[0] == ts[0][0],
    decreases ts.len(),
{
    if ts.len() > 1 {
        lemma_join_texts_start(ts.drop_last());
    }
}

/// A path stored relative to the project it lies in, then resolved against
/// that project, names the same path (it has the same components) - so a
/// project's resources are found again when it is opened where it was saved.
/// The project path must have a component (an empty one makes the stored
/// text absolute, and one holding `/assets/` is then remapped).
pub proof fn law_relative_then_resolved(path: Seq<char>, project: Seq<char>)
    requires
        components(project).len() > 0,
        relative_text(path, project) is Some,
    ensures
        components(resolved(relative_text(path, project)->0, project)) == components(path),
{
    let pc = components(path);
    let bc = components(project);
    let rest = pc.skip(bc.len() as int);
    let ts = rest.map_values(|c: Component| component_text(c));
    let rel = join_texts(ts);
    assert(relative_text(path, project) == Some(rel));
    assert(pc =~= bc + rest);
    assert(project.len() > 0) by {
        if project.len() == 0 {
            assert(parts(project) =~= seq![Seq::<char>::empty()]);
            assert(part_components(parts(project), 1) =~= Seq::<Component>::empty());
            assert(part_components(parts(project), 0) =~= Seq::<Component>::empty());
            assert(components(project) =~= Seq::<Component>::empty());
        }
    }
    lemma_components_later(path);
    assert forall|k: int| 0 <= k < rest.len() implies later_component(#[trigger] rest[k]) by {
        assert(rest[k] == pc[k + bc.len()]);
    }
    if rest.len() == 0 {
        assert(rel =~= Seq::<char>::empty());
        assert(!is_absolute(rel));
        if project.last() == '/' {
            assert(join_path(project, rel) =~= project);
        } else {
            assert(join_path(project, rel) =~= project + seq!['/']);
            lemma_trailing_separator(project);
        }
        assert(pc =~= bc);
    } else {
        lemma_join_components(project, rest);
        lemma_join_texts_start_rel(rest);
    }
}

/// The stored text of later components is not absolute.
proof fn lemma_join_texts_start_rel(cs: Seq<Component>)
    requires
        cs.len() >= 1,
        forall|k: int| 0 <= k < cs.len() ==> later_component(#[trigger] cs[k]),
    ensures
        !is_absolute(join_texts(cs.map_values(|c: Component| component_text(c)))),
{
    let ts = cs.map_values(|c: Component| component_text(c));
    assert(ts[0].len() > 0 && ts[0][0] != '/') by {
        assert(later_component(cs[0]));
        match cs[0] {
            Component::Normal(p) => {},
            _ => {
                assert(ts[0] == seq!['.', '.']);
            },
        }
    }
    lemma_join_texts_start(ts);
}

/// A path stored relative to the project it lies in, then resolved against
/// the project's new root after the project folder moved, names the same
/// place under the new root: the new root's components followed by those
/// that the path had under the old one. Both roots must have a component.
pub proof fn law_relative_then_moved(path: Seq<char>, project: Seq<char>, moved_to: Seq<char>)
    requires
        components(project).len() > 0,
        components(moved_to).len() > 0,
        relative_text(path, project) is Some,
    ensures
        components(resolved(relative_text(path, project)->0, moved_to))
            == components(moved_to) + strip_prefix(path, project)->0,
{
    let pc = components(path);
    let bc = components(project);
    let rest = pc.skip(bc.len() as int);
    let ts = rest.map_values(|c: Component| component_text(c));
    let rel = join_texts(ts);
    assert(relative_text(path, project) == Some(rel));
    assert(strip_prefix(path, project) == Some(rest));
    assert(pc =~= bc + rest);
    assert(moved_to.len() > 0) by {
        if moved_to.len() == 0 {
            assert(parts(moved_to) =~= seq![Seq::<char>::empty()]);
            assert(part_components(parts(moved_to), 1) =~= Seq::<Component>::empty());
            assert(part_components(parts(moved_to), 0) =~= Seq::<Component>::empty());
            assert(components(moved_to) =~= Seq::<Component>::empty());
        }
    }
    lemma_components_later(path);
    assert forall|k: int| 0 <= k < rest.len() implies later_component(#[trigger] rest[k]) by {
        assert(rest[k] == pc[k + bc.len()]);
    }
    if rest.len() == 0 {
        assert(rel =~= Seq::<char>::empty());
        assert(!is_absolute(rel));
        if moved_to.last() == '/' {
            assert(join_path(moved_to, rel) =~= moved_to);
        } else {
            assert(join_path(moved_to, rel) =~= moved_to + seq!['/']);
            lemma_trailing_separator(moved_to);
        }
        assert(components(moved_to) + rest =~= components(moved_to));
    } else {
        lemma_join_components(moved_to, rest);
        lemma_join_texts_start_rel(rest);
    }
}

} // verus!
