//! Lexical scopes. Every frame lives in one store and is named by its index
//! there; a frame's parent, and the frame a function captured, are such
//! indices. Whoever holds an index sees the frame as it is now, so a
//! binding made after a function was defined is visible to that function.

use vstd::prelude::*;
use crate::object::{Object, ObjectView};

verus! {

/// One name bound to one value.
pub struct Binding {
    pub name: String,
    pub value: Object,
}

/// One scope: its bindings and the index of the enclosing frame, if any.
pub struct Frame {
    pub bindings: Vec<Binding>,
    pub parent: Option<usize>,
}

/// The store of all frames. Frame 0 is the global scope.
pub struct Environment {
    pub frames: Vec<Frame>,
}

pub struct FrameView {
    pub vars: Map<Seq<char>, ObjectView>,
    pub parent: Option<nat>,
}

/// The first position at or after `from` that binds `name`; the length
/// where there is none.
pub open spec fn binding_index(bs: Seq<Binding>, name: Seq<char>, from: int) -> int
    decreases bs.len() - from,
{
    if from < 0 || from >= bs.len() {
        bs.len() as int
    } else if bs[from].name@ == name {
        from
    } else {
        binding_index(bs, name, from + 1)
    }
}

/// The bindings as a map from names to values.
pub open spec fn bindings_map(bs: Seq<Binding>) -> Map<Seq<char>, ObjectView> {
    Map::new(
        |k: Seq<char>| binding_index(bs, k, 0) < bs.len(),
        |k: Seq<char>| bs[binding_index(bs, k, 0)].value@,
    )
}

pub open spec fn parent_view(p: Option<usize>) -> Option<nat> {
    match p {
        Some(i) => Some(i as nat),
        None => None,
    }
}

impl View for Frame {
    type V = FrameView;

    open spec fn view(&self) -> FrameView {
        FrameView { vars: bindings_map(self.bindings@), parent: parent_view(self.parent) }
    }
}

impl View for Environment {
    type V = Seq<FrameView>;

    open spec fn view(&self) -> Seq<FrameView> {
        Seq::new(self.frames@.len(), |i: int| self.frames@[i]@)
    }
}

/// The value that `name` has in frame `env`: the frame's own binding, else
/// what the enclosing frames give, innermost first. A parent link is
/// followed only to a frame that was created earlier.
pub open spec fn lookup(frames: Seq<FrameView>, env: nat, name: Seq<char>) -> Option<ObjectView>
    decreases env,
{
    if env >= frames.len() {
        None
    } else if frames[env as int].vars.contains_key(name) {
        Some(frames[env as int].vars[name])
    } else {
        match frames[env as int].parent {
            Some(p) => if p < env {
                lookup(frames, p, name)
            } else {
                None
            },
            None => None,
        }
    }
}

/// The store after `name` is bound to `value` in frame `env`: that frame
/// alone changes, and in it that name alone.
pub open spec fn store_set(frames: Seq<FrameView>, env: nat, name: Seq<char>, value: ObjectView) -> Seq<
    FrameView,
> {
    if env < frames.len() {
        frames.update(
            env as int,
            FrameView {
                vars: frames[env as int].vars.insert(name, value),
                parent: frames[env as int].parent,
            },
        )
    } else {
        frames
    }
}

/// The store after a fresh, empty frame is added inside `parent`.
pub open spec fn store_enclose(frames: Seq<FrameView>, parent: nat) -> Seq<FrameView> {
    frames.push(FrameView { vars: Map::empty(), parent: Some(parent) })
}

pub open spec fn option_view(o: Option<Object>) -> Option<ObjectView> {
    match o {
        Some(v) => Some(v@),
        None => None,
    }
}

proof fn lemma_index_bounds(bs: Seq<Binding>, name: Seq<char>, from: int)
    requires
        0 <= from <= bs.len(),
    ensures
        from <= binding_index(bs, name, from) <= bs.len(),
        binding_index(bs, name, from) < bs.len() ==> bs[binding_index(bs, name, from)].name@
            == name,
        forall|j: int| from <= j < binding_index(bs, name, from) ==> bs[j].name@ != name,
    decreases bs.len() - from,
{
    if from < bs.len() && bs[from].name@ != name {
        lemma_index_bounds(bs, name, from + 1);
    }
}

proof fn lemma_index_same_names(a: Seq<Binding>, b: Seq<Binding>, name: Seq<char>, from: int)
    requires
        0 <= from <= a.len(),
        a.len() == b.len(),
        forall|j: int| 0 <= j < a.len() ==> a[j].name@ == b[j].name@,
    ensures
        binding_index(a, name, from) == binding_index(b, name, from),
    decreases a.len() - from,
{
    if from < a.len() && a[from].name@ != name {
        lemma_index_same_names(a, b, name, from + 1);
    }
}

proof fn lemma_index_push(a: Seq<Binding>, x: Binding, name: Seq<char>, from: int)
    requires
        0 <= from <= a.len(),
    ensures
        binding_index(a.push(x), name, from) == if binding_index(a, name, from) < a.len() {
            binding_index(a, name, from)
        } else if x.name@ == name {
            a.len() as int
        } else {
            a.len() as int + 1
        },
    decreases a.len() - from,
{
    let b = a.push(x);
    if from < a.len() {
        assert(b[from] == a[from]);
        if a[from].name@ != name {
            lemma_index_push(a, x, name, from + 1);
        }
    } else {
        assert(b[from] == x);
        if x.name@ != name {
            assert(binding_index(b, name, from + 1) == b.len());
        }
    }
}

/// Replacing the value at the first binding of a name binds that name anew
/// and leaves every other name as it was.
proof fn lemma_map_update(bs: Seq<Binding>, i: int, x: Binding)
    requires
        0 <= i < bs.len(),
        i == binding_index(bs, x.name@, 0),
    ensures
        bindings_map(bs.update(i, x)) == bindings_map(bs).insert(x.name@, x.value@),
{
    let cs = bs.update(i, x);
    lemma_index_bounds(bs, x.name@, 0);
    assert forall|k: Seq<char>| binding_index(cs, k, 0) == binding_index(bs, k, 0) by {
        lemma_index_same_names(bs, cs, k, 0);
    }
    assert forall|k: Seq<char>| k != x.name@ && binding_index(bs, k, 0) < bs.len() implies cs[binding_index(
        bs,
        k,
        0,
    )] == bs[binding_index(bs, k, 0)] by {
        lemma_index_bounds(bs, k, 0);
    }
    assert forall|k: Seq<char>| 0 <= binding_index(bs, k, 0) by {
        lemma_index_bounds(bs, k, 0);
    }
    assert(bindings_map(cs) =~= bindings_map(bs).insert(x.name@, x.value@));
}

/// Adding a binding for a name that has none binds that name and leaves
/// every other name as it was.
proof fn lemma_map_push(bs: Seq<Binding>, x: Binding)
    requires
        binding_index(bs, x.name@, 0) == bs.len(),
    ensures
        bindings_map(bs.push(x)) == bindings_map(bs).insert(x.name@, x.value@),
{
    let cs = bs.push(x);
    assert forall|k: Seq<char>|
        binding_index(cs, k, 0) == if binding_index(bs, k, 0) < bs.len() {
            binding_index(bs, k, 0)
        } else if x.name@ == k {
            bs.len() as int
        } else {
            bs.len() as int + 1
        } && 0 <= binding_index(bs, k, 0) by {
        lemma_index_push(bs, x, k, 0);
        lemma_index_bounds(bs, k, 0);
    }
    assert(bindings_map(cs) =~= bindings_map(bs).insert(x.name@, x.value@));
}

impl Frame {
    /// The position of the first binding of `name`; the number of bindings
    /// where there is none.
    fn find(&self, name: &String) -> (r: usize)
        ensures
            r as int == binding_index(self.bindings@, name@, 0),
            r <= self.bindings.len(),
    {
        let mut i: usize = 0;
        while i < self.bindings.len()
            invariant
                i <= self.bindings.len(),
                binding_index(self.bindings@, name@, 0) == binding_index(
                    self.bindings@,
                    name@,
                    i as int,
                ),
            decreases self.bindings.len() - i,
        {
            if self.bindings[i].name == *name {
                return i;
            }
            i += 1;
        }
        i
    }
}

impl Environment {
    /// A store that holds the global frame and nothing else.
    pub fn new() -> (r: Environment)
        ensures
            r@ == seq![FrameView { vars: Map::empty(), parent: None }],
    {
        let mut frames: Vec<Frame> = Vec::new();
        frames.push(Frame { bindings: Vec::new(), parent: None });
        let r = Environment { frames };
        proof {
            assert(bindings_map(Seq::<Binding>::empty()) =~= Map::empty());
            assert(r@ =~= seq![FrameView { vars: Map::empty(), parent: None }]);
        }
        r
    }

    /// The number of frames.
    pub fn len(&self) -> (r: usize)
        ensures
            r == self@.len(),
    {
        self.frames.len()
    }

    /// Adds an empty frame enclosed by `parent` and returns its index.
    pub fn new_enclosed(&mut self, parent: usize) -> (r: usize)
        ensures
            r == old(self)@.len(),
            final(self)@ == store_enclose(old(self)@, parent as nat),
    {
        let r = self.frames.len();
        self.frames.push(Frame { bindings: Vec::new(), parent: Some(parent) });
        proof {
            assert(bindings_map(Seq::<Binding>::empty()) =~= Map::empty());
            assert(self@ =~= store_enclose(old(self)@, parent as nat));
        }
        r
    }

    /// The value of `name` as frame `env` sees it, from the innermost
    /// binding outwards; `None` where no frame of the chain binds it.
    pub fn get(&self, env: usize, name: &String) -> (r: Option<Object>)
        ensures
            option_view(r) == lookup(self@, env as nat, name@),
        decreases env,
    {
        if env >= self.frames.len() {
            return None;
        }
        let frame = &self.frames[env];
        let i = frame.find(name);
        proof {
            lemma_index_bounds(frame.bindings@, name@, 0);
            assert(self@[env as int] == frame@);
        }
        if i < frame.bindings.len() {
            Some(frame.bindings[i].value.clone())
        } else {
            match frame.parent {
                Some(p) => if p < env {
                    self.get(p, name)
                } else {
                    None
                },
                None => None,
            }
        }
    }

    /// Binds `name` to `value` in frame `env` itself: a binding of that
    /// name in the frame is replaced, one in an enclosing frame is left
    /// alone and shadowed. An index that names no frame changes nothing.
    pub fn set(&mut self, env: usize, name: String, value: Object)
        ensures
            final(self)@ == store_set(old(self)@, env as nat, name@, value@),
    {
        if env >= self.frames.len() {
            return ;
        }
        let i = self.frames[env].find(&name);
        let ghost before = self.frames@[env as int];
        let binding = Binding { name, value };
        let mut frame = Frame { bindings: Vec::new(), parent: None };
        core::mem::swap(&mut frame, &mut self.frames[env]);
        if i < frame.bindings.len() {
            proof {
                lemma_map_update(frame.bindings@, i as int, binding);
            }
            frame.bindings.set(i, binding);
        } else {
            proof {
                lemma_map_push(frame.bindings@, binding);
            }
            frame.bindings.push(binding);
        }
        self.frames.set(env, frame);
        proof {
            assert(self@ =~= store_set(old(self)@, env as nat, name@, value@));
        }
    }
}

/// A name reads back what was last bound to it in the frame.
pub proof fn law_get_after_set(
    frames: Seq<FrameView>,
    env: nat,
    name: Seq<char>,
    value: ObjectView,
)
    requires
        env < frames.len(),
    ensures
        lookup(store_set(frames, env, name, value), env, name) == Some(value),
{
}

/// Binding a name again in the same frame replaces the earlier binding:
/// the store is as if only the second binding had been made.
pub proof fn law_rebinding_replaces(
    frames: Seq<FrameView>,
    env: nat,
    name: Seq<char>,
    first: ObjectView,
    second: ObjectView,
)
    ensures
        store_set(store_set(frames, env, name, first), env, name, second) == store_set(
            frames,
            env,
            name,
            second,
        ),
{
    if env < frames.len() {
        assert(frames[env as int].vars.insert(name, first).insert(name, second)
            =~= frames[env as int].vars.insert(name, second));
        assert(store_set(store_set(frames, env, name, first), env, name, second) =~= store_set(
            frames,
            env,
            name,
            second,
        ));
    }
}

/// Binding in one frame leaves every other frame as it was: an inner
/// binding shadows an outer one and never changes it.
pub proof fn law_set_is_local(
    frames: Seq<FrameView>,
    env: nat,
    name: Seq<char>,
    value: ObjectView,
    other: nat,
)
    requires
        other < frames.len(),
        other != env,
    ensures
        store_set(frames, env, name, value).len() == frames.len(),
        store_set(frames, env, name, value)[other as int] == frames[other as int],
{
}

/// A frame sees a binding made in an enclosing frame after the inner frame
/// was created, as long as nothing between the two binds the name: frames
/// are shared, not copied.
pub proof fn law_binding_visible_through_chain(
    frames: Seq<FrameView>,
    outer: nat,
    inner: nat,
    name: Seq<char>,
    value: ObjectView,
)
    requires
        outer < frames.len(),
        inner < frames.len(),
        reaches(frames, inner, outer, name),
    ensures
        lookup(store_set(frames, outer, name, value), inner, name) == Some(value),
    decreases inner,
{
    let after = store_set(frames, outer, name, value);
    if inner != outer {
        assert(after[inner as int] == frames[inner as int]);
        let p = frames[inner as int].parent->0;
        law_binding_visible_through_chain(frames, outer, p, name, value);
    }
}

/// The chain of frame `inner` leads to frame `outer` through frames that
/// do not bind `name`.
pub open spec fn reaches(frames: Seq<FrameView>, inner: nat, outer: nat, name: Seq<char>) -> bool
    decreases inner,
{
    if inner == outer {
        true
    } else if inner >= frames.len() || frames[inner as int].vars.contains_key(name) {
        false
    } else {
        match frames[inner as int].parent {
            Some(p) => p < inner && reaches(frames, p, outer, name),
            None => false,
        }
    }
}

/// A binding in a frame hides the bindings of the same name in the
/// frames around it: the innermost binding wins.
pub proof fn law_inner_binding_shadows(frames: Seq<FrameView>, env: nat, name: Seq<char>)
    requires
        env < frames.len(),
        frames[env as int].vars.contains_key(name),
    ensures
        lookup(frames, env, name) == Some(frames[env as int].vars[name]),
{
}

/// A name that a frame does not bind has the value that the enclosing
/// frame gives it; in the outermost frame it has none.
pub proof fn law_lookup_walks_outwards(frames: Seq<FrameView>, env: nat, name: Seq<char>)
    requires
        env < frames.len(),
        !frames[env as int].vars.contains_key(name),
    ensures
        match frames[env as int].parent {
            Some(p) => if p < env {
                lookup(frames, env, name) == lookup(frames, p, name)
            } else {
                lookup(frames, env, name) is None
            },
            None => lookup(frames, env, name) is None,
        },
{
}

/// A fresh frame binds nothing of its own: it sees exactly what the frame
/// around it sees, and the frames that were there are as they were.
pub proof fn law_enclosed_frame_sees_parent(frames: Seq<FrameView>, parent: nat, name: Seq<char>)
    requires
        parent < frames.len(),
    ensures
        lookup(store_enclose(frames, parent), frames.len(), name) == lookup(frames, parent, name),
        forall|i: int|
            0 <= i < frames.len() ==> (#[trigger] store_enclose(frames, parent)[i]) == frames[i],
{
    let after = store_enclose(frames, parent);
    lemma_lookup_ignores_later_frames(frames, after, parent, name);
}

/// What a frame sees depends on the frames up to it alone.
pub proof fn lemma_lookup_ignores_later_frames(
    frames: Seq<FrameView>,
    longer: Seq<FrameView>,
    env: nat,
    name: Seq<char>,
)
    requires
        env < frames.len() <= longer.len(),
        forall|i: int| 0 <= i <= env ==> (#[trigger] longer[i]) == frames[i],
    ensures
        lookup(longer, env, name) == lookup(frames, env, name),
    decreases env,
{
    assert(longer[env as int] == frames[env as int]);
    if !frames[env as int].vars.contains_key(name) {
        match frames[env as int].parent {
            Some(p) => {
                if p < env {
                    lemma_lookup_ignores_later_frames(frames, longer, p, name);
                }
            },
            None => {},
        }
    }
}

} // verus!
