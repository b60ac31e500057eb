//! The render state and the render plan.
//!
//! The render state holds everything the drawing backend needs besides
//! the scene itself: the view transform, the device pixel ratio, the
//! debug-flag bitmask, the image byte-cache and the validity of the
//! last raster.  The render plan is the verified walk of the scene
//! store: a flat command list the backend replays, guaranteed to enter
//! every stored shape exactly once however cyclic the child graph is.

use vstd::prelude::*;

use crate::ident::Identifier;
use crate::math::{Scalar, SCALAR_ONE};
use crate::shapes::Shape;
use crate::view::{initial_viewbox, Viewbox};

verus! {

/// One cached image: the identifier it is keyed by and its encoded
/// bytes as the host supplied them.
#[derive(Debug, PartialEq)]
pub struct ImageEntry {
    pub id: Identifier,
    pub data: Vec<u8>,
}

/// No two cache entries share an identifier.
pub open spec fn cache_ids_unique(s: Seq<ImageEntry>) -> bool {
    forall|i: int, j: int| 0 <= i < j < s.len() ==> s[i].id != s[j].id
}

/// Whether the cache holds an image named `id`.
pub open spec fn cache_has(s: Seq<ImageEntry>, id: Identifier) -> bool {
    exists|i: int| 0 <= i < s.len() && s[i].id == id
}

/// The position of the entry named `id`; meaningful when `cache_has`
/// holds, and then unique because identifiers are.
pub open spec fn cache_idx(s: Seq<ImageEntry>, id: Identifier) -> int {
    choose|i: int| 0 <= i < s.len() && s[i].id == id
}

/// The image byte-cache, keyed by identifier.  Images are inserted
/// once per identifier — a re-store overwrites silently — and never
/// evicted.
#[derive(Debug)]
pub struct ImageCache {
    pub entries: Vec<ImageEntry>,
}

impl ImageCache {
    /// Keys are unique.
    pub open spec fn wf(self) -> bool {
        cache_ids_unique(self.entries@)
    }

    /// An empty cache.
    pub fn new() -> (c: ImageCache)
        ensures
            c.wf(),
            c.entries@ == Seq::<ImageEntry>::empty(),
    {
        ImageCache { entries: Vec::new() }
    }

    /// The position of the entry named `id`, if any.
    fn find(&self, id: Identifier) -> (r: Option<usize>)
        ensures
            match r {
                Some(i) => i < self.entries@.len() && self.entries@[i as int].id == id,
                None => !cache_has(self.entries@, id),
            },
    {
        let mut k: usize = 0;
        while k < self.entries.len()
            invariant
                k <= self.entries@.len(),
                forall|j: int| 0 <= j < k ==> self.entries@[j].id != id,
            decreases self.entries@.len() - k,
        {
            if self.entries[k].id == id {
                return Some(k);
            }
            k = k + 1;
        }
        None
    }

    /// Stores `data` under `id`, silently overwriting any previous
    /// bytes stored under the same identifier.
    pub fn insert(&mut self, id: Identifier, data: Vec<u8>)
        requires
            old(self).wf(),
        ensures
            final(self).wf(),
            cache_has(old(self).entries@, id) ==> final(self).entries@
                == old(self).entries@.update(
                    cache_idx(old(self).entries@, id),
                    ImageEntry { id, data },
                ),
            !cache_has(old(self).entries@, id) ==> final(self).entries@
                == old(self).entries@.push(ImageEntry { id, data }),
    {
        match self.find(id) {
            Some(i) => {
                let e = &mut self.entries[i];
                e.data = data;
                proof {
                    lemma_cache_unique_idx(old(self).entries@, id, i as int);
                    assert(self.entries@ =~= old(self).entries@.update(
                        i as int,
                        ImageEntry { id, data },
                    ));
                }
            },
            None => {
                self.entries.push(ImageEntry { id, data });
                proof {
                    assert forall|i: int, j: int|
                        0 <= i < j < self.entries@.len() implies self.entries@[i].id
                        != self.entries@[j].id by {
                        if j < self.entries@.len() - 1 {
                            assert(old(self).entries@[i].id != old(self).entries@[j].id);
                        }
                    }
                }
            },
        }
    }

    /// Whether an image named `id` is cached: a pure existence check.
    pub fn contains(&self, id: Identifier) -> (r: bool)
        ensures
            r == cache_has(self.entries@, id),
    {
        match self.find(id) {
            Some(_) => true,
            None => false,
        }
    }
}

/// With unique identifiers, any position holding `id` is `cache_idx`.
pub proof fn lemma_cache_unique_idx(s: Seq<ImageEntry>, id: Identifier, i: int)
    requires
        cache_ids_unique(s),
        0 <= i < s.len(),
        s[i].id == id,
    ensures
        cache_has(s, id),
        cache_idx(s, id) == i,
{
    assert(cache_has(s, id));
    let j = cache_idx(s, id);
    if i != j {
        if i < j {
            assert(s[i].id != s[j].id);
        } else {
            assert(s[j].id != s[i].id);
        }
    }
}

/// The view, debug and caching configuration, independent of scene
/// content.
#[derive(Debug)]
pub struct RenderState {
    pub viewbox: Viewbox,
    pub dpr: Scalar,
    pub debug_flags: u32,
    pub images: ImageCache,
    pub width: i32,
    pub height: i32,
    /// Whether a previous raster is still valid for reuse.
    pub cache_valid: bool,
}

impl RenderState {
    /// The image cache is well formed.
    pub open spec fn wf(self) -> bool {
        self.images.wf()
    }

    /// Whether this is the render state `new` builds: identity view,
    /// device pixel ratio one, no debug flags, an empty cache, no
    /// valid raster.
    pub open spec fn is_initial(self, width: i32, height: i32) -> bool {
        &&& self.viewbox == initial_viewbox()
        &&& self.dpr == SCALAR_ONE
        &&& self.debug_flags == 0
        &&& self.images.entries@ == Seq::<ImageEntry>::empty()
        &&& self.width == width
        &&& self.height == height
        &&& self.cache_valid == false
    }

    /// A fresh render state for a surface of the given dimensions.
    pub fn new(width: i32, height: i32) -> (r: RenderState)
        ensures
            r.wf(),
            r.is_initial(width, height),
    {
        RenderState {
            viewbox: Viewbox::new(),
            dpr: SCALAR_ONE,
            debug_flags: 0,
            images: ImageCache::new(),
            width,
            height,
            cache_valid: false,
        }
    }

    /// Overwrites the debug-flag bitmask; no validation.
    pub fn set_debug_flags(&mut self, debug: u32)
        ensures
            *final(self) == (RenderState { debug_flags: debug, ..*old(self) }),
    {
        self.debug_flags = debug;
    }

    /// Overwrites the device pixel ratio; no validation.
    pub fn set_dpr(&mut self, dpr: Scalar)
        ensures
            *final(self) == (RenderState { dpr, ..*old(self) }),
    {
        self.dpr = dpr;
    }

    /// Forgets any previous raster, so the next render recomputes; the
    /// backend-side surface clearing is the host's part.
    pub fn reset_canvas(&mut self)
        ensures
            *final(self) == (RenderState { cache_valid: false, ..*old(self) }),
    {
        self.cache_valid = false;
    }
}

/// One command of a draw plan.  `Enter` names a store position: the
/// backend saves its transform stack, composes that shape's transform,
/// paints its fills in order under its blend mode and opacity, and
/// then replays the nested commands for the children; `Leave` restores
/// the transform stack.
#[derive(Clone, Copy, Debug, PartialEq, Eq, Structural)]
pub enum DrawStep {
    Enter { index: usize },
    Leave,
}

/// The store positions a plan enters, in order.
pub open spec fn enters(s: Seq<DrawStep>) -> Seq<int>
    decreases s.len(),
{
    if s.len() == 0 {
        Seq::empty()
    } else {
        match s.last() {
            DrawStep::Enter { index } => enters(s.drop_last()).push(index as int),
            DrawStep::Leave => enters(s.drop_last()),
        }
    }
}

/// Appending an `Enter` appends its position to `enters`.
proof fn lemma_enters_push_enter(s: Seq<DrawStep>, i: usize)
    ensures
        enters(s.push(DrawStep::Enter { index: i })) == enters(s).push(i as int),
{
    assert(s.push(DrawStep::Enter { index: i }).drop_last() =~= s);
}

/// Appending a `Leave` leaves `enters` unchanged.
proof fn lemma_enters_push_leave(s: Seq<DrawStep>)
    ensures
        enters(s.push(DrawStep::Leave)) == enters(s),
{
    assert(s.push(DrawStep::Leave).drop_last() =~= s);
}

/// What a pushed sequence contains.
proof fn lemma_contains_push(s: Seq<int>, x: int, j: int)
    ensures
        s.push(x).contains(j) <==> (s.contains(j) || j == x),
{
    if s.contains(j) {
        let t = choose|t: int| 0 <= t < s.len() && s[t] == j;
        assert(s.push(x)[t] == j);
    }
    assert(s.push(x)[s.len() as int] == x);
    if s.push(x).contains(j) && j != x {
        let t = choose|t: int| 0 <= t < s.push(x).len() && s.push(x)[t] == j;
        assert(s[t] == j);
    }
}

/// Pushing a fresh element keeps a sequence duplicate-free.
proof fn lemma_no_dup_push(s: Seq<int>, x: int)
    requires
        s.no_duplicates(),
        !s.contains(x),
    ensures
        s.push(x).no_duplicates(),
{
    assert forall|i: int, j: int|
        0 <= i < s.push(x).len() && 0 <= j < s.push(x).len() && i != j implies s.push(x)[i]
        != s.push(x)[j] by {
        if i < s.len() && j < s.len() {
            assert(s[i] != s[j]);
        } else if j == s.len() {
            assert(s.push(x)[i] == s[i]);
            assert(!s.contains(x));
        } else {
            assert(s.push(x)[j] == s[j]);
            assert(!s.contains(x));
        }
    }
}

/// How many positions a traversal has not visited yet.
pub open spec fn count_unvisited(v: Seq<bool>) -> nat
    decreases v.len(),
{
    if v.len() == 0 {
        0
    } else {
        count_unvisited(v.drop_last()) + if v.last() {
            0nat
        } else {
            1nat
        }
    }
}

/// Marking one unvisited position visited lowers the count by one.
proof fn lemma_count_set_true(v: Seq<bool>, i: int)
    requires
        0 <= i < v.len(),
        !v[i],
    ensures
        count_unvisited(v.update(i, true)) + 1 == count_unvisited(v),
    decreases v.len(),
{
    if i == v.len() - 1 {
        assert(v.update(i, true).drop_last() =~= v.drop_last());
    } else {
        assert(v.update(i, true).drop_last() =~= v.drop_last().update(i, true));
        lemma_count_set_true(v.drop_last(), i);
    }
}

/// Visiting more positions never raises the count.
proof fn lemma_count_monotone(v1: Seq<bool>, v2: Seq<bool>)
    requires
        v1.len() == v2.len(),
        forall|j: int| 0 <= j < v1.len() ==> v1[j] ==> v2[j],
    ensures
        count_unvisited(v2) <= count_unvisited(v1),
    decreases v1.len(),
{
    if v1.len() > 0 {
        assert(forall|j: int| 0 <= j < v1.len() - 1 ==> v1.drop_last()[j] ==> v2.drop_last()[j]);
        lemma_count_monotone(v1.drop_last(), v2.drop_last());
        assert(v1[v1.len() - 1] ==> v2[v2.len() - 1]);
    }
}

/// The traversal invariant: the plan enters only in-range positions,
/// never one twice, and has entered exactly the visited positions.
pub open spec fn plan_wf(plan: Seq<DrawStep>, visited: Seq<bool>, n: int) -> bool {
    &&& enters(plan).no_duplicates()
    &&& forall|t: int| 0 <= t < enters(plan).len() ==> 0 <= #[trigger] enters(plan)[t] < n
    &&& forall|j: int| 0 <= j < n ==> (visited[j] <==> enters(plan).contains(j))
}

/// The position of the shape named `id`, if the store holds one.
fn find_shape(shapes: &Vec<Shape>, id: Identifier) -> (r: Option<usize>)
    ensures
        r matches Some(i) ==> i < shapes@.len() && shapes@[i as int].id == id,
{
    let mut k: usize = 0;
    while k < shapes.len()
        invariant
            k <= shapes@.len(),
        decreases shapes@.len() - k,
    {
        if shapes[k].id == id {
            return Some(k);
        }
        k = k + 1;
    }
    None
}

/// Walks one shape: marks it visited, enters it, walks its children —
/// skipping identifiers the store does not hold and shapes already
/// visited in this traversal, which is what makes a cyclic child graph
/// safe — and leaves it.
fn walk_shape(shapes: &Vec<Shape>, idx: usize, visited: &mut Vec<bool>, out: &mut Vec<DrawStep>)
    requires
        old(visited)@.len() == shapes@.len(),
        idx < shapes@.len(),
        plan_wf(old(out)@, old(visited)@, shapes@.len() as int),
    ensures
        final(visited)@.len() == shapes@.len(),
        plan_wf(final(out)@, final(visited)@, shapes@.len() as int),
        forall|j: int| 0 <= j < shapes@.len() ==> old(visited)@[j] ==> final(visited)@[j],
        final(visited)@[idx as int],
        final(out)@.len() >= old(out)@.len(),
        forall|t: int| 0 <= t < old(out)@.len() ==> final(out)@[t] == old(out)@[t],
        final(out)@.len() - old(out)@.len() == 2 * (enters(final(out)@).len() - enters(
            old(out)@,
        ).len()),
        old(visited)@[idx as int] ==> final(out)@ == old(out)@ && final(visited)@
            == old(visited)@,
        !old(visited)@[idx as int] ==> final(out)@.len() > old(out)@.len()
            && final(out)@[old(out)@.len() as int] == (DrawStep::Enter { index: idx }),
    decreases count_unvisited(visited@),
{
    let ghost n = shapes@.len() as int;
    if visited[idx] {
        return ;
    }
    let slot = &mut visited[idx];
    *slot = true;
    proof {
        lemma_count_set_true(old(visited)@, idx as int);
        assert(forall|j: int| 0 <= j < shapes@.len() ==> old(visited)@[j] ==> visited@[j]);
    }
    let ghost visited1 = visited@;
    out.push(DrawStep::Enter { index: idx });
    proof {
        lemma_enters_push_enter(old(out)@, idx);
        lemma_no_dup_push(enters(old(out)@), idx as int);
        assert forall|j: int| 0 <= j < n implies (visited1[j] <==> enters(out@).contains(j)) by {
            lemma_contains_push(enters(old(out)@), idx as int, j);
        }
    }
    let ghost out1 = out@;
    let nc = shapes[idx].children.len();
    let mut c: usize = 0;
    while c < nc
        invariant
            visited@.len() == shapes@.len(),
            idx < shapes@.len(),
            nc == shapes@[idx as int].children.len(),
            c <= nc,
            plan_wf(out@, visited@, shapes@.len() as int),
            forall|j: int| 0 <= j < shapes@.len() ==> visited1[j] ==> visited@[j],
            visited@[idx as int],
            count_unvisited(visited@) <= count_unvisited(visited1),
            count_unvisited(visited1) + 1 == count_unvisited(old(visited)@),
            out@.len() >= out1.len(),
            forall|t: int| 0 <= t < out1.len() ==> out@[t] == out1[t],
            out@.len() - out1.len() == 2 * (enters(out@).len() - enters(out1).len()),
            out1.len() == old(out)@.len() + 1,
            forall|t: int| 0 <= t < old(out)@.len() ==> out1[t] == old(out)@[t],
        decreases nc - c,
    {
        let child_id = shapes[idx].children[c];
        match find_shape(shapes, child_id) {
            Some(j) => {
                let ghost visited_before = visited@;
                walk_shape(shapes, j, visited, out);
                proof {
                    lemma_count_monotone(visited_before, visited@);
                }
            },
            None => {},
        }
        c = c + 1;
    }
    let ghost out2 = out@;
    out.push(DrawStep::Leave);
    proof {
        lemma_enters_push_leave(out2);
        assert(out@ == out2.push(DrawStep::Leave));
        assert(forall|j: int| 0 <= j < shapes@.len() ==> old(visited)@[j] ==> visited@[j]);
        assert forall|t: int| 0 <= t < old(out)@.len() implies out@[t] == old(out)@[t] by {
            assert(out1[t] == old(out)@[t]);
            assert(out2[t] == out1[t]);
            assert(out@[t] == out2[t]);
        }
    }
}

/// What a render call did: reused the still-valid previous raster, or
/// recomputed and handed the backend a fresh draw plan to replay.
#[derive(Debug, PartialEq)]
pub enum RenderResult {
    Reused,
    Repainted(Vec<DrawStep>),
}

/// A plan that draws a store of `n` shapes correctly: it enters only
/// store positions, never one twice — the cycle guard — and misses
/// none.
pub open spec fn plan_covers(plan: Seq<DrawStep>, n: int) -> bool {
    &&& enters(plan).no_duplicates()
    &&& forall|t: int| 0 <= t < enters(plan).len() ==> 0 <= #[trigger] enters(plan)[t] < n
    &&& forall|j: int| 0 <= j < n ==> enters(plan).contains(j)
}

/// The draw plan for a scene store: a forest traversal over every
/// stored shape, in store order, children first reached through their
/// parents.  Whatever graph the child references form — shared
/// children, cycles — the plan enters every stored shape exactly once.
pub fn render_plan(shapes: &Vec<Shape>) -> (plan: Vec<DrawStep>)
    ensures
        plan_covers(plan@, shapes@.len() as int),
        plan@.len() == 2 * enters(plan@).len(),
        shapes@.len() > 0 ==> plan@.len() > 0 && plan@[0] == (DrawStep::Enter { index: 0 }),
{
    let n = shapes.len();
    let mut visited: Vec<bool> = Vec::new();
    let mut k: usize = 0;
    while k < n
        invariant
            k <= n,
            visited@.len() == k,
            forall|j: int| 0 <= j < k ==> !visited@[j],
        decreases n - k,
    {
        visited.push(false);
        k = k + 1;
    }
    let mut out: Vec<DrawStep> = Vec::new();
    proof {
        assert(enters(out@) == Seq::<int>::empty());
        assert(plan_wf(out@, visited@, n as int));
    }
    let mut r: usize = 0;
    while r < n
        invariant
            r <= n,
            n == shapes@.len(),
            visited@.len() == n,
            plan_wf(out@, visited@, n as int),
            forall|j: int| 0 <= j < r ==> visited@[j],
            out@.len() == 2 * enters(out@).len(),
            r == 0 ==> out@.len() == 0,
            n > 0 && r > 0 ==> out@.len() > 0 && out@[0] == (DrawStep::Enter { index: 0 }),
        decreases n - r,
    {
        if r == 0 {
            proof {
                assert(enters(out@) == Seq::<int>::empty());
                assert(!visited@[0]);
            }
        }
        walk_shape(shapes, r, &mut visited, &mut out);
        r = r + 1;
    }
    proof {
        assert forall|j: int| 0 <= j < shapes@.len() implies enters(out@).contains(j) by {
            assert(visited@[j]);
        }
    }
    out
}

/// Law: a store holds an image under `id` right after bytes are stored
/// under `id` — also when that store overwrote a previous one — and
/// what it then holds under `id` are exactly the new bytes.
///
/// The two premises are `insert`'s postconditions; `pre` and `post`
/// are the cache contents around the call.
pub proof fn lemma_store_then_cached(
    pre: Seq<ImageEntry>,
    post: Seq<ImageEntry>,
    id: Identifier,
    data: Vec<u8>,
)
    requires
        cache_ids_unique(pre),
        cache_has(pre, id) ==> post == pre.update(cache_idx(pre, id), ImageEntry { id, data }),
        !cache_has(pre, id) ==> post == pre.push(ImageEntry { id, data }),
    ensures
        cache_has(post, id),
        cache_ids_unique(post),
        post[cache_idx(post, id)] == (ImageEntry { id, data }),
{
    if cache_has(pre, id) {
        let i = cache_idx(pre, id);
        assert(0 <= i < pre.len() && pre[i].id == id);
        assert(post[i] == (ImageEntry { id, data }));
        assert forall|s: int, t: int| 0 <= s < t < post.len() implies post[s].id != post[t].id by {
            assert(pre[s].id != pre[t].id);
        }
        lemma_cache_unique_idx(post, id, i);
    } else {
        let i = pre.len() as int;
        assert(post[i] == (ImageEntry { id, data }));
        assert forall|s: int, t: int| 0 <= s < t < post.len() implies post[s].id != post[t].id by {
            if t < i {
                assert(pre[s].id != pre[t].id);
            } else {
                assert(post[s] == pre[s]);
                assert(!cache_has(pre, id));
            }
        }
        lemma_cache_unique_idx(post, id, i);
    }
}

} // verus!
