//! The engine state: the scene store, the selection cursor and the
//! render state, with the cursor-based mutation protocol.
//!
//! The store maps identifiers to shapes; keys are unique.  The cursor
//! holds at most one selected identifier.  Selecting an identifier
//! always succeeds and materializes an empty shape when the identifier
//! is not yet stored.  Every shape-mutating entry point applies to the
//! selection and is a silent no-op — not an error — when nothing is
//! selected.

use vstd::prelude::*;

use crate::blend::{mode_of_code, BlendMode};
use crate::fills::{
    stop_of_raw, Color, Fill, FillError, GradientStop, ImageFill, LinearGradient, RawStopData,
};
use crate::ident::Identifier;
use crate::math::{Matrix, Rect, Scalar};
use crate::render::{
    cache_has, cache_idx, enters, plan_covers, render_plan, ImageEntry, RenderResult, RenderState,
};
use crate::shapes::{is_new_shape, Shape};

verus! {

/// No two shapes of the store share an identifier.
pub open spec fn ids_unique(s: Seq<Shape>) -> bool {
    forall|i: int, j: int| 0 <= i < j < s.len() ==> s[i].id != s[j].id
}

/// Whether some shape of `s` is named `id`.
pub open spec fn has_id(s: Seq<Shape>, id: Identifier) -> bool {
    exists|i: int| 0 <= i < s.len() && s[i].id == id
}

/// The position of the shape named `id`; meaningful when `has_id`
/// holds, and then unique because identifiers are.
pub open spec fn idx_of(s: Seq<Shape>, id: Identifier) -> int {
    choose|i: int| 0 <= i < s.len() && s[i].id == id
}

/// The whole engine state: one scene per instance.
pub struct State {
    pub shapes: Vec<Shape>,
    pub selected: Option<Identifier>,
    pub render_state: RenderState,
}

/// `new` and `old` agree on everything but the store, and the store
/// changed only at position `i`, which now holds `s`.
pub open spec fn updated_at(old_st: State, new_st: State, i: int, s: Shape) -> bool {
    &&& new_st.shapes@ == old_st.shapes@.update(i, s)
    &&& new_st.selected == old_st.selected
    &&& new_st.render_state == old_st.render_state
}

/// `new` and `old` agree on the store, the cursor and the render state.
pub open spec fn scene_unchanged(old_st: State, new_st: State) -> bool {
    &&& new_st.shapes@ == old_st.shapes@
    &&& new_st.selected == old_st.selected
    &&& new_st.render_state == old_st.render_state
}

impl State {
    /// Store keys are unique, the image cache is well formed, and a
    /// selected identifier always names a stored shape.
    pub open spec fn wf(self) -> bool {
        &&& ids_unique(self.shapes@)
        &&& self.render_state.wf()
        &&& match self.selected {
            Some(id) => has_id(self.shapes@, id),
            None => true,
        }
    }

    /// The store position the cursor points at, if any.
    pub open spec fn sel_index(self) -> Option<int> {
        match self.selected {
            Some(id) => if has_id(self.shapes@, id) {
                Some(idx_of(self.shapes@, id))
            } else {
                None
            },
            None => None,
        }
    }

    /// A fresh engine: empty store, no selection, default render state
    /// for a surface of the given dimensions.
    pub fn new(width: i32, height: i32) -> (st: State)
        ensures
            st.wf(),
            st.shapes@ == Seq::<Shape>::empty(),
            st.selected is None,
            st.render_state.is_initial(width, height),
    {
        State {
            shapes: Vec::new(),
            selected: None,
            render_state: RenderState::new(width, height),
        }
    }

    /// The position of the shape named `id`, if it is stored.
    fn find_index(&self, id: Identifier) -> (r: Option<usize>)
        ensures
            match r {
                Some(i) => i < self.shapes@.len() && self.shapes@[i as int].id == id,
                None => !has_id(self.shapes@, id),
            },
    {
        let mut k: usize = 0;
        while k < self.shapes.len()
            invariant
                k <= self.shapes@.len(),
                forall|j: int| 0 <= j < k ==> self.shapes@[j].id != id,
            decreases self.shapes@.len() - k,
        {
            if self.shapes[k].id == id {
                return Some(k);
            }
            k = k + 1;
        }
        None
    }

    /// Selects `id`, materializing an empty shape when the store does
    /// not hold it yet.  Re-selecting a stored identifier changes
    /// nothing but the cursor, so later mutations reach the very same
    /// shape.
    pub fn use_shape(&mut self, id: Identifier)
        requires
            old(self).wf(),
        ensures
            final(self).wf(),
            final(self).selected == Some(id),
            final(self).render_state == old(self).render_state,
            has_id(old(self).shapes@, id) ==> final(self).shapes@ == old(self).shapes@,
            !has_id(old(self).shapes@, id) ==> final(self).shapes@.len() == old(self).shapes@.len() + 1
                && final(self).shapes@.drop_last() == old(self).shapes@
                && is_new_shape(final(self).shapes@.last(), id),
    {
        match self.find_index(id) {
            Some(_) => {},
            None => {
                self.shapes.push(Shape::new(id));
                proof {
                    assert(self.shapes@.drop_last() =~= old(self).shapes@);
                    let n = self.shapes@.len();
                    assert(self.shapes@[n - 1].id == id);
                    assert forall|i: int, j: int| 0 <= i < j < n implies self.shapes@[i].id
                        != self.shapes@[j].id by {
                        if j < n - 1 {
                            assert(old(self).shapes@[i].id != old(self).shapes@[j].id);
                        } else {
                            assert(self.shapes@[i] == old(self).shapes@[i]);
                            assert(!has_id(old(self).shapes@, id));
                        }
                    }
                }
            },
        }
        self.selected = Some(id);
    }

    /// Overwrites both render options: the debug-flag bitmask and the
    /// device pixel ratio.
    pub fn set_render_options(&mut self, debug: u32, dpr: Scalar)
        requires
            old(self).wf(),
        ensures
            final(self).wf(),
            final(self).shapes@ == old(self).shapes@,
            final(self).selected == old(self).selected,
            final(self).render_state == (RenderState {
                debug_flags: debug,
                dpr,
                ..old(self).render_state
            }),
    {
        self.render_state.set_debug_flags(debug);
        self.render_state.set_dpr(dpr);
    }

    /// Updates the surface dimensions and invalidates any raster tied
    /// to the old ones.
    pub fn resize(&mut self, width: i32, height: i32)
        requires
            old(self).wf(),
        ensures
            final(self).wf(),
            final(self).shapes@ == old(self).shapes@,
            final(self).selected == old(self).selected,
            final(self).render_state == (RenderState {
                width,
                height,
                cache_valid: false,
                ..old(self).render_state
            }),
    {
        self.render_state.width = width;
        self.render_state.height = height;
        self.render_state.cache_valid = false;
    }

    /// Decodes nothing and evicts nothing: stores the encoded bytes
    /// under the identifier, silently overwriting a previous store
    /// under the same identifier.
    pub fn store_image(&mut self, id: Identifier, data: Vec<u8>)
        requires
            old(self).wf(),
        ensures
            final(self).wf(),
            final(self).shapes@ == old(self).shapes@,
            final(self).selected == old(self).selected,
            final(self).render_state == (RenderState {
                images: final(self).render_state.images,
                ..old(self).render_state
            }),
            cache_has(old(self).render_state.images.entries@, id)
                ==> final(self).render_state.images.entries@
                == old(self).render_state.images.entries@.update(
                    cache_idx(old(self).render_state.images.entries@, id),
                    ImageEntry { id, data },
                ),
            !cache_has(old(self).render_state.images.entries@, id)
                ==> final(self).render_state.images.entries@
                == old(self).render_state.images.entries@.push(ImageEntry { id, data }),
    {
        self.render_state.images.insert(id, data);
    }

    /// Whether an image is cached under `id`: a pure existence check,
    /// so the host can avoid re-uploading bytes it already sent.
    pub fn is_image_cached(&self, id: Identifier) -> (r: bool)
        ensures
            r == cache_has(self.render_state.images.entries@, id),
    {
        self.render_state.images.contains(id)
    }

    /// Overwrites the selected shape's bounding box; a no-op when
    /// nothing is selected.
    pub fn set_shape_selrect(&mut self, left: Scalar, top: Scalar, right: Scalar, bottom: Scalar)
        requires
            old(self).wf(),
        ensures
            final(self).wf(),
            match old(self).sel_index() {
                Some(i) => updated_at(
                    *old(self),
                    *final(self),
                    i,
                    Shape { selrect: Rect { left, top, right, bottom }, ..old(self).shapes@[i] },
                ),
                None => scene_unchanged(*old(self), *final(self)),
            },
    {
        let sel = self.selected;
        if let Some(id) = sel {
            if let Some(i) = self.find_index(id) {
                let sh = &mut self.shapes[i];
                sh.selrect.set_ltrb(left, top, right, bottom);
                proof {
                    lemma_unique_idx(old(self).shapes@, id, i as int);
                }
            }
        }
    }

    /// Overwrites the selected shape's transform coefficients; a no-op
    /// when nothing is selected.
    pub fn set_shape_transform(
        &mut self,
        a: Scalar,
        b: Scalar,
        c: Scalar,
        d: Scalar,
        e: Scalar,
        f: Scalar,
    )
        requires
            old(self).wf(),
        ensures
            final(self).wf(),
            match old(self).sel_index() {
                Some(i) => updated_at(
                    *old(self),
                    *final(self),
                    i,
                    Shape { transform: Matrix { a, b, c, d, e, f }, ..old(self).shapes@[i] },
                ),
                None => scene_unchanged(*old(self), *final(self)),
            },
    {
        let sel = self.selected;
        if let Some(id) = sel {
            if let Some(i) = self.find_index(id) {
                let sh = &mut self.shapes[i];
                sh.transform = Matrix { a, b, c, d, e, f };
                proof {
                    lemma_unique_idx(old(self).shapes@, id, i as int);
                }
            }
        }
    }

    /// Appends a child reference to the selected shape; a no-op when
    /// nothing is selected.
    pub fn add_shape_child(&mut self, child: Identifier)
        requires
            old(self).wf(),
        ensures
            final(self).wf(),
            match old(self).sel_index() {
                Some(i) => {
                    &&& updated_at(
                        *old(self),
                        *final(self),
                        i,
                        Shape { children: final(self).shapes@[i].children, ..old(self).shapes@[i] },
                    )
                    &&& final(self).shapes@[i].children@
                        == old(self).shapes@[i].children@.push(child)
                },
                None => scene_unchanged(*old(self), *final(self)),
            },
    {
        let sel = self.selected;
        if let Some(id) = sel {
            if let Some(i) = self.find_index(id) {
                let sh = &mut self.shapes[i];
                sh.children.push(child);
                proof {
                    lemma_unique_idx(old(self).shapes@, id, i as int);
                }
            }
        }
    }

    /// Empties the selected shape's child list; a no-op when nothing is
    /// selected.
    pub fn clear_shape_children(&mut self)
        requires
            old(self).wf(),
        ensures
            final(self).wf(),
            match old(self).sel_index() {
                Some(i) => {
                    &&& updated_at(
                        *old(self),
                        *final(self),
                        i,
                        Shape { children: final(self).shapes@[i].children, ..old(self).shapes@[i] },
                    )
                    &&& final(self).shapes@[i].children@ == Seq::<Identifier>::empty()
                },
                None => scene_unchanged(*old(self), *final(self)),
            },
    {
        let sel = self.selected;
        if let Some(id) = sel {
            if let Some(i) = self.find_index(id) {
                let sh = &mut self.shapes[i];
                sh.children.clear();
                proof {
                    lemma_unique_idx(old(self).shapes@, id, i as int);
                }
            }
        }
    }

    /// Appends a solid fill of the given packed color to the selected
    /// shape; a no-op when nothing is selected.
    pub fn add_shape_solid_fill(&mut self, raw_color: u32)
        requires
            old(self).wf(),
        ensures
            final(self).wf(),
            match old(self).sel_index() {
                Some(i) => {
                    &&& updated_at(
                        *old(self),
                        *final(self),
                        i,
                        Shape { fills: final(self).shapes@[i].fills, ..old(self).shapes@[i] },
                    )
                    &&& final(self).shapes@[i].fills@
                        == old(self).shapes@[i].fills@.push(Fill::Solid(Color { argb: raw_color }))
                },
                None => scene_unchanged(*old(self), *final(self)),
            },
    {
        let sel = self.selected;
        if let Some(id) = sel {
            if let Some(i) = self.find_index(id) {
                let sh = &mut self.shapes[i];
                sh.add_fill(Fill::Solid(Color::new(raw_color)));
                proof {
                    lemma_unique_idx(old(self).shapes@, id, i as int);
                }
            }
        }
    }

    /// Appends a linear gradient fill, with no stops yet, to the
    /// selected shape; a no-op when nothing is selected.
    pub fn add_shape_linear_fill(
        &mut self,
        start_x: Scalar,
        start_y: Scalar,
        end_x: Scalar,
        end_y: Scalar,
        opacity: Scalar,
    )
        requires
            old(self).wf(),
        ensures
            final(self).wf(),
            match old(self).sel_index() {
                Some(i) => {
                    &&& updated_at(
                        *old(self),
                        *final(self),
                        i,
                        Shape { fills: final(self).shapes@[i].fills, ..old(self).shapes@[i] },
                    )
                    &&& final(self).shapes@[i].fills@.len()
                        == old(self).shapes@[i].fills@.len() + 1
                    &&& final(self).shapes@[i].fills@.drop_last() == old(self).shapes@[i].fills@
                    &&& final(self).shapes@[i].fills@.last() matches Fill::LinearGradient(g)
                        && g.start_x == start_x && g.start_y == start_y && g.end_x == end_x
                        && g.end_y == end_y && g.opacity == opacity
                        && g.stops@ == Seq::<GradientStop>::empty()
                },
                None => scene_unchanged(*old(self), *final(self)),
            },
    {
        let sel = self.selected;
        if let Some(id) = sel {
            if let Some(i) = self.find_index(id) {
                let sh = &mut self.shapes[i];
                sh.add_fill(Fill::new_linear_gradient((start_x, start_y), (end_x, end_y), opacity));
                proof {
                    lemma_unique_idx(old(self).shapes@, id, i as int);
                    assert(sh.fills@.drop_last() =~= old(self).shapes@[i as int].fills@);
                }
            }
        }
    }

    /// Appends an image fill referring to the cached image named by
    /// `image_id` to the selected shape; a no-op when nothing is
    /// selected.
    pub fn add_shape_image_fill(
        &mut self,
        image_id: Identifier,
        alpha: u8,
        width: Scalar,
        height: Scalar,
    )
        requires
            old(self).wf(),
        ensures
            final(self).wf(),
            match old(self).sel_index() {
                Some(i) => {
                    &&& updated_at(
                        *old(self),
                        *final(self),
                        i,
                        Shape { fills: final(self).shapes@[i].fills, ..old(self).shapes@[i] },
                    )
                    &&& final(self).shapes@[i].fills@ == old(self).shapes@[i].fills@.push(
                        Fill::Image(ImageFill { id: image_id, alpha, height, width }),
                    )
                },
                None => scene_unchanged(*old(self), *final(self)),
            },
    {
        let sel = self.selected;
        if let Some(id) = sel {
            if let Some(i) = self.find_index(id) {
                let sh = &mut self.shapes[i];
                sh.add_fill(Fill::new_image_fill(image_id, alpha, height, width));
                proof {
                    lemma_unique_idx(old(self).shapes@, id, i as int);
                }
            }
        }
    }

    /// Empties the selected shape's fill list; a no-op when nothing is
    /// selected.
    pub fn clear_shape_fills(&mut self)
        requires
            old(self).wf(),
        ensures
            final(self).wf(),
            match old(self).sel_index() {
                Some(i) => {
                    &&& updated_at(
                        *old(self),
                        *final(self),
                        i,
                        Shape { fills: final(self).shapes@[i].fills, ..old(self).shapes@[i] },
                    )
                    &&& final(self).shapes@[i].fills@ == Seq::<Fill>::empty()
                },
                None => scene_unchanged(*old(self), *final(self)),
            },
    {
        let sel = self.selected;
        if let Some(id) = sel {
            if let Some(i) = self.find_index(id) {
                let sh = &mut self.shapes[i];
                sh.clear_fills();
                proof {
                    lemma_unique_idx(old(self).shapes@, id, i as int);
                }
            }
        }
    }

    /// Maps the host code to a blend mode — totally, failing closed to
    /// `Normal` — and sets it on the selected shape; a no-op when
    /// nothing is selected.
    pub fn set_shape_blend_mode(&mut self, mode: i32)
        requires
            old(self).wf(),
        ensures
            final(self).wf(),
            match old(self).sel_index() {
                Some(i) => updated_at(
                    *old(self),
                    *final(self),
                    i,
                    Shape { blend_mode: mode_of_code(mode), ..old(self).shapes@[i] },
                ),
                None => scene_unchanged(*old(self), *final(self)),
            },
    {
        let sel = self.selected;
        if let Some(id) = sel {
            if let Some(i) = self.find_index(id) {
                let sh = &mut self.shapes[i];
                sh.set_blend_mode(BlendMode::from_code(mode));
                proof {
                    lemma_unique_idx(old(self).shapes@, id, i as int);
                }
            }
        }
    }

    /// Overwrites the selected shape's opacity; a no-op when nothing is
    /// selected.
    pub fn set_shape_opacity(&mut self, opacity: Scalar)
        requires
            old(self).wf(),
        ensures
            final(self).wf(),
            match old(self).sel_index() {
                Some(i) => updated_at(
                    *old(self),
                    *final(self),
                    i,
                    Shape { opacity, ..old(self).shapes@[i] },
                ),
                None => scene_unchanged(*old(self), *final(self)),
            },
    {
        let sel = self.selected;
        if let Some(id) = sel {
            if let Some(i) = self.find_index(id) {
                let sh = &mut self.shapes[i];
                sh.opacity = opacity;
                proof {
                    lemma_unique_idx(old(self).shapes@, id, i as int);
                }
            }
        }
    }

    /// Appends every stop of a host-supplied record batch, in call
    /// order, to the selected shape's most recently added fill.
    ///
    /// A no-op returning `Ok` when nothing is selected or the batch is
    /// empty.  Otherwise fails — as a status value, never a fault, and
    /// with the scene unchanged — with `NoFills` when the shape has no
    /// fills and with `NotAGradient` when its last fill is not a linear
    /// gradient.
    pub fn add_shape_fill_stops(&mut self, stops: &Vec<RawStopData>) -> (res: Result<
        (),
        FillError,
    >)
        requires
            old(self).wf(),
        ensures
            final(self).wf(),
            match old(self).sel_index() {
                Some(i) => {
                    if stops@.len() == 0 {
                        scene_unchanged(*old(self), *final(self)) && res == Ok::<(), FillError>(())
                    } else if old(self).shapes@[i].fills@.len() == 0 {
                        scene_unchanged(*old(self), *final(self)) && res == Err::<
                            (),
                            FillError,
                        >(FillError::NoFills)
                    } else if !(old(self).shapes@[i].fills@.last() is LinearGradient) {
                        scene_unchanged(*old(self), *final(self)) && res == Err::<
                            (),
                            FillError,
                        >(FillError::NotAGradient)
                    } else {
                        &&& res == Ok::<(), FillError>(())
                        &&& updated_at(
                            *old(self),
                            *final(self),
                            i,
                            Shape {
                                fills: final(self).shapes@[i].fills,
                                ..old(self).shapes@[i]
                            },
                        )
                        &&& final(self).shapes@[i].fills@.len()
                            == old(self).shapes@[i].fills@.len()
                        &&& forall|t: int| 0 <= t < old(self).shapes@[i].fills@.len() - 1
                            ==> final(self).shapes@[i].fills@[t] == old(self).shapes@[i].fills@[t]
                        &&& final(self).shapes@[i].fills@.last() matches Fill::LinearGradient(g2)
                            && old(self).shapes@[i].fills@.last() matches Fill::LinearGradient(g1)
                            && g2 == (LinearGradient { stops: g2.stops, ..g1 })
                            && g2.stops@ == g1.stops@ + stops@.map_values(
                            |s: RawStopData| stop_of_raw(s),
                        )
                    }
                },
                None => scene_unchanged(*old(self), *final(self)) && res == Ok::<(), FillError>(()),
            },
    {
        let sel = self.selected;
        if let Some(id) = sel {
            if let Some(i) = self.find_index(id) {
                proof {
                    lemma_unique_idx(old(self).shapes@, id, i as int);
                }
                if stops.len() == 0 {
                    return Ok(());
                }
                let nf = self.shapes[i].fills.len();
                if nf == 0 {
                    return Err(FillError::NoFills);
                }
                let last_is_gradient = match &self.shapes[i].fills[nf - 1] {
                    Fill::LinearGradient(_) => true,
                    _ => false,
                };
                if !last_is_gradient {
                    return Err(FillError::NotAGradient);
                }
                let ghost fills0 = self.shapes@[i as int].fills@;
                let mut k: usize = 0;
                while k < stops.len()
                    invariant
                        old(self).wf(),
                        k <= stops@.len(),
                        stops@.len() > 0,
                        i < self.shapes@.len(),
                        self.shapes@.len() == old(self).shapes@.len(),
                        old(self).shapes@[i as int].fills@ == fills0,
                        fills0.len() > 0,
                        fills0.last() is LinearGradient,
                        self.selected == old(self).selected,
                        self.render_state == old(self).render_state,
                        forall|t: int| 0 <= t < self.shapes@.len() && t != i
                            ==> self.shapes@[t] == old(self).shapes@[t],
                        self.shapes@[i as int] == (Shape {
                            fills: self.shapes@[i as int].fills,
                            ..old(self).shapes@[i as int]
                        }),
                        k == 0 ==> self.shapes@[i as int].fills@ == fills0,
                        k > 0 ==> {
                            &&& fills0.len() > 0
                            &&& fills0.last() is LinearGradient
                            &&& self.shapes@[i as int].fills@.len() == fills0.len()
                            &&& forall|t: int| 0 <= t < fills0.len() - 1
                                ==> self.shapes@[i as int].fills@[t] == fills0[t]
                            &&& self.shapes@[i as int].fills@.last() matches Fill::LinearGradient(
                                g2,
                            ) && fills0.last() matches Fill::LinearGradient(g1)
                                && g2 == (LinearGradient { stops: g2.stops, ..g1 })
                                && g2.stops@ == g1.stops@ + stops@.subrange(
                                0,
                                k as int,
                            ).map_values(|s: RawStopData| stop_of_raw(s))
                        },
                    decreases stops@.len() - k,
                {
                    let raw = stops[k];
                    let color = Color::from_argb(raw.a, raw.r, raw.g, raw.b);
                    let sh = &mut self.shapes[i];
                    let step = sh.add_gradient_stop(color, raw.offset);
                    match step {
                        Ok(()) => {},
                        Err(e) => {
                            proof {
                                assert(false);
                            }
                            return Err(e);
                        },
                    }
                    proof {
                        assert(stops@.subrange(0, k + 1).map_values(
                            |s: RawStopData| stop_of_raw(s),
                        ) =~= stops@.subrange(0, k as int).map_values(
                            |s: RawStopData| stop_of_raw(s),
                        ).push(stop_of_raw(stops@[k as int])));
                        if k > 0 {
                        } else {
                            assert(stops@.subrange(0, 0).map_values(
                                |s: RawStopData| stop_of_raw(s),
                            ) =~= Seq::<GradientStop>::empty());
                        }
                    }
                    k = k + 1;
                }
                proof {
                    assert(stops@.subrange(0, stops@.len() as int) =~= stops@);
                    assert(self.shapes@ =~= old(self).shapes@.update(
                        i as int,
                        (Shape {
                            fills: self.shapes@[i as int].fills,
                            ..old(self).shapes@[i as int]
                        }),
                    ));
                }
                return Ok(());
            }
        }
        Ok(())
    }

    /// Overwrites the selected shape's rotation, in degrees; a no-op
    /// when nothing is selected.
    pub fn set_shape_rotation(&mut self, rotation: Scalar)
        requires
            old(self).wf(),
        ensures
            final(self).wf(),
            match old(self).sel_index() {
                Some(i) => updated_at(
                    *old(self),
                    *final(self),
                    i,
                    Shape { rotation, ..old(self).shapes@[i] },
                ),
                None => scene_unchanged(*old(self), *final(self)),
            },
    {
        let sel = self.selected;
        if let Some(id) = sel {
            if let Some(i) = self.find_index(id) {
                let sh = &mut self.shapes[i];
                sh.rotation = rotation;
                proof {
                    lemma_unique_idx(old(self).shapes@, id, i as int);
                }
            }
        }
    }

    /// Renders the scene.  When `use_cache` holds and the previous
    /// raster is still valid it is reused and nothing is recomputed;
    /// otherwise the full draw plan is recomputed — entering every
    /// stored shape exactly once, cycles notwithstanding — and the
    /// raster it paints becomes the valid one.
    pub fn render_all(&mut self, use_cache: bool) -> (r: RenderResult)
        requires
            old(self).wf(),
        ensures
            final(self).wf(),
            final(self).shapes@ == old(self).shapes@,
            final(self).selected == old(self).selected,
            final(self).render_state == (RenderState {
                cache_valid: true,
                ..old(self).render_state
            }),
            use_cache && old(self).render_state.cache_valid ==> r == RenderResult::Reused,
            !(use_cache && old(self).render_state.cache_valid) ==> (r matches
            RenderResult::Repainted(plan) && plan_covers(plan@, old(self).shapes@.len() as int)
            && plan@.len() == 2 * enters(plan@).len()),
    {
        if use_cache && self.render_state.cache_valid {
            RenderResult::Reused
        } else {
            let plan = render_plan(&self.shapes);
            self.render_state.cache_valid = true;
            RenderResult::Repainted(plan)
        }
    }

    /// Redraws with the current cache: reuses the previous raster when
    /// it is still valid, otherwise recomputes the draw plan, without
    /// validating or invalidating anything.
    pub fn navigate(&self) -> (r: RenderResult)
        ensures
            self.render_state.cache_valid ==> r == RenderResult::Reused,
            !self.render_state.cache_valid ==> (r matches RenderResult::Repainted(plan)
            && plan_covers(plan@, self.shapes@.len() as int)
            && plan@.len() == 2 * enters(plan@).len()),
    {
        if self.render_state.cache_valid {
            RenderResult::Reused
        } else {
            RenderResult::Repainted(render_plan(&self.shapes))
        }
    }
}  // impl State

/// Law: under a selection of `x`, the cursor resolves to the unique
/// store position whose shape is named `x`: any position holding `x`
/// is the one every mutation reaches.  Together with `use_shape`'s
/// postcondition that selecting an already stored identifier changes
/// no shape, consecutive selections of `x` resolve to the same
/// position, so mutations issued under either selection reach the same
/// underlying shape.
pub proof fn lemma_selection_targets_unique_shape(st: State, x: Identifier, i: int)
    requires
        st.wf(),
        st.selected == Some(x),
        0 <= i < st.shapes@.len(),
        st.shapes@[i].id == x,
    ensures
        st.sel_index() == Some(i),
{
    lemma_unique_idx(st.shapes@, x, i);
}

/// With unique identifiers, any position holding `id` is `idx_of`.
pub proof fn lemma_unique_idx(s: Seq<Shape>, id: Identifier, i: int)
    requires
        ids_unique(s),
        0 <= i < s.len(),
        s[i].id == id,
    ensures
        has_id(s, id),
        idx_of(s, id) == i,
{
    assert(has_id(s, id));
    let j = idx_of(s, id);
    assert(0 <= j < s.len() && s[j].id == id);
    if i != j {
        if i < j {
            assert(s[i].id != s[j].id);
        } else {
            assert(s[j].id != s[i].id);
        }
    }
}

} // verus!
