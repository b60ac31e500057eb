//! The drawable shape entity.
//!
//! A shape is a node of the scene: a geometry rectangle, an affine
//! transform with derived read-only projections, a rotation, a list of
//! child identifiers (references into the scene store, not owned
//! nodes), an ordered fill list, a blend mode and an opacity.

use vstd::prelude::*;

use crate::blend::BlendMode;
use crate::fills::{Color, Fill, FillError, GradientStop, LinearGradient};
use crate::ident::Identifier;
use crate::math::{identity_matrix, Matrix, Rect, Scalar, SCALAR_ONE, SCALAR_ZERO};

verus! {

/// What geometry a shape draws.  Rectangles are the only kind so far.
#[derive(Clone, Copy, Debug, PartialEq, Eq, Structural)]
pub enum Kind {
    Rect,
}

/// One drawable node of the scene.
///
/// `children` holds identifier references, so the scene may form an
/// arbitrary graph, cycles included; every traversal must guard
/// against revisits (see the render plan).
#[derive(Debug, PartialEq)]
pub struct Shape {
    pub id: Identifier,
    pub children: Vec<Identifier>,
    pub kind: Kind,
    pub selrect: Rect,
    pub transform: Matrix,
    pub rotation: Scalar,
    pub fills: Vec<Fill>,
    pub blend_mode: BlendMode,
    pub opacity: Scalar,
}

/// Whether `s` is the freshly materialized shape named `id`: empty
/// geometry, identity transform, no rotation, no children, no fills,
/// normal blending, full opacity.
pub open spec fn is_new_shape(s: Shape, id: Identifier) -> bool {
    &&& s.id == id
    &&& s.children@ == Seq::<Identifier>::empty()
    &&& s.kind == Kind::Rect
    &&& s.selrect == (Rect {
        left: SCALAR_ZERO,
        top: SCALAR_ZERO,
        right: SCALAR_ZERO,
        bottom: SCALAR_ZERO,
    })
    &&& s.transform == identity_matrix()
    &&& s.rotation == SCALAR_ZERO
    &&& s.fills@ == Seq::<Fill>::empty()
    &&& s.blend_mode == BlendMode::Normal
    &&& s.opacity == SCALAR_ONE
}

impl Shape {
    /// The freshly materialized shape named `id`.
    pub fn new(id: Identifier) -> (s: Self)
        ensures
            is_new_shape(s, id),
    {
        Self {
            id,
            children: Vec::new(),
            kind: Kind::Rect,
            selrect: Rect::new_empty(),
            transform: Matrix::identity(),
            rotation: SCALAR_ZERO,
            fills: Vec::new(),
            blend_mode: BlendMode::default(),
            opacity: SCALAR_ONE,
        }
    }

    /// The translation `(e, f)` of the transform: a pure projection,
    /// computed on read, never stored.
    pub fn translation(&self) -> (r: (Scalar, Scalar))
        ensures
            r == (self.transform.e, self.transform.f),
    {
        (self.transform.e, self.transform.f)
    }

    /// The scale `(a, d)` of the transform: a pure projection.
    pub fn scale(&self) -> (r: (Scalar, Scalar))
        ensures
            r == (self.transform.a, self.transform.d),
    {
        (self.transform.a, self.transform.d)
    }

    /// The skew `(c, b)` of the transform: a pure projection.
    pub fn skew(&self) -> (r: (Scalar, Scalar))
        ensures
            r == (self.transform.c, self.transform.b),
    {
        (self.transform.c, self.transform.b)
    }

    /// The fills, in paint order.
    pub fn fills(&self) -> (r: &Vec<Fill>)
        ensures
            r == &self.fills,
    {
        &self.fills
    }

    /// Appends a fill at the end of the list: paint-order last, on top.
    pub fn add_fill(&mut self, f: Fill)
        ensures
            *final(self) == (Shape { fills: final(self).fills, ..*old(self) }),
            final(self).fills@ == old(self).fills@.push(f),
    {
        self.fills.push(f);
    }

    /// Empties the fill list.
    pub fn clear_fills(&mut self)
        ensures
            *final(self) == (Shape { fills: final(self).fills, ..*old(self) }),
            final(self).fills@ == Seq::<Fill>::empty(),
    {
        self.fills.clear();
    }

    /// Appends a stop to the most recently added fill.
    ///
    /// Fails with `NoFills` when the shape has no fills, and with
    /// `NotAGradient` when the last fill is not a linear gradient; in
    /// either case the shape is unchanged.  On success exactly the last
    /// fill changes, gaining the stop at the end of its stop list.
    pub fn add_gradient_stop(&mut self, color: Color, offset: u8) -> (r: Result<(), FillError>)
        ensures
            *final(self) == (Shape { fills: final(self).fills, ..*old(self) }),
            r == Ok::<(), FillError>(()) <==> old(self).fills@.len() > 0
                && old(self).fills@.last() is LinearGradient,
            r == Err::<(), FillError>(FillError::NoFills) <==> old(self).fills@.len() == 0,
            r is Err ==> final(self).fills@ == old(self).fills@,
            r is Ok ==> {
                &&& final(self).fills@.len() == old(self).fills@.len()
                &&& forall|i: int| 0 <= i < old(self).fills@.len() - 1
                    ==> final(self).fills@[i] == old(self).fills@[i]
                &&& final(self).fills@.last() matches Fill::LinearGradient(g2)
                    && old(self).fills@.last() matches Fill::LinearGradient(g1)
                    && g2 == (LinearGradient { stops: g2.stops, ..g1 })
                    && g2.stops@ == g1.stops@.push(GradientStop { color, offset })
            },
    {
        match self.fills.pop() {
            None => Err(FillError::NoFills),
            Some(f) => match f {
                Fill::LinearGradient(mut g) => {
                    g.add_stop(color, offset);
                    self.fills.push(Fill::LinearGradient(g));
                    Ok(())
                },
                other => {
                    self.fills.push(other);
                    proof {
                        assert(self.fills@ =~= old(self).fills@);
                    }
                    Err(FillError::NotAGradient)
                },
            },
        }
    }

    /// Law: clearing the fills and then adding one yields a fill list
    /// of length one holding exactly the added fill, whatever the
    /// prior contents were.  The premises are the postconditions of
    /// `clear_fills` and of `add_fill` run on its result.
    pub proof fn lemma_clear_then_add_single_fill(cleared: Shape, added: Shape, f: Fill)
        requires
            cleared.fills@ == Seq::<Fill>::empty(),
            added.fills@ == cleared.fills@.push(f),
        ensures
            added.fills@.len() == 1,
            added.fills@[0] == f,
    {
    }

    /// Overwrites the blend mode.
    pub fn set_blend_mode(&mut self, mode: BlendMode)
        ensures
            *final(self) == (Shape { blend_mode: mode, ..*old(self) }),
    {
        self.blend_mode = mode;
    }
}

} // verus!
