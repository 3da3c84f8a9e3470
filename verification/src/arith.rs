//! Containers for intentionally-wrapped and intentionally-saturating
//! arithmetic on a constrained integer.
//!
//! `Wrapping<T>` says that ordinary addition and subtraction on the
//! underlying value are meant to have wrapping semantics; `Saturating<T>`
//! gives them saturating semantics.  Both are thin delegation shims onto
//! the constrained containers' own `wrapping_*` and `saturating_*`
//! operations; the underlying value can be retrieved through the `.0`
//! field of the tuple.

use crate::int8::ConstrainedI8;
use crate::uint8::ConstrainedU8;
use crate::wrap_math::clamp;
use crate::wrap_math::wrap_into;
use vstd::prelude::*;

verus! {

/// Provides intentionally-wrapped arithmetic on `T`.
#[derive(Clone, Copy, Debug, PartialEq, Eq, Hash, Structural)]
pub struct Wrapping<T>(pub T);

/// Provides intentionally-saturating arithmetic on `T`.
#[derive(Clone, Copy, Debug, PartialEq, Eq, Hash, Structural)]
pub struct Saturating<T>(pub T);

impl Wrapping<ConstrainedU8> {
    /// Wrapping addition of the other container's value.
    pub fn add(self, rhs: Wrapping<ConstrainedU8>) -> (r: Wrapping<ConstrainedU8>)
        requires
            self.0.wf(),
        ensures
            r.0.wf(),
            r.0.same_bounds(&self.0),
            r.0.val() == wrap_into(self.0.lo(), self.0.hi(), self.0.val() + rhs.0.val()),
    {
        Wrapping(self.0.wrapping_add(rhs.0.get()))
    }

    /// Wrapping subtraction of the other container's value.
    pub fn sub(self, rhs: Wrapping<ConstrainedU8>) -> (r: Wrapping<ConstrainedU8>)
        requires
            self.0.wf(),
        ensures
            r.0.wf(),
            r.0.same_bounds(&self.0),
            r.0.val() == wrap_into(self.0.lo(), self.0.hi(), self.0.val() - rhs.0.val()),
    {
        Wrapping(self.0.wrapping_sub(rhs.0.get()))
    }

    /// In-place wrapping addition of a primitive right-hand side.
    pub fn add_assign(&mut self, rhs: u8)
        requires
            old(self).0.wf(),
        ensures
            final(self).0.wf(),
            final(self).0.same_bounds(&old(self).0),
            final(self).0.val() == wrap_into(
                old(self).0.lo(),
                old(self).0.hi(),
                old(self).0.val() + rhs,
            ),
    {
        self.0 = self.0.wrapping_add(rhs);
    }

    /// In-place wrapping subtraction of a primitive right-hand side.
    pub fn sub_assign(&mut self, rhs: u8)
        requires
            old(self).0.wf(),
        ensures
            final(self).0.wf(),
            final(self).0.same_bounds(&old(self).0),
            final(self).0.val() == wrap_into(
                old(self).0.lo(),
                old(self).0.hi(),
                old(self).0.val() - rhs,
            ),
    {
        self.0 = self.0.wrapping_sub(rhs);
    }
}

impl Wrapping<ConstrainedI8> {
    /// Wrapping addition of the other container's value.
    pub fn add(self, rhs: Wrapping<ConstrainedI8>) -> (r: Wrapping<ConstrainedI8>)
        requires
            self.0.wf(),
        ensures
            r.0.wf(),
            r.0.same_bounds(&self.0),
            r.0.val() == wrap_into(self.0.lo(), self.0.hi(), self.0.val() + rhs.0.val()),
    {
        Wrapping(self.0.wrapping_add(rhs.0.get()))
    }

    /// Wrapping subtraction of the other container's value.
    pub fn sub(self, rhs: Wrapping<ConstrainedI8>) -> (r: Wrapping<ConstrainedI8>)
        requires
            self.0.wf(),
        ensures
            r.0.wf(),
            r.0.same_bounds(&self.0),
            r.0.val() == wrap_into(self.0.lo(), self.0.hi(), self.0.val() - rhs.0.val()),
    {
        Wrapping(self.0.wrapping_sub(rhs.0.get()))
    }

    /// In-place wrapping addition of a primitive right-hand side.
    pub fn add_assign(&mut self, rhs: i8)
        requires
            old(self).0.wf(),
        ensures
            final(self).0.wf(),
            final(self).0.same_bounds(&old(self).0),
            final(self).0.val() == wrap_into(
                old(self).0.lo(),
                old(self).0.hi(),
                old(self).0.val() + rhs,
            ),
    {
        self.0 = self.0.wrapping_add(rhs);
    }

    /// In-place wrapping subtraction of a primitive right-hand side.
    pub fn sub_assign(&mut self, rhs: i8)
        requires
            old(self).0.wf(),
        ensures
            final(self).0.wf(),
            final(self).0.same_bounds(&old(self).0),
            final(self).0.val() == wrap_into(
                old(self).0.lo(),
                old(self).0.hi(),
                old(self).0.val() - rhs,
            ),
    {
        self.0 = self.0.wrapping_sub(rhs);
    }
}

impl Saturating<ConstrainedU8> {
    /// Saturating addition of the other container's value.
    pub fn add(self, rhs: Saturating<ConstrainedU8>) -> (r: Saturating<ConstrainedU8>)
        requires
            self.0.wf(),
        ensures
            r.0.wf(),
            r.0.same_bounds(&self.0),
            r.0.val() == clamp(self.0.lo(), self.0.hi(), self.0.val() + rhs.0.val()),
    {
        Saturating(self.0.saturating_add(rhs.0.get()))
    }

    /// Saturating subtraction of the other container's value.
    pub fn sub(self, rhs: Saturating<ConstrainedU8>) -> (r: Saturating<ConstrainedU8>)
        requires
            self.0.wf(),
        ensures
            r.0.wf(),
            r.0.same_bounds(&self.0),
            r.0.val() == clamp(self.0.lo(), self.0.hi(), self.0.val() - rhs.0.val()),
    {
        Saturating(self.0.saturating_sub(rhs.0.get()))
    }

    /// In-place saturating addition of a primitive right-hand side.
    pub fn add_assign(&mut self, rhs: u8)
        requires
            old(self).0.wf(),
        ensures
            final(self).0.wf(),
            final(self).0.same_bounds(&old(self).0),
            final(self).0.val() == clamp(
                old(self).0.lo(),
                old(self).0.hi(),
                old(self).0.val() + rhs,
            ),
    {
        self.0 = self.0.saturating_add(rhs);
    }

    /// In-place saturating subtraction of a primitive right-hand side.
    pub fn sub_assign(&mut self, rhs: u8)
        requires
            old(self).0.wf(),
        ensures
            final(self).0.wf(),
            final(self).0.same_bounds(&old(self).0),
            final(self).0.val() == clamp(
                old(self).0.lo(),
                old(self).0.hi(),
                old(self).0.val() - rhs,
            ),
    {
        self.0 = self.0.saturating_sub(rhs);
    }
}

impl Saturating<ConstrainedI8> {
    /// Saturating addition of the other container's value.
    pub fn add(self, rhs: Saturating<ConstrainedI8>) -> (r: Saturating<ConstrainedI8>)
        requires
            self.0.wf(),
        ensures
            r.0.wf(),
            r.0.same_bounds(&self.0),
            r.0.val() == clamp(self.0.lo(), self.0.hi(), self.0.val() + rhs.0.val()),
    {
        Saturating(self.0.saturating_add(rhs.0.get()))
    }

    /// Saturating subtraction of the other container's value.
    pub fn sub(self, rhs: Saturating<ConstrainedI8>) -> (r: Saturating<ConstrainedI8>)
        requires
            self.0.wf(),
        ensures
            r.0.wf(),
            r.0.same_bounds(&self.0),
            r.0.val() == clamp(self.0.lo(), self.0.hi(), self.0.val() - rhs.0.val()),
    {
        Saturating(self.0.saturating_sub(rhs.0.get()))
    }

    /// In-place saturating addition of a primitive right-hand side.
    pub fn add_assign(&mut self, rhs: i8)
        requires
            old(self).0.wf(),
        ensures
            final(self).0.wf(),
            final(self).0.same_bounds(&old(self).0),
            final(self).0.val() == clamp(
                old(self).0.lo(),
                old(self).0.hi(),
                old(self).0.val() + rhs,
            ),
    {
        self.0 = self.0.saturating_add(rhs);
    }

    /// In-place saturating subtraction of a primitive right-hand side.
    pub fn sub_assign(&mut self, rhs: i8)
        requires
            old(self).0.wf(),
        ensures
            final(self).0.wf(),
            final(self).0.same_bounds(&old(self).0),
            final(self).0.val() == clamp(
                old(self).0.lo(),
                old(self).0.hi(),
                old(self).0.val() - rhs,
            ),
    {
        self.0 = self.0.saturating_sub(rhs);
    }
}

} // verus!
