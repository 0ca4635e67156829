//! Analysed monitors, and the desktop that owns them.
//!
//! Each monitor keeps its own pixels and edge map, so mixed resolutions and
//! scale factors never meet in one bitmap. Where a monitor sits is the
//! caller's geometry type `G`.

use vstd::prelude::*;

use crate::edges::{count_set, EdgeMap};
use crate::image::Rgba8;

verus! {

/// One analysed monitor.
pub struct Surface<G> {
    pub geometry: G,
    pub image: Rgba8,
    pub edges: EdgeMap,
}

/// Every analysed monitor, in a stable order.
pub struct Desktop<G> {
    surfaces: Vec<Surface<G>>,
}

impl<G> View for Desktop<G> {
    type V = Seq<Surface<G>>;

    closed spec fn view(&self) -> Seq<Surface<G>> {
        self.surfaces@
    }
}

/// Edge pixels across all the given monitors.
pub open spec fn edge_total<G>(surfaces: Seq<Surface<G>>) -> nat
    decreases surfaces.len(),
{
    if surfaces.len() == 0 {
        0
    } else {
        edge_total(surfaces.drop_last()) + count_set(surfaces.last().edges.pixels())
    }
}

impl<G> Desktop<G> {
    /// A desktop of the given monitors, in the order given.
    pub fn new(surfaces: Vec<Surface<G>>) -> (d: Self)
        ensures
            d@ == surfaces@,
    {
        Desktop { surfaces }
    }

    /// The monitor at `index`, if there is one.
    pub fn surface(&self, index: usize) -> (s: Option<&Surface<G>>)
        ensures
            index < self@.len() ==> s == Some(&self@[index as int]),
            index >= self@.len() ==> s is None,
    {
        if index < self.surfaces.len() {
            Some(&self.surfaces[index])
        } else {
            None
        }
    }

    /// No monitor was analysed.
    pub fn is_empty(&self) -> (b: bool)
        ensures
            b == (self@.len() == 0),
    {
        self.surfaces.len() == 0
    }

    /// A copy of every monitor's geometry, in order.
    pub fn geometries(&self) -> (g: Vec<G>)
        where
            G: Clone,
        ensures
            g@.len() == self@.len(),
            forall|i: int| 0 <= i < g@.len() ==> cloned::<G>(self@[i].geometry, #[trigger] g@[i]),
    {
        let mut out: Vec<G> = Vec::new();
        let mut i: usize = 0;
        while i < self.surfaces.len()
            invariant
                i <= self.surfaces@.len(),
                out@.len() == i,
                forall|j: int| 0 <= j < i ==> cloned::<G>(self.surfaces@[j].geometry, #[trigger] out@[j]),
            decreases self.surfaces@.len() - i,
        {
            let g = self.surfaces[i].geometry.clone();
            out.push(g);
            i = i + 1;
        }
        out
    }

    /// Replaces the geometry of the monitor at `index`; an index past the
    /// last monitor changes nothing.
    ///
    /// Used to reconcile the capture backend's idea of monitor layout with the
    /// window system's, which is the authority for placing windows.
    pub fn set_geometry(&mut self, index: usize, geometry: G)
        ensures
            index < old(self)@.len() ==> final(self)@ == old(self)@.update(
                index as int,
                Surface { geometry, ..old(self)@[index as int] },
            ),
            index >= old(self)@.len() ==> final(self)@ == old(self)@,
    {
        if index < self.surfaces.len() {
            self.surfaces[index].geometry = geometry;
        }
    }

    /// Total edge pixels across all monitors.
    pub fn edge_count(&self) -> (n: usize)
        requires
            edge_total(self@) <= usize::MAX,
        ensures
            n == edge_total(self@),
    {
        let mut n: usize = 0;
        let mut i: usize = 0;
        proof {
            lemma_edge_total_prefix(self@, self@.len() as int);
        }
        while i < self.surfaces.len()
            invariant
                i <= self@.len(),
                self@ == self.surfaces@,
                edge_total(self@) <= usize::MAX,
                n == edge_total(self@.take(i as int)),
            decreases self@.len() - i,
        {
            proof {
                assert(self@.take(i + 1).drop_last() =~= self@.take(i as int));
                lemma_edge_total_prefix(self@, i + 1);
            }
            let c = self.surfaces[i].edges.count();
            n = n + c;
            i = i + 1;
        }
        assert(self@.take(self@.len() as int) =~= self@);
        n
    }
}

/// A prefix of the monitors holds no more edge pixels than all of them.
proof fn lemma_edge_total_prefix<G>(surfaces: Seq<Surface<G>>, k: int)
    requires
        0 <= k <= surfaces.len(),
    ensures
        edge_total(surfaces.take(k)) <= edge_total(surfaces),
    decreases surfaces.len(),
{
    if k < surfaces.len() {
        assert(surfaces.drop_last().take(k) =~= surfaces.take(k));
        lemma_edge_total_prefix(surfaces.drop_last(), k);
    } else {
        assert(surfaces.take(k) =~= surfaces);
    }
}

} // verus!
