//! Chains of adjoining triangles that grow at one end and are pruned at the
//! other, without two triangles ever overlapping.
//!
//! This crate is the bookkeeping core of the animation: the arena of triangle
//! records with their parent and child links, the cursors that decide where a
//! chain grows and which triangle leaves next, the retry budgets of the
//! placement search, and what follows from the orientation tests between two
//! triangles. It never touches coordinates: a triangle's geometry `G` is
//! carried through untouched, and so is the identifier of its leaf in the
//! bounding-volume tree that the driver keeps for collision queries.
//!
//! The driver owns the canvas, the tree and the random stream. To grow a
//! chain it asks [`search::generate_triangle`] what to try, builds the
//! candidate and tests it, and on success draws it, enters it into the tree
//! and records it with [`placement::place_triangle`]. To prune a chain it
//! calls [`eviction::generate`], erases what has left, grows a triangle into
//! the slot that became free, and moves the cursor on with
//! [`env::Env::advance_oldest`].
//!
//! The chains of a canvas do not touch each other: every operation changes
//! the one chain it is called on.
//!
//! Every operation keeps a chain well formed ([`env::Env::wf`]): links go
//! both ways, the triangles form one tree, and a triangle without links is
//! the only triangle of its chain.

pub mod anchor;
pub mod collision;
pub mod conf;
pub mod env;
pub mod exact;
pub mod eviction;
pub mod graph;
pub mod laws;
pub mod lifecycle;
pub mod node;
pub mod placement;
pub mod random;
pub mod search;
pub mod tree;
pub mod validate;
