//! Configuration of a chain and the budgets of the placement search.

use vstd::prelude::*;

verus! {

/// Candidates tried at one pivot before the pivot is given up.
pub const PLACEMENT_ATTEMPTS: usize = 5;

/// Pivots tried in one growth step before the step is given up.
pub const PLACEMENT_BAILOUT_THRESHOLD: usize = 1000;

/// Number of independent chains on a canvas.
pub const CHAIN_COUNT: usize = 3;

/// Triangles that a chain holds once it is populated.
pub const DEFAULT_TRIANGLE_COUNT: usize = 50;

/// What a chain needs to know about its canvas and its looks.
///
/// `triangle_count` is the capacity of the chain's arena. The colours are
/// style tokens that are handed to the renderer as they are.
#[derive(Clone, Debug)]
pub struct Conf {
    pub canvas_width: usize,
    pub canvas_height: usize,
    pub triangle_count: usize,
    pub triangle_color: String,
    pub triangle_border_color: String,
}

/// Fill and border colour of the chain with this number.
pub open spec fn chain_colors(chain_ix: int) -> (Seq<char>, Seq<char>) {
    if chain_ix == 0 {
        ("rgb(81, 12, 84)"@, "rgb(226, 12, 163)"@)
    } else if chain_ix == 1 {
        ("rgb(9, 89, 135)"@, "rgb(15, 190, 230)"@)
    } else {
        ("rgb(9, 112, 5)"@, "rgb(36, 189, 6)"@)
    }
}

/// The configuration that chain `chain_ix` starts with on a canvas of the
/// given size.
pub fn chain_conf(canvas_width: usize, canvas_height: usize, chain_ix: usize) -> (conf: Conf)
    ensures
        conf.canvas_width == canvas_width,
        conf.canvas_height == canvas_height,
        conf.triangle_count == DEFAULT_TRIANGLE_COUNT,
        conf.triangle_color@ == chain_colors(chain_ix as int).0,
        conf.triangle_border_color@ == chain_colors(chain_ix as int).1,
{
    let (fill, border) = if chain_ix == 0 {
        ("rgb(81, 12, 84)", "rgb(226, 12, 163)")
    } else if chain_ix == 1 {
        ("rgb(9, 89, 135)", "rgb(15, 190, 230)")
    } else {
        ("rgb(9, 112, 5)", "rgb(36, 189, 6)")
    };
    Conf {
        canvas_width,
        canvas_height,
        triangle_count: DEFAULT_TRIANGLE_COUNT,
        triangle_color: fill.to_owned(),
        triangle_border_color: border.to_owned(),
    }
}

/// The configurations of the `CHAIN_COUNT` chains of a canvas, in the order
/// of their numbers. They differ in their colours only.
pub fn init_triangles(canvas_width: usize, canvas_height: usize) -> (confs: Vec<Conf>)
    ensures
        confs@.len() == CHAIN_COUNT,
        forall|i: int|
            0 <= i < CHAIN_COUNT ==> {
                &&& (#[trigger] confs@[i]).canvas_width == canvas_width
                &&& confs@[i].canvas_height == canvas_height
                &&& confs@[i].triangle_count == DEFAULT_TRIANGLE_COUNT
                &&& confs@[i].triangle_color@ == chain_colors(i).0
                &&& confs@[i].triangle_border_color@ == chain_colors(i).1
            },
{
    let mut confs: Vec<Conf> = Vec::new();
    let mut chain_ix: usize = 0;
    while chain_ix < CHAIN_COUNT
        invariant
            chain_ix <= CHAIN_COUNT,
            confs@.len() == chain_ix,
            forall|i: int|
                0 <= i < chain_ix ==> {
                    &&& (#[trigger] confs@[i]).canvas_width == canvas_width
                    &&& confs@[i].canvas_height == canvas_height
                    &&& confs@[i].triangle_count == DEFAULT_TRIANGLE_COUNT
                    &&& confs@[i].triangle_color@ == chain_colors(i).0
                    &&& confs@[i].triangle_border_color@ == chain_colors(i).1
                },
        decreases CHAIN_COUNT - chain_ix,
    {
        confs.push(chain_conf(canvas_width, canvas_height, chain_ix));
        chain_ix += 1;
    }
    confs
}

} // verus!
