//! The rules of propagation, as mathematics: what a recompute writes into a
//! cell, which neighbours it triggers, and where the whole chain of
//! recomputes comes to rest.
//!
//! A board is a finite map from coordinates to nodes; a coordinate that the
//! map does not hold is an empty cell. `x` grows to the right and `y`
//! downward.

use vstd::prelude::*;

use crate::nodes::{Node, PIPE_DR, PIPE_LD, PIPE_LU};
use crate::resipee::{Ingredient, Resipee};

verus! {

/// What stays of a grid for its whole life: its extent and its recipes.
pub struct Frame {
    pub width: int,
    pub height: int,
    pub resipees: Map<u32, Resipee>,
}

/// How a recompute came to be triggered.
#[derive(Copy, Clone, Debug, PartialEq, Eq, Structural)]
pub enum Heading {
    /// By an edit, or by the cell to the left.
    Fresh,
    /// By the cell below.
    Up,
    /// By the cell above.
    Down,
}

/// Where a node sends the recompute on.
#[derive(Copy, Clone, Debug, PartialEq, Eq, Structural)]
pub enum Push {
    Nowhere,
    Right,
    Up,
    Down,
    UpAndDown,
}

impl Frame {
    /// Whether a coordinate lies on the grid.
    pub open spec fn inside(&self, x: int, y: int) -> bool {
        0 <= x < self.width && 0 <= y < self.height
    }

    /// Whether every node of a board lies on the grid and is well formed.
    pub open spec fn holds(&self, cells: Map<(int, int), Node>) -> bool {
        forall|p: (int, int)| #[trigger]
            cells.contains_key(p) ==> self.inside(p.0, p.1) && cells[p].wf()
    }
}

/// The node in a cell, if there is one.
pub open spec fn occupant(cells: Map<(int, int), Node>, x: int, y: int) -> Option<Node> {
    if cells.contains_key((x, y)) {
        Some(cells[(x, y)])
    } else {
        None
    }
}

/// Whether a pipe of this orientation pushes to the right: every one does
/// but those that push upward (1) and downward (2).
pub open spec fn pipe_runs_right(way: u8) -> bool {
    way != PIPE_LU && way != PIPE_LD
}

/// What a cell hands to its right neighbour: the output of an input, a
/// merge or a combiner, the load of a pipe that pushes to the right, and
/// nothing otherwise.
pub open spec fn handed_right(n: Option<Node>, resipees: Map<u32, Resipee>) -> Ingredient {
    match n {
        Some(Node::In(i)) => i,
        Some(Node::Merge(i, _)) => i,
        Some(Node::Comb1(a, b, c, t)) => Node::Comb1(a, b, c, t).resolved(resipees),
        Some(Node::Comb2(a, b, c, t)) => Node::Comb2(a, b, c, t).resolved(resipees),
        Some(Node::Pipe(i, way)) => if pipe_runs_right(way) {
            i
        } else {
            Ingredient::Nothing
        },
        _ => Ingredient::Nothing,
    }
}

/// What a cell shows to any sink on its right: whatever it hands on.
pub open spec fn shown_right(n: Option<Node>, resipees: Map<u32, Resipee>) -> Ingredient {
    match n {
        Some(node) => node.resolved(resipees),
        None => Ingredient::Nothing,
    }
}

/// What a split shows to the cells above and below it.
pub open spec fn shown_by_split(n: Option<Node>) -> Ingredient {
    match n {
        Some(Node::Split(i, _)) => i,
        _ => Ingredient::Nothing,
    }
}

/// The load of a pipe of the given orientation, nothing for any other cell.
pub open spec fn piped(n: Option<Node>, way: u8) -> Ingredient {
    match n {
        Some(Node::Pipe(i, w)) => if w == way {
            i
        } else {
            Ingredient::Nothing
        },
        _ => Ingredient::Nothing,
    }
}

/// What a cell hands to a combiner on the side that a pipe of the given
/// orientation pushes to: what a split shows, or the load of such a pipe.
pub open spec fn handed_across(n: Option<Node>, way: u8) -> Ingredient {
    match n {
        Some(Node::Split(i, _)) => i,
        _ => piped(n, way),
    }
}

/// The first of two ingredients that is one.
pub open spec fn first_present(a: Ingredient, b: Ingredient) -> Ingredient {
    if a != Ingredient::Nothing {
        a
    } else {
        b
    }
}

/// The node that a recompute of the cell `(x, y)` leaves there, `n` being
/// the node that it finds: of the same kind, tier and orientation, with what
/// it carries read anew from the neighbours. A cell off the grid or empty
/// counts as a neighbour that hands on nothing.
pub open spec fn refreshed(
    resipees: Map<u32, Resipee>,
    cells: Map<(int, int), Node>,
    x: int,
    y: int,
    n: Node,
) -> Node {
    let left = occupant(cells, x - 1, y);
    let right = occupant(cells, x + 1, y);
    let above = occupant(cells, x, y - 1);
    let below = occupant(cells, x, y + 1);
    match n {
        Node::In(i) => Node::In(i),
        Node::Out(_) => Node::Out(shown_right(left, resipees)),
        Node::PowerRight => Node::PowerRight,
        Node::PowerLeft => Node::PowerLeft,
        Node::Comb1(_, _, _, tier) => Node::Comb1(
            handed_across(above, PIPE_LD),
            handed_right(left, resipees),
            handed_across(below, PIPE_LU),
            tier,
        ),
        Node::Comb2(_, _, _, tier) => Node::Comb2(
            handed_across(above, PIPE_LD),
            handed_right(left, resipees),
            handed_across(below, PIPE_LU),
            tier,
        ),
        Node::Split(_, _) => Node::Split(
            handed_right(left, resipees),
            right == Some(Node::PowerRight),
        ),
        Node::Merge(_, linked) => Node::Merge(
            first_present(piped(above, PIPE_LD), piped(below, PIPE_LU)),
            linked,
        ),
        Node::Pipe(_, way) => if way <= PIPE_LD {
            Node::Pipe(handed_right(left, resipees), way)
        } else if way == PIPE_DR {
            Node::Pipe(shown_by_split(below), way)
        } else {
            Node::Pipe(shown_by_split(above), way)
        },
    }
}

/// The neighbour that a power node marks, with the mark set: for a power
/// node at `(x, y)`, the split to its left or the merge to its right.
pub open spec fn marked(cells: Map<(int, int), Node>, x: int, y: int, n: Node) -> Option<
    ((int, int), Node),
> {
    match n {
        Node::PowerRight => match occupant(cells, x - 1, y) {
            Some(Node::Split(i, _)) => Some(((x - 1, y), Node::Split(i, true))),
            _ => None,
        },
        Node::PowerLeft => match occupant(cells, x + 1, y) {
            Some(Node::Merge(i, _)) => Some(((x + 1, y), Node::Merge(i, true))),
            _ => None,
        },
        _ => None,
    }
}

/// The board after the recompute of the one cell `(x, y)`, before anything
/// is triggered: the cell holds its node refreshed, and the neighbour that
/// a power node marks has its mark. An empty cell changes nothing.
pub open spec fn rewrite(
    resipees: Map<u32, Resipee>,
    cells: Map<(int, int), Node>,
    x: int,
    y: int,
) -> Map<(int, int), Node> {
    match occupant(cells, x, y) {
        None => cells,
        Some(n) => {
            let own = cells.insert((x, y), refreshed(resipees, cells, x, y, n));
            match marked(cells, x, y, n) {
                Some((at, node)) => own.insert(at, node),
                None => own,
            }
        },
    }
}

/// Where a node sends the recompute on, by its kind and orientation alone.
pub open spec fn pushes(n: Node) -> Push {
    match n {
        Node::In(_) => Push::Right,
        Node::Out(_) => Push::Nowhere,
        Node::PowerRight => Push::Nowhere,
        Node::PowerLeft => Push::Nowhere,
        Node::Comb1(_, _, _, _) => Push::Right,
        Node::Comb2(_, _, _, _) => Push::Right,
        Node::Split(_, _) => Push::UpAndDown,
        Node::Merge(_, _) => Push::Right,
        Node::Pipe(_, way) => if pipe_runs_right(way) {
            Push::Right
        } else if way == PIPE_LU {
            Push::Up
        } else {
            Push::Down
        },
    }
}

/// Whether a push goes upward.
pub open spec fn goes_up(p: Push) -> bool {
    p == Push::Up || p == Push::UpAndDown
}

/// Whether a push goes downward.
pub open spec fn goes_down(p: Push) -> bool {
    p == Push::Down || p == Push::UpAndDown
}

/// The cells that the recompute of `(x, y)` triggers, in the order in which
/// it triggers them: the neighbours that its node pushes to, as far as they
/// lie on the grid.
pub open spec fn targets(frame: Frame, cells: Map<(int, int), Node>, x: int, y: int) -> Seq<
    (int, int),
> {
    if !frame.inside(x, y) {
        Seq::empty()
    } else {
        match occupant(cells, x, y) {
            None => Seq::empty(),
            Some(n) => {
                let p = pushes(n);
                let right = if p == Push::Right && frame.inside(x + 1, y) {
                    seq![(x + 1, y)]
                } else {
                    Seq::empty()
                };
                let up = if goes_up(p) && frame.inside(x, y - 1) {
                    seq![(x, y - 1)]
                } else {
                    Seq::empty()
                };
                let down = if goes_down(p) && frame.inside(x, y + 1) {
                    seq![(x, y + 1)]
                } else {
                    Seq::empty()
                };
                right + up + down
            },
        }
    }
}

/// How far a chain of recomputes can still run within its column.
pub open spec fn reach(frame: Frame, y: int, from: Heading) -> int {
    match from {
        Heading::Fresh => frame.height + 1,
        Heading::Up => y + 1,
        Heading::Down => frame.height - y,
    }
}

/// The board after the recompute of `(x, y)` and of everything that it
/// triggers, one chain after the other, each run to its end before the next
/// begins.
///
/// The cell is rewritten, then each cell that its node pushes to is settled
/// in turn, upward before downward. A push never goes back into the cell
/// that has just triggered this one: a recompute that came from below does
/// not push downward, nor one from above upward. Off the grid and at an
/// empty cell the chain ends.
pub open spec fn settle(
    frame: Frame,
    cells: Map<(int, int), Node>,
    x: int,
    y: int,
    from: Heading,
) -> Map<(int, int), Node>
    decreases frame.width - x, reach(frame, y, from),
{
    if !frame.inside(x, y) {
        cells
    } else {
        match occupant(cells, x, y) {
            None => cells,
            Some(n) => {
                let p = pushes(n);
                let own = rewrite(frame.resipees, cells, x, y);
                if p == Push::Right {
                    settle(frame, own, x + 1, y, Heading::Fresh)
                } else {
                    let upper = if goes_up(p) && from != Heading::Down {
                        settle(frame, own, x, y - 1, Heading::Up)
                    } else {
                        own
                    };
                    if goes_down(p) && from != Heading::Up {
                        settle(frame, upper, x, y + 1, Heading::Down)
                    } else {
                        upper
                    }
                }
            },
        }
    }
}

/// Whether the recompute of `(x, y)`, or any that it triggers, holds a push
/// back: whether somewhere in the chain a node would push into the cell
/// that has just triggered it.
pub open spec fn holds_back(
    frame: Frame,
    cells: Map<(int, int), Node>,
    x: int,
    y: int,
    from: Heading,
) -> bool
    decreases frame.width - x, reach(frame, y, from),
{
    if !frame.inside(x, y) {
        false
    } else {
        match occupant(cells, x, y) {
            None => false,
            Some(n) => {
                let p = pushes(n);
                let own = rewrite(frame.resipees, cells, x, y);
                if p == Push::Right {
                    holds_back(frame, own, x + 1, y, Heading::Fresh)
                } else {
                    let upper = if goes_up(p) && from != Heading::Down {
                        settle(frame, own, x, y - 1, Heading::Up)
                    } else {
                        own
                    };
                    ||| goes_up(p) && from == Heading::Down
                    ||| goes_down(p) && from == Heading::Up
                    ||| goes_up(p) && from != Heading::Down && holds_back(
                        frame,
                        own,
                        x,
                        y - 1,
                        Heading::Up,
                    )
                    ||| goes_down(p) && from != Heading::Up && holds_back(
                        frame,
                        upper,
                        x,
                        y + 1,
                        Heading::Down,
                    )
                }
            },
        }
    }
}

/// Whether the cell `(x, y)` holds a node that pushes upward.
pub open spec fn pushes_up_at(cells: Map<(int, int), Node>, x: int, y: int) -> bool {
    match occupant(cells, x, y) {
        Some(n) => goes_up(pushes(n)),
        None => false,
    }
}

/// Whether the cell `(x, y)` holds a node that pushes downward.
pub open spec fn pushes_down_at(cells: Map<(int, int), Node>, x: int, y: int) -> bool {
    match occupant(cells, x, y) {
        Some(n) => goes_down(pushes(n)),
        None => false,
    }
}

/// Whether the board is free of loops: nowhere does a node push down into
/// a node that pushes up into it.
pub open spec fn loop_free(cells: Map<(int, int), Node>) -> bool {
    forall|x: int, y: int|
        !(#[trigger] pushes_down_at(cells, x, y) && pushes_up_at(cells, x, y + 1))
}

/// Whether a recompute of `(x, y)` can have been triggered from the side
/// that the heading tells: from below only by a node that pushes upward,
/// from above only by one that pushes downward.
pub open spec fn triggered_rightly(
    cells: Map<(int, int), Node>,
    x: int,
    y: int,
    from: Heading,
) -> bool {
    match from {
        Heading::Fresh => true,
        Heading::Up => pushes_up_at(cells, x, y + 1),
        Heading::Down => pushes_down_at(cells, x, y - 1),
    }
}

/// The board after each of the given cells, in turn, has been recomputed
/// with everything that it triggers.
pub open spec fn settle_each(frame: Frame, cells: Map<(int, int), Node>, at: Seq<(int, int)>) -> Map<
    (int, int),
    Node,
>
    decreases at.len(),
{
    if at.len() == 0 {
        cells
    } else {
        settle_each(
            frame,
            settle(frame, cells, at[0].0, at[0].1, Heading::Fresh),
            at.drop_first(),
        )
    }
}

/// The board after a node has been put into the cell `(x, y)` of the grid
/// and the cell recomputed.
pub open spec fn placed(frame: Frame, cells: Map<(int, int), Node>, x: int, y: int, n: Node) -> Map<
    (int, int),
    Node,
> {
    settle(frame, cells.insert((x, y), n), x, y, Heading::Fresh)
}

/// The neighbours that depend on a node at `(x, y)`: the cells that it
/// pushes to, and for a power node the cell that it marks.
pub open spec fn dependents(n: Node, x: int, y: int) -> Seq<(int, int)> {
    match n {
        Node::PowerRight => seq![(x - 1, y)],
        Node::PowerLeft => seq![(x + 1, y)],
        _ => match pushes(n) {
            Push::Nowhere => Seq::empty(),
            Push::Right => seq![(x + 1, y)],
            Push::Up => seq![(x, y - 1)],
            Push::Down => seq![(x, y + 1)],
            Push::UpAndDown => seq![(x, y - 1), (x, y + 1)],
        },
    }
}

/// The board after the cell `(x, y)` has been emptied and the neighbours
/// that depended on its node recomputed. An empty cell changes nothing.
pub open spec fn cleared(frame: Frame, cells: Map<(int, int), Node>, x: int, y: int) -> Map<
    (int, int),
    Node,
> {
    match occupant(cells, x, y) {
        None => cells,
        Some(n) => settle_each(frame, cells.remove((x, y)), dependents(n, x, y)),
    }
}

} // verus!
