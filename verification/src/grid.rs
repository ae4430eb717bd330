//! The grid: a rectangle of cells, each empty or holding one node, and the
//! engine that keeps what the nodes carry in step with their neighbours.

use std::collections::HashMap;
use vstd::prelude::*;

use crate::nodes::{Node, PIPE_DR, PIPE_LD, PIPE_LU};
use crate::propagation::{
    cleared, dependents, handed_across, handed_right, marked, occupant, piped, placed, pushes,
    refreshed, rewrite, settle, settle_each, shown_by_split, shown_right, Frame, Heading, Push,
};
use crate::resipee::{
    find_resipee, makes, Colour, EngineError, Ingredient, MachineRequirement, Resipee,
};

verus! {

/// A board of fixed extent with the recipes that its combiners follow.
pub struct Grid {
    grid: Vec<Vec<Option<Node>>>,
    width: usize,
    height: usize,
    resipees: HashMap<u32, Resipee>,
}

impl View for Grid {
    type V = Map<(int, int), Node>;

    /// The nodes on the board, each under its coordinate `(x, y)`.
    closed spec fn view(&self) -> Map<(int, int), Node> {
        Map::new(
            |p: (int, int)|
                0 <= p.0 < self.width && 0 <= p.1 < self.height && self.grid@[p.1]@[p.0] is Some,
            |p: (int, int)| self.grid@[p.1]@[p.0].unwrap(),
        )
    }
}

impl Grid {
    /// The invariant of a grid: it is at least two cells wide and high, its
    /// store is a rectangle of that extent, and every node on it is well
    /// formed.
    pub closed spec fn wf(&self) -> bool {
        &&& self.width >= 2
        &&& self.height >= 2
        &&& self.grid@.len() == self.height
        &&& forall|y: int| 0 <= y < self.height ==> (#[trigger] self.grid@[y])@.len() == self.width
        &&& forall|x: int, y: int|
            0 <= x < self.width && 0 <= y < self.height ==> match (#[trigger] self.grid@[y]@[x]) {
                Some(n) => n.wf(),
                None => true,
            }
    }

    /// The extent and the recipes of this grid.
    pub closed spec fn frame(&self) -> Frame {
        Frame { width: self.width as int, height: self.height as int, resipees: self.resipees@ }
    }

    /// A well-formed grid holds well-formed nodes, all of them on the grid.
    pub proof fn lemma_wf(&self)
        requires
            self.wf(),
        ensures
            self.frame().width >= 2,
            self.frame().height >= 2,
            self.frame().width <= usize::MAX,
            self.frame().height <= usize::MAX,
            self.frame().holds(self@),
    {
        assert forall|p: (int, int)| #[trigger] self@.contains_key(p) implies self.frame().inside(
            p.0,
            p.1,
        ) && self@[p].wf() by {
            assert(self.grid@[p.1]@[p.0] is Some);
        }
    }

    /// An empty grid of the given extent.
    pub fn new(width: usize, height: usize, resipees: HashMap<u32, Resipee>) -> (g: Grid)
        requires
            width >= 2,
            height >= 2,
        ensures
            g.wf(),
            g@ == Map::<(int, int), Node>::empty(),
            g.frame() == (Frame {
                width: width as int,
                height: height as int,
                resipees: resipees@,
            }),
    {
        let mut rows: Vec<Vec<Option<Node>>> = Vec::new();
        let mut y: usize = 0;
        while y < height
            invariant
                y <= height,
                rows@.len() == y,
                forall|j: int| 0 <= j < y ==> (#[trigger] rows@[j])@.len() == width,
                forall|i: int, j: int|
                    0 <= i < width && 0 <= j < y ==> (#[trigger] rows@[j]@[i]) is None,
            decreases height - y,
        {
            let mut row: Vec<Option<Node>> = Vec::new();
            let mut x: usize = 0;
            while x < width
                invariant
                    x <= width,
                    row@.len() == x,
                    forall|i: int| 0 <= i < x ==> (#[trigger] row@[i]) is None,
                decreases width - x,
            {
                row.push(None);
                x = x + 1;
            }
            rows.push(row);
            y = y + 1;
        }
        let g = Grid { grid: rows, width, height, resipees };
        assert(g@ =~= Map::<(int, int), Node>::empty());
        g
    }

    /// The number of columns.
    pub fn width(&self) -> (w: usize)
        ensures
            w == self.frame().width,
    {
        self.width
    }

    /// The number of rows.
    pub fn height(&self) -> (h: usize)
        ensures
            h == self.frame().height,
    {
        self.height
    }

    /// The cell at a coordinate on the grid.
    pub fn get_node_at_pos(&self, x: usize, y: usize) -> (cell: &Option<Node>)
        requires
            self.wf(),
            self.frame().inside(x as int, y as int),
        ensures
            *cell == occupant(self@, x as int, y as int),
    {
        &self.grid[y][x]
    }

    /// Puts a node into a cell on the grid and leaves every other cell as it is.
    fn store(&mut self, x: usize, y: usize, node: Node)
        requires
            old(self).wf(),
            old(self).frame().inside(x as int, y as int),
            node.wf(),
        ensures
            final(self).wf(),
            final(self).frame() == old(self).frame(),
            final(self)@ == old(self)@.insert((x as int, y as int), node),
    {
        self.grid[y][x] = Some(node);
        assert(self@ =~= old(self)@.insert((x as int, y as int), node));
    }

    /// The cell to the left of a cell on the grid; empty at the left edge.
    fn left_of(&self, x: usize, y: usize) -> (cell: Option<Node>)
        requires
            self.wf(),
            self.frame().inside(x as int, y as int),
        ensures
            cell == occupant(self@, x - 1, y as int),
    {
        if x > 0 {
            self.grid[y][x - 1]
        } else {
            None
        }
    }

    /// The cell to the right of a cell on the grid; empty at the right edge.
    fn right_of(&self, x: usize, y: usize) -> (cell: Option<Node>)
        requires
            self.wf(),
            self.frame().inside(x as int, y as int),
        ensures
            cell == occupant(self@, x + 1, y as int),
    {
        if x + 1 < self.width {
            self.grid[y][x + 1]
        } else {
            None
        }
    }

    /// The cell above a cell on the grid; empty at the top edge.
    fn above(&self, x: usize, y: usize) -> (cell: Option<Node>)
        requires
            self.wf(),
            self.frame().inside(x as int, y as int),
        ensures
            cell == occupant(self@, x as int, y - 1),
    {
        if y > 0 {
            self.grid[y - 1][x]
        } else {
            None
        }
    }

    /// The cell below a cell on the grid; empty at the bottom edge.
    fn below(&self, x: usize, y: usize) -> (cell: Option<Node>)
        requires
            self.wf(),
            self.frame().inside(x as int, y as int),
        ensures
            cell == occupant(self@, x as int, y + 1),
    {
        if y + 1 < self.height {
            self.grid[y + 1][x]
        } else {
            None
        }
    }

    /// The node that a recompute leaves in the cell `(x, y)`, which holds `node`.
    fn refresh(&self, x: usize, y: usize, node: Node) -> (fresh: Node)
        requires
            self.wf(),
            self.frame().inside(x as int, y as int),
            node.wf(),
        ensures
            fresh == refreshed(self.frame().resipees, self@, x as int, y as int, node),
            fresh.wf(),
            fresh.shape() == node.shape(),
    {
        match node {
            Node::In(i) => Node::In(i),
            Node::Out(_) => Node::Out(show_right(self.left_of(x, y), &self.resipees)),
            Node::PowerRight => Node::PowerRight,
            Node::PowerLeft => Node::PowerLeft,
            Node::Comb1(_, _, _, tier) => Node::Comb1(
                hand_across(self.above(x, y), PIPE_LD),
                hand_right(self.left_of(x, y), &self.resipees),
                hand_across(self.below(x, y), PIPE_LU),
                tier,
            ),
            Node::Comb2(_, _, _, tier) => Node::Comb2(
                hand_across(self.above(x, y), PIPE_LD),
                hand_right(self.left_of(x, y), &self.resipees),
                hand_across(self.below(x, y), PIPE_LU),
                tier,
            ),
            Node::Split(_, _) => {
                let linked = match self.right_of(x, y) {
                    Some(Node::PowerRight) => true,
                    _ => false,
                };
                Node::Split(hand_right(self.left_of(x, y), &self.resipees), linked)
            },
            Node::Merge(_, linked) => {
                let from_above = pipe_load(self.above(x, y), PIPE_LD);
                let found = match from_above {
                    Ingredient::Nothing => pipe_load(self.below(x, y), PIPE_LU),
                    _ => from_above,
                };
                Node::Merge(found, linked)
            },
            Node::Pipe(_, way) => if way <= PIPE_LD {
                Node::Pipe(hand_right(self.left_of(x, y), &self.resipees), way)
            } else if way == PIPE_DR {
                Node::Pipe(show_split(self.below(x, y)), way)
            } else {
                Node::Pipe(show_split(self.above(x, y)), way)
            },
        }
    }

    /// Recomputes the one cell `(x, y)`, which holds `node`, and triggers nothing.
    fn rewrite_cell(&mut self, x: usize, y: usize, node: Node)
        requires
            old(self).wf(),
            old(self).frame().inside(x as int, y as int),
            occupant(old(self)@, x as int, y as int) == Some(node),
        ensures
            final(self).wf(),
            final(self).frame() == old(self).frame(),
            final(self)@ == rewrite(old(self).frame().resipees, old(self)@, x as int, y as int),
    {
        proof {
            self.lemma_wf();
        }
        let ghost before = self@;
        let ghost resipees = self.frame().resipees;
        match node {
            Node::PowerRight => {
                assert(before.insert((x as int, y as int), node) =~= before);
                match self.left_of(x, y) {
                    Some(Node::Split(i, _)) => {
                        self.store(x - 1, y, Node::Split(i, true));
                    },
                    _ => {},
                }
            },
            Node::PowerLeft => {
                assert(before.insert((x as int, y as int), node) =~= before);
                match self.right_of(x, y) {
                    Some(Node::Merge(i, _)) => {
                        self.store(x + 1, y, Node::Merge(i, true));
                    },
                    _ => {},
                }
            },
            _ => {
                let fresh = self.refresh(x, y, node);
                assert(marked(before, x as int, y as int, node) is None);
                self.store(x, y, fresh);
            },
        }
    }

    /// Recomputes the cell `(x, y)` and everything that it triggers, as a
    /// recompute that was itself triggered from the side `from` tells.
    fn propagate(&mut self, x: usize, y: usize, from: Heading)
        requires
            old(self).wf(),
        ensures
            final(self).wf(),
            final(self).frame() == old(self).frame(),
            final(self)@ == settle(old(self).frame(), old(self)@, x as int, y as int, from),
        decreases
            old(self).frame().width - x,
            crate::propagation::reach(old(self).frame(), y as int, from),
    {
        if x >= self.width || y >= self.height {
            return ;
        }
        let node = match self.grid[y][x] {
            Some(n) => n,
            None => {
                return ;
            },
        };
        let push = push_of(node);
        proof {
            reveal_with_fuel(settle, 2);
        }
        self.rewrite_cell(x, y, node);
        match push {
            Push::Nowhere => {},
            Push::Right => {
                if x + 1 < self.width {
                    self.propagate(x + 1, y, Heading::Fresh);
                }
            },
            _ => {
                let up = match push {
                    Push::Up | Push::UpAndDown => true,
                    _ => false,
                };
                let down = match push {
                    Push::Down | Push::UpAndDown => true,
                    _ => false,
                };
                if up && from != Heading::Down && y > 0 {
                    self.propagate(x, y - 1, Heading::Up);
                }
                if down && from != Heading::Up && y + 1 < self.height {
                    self.propagate(x, y + 1, Heading::Down);
                }
            },
        }
    }

    /// Recomputes the cell `(x, y)` from its neighbours, then every cell
    /// that depends on it, chain by chain. Off the grid and at an empty cell
    /// nothing happens.
    pub fn recompute(&mut self, x: usize, y: usize)
        requires
            old(self).wf(),
        ensures
            final(self).wf(),
            final(self).frame() == old(self).frame(),
            final(self)@ == settle(
                old(self).frame(),
                old(self)@,
                x as int,
                y as int,
                Heading::Fresh,
            ),
    {
        self.propagate(x, y, Heading::Fresh)
    }

    /// Empties a cell on the grid and leaves every other cell as it is.
    fn erase(&mut self, x: usize, y: usize)
        requires
            old(self).wf(),
            old(self).frame().inside(x as int, y as int),
        ensures
            final(self).wf(),
            final(self).frame() == old(self).frame(),
            final(self)@ == old(self)@.remove((x as int, y as int)),
    {
        self.grid[y][x] = None;
        assert(self@ =~= old(self)@.remove((x as int, y as int)));
    }

    /// Places a node: writes it into the cell `(x, y)` and recomputes the
    /// cell with everything that depends on it. A coordinate off the grid
    /// is reported and changes nothing.
    pub fn set_node(&mut self, x: usize, y: usize, node: Node) -> (r: Result<(), EngineError>)
        requires
            old(self).wf(),
            node.wf(),
        ensures
            final(self).wf(),
            final(self).frame() == old(self).frame(),
            old(self).frame().inside(x as int, y as int) ==> r == Ok::<(), EngineError>(())
                && final(self)@ == placed(old(self).frame(), old(self)@, x as int, y as int, node),
            !old(self).frame().inside(x as int, y as int) ==> r == Err::<(), EngineError>(
                EngineError::OutOfBounds,
            ) && final(self)@ == old(self)@,
    {
        if y >= self.height || x >= self.width {
            return Err(EngineError::OutOfBounds);
        }
        self.store(x, y, node);
        self.recompute(x, y);
        Ok(())
    }

    /// Deletes a node: empties the cell `(x, y)` and recomputes the
    /// neighbours that depended on what it held. A coordinate off the grid
    /// is reported and changes nothing.
    pub fn clear_node(&mut self, x: usize, y: usize) -> (r: Result<(), EngineError>)
        requires
            old(self).wf(),
        ensures
            final(self).wf(),
            final(self).frame() == old(self).frame(),
            old(self).frame().inside(x as int, y as int) ==> r == Ok::<(), EngineError>(())
                && final(self)@ == cleared(old(self).frame(), old(self)@, x as int, y as int),
            !old(self).frame().inside(x as int, y as int) ==> r == Err::<(), EngineError>(
                EngineError::OutOfBounds,
            ) && final(self)@ == old(self)@,
    {
        if y >= self.height || x >= self.width {
            return Err(EngineError::OutOfBounds);
        }
        let node = match self.grid[y][x] {
            Some(n) => n,
            None => {
                return Ok(());
            },
        };
        let ghost at = dependents(node, x as int, y as int);
        proof {
            reveal_with_fuel(settle_each, 3);
        }
        self.erase(x, y);
        match node {
            Node::PowerRight => {
                if x > 0 {
                    self.recompute(x - 1, y);
                }
            },
            Node::PowerLeft => {
                self.recompute(x + 1, y);
            },
            _ => match push_of(node) {
                Push::Nowhere => {},
                Push::Right => {
                    self.recompute(x + 1, y);
                },
                Push::Up => {
                    if y > 0 {
                        self.recompute(x, y - 1);
                    }
                },
                Push::Down => {
                    self.recompute(x, y + 1);
                },
                Push::UpAndDown => {
                    if y > 0 {
                        self.recompute(x, y - 1);
                    }
                    assert(at.drop_first() =~= seq![(x as int, y + 1)]);
                    self.recompute(x, y + 1);
                },
            },
        }
        Ok(())
    }

    /// The status line of the node in the cell `(x, y)`; none for an empty
    /// cell and for a coordinate off the grid.
    pub fn query_description(&self, x: usize, y: usize) -> (line: Option<String>)
        requires
            self.wf(),
        ensures
            match occupant(self@, x as int, y as int) {
                Some(n) => line is Some && line->0@ == n.spec_info(self.frame().resipees),
                None => line is None,
            },
    {
        if y >= self.height || x >= self.width {
            return None;
        }
        match self.grid[y][x] {
            Some(n) => Some(n.info(self.resipees.clone())),
            None => None,
        }
    }

    /// The glyph and the colour that show the cell `(x, y)`; an empty cell
    /// and a coordinate off the grid show as blank.
    pub fn get_display(&self, x: usize, y: usize) -> (shown: (char, Colour))
        requires
            self.wf(),
        ensures
            shown == display_of(occupant(self@, x as int, y as int), self.frame().resipees),
    {
        if y >= self.height || x >= self.width {
            return (SPACE, Colour::Reset);
        }
        match self.grid[y][x] {
            Some(n) => (n.char(), n.resolved_output(&self.resipees).get_colour()),
            None => (SPACE, Colour::Reset),
        }
    }

    /// How an ingredient is made: the inputs and the machine of the recipe
    /// that makes it, under the least key where the table holds several;
    /// no inputs and no machine where it holds none.
    pub fn query_recipe(&self, output: Ingredient) -> (made: (
        [Ingredient; 3],
        Option<MachineRequirement>,
    ))
        ensures
            made.1 is None ==> made.0@ == seq![
                Ingredient::Nothing,
                Ingredient::Nothing,
                Ingredient::Nothing,
            ] && forall|k: u32| !makes(self.frame().resipees, k, output),
            made.1 is Some ==> exists|key: u32|
                {
                    &&& #[trigger] makes(self.frame().resipees, key, output)
                    &&& forall|k: u32| k < key ==> !makes(self.frame().resipees, k, output)
                    &&& made.0 == self.frame().resipees[key].input
                    &&& made.1 == Some(self.frame().resipees[key].machine)
                },
    {
        broadcast use vstd::std_specs::hash::group_hash_axioms;

        let nothing = [Ingredient::Nothing, Ingredient::Nothing, Ingredient::Nothing];
        match find_resipee(&self.resipees, output) {
            Some(key) => match self.resipees.get(&key) {
                Some(r) => {
                    assert(makes(self.frame().resipees, key, output));
                    assert(*r == self.frame().resipees[key]);
                    (r.input, Some(r.machine))
                },
                None => (nothing, None),
            },
            None => {
                assert(nothing@ =~= seq![
                    Ingredient::Nothing,
                    Ingredient::Nothing,
                    Ingredient::Nothing,
                ]);
                (nothing, None)
            },
        }
    }
}

/// The glyph of an empty cell.
pub const SPACE: char = 'ᄢ';

/// How a cell shows: a node by its glyph, in the colour of what it hands
/// on; an empty cell as blank.
pub open spec fn display_of(cell: Option<Node>, resipees: Map<u32, Resipee>) -> (char, Colour) {
    match cell {
        Some(n) => (n.spec_char(), n.resolved(resipees).spec_colour()),
        None => (SPACE, Colour::Reset),
    }
}

/// Where a node sends the recompute on.
fn push_of(node: Node) -> (p: Push)
    ensures
        p == pushes(node),
{
    match node {
        Node::In(_) => Push::Right,
        Node::Out(_) => Push::Nowhere,
        Node::PowerRight => Push::Nowhere,
        Node::PowerLeft => Push::Nowhere,
        Node::Comb1(_, _, _, _) => Push::Right,
        Node::Comb2(_, _, _, _) => Push::Right,
        Node::Split(_, _) => Push::UpAndDown,
        Node::Merge(_, _) => Push::Right,
        Node::Pipe(_, way) => if way != PIPE_LU && way != PIPE_LD {
            Push::Right
        } else if way == PIPE_LU {
            Push::Up
        } else {
            Push::Down
        },
    }
}

/// What a cell hands to its right neighbour.
fn hand_right(cell: Option<Node>, resipees: &HashMap<u32, Resipee>) -> (i: Ingredient)
    ensures
        i == handed_right(cell, resipees@),
{
    match cell {
        Some(n) => match n {
            Node::In(_) | Node::Merge(_, _) | Node::Comb1(_, _, _, _) | Node::Comb2(
                _,
                _,
                _,
                _,
            ) => n.resolved_output(resipees),
            Node::Pipe(i, way) => if way != PIPE_LU && way != PIPE_LD {
                i
            } else {
                Ingredient::Nothing
            },
            _ => Ingredient::Nothing,
        },
        None => Ingredient::Nothing,
    }
}

/// What a cell shows to a sink on its right.
fn show_right(cell: Option<Node>, resipees: &HashMap<u32, Resipee>) -> (i: Ingredient)
    ensures
        i == shown_right(cell, resipees@),
{
    match cell {
        Some(n) => n.resolved_output(resipees),
        None => Ingredient::Nothing,
    }
}

/// What a split shows to the cells above and below it.
fn show_split(cell: Option<Node>) -> (i: Ingredient)
    ensures
        i == shown_by_split(cell),
{
    match cell {
        Some(Node::Split(i, _)) => i,
        _ => Ingredient::Nothing,
    }
}

/// The load of a pipe of the given orientation.
fn pipe_load(cell: Option<Node>, way: u8) -> (i: Ingredient)
    ensures
        i == piped(cell, way),
{
    match cell {
        Some(Node::Pipe(i, w)) => if w == way {
            i
        } else {
            Ingredient::Nothing
        },
        _ => Ingredient::Nothing,
    }
}

/// What a cell hands to a combiner above or below it.
fn hand_across(cell: Option<Node>, way: u8) -> (i: Ingredient)
    ensures
        i == handed_across(cell, way),
{
    match cell {
        Some(Node::Split(i, _)) => i,
        _ => pipe_load(cell, way),
    }
}

} // verus!
