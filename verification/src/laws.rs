//! What holds of every recompute: it is local, it is idempotent, it keeps
//! the board on the grid and every node in its shape.

use vstd::prelude::*;

use crate::nodes::Node;
use crate::propagation::{
    goes_down, goes_up, holds_back, loop_free, marked, occupant, pushes, pushes_down_at,
    pushes_up_at, reach, refreshed, rewrite, settle, targets, triggered_rightly, Frame, Heading,
    Push,
};
use crate::resipee::Resipee;

verus! {

/// Whether two boards hold a node in the same cells, and in each of them a
/// node of the same kind, tier and orientation.
pub open spec fn same_shapes(before: Map<(int, int), Node>, after: Map<(int, int), Node>) -> bool {
    &&& before.dom() == after.dom()
    &&& forall|p: (int, int)| #[trigger]
        before.contains_key(p) ==> after[p].shape() == before[p].shape()
}

/// Whether two boards agree in the cell `(x, y)` and in the four cells next
/// to it.
pub open spec fn agree_around(
    a: Map<(int, int), Node>,
    b: Map<(int, int), Node>,
    x: int,
    y: int,
) -> bool {
    &&& occupant(a, x, y) == occupant(b, x, y)
    &&& occupant(a, x - 1, y) == occupant(b, x - 1, y)
    &&& occupant(a, x + 1, y) == occupant(b, x + 1, y)
    &&& occupant(a, x, y - 1) == occupant(b, x, y - 1)
    &&& occupant(a, x, y + 1) == occupant(b, x, y + 1)
}

/// Whether two coordinates are the same or next to each other in a row or
/// a column.
pub open spec fn near(p: (int, int), x: int, y: int) -> bool {
    ||| p == (x, y)
    ||| p == (x - 1, y)
    ||| p == (x + 1, y)
    ||| p == (x, y - 1)
    ||| p == (x, y + 1)
}

/// Whether `p` is the cell that a power node at `(x, y)` marks.
pub open spec fn is_marked_by(cells: Map<(int, int), Node>, x: int, y: int, p: (int, int)) -> bool {
    match occupant(cells, x, y) {
        Some(n) => match marked(cells, x, y, n) {
            Some((at, _)) => at == p,
            None => false,
        },
        None => false,
    }
}

/// A recompute writes only where it stands: the rewrite of `(x, y)` leaves
/// every cell as it is but `(x, y)` itself and, for a power node, the one
/// neighbour that it marks; it empties no cell and fills none.
pub proof fn lemma_rewrite_writes_locally(
    resipees: Map<u32, Resipee>,
    cells: Map<(int, int), Node>,
    x: int,
    y: int,
)
    ensures
        rewrite(resipees, cells, x, y).dom() == cells.dom(),
        forall|p: (int, int)|
            p != (x, y) && !is_marked_by(cells, x, y, p) ==> #[trigger] occupant(
                rewrite(resipees, cells, x, y),
                p.0,
                p.1,
            ) == occupant(cells, p.0, p.1),
        forall|p: (int, int)|
            !near(p, x, y) ==> #[trigger] occupant(rewrite(resipees, cells, x, y), p.0, p.1)
                == occupant(cells, p.0, p.1),
{
    assert(rewrite(resipees, cells, x, y).dom() =~= cells.dom());
}

/// A recompute reads only where it stands: on two boards that agree in
/// `(x, y)` and its four neighbours, the rewrite of `(x, y)` leaves the
/// same in these five cells, and triggers the same cells.
pub proof fn lemma_rewrite_reads_locally(
    frame: Frame,
    a: Map<(int, int), Node>,
    b: Map<(int, int), Node>,
    x: int,
    y: int,
)
    requires
        agree_around(a, b, x, y),
    ensures
        agree_around(rewrite(frame.resipees, a, x, y), rewrite(frame.resipees, b, x, y), x, y),
        targets(frame, a, x, y) == targets(frame, b, x, y),
{
}

/// A recompute triggers only neighbours on the grid: each is the cell to
/// the right, above or below, and none lies off the grid.
pub proof fn lemma_targets_are_neighbours(
    frame: Frame,
    cells: Map<(int, int), Node>,
    x: int,
    y: int,
)
    ensures
        forall|i: int|
            0 <= i < targets(frame, cells, x, y).len() ==> {
                let t = #[trigger] targets(frame, cells, x, y)[i];
                &&& frame.inside(t.0, t.1)
                &&& (t == (x + 1, y) || t == (x, y - 1) || t == (x, y + 1))
            },
{
}

/// The rewrite of a cell keeps every node in its shape and on its place.
pub proof fn lemma_rewrite_keeps_shapes(
    resipees: Map<u32, Resipee>,
    cells: Map<(int, int), Node>,
    x: int,
    y: int,
)
    ensures
        same_shapes(cells, rewrite(resipees, cells, x, y)),
{
    assert(rewrite(resipees, cells, x, y).dom() =~= cells.dom());
}

/// The rewrite of a cell is idempotent: done again at once, it leaves the
/// board as the first left it, and it triggers the same cells.
pub proof fn lemma_rewrite_idempotent(
    frame: Frame,
    cells: Map<(int, int), Node>,
    x: int,
    y: int,
)
    ensures
        rewrite(frame.resipees, rewrite(frame.resipees, cells, x, y), x, y) == rewrite(
            frame.resipees,
            cells,
            x,
            y,
        ),
        targets(frame, rewrite(frame.resipees, cells, x, y), x, y) == targets(frame, cells, x, y),
{
    let once = rewrite(frame.resipees, cells, x, y);
    let twice = rewrite(frame.resipees, once, x, y);
    assert(twice =~= once);
}

/// Keeping shapes carries over from one step to the next.
pub proof fn lemma_same_shapes_chain(
    a: Map<(int, int), Node>,
    b: Map<(int, int), Node>,
    c: Map<(int, int), Node>,
)
    requires
        same_shapes(a, b),
        same_shapes(b, c),
    ensures
        same_shapes(a, c),
{
    assert forall|p: (int, int)| #[trigger] a.contains_key(p) implies c[p].shape()
        == a[p].shape() by {
        assert(b.contains_key(p));
    }
}

/// A recompute with all that it triggers keeps every node in its shape and
/// on its place: no cell is emptied or filled, no node changes its kind,
/// its tier or its orientation.
pub proof fn lemma_settle_keeps_shapes(
    frame: Frame,
    cells: Map<(int, int), Node>,
    x: int,
    y: int,
    from: Heading,
)
    ensures
        same_shapes(cells, settle(frame, cells, x, y, from)),
    decreases frame.width - x, reach(frame, y, from),
{
    if frame.inside(x, y) && occupant(cells, x, y) is Some {
        let n = occupant(cells, x, y)->0;
        let p = pushes(n);
        let own = rewrite(frame.resipees, cells, x, y);
        lemma_rewrite_keeps_shapes(frame.resipees, cells, x, y);
        if p == Push::Right {
            lemma_settle_keeps_shapes(frame, own, x + 1, y, Heading::Fresh);
            lemma_same_shapes_chain(cells, own, settle(frame, own, x + 1, y, Heading::Fresh));
        } else {
            let upper = if goes_up(p) && from != Heading::Down {
                settle(frame, own, x, y - 1, Heading::Up)
            } else {
                own
            };
            if goes_up(p) && from != Heading::Down {
                lemma_settle_keeps_shapes(frame, own, x, y - 1, Heading::Up);
            }
            lemma_same_shapes_chain(cells, own, upper);
            if goes_down(p) && from != Heading::Up {
                lemma_settle_keeps_shapes(frame, upper, x, y + 1, Heading::Down);
                lemma_same_shapes_chain(
                    cells,
                    upper,
                    settle(frame, upper, x, y + 1, Heading::Down),
                );
            }
        }
    }
}

/// A recompute at any coordinate, be it at an edge or in a corner, leaves
/// the board on the grid: where every node lay on the grid and was well
/// formed before, it is so after.
pub proof fn lemma_settle_stays_on_grid(
    frame: Frame,
    cells: Map<(int, int), Node>,
    x: int,
    y: int,
    from: Heading,
)
    requires
        frame.holds(cells),
    ensures
        frame.holds(settle(frame, cells, x, y, from)),
{
    lemma_settle_keeps_shapes(frame, cells, x, y, from);
    let after = settle(frame, cells, x, y, from);
    assert forall|p: (int, int)| #[trigger] after.contains_key(p) implies frame.inside(p.0, p.1)
        && after[p].wf() by {
        assert(cells.contains_key(p));
        assert(after[p].shape() == cells[p].shape());
    }
}

/// A recompute with all that it triggers sends on as before: the cell
/// `(x, y)` triggers the same cells after it as before it.
pub proof fn lemma_settle_keeps_targets(
    frame: Frame,
    cells: Map<(int, int), Node>,
    x: int,
    y: int,
    from: Heading,
    tx: int,
    ty: int,
)
    ensures
        targets(frame, settle(frame, cells, x, y, from), tx, ty) == targets(frame, cells, tx, ty),
{
    lemma_settle_keeps_shapes(frame, cells, x, y, from);
    let after = settle(frame, cells, x, y, from);
    if cells.contains_key((tx, ty)) {
        assert(after[(tx, ty)].shape() == cells[(tx, ty)].shape());
    }
}

/// Whether the cell `p` is the same on both boards, or holds a split that
/// stands left of a right power node and has on the second board the mark
/// that this node gives it.
pub open spec fn marked_at_most(
    before: Map<(int, int), Node>,
    after: Map<(int, int), Node>,
    p: (int, int),
) -> bool {
    ||| occupant(after, p.0, p.1) == occupant(before, p.0, p.1)
    ||| {
        &&& before.contains_key(p)
        &&& after.contains_key(p)
        &&& before[p] is Split
        &&& after[p] == Node::Split(before[p]->Split_0, true)
        &&& occupant(before, p.0 + 1, p.1) == Some(Node::PowerRight)
    }
}

/// Whether the cell `p` lies where a chain of recomputes that starts at
/// `(x, y)` cannot come: to the left of the column, or in the column on the
/// side that the chain came from.
pub open spec fn behind(x: int, y: int, from: Heading, p: (int, int)) -> bool {
    ||| p.0 < x
    ||| p.0 == x && from == Heading::Up && p.1 > y
    ||| p.0 == x && from == Heading::Down && p.1 < y
}

/// A recompute never works backward: with all that it triggers, it leaves
/// every cell to the left of its column as it is, and every cell of its
/// column on the side that it was triggered from, but for the mark that a
/// right power node on the way gives to the split on its left.
pub proof fn lemma_settle_leaves_behind(
    frame: Frame,
    cells: Map<(int, int), Node>,
    x: int,
    y: int,
    from: Heading,
)
    ensures
        forall|p: (int, int)|
            behind(x, y, from, p) ==> #[trigger] marked_at_most(
                cells,
                settle(frame, cells, x, y, from),
                p,
            ),
    decreases frame.width - x, reach(frame, y, from),
{
    if frame.inside(x, y) && occupant(cells, x, y) is Some {
        let n = occupant(cells, x, y)->0;
        let p = pushes(n);
        let own = rewrite(frame.resipees, cells, x, y);
        lemma_rewrite_keeps_shapes(frame.resipees, cells, x, y);
        assert forall|q: (int, int)| behind(x, y, from, q) implies #[trigger] marked_at_most(
            cells,
            own,
            q,
        ) by {}
        if p == Push::Right {
            let last = settle(frame, own, x + 1, y, Heading::Fresh);
            lemma_settle_leaves_behind(frame, own, x + 1, y, Heading::Fresh);
            assert forall|q: (int, int)| behind(x, y, from, q) implies #[trigger] marked_at_most(
                cells,
                last,
                q,
            ) by {
                lemma_marked_at_most_chain(cells, own, last, q);
            }
        } else {
            let upper = if goes_up(p) && from != Heading::Down {
                settle(frame, own, x, y - 1, Heading::Up)
            } else {
                own
            };
            if goes_up(p) && from != Heading::Down {
                lemma_settle_leaves_behind(frame, own, x, y - 1, Heading::Up);
                lemma_settle_keeps_shapes(frame, own, x, y - 1, Heading::Up);
            }
            lemma_same_shapes_chain(cells, own, upper);
            assert forall|q: (int, int)| behind(x, y, from, q) implies #[trigger] marked_at_most(
                cells,
                upper,
                q,
            ) by {
                if goes_up(p) && from != Heading::Down {
                    lemma_marked_at_most_chain(cells, own, upper, q);
                }
            }
            if goes_down(p) && from != Heading::Up {
                let last = settle(frame, upper, x, y + 1, Heading::Down);
                lemma_settle_leaves_behind(frame, upper, x, y + 1, Heading::Down);
                assert forall|q: (int, int)| behind(x, y, from, q) implies #[trigger] marked_at_most(
                    cells,
                    last,
                    q,
                ) by {
                    lemma_marked_at_most_chain(cells, upper, last, q);
                }
            }
        }
    }
}

/// A cell that is marked at most from one board to the next, and from that
/// to a third, is marked at most from the first to the third, as long as
/// the first step kept the shapes.
pub proof fn lemma_marked_at_most_chain(
    a: Map<(int, int), Node>,
    b: Map<(int, int), Node>,
    c: Map<(int, int), Node>,
    p: (int, int),
)
    requires
        same_shapes(a, b),
        marked_at_most(a, b, p),
        marked_at_most(b, c, p),
    ensures
        marked_at_most(a, c, p),
{
    let right = (p.0 + 1, p.1);
    if b.contains_key(right) {
        assert(a.contains_key(right));
        assert(b[right].shape() == a[right].shape());
    }
}

/// What a recompute leaves in its own cell is the node that it found
/// there, refreshed from the neighbours as they stood: nothing that it
/// triggers comes back to change it.
pub proof fn lemma_settle_own_cell(
    frame: Frame,
    cells: Map<(int, int), Node>,
    x: int,
    y: int,
    from: Heading,
)
    requires
        frame.inside(x, y),
        occupant(cells, x, y) is Some,
    ensures
        occupant(settle(frame, cells, x, y, from), x, y) == Some(
            refreshed(frame.resipees, cells, x, y, occupant(cells, x, y)->0),
        ),
{
    let n = occupant(cells, x, y)->0;
    let p = pushes(n);
    let own = rewrite(frame.resipees, cells, x, y);
    let here = (x, y);
    lemma_rewrite_keeps_shapes(frame.resipees, cells, x, y);
    assert(occupant(own, x, y) == Some(refreshed(frame.resipees, cells, x, y, n)));
    if p == Push::Right {
        lemma_settle_leaves_behind(frame, own, x + 1, y, Heading::Fresh);
        assert(behind(x + 1, y, Heading::Fresh, here));
        assert(marked_at_most(own, settle(frame, own, x + 1, y, Heading::Fresh), here));
    } else {
        let upper = if goes_up(p) && from != Heading::Down {
            settle(frame, own, x, y - 1, Heading::Up)
        } else {
            own
        };
        if goes_up(p) && from != Heading::Down {
            lemma_settle_leaves_behind(frame, own, x, y - 1, Heading::Up);
            lemma_settle_keeps_shapes(frame, own, x, y - 1, Heading::Up);
            assert(behind(x, y - 1, Heading::Up, here));
            assert(marked_at_most(own, upper, here));
        }
        assert(occupant(upper, x, y) == occupant(own, x, y));
        if goes_down(p) && from != Heading::Up {
            let last = settle(frame, upper, x, y + 1, Heading::Down);
            lemma_settle_leaves_behind(frame, upper, x, y + 1, Heading::Down);
            assert(behind(x, y + 1, Heading::Down, here));
            assert(marked_at_most(upper, last, here));
            lemma_same_shapes_chain(cells, own, upper);
            let right = (x + 1, y);
            if upper.contains_key(right) {
                assert(cells.contains_key(right));
                assert(upper[right].shape() == cells[right].shape());
            }
        }
    }
}

/// A recompute is idempotent: done twice in a row at the same cell, with
/// all that it triggers and no edit in between, it leaves in that cell the
/// second time what it left there the first time, and it triggers the same
/// cells both times.
pub proof fn lemma_recompute_idempotent(frame: Frame, cells: Map<(int, int), Node>, x: int, y: int)
    ensures
        ({
            let once = settle(frame, cells, x, y, Heading::Fresh);
            let twice = settle(frame, once, x, y, Heading::Fresh);
            &&& occupant(twice, x, y) == occupant(once, x, y)
            &&& targets(frame, once, x, y) == targets(frame, cells, x, y)
        }),
{
    let once = settle(frame, cells, x, y, Heading::Fresh);
    lemma_settle_keeps_targets(frame, cells, x, y, Heading::Fresh, x, y);
    lemma_settle_keeps_shapes(frame, cells, x, y, Heading::Fresh);
    if frame.inside(x, y) && occupant(cells, x, y) is Some {
        let n = occupant(cells, x, y)->0;
        let n1 = refreshed(frame.resipees, cells, x, y, n);
        let p = pushes(n);
        let own = rewrite(frame.resipees, cells, x, y);
        lemma_settle_own_cell(frame, cells, x, y, Heading::Fresh);
        lemma_settle_own_cell(frame, once, x, y, Heading::Fresh);
        lemma_rewrite_keeps_shapes(frame.resipees, cells, x, y);
        // The cell to the left is out of the reach of the whole chain.
        lemma_settle_leaves_behind(frame, cells, x, y, Heading::Fresh);
        assert(behind(x, y, Heading::Fresh, (x - 1, y)));
        assert(marked_at_most(cells, once, (x - 1, y)));
        // The cell to the right keeps its kind.
        let right = (x + 1, y);
        if cells.contains_key(right) {
            assert(once[right].shape() == cells[right].shape());
        }
        if p == Push::Right {
            // The cells above and below are out of the reach of what goes on to the right.
            lemma_settle_leaves_behind(frame, own, x + 1, y, Heading::Fresh);
            let rest = settle(frame, own, x + 1, y, Heading::Fresh);
            assert(once == rest);
            assert(behind(x + 1, y, Heading::Fresh, (x, y - 1)));
            assert(behind(x + 1, y, Heading::Fresh, (x, y + 1)));
            assert(marked_at_most(own, rest, (x, y - 1)));
            assert(marked_at_most(own, rest, (x, y + 1)));
        }
        assert(refreshed(frame.resipees, once, x, y, n1) == n1);
    }
}

/// Boards that hold nodes of the same shapes push alike and are free of
/// loops alike.
pub proof fn lemma_same_shapes_push_alike(
    before: Map<(int, int), Node>,
    after: Map<(int, int), Node>,
)
    requires
        same_shapes(before, after),
    ensures
        forall|x: int, y: int| #[trigger]
            pushes_up_at(after, x, y) == pushes_up_at(before, x, y),
        forall|x: int, y: int| #[trigger]
            pushes_down_at(after, x, y) == pushes_down_at(before, x, y),
        loop_free(before) ==> loop_free(after),
{
    assert forall|x: int, y: int|
        #[trigger] pushes_up_at(after, x, y) == pushes_up_at(before, x, y)
        && #[trigger] pushes_down_at(after, x, y) == pushes_down_at(before, x, y) by {
        if before.contains_key((x, y)) {
            assert(after[(x, y)].shape() == before[(x, y)].shape());
        }
    }
    if loop_free(before) {
        assert forall|x: int, y: int|
            !(#[trigger] pushes_down_at(after, x, y) && pushes_up_at(after, x, y + 1)) by {
            assert(pushes_down_at(after, x, y) == pushes_down_at(before, x, y));
            assert(pushes_up_at(after, x, y + 1) == pushes_up_at(before, x, y + 1));
        }
    }
}

/// On a board that is free of loops no push is ever held back: a recompute
/// there follows every push of every node that it comes to, on to the end
/// of each chain.
pub proof fn lemma_loop_free_holds_nothing_back(
    frame: Frame,
    cells: Map<(int, int), Node>,
    x: int,
    y: int,
    from: Heading,
)
    requires
        loop_free(cells),
        triggered_rightly(cells, x, y, from),
    ensures
        !holds_back(frame, cells, x, y, from),
    decreases frame.width - x, reach(frame, y, from),
{
    if frame.inside(x, y) && occupant(cells, x, y) is Some {
        let n = occupant(cells, x, y)->0;
        let p = pushes(n);
        let own = rewrite(frame.resipees, cells, x, y);
        lemma_rewrite_keeps_shapes(frame.resipees, cells, x, y);
        lemma_same_shapes_push_alike(cells, own);
        assert(pushes_up_at(cells, x, y) == goes_up(p));
        assert(pushes_down_at(cells, x, y) == goes_down(p));
        assert(pushes_up_at(own, x, y) == pushes_up_at(cells, x, y));
        assert(pushes_down_at(own, x, y) == pushes_down_at(cells, x, y));
        if p == Push::Right {
            lemma_loop_free_holds_nothing_back(frame, own, x + 1, y, Heading::Fresh);
        } else {
            if from == Heading::Up {
                assert(!(pushes_down_at(cells, x, y) && pushes_up_at(cells, x, y + 1)));
            }
            if from == Heading::Down {
                assert(!(pushes_down_at(cells, x, y - 1) && pushes_up_at(cells, x, y - 1 + 1)));
            }
            let upper = if goes_up(p) && from != Heading::Down {
                settle(frame, own, x, y - 1, Heading::Up)
            } else {
                own
            };
            if goes_up(p) && from != Heading::Down {
                assert(pushes_up_at(own, x, y - 1 + 1));
                lemma_loop_free_holds_nothing_back(frame, own, x, y - 1, Heading::Up);
                lemma_settle_keeps_shapes(frame, own, x, y - 1, Heading::Up);
            }
            lemma_same_shapes_push_alike(own, upper);
            if goes_down(p) && from != Heading::Up {
                assert(pushes_down_at(upper, x, y) == pushes_down_at(own, x, y));
                assert(pushes_down_at(upper, x, y + 1 - 1));
                lemma_loop_free_holds_nothing_back(frame, upper, x, y + 1, Heading::Down);
            }
        }
    }
}

} // verus!
