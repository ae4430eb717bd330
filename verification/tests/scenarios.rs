use resipee_grid::grid::Grid;
use resipee_grid::nodes::Node;
use resipee_grid::resipee::{generate_resipees, EngineError, Ingredient};

const NOTHING: Ingredient = Ingredient::Nothing;

fn board() -> Grid {
    Grid::new(15, 15, generate_resipees())
}

fn place(g: &mut Grid, x: usize, y: usize, node: Node) {
    assert_eq!(g.set_node(x, y, node), Ok(()));
}

#[test]
fn input_pipe_output_carries_hot() {
    let mut g = board();
    place(&mut g, 0, 0, Node::In(Ingredient::Hot));
    place(&mut g, 1, 0, Node::Pipe(NOTHING, 0));
    place(&mut g, 2, 0, Node::Out(NOTHING));
    assert!(matches!(g.get_node_at_pos(2, 0), Some(Node::Out(Ingredient::Hot))));
    assert!(matches!(g.get_node_at_pos(1, 0), Some(Node::Pipe(Ingredient::Hot, 0))));
    assert!(matches!(g.get_node_at_pos(0, 0), Some(Node::In(Ingredient::Hot))));
}

#[test]
fn output_placed_first_is_filled_when_the_source_arrives() {
    let mut g = board();
    place(&mut g, 2, 0, Node::Out(NOTHING));
    place(&mut g, 1, 0, Node::Pipe(NOTHING, 0));
    assert!(matches!(g.get_node_at_pos(2, 0), Some(Node::Out(Ingredient::Nothing))));
    place(&mut g, 0, 0, Node::In(Ingredient::Hot));
    assert!(matches!(g.get_node_at_pos(2, 0), Some(Node::Out(Ingredient::Hot))));
}

#[test]
fn combiner_makes_coffee_only_with_all_three_inputs() {
    let mut g = board();
    let recipes = generate_resipees();
    place(&mut g, 0, 0, Node::In(Ingredient::Hot));
    place(&mut g, 0, 1, Node::In(Ingredient::Water));
    place(&mut g, 2, 2, Node::Comb1(NOTHING, NOTHING, NOTHING, 0));
    place(&mut g, 3, 2, Node::Out(NOTHING));
    // left input
    place(&mut g, 1, 2, Node::In(Ingredient::Hot));
    // bottom input: milk through a pipe that pushes upward
    place(&mut g, 1, 3, Node::In(Ingredient::Milk));
    place(&mut g, 2, 3, Node::Pipe(NOTHING, 1));
    match g.get_node_at_pos(2, 2) {
        Some(n) => {
            assert!(matches!(
                n,
                Node::Comb1(Ingredient::Nothing, Ingredient::Hot, Ingredient::Milk, 0)
            ));
            assert_eq!(n.get_ingredient(recipes.clone()), Ingredient::Nothing);
        }
        None => panic!("the combiner is gone"),
    }
    assert!(matches!(g.get_node_at_pos(3, 2), Some(Node::Out(Ingredient::Nothing))));
    // top input: water through a pipe that pushes downward
    place(&mut g, 1, 1, Node::In(Ingredient::Water));
    place(&mut g, 2, 1, Node::Pipe(NOTHING, 2));
    match g.get_node_at_pos(2, 2) {
        Some(n) => {
            assert!(matches!(
                n,
                Node::Comb1(Ingredient::Water, Ingredient::Hot, Ingredient::Milk, 0)
            ));
            assert_eq!(n.get_ingredient(recipes.clone()), Ingredient::Coffee);
        }
        None => panic!("the combiner is gone"),
    }
    assert!(matches!(g.get_node_at_pos(3, 2), Some(Node::Out(Ingredient::Coffee))));
    // the unrelated inputs in the first column are as they were placed
    assert!(matches!(g.get_node_at_pos(0, 0), Some(Node::In(Ingredient::Hot))));
    assert!(matches!(g.get_node_at_pos(0, 1), Some(Node::In(Ingredient::Water))));
}

#[test]
fn power_right_links_the_split_and_its_removal_unlinks_it() {
    let mut g = board();
    place(&mut g, 0, 1, Node::In(Ingredient::Hot));
    place(&mut g, 1, 1, Node::Split(NOTHING, false));
    assert!(matches!(g.get_node_at_pos(1, 1), Some(Node::Split(Ingredient::Hot, false))));
    place(&mut g, 2, 1, Node::PowerRight);
    assert!(matches!(g.get_node_at_pos(1, 1), Some(Node::Split(Ingredient::Hot, true))));
    assert!(matches!(g.get_node_at_pos(2, 1), Some(Node::PowerRight)));
    assert_eq!(g.clear_node(2, 1), Ok(()));
    assert!(g.get_node_at_pos(2, 1).is_none());
    assert!(matches!(g.get_node_at_pos(1, 1), Some(Node::Split(Ingredient::Hot, false))));
    g.recompute(1, 1);
    assert!(matches!(g.get_node_at_pos(1, 1), Some(Node::Split(Ingredient::Hot, false))));
}

#[test]
fn deleting_the_feeding_pipe_empties_the_combiner() {
    let mut g = board();
    let recipes = generate_resipees();
    place(&mut g, 0, 0, Node::In(Ingredient::Metal));
    place(&mut g, 1, 0, Node::Pipe(NOTHING, 0));
    place(&mut g, 2, 0, Node::Comb1(NOTHING, NOTHING, NOTHING, 1));
    // below the combiner a split shows hot
    place(&mut g, 1, 1, Node::In(Ingredient::Hot));
    place(&mut g, 2, 1, Node::Split(NOTHING, false));
    match g.get_node_at_pos(2, 0) {
        Some(n) => {
            assert!(matches!(
                n,
                Node::Comb1(Ingredient::Nothing, Ingredient::Metal, Ingredient::Hot, 1)
            ));
            assert_eq!(n.get_ingredient(recipes.clone()), Ingredient::OtherMetal);
        }
        None => panic!("the combiner is gone"),
    }
    assert_eq!(g.clear_node(1, 0), Ok(()));
    match g.get_node_at_pos(2, 0) {
        Some(n) => {
            assert!(matches!(
                n,
                Node::Comb1(Ingredient::Nothing, Ingredient::Nothing, Ingredient::Hot, 1)
            ));
            assert_eq!(n.get_ingredient(recipes.clone()), Ingredient::Nothing);
        }
        None => panic!("the combiner is gone"),
    }
}

#[test]
fn set_node_below_the_last_row_is_out_of_bounds() {
    let mut g = board();
    place(&mut g, 3, 3, Node::In(Ingredient::Cat));
    assert_eq!(g.set_node(0, 15, Node::In(Ingredient::Hot)), Err(EngineError::OutOfBounds));
    assert_eq!(g.set_node(15, 0, Node::In(Ingredient::Hot)), Err(EngineError::OutOfBounds));
    assert_eq!(g.set_node(usize::MAX, usize::MAX, Node::Out(NOTHING)), Err(EngineError::OutOfBounds));
    for y in 0..15 {
        for x in 0..15 {
            if (x, y) == (3, 3) {
                assert!(matches!(g.get_node_at_pos(x, y), Some(Node::In(Ingredient::Cat))));
            } else {
                assert!(g.get_node_at_pos(x, y).is_none());
            }
        }
    }
}

#[test]
fn the_last_row_and_column_take_nodes() {
    let mut g = board();
    place(&mut g, 14, 14, Node::Out(NOTHING));
    place(&mut g, 13, 14, Node::In(Ingredient::Pink));
    assert!(matches!(g.get_node_at_pos(14, 14), Some(Node::Out(Ingredient::Pink))));
}
