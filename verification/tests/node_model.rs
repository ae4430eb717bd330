use resipee_grid::nodes::Node;
use resipee_grid::resipee::{generate_resipees, Colour, Ingredient};

const NOTHING: Ingredient = Ingredient::Nothing;

#[test]
fn glyphs_of_the_nodes() {
    assert_eq!(Node::In(NOTHING).char(), 'ᄓ');
    assert_eq!(Node::Out(NOTHING).char(), 'ᄔ');
    assert_eq!(Node::PowerRight.char(), 'ᄕ');
    assert_eq!(Node::PowerLeft.char(), 'ᄖ');
    assert_eq!(Node::Comb1(NOTHING, NOTHING, NOTHING, 0).char(), 'ᄗ');
    assert_eq!(Node::Comb1(NOTHING, NOTHING, NOTHING, 1).char(), 'ᄘ');
    assert_eq!(Node::Comb2(NOTHING, NOTHING, NOTHING, 0).char(), 'ᄙ');
    assert_eq!(Node::Comb2(NOTHING, NOTHING, NOTHING, 1).char(), 'ᄚ');
    assert_eq!(Node::Split(NOTHING, false).char(), 'ᄛ');
    assert_eq!(Node::Merge(NOTHING, false).char(), 'ᄜ');
    assert_eq!(Node::Pipe(NOTHING, 0).char(), 'ᄝ');
    assert_eq!(Node::Pipe(NOTHING, 1).char(), 'ᄞ');
    assert_eq!(Node::Pipe(NOTHING, 2).char(), 'ᄟ');
    assert_eq!(Node::Pipe(NOTHING, 3).char(), 'ᄠ');
    assert_eq!(Node::Pipe(NOTHING, 4).char(), 'ᄡ');
}

#[test]
fn glyph_does_not_depend_on_the_load() {
    assert_eq!(Node::In(Ingredient::Hot).char(), Node::In(Ingredient::Cat).char());
    assert_eq!(Node::Pipe(Ingredient::Hot, 3).char(), Node::Pipe(NOTHING, 3).char());
}

#[test]
fn nodes_are_equal_by_kind_alone() {
    assert!(Node::In(Ingredient::Hot) == Node::In(Ingredient::Cold));
    assert!(Node::Pipe(Ingredient::Hot, 0) == Node::Pipe(NOTHING, 4));
    assert!(Node::Split(NOTHING, true) == Node::Split(Ingredient::Milk, false));
    assert!(Node::In(Ingredient::Hot) != Node::Out(Ingredient::Hot));
    assert!(Node::Comb1(NOTHING, NOTHING, NOTHING, 0) != Node::Comb2(NOTHING, NOTHING, NOTHING, 0));
    assert!(Node::PowerLeft != Node::PowerRight);
    assert!(Node::Split(NOTHING, false) != Node::Merge(NOTHING, false));
}

#[test]
fn kind_codes_are_distinct() {
    let nodes = [
        Node::In(NOTHING),
        Node::Out(NOTHING),
        Node::PowerRight,
        Node::PowerLeft,
        Node::Comb1(NOTHING, NOTHING, NOTHING, 0),
        Node::Comb2(NOTHING, NOTHING, NOTHING, 0),
        Node::Split(NOTHING, false),
        Node::Merge(NOTHING, false),
        Node::Pipe(NOTHING, 0),
    ];
    for (i, n) in nodes.iter().enumerate() {
        assert_eq!(n.kind_code() as usize, i);
    }
}

#[test]
fn carriers_hand_on_what_they_carry() {
    let t = generate_resipees();
    assert_eq!(Node::In(Ingredient::Hot).get_ingredient(t.clone()), Ingredient::Hot);
    assert_eq!(Node::Out(Ingredient::Cold).get_ingredient(t.clone()), Ingredient::Cold);
    assert_eq!(Node::Split(Ingredient::Milk, true).get_ingredient(t.clone()), Ingredient::Milk);
    assert_eq!(Node::Merge(Ingredient::Cat, false).get_ingredient(t.clone()), Ingredient::Cat);
    assert_eq!(Node::Pipe(Ingredient::Pink, 2).get_ingredient(t.clone()), Ingredient::Pink);
    assert_eq!(Node::PowerRight.get_ingredient(t.clone()), Ingredient::Nothing);
    assert_eq!(Node::PowerLeft.get_ingredient(t.clone()), Ingredient::Nothing);
}

#[test]
fn combiners_hand_on_what_the_table_makes() {
    let t = generate_resipees();
    let coffee = Node::Comb1(Ingredient::Hot, Ingredient::Water, Ingredient::Milk, 0);
    assert_eq!(coffee.get_ingredient(t.clone()), Ingredient::Coffee);
    assert_eq!(coffee.resolved_output(&t), Ingredient::Coffee);
    let wrong_kind = Node::Comb2(Ingredient::Hot, Ingredient::Water, Ingredient::Milk, 0);
    assert_eq!(wrong_kind.get_ingredient(t.clone()), Ingredient::Nothing);
    let low = Node::Comb1(Ingredient::Metal, Ingredient::Hot, NOTHING, 0);
    assert_eq!(low.get_ingredient(t.clone()), Ingredient::Nothing);
    let high = Node::Comb1(Ingredient::Metal, Ingredient::Hot, NOTHING, 1);
    assert_eq!(high.get_ingredient(t.clone()), Ingredient::OtherMetal);
    let metal = Node::Comb2(Ingredient::Coffee, Ingredient::Cat, Ingredient::Pink, 0);
    assert_eq!(metal.get_ingredient(t.clone()), Ingredient::Metal);
    let empty = Node::Comb1(NOTHING, NOTHING, NOTHING, 1);
    assert_eq!(empty.get_ingredient(t), Ingredient::Nothing);
}

#[test]
fn colour_is_that_of_the_output() {
    let t = generate_resipees();
    assert_eq!(Node::In(Ingredient::Hot).col(t.clone()), Colour::Rgb { r: 255, g: 166, b: 0 });
    assert_eq!(Node::PowerLeft.col(t.clone()), Colour::Reset);
    let coffee = Node::Comb1(Ingredient::Hot, Ingredient::Water, Ingredient::Milk, 0);
    assert_eq!(coffee.col(t.clone()), Colour::Rgb { r: 123, g: 100, b: 26 });
    let idle = Node::Comb1(Ingredient::Hot, NOTHING, Ingredient::Milk, 0);
    assert_eq!(idle.col(t), Colour::Reset);
}

#[test]
fn status_lines() {
    let t = generate_resipees();
    assert_eq!(Node::In(Ingredient::Hot).info(t.clone()), "Input node. Input: Hot");
    assert_eq!(Node::Out(NOTHING).info(t.clone()), "Output node. Output: None");
    assert_eq!(Node::PowerRight.info(t.clone()), "Power right node");
    assert_eq!(Node::PowerLeft.info(t.clone()), "Power left node");
    assert_eq!(
        Node::Comb1(Ingredient::Hot, Ingredient::Water, Ingredient::Milk, 0).info(t.clone()),
        "Comb1 node. In top: Hot, in left: Water, in bottom: Milk, level: 0, output: Coffee"
    );
    assert_eq!(
        Node::Comb2(Ingredient::Coffee, Ingredient::Cat, Ingredient::Pink, 1).info(t.clone()),
        "Comb2 node. In top: Coffee, in left: Cat, in bottom: Pink, level: 1, output: Metal"
    );
    assert_eq!(
        Node::Comb1(Ingredient::Pink, Ingredient::Cold, Ingredient::Milk, 0).info(t.clone()),
        "Comb1 node. In top: Pink, in left: Cold, in bottom: Milk, level: 0, output: None"
    );
    assert_eq!(
        Node::Split(Ingredient::OtherMetal, false).info(t.clone()),
        "Split node (powered). Input: OtherMetal"
    );
    assert_eq!(
        Node::Split(Ingredient::Hot, true).info(t.clone()),
        "Split node (unpowered). Input: Hot"
    );
    assert_eq!(
        Node::Merge(Ingredient::Vodka, false).info(t.clone()),
        "Merge node (powered). Output: Vodka"
    );
    assert_eq!(
        Node::Merge(NOTHING, true).info(t.clone()),
        "Merge node (unpowered). Output: None"
    );
    assert_eq!(
        Node::Pipe(Ingredient::Cat, 0).info(t.clone()),
        "Pipe node. Carrying: Cat, type: lr(0)"
    );
    assert_eq!(
        Node::Pipe(Ingredient::Cat, 1).info(t.clone()),
        "Pipe node. Carrying: Cat, type: lu(1)"
    );
    assert_eq!(
        Node::Pipe(NOTHING, 2).info(t.clone()),
        "Pipe node. Carrying: None, type: ld(2)"
    );
    assert_eq!(
        Node::Pipe(NOTHING, 3).info(t.clone()),
        "Pipe node. Carrying: None, type: dr(3)"
    );
    assert_eq!(Node::Pipe(NOTHING, 4).info(t), "Pipe node. Carrying: None, type: ur(4)");
}
