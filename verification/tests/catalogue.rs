use resipee_grid::nodes::Node;
use resipee_grid::resipee::{
    find_resipee, generate_resipees, resipee_hash, resolve_output, Colour, EngineError,
    Ingredient,
};

const ALL: [Ingredient; 11] = [
    Ingredient::Nothing,
    Ingredient::Hot,
    Ingredient::Cold,
    Ingredient::Metal,
    Ingredient::Milk,
    Ingredient::OtherMetal,
    Ingredient::Water,
    Ingredient::Pink,
    Ingredient::Coffee,
    Ingredient::Vodka,
    Ingredient::Cat,
];

fn comb1() -> Node {
    Node::Comb1(Ingredient::Nothing, Ingredient::Nothing, Ingredient::Nothing, 0)
}

fn comb2() -> Node {
    Node::Comb2(Ingredient::Nothing, Ingredient::Nothing, Ingredient::Nothing, 0)
}

#[test]
fn indices_are_the_fixed_primes() {
    let expected = [1u32, 13, 17, 19, 23, 29, 31, 37, 41, 43, 47];
    for (ing, want) in ALL.iter().zip(expected.iter()) {
        assert_eq!(ing.index(), *want);
    }
}

#[test]
fn indices_are_pairwise_distinct_and_coprime() {
    fn gcd(a: u32, b: u32) -> u32 {
        if b == 0 {
            a
        } else {
            gcd(b, a % b)
        }
    }
    for (i, a) in ALL.iter().enumerate() {
        for (j, b) in ALL.iter().enumerate() {
            if i != j {
                assert_ne!(a.index(), b.index());
                assert_eq!(gcd(a.index(), b.index()), 1);
            }
        }
    }
}

#[test]
fn codes_name_the_ingredients_in_order() {
    for (code, ing) in ALL.iter().enumerate() {
        assert_eq!(Ingredient::u16_to_ing(code as u16), Ok(*ing));
    }
}

#[test]
fn a_code_out_of_range_is_reported() {
    assert_eq!(Ingredient::u16_to_ing(11), Err(EngineError::InvalidIngredientCode));
    assert_eq!(Ingredient::u16_to_ing(99), Err(EngineError::InvalidIngredientCode));
    assert_eq!(Ingredient::u16_to_ing(u16::MAX), Err(EngineError::InvalidIngredientCode));
}

#[test]
fn glyphs_of_the_ingredients() {
    let expected = [' ', 'ᄥ', 'ᄣ', 'ᄪ', 'ᄧ', 'ᄫ', 'ᄨ', 'ᄤ', 'ᄩ', 'ᄬ', 'ᄦ'];
    for (ing, want) in ALL.iter().zip(expected.iter()) {
        assert_eq!(ing.char(), *want);
    }
}

#[test]
fn colours_of_the_ingredients() {
    assert_eq!(Ingredient::Nothing.get_colour(), Colour::Reset);
    assert_eq!(Ingredient::Hot.get_colour(), Colour::Rgb { r: 255, g: 166, b: 0 });
    assert_eq!(Ingredient::Cold.get_colour(), Colour::Rgb { r: 34, g: 165, b: 213 });
    assert_eq!(Ingredient::Metal.get_colour(), Colour::Rgb { r: 255, g: 166, b: 77 });
    assert_eq!(Ingredient::Milk.get_colour(), Colour::Rgb { r: 255, g: 255, b: 255 });
    assert_eq!(Ingredient::OtherMetal.get_colour(), Colour::Rgb { r: 255, g: 0, b: 0 });
    assert_eq!(Ingredient::Water.get_colour(), Colour::Rgb { r: 36, g: 67, b: 245 });
    assert_eq!(Ingredient::Pink.get_colour(), Colour::Rgb { r: 255, g: 0, b: 145 });
    assert_eq!(Ingredient::Coffee.get_colour(), Colour::Rgb { r: 123, g: 100, b: 26 });
    assert_eq!(Ingredient::Vodka.get_colour(), Colour::Rgb { r: 208, g: 196, b: 25 });
    assert_eq!(Ingredient::Cat.get_colour(), Colour::Rgb { r: 136, g: 136, b: 136 });
}

#[test]
fn names_of_the_ingredients() {
    let expected = [
        "None", "Hot", "Cold", "Metal", "Milk", "OtherMetal", "Water", "Pink", "Coffee", "Vodka",
        "Cat",
    ];
    for (ing, want) in ALL.iter().zip(expected.iter()) {
        assert_eq!(ing.name(), *want);
    }
}

#[test]
fn key_is_the_product_of_factor_and_indices() {
    let ings = [Ingredient::Hot, Ingredient::Water, Ingredient::Milk];
    assert_eq!(resipee_hash(&comb1(), &ings), 2 * 13 * 31 * 23);
    assert_eq!(resipee_hash(&comb1(), &ings), 18538);
    assert_eq!(resipee_hash(&comb2(), &ings), 27807);
    let none = [Ingredient::Nothing, Ingredient::Nothing, Ingredient::Nothing];
    assert_eq!(resipee_hash(&comb1(), &none), 2);
    assert_eq!(resipee_hash(&comb2(), &none), 3);
    let cats = [Ingredient::Cat, Ingredient::Cat, Ingredient::Cat];
    assert_eq!(resipee_hash(&comb2(), &cats), 311469);
}

#[test]
fn key_ignores_what_the_machine_carries_and_its_tier() {
    let ings = [Ingredient::Pink, Ingredient::Cold, Ingredient::Milk];
    let busy = Node::Comb1(Ingredient::Cat, Ingredient::Hot, Ingredient::Milk, 1);
    assert_eq!(resipee_hash(&busy, &ings), resipee_hash(&comb1(), &ings));
}

#[test]
fn keys_collide_only_for_rearranged_inputs() {
    let mut seen: std::collections::HashMap<u32, (u8, [u32; 3])> =
        std::collections::HashMap::new();
    for (kind, machine) in [(1u8, comb1()), (2u8, comb2())] {
        for a in ALL {
            for b in ALL {
                for c in ALL {
                    let key = resipee_hash(&machine, &[a, b, c]);
                    let mut sorted = [a.index(), b.index(), c.index()];
                    sorted.sort();
                    match seen.get(&key) {
                        Some(earlier) => assert_eq!(*earlier, (kind, sorted)),
                        None => {
                            seen.insert(key, (kind, sorted));
                        }
                    }
                }
            }
        }
    }
    // 286 multisets of three out of eleven, for each of the two machines
    assert_eq!(seen.len(), 2 * 286);
}

#[test]
fn the_table_holds_the_four_recipes() {
    let table = generate_resipees();
    assert_eq!(table.len(), 4);
    let coffee = table.get(&18538).expect("coffee");
    assert_eq!(coffee.input, [Ingredient::Hot, Ingredient::Water, Ingredient::Milk]);
    assert_eq!(coffee.output, Ingredient::Coffee);
    assert_eq!(coffee.machine.min_level, 0);
    assert!(matches!(coffee.machine.machine, Node::Comb1(_, _, _, _)));
    let metal = table.get(&(3 * 41 * 47 * 37)).expect("metal");
    assert_eq!(metal.input, [Ingredient::Coffee, Ingredient::Cat, Ingredient::Pink]);
    assert_eq!(metal.output, Ingredient::Metal);
    assert_eq!(metal.machine.min_level, 0);
    assert!(matches!(metal.machine.machine, Node::Comb2(_, _, _, _)));
    let other = table.get(&(2 * 19 * 13)).expect("other metal");
    assert_eq!(other.input, [Ingredient::Metal, Ingredient::Hot, Ingredient::Nothing]);
    assert_eq!(other.output, Ingredient::OtherMetal);
    assert_eq!(other.machine.min_level, 1);
    let vodka = table.get(&(2 * 37 * 17 * 23)).expect("vodka");
    assert_eq!(vodka.input, [Ingredient::Pink, Ingredient::Cold, Ingredient::Milk]);
    assert_eq!(vodka.output, Ingredient::Vodka);
    assert_eq!(vodka.machine.min_level, 1);
}

#[test]
fn resolve_needs_a_recipe_and_the_tier() {
    let table = generate_resipees();
    let coffee = [Ingredient::Hot, Ingredient::Water, Ingredient::Milk];
    assert_eq!(resolve_output(&table, &comb1(), 0, &coffee), Ingredient::Coffee);
    assert_eq!(resolve_output(&table, &comb1(), 1, &coffee), Ingredient::Coffee);
    // the other kind of machine has no such recipe
    assert_eq!(resolve_output(&table, &comb2(), 0, &coffee), Ingredient::Nothing);
    // in any order of the inputs
    let turned = [Ingredient::Milk, Ingredient::Hot, Ingredient::Water];
    assert_eq!(resolve_output(&table, &comb1(), 0, &turned), Ingredient::Coffee);
    // vodka asks for tier 1
    let vodka = [Ingredient::Pink, Ingredient::Cold, Ingredient::Milk];
    assert_eq!(resolve_output(&table, &comb1(), 0, &vodka), Ingredient::Nothing);
    assert_eq!(resolve_output(&table, &comb1(), 1, &vodka), Ingredient::Vodka);
    // no recipe at all
    let none = [Ingredient::Nothing, Ingredient::Nothing, Ingredient::Nothing];
    assert_eq!(resolve_output(&table, &comb1(), 1, &none), Ingredient::Nothing);
    let metal = [Ingredient::Coffee, Ingredient::Cat, Ingredient::Pink];
    assert_eq!(resolve_output(&table, &comb2(), 0, &metal), Ingredient::Metal);
    assert_eq!(resolve_output(&table, &comb1(), 0, &metal), Ingredient::Nothing);
}

#[test]
fn find_resipee_gives_the_key_of_the_maker() {
    let table = generate_resipees();
    assert_eq!(find_resipee(&table, Ingredient::Coffee), Some(18538));
    assert_eq!(find_resipee(&table, Ingredient::Metal), Some(213897));
    assert_eq!(find_resipee(&table, Ingredient::OtherMetal), Some(494));
    assert_eq!(find_resipee(&table, Ingredient::Vodka), Some(28934));
    assert_eq!(find_resipee(&table, Ingredient::Hot), None);
    assert_eq!(find_resipee(&table, Ingredient::Nothing), None);
}

#[test]
fn find_resipee_takes_the_least_key() {
    let mut table = generate_resipees();
    let coffee = *table.get(&18538).expect("coffee");
    table.insert(7, coffee);
    table.insert(400000, coffee);
    assert_eq!(find_resipee(&table, Ingredient::Coffee), Some(7));
    let mut far = std::collections::HashMap::new();
    far.insert(400000u32, coffee);
    assert_eq!(find_resipee(&far, Ingredient::Coffee), None);
}

#[test]
fn errors_have_words_for_the_player() {
    assert_eq!(EngineError::OutOfBounds.message(), "that cell is outside the grid");
    assert_eq!(EngineError::InvalidIngredientCode.message(), "no ingredient has that code");
}
