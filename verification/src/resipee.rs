//! The ingredient catalogue: the substances a node can carry, with the
//! glyph, the colour and the prime index of each.

use std::collections::HashMap;
use vstd::prelude::*;
use vstd::string::StringExecFns;

use crate::nodes::Node;

verus! {

/// What an operation of the engine can report to its caller.
#[derive(Copy, Clone, Debug, PartialEq, Eq, Structural)]
pub enum EngineError {
    /// A coordinate lies outside the grid.
    OutOfBounds,
    /// A number that names no ingredient.
    InvalidIngredientCode,
}

impl EngineError {
    /// What is wrong, in words for the player.
    pub open spec fn spec_message(&self) -> Seq<char> {
        match *self {
            EngineError::OutOfBounds => "that cell is outside the grid"@,
            EngineError::InvalidIngredientCode => "no ingredient has that code"@,
        }
    }

    /// Says what is wrong, in words for the player.
    pub fn message(&self) -> (text: String)
        ensures
            text@ == self.spec_message(),
    {
        match self {
            EngineError::OutOfBounds => String::from_str("that cell is outside the grid"),
            EngineError::InvalidIngredientCode => String::from_str("no ingredient has that code"),
        }
    }
}

/// A display colour: the terminal's own, or one given by its three channels.
#[derive(Copy, Clone, Debug, PartialEq, Eq, Structural)]
pub enum Colour {
    Reset,
    Rgb { r: u8, g: u8, b: u8 },
}

/// A substance carried by a node; `Nothing` is the absence of any.
#[derive(Copy, Clone, Debug, PartialEq, Eq, Structural)]
pub enum Ingredient {
    Nothing,
    Hot,
    Cold,
    Metal,
    Milk,
    OtherMetal,
    Water,
    Pink,
    Coffee,
    Vodka,
    Cat,
}

impl Ingredient {
    /// The prime that stands for this ingredient in a recipe key; 1 for `Nothing`.
    pub open spec fn spec_index(&self) -> u32 {
        match self {
            Ingredient::Nothing => 1,
            Ingredient::Hot => 13,
            Ingredient::Cold => 17,
            Ingredient::Metal => 19,
            Ingredient::Milk => 23,
            Ingredient::OtherMetal => 29,
            Ingredient::Water => 31,
            Ingredient::Pink => 37,
            Ingredient::Coffee => 41,
            Ingredient::Vodka => 43,
            Ingredient::Cat => 47,
        }
    }

    /// The glyph that shows this ingredient.
    pub open spec fn spec_char(&self) -> char {
        match self {
            Ingredient::Nothing => ' ',
            Ingredient::Hot => 'ᄥ',
            Ingredient::Cold => 'ᄣ',
            Ingredient::Metal => 'ᄪ',
            Ingredient::Milk => 'ᄧ',
            Ingredient::OtherMetal => 'ᄫ',
            Ingredient::Water => 'ᄨ',
            Ingredient::Pink => 'ᄤ',
            Ingredient::Coffee => 'ᄩ',
            Ingredient::Vodka => 'ᄬ',
            Ingredient::Cat => 'ᄦ',
        }
    }

    /// The colour that shows this ingredient.
    pub open spec fn spec_colour(&self) -> Colour {
        match self {
            Ingredient::Nothing => Colour::Reset,
            Ingredient::Hot => (Colour::Rgb { r: 255, g: 166, b: 0 }),
            Ingredient::Cold => (Colour::Rgb { r: 34, g: 165, b: 213 }),
            Ingredient::Metal => (Colour::Rgb { r: 255, g: 166, b: 77 }),
            Ingredient::Milk => (Colour::Rgb { r: 255, g: 255, b: 255 }),
            Ingredient::OtherMetal => (Colour::Rgb { r: 255, g: 0, b: 0 }),
            Ingredient::Water => (Colour::Rgb { r: 36, g: 67, b: 245 }),
            Ingredient::Pink => (Colour::Rgb { r: 255, g: 0, b: 145 }),
            Ingredient::Coffee => (Colour::Rgb { r: 123, g: 100, b: 26 }),
            Ingredient::Vodka => (Colour::Rgb { r: 208, g: 196, b: 25 }),
            Ingredient::Cat => (Colour::Rgb { r: 136, g: 136, b: 136 }),
        }
    }

    /// The ingredient that a code names: the codes 0 to 10 name the eleven
    /// ingredients in the order of their declaration, no other code names one.
    pub open spec fn of_code(v: u16) -> Option<Ingredient> {
        match v {
            0 => Some(Ingredient::Nothing),
            1 => Some(Ingredient::Hot),
            2 => Some(Ingredient::Cold),
            3 => Some(Ingredient::Metal),
            4 => Some(Ingredient::Milk),
            5 => Some(Ingredient::OtherMetal),
            6 => Some(Ingredient::Water),
            7 => Some(Ingredient::Pink),
            8 => Some(Ingredient::Coffee),
            9 => Some(Ingredient::Vodka),
            10 => Some(Ingredient::Cat),
            _ => None,
        }
    }

    /// The name of this ingredient, as written in a status line.
    pub open spec fn spec_name(&self) -> Seq<char> {
        match self {
            Ingredient::Nothing => "None"@,
            Ingredient::Hot => "Hot"@,
            Ingredient::Cold => "Cold"@,
            Ingredient::Metal => "Metal"@,
            Ingredient::Milk => "Milk"@,
            Ingredient::OtherMetal => "OtherMetal"@,
            Ingredient::Water => "Water"@,
            Ingredient::Pink => "Pink"@,
            Ingredient::Coffee => "Coffee"@,
            Ingredient::Vodka => "Vodka"@,
            Ingredient::Cat => "Cat"@,
        }
    }

    #[verifier::when_used_as_spec(spec_colour)]
    pub fn get_colour(&self) -> (c: Colour)
        ensures
            c == self.spec_colour(),
    {
        match self {
            Ingredient::Nothing => Colour::Reset,
            Ingredient::Hot => Colour::Rgb { r: 255, g: 166, b: 0 },
            Ingredient::Cold => Colour::Rgb { r: 34, g: 165, b: 213 },
            Ingredient::Metal => Colour::Rgb { r: 255, g: 166, b: 77 },
            Ingredient::Milk => Colour::Rgb { r: 255, g: 255, b: 255 },
            Ingredient::OtherMetal => Colour::Rgb { r: 255, g: 0, b: 0 },
            Ingredient::Water => Colour::Rgb { r: 36, g: 67, b: 245 },
            Ingredient::Pink => Colour::Rgb { r: 255, g: 0, b: 145 },
            Ingredient::Coffee => Colour::Rgb { r: 123, g: 100, b: 26 },
            Ingredient::Vodka => Colour::Rgb { r: 208, g: 196, b: 25 },
            Ingredient::Cat => Colour::Rgb { r: 136, g: 136, b: 136 },
        }
    }

    #[verifier::when_used_as_spec(spec_index)]
    pub fn index(&self) -> (i: u32)
        ensures
            i == self.spec_index(),
    {
        match self {
            Ingredient::Nothing => 1,
            Ingredient::Hot => 13,
            Ingredient::Cold => 17,
            Ingredient::Metal => 19,
            Ingredient::Milk => 23,
            Ingredient::OtherMetal => 29,
            Ingredient::Water => 31,
            Ingredient::Pink => 37,
            Ingredient::Coffee => 41,
            Ingredient::Vodka => 43,
            Ingredient::Cat => 47,
        }
    }

    #[verifier::when_used_as_spec(spec_char)]
    pub fn char(&self) -> (c: char)
        ensures
            c == self.spec_char(),
    {
        match self {
            Ingredient::Nothing => ' ',
            Ingredient::Hot => 'ᄥ',
            Ingredient::Cold => 'ᄣ',
            Ingredient::Metal => 'ᄪ',
            Ingredient::Milk => 'ᄧ',
            Ingredient::OtherMetal => 'ᄫ',
            Ingredient::Water => 'ᄨ',
            Ingredient::Pink => 'ᄤ',
            Ingredient::Coffee => 'ᄩ',
            Ingredient::Vodka => 'ᄬ',
            Ingredient::Cat => 'ᄦ',
        }
    }

    /// Turns a code into the ingredient it names, or reports that it names none.
    pub fn u16_to_ing(v: u16) -> (r: Result<Ingredient, EngineError>)
        ensures
            match Ingredient::of_code(v) {
                Some(i) => r == Ok::<Ingredient, EngineError>(i),
                None => r == Err::<Ingredient, EngineError>(EngineError::InvalidIngredientCode),
            },
    {
        match v {
            0 => Ok(Ingredient::Nothing),
            1 => Ok(Ingredient::Hot),
            2 => Ok(Ingredient::Cold),
            3 => Ok(Ingredient::Metal),
            4 => Ok(Ingredient::Milk),
            5 => Ok(Ingredient::OtherMetal),
            6 => Ok(Ingredient::Water),
            7 => Ok(Ingredient::Pink),
            8 => Ok(Ingredient::Coffee),
            9 => Ok(Ingredient::Vodka),
            10 => Ok(Ingredient::Cat),
            _ => Err(EngineError::InvalidIngredientCode),
        }
    }

    /// The name of this ingredient.
    pub fn name(&self) -> (s: &'static str)
        ensures
            s@ == self.spec_name(),
    {
        match self {
            Ingredient::Nothing => "None",
            Ingredient::Hot => "Hot",
            Ingredient::Cold => "Cold",
            Ingredient::Metal => "Metal",
            Ingredient::Milk => "Milk",
            Ingredient::OtherMetal => "OtherMetal",
            Ingredient::Water => "Water",
            Ingredient::Pink => "Pink",
            Ingredient::Coffee => "Coffee",
            Ingredient::Vodka => "Vodka",
            Ingredient::Cat => "Cat",
        }
    }
}

/// The machine that a recipe asks for.
#[derive(Copy, Clone, Debug)]
pub struct MachineRequirement {
    /// A combiner of the kind that runs the recipe; what it carries is of no account.
    pub machine: Node,
    /// The least tier of a combiner that runs the recipe.
    pub min_level: u8,
}

/// A rule that turns three ingredients into one.
#[derive(Copy, Clone, Debug)]
pub struct Resipee {
    /// The ingredients at the top, the left and the bottom of the combiner.
    pub input: [Ingredient; 3],
    pub machine: MachineRequirement,
    pub output: Ingredient,
}

/// The factor that tells the two kinds of combiner apart in a recipe key:
/// 2 for the first kind, 3 for the second.
pub open spec fn machine_factor(machine: Node) -> int {
    if machine is Comb2 {
        3
    } else {
        2
    }
}

/// The key of a recipe: the factor of the combiner's kind times the indices
/// of the three ingredients.
pub open spec fn spec_hash(machine: Node, ings: Seq<Ingredient>) -> int {
    machine_factor(machine) * ings[0].spec_index() * ings[1].spec_index() * ings[2].spec_index()
}

/// What a combiner of the given kind and tier makes of three ingredients:
/// the output of the recipe under their key, where the table holds one and
/// the tier reaches the recipe's; nothing otherwise.
pub open spec fn resolve(
    resipees: Map<u32, Resipee>,
    machine: Node,
    tier: u8,
    ings: Seq<Ingredient>,
) -> Ingredient {
    let key = spec_hash(machine, ings) as u32;
    if resipees.contains_key(key) && tier >= resipees[key].machine.min_level {
        resipees[key].output
    } else {
        Ingredient::Nothing
    }
}

/// An index is at least 1 and at most 47.
pub proof fn lemma_index_range(i: Ingredient)
    ensures
        1 <= i.spec_index() <= 47,
{
}

/// A key is positive and fits in 32 bits with room to spare.
pub proof fn lemma_hash_range(machine: Node, ings: Seq<Ingredient>)
    ensures
        2 <= spec_hash(machine, ings) <= 311469,
{
    let k = machine_factor(machine);
    let a = ings[0].spec_index() as int;
    let b = ings[1].spec_index() as int;
    let c = ings[2].spec_index() as int;
    lemma_index_range(ings[0]);
    lemma_index_range(ings[1]);
    lemma_index_range(ings[2]);
    assert(2 <= k * a <= 141) by (nonlinear_arith)
        requires
            2 <= k <= 3,
            1 <= a <= 47,
    ;
    assert(2 <= (k * a) * b <= 6627) by (nonlinear_arith)
        requires
            2 <= k * a <= 141,
            1 <= b <= 47,
    ;
    assert(2 <= ((k * a) * b) * c <= 311469) by (nonlinear_arith)
        requires
            2 <= (k * a) * b <= 6627,
            1 <= c <= 47,
    ;
}

/// Computes the key under which the table holds the recipe of a combiner
/// and three ingredients.
pub fn resipee_hash(machine: &Node, ings: &[Ingredient; 3]) -> (key: u32)
    requires
        machine.is_comb(),
    ensures
        key == spec_hash(*machine, ings@),
{
    proof {
        lemma_hash_range(*machine, ings@);
        lemma_index_range(ings@[0]);
        lemma_index_range(ings@[1]);
        let k = machine_factor(*machine);
        let a = ings@[0].spec_index() as int;
        let b = ings@[1].spec_index() as int;
        assert(2 <= k * a <= 141) by (nonlinear_arith)
            requires
                2 <= k <= 3,
                1 <= a <= 47,
        ;
        assert(2 <= (k * a) * b <= 6627) by (nonlinear_arith)
            requires
                2 <= k * a <= 141,
                1 <= b <= 47,
        ;
    }
    let factor: u32 = match machine {
        Node::Comb2(_, _, _, _) => 3,
        _ => 2,
    };
    let out: u32 = factor * ings[0].index();
    let out: u32 = out * ings[1].index();
    out * ings[2].index()
}

/// Looks up what a combiner of the given kind and tier makes of three
/// ingredients.
pub fn resolve_output(
    resipees: &HashMap<u32, Resipee>,
    machine: &Node,
    tier: u8,
    ings: &[Ingredient; 3],
) -> (out: Ingredient)
    requires
        machine.is_comb(),
    ensures
        out == resolve(resipees@, *machine, tier, ings@),
{
    broadcast use vstd::std_specs::hash::group_hash_axioms;

    let key = resipee_hash(machine, ings);
    match resipees.get(&key) {
        Some(r) => {
            if tier >= r.machine.min_level {
                r.output
            } else {
                Ingredient::Nothing
            }
        },
        None => Ingredient::Nothing,
    }
}

/// A recipe for a combiner of the first kind.
pub open spec fn first_kind(input: [Ingredient; 3], min_level: u8, output: Ingredient) -> Resipee {
    Resipee {
        input,
        machine: MachineRequirement {
            machine: Node::Comb1(Ingredient::Nothing, Ingredient::Nothing, Ingredient::Nothing, 0),
            min_level,
        },
        output,
    }
}

/// A recipe for a combiner of the second kind.
pub open spec fn second_kind(input: [Ingredient; 3], min_level: u8, output: Ingredient) -> Resipee {
    Resipee {
        input,
        machine: MachineRequirement {
            machine: Node::Comb2(Ingredient::Nothing, Ingredient::Nothing, Ingredient::Nothing, 0),
            min_level,
        },
        output,
    }
}

/// The table with one more recipe, under the key of its machine and input.
pub open spec fn with_resipee(table: Map<u32, Resipee>, r: Resipee) -> Map<u32, Resipee> {
    table.insert(spec_hash(r.machine.machine, r.input@) as u32, r)
}

/// The four recipes that the game knows:
/// hot, water and milk make coffee; coffee, a cat and pink make metal in a
/// combiner of the second kind; metal and hot make the other metal, and
/// pink, cold and milk make vodka, both at tier 1.
pub open spec fn standard_resipees() -> Map<u32, Resipee> {
    let coffee = first_kind(
        [Ingredient::Hot, Ingredient::Water, Ingredient::Milk],
        0,
        Ingredient::Coffee,
    );
    let metal = second_kind(
        [Ingredient::Coffee, Ingredient::Cat, Ingredient::Pink],
        0,
        Ingredient::Metal,
    );
    let other_metal = first_kind(
        [Ingredient::Metal, Ingredient::Hot, Ingredient::Nothing],
        1,
        Ingredient::OtherMetal,
    );
    let vodka = first_kind(
        [Ingredient::Pink, Ingredient::Cold, Ingredient::Milk],
        1,
        Ingredient::Vodka,
    );
    with_resipee(
        with_resipee(with_resipee(with_resipee(Map::empty(), coffee), metal), other_metal),
        vodka,
    )
}

/// Adds a recipe to a table, under the key of its machine and input.
fn add_resipee(table: &mut HashMap<u32, Resipee>, r: Resipee)
    requires
        r.machine.machine.is_comb(),
    ensures
        final(table)@ == with_resipee(old(table)@, r),
{
    broadcast use vstd::std_specs::hash::group_hash_axioms;

    let key = resipee_hash(&r.machine.machine, &r.input);
    table.insert(key, r);
}

/// Builds the table of the four recipes that the game knows.
pub fn generate_resipees() -> (table: HashMap<u32, Resipee>)
    ensures
        table@ == standard_resipees(),
{
    let nothing = Ingredient::Nothing;
    let comb1 = Node::Comb1(nothing, nothing, nothing, 0);
    let comb2 = Node::Comb2(nothing, nothing, nothing, 0);
    let r1 = Resipee {
        input: [Ingredient::Hot, Ingredient::Water, Ingredient::Milk],
        machine: MachineRequirement { machine: comb1, min_level: 0 },
        output: Ingredient::Coffee,
    };
    let r2 = Resipee {
        input: [Ingredient::Coffee, Ingredient::Cat, Ingredient::Pink],
        machine: MachineRequirement { machine: comb2, min_level: 0 },
        output: Ingredient::Metal,
    };
    let r3 = Resipee {
        input: [Ingredient::Metal, Ingredient::Hot, Ingredient::Nothing],
        machine: MachineRequirement { machine: comb1, min_level: 1 },
        output: Ingredient::OtherMetal,
    };
    let r4 = Resipee {
        input: [Ingredient::Pink, Ingredient::Cold, Ingredient::Milk],
        machine: MachineRequirement { machine: comb1, min_level: 1 },
        output: Ingredient::Vodka,
    };
    let mut table: HashMap<u32, Resipee> = HashMap::new();
    add_resipee(&mut table, r1);
    add_resipee(&mut table, r2);
    add_resipee(&mut table, r3);
    add_resipee(&mut table, r4);
    table
}

/// The greatest key that a combiner can form: that of the second kind with
/// three times the ingredient of the greatest index.
pub const MAX_KEY: u32 = 311469;

/// Whether the table holds, under a key that a combiner can form, a recipe
/// that makes the wanted ingredient.
pub open spec fn makes(resipees: Map<u32, Resipee>, key: u32, wanted: Ingredient) -> bool {
    key <= MAX_KEY && resipees.contains_key(key) && resipees[key].output == wanted
}

/// Finds the recipe that makes an ingredient: the least key under which
/// the table holds one, or none where it holds none.
pub fn find_resipee(resipees: &HashMap<u32, Resipee>, wanted: Ingredient) -> (found: Option<u32>)
    ensures
        match found {
            Some(key) => makes(resipees@, key, wanted) && forall|k: u32|
                k < key ==> !makes(resipees@, k, wanted),
            None => forall|k: u32| !makes(resipees@, k, wanted),
        },
{
    broadcast use vstd::std_specs::hash::group_hash_axioms;

    let mut key: u32 = 0;
    while key <= MAX_KEY
        invariant
            key <= MAX_KEY + 1,
            forall|k: u32| k < key ==> !makes(resipees@, k, wanted),
        decreases MAX_KEY + 1 - key,
    {
        match resipees.get(&key) {
            Some(r) => {
                if r.output == wanted {
                    return Some(key);
                }
            },
            None => {},
        }
        key = key + 1;
    }
    None
}

} // verus!
