//! The node model: what a cell of the grid can hold, and what each kind of
//! node shows and hands on.

use std::collections::HashMap;
use vstd::prelude::*;
use vstd::string::StringExecFns;

use crate::resipee::{resolve, resolve_output, Colour, Ingredient, Resipee};

verus! {

/// One placed element of the grid.
///
/// The ingredients and the linked flag of a node are derived: every
/// recompute of its cell writes them anew from the neighbours. The tier of a
/// combiner and the orientation of a pipe are given when the node is placed
/// and stay.
#[derive(Copy, Clone, Debug)]
pub enum Node {
    /// A source: hands its ingredient to the right.
    In(Ingredient),
    /// A sink: shows what its left neighbour hands on.
    Out(Ingredient),
    /// Marks the split to its left as linked.
    PowerRight,
    /// Marks the merge to its right as linked.
    PowerLeft,
    /// A combiner of the first kind: top, left and bottom input, and tier.
    Comb1(Ingredient, Ingredient, Ingredient, u8),
    /// A combiner of the second kind: top, left and bottom input, and tier.
    Comb2(Ingredient, Ingredient, Ingredient, u8),
    /// Takes from the left and shows it to the cells above and below.
    Split(Ingredient, bool),
    /// Takes from a pipe above or below and hands it to the right.
    Merge(Ingredient, bool),
    /// A conduit: its ingredient and its orientation code.
    Pipe(Ingredient, u8),
}

/// Two nodes are equal where they are of the same kind, whatever they carry.
impl PartialEq for Node {
    fn eq(&self, other: &Self) -> (same: bool) {
        self.kind_code() == other.kind_code()
    }
}

impl vstd::std_specs::cmp::PartialEqSpecImpl for Node {
    open spec fn obeys_eq_spec() -> bool {
        true
    }

    open spec fn eq_spec(&self, other: &Self) -> bool {
        self.kind() == other.kind()
    }
}

/// Orientation of a pipe that pulls from the left and pushes to the right.
pub const PIPE_LR: u8 = 0;

/// Orientation of a pipe that pulls from the left and pushes upward.
pub const PIPE_LU: u8 = 1;

/// Orientation of a pipe that pulls from the left and pushes downward.
pub const PIPE_LD: u8 = 2;

/// Orientation of a pipe that pulls from below and pushes to the right.
pub const PIPE_DR: u8 = 3;

/// Orientation of a pipe that pulls from above and pushes to the right.
pub const PIPE_UR: u8 = 4;

impl Node {
    /// A combiner has tier 0 or 1, a pipe one of the five orientations.
    pub open spec fn wf(&self) -> bool {
        match *self {
            Node::Comb1(_, _, _, tier) => tier <= 1,
            Node::Comb2(_, _, _, tier) => tier <= 1,
            Node::Pipe(_, way) => way <= 4,
            _ => true,
        }
    }

    /// A number for each kind of node, whatever it carries.
    pub open spec fn kind(&self) -> int {
        match *self {
            Node::In(_) => 0,
            Node::Out(_) => 1,
            Node::PowerRight => 2,
            Node::PowerLeft => 3,
            Node::Comb1(_, _, _, _) => 4,
            Node::Comb2(_, _, _, _) => 5,
            Node::Split(_, _) => 6,
            Node::Merge(_, _) => 7,
            Node::Pipe(_, _) => 8,
        }
    }

    /// The number of this node's kind.
    pub fn kind_code(&self) -> (k: u8)
        ensures
            k == self.kind(),
    {
        match self {
            Node::In(_) => 0,
            Node::Out(_) => 1,
            Node::PowerRight => 2,
            Node::PowerLeft => 3,
            Node::Comb1(_, _, _, _) => 4,
            Node::Comb2(_, _, _, _) => 5,
            Node::Split(_, _) => 6,
            Node::Merge(_, _) => 7,
            Node::Pipe(_, _) => 8,
        }
    }

    /// Whether this node is a combiner of either kind.
    pub open spec fn is_comb(&self) -> bool {
        self is Comb1 || self is Comb2
    }

    /// What stays of a node through every recompute: its kind, and with it
    /// the tier of a combiner and the orientation of a pipe.
    pub open spec fn shape(&self) -> (int, u8) {
        match *self {
            Node::Comb1(_, _, _, tier) => (4, tier),
            Node::Comb2(_, _, _, tier) => (5, tier),
            Node::Pipe(_, way) => (8, way),
            _ => (self.kind(), 0u8),
        }
    }

    /// The glyph of each kind of node; a combiner's tells its tier, a
    /// pipe's its orientation.
    pub open spec fn spec_char(&self) -> char {
        match *self {
            Node::In(_) => 'ᄓ',
            Node::Out(_) => 'ᄔ',
            Node::PowerRight => 'ᄕ',
            Node::PowerLeft => 'ᄖ',
            Node::Comb1(_, _, _, tier) => if tier == 0 { 'ᄗ' } else { 'ᄘ' },
            Node::Comb2(_, _, _, tier) => if tier == 0 { 'ᄙ' } else { 'ᄚ' },
            Node::Split(_, _) => 'ᄛ',
            Node::Merge(_, _) => 'ᄜ',
            Node::Pipe(_, way) => if way == 0 {
                'ᄝ'
            } else if way == 1 {
                'ᄞ'
            } else if way == 2 {
                'ᄟ'
            } else if way == 3 {
                'ᄠ'
            } else {
                'ᄡ'
            },
        }
    }

    /// The glyph that shows this node.
    #[verifier::when_used_as_spec(spec_char)]
    pub fn char(&self) -> (c: char)
        requires
            self.wf(),
        ensures
            c == self.spec_char(),
    {
        match self {
            Node::In(_) => 'ᄓ',
            Node::Out(_) => 'ᄔ',
            Node::PowerRight => 'ᄕ',
            Node::PowerLeft => 'ᄖ',
            Node::Comb1(_, _, _, tier) => if *tier == 0 { 'ᄗ' } else { 'ᄘ' },
            Node::Comb2(_, _, _, tier) => if *tier == 0 { 'ᄙ' } else { 'ᄚ' },
            Node::Split(_, _) => 'ᄛ',
            Node::Merge(_, _) => 'ᄜ',
            Node::Pipe(_, way) => if *way == 0 {
                'ᄝ'
            } else if *way == 1 {
                'ᄞ'
            } else if *way == 2 {
                'ᄟ'
            } else if *way == 3 {
                'ᄠ'
            } else {
                'ᄡ'
            },
        }
    }

    /// The one ingredient that this node hands on: what it carries, or, for
    /// a combiner, what the table makes of its three inputs at its tier. A
    /// power node hands on nothing.
    pub open spec fn resolved(&self, resipees: Map<u32, Resipee>) -> Ingredient {
        match *self {
            Node::In(i) => i,
            Node::Out(i) => i,
            Node::PowerRight => Ingredient::Nothing,
            Node::PowerLeft => Ingredient::Nothing,
            Node::Comb1(top, left, bottom, tier) => resolve(
                resipees,
                *self,
                tier,
                seq![top, left, bottom],
            ),
            Node::Comb2(top, left, bottom, tier) => resolve(
                resipees,
                *self,
                tier,
                seq![top, left, bottom],
            ),
            Node::Split(i, _) => i,
            Node::Merge(i, _) => i,
            Node::Pipe(i, _) => i,
        }
    }

    /// The name of a pipe's orientation.
    pub open spec fn way_name(way: u8) -> Seq<char> {
        if way == 0 {
            "lr"@
        } else if way == 1 {
            "lu"@
        } else if way == 2 {
            "ld"@
        } else if way == 3 {
            "dr"@
        } else {
            "ur"@
        }
    }

    /// A number from 0 to 4 in writing.
    pub open spec fn digit(n: u8) -> Seq<char> {
        if n == 0 {
            "0"@
        } else if n == 1 {
            "1"@
        } else if n == 2 {
            "2"@
        } else if n == 3 {
            "3"@
        } else {
            "4"@
        }
    }

    /// The status line of this node: its kind, what it carries and, for a
    /// combiner, what it makes.
    pub open spec fn spec_info(&self, resipees: Map<u32, Resipee>) -> Seq<char> {
        match *self {
            Node::In(i) => "Input node. Input: "@ + i.spec_name(),
            Node::Out(i) => "Output node. Output: "@ + i.spec_name(),
            Node::PowerRight => "Power right node"@,
            Node::PowerLeft => "Power left node"@,
            Node::Comb1(top, left, bottom, tier) => "Comb"@ + "1"@ + " node. In top: "@
                + top.spec_name() + ", in left: "@ + left.spec_name() + ", in bottom: "@
                + bottom.spec_name() + ", level: "@ + Node::digit(tier) + ", output: "@
                + self.resolved(resipees).spec_name(),
            Node::Comb2(top, left, bottom, tier) => "Comb"@ + "2"@ + " node. In top: "@
                + top.spec_name() + ", in left: "@ + left.spec_name() + ", in bottom: "@
                + bottom.spec_name() + ", level: "@ + Node::digit(tier) + ", output: "@
                + self.resolved(resipees).spec_name(),
            Node::Split(i, linked) => "Split node ("@ + (if linked {
                "un"@
            } else {
                ""@
            }) + "powered). Input: "@ + i.spec_name(),
            Node::Merge(i, linked) => "Merge node ("@ + (if linked {
                "un"@
            } else {
                ""@
            }) + "powered). Output: "@ + i.spec_name(),
            Node::Pipe(i, way) => "Pipe node. Carrying: "@ + i.spec_name() + ", type: "@
                + Node::way_name(way) + "("@ + Node::digit(way) + ")"@,
        }
    }

    /// The ingredient that this node hands on, looked up in a borrowed table.
    pub fn resolved_output(&self, resipees: &HashMap<u32, Resipee>) -> (out: Ingredient)
        ensures
            out == self.resolved(resipees@),
    {
        match self {
            Node::In(i) => *i,
            Node::Out(i) => *i,
            Node::PowerRight => Ingredient::Nothing,
            Node::PowerLeft => Ingredient::Nothing,
            Node::Comb1(top, left, bottom, tier) => {
                let ings = [*top, *left, *bottom];
                assert(ings@ =~= seq![*top, *left, *bottom]);
                resolve_output(resipees, self, *tier, &ings)
            },
            Node::Comb2(top, left, bottom, tier) => {
                let ings = [*top, *left, *bottom];
                assert(ings@ =~= seq![*top, *left, *bottom]);
                resolve_output(resipees, self, *tier, &ings)
            },
            Node::Split(i, _) => *i,
            Node::Merge(i, _) => *i,
            Node::Pipe(i, _) => *i,
        }
    }

    /// The ingredient that this node hands on.
    pub fn get_ingredient(&self, resipees: HashMap<u32, Resipee>) -> (out: Ingredient)
        ensures
            out == self.resolved(resipees@),
    {
        self.resolved_output(&resipees)
    }

    /// The colour that shows this node: that of the ingredient it hands on.
    pub fn col(&self, resipees: HashMap<u32, Resipee>) -> (c: Colour)
        ensures
            c == self.resolved(resipees@).spec_colour(),
    {
        self.resolved_output(&resipees).get_colour()
    }

    /// Writes the status line of this node.
    pub fn info(&self, resipees: HashMap<u32, Resipee>) -> (s: String)
        requires
            self.wf(),
        ensures
            s@ == self.spec_info(resipees@),
    {
        match self {
            Node::In(i) => String::from_str("Input node. Input: ").concat(i.name()),
            Node::Out(i) => String::from_str("Output node. Output: ").concat(i.name()),
            Node::PowerRight => String::from_str("Power right node"),
            Node::PowerLeft => String::from_str("Power left node"),
            Node::Comb1(top, left, bottom, tier) | Node::Comb2(top, left, bottom, tier) => {
                let number = match self {
                    Node::Comb1(_, _, _, _) => "1",
                    _ => "2",
                };
                let made = self.resolved_output(&resipees);
                String::from_str("Comb").concat(number).concat(" node. In top: ").concat(
                    top.name(),
                ).concat(", in left: ").concat(left.name()).concat(", in bottom: ").concat(
                    bottom.name(),
                ).concat(", level: ").concat(digit_text(*tier)).concat(", output: ").concat(
                    made.name(),
                )
            },
            Node::Split(i, linked) => String::from_str("Split node (").concat(
                if *linked {
                    "un"
                } else {
                    ""
                },
            ).concat("powered). Input: ").concat(i.name()),
            Node::Merge(i, linked) => String::from_str("Merge node (").concat(
                if *linked {
                    "un"
                } else {
                    ""
                },
            ).concat("powered). Output: ").concat(i.name()),
            Node::Pipe(i, way) => String::from_str("Pipe node. Carrying: ").concat(
                i.name(),
            ).concat(", type: ").concat(way_text(*way)).concat("(").concat(
                digit_text(*way),
            ).concat(")"),
        }
    }
}

/// A number from 0 to 4 in writing.
fn digit_text(n: u8) -> (s: &'static str)
    requires
        n <= 4,
    ensures
        s@ == Node::digit(n),
{
    if n == 0 {
        "0"
    } else if n == 1 {
        "1"
    } else if n == 2 {
        "2"
    } else if n == 3 {
        "3"
    } else {
        "4"
    }
}

/// The name of a pipe's orientation.
fn way_text(way: u8) -> (s: &'static str)
    requires
        way <= 4,
    ensures
        s@ == Node::way_name(way),
{
    if way == 0 {
        "lr"
    } else if way == 1 {
        "lu"
    } else if way == 2 {
        "ld"
    } else if way == 3 {
        "dr"
    } else {
        "ur"
    }
}

} // verus!
