//! A grid of typed nodes that move, split, merge and combine ingredients.
//!
//! Every edit of a cell recomputes that cell from its neighbours and then
//! the cells that depend on it; all of it is verified with Verus.
//!
//! - [`resipee`]: the ingredients and the table of recipes;
//! - [`nodes`]: the kinds of node and what each shows and hands on;
//! - [`propagation`]: the rules of a recompute, as mathematics;
//! - [`grid`]: the board and the engine that follows those rules;
//! - [`laws`] and [`keys`]: what is proved of the rules and of recipe keys;
//! - [`command`] and [`cursor`]: the command line and the pointing cursor.

pub mod command;
pub mod cursor;
pub mod grid;
pub mod keys;
pub mod laws;
pub mod nodes;
pub mod propagation;
pub mod resipee;
