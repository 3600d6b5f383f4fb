//! Small self-contained exercises, each in a module of its own.

pub mod borrowing;
pub mod collatz;
pub mod generics;
pub mod guessing;
pub mod inventory;
pub mod minigrep;
pub mod news;
pub mod publishing;
pub mod quota;
pub mod shapes;
pub mod text;
