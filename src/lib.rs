//! Small Unix text utilities: the logic behind `cat`, `head`, `wc`, `uniq`,
//! `find`, `cut`, `grep`, `comm`, `tail`, `fortune`, `cal` and `ls`, with
//! contracts proved by Verus. Reading files and printing stay with the caller.

pub mod parse;
pub mod pattern;
pub mod text;

pub mod cal;
pub mod cat;
pub mod comm;
pub mod cut;
pub mod find;
pub mod fortune;
pub mod grep;
pub mod head;
pub mod ls;
pub mod tail;
pub mod uniq;
pub mod wc;
