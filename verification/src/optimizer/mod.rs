pub mod peephole;
