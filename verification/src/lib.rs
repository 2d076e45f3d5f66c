pub mod instr;
pub mod cpu;
pub mod interpreter;
pub mod translate;
