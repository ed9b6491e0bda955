// A block-structured model of Stan programs, and an assembler that splices
// the files named by directives into the section that names them.

pub mod directive;
pub mod source_set;
pub mod stan_model;
pub mod stan_model_block;
pub mod stan_model_block_type;
pub mod stan_source_parser;
pub mod text;
