//! Immediate-operand instruction parsing for a stack machine over a prime field.
//!
//! A tokenized instruction line (a mnemonic followed by dot-separated parameters) is
//! turned into a typed instruction node. Literals may be decimal, hexadecimal or
//! symbolic constants, and every operand is stored in the narrowest representation
//! that holds it.

pub mod constants;
pub mod errors;
pub mod felt;
pub mod guarantees;
pub mod io_ops;
pub mod literals;
pub mod nodes;
pub mod params;
pub mod token;
pub mod width;

pub use constants::{is_label, LocalConstMap};
pub use errors::ParsingError;
pub use felt::{Felt, MODULUS, WORD_SIZE};
pub use io_ops::{
    parse_adv_push, parse_loc_load, parse_loc_loadw, parse_loc_store, parse_loc_storew,
    parse_locaddr, parse_long_hex_param, parse_mem_load, parse_mem_loadw, parse_mem_store,
    parse_mem_storew, parse_param_list, parse_push, ADVICE_READ_LIMIT, MAX_FELT, MAX_PUSH_INPUTS, MAX_PUSH_PARTS,
};
pub use literals::{
    decode_decimal, decode_hex, strip_hex_prefix, Decoded, Endianness, HEX_CHUNK_SIZE,
};
pub use nodes::{Instruction, Node};
pub use params::{parse_checked_param, parse_hex_value, parse_non_hex_param_with_constants_lookup};
pub use token::Token;
pub use width::{build_push_many_instruction, build_push_one_instruction};
