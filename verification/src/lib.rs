//! Classic in-memory data structures with verified contracts: a singly
//! linked list with head/tail links, stack adapters built on top of it,
//! and a delimiter-pairing validator that scans source text with a stack.

pub mod linked_list;
pub mod queue;
pub mod render;
pub mod source_code_token_pairing_validator;
pub mod stack;
