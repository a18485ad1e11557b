//! The singly linked list and its storage cells.

pub mod single_linked_list;
pub mod single_linked_list_node;
