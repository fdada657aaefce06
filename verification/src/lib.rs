//! Containers built on one growable slot buffer: a ring queue, a stack and a
//! vector, and beside them a singly linked list.
//!
//! Every container exposes its contents as a mathematical sequence (`@`), and
//! every operation states how that sequence changes. The ring queue also
//! states where its elements lie in the buffer, and `fifo` proves what holds
//! of a queue after any run of operations.

pub mod buffer;
pub mod fifo;
pub mod linked_list;
pub mod queue;
pub mod ring;
pub mod sequence;
pub mod stack;
pub mod vector;
