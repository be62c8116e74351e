//! The typing engine: letters, words and the test that tracks the cursor.
pub mod letter;
pub mod word;
pub mod typing_test;
pub mod laws;
pub mod lines;
