//! A small calculator for a Fibonacci-style sequence: the first two terms
//! are both 1 and every later term is the sum of the two terms before it.
//! The calculator rejects negative indices and computes every supported
//! index iteratively, in constant space, with arithmetic proved free of
//! overflow.

pub mod fibonacci;
