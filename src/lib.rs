//! A sieve of Eratosthenes over a flag array whose marking passes run in
//! parallel, with its result proved to be exactly the primes up to a bound.

pub mod cli;
pub mod flags;
pub mod laws;
pub mod output;
pub mod primes;
pub mod sieve;
