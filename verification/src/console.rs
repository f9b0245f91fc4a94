//! What the console shows and where it gets it from: the addresses of the
//! metrics server, the demo workload, and the rules by which the views are
//! laid out. Drawing and transport are left to the program around it.

pub mod demo;
pub mod http;
pub mod views;
