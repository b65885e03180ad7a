//! The decision logic of a robot that explores a grid world, collects
//! resources, turns them into coins and deposits the coins at banks.
pub mod geometry;
pub mod world;
pub mod chart;
pub mod random;
pub mod robot;
pub mod modes;
