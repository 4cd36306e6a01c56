//! A frame-driven 2D motion simulation over exact fixed-point arithmetic:
//! kinematic integration, steering forces and a self-organising food population.

pub mod fixed;
pub mod vector;
pub mod movement;
pub mod steering_agent;
pub mod food;
