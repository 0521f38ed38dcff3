pub mod fixed;
pub mod vec3;
pub mod types;
pub mod ray;
pub mod rand;
pub mod objects;
pub mod intersection;
pub mod hittable;
pub mod material;
pub mod camera;
pub mod ppm;
pub mod ramp;
