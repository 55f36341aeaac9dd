pub mod layers;
pub mod object;
pub use layers::Layers;
pub use object::Object;
