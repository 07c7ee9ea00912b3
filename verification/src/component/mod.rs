pub mod mesh;
