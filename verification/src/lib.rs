pub mod component;
pub mod descriptor;
pub mod engine;
pub mod error;
pub mod lifecycle;
pub mod linker;
pub mod plain;
pub mod reflect;
pub mod sandbox;
pub mod segment;
pub mod signature;
pub mod view;
