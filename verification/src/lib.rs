//! Symbol mangling for the MSVC (Microsoft x64) C++ ABI, the layout of the
//! MSVC `std::span` view, and the address checks used when resolving OpenGL
//! entry points.

pub mod text;
pub mod windows_symbol;
pub mod stl_span;
pub mod platform;
pub mod laws;
