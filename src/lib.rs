//! Bindings generation for JavaScript modules described by declaration
//! files: identifier sanitation, module paths and the module tree,
//! resolution of type references, and the emitted text of each type, all
//! with contracts checked by Verus.
pub mod ident;
pub mod ir;
pub mod resolve;
pub mod modpath;
pub mod modtree;
pub mod project;
pub mod funcs;
pub mod union;
pub mod iface;
pub mod traits;
pub mod emit;
pub mod subst;
pub mod typegen;
