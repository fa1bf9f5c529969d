use vstd::prelude::*;

pub mod text;
pub mod paths;
pub mod error_kind;
pub mod whiskey_python;
pub mod whiskey_manipulator;
pub mod decimal;
pub mod whiskey_wine_api;
