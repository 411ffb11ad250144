use vstd::prelude::*;

pub mod text;
pub mod json;
pub mod responses;
pub mod string_map;
pub mod structs;
pub mod endpoints;
pub mod outside;
pub mod paths;
