#![allow(non_camel_case_types)]

pub mod builder;
pub mod codec;
pub mod identifier;
pub mod lang;
pub mod model;
pub mod parse;
pub mod score;
pub mod table;
pub mod text;
