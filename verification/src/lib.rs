pub mod text;
pub mod markup;
pub mod standalone;
pub mod stats;
pub mod pair;
pub mod bar;
pub mod widgets;
