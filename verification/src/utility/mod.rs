pub mod strings;
