pub mod for_loop;
pub mod while_loop;
