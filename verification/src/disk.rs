pub mod io;
pub mod space;
