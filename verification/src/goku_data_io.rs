pub mod data_io;
