pub mod archive_order;
pub mod engine;
pub mod fat_dat;
pub mod journal;
pub mod install;
