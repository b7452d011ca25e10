pub mod le;
pub mod parser;
pub mod types;
pub mod text;
pub mod syms;
pub mod reloc;
pub mod utils;
pub mod stream_index;
pub mod encoder;
pub mod record;
pub mod lines;
pub mod names;
pub mod sort_utils;
pub mod dump_utils;
pub mod hash;
pub mod globals;
pub mod dbi;
pub mod diag;
pub mod msf;
pub mod msfz;
pub mod modi;
pub mod tmcache;
pub mod tpi;
