use vstd::prelude::*;

verus! {

/// Process-wide settings: where to listen and, optionally, the directory
/// that file routes read from and write to.
pub struct Config {
    pub files_path: Option<String>,
    pub address: String,
    pub port: i32,
}

impl Config {
    pub fn new(address: &str, port: i32, files_path: Option<String>) -> (r: Self)
        ensures
            r.address@ == address@,
            r.port == port,
            r.files_path == files_path,
    {
        Config { address: address.to_owned(), port, files_path }
    }
}

} // verus!
