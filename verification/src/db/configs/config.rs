use vstd::prelude::*;

verus! {

/// Where the database lives and how it is opened.
pub struct Config {
    pub db_name: String,
    pub path: String,
    pub db_mod: String,
}

/// The database settings for the directory `os_path`: the database `thoth`,
/// opened to read, write and create (`rwc`).
pub fn get_config(os_path: String) -> (config: Config)
    ensures
        config.db_name@ == "thoth"@,
        config.path == os_path,
        config.db_mod@ == "rwc"@,
{
    Config { db_name: "thoth".to_owned(), path: os_path, db_mod: "rwc".to_owned() }
}

impl Config {
    /// The address the database is opened at:
    /// `sqlite:///<path>/<db_name>.db?mode=<db_mod>`.
    pub fn database_url(&self) -> (url: String)
        ensures
            url@ == "sqlite:///"@ + self.path@ + "/"@ + self.db_name@ + ".db?mode="@ + self.db_mod@,
    {
        let mut url = "sqlite:///".to_owned();
        url.append(self.path.as_str());
        url.append("/");
        url.append(self.db_name.as_str());
        url.append(".db?mode=");
        url.append(self.db_mod.as_str());
        url
    }
}

} // verus!
