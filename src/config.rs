use vstd::prelude::*;

verus! {

/// Server settings, fixed once loaded.
pub struct Config {
    pub addr: String,
    pub port: u16,
    pub heartbeat_url: String,
    pub name: String,
    pub motd: String,
    pub public: bool,
    pub do_user_auth: bool,
    pub max_players: u32,
    pub default_map: String,
}

impl Config {
    /// A copy with the same settings.
    pub fn duplicate(&self) -> (r: Config)
        ensures
            r == *self,
    {
        Config {
            addr: self.addr.clone(),
            port: self.port,
            heartbeat_url: self.heartbeat_url.clone(),
            name: self.name.clone(),
            motd: self.motd.clone(),
            public: self.public,
            do_user_auth: self.do_user_auth,
            max_players: self.max_players,
            default_map: self.default_map.clone(),
        }
    }
}

impl Default for Config {
    /// The settings a missing configuration file is created with.
    fn default() -> (r: Config)
        ensures
            r.addr@ == "0.0.0.0"@,
            r.port == 25565,
            r.heartbeat_url@ == "https://www.classicube.net/server/heartbeat"@,
            r.name@ == "A classic server"@,
            r.motd@ == "dandelion powered"@,
            r.public,
            r.do_user_auth,
            r.max_players == 64,
            r.default_map@ == "default"@,
    {
        Config {
            addr: "0.0.0.0".to_string(),
            port: 25565,
            heartbeat_url: "https://www.classicube.net/server/heartbeat".to_string(),
            name: "A classic server".to_string(),
            motd: "dandelion powered".to_string(),
            public: true,
            do_user_auth: true,
            max_players: 64,
            default_map: "default".to_string(),
        }
    }
}

} // verus!
