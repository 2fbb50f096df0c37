//! Server creation parameters and the generated properties file.

use vstd::prelude::*;
use crate::numfmt::{dec_rep, u64_to_string};
use crate::text::str_copy;

verus! {

/// What a server is created with.
pub struct ServerConfig {
    pub name: String,
    pub version: String,
    pub port: u16,
    pub ram: u32,
    pub motd: String,
    pub max_players: u32,
    pub difficulty: String,
    pub gamemode: String,
    pub build: Option<u32>,
}

/// The full text of the generated properties file: a fixed template with
/// the port, player limit, message of the day, difficulty and game mode
/// filled in.
pub open spec fn properties_text(
    port: u16,
    max_players: u32,
    motd: Seq<char>,
    difficulty: Seq<char>,
    gamemode: Seq<char>,
) -> Seq<char> {
    "#Minecraft server properties\nserver-port="@ + dec_rep(port as nat)
        + "\nserver-ip=0.0.0.0\nmax-players="@ + dec_rep(max_players as nat) + "\nmotd="@ + motd
        + "\ndifficulty="@ + difficulty + "\ngamemode="@ + gamemode
        + "\nonline-mode=true\nwhite-list=false\npvp=true\nallow-flight=false\nenable-command-block=true\nspawn-protection=16\nlevel-name=world\nlevel-type=DEFAULT\nhardcore=false\nenable-query=false\nenable-rcon=false\nresource-pack=\nresource-pack-sha1=\nmax-world-size=29999984\nview-distance=10\nspawn-npcs=true\nspawn-animals=true\ngenerate-structures=true\nallow-nether=true\nbroadcast-console-to-ops=true\nplayer-idle-timeout=0\nmax-build-height=256\nlevel-seed=\nprevent-proxy-connections=false\n"@
}

/// Render the properties file for a configuration.
pub fn create_server_properties(config: &ServerConfig) -> (r: String)
    ensures
        r@ =~= properties_text(
            config.port,
            config.max_players,
            config.motd@,
            config.difficulty@,
            config.gamemode@,
        ),
{
    let mut r = str_copy("#Minecraft server properties\nserver-port=");
    let port = u64_to_string(config.port as u64);
    r.append(port.as_str());
    r.append("\nserver-ip=0.0.0.0\nmax-players=");
    let players = u64_to_string(config.max_players as u64);
    r.append(players.as_str());
    r.append("\nmotd=");
    r.append(config.motd.as_str());
    r.append("\ndifficulty=");
    r.append(config.difficulty.as_str());
    r.append("\ngamemode=");
    r.append(config.gamemode.as_str());
    r.append(
        "\nonline-mode=true\nwhite-list=false\npvp=true\nallow-flight=false\nenable-command-block=true\nspawn-protection=16\nlevel-name=world\nlevel-type=DEFAULT\nhardcore=false\nenable-query=false\nenable-rcon=false\nresource-pack=\nresource-pack-sha1=\nmax-world-size=29999984\nview-distance=10\nspawn-npcs=true\nspawn-animals=true\ngenerate-structures=true\nallow-nether=true\nbroadcast-console-to-ops=true\nplayer-idle-timeout=0\nmax-build-height=256\nlevel-seed=\nprevent-proxy-connections=false\n",
    );
    r
}

} // verus!
