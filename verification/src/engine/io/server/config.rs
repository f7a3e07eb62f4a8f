//! `config.toml`: the server's settings, and how they are written into
//! `server.properties`.
use vstd::prelude::*;
use crate::text::{
    views, dec, dec_int, bool_text, u64_to_string, i64_to_string, bool_to_string, lines_of,
    lines_seq, join_seq, join_strings, split_seq, split_char, trim_ws, trim_white,
    concat3, str_eq, contains_str, has_char, first_is, lines_read_back, lemma_lines_join, lemma_split_key,
};

verus! {

#[derive(Clone, Copy, Debug, PartialEq, Eq, Structural)]
pub enum Difficulty {
    Peaceful,
    Easy,
    Normal,
    Hard,
}

impl Difficulty {
    pub open spec fn name_spec(self) -> Seq<char> {
        match self {
            Difficulty::Peaceful => "peaceful"@,
            Difficulty::Easy => "easy"@,
            Difficulty::Normal => "normal"@,
            Difficulty::Hard => "hard"@,
        }
    }

    /// The variant's name in lower case.
    pub fn name(&self) -> (s: String)
        ensures
            s@ == self.name_spec(),
    {
        match self {
            Difficulty::Peaceful => "peaceful".to_owned(),
            Difficulty::Easy => "easy".to_owned(),
            Difficulty::Normal => "normal".to_owned(),
            Difficulty::Hard => "hard".to_owned(),
        }
    }
}

pub struct ServerSettings {
    pub name: String,
    pub level_type: String,
    pub seed: String,
    pub generate_structures: bool,
    pub allow_nether: bool,
    pub hardcore: bool,
    pub difficulty: Difficulty,
    pub gamemode: String,
    pub force_gamemode: bool,
    pub pvp: bool,
}

pub struct SpawningSettings {
    pub monsters: bool,
    pub animals: bool,
    pub npcs: bool,
    pub spawn_protection: u32,
}

#[derive(Clone, Copy, Debug, PartialEq, Eq, Structural)]
pub enum Tunnel {
    Playit,
    /// No tunnel (written `none` in `config.toml`).
    NoTunnel,
}

pub struct NetworkSettings {
    pub minecraft_port: u16,
    pub max_players: u32,
    pub online_mode: bool,
    pub prevent_proxy_connections: bool,
    pub enforce_secure_profile: bool,
    pub compression_threshold: i32,
    pub tunnel_type: Tunnel,
    pub motd: String,
}

pub struct AccessSettings {
    pub whitelist: bool,
    pub op_permission_level: u8,
    pub function_permission_level: u8,
    pub player_idle_timeout: u32,
    pub enable_command_block: bool,
}

/// When a sleeping server wakes up.
#[derive(Clone, Copy, Debug, PartialEq, Eq, Structural)]
pub enum WakeupConditionMirror {
    Motd,
    Join,
    Disabled,
}

pub struct OnDemandSettings {
    pub enabled: bool,
    pub proxy_port: u16,
    pub idle_timedout: String,
    pub wakeup_on: WakeupConditionMirror,
    pub sleeping_motd: String,
}

pub struct ResourcePackSettings {
    pub url: String,
    pub hash: String,
    pub required: bool,
}

pub struct PerformanceSettings {
    pub view_distance: u32,
    pub simulation_distance: u32,
    pub entity_range: u32,
    pub sync_chunk_writes: bool,
    pub max_tick_time: u64,
    pub min_ram: String,
    pub max_ram: String,
    pub jvm_args: Vec<String>,
}

pub struct WebSettings {
    pub enabled: bool,
    pub bind: String,
}

pub struct ServerConfig {
    pub server: ServerSettings,
    pub spawning: SpawningSettings,
    pub network: NetworkSettings,
    pub access: AccessSettings,
    pub on_demand: OnDemandSettings,
    pub resource_pack: ResourcePackSettings,
    pub performance: PerformanceSettings,
    pub web: WebSettings,
}

/// The settings of a new server.
pub open spec fn is_default_server_config(c: ServerConfig) -> bool {
    &&& c.server.name@ == "world"@
    &&& c.server.level_type@ == "minecraft:\\:normal"@
    &&& c.server.seed@ == ""@
    &&& c.server.generate_structures
    &&& c.server.allow_nether
    &&& !c.server.hardcore
    &&& c.server.difficulty == Difficulty::Normal
    &&& c.server.gamemode@ == "survival"@
    &&& !c.server.force_gamemode
    &&& c.server.pvp
    &&& c.spawning.monsters
    &&& c.spawning.animals
    &&& c.spawning.npcs
    &&& c.spawning.spawn_protection == 16
    &&& c.network.minecraft_port == 25565
    &&& c.network.max_players == 20
    &&& c.network.online_mode
    &&& !c.network.prevent_proxy_connections
    &&& c.network.enforce_secure_profile
    &&& c.network.compression_threshold == 256
    &&& c.network.tunnel_type == Tunnel::NoTunnel
    &&& c.network.motd@ == "§bA Minecraft Server §7| §ePowered by Conduit"@
    &&& !c.access.whitelist
    &&& c.access.op_permission_level == 4
    &&& c.access.function_permission_level == 2
    &&& c.access.player_idle_timeout == 0
    &&& !c.access.enable_command_block
    &&& !c.on_demand.enabled
    &&& c.on_demand.proxy_port == 25567
    &&& c.on_demand.idle_timedout@ == "10m"@
    &&& c.on_demand.wakeup_on == WakeupConditionMirror::Motd
    &&& c.on_demand.sleeping_motd@ == "§c§l⚡ §eStarting server..."@
    &&& c.resource_pack.url@ == ""@
    &&& c.resource_pack.hash@ == ""@
    &&& !c.resource_pack.required
    &&& c.performance.view_distance == 10
    &&& c.performance.simulation_distance == 10
    &&& c.performance.entity_range == 100
    &&& c.performance.sync_chunk_writes
    &&& c.performance.max_tick_time == 60000
    &&& c.performance.min_ram@ == "2G"@
    &&& c.performance.max_ram@ == "4G"@
    &&& views(c.performance.jvm_args@) == seq!["-XX:+UseG1GC"@, "-Dsun.rmi.dgc.server.gcInterval=2147483646"@]
    &&& !c.web.enabled
    &&& c.web.bind@ == "0.0.0.0:8080"@
}

impl Default for ServerConfig {
    fn default() -> (c: Self)
        ensures
            is_default_server_config(c),
    {
        let mut jvm_args: Vec<String> = Vec::new();
        jvm_args.push("-XX:+UseG1GC".to_owned());
        jvm_args.push("-Dsun.rmi.dgc.server.gcInterval=2147483646".to_owned());
        assert(views(jvm_args@) =~= seq!["-XX:+UseG1GC"@, "-Dsun.rmi.dgc.server.gcInterval=2147483646"@]);
        ServerConfig {
            server: ServerSettings {
                name: "world".to_owned(),
                level_type: "minecraft:\\:normal".to_owned(),
                seed: "".to_owned(),
                generate_structures: true,
                allow_nether: true,
                hardcore: false,
                difficulty: Difficulty::Normal,
                gamemode: "survival".to_owned(),
                force_gamemode: false,
                pvp: true,
            },
            spawning: SpawningSettings { monsters: true, animals: true, npcs: true, spawn_protection: 16 },
            network: NetworkSettings {
                minecraft_port: 25565,
                max_players: 20,
                online_mode: true,
                prevent_proxy_connections: false,
                enforce_secure_profile: true,
                compression_threshold: 256,
                tunnel_type: Tunnel::NoTunnel,
                motd: "§bA Minecraft Server §7| §ePowered by Conduit".to_owned(),
            },
            access: AccessSettings {
                whitelist: false,
                op_permission_level: 4,
                function_permission_level: 2,
                player_idle_timeout: 0,
                enable_command_block: false,
            },
            on_demand: OnDemandSettings {
                enabled: false,
                proxy_port: 25567,
                idle_timedout: "10m".to_owned(),
                wakeup_on: WakeupConditionMirror::Motd,
                sleeping_motd: "§c§l⚡ §eStarting server...".to_owned(),
            },
            resource_pack: ResourcePackSettings { url: "".to_owned(), hash: "".to_owned(), required: false },
            performance: PerformanceSettings {
                view_distance: 10,
                simulation_distance: 10,
                entity_range: 100,
                sync_chunk_writes: true,
                max_tick_time: 60000,
                min_ram: "2G".to_owned(),
                max_ram: "4G".to_owned(),
                jvm_args,
            },
            web: WebSettings { enabled: false, bind: "0.0.0.0:8080".to_owned() },
        }
    }
}

impl ServerConfig {
    /// The configuration to use given what was read: the one read when the
    /// file exists, else the default, which must then be written (`true`).
    pub fn load_or_create(existing: Option<ServerConfig>) -> (r: (ServerConfig, bool))
        ensures
            existing is None <==> r.1,
            existing matches Some(c) ==> r.0 == c,
            existing is None ==> is_default_server_config(r.0),
    {
        match existing {
            Some(c) => (c, false),
            None => (ServerConfig::default(), true),
        }
    }
}

} // verus!

verus! {

pub open spec fn pair_views2(v: Seq<(String, String)>) -> Seq<(Seq<char>, Seq<char>)> {
    v.map_values(|p: (String, String)| (p.0@, p.1@))
}

/// The `server.properties` keys that the configuration sets, with the text
/// of each value, in the order they are written when missing.
pub open spec fn property_updates(c: ServerConfig) -> Seq<(Seq<char>, Seq<char>)> {
    seq![
        ("server-port"@, dec(c.network.minecraft_port as nat)),
        ("max-players"@, dec(c.network.max_players as nat)),
        ("online-mode"@, bool_text(c.network.online_mode)),
        ("motd"@, c.network.motd@),
        ("network-compression-threshold"@, dec_int(c.network.compression_threshold as int)),
        ("level-name"@, c.server.name@),
        ("level-type"@, c.server.level_type@),
        ("level-seed"@, c.server.seed@),
        ("difficulty"@, c.server.difficulty.name_spec()),
        ("hardcore"@, bool_text(c.server.hardcore)),
        ("pvp"@, bool_text(c.server.pvp)),
        ("view-distance"@, dec(c.performance.view_distance as nat)),
        ("simulation-distance"@, dec(c.performance.simulation_distance as nat)),
        ("sync-chunk-writes"@, bool_text(c.performance.sync_chunk_writes)),
        ("spawn-monsters"@, bool_text(c.spawning.monsters)),
        ("spawn-animals"@, bool_text(c.spawning.animals)),
        ("spawn-npcs"@, bool_text(c.spawning.npcs)),
        ("spawn-protection"@, dec(c.spawning.spawn_protection as nat)),
        ("white-list"@, bool_text(c.access.whitelist)),
        ("enforce-whitelist"@, bool_text(c.access.whitelist)),
        ("op-permission-level"@, dec(c.access.op_permission_level as nat)),
        ("enable-command-block"@, bool_text(c.access.enable_command_block)),
        ("enforce-secure-profile"@, bool_text(c.network.enforce_secure_profile)),
        ("prevent-proxy-connections"@, bool_text(c.network.prevent_proxy_connections)),
        ("entity-broadcast-range-percentage"@, dec(c.performance.entity_range as nat)),
    ]
}

/// The value given for key `k`, if any.
pub open spec fn lookup(u: Seq<(Seq<char>, Seq<char>)>, k: Seq<char>) -> Option<Seq<char>>
    decreases u.len(),
{
    if u.len() == 0 {
        None
    } else if u[0].0 == k {
        Some(u[0].1)
    } else {
        lookup(u.drop_first(), k)
    }
}

/// A line that sets a property: not a comment, and holding a `=`.
pub open spec fn is_setting_line(l: Seq<char>) -> bool {
    !(l.len() > 0 && l[0] == '#') && l.contains('=')
}

/// The key a setting line sets: what comes before the first `=`, trimmed.
pub open spec fn line_key(l: Seq<char>) -> Seq<char> {
    trim_ws(split_seq(l, '=')[0])
}

pub open spec fn assignment(k: Seq<char>, v: Seq<char>) -> Seq<char> {
    k + "="@ + v
}

/// A line as it is written back: a setting line whose key has a new value
/// becomes `key=value`; every other line stays as it was.
pub open spec fn patch_line(l: Seq<char>, u: Seq<(Seq<char>, Seq<char>)>) -> Seq<char> {
    if is_setting_line(l) && lookup(u, line_key(l)) is Some {
        assignment(line_key(l), lookup(u, line_key(l))->0)
    } else {
        l
    }
}

/// Some setting line of `lines` sets key `k`.
pub open spec fn key_applied(lines: Seq<Seq<char>>, k: Seq<char>) -> bool {
    exists|i: int| 0 <= i < lines.len() && is_setting_line(#[trigger] lines[i]) && line_key(lines[i]) == k
}

/// The lines of the patched file: each line of `content` patched, then
/// `key=value` for every update whose key no line set.
pub open spec fn patched_lines(content: Seq<char>, u: Seq<(Seq<char>, Seq<char>)>) -> Seq<Seq<char>> {
    let ls = lines_seq(content);
    ls.map_values(|l: Seq<char>| patch_line(l, u)) + u.filter(
        |p: (Seq<char>, Seq<char>)| !key_applied(ls, p.0)).map_values(
        |p: (Seq<char>, Seq<char>)| assignment(p.0, p.1))
}

proof fn lemma_lookup_skip(u: Seq<(Seq<char>, Seq<char>)>, k: Seq<char>, j: int)
    requires
        0 <= j < u.len(),
        u[j].0 != k,
    ensures
        lookup(u.skip(j), k) == lookup(u.skip(j + 1), k),
{
    assert(u.skip(j).drop_first() =~= u.skip(j + 1));
}

proof fn lemma_lookup_member(u: Seq<(Seq<char>, Seq<char>)>, j: int)
    requires
        0 <= j < u.len(),
    ensures
        lookup(u, u[j].0) is Some,
    decreases j,
{
    if j > 0 && u[0].0 != u[j].0 {
        assert(u.drop_first()[j - 1] == u[j]);
        lemma_lookup_member(u.drop_first(), j - 1);
    }
}

/// The position of the first update with key `k`, as `lookup` picks it.
fn find_update(u: &Vec<(String, String)>, k: &str) -> (r: Option<usize>)
    ensures
        r matches Some(j) ==> j < u@.len() && lookup(pair_views2(u@), k@) == Some(u@[j as int].1@),
        r is None ==> lookup(pair_views2(u@), k@) is None,
{
    let ghost pu = pair_views2(u@);
    assert(pu.skip(0) =~= pu);
    for j in 0..u.len()
        invariant
            pu == pair_views2(u@),
            lookup(pu, k@) == lookup(pu.skip(j as int), k@),
    {
        if str_eq(u[j].0.as_str(), k) {
            assert(pu.skip(j as int)[0] == pu[j as int]);
            return Some(j);
        }
        proof { lemma_lookup_skip(pu, k@, j as int); }
    }
    assert(pu.skip(u@.len() as int) =~= Seq::<(Seq<char>, Seq<char>)>::empty());
    None
}

impl ServerConfig {
    /// The updates that `patch_properties` writes (see `property_updates`).
    pub fn property_updates(&self) -> (u: Vec<(String, String)>)
        ensures
            pair_views2(u@) == property_updates(*self),
    {
        let mut u: Vec<(String, String)> = Vec::new();
        u.push(("server-port".to_owned(), u64_to_string(self.network.minecraft_port as u64)));
        u.push(("max-players".to_owned(), u64_to_string(self.network.max_players as u64)));
        u.push(("online-mode".to_owned(), bool_to_string(self.network.online_mode)));
        u.push(("motd".to_owned(), self.network.motd.clone()));
        u.push(("network-compression-threshold".to_owned(), i64_to_string(self.network.compression_threshold as i64)));
        u.push(("level-name".to_owned(), self.server.name.clone()));
        u.push(("level-type".to_owned(), self.server.level_type.clone()));
        u.push(("level-seed".to_owned(), self.server.seed.clone()));
        u.push(("difficulty".to_owned(), self.server.difficulty.name()));
        u.push(("hardcore".to_owned(), bool_to_string(self.server.hardcore)));
        u.push(("pvp".to_owned(), bool_to_string(self.server.pvp)));
        u.push(("view-distance".to_owned(), u64_to_string(self.performance.view_distance as u64)));
        u.push(("simulation-distance".to_owned(), u64_to_string(self.performance.simulation_distance as u64)));
        u.push(("sync-chunk-writes".to_owned(), bool_to_string(self.performance.sync_chunk_writes)));
        u.push(("spawn-monsters".to_owned(), bool_to_string(self.spawning.monsters)));
        u.push(("spawn-animals".to_owned(), bool_to_string(self.spawning.animals)));
        u.push(("spawn-npcs".to_owned(), bool_to_string(self.spawning.npcs)));
        u.push(("spawn-protection".to_owned(), u64_to_string(self.spawning.spawn_protection as u64)));
        u.push(("white-list".to_owned(), bool_to_string(self.access.whitelist)));
        u.push(("enforce-whitelist".to_owned(), bool_to_string(self.access.whitelist)));
        u.push(("op-permission-level".to_owned(), u64_to_string(self.access.op_permission_level as u64)));
        u.push(("enable-command-block".to_owned(), bool_to_string(self.access.enable_command_block)));
        u.push(("enforce-secure-profile".to_owned(), bool_to_string(self.network.enforce_secure_profile)));
        u.push(("prevent-proxy-connections".to_owned(), bool_to_string(self.network.prevent_proxy_connections)));
        u.push(("entity-broadcast-range-percentage".to_owned(), u64_to_string(self.performance.entity_range as u64)));
        assert(pair_views2(u@) =~= property_updates(*self));
        u
    }

    /// `server.properties` with this configuration written in (see
    /// `patched_lines`), its lines joined by `\n`.
    pub fn patch_properties(&self, content: &str) -> (r: String)
        ensures
            r@ == join_seq(patched_lines(content@, property_updates(*self)), "\n"@),
    {
        let updates = self.property_updates();
        let ghost u = property_updates(*self);
        let lines = lines_of(content);
        let ghost ls = lines_seq(content@);
        let mut new_lines: Vec<String> = Vec::new();
        let mut applied: Vec<String> = Vec::new();
        proof { reveal_strlit("="); }
        assert(ls.take(0).map_values(|l: Seq<char>| patch_line(l, u)) =~= views(new_lines@));
        for i in 0..lines.len()
            invariant
                pair_views2(updates@) == u,
                views(lines@) == ls,
                views(new_lines@) == ls.take(i as int).map_values(|l: Seq<char>| patch_line(l, u)),
                forall|k: Seq<char>| views(applied@).contains(k) <==> (lookup(u, k) is Some && exists|j: int|
                    0 <= j < i && is_setting_line(#[trigger] ls[j]) && line_key(ls[j]) == k),
        {
            let line = &lines[i];
            let ghost l = ls[i as int];
            assert(line@ == l);
            let ghost before = views(new_lines@);
            let ghost before_applied = views(applied@);
            if first_is(line.as_str(), '#') || !has_char(line.as_str(), '=') {
                new_lines.push(line.clone());
                assert(!is_setting_line(l));
                assert(views(applied@) == before_applied);
                assert(views(new_lines@) =~= before.push(patch_line(l, u)));
            } else {
                let parts = split_char(line.as_str(), '=');
                proof { crate::text::lemma_split_len(l, '='); }
                let key = trim_white(parts[0].as_str());
                assert(key@ == line_key(l));
                match find_update(&updates, key.as_str()) {
                    Some(j) => {
                        let text = concat3(key.as_str(), "=", updates[j].1.as_str());
                        new_lines.push(text);
                        assert(views(new_lines@) =~= before.push(patch_line(l, u)));
                        applied.push(key);
                        assert(views(applied@) =~= before_applied.push(line_key(l)));
                    },
                    None => {
                        new_lines.push(line.clone());
                        assert(views(new_lines@) =~= before.push(patch_line(l, u)));
                    },
                }
            }
            assert(ls.take(i + 1).map_values(|l: Seq<char>| patch_line(l, u)) =~= ls.take(i as int).map_values(
                |l: Seq<char>| patch_line(l, u)).push(patch_line(l, u)));
            assert((is_setting_line(l) && lookup(u, line_key(l)) is Some) ==> views(applied@) == before_applied.push(line_key(l)));
            assert(!(is_setting_line(l) && lookup(u, line_key(l)) is Some) ==> views(applied@) == before_applied);
            assert forall|k: Seq<char>| views(applied@).contains(k) <==> (lookup(u, k) is Some && exists|j: int|
                0 <= j < i + 1 && is_setting_line(#[trigger] ls[j]) && line_key(ls[j]) == k) by {
                if views(applied@).contains(k) && !before_applied.contains(k) {
                    assert(k == line_key(l));
                    assert(is_setting_line(ls[i as int]));
                }
                if before_applied.contains(k) {
                    assert(views(applied@).contains(k)) by {
                        let t = choose|t: int| 0 <= t < before_applied.len() && before_applied[t] == k;
                        assert(views(applied@)[t] == k);
                    }
                }
                if lookup(u, k) is Some && exists|j: int| 0 <= j < i + 1 && is_setting_line(#[trigger] ls[j]) && line_key(ls[j]) == k {
                    let j = choose|j: int| 0 <= j < i + 1 && is_setting_line(#[trigger] ls[j]) && line_key(ls[j]) == k;
                    if j == i {
                        assert(views(applied@)[before_applied.len() as int] == k);
                    } else {
                        assert(before_applied.contains(k));
                    }
                }
            }
        }
        assert(ls.take(lines@.len() as int) =~= ls);
        let ghost pout = |p: (Seq<char>, Seq<char>)| !key_applied(ls, p.0);
        let ghost kept = ls.map_values(|l: Seq<char>| patch_line(l, u));
        assert(views(new_lines@) == kept + u.take(0).filter(pout).map_values(|p: (Seq<char>, Seq<char>)| assignment(p.0, p.1)));
        for j in 0..updates.len()
            invariant
                pair_views2(updates@) == u,
                pout == (|p: (Seq<char>, Seq<char>)| !key_applied(ls, p.0)),
                kept == ls.map_values(|l: Seq<char>| patch_line(l, u)),
                views(new_lines@) == kept + u.take(j as int).filter(pout).map_values(
                    |p: (Seq<char>, Seq<char>)| assignment(p.0, p.1)),
                forall|k: Seq<char>| views(applied@).contains(k) <==> (lookup(u, k) is Some && exists|t: int|
                    0 <= t < ls.len() && is_setting_line(#[trigger] ls[t]) && line_key(ls[t]) == k),
        {
            let ghost p = u[j as int];
            assert(updates@[j as int].0@ == p.0);
            assert(updates@[j as int].1@ == p.1);
            proof {
                lemma_lookup_member(u, j as int);
                assert(u.take(j + 1).drop_last() =~= u.take(j as int));
                reveal_with_fuel(Seq::filter, 1);
            }
            let ghost before = views(new_lines@);
            if !contains_str(&applied, updates[j].0.as_str()) {
                assert(!key_applied(ls, p.0));
                let text = concat3(updates[j].0.as_str(), "=", updates[j].1.as_str());
                new_lines.push(text);
                assert(u.take(j + 1).filter(pout) =~= u.take(j as int).filter(pout).push(p));
                assert(views(new_lines@) =~= before.push(assignment(p.0, p.1)));
                assert(u.take(j + 1).filter(pout).map_values(|p: (Seq<char>, Seq<char>)| assignment(p.0, p.1))
                    =~= u.take(j as int).filter(pout).map_values(|p: (Seq<char>, Seq<char>)| assignment(p.0, p.1)).push(assignment(p.0, p.1)));
                assert(views(new_lines@) =~= kept + u.take(j + 1).filter(pout).map_values(
                    |p: (Seq<char>, Seq<char>)| assignment(p.0, p.1)));
            } else {
                assert(key_applied(ls, p.0));
                assert(u.take(j + 1).filter(pout) =~= u.take(j as int).filter(pout));
            }
        }
        assert(u.take(updates@.len() as int) =~= u);
        join_strings(&new_lines, "\n")
    }
}

} // verus!

verus! {

proof fn lemma_lookup_witness(u: Seq<(Seq<char>, Seq<char>)>, k: Seq<char>)
    requires
        lookup(u, k) is Some,
    ensures
        exists|j: int| 0 <= j < u.len() && u[j] == (k, lookup(u, k)->0),
    decreases u.len(),
{
    if u[0].0 != k {
        lemma_lookup_witness(u.drop_first(), k);
        let j = choose|j: int| 0 <= j < u.drop_first().len() && u.drop_first()[j] == (k, lookup(u.drop_first(), k)->0);
        assert(u[j + 1] == u.drop_first()[j]);
    } else {
        assert(u[0] == (k, lookup(u, k)->0));
    }
}

/// Patching writes every key the configuration sets: for each update key,
/// the patched file has the line `key=value` with the value given for it.
pub proof fn lemma_patch_sets_every_key(content: Seq<char>, u: Seq<(Seq<char>, Seq<char>)>, j: int)
    requires
        0 <= j < u.len(),
    ensures
        patched_lines(content, u).contains(assignment(u[j].0, lookup(u, u[j].0)->0)),
{
    let k = u[j].0;
    let ls = lines_seq(content);
    let kept = ls.map_values(|l: Seq<char>| patch_line(l, u));
    let pout = |p: (Seq<char>, Seq<char>)| !key_applied(ls, p.0);
    let added = u.filter(pout).map_values(|p: (Seq<char>, Seq<char>)| assignment(p.0, p.1));
    let all = patched_lines(content, u);
    assert(all == kept + added);
    lemma_lookup_member(u, j);
    let v = lookup(u, k)->0;
    if key_applied(ls, k) {
        let i = choose|i: int| 0 <= i < ls.len() && is_setting_line(#[trigger] ls[i]) && line_key(ls[i]) == k;
        assert(kept[i] == assignment(k, v));
        assert(all[i] == kept[i]);
    } else {
        lemma_lookup_witness(u, k);
        let j0 = choose|j0: int| 0 <= j0 < u.len() && u[j0] == (k, v);
        assert(pout(u[j0]));
        u.lemma_filter_contains(pout, j0);
        let f = u.filter(pout);
        let t = choose|t: int| 0 <= t < f.len() && f[t] == u[j0];
        assert(added[t] == assignment(k, v));
        assert(all[kept.len() + t] == added[t]);
    }
}

/// Keys that patching finds again in what it wrote: each is not empty, does
/// not start with `#`, holds no `=`, has no white space to trim, and is
/// given one value.
pub open spec fn plain_keys(u: Seq<(Seq<char>, Seq<char>)>) -> bool {
    forall|j: int| 0 <= j < u.len() ==> #[trigger] plain_key_at(u, j)
}

pub open spec fn plain_key_at(u: Seq<(Seq<char>, Seq<char>)>, j: int) -> bool {
    &&& u[j].0.len() > 0
    &&& u[j].0[0] != '#'
    &&& !u[j].0.contains('=')
    &&& trim_ws(u[j].0) == u[j].0
    &&& lookup(u, u[j].0) == Some(u[j].1)
}

/// `key=value` with a plain key is a setting line of that key.
proof fn lemma_assignment_line(u: Seq<(Seq<char>, Seq<char>)>, j: int, v: Seq<char>)
    requires
        plain_keys(u),
        0 <= j < u.len(),
    ensures
        is_setting_line(assignment(u[j].0, v)),
        line_key(assignment(u[j].0, v)) == u[j].0,
{
    assert(plain_key_at(u, j));
    let k = u[j].0;
    reveal_strlit("=");
    assert("="@ =~= seq!['=']);
    let l = assignment(k, v);
    assert(l =~= k + seq!['='] + v);
    lemma_split_key(k, v, '=');
    assert(l[0] == k[0]);
    assert(l[k.len() as int] == '=');
}

/// Patching a line a second time changes nothing.
proof fn lemma_patch_line_twice(l: Seq<char>, u: Seq<(Seq<char>, Seq<char>)>)
    requires
        plain_keys(u),
    ensures
        patch_line(patch_line(l, u), u) == patch_line(l, u),
{
    if is_setting_line(l) && lookup(u, line_key(l)) is Some {
        let k = line_key(l);
        lemma_lookup_witness(u, k);
        let j = choose|j: int| 0 <= j < u.len() && u[j] == (k, lookup(u, k)->0);
        assert(u[j].0 == k);
        lemma_assignment_line(u, j, lookup(u, k)->0);
    }
}

/// Patching `server.properties` a second time changes nothing, when the
/// lines written read back as written: none holds a line break, none but
/// the last ends in a carriage return, and the last is not empty. (Where
/// the last line read ends in a carriage return and keys are written after
/// it, reading the written file drops that carriage return; where the last
/// line read is empty and no key is written after it, reading drops that
/// line.)
pub proof fn lemma_patch_idempotent(content: Seq<char>, u: Seq<(Seq<char>, Seq<char>)>)
    requires
        plain_keys(u),
        lines_read_back(patched_lines(content, u)),
    ensures
        patched_lines(join_seq(patched_lines(content, u), "\n"@), u) == patched_lines(content, u),
{
    let out = patched_lines(content, u);
    let ls = lines_seq(content);
    let kept = ls.map_values(|l: Seq<char>| patch_line(l, u));
    let pout = |p: (Seq<char>, Seq<char>)| !key_applied(ls, p.0);
    let f = u.filter(pout);
    let added = f.map_values(|p: (Seq<char>, Seq<char>)| assignment(p.0, p.1));
    assert(out == kept + added);
    lemma_lines_join(out);
    assert(lines_seq(join_seq(out, "\n"@)) == out);
    // every line written is patched to itself
    assert forall|i: int| 0 <= i < out.len() implies patch_line(#[trigger] out[i], u) == out[i] by {
        if i < kept.len() {
            assert(out[i] == kept[i]);
            lemma_patch_line_twice(ls[i], u);
        } else {
            let t = i - kept.len();
            assert(out[i] == added[t]);
            assert(f.contains(f[t]));
            u.lemma_filter_contains_rev(pout, f[t]);
            let j = choose|j: int| 0 <= j < u.len() && u[j] == f[t];
            lemma_assignment_line(u, j, u[j].1);
            assert(plain_key_at(u, j));
        }
    }
    let again = out.map_values(|l: Seq<char>| patch_line(l, u));
    assert(again =~= out);
    // every key is set by some line written, so nothing is added again
    let pout2 = |p: (Seq<char>, Seq<char>)| !key_applied(out, p.0);
    assert forall|j: int| 0 <= j < u.len() implies !pout2(#[trigger] u[j]) by {
        lemma_patch_sets_every_key(content, u, j);
        let v = lookup(u, u[j].0)->0;
        let i = choose|i: int| 0 <= i < out.len() && out[i] == assignment(u[j].0, v);
        lemma_assignment_line(u, j, v);
        assert(is_setting_line(out[i]) && line_key(out[i]) == u[j].0);
    }
    u.lemma_all_neg_filter_empty(pout2);
    assert(u.filter(pout2).map_values(|p: (Seq<char>, Seq<char>)| assignment(p.0, p.1)) =~= Seq::<Seq<char>>::empty());
    assert(patched_lines(join_seq(out, "\n"@), u) =~= again + Seq::<Seq<char>>::empty());
}

/// Where no key before position `j` is the key at `j`, looking that key up
/// gives the value at `j`.
proof fn lemma_lookup_first(u: Seq<(Seq<char>, Seq<char>)>, j: int)
    requires
        0 <= j < u.len(),
        forall|a: int| 0 <= a < j ==> u[a].0 != u[j].0,
    ensures
        lookup(u, u[j].0) == Some(u[j].1),
    decreases j,
{
    if j > 0 {
        let t = u.drop_first();
        assert(t[j - 1] == u[j]);
        assert forall|a: int| 0 <= a < j - 1 implies (#[trigger] t[a]).0 != t[j - 1].0 by {
            assert(t[a] == u[a + 1]);
        }
        lemma_lookup_first(t, j - 1);
    }
}

/// The keys the configuration writes are plain: each is a lower-case word
/// or words joined by `-`, and no two are the same.
#[verifier::rlimit(100)]
#[verifier::spinoff_prover]
pub proof fn lemma_property_keys_plain(c: ServerConfig)
    ensures
        plain_keys(property_updates(c)),
{
    let u = property_updates(c);
    reveal_strlit("server-port");
    reveal_strlit("max-players");
    reveal_strlit("online-mode");
    reveal_strlit("motd");
    reveal_strlit("network-compression-threshold");
    reveal_strlit("level-name");
    reveal_strlit("level-type");
    reveal_strlit("level-seed");
    reveal_strlit("difficulty");
    reveal_strlit("hardcore");
    reveal_strlit("pvp");
    reveal_strlit("view-distance");
    reveal_strlit("simulation-distance");
    reveal_strlit("sync-chunk-writes");
    reveal_strlit("spawn-monsters");
    reveal_strlit("spawn-animals");
    reveal_strlit("spawn-npcs");
    reveal_strlit("spawn-protection");
    reveal_strlit("white-list");
    reveal_strlit("enforce-whitelist");
    reveal_strlit("op-permission-level");
    reveal_strlit("enable-command-block");
    reveal_strlit("enforce-secure-profile");
    reveal_strlit("prevent-proxy-connections");
    reveal_strlit("entity-broadcast-range-percentage");
    assert(plain_key_at(u, 0)) by {
        lemma_lookup_first(u, 0);
    }
    assert(plain_key_at(u, 1)) by {
        assert("server-port"@[0] != "max-players"@[0]);
        lemma_lookup_first(u, 1);
    }
    assert(plain_key_at(u, 2)) by {
        assert("server-port"@[0] != "online-mode"@[0]);
        assert("max-players"@[0] != "online-mode"@[0]);
        lemma_lookup_first(u, 2);
    }
    assert(plain_key_at(u, 3)) by {
        lemma_lookup_first(u, 3);
    }
    assert(plain_key_at(u, 4)) by {
        lemma_lookup_first(u, 4);
    }
    assert(plain_key_at(u, 5)) by {
        lemma_lookup_first(u, 5);
    }
    assert(plain_key_at(u, 6)) by {
        assert("level-name"@[6] != "level-type"@[6]);
        lemma_lookup_first(u, 6);
    }
    assert(plain_key_at(u, 7)) by {
        assert("level-name"@[6] != "level-seed"@[6]);
        assert("level-type"@[6] != "level-seed"@[6]);
        lemma_lookup_first(u, 7);
    }
    assert(plain_key_at(u, 8)) by {
        assert("level-name"@[0] != "difficulty"@[0]);
        assert("level-type"@[0] != "difficulty"@[0]);
        assert("level-seed"@[0] != "difficulty"@[0]);
        lemma_lookup_first(u, 8);
    }
    assert(plain_key_at(u, 9)) by {
        lemma_lookup_first(u, 9);
    }
    assert(plain_key_at(u, 10)) by {
        lemma_lookup_first(u, 10);
    }
    assert(plain_key_at(u, 11)) by {
        lemma_lookup_first(u, 11);
    }
    assert(plain_key_at(u, 12)) by {
        lemma_lookup_first(u, 12);
    }
    assert(plain_key_at(u, 13)) by {
        lemma_lookup_first(u, 13);
    }
    assert(plain_key_at(u, 14)) by {
        lemma_lookup_first(u, 14);
    }
    assert(plain_key_at(u, 15)) by {
        assert("view-distance"@[0] != "spawn-animals"@[0]);
        lemma_lookup_first(u, 15);
    }
    assert(plain_key_at(u, 16)) by {
        assert("level-name"@[0] != "spawn-npcs"@[0]);
        assert("level-type"@[0] != "spawn-npcs"@[0]);
        assert("level-seed"@[0] != "spawn-npcs"@[0]);
        assert("difficulty"@[0] != "spawn-npcs"@[0]);
        lemma_lookup_first(u, 16);
    }
    assert(plain_key_at(u, 17)) by {
        lemma_lookup_first(u, 17);
    }
    assert(plain_key_at(u, 18)) by {
        assert("level-name"@[0] != "white-list"@[0]);
        assert("level-type"@[0] != "white-list"@[0]);
        assert("level-seed"@[0] != "white-list"@[0]);
        assert("difficulty"@[0] != "white-list"@[0]);
        assert("spawn-npcs"@[0] != "white-list"@[0]);
        lemma_lookup_first(u, 18);
    }
    assert(plain_key_at(u, 19)) by {
        assert("sync-chunk-writes"@[0] != "enforce-whitelist"@[0]);
        lemma_lookup_first(u, 19);
    }
    assert(plain_key_at(u, 20)) by {
        assert("simulation-distance"@[0] != "op-permission-level"@[0]);
        lemma_lookup_first(u, 20);
    }
    assert(plain_key_at(u, 21)) by {
        lemma_lookup_first(u, 21);
    }
    assert(plain_key_at(u, 22)) by {
        lemma_lookup_first(u, 22);
    }
    assert(plain_key_at(u, 23)) by {
        lemma_lookup_first(u, 23);
    }
    assert(plain_key_at(u, 24)) by {
        lemma_lookup_first(u, 24);
    }
}

/// Each key written into `server.properties` takes the value of its own
/// setting of the configuration, and the patched file, whatever it held
/// before, has the line `key=value` for each of them.
pub proof fn lemma_property_values(c: ServerConfig, content: Seq<char>)
    ensures
        lookup(property_updates(c), "server-port"@) == Some(dec(c.network.minecraft_port as nat)),
        lookup(property_updates(c), "max-players"@) == Some(dec(c.network.max_players as nat)),
        lookup(property_updates(c), "online-mode"@) == Some(bool_text(c.network.online_mode)),
        lookup(property_updates(c), "motd"@) == Some(c.network.motd@),
        lookup(property_updates(c), "network-compression-threshold"@) == Some(dec_int(c.network.compression_threshold as int)),
        lookup(property_updates(c), "level-name"@) == Some(c.server.name@),
        lookup(property_updates(c), "level-type"@) == Some(c.server.level_type@),
        lookup(property_updates(c), "level-seed"@) == Some(c.server.seed@),
        lookup(property_updates(c), "difficulty"@) == Some(c.server.difficulty.name_spec()),
        lookup(property_updates(c), "hardcore"@) == Some(bool_text(c.server.hardcore)),
        lookup(property_updates(c), "pvp"@) == Some(bool_text(c.server.pvp)),
        lookup(property_updates(c), "view-distance"@) == Some(dec(c.performance.view_distance as nat)),
        lookup(property_updates(c), "simulation-distance"@) == Some(dec(c.performance.simulation_distance as nat)),
        lookup(property_updates(c), "sync-chunk-writes"@) == Some(bool_text(c.performance.sync_chunk_writes)),
        lookup(property_updates(c), "spawn-monsters"@) == Some(bool_text(c.spawning.monsters)),
        lookup(property_updates(c), "spawn-animals"@) == Some(bool_text(c.spawning.animals)),
        lookup(property_updates(c), "spawn-npcs"@) == Some(bool_text(c.spawning.npcs)),
        lookup(property_updates(c), "spawn-protection"@) == Some(dec(c.spawning.spawn_protection as nat)),
        lookup(property_updates(c), "white-list"@) == Some(bool_text(c.access.whitelist)),
        lookup(property_updates(c), "enforce-whitelist"@) == Some(bool_text(c.access.whitelist)),
        lookup(property_updates(c), "op-permission-level"@) == Some(dec(c.access.op_permission_level as nat)),
        lookup(property_updates(c), "enable-command-block"@) == Some(bool_text(c.access.enable_command_block)),
        lookup(property_updates(c), "enforce-secure-profile"@) == Some(bool_text(c.network.enforce_secure_profile)),
        lookup(property_updates(c), "prevent-proxy-connections"@) == Some(bool_text(c.network.prevent_proxy_connections)),
        lookup(property_updates(c), "entity-broadcast-range-percentage"@) == Some(dec(c.performance.entity_range as nat)),
        patched_lines(content, property_updates(c)).contains(assignment("server-port"@, dec(c.network.minecraft_port as nat))),
        patched_lines(content, property_updates(c)).contains(assignment("max-players"@, dec(c.network.max_players as nat))),
        patched_lines(content, property_updates(c)).contains(assignment("online-mode"@, bool_text(c.network.online_mode))),
        patched_lines(content, property_updates(c)).contains(assignment("motd"@, c.network.motd@)),
        patched_lines(content, property_updates(c)).contains(assignment("network-compression-threshold"@, dec_int(c.network.compression_threshold as int))),
        patched_lines(content, property_updates(c)).contains(assignment("level-name"@, c.server.name@)),
        patched_lines(content, property_updates(c)).contains(assignment("level-type"@, c.server.level_type@)),
        patched_lines(content, property_updates(c)).contains(assignment("level-seed"@, c.server.seed@)),
        patched_lines(content, property_updates(c)).contains(assignment("difficulty"@, c.server.difficulty.name_spec())),
        patched_lines(content, property_updates(c)).contains(assignment("hardcore"@, bool_text(c.server.hardcore))),
        patched_lines(content, property_updates(c)).contains(assignment("pvp"@, bool_text(c.server.pvp))),
        patched_lines(content, property_updates(c)).contains(assignment("view-distance"@, dec(c.performance.view_distance as nat))),
        patched_lines(content, property_updates(c)).contains(assignment("simulation-distance"@, dec(c.performance.simulation_distance as nat))),
        patched_lines(content, property_updates(c)).contains(assignment("sync-chunk-writes"@, bool_text(c.performance.sync_chunk_writes))),
        patched_lines(content, property_updates(c)).contains(assignment("spawn-monsters"@, bool_text(c.spawning.monsters))),
        patched_lines(content, property_updates(c)).contains(assignment("spawn-animals"@, bool_text(c.spawning.animals))),
        patched_lines(content, property_updates(c)).contains(assignment("spawn-npcs"@, bool_text(c.spawning.npcs))),
        patched_lines(content, property_updates(c)).contains(assignment("spawn-protection"@, dec(c.spawning.spawn_protection as nat))),
        patched_lines(content, property_updates(c)).contains(assignment("white-list"@, bool_text(c.access.whitelist))),
        patched_lines(content, property_updates(c)).contains(assignment("enforce-whitelist"@, bool_text(c.access.whitelist))),
        patched_lines(content, property_updates(c)).contains(assignment("op-permission-level"@, dec(c.access.op_permission_level as nat))),
        patched_lines(content, property_updates(c)).contains(assignment("enable-command-block"@, bool_text(c.access.enable_command_block))),
        patched_lines(content, property_updates(c)).contains(assignment("enforce-secure-profile"@, bool_text(c.network.enforce_secure_profile))),
        patched_lines(content, property_updates(c)).contains(assignment("prevent-proxy-connections"@, bool_text(c.network.prevent_proxy_connections))),
        patched_lines(content, property_updates(c)).contains(assignment("entity-broadcast-range-percentage"@, dec(c.performance.entity_range as nat))),
{
    let u = property_updates(c);
    lemma_property_keys_plain(c);
    assert(plain_key_at(u, 0));
    lemma_patch_sets_every_key(content, u, 0);
    assert(plain_key_at(u, 1));
    lemma_patch_sets_every_key(content, u, 1);
    assert(plain_key_at(u, 2));
    lemma_patch_sets_every_key(content, u, 2);
    assert(plain_key_at(u, 3));
    lemma_patch_sets_every_key(content, u, 3);
    assert(plain_key_at(u, 4));
    lemma_patch_sets_every_key(content, u, 4);
    assert(plain_key_at(u, 5));
    lemma_patch_sets_every_key(content, u, 5);
    assert(plain_key_at(u, 6));
    lemma_patch_sets_every_key(content, u, 6);
    assert(plain_key_at(u, 7));
    lemma_patch_sets_every_key(content, u, 7);
    assert(plain_key_at(u, 8));
    lemma_patch_sets_every_key(content, u, 8);
    assert(plain_key_at(u, 9));
    lemma_patch_sets_every_key(content, u, 9);
    assert(plain_key_at(u, 10));
    lemma_patch_sets_every_key(content, u, 10);
    assert(plain_key_at(u, 11));
    lemma_patch_sets_every_key(content, u, 11);
    assert(plain_key_at(u, 12));
    lemma_patch_sets_every_key(content, u, 12);
    assert(plain_key_at(u, 13));
    lemma_patch_sets_every_key(content, u, 13);
    assert(plain_key_at(u, 14));
    lemma_patch_sets_every_key(content, u, 14);
    assert(plain_key_at(u, 15));
    lemma_patch_sets_every_key(content, u, 15);
    assert(plain_key_at(u, 16));
    lemma_patch_sets_every_key(content, u, 16);
    assert(plain_key_at(u, 17));
    lemma_patch_sets_every_key(content, u, 17);
    assert(plain_key_at(u, 18));
    lemma_patch_sets_every_key(content, u, 18);
    assert(plain_key_at(u, 19));
    lemma_patch_sets_every_key(content, u, 19);
    assert(plain_key_at(u, 20));
    lemma_patch_sets_every_key(content, u, 20);
    assert(plain_key_at(u, 21));
    lemma_patch_sets_every_key(content, u, 21);
    assert(plain_key_at(u, 22));
    lemma_patch_sets_every_key(content, u, 22);
    assert(plain_key_at(u, 23));
    lemma_patch_sets_every_key(content, u, 23);
    assert(plain_key_at(u, 24));
    lemma_patch_sets_every_key(content, u, 24);
}

/// Writing the configuration into `server.properties` a second time
/// changes nothing, when the lines written read back as written (see
/// `lemma_patch_idempotent`).
pub proof fn lemma_patch_properties_idempotent(c: ServerConfig, content: Seq<char>)
    requires
        lines_read_back(patched_lines(content, property_updates(c))),
    ensures
        join_seq(patched_lines(join_seq(patched_lines(content, property_updates(c)), "\n"@), property_updates(c)), "\n"@)
            == join_seq(patched_lines(content, property_updates(c)), "\n"@),
{
    lemma_property_keys_plain(c);
    lemma_patch_idempotent(content, property_updates(c));
}

} // verus!
