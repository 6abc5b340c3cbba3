//! The Tensor stats API: what it reads from the server's player files, the
//! rows it writes, the block-wise change detection of the stats folder, and
//! the answers of its endpoints.
use vstd::prelude::*;
use std::io::Read;
use crate::api::{failure, ok, ApiResponse};
use crate::hashing::{blake3_hex, hash_contents};
use crate::numtext::{digits_of, parse_i32, parse_i32_spec, push_u64};
use crate::text::{chars_equal, chars_of, push_str, str_equal, string_from_chars, sub_chars};

verus! {

// ---------------------------------------------------------------------------
// Player data files
// ---------------------------------------------------------------------------

/// The `bukkit` compound of a player data file.
pub struct BukkitData {
    pub first_played: Option<i64>,
    pub last_played: Option<i64>,
    pub last_known_name: Option<String>,
}

/// The `Paper` compound of a player data file.
pub struct PaperData {
    pub last_seen: Option<i64>,
    pub last_login: Option<i64>,
}

/// The fields of a player data file that the API reads.
pub struct PlayerDat {
    pub last_known_name: Option<String>,
    pub bukkit_data: Option<BukkitData>,
    pub paper_data: Option<PaperData>,
    pub first_played: Option<i64>,
    pub last_played: Option<i64>,
}

pub open spec fn opt_text(o: Option<String>) -> Option<Seq<char>> {
    match o {
        Some(s) => Some(s@),
        None => None,
    }
}

/// The name a data file gives: the top-level name, else the bukkit one.
pub open spec fn dat_name(p: PlayerDat) -> Option<Seq<char>> {
    match p.last_known_name {
        Some(n) => Some(n@),
        None => match p.bukkit_data {
            Some(b) => opt_text(b.last_known_name),
            None => None,
        },
    }
}

pub open spec fn dat_first_played(p: PlayerDat) -> i64 {
    match p.first_played {
        Some(v) => v,
        None => match p.bukkit_data {
            Some(b) => match b.first_played {
                Some(v) => v,
                None => 0,
            },
            None => 0,
        },
    }
}

pub open spec fn dat_last_played(p: PlayerDat) -> i64 {
    match p.last_played {
        Some(v) => v,
        None => match p.bukkit_data {
            Some(b) => match b.last_played {
                Some(v) => v,
                None => 0,
            },
            None => 0,
        },
    }
}

pub open spec fn dat_last_seen(p: PlayerDat) -> i64 {
    match p.paper_data {
        Some(paper) => match paper.last_seen {
            Some(v) => v,
            None => dat_last_played(p),
        },
        None => dat_last_played(p),
    }
}

/// A player data file names the player by its top-level name, else by the
/// name in its `bukkit` compound; its first and last played times come from
/// the top level, else from `bukkit`, else 0; last seen is Paper's, else the
/// last played time.
pub proof fn player_dat_fallbacks(p: PlayerDat)
    ensures
        p.last_known_name matches Some(n) ==> dat_name(p) == Some(n@),
        p.last_known_name is None && (p.bukkit_data matches Some(b) && b.last_known_name matches Some(
            n,
        )) ==> dat_name(p) == Some(p.bukkit_data->0.last_known_name->0@),
        p.last_known_name is None && !(p.bukkit_data matches Some(b) && b.last_known_name is Some)
            ==> dat_name(p) is None,
        p.first_played matches Some(v) ==> dat_first_played(p) == v,
        p.first_played is None && p.bukkit_data is None ==> dat_first_played(p) == 0,
        p.last_played matches Some(v) ==> dat_last_played(p) == v,
        p.last_played is None && p.bukkit_data is None ==> dat_last_played(p) == 0,
        (p.paper_data matches Some(pd) && pd.last_seen matches Some(v)) ==> dat_last_seen(p)
            == p.paper_data->0.last_seen->0,
        !(p.paper_data matches Some(pd) && pd.last_seen is Some) ==> dat_last_seen(p)
            == dat_last_played(p),
{
}

fn clone_opt_string(o: &Option<String>) -> (r: Option<String>)
    ensures
        opt_text(r) == opt_text(*o),
{
    match o {
        Some(s) => Some(s.clone()),
        None => None,
    }
}

/// Name, first played, last played and last seen from a player data file;
/// the name falls back to `uuid`, the times to 0, last seen to last played.
pub fn player_dat_info(p: &PlayerDat, uuid: &str) -> (r: (String, i64, i64, i64))
    ensures
        r.0@ == match dat_name(*p) {
            Some(n) => n,
            None => uuid@,
        },
        r.1 == dat_first_played(*p),
        r.2 == dat_last_played(*p),
        r.3 == dat_last_seen(*p),
{
    let name_opt: Option<String> = match &p.last_known_name {
        Some(n) => Some(n.clone()),
        None => match &p.bukkit_data {
            Some(b) => clone_opt_string(&b.last_known_name),
            None => None,
        },
    };
    let name = match name_opt {
        Some(n) => n,
        None => uuid.to_string(),
    };
    let first = match p.first_played {
        Some(v) => v,
        None => match &p.bukkit_data {
            Some(b) => match b.first_played {
                Some(v) => v,
                None => 0,
            },
            None => 0,
        },
    };
    let last = match p.last_played {
        Some(v) => v,
        None => match &p.bukkit_data {
            Some(b) => match b.last_played {
                Some(v) => v,
                None => 0,
            },
            None => 0,
        },
    };
    let last_seen = match &p.paper_data {
        Some(paper) => match paper.last_seen {
            Some(v) => v,
            None => last,
        },
        None => last,
    };
    (name, first, last, last_seen)
}

/// What a gzip decoder yields for `data`: the decompressed bytes, or `None`
/// when they are not a valid gzip stream.
pub uninterp spec fn gunzipped(data: Seq<u8>) -> Option<Seq<u8>>;

/// `flate2::read::GzDecoder` read to the end. The result is named, not
/// restated: the contract says only that it is the decoder's output for
/// `data`, and that a decoding error gives `None`.
#[verifier::external_body]
fn gunzip(data: &[u8]) -> (r: Option<Vec<u8>>)
    ensures
        match r {
            Some(v) => gunzipped(data@) == Some(v@),
            None => gunzipped(data@) is None,
        },
{
    let mut out = Vec::new();
    match flate2::read::GzDecoder::new(data).read_to_end(&mut out) {
        Ok(_) => Some(out),
        Err(_) => None,
    }
}

/// The NBT payload of a gzip-compressed player data file.
pub fn decompress_player_dat(compressed: &[u8]) -> (r: Option<Vec<u8>>)
    ensures
        match r {
            Some(v) => gunzipped(compressed@) == Some(v@),
            None => gunzipped(compressed@) is None,
        },
{
    gunzip(compressed)
}

/// Name and times of a player: the server's user cache names the player
/// first, then the data file, then the UUID itself; without a data file the
/// times are 0.
pub fn resolve_player_info(
    uuid: &str,
    name_from_cache: Option<String>,
    dat: Option<(String, i64, i64, i64)>,
) -> (r: (String, i64, i64, i64))
    ensures
        match dat {
            Some(d) => {
                &&& r.0@ == match name_from_cache {
                    Some(n) => n@,
                    None => d.0@,
                }
                &&& r.1 == d.1 && r.2 == d.2 && r.3 == d.3
            },
            None => {
                &&& r.0@ == match name_from_cache {
                    Some(n) => n@,
                    None => uuid@,
                }
                &&& r.1 == 0 && r.2 == 0 && r.3 == 0
            },
        },
{
    match dat {
        Some((name, first, last, last_seen)) => {
            let final_name = match name_from_cache {
                Some(n) => n,
                None => name,
            };
            (final_name, first, last, last_seen)
        },
        None => {
            let name = match name_from_cache {
                Some(n) => n,
                None => uuid.to_string(),
            };
            (name, 0, 0, 0)
        },
    }
}

// ---------------------------------------------------------------------------
// The user cache
// ---------------------------------------------------------------------------

/// One entry of the server's `usercache.json`.
pub struct UserCacheEntry {
    pub uuid: String,
    pub name: String,
}

/// The name of the first cache entry for `uuid`.
pub fn name_for_uuid(entries: &Vec<UserCacheEntry>, uuid: &str) -> (r: Option<String>)
    ensures
        match r {
            Some(n) => exists|i: int|
                0 <= i < entries@.len() && entries@[i].uuid@ == uuid@ && n@ == entries@[i].name@
                    && forall|j: int| 0 <= j < i ==> entries@[j].uuid@ != uuid@,
            None => forall|i: int| 0 <= i < entries@.len() ==> entries@[i].uuid@ != uuid@,
        },
{
    let target = chars_of(uuid);
    let mut i: usize = 0;
    while i < entries.len()
        invariant
            i <= entries.len(),
            target@ == uuid@,
            forall|j: int| 0 <= j < i ==> entries@[j].uuid@ != uuid@,
        decreases entries.len() - i,
    {
        let u = chars_of(entries[i].uuid.as_str());
        if chars_equal(&u, &target) {
            return Some(entries[i].name.clone());
        }
        i = i + 1;
    }
    None
}

/// What `str::to_lowercase` yields for `s`: the full Unicode lowercase mapping.
pub uninterp spec fn unicode_lowercase(s: Seq<char>) -> Seq<char>;

/// std `str::to_lowercase`. The contract names the result, the lowercase
/// mapping std computes for `s`; the Unicode tables are not restated.
#[verifier::external_body]
fn lowercase(s: &str) -> (r: String)
    ensures
        r@ == unicode_lowercase(s@),
{
    s.to_lowercase()
}

/// The UUID of the first cache entry whose name matches `name` ignoring case.
pub fn uuid_for_name(entries: &Vec<UserCacheEntry>, name: &str) -> (r: Option<String>)
    ensures
        match r {
            Some(u) => exists|i: int|
                0 <= i < entries@.len() && unicode_lowercase(entries@[i].name@)
                    == unicode_lowercase(name@) && u@ == entries@[i].uuid@ && forall|j: int|
                    0 <= j < i ==> unicode_lowercase(entries@[j].name@) != unicode_lowercase(
                        name@,
                    ),
            None => forall|i: int|
                0 <= i < entries@.len() ==> unicode_lowercase(entries@[i].name@)
                    != unicode_lowercase(name@),
        },
{
    let wanted_s = lowercase(name);
    let wanted = chars_of(wanted_s.as_str());
    let mut i: usize = 0;
    while i < entries.len()
        invariant
            i <= entries.len(),
            wanted@ == unicode_lowercase(name@),
            forall|j: int|
                0 <= j < i ==> unicode_lowercase(entries@[j].name@) != unicode_lowercase(name@),
        decreases entries.len() - i,
    {
        let l = lowercase(entries[i].name.as_str());
        let lc = chars_of(l.as_str());
        if chars_equal(&lc, &wanted) {
            return Some(entries[i].uuid.clone());
        }
        i = i + 1;
    }
    None
}

/// The key a player search is cached and matched under: the name lowercased.
pub fn player_lookup_key(name: &str) -> (r: String)
    ensures
        r@ == unicode_lowercase(name@),
{
    lowercase(name)
}

// ---------------------------------------------------------------------------
// Statistics files
// ---------------------------------------------------------------------------

/// One counter of a statistics category, such as `minecraft:deaths`.
pub struct StatEntry {
    pub key: String,
    pub value: i32,
}

/// The categories of a player's statistics file that the API reads.
pub struct StatsData {
    pub custom: Vec<StatEntry>,
    pub mined: Vec<StatEntry>,
    pub used: Vec<StatEntry>,
    pub dropped: Vec<StatEntry>,
    pub picked_up: Vec<StatEntry>,
}

/// The value counted under `key`, 0 when there is none.
pub open spec fn stat_lookup(entries: Seq<StatEntry>, key: Seq<char>) -> int
    decreases entries.len(),
{
    if entries.len() == 0 {
        0
    } else if entries[0].key@ == key {
        entries[0].value as int
    } else {
        stat_lookup(entries.drop_first(), key)
    }
}

/// No two counters of a category share a key, as in the JSON object a
/// category is read from.
pub open spec fn unique_keys(entries: Seq<StatEntry>) -> bool {
    forall|i: int, j: int|
        0 <= i < j < entries.len() ==> #[trigger] entries[i].key@ != #[trigger] entries[j].key@
}

/// Every category of the statistics has unique keys.
pub open spec fn stats_keys_unique(s: StatsData) -> bool {
    &&& unique_keys(s.custom@)
    &&& unique_keys(s.mined@)
    &&& unique_keys(s.used@)
    &&& unique_keys(s.dropped@)
    &&& unique_keys(s.picked_up@)
}

fn keys_unique(entries: &Vec<StatEntry>) -> (r: bool)
    ensures
        r == unique_keys(entries@),
{
    let mut j: usize = 0;
    while j < entries.len()
        invariant
            j <= entries.len(),
            forall|a: int, b: int|
                0 <= a < b < j ==> #[trigger] entries@[a].key@ != #[trigger] entries@[b].key@,
        decreases entries.len() - j,
    {
        let kj = chars_of(entries[j].key.as_str());
        let mut i: usize = 0;
        while i < j
            invariant
                i <= j < entries.len(),
                kj@ == entries@[j as int].key@,
                forall|a: int| 0 <= a < i ==> #[trigger] entries@[a].key@ != entries@[j as int].key@,
            decreases j - i,
        {
            let ki = chars_of(entries[i].key.as_str());
            if chars_equal(&ki, &kj) {
                assert(entries@[i as int].key@ == entries@[j as int].key@);
                return false;
            }
            i = i + 1;
        }
        j = j + 1;
    }
    true
}

/// Whether every category of the statistics has unique keys.
pub fn stats_keys_distinct(s: &StatsData) -> (r: bool)
    ensures
        r == stats_keys_unique(*s),
{
    keys_unique(&s.custom) && keys_unique(&s.mined) && keys_unique(&s.used) && keys_unique(
        &s.dropped,
    ) && keys_unique(&s.picked_up)
}

/// In a category with unique keys, the value counted under a key is the value
/// of the one entry with that key.
pub proof fn stat_lookup_finds_the_entry(entries: Seq<StatEntry>, i: int)
    requires
        unique_keys(entries),
        0 <= i < entries.len(),
    ensures
        stat_lookup(entries, entries[i].key@) == entries[i].value,
    decreases i,
{
    if i > 0 {
        let rest = entries.drop_first();
        assert(entries[0].key@ != entries[i].key@);
        assert(rest[i - 1] == entries[i]);
        assert(unique_keys(rest)) by {
            assert forall|a: int, b: int| 0 <= a < b < rest.len() implies #[trigger] rest[a].key@
                != #[trigger] rest[b].key@ by {
                assert(rest[a] == entries[a + 1] && rest[b] == entries[b + 1]);
            }
        }
        stat_lookup_finds_the_entry(rest, i - 1);
    }
}

/// The sum of all counters of a category.
pub open spec fn stat_sum(entries: Seq<StatEntry>) -> int
    decreases entries.len(),
{
    if entries.len() == 0 {
        0
    } else {
        stat_sum(entries.drop_last()) + entries.last().value as int
    }
}

pub open spec fn fits_i32(v: int) -> bool {
    i32::MIN <= v <= i32::MAX
}

/// The distance counters, summed in the order the API adds them.
pub open spec fn walk_and_sprint(s: StatsData) -> int {
    stat_lookup(s.custom@, "minecraft:walk_one_cm"@) + stat_lookup(
        s.custom@,
        "minecraft:sprint_one_cm"@,
    )
}

pub open spec fn distance_sum(s: StatsData) -> int {
    walk_and_sprint(s) + stat_lookup(s.custom@, "minecraft:fly_one_cm"@)
}

/// The sums the API computes all fit in an `i32`, so none of its additions
/// overflows.
pub open spec fn stats_sums_fit(s: StatsData) -> bool {
    &&& fits_i32(walk_and_sprint(s))
    &&& fits_i32(distance_sum(s))
    &&& fits_i32(stat_sum(s.dropped@))
    &&& fits_i32(stat_sum(s.mined@))
}

/// The distance a player travelled is the sum of the centimetres walked,
/// sprinted and flown; a counter the file lacks counts 0.
pub proof fn distance_is_walk_sprint_fly(s: StatsData, key: Seq<char>)
    ensures
        distance_sum(s) == stat_lookup(s.custom@, "minecraft:walk_one_cm"@) + stat_lookup(
            s.custom@,
            "minecraft:sprint_one_cm"@,
        ) + stat_lookup(s.custom@, "minecraft:fly_one_cm"@),
        (forall|i: int| 0 <= i < s.custom@.len() ==> s.custom@[i].key@ != key) ==> stat_lookup(
            s.custom@,
            key,
        ) == 0,
{
    lemma_missing_key_counts_zero(s.custom@, key);
}

proof fn lemma_missing_key_counts_zero(entries: Seq<StatEntry>, key: Seq<char>)
    ensures
        (forall|i: int| 0 <= i < entries.len() ==> entries[i].key@ != key) ==> stat_lookup(
            entries,
            key,
        ) == 0,
    decreases entries.len(),
{
    if entries.len() > 0 && (forall|i: int| 0 <= i < entries.len() ==> entries[i].key@ != key) {
        assert(entries[0].key@ != key);
        assert forall|i: int| 0 <= i < entries.drop_first().len() implies entries.drop_first()[i].key@
            != key by {
            assert(entries.drop_first()[i] == entries[i + 1]);
        }
        lemma_missing_key_counts_zero(entries.drop_first(), key);
    }
}

/// The statistics the API keeps for a player.
pub struct PlayerStatsJson {
    pub time_played: i32,
    pub deaths: i32,
    pub kills: i32,
    pub mobs_killed: i32,
    pub distance_travelled: i32,
    pub tnt_used: i32,
    pub arrows_shot: i32,
    pub items_dropped: i32,
    pub elytra_used: i32,
    pub blocks_broken: i32,
    pub obsidian_mined: i32,
    pub obsidian_placed: i32,
    pub netherite_mined: i32,
}

/// The value counted under `key`, 0 when there is none.
pub fn stat_value(entries: &Vec<StatEntry>, key: &str) -> (r: i32)
    ensures
        r as int == stat_lookup(entries@, key@),
{
    let target = chars_of(key);
    let mut i: usize = 0;
    assert(entries@.subrange(0, entries@.len() as int) =~= entries@);
    while i < entries.len()
        invariant
            i <= entries.len(),
            target@ == key@,
            stat_lookup(entries@, key@) == stat_lookup(
                entries@.subrange(i as int, entries@.len() as int),
                key@,
            ),
        decreases entries.len() - i,
    {
        let ghost rest = entries@.subrange(i as int, entries@.len() as int);
        assert(rest.drop_first() =~= entries@.subrange(i + 1, entries@.len() as int));
        let k = chars_of(entries[i].key.as_str());
        if chars_equal(&k, &target) {
            return entries[i].value;
        }
        i = i + 1;
    }
    0
}

/// The sum of all counters of a category, exactly.
fn stat_total(entries: &Vec<StatEntry>) -> (r: i128)
    ensures
        r as int == stat_sum(entries@),
{
    let mut total: i128 = 0;
    let mut i: usize = 0;
    while i < entries.len()
        invariant
            i <= entries.len(),
            total as int == stat_sum(entries@.take(i as int)),
            -(i as int) * 0x80000000 <= total <= (i as int) * 0x80000000,
        decreases entries.len() - i,
    {
        proof {
            assert(entries@.take(i + 1).drop_last() =~= entries@.take(i as int));
            assert((i as int) * 0x80000000 <= 0xFFFFFFFFFFFFFFFF * 0x80000000) by (nonlinear_arith)
                requires
                    i < 0x10000000000000000,
            ;
        }
        total = total + entries[i].value as i128;
        i = i + 1;
    }
    assert(entries@.take(entries.len() as int) =~= entries@);
    total
}

fn in_i32(v: i128) -> (r: bool)
    ensures
        r == fits_i32(v as int),
{
    -2147483648 <= v && v <= 2147483647
}

/// Whether every sum the API computes for these statistics fits an `i32`.
pub fn stats_fit(s: &StatsData) -> (r: bool)
    ensures
        r == stats_sums_fit(*s),
{
    let walk = stat_value(&s.custom, "minecraft:walk_one_cm") as i128;
    let sprint = stat_value(&s.custom, "minecraft:sprint_one_cm") as i128;
    let fly = stat_value(&s.custom, "minecraft:fly_one_cm") as i128;
    in_i32(walk + sprint) && in_i32(walk + sprint + fly) && in_i32(stat_total(&s.dropped))
        && in_i32(stat_total(&s.mined))
}

/// The statistics kept for a player, read from the categories of the file.
pub fn read_player_stats(s: &StatsData) -> (r: PlayerStatsJson)
    requires
        stats_keys_unique(*s),
        stats_sums_fit(*s),
    ensures
        r.time_played == stat_lookup(s.custom@, "minecraft:play_time"@),
        r.deaths == stat_lookup(s.custom@, "minecraft:deaths"@),
        r.kills == stat_lookup(s.custom@, "minecraft:player_kills"@),
        r.mobs_killed == stat_lookup(s.custom@, "minecraft:mob_kills"@),
        r.distance_travelled == distance_sum(*s),
        r.tnt_used == stat_lookup(s.used@, "minecraft:tnt"@),
        r.arrows_shot == stat_lookup(s.used@, "minecraft:bow"@),
        r.items_dropped == stat_sum(s.dropped@),
        r.elytra_used == stat_lookup(s.used@, "minecraft:elytra"@),
        r.blocks_broken == stat_sum(s.mined@),
        r.obsidian_mined == stat_lookup(s.mined@, "minecraft:obsidian"@),
        r.obsidian_placed == stat_lookup(s.used@, "minecraft:obsidian"@),
        r.netherite_mined == stat_lookup(s.mined@, "minecraft:netherite_block"@),
{
    let walk = stat_value(&s.custom, "minecraft:walk_one_cm");
    let sprint = stat_value(&s.custom, "minecraft:sprint_one_cm");
    let fly = stat_value(&s.custom, "minecraft:fly_one_cm");
    let dropped = stat_total(&s.dropped);
    let mined = stat_total(&s.mined);
    PlayerStatsJson {
        time_played: stat_value(&s.custom, "minecraft:play_time"),
        deaths: stat_value(&s.custom, "minecraft:deaths"),
        kills: stat_value(&s.custom, "minecraft:player_kills"),
        mobs_killed: stat_value(&s.custom, "minecraft:mob_kills"),
        distance_travelled: walk + sprint + fly,
        tnt_used: stat_value(&s.used, "minecraft:tnt"),
        arrows_shot: stat_value(&s.used, "minecraft:bow"),
        items_dropped: dropped as i32,
        elytra_used: stat_value(&s.used, "minecraft:elytra"),
        blocks_broken: mined as i32,
        obsidian_mined: stat_value(&s.mined, "minecraft:obsidian"),
        obsidian_placed: stat_value(&s.used, "minecraft:obsidian"),
        netherite_mined: stat_value(&s.mined, "minecraft:netherite_block"),
    }
}

// ---------------------------------------------------------------------------
// Rows written to the database
// ---------------------------------------------------------------------------

/// The values of one `player_stats` upsert. `last_seen` is `None` where the
/// statement leaves that column alone.
pub struct StatsRow {
    pub uuid: String,
    pub name: String,
    pub join_date: i64,
    pub last_seen: Option<i64>,
    pub deaths: i32,
    pub kills: i32,
    pub mobs_killed: i32,
    pub blocks_broken: i32,
    pub blocks_placed: i32,
    pub time_played: i32,
    pub tnt_used: i32,
    pub arrows_shot: i32,
    pub items_dropped: i32,
    pub distance_travelled: i32,
    pub obsidian_mined: i32,
    pub obsidian_placed: i32,
    pub netherite_mined: i32,
    pub elytra_used: i32,
    pub totems_used: i32,
}

/// The row the file sync writes for a player: statistics from the stats file,
/// name and dates from `resolve_player_info`; blocks placed and totems used
/// are not in the files and are written as 0.
pub fn row_from_files(uuid: &str, info: (String, i64, i64, i64), stats: &PlayerStatsJson) -> (r:
    StatsRow)
    ensures
        r.uuid@ == uuid@,
        r.name == info.0,
        r.join_date == info.1,
        r.last_seen == Some(info.3),
        r.deaths == stats.deaths,
        r.kills == stats.kills,
        r.mobs_killed == stats.mobs_killed,
        r.blocks_broken == stats.blocks_broken,
        r.blocks_placed == 0,
        r.time_played == stats.time_played,
        r.tnt_used == stats.tnt_used,
        r.arrows_shot == stats.arrows_shot,
        r.items_dropped == stats.items_dropped,
        r.distance_travelled == stats.distance_travelled,
        r.obsidian_mined == stats.obsidian_mined,
        r.obsidian_placed == stats.obsidian_placed,
        r.netherite_mined == stats.netherite_mined,
        r.elytra_used == stats.elytra_used,
        r.totems_used == 0,
{
    StatsRow {
        uuid: uuid.to_string(),
        name: info.0,
        join_date: info.1,
        last_seen: Some(info.3),
        deaths: stats.deaths,
        kills: stats.kills,
        mobs_killed: stats.mobs_killed,
        blocks_broken: stats.blocks_broken,
        blocks_placed: 0,
        time_played: stats.time_played,
        tnt_used: stats.tnt_used,
        arrows_shot: stats.arrows_shot,
        items_dropped: stats.items_dropped,
        distance_travelled: stats.distance_travelled,
        obsidian_mined: stats.obsidian_mined,
        obsidian_placed: stats.obsidian_placed,
        netherite_mined: stats.netherite_mined,
        elytra_used: stats.elytra_used,
        totems_used: 0,
    }
}

/// Statistics a game server reports for one player.
pub struct PlayerStats {
    pub uuid: String,
    pub name: String,
    pub join_date: i64,
    pub deaths: Option<i32>,
    pub kills: Option<i32>,
    pub mobs_killed: Option<i32>,
    pub blocks_broken: Option<i32>,
    pub blocks_placed: Option<i32>,
    pub time_played: Option<i32>,
    pub tnt_used: Option<i32>,
    pub arrows_shot: Option<i32>,
    pub items_dropped: Option<i32>,
    pub distance_travelled: Option<i32>,
    pub obsidian_mined: Option<i32>,
    pub obsidian_placed: Option<i32>,
    pub netherite_mined: Option<i32>,
    pub elytra_used: Option<i32>,
    pub totems_used: Option<i32>,
}

pub open spec fn or_zero(v: Option<i32>) -> i32 {
    match v {
        Some(x) => x,
        None => 0,
    }
}

fn value_or_zero(v: Option<i32>) -> (r: i32)
    ensures
        r == or_zero(v),
{
    match v {
        Some(x) => x,
        None => 0,
    }
}

/// The row written for reported statistics: missing counters are 0 and
/// `last_seen` is not written.
pub fn row_from_report(p: &PlayerStats) -> (r: StatsRow)
    ensures
        r.uuid == p.uuid,
        r.name == p.name,
        r.join_date == p.join_date,
        r.last_seen is None,
        r.deaths == or_zero(p.deaths),
        r.kills == or_zero(p.kills),
        r.mobs_killed == or_zero(p.mobs_killed),
        r.blocks_broken == or_zero(p.blocks_broken),
        r.blocks_placed == or_zero(p.blocks_placed),
        r.time_played == or_zero(p.time_played),
        r.tnt_used == or_zero(p.tnt_used),
        r.arrows_shot == or_zero(p.arrows_shot),
        r.items_dropped == or_zero(p.items_dropped),
        r.distance_travelled == or_zero(p.distance_travelled),
        r.obsidian_mined == or_zero(p.obsidian_mined),
        r.obsidian_placed == or_zero(p.obsidian_placed),
        r.netherite_mined == or_zero(p.netherite_mined),
        r.elytra_used == or_zero(p.elytra_used),
        r.totems_used == or_zero(p.totems_used),
{
    StatsRow {
        uuid: p.uuid.clone(),
        name: p.name.clone(),
        join_date: p.join_date,
        last_seen: None,
        deaths: value_or_zero(p.deaths),
        kills: value_or_zero(p.kills),
        mobs_killed: value_or_zero(p.mobs_killed),
        blocks_broken: value_or_zero(p.blocks_broken),
        blocks_placed: value_or_zero(p.blocks_placed),
        time_played: value_or_zero(p.time_played),
        tnt_used: value_or_zero(p.tnt_used),
        arrows_shot: value_or_zero(p.arrows_shot),
        items_dropped: value_or_zero(p.items_dropped),
        distance_travelled: value_or_zero(p.distance_travelled),
        obsidian_mined: value_or_zero(p.obsidian_mined),
        obsidian_placed: value_or_zero(p.obsidian_placed),
        netherite_mined: value_or_zero(p.netherite_mined),
        elytra_used: value_or_zero(p.elytra_used),
        totems_used: value_or_zero(p.totems_used),
    }
}

// ---------------------------------------------------------------------------
// Change detection for the stats folder
// ---------------------------------------------------------------------------

/// A player's file needs syncing unless its digest equals the one recorded
/// after the last successful sync.
pub fn needs_sync(file_hash: &String, last_hash: Option<&String>) -> (r: bool)
    ensures
        r == match last_hash {
            Some(h) => h@ != file_hash@,
            None => true,
        },
{
    match last_hash {
        Some(h) => {
            let a = chars_of(h.as_str());
            let b = chars_of(file_hash.as_str());
            !chars_equal(&a, &b)
        },
        None => true,
    }
}

/// A player's sync under way: the stats file changed since the last sync.
pub struct PlayerSync {
    pub uuid: String,
    /// The digest of the stats file as read.
    pub digest: String,
}

/// The sync of a player begins from the stats file's bytes (`None` when it
/// cannot be read) and the digest recorded after the player's last sync: it
/// goes on only for a readable file whose digest differs from that one.
pub fn begin_player_sync(uuid: &str, contents: Option<Vec<u8>>, last_hash: Option<&String>) -> (r:
    Option<PlayerSync>)
    ensures
        match contents {
            None => r is None,
            Some(c) => match r {
                Some(p) => p.uuid@ == uuid@ && p.digest@ == blake3_hex(c@) && !(last_hash matches Some(
                    h,
                ) && h@ == blake3_hex(c@)),
                None => last_hash matches Some(h) && h@ == blake3_hex(c@),
            },
        },
{
    match contents {
        None => None,
        Some(c) => {
            let digest = hash_contents(c.as_slice());
            if needs_sync(&digest, last_hash) {
                Some(PlayerSync { uuid: uuid.to_string(), digest })
            } else {
                None
            }
        },
    }
}

impl PlayerSync {
    /// The end of the sync once the player's row was written or not: a
    /// written row records the file's digest for the player (`Some` of the
    /// player and digest) and counts as synced; a failed write records
    /// nothing.
    pub fn finish(self, written: bool) -> (r: Option<(String, String)>)
        ensures
            written ==> (r matches Some((u, d)) && u == self.uuid && d == self.digest),
            !written ==> r is None,
    {
        if written {
            Some((self.uuid, self.digest))
        } else {
            None
        }
    }
}

/// The position of the last `.` in `s`, or -1.
pub open spec fn last_dot(s: Seq<char>) -> int
    decreases s.len(),
{
    if s.len() == 0 {
        -1
    } else if s.last() == '.' {
        s.len() - 1
    } else {
        last_dot(s.drop_last())
    }
}

/// The player UUID a file in the stats folder belongs to: the file stem of a
/// name whose extension is `json` (a leading dot starts no extension).
pub open spec fn stats_file_stem(name: Seq<char>) -> Option<Seq<char>> {
    let d = last_dot(name);
    if d > 0 && name.subrange(d + 1, name.len() as int) == "json"@ {
        Some(name.subrange(0, d))
    } else {
        None
    }
}

/// `Path::extension` and `Path::file_stem` for a file name: the UUID of a
/// `<uuid>.json` stats file.
pub fn stats_file_uuid(file_name: &str) -> (r: Option<String>)
    ensures
        match r {
            Some(u) => stats_file_stem(file_name@) == Some(u@),
            None => stats_file_stem(file_name@) is None,
        },
{
    let v = chars_of(file_name);
    let mut j: usize = v.len();
    assert(v@.subrange(0, j as int) =~= v@);
    while j > 0 && v[j - 1] != '.'
        invariant
            j <= v.len(),
            last_dot(v@) == last_dot(v@.subrange(0, j as int)),
        decreases j,
    {
        assert(v@.subrange(0, j as int).drop_last() =~= v@.subrange(0, j - 1));
        j = j - 1;
    }
    if j <= 1 {
        return None;
    }
    let dot = j - 1;
    let ext = sub_chars(&v, dot + 1, v.len());
    let json = chars_of("json");
    if chars_equal(&ext, &json) {
        let stem = sub_chars(&v, 0, dot);
        Some(string_from_chars(&stem))
    } else {
        None
    }
}

/// A stats file named after a player's UUID (any non-empty name) and `.json`
/// is read back as that player's file.
pub proof fn stats_file_name_round_trip(uuid: Seq<char>)
    requires
        uuid.len() > 0,
    ensures
        stats_file_stem(uuid + ".json"@) == Some(uuid),
{
    reveal_strlit(".json");
    reveal_strlit("json");
    let n = uuid + ".json"@;
    let k = uuid.len() as int;
    assert(n.drop_last() =~= uuid + ".jso"@) by {
        reveal_strlit(".jso");
    }
    assert(n.drop_last().drop_last() =~= uuid + ".js"@) by {
        reveal_strlit(".jso");
        reveal_strlit(".js");
    }
    assert(n.drop_last().drop_last().drop_last() =~= uuid + ".j"@) by {
        reveal_strlit(".js");
        reveal_strlit(".j");
    }
    assert(n.drop_last().drop_last().drop_last().drop_last() =~= uuid.push('.')) by {
        reveal_strlit(".j");
    }
    let d1 = n.drop_last();
    let d2 = d1.drop_last();
    let d3 = d2.drop_last();
    let d4 = d3.drop_last();
    assert(last_dot(d4) == k);
    assert(d3.last() == 'j' && last_dot(d3) == last_dot(d4));
    assert(d2.last() == 's' && last_dot(d2) == last_dot(d3));
    assert(d1.last() == 'o' && last_dot(d1) == last_dot(d2));
    assert(n.last() == 'n' && last_dot(n) == last_dot(d1));
    assert(n.subrange(k + 1, n.len() as int) =~= "json"@);
    assert(n.subrange(0, k) =~= uuid);
}

/// How many files a change-detection block covers.
pub const BLOCK_SIZE: usize = 400;

/// The number of blocks `players` files make: the last one may be partial.
pub fn total_blocks(players: usize) -> (r: usize)
    requires
        players + 400 <= usize::MAX,
    ensures
        r == (players + 399) / 400,
{
    (players + BLOCK_SIZE - 1) / BLOCK_SIZE
}

/// The positions `[start, end)` of the files in block `block_idx`.
pub fn block_bounds(block_idx: usize, players: usize) -> (r: (usize, usize))
    requires
        block_idx < (players + 399) / 400,
    ensures
        r.0 == block_idx * 400,
        r.1 == if block_idx * 400 + 400 <= players {
            block_idx * 400 + 400
        } else {
            players as int
        },
        r.0 < r.1 <= players,
{
    assert(block_idx * 400 < players) by (nonlinear_arith)
        requires
            block_idx < (players + 399) / 400,
    ;
    let start = block_idx * BLOCK_SIZE;
    let end = if players - start >= BLOCK_SIZE {
        start + BLOCK_SIZE
    } else {
        players
    };
    (start, end)
}

/// Every file position lies in exactly one block, and that block exists.
pub proof fn blocks_partition_files(players: nat, i: nat)
    requires
        i < players,
    ensures
        i / 400 < (players + 399) / 400,
        (i / 400) * 400 <= i < (i / 400) * 400 + 400,
        forall|b: nat| #![trigger b * 400] b * 400 <= i < b * 400 + 400 ==> b == i / 400,
{
    assert(i / 400 < (players + 399) / 400) by (nonlinear_arith)
        requires
            i < players,
    ;
    assert((i / 400) * 400 <= i < (i / 400) * 400 + 400) by (nonlinear_arith);
    assert forall|b: nat| #![trigger b * 400] b * 400 <= i < b * 400 + 400 implies b == i / 400 by {
        assert(b == i / 400) by (nonlinear_arith)
            requires
                b * 400 <= i < b * 400 + 400,
        ;
    }
}

/// The digests of the blocks as last synced, by block number.
pub struct BlockHashes {
    hashes: std::collections::HashMap<u32, String>,
}

impl View for BlockHashes {
    type V = Map<u32, Seq<char>>;

    closed spec fn view(&self) -> Map<u32, Seq<char>> {
        Map::new(|k: u32| self.hashes@.contains_key(k), |k: u32| self.hashes@[k]@)
    }
}

impl BlockHashes {
    /// No block synced yet.
    pub fn new() -> (r: BlockHashes)
        ensures
            r@ == Map::<u32, Seq<char>>::empty(),
    {
        let r = BlockHashes { hashes: std::collections::HashMap::new() };
        assert(r@ =~= Map::<u32, Seq<char>>::empty());
        r
    }

    /// Whether block `key` was last synced with contents of digest `hash`.
    pub fn unchanged(&self, key: u32, hash: &String) -> (r: bool)
        ensures
            r == (self@.contains_key(key) && self@[key] == hash@),
    {
        broadcast use vstd::std_specs::hash::group_hash_axioms;

        match self.hashes.get(&key) {
            Some(last) => {
                let a = chars_of(last.as_str());
                let b = chars_of(hash.as_str());
                chars_equal(&a, &b)
            },
            None => false,
        }
    }

    /// Records that block `key` was synced with contents of digest `hash`.
    pub fn record(&mut self, key: u32, hash: String)
        ensures
            final(self)@ == old(self)@.insert(key, hash@),
    {
        broadcast use vstd::std_specs::hash::group_hash_axioms;

        self.hashes.insert(key, hash);
        assert(self@ =~= old(self)@.insert(key, hash@));
    }
}

/// A block recorded with a digest reads back as unchanged for that digest,
/// and recording one block leaves every other block's digest as it was.
pub proof fn recorded_block_reads_back(before: Map<u32, Seq<char>>, key: u32, hash: Seq<char>, other: u32)
    requires
        other != key,
    ensures
        before.insert(key, hash).contains_key(key),
        before.insert(key, hash)[key] == hash,
        before.insert(key, hash).contains_key(other) == before.contains_key(other),
        before.contains_key(other) ==> before.insert(key, hash)[other] == before[other],
{
}

// ---------------------------------------------------------------------------
// A block-wise sync pass
// ---------------------------------------------------------------------------

/// Block `i` has digest `d` other than the one recorded in `h`.
pub open spec fn block_changed(h: Map<u32, Seq<char>>, i: int, d: Seq<char>) -> bool {
    !(h.contains_key(i as u32) && h[i as u32] == d)
}

/// The recorded digests after a pass that saw the digests `digests`, block by
/// block, starting from `h`: each changed block gets its new digest.
pub open spec fn pass_hashes(h: Map<u32, Seq<char>>, digests: Seq<Seq<char>>) -> Map<
    u32,
    Seq<char>,
>
    decreases digests.len(),
{
    if digests.len() == 0 {
        h
    } else {
        let prev = pass_hashes(h, digests.drop_last());
        let i = digests.len() - 1;
        if block_changed(prev, i, digests.last()) {
            prev.insert(i as u32, digests.last())
        } else {
            prev
        }
    }
}

/// How many blocks a pass that saw `digests`, starting from `h`, updates.
pub open spec fn pass_updates(h: Map<u32, Seq<char>>, digests: Seq<Seq<char>>) -> nat
    decreases digests.len(),
{
    if digests.len() == 0 {
        0
    } else {
        let prev = pass_hashes(h, digests.drop_last());
        pass_updates(h, digests.drop_last()) + if block_changed(
            prev,
            digests.len() - 1,
            digests.last(),
        ) {
            1nat
        } else {
            0nat
        }
    }
}

proof fn lemma_pass_updates_bounded(h: Map<u32, Seq<char>>, digests: Seq<Seq<char>>)
    ensures
        pass_updates(h, digests) <= digests.len(),
    decreases digests.len(),
{
    if digests.len() > 0 {
        lemma_pass_updates_bounded(h, digests.drop_last());
    }
}

/// After a pass, every block holds the digest the pass saw for it.
proof fn lemma_pass_records_all(h: Map<u32, Seq<char>>, digests: Seq<Seq<char>>)
    requires
        digests.len() <= 0x1_0000_0000,
    ensures
        forall|i: int|
            0 <= i < digests.len() ==> #[trigger] pass_hashes(h, digests).contains_key(i as u32)
                && pass_hashes(h, digests)[i as u32] == digests[i],
    decreases digests.len(),
{
    if digests.len() > 0 {
        let prefix = digests.drop_last();
        lemma_pass_records_all(h, prefix);
        let n = digests.len() - 1;
        assert forall|i: int| 0 <= i < digests.len() implies #[trigger] pass_hashes(
            h,
            digests,
        ).contains_key(i as u32) && pass_hashes(h, digests)[i as u32] == digests[i] by {
            if i < n {
                assert(prefix[i] == digests[i]);
                assert(pass_hashes(h, prefix).contains_key(i as u32));
                assert((i as u32) != (n as u32));
            }
        }
    }
}

/// A pass over digests that every block already holds updates nothing.
proof fn lemma_pass_over_recorded(g: Map<u32, Seq<char>>, digests: Seq<Seq<char>>)
    requires
        forall|i: int|
            0 <= i < digests.len() ==> #[trigger] g.contains_key(i as u32) && g[i as u32]
                == digests[i],
    ensures
        pass_hashes(g, digests) == g,
        pass_updates(g, digests) == 0,
    decreases digests.len(),
{
    if digests.len() > 0 {
        let prefix = digests.drop_last();
        assert forall|i: int| 0 <= i < prefix.len() implies #[trigger] g.contains_key(i as u32)
            && g[i as u32] == prefix[i] by {
            assert(prefix[i] == digests[i]);
            assert(g.contains_key(i as u32));
        }
        lemma_pass_over_recorded(g, prefix);
        let n = digests.len() - 1;
        assert(g.contains_key(n as u32));
    }
}

/// Syncing a stats folder whose files did not change since the last pass
/// updates no block and leaves the recorded digests as they are (for up to
/// 2^32 blocks, beyond which block numbers repeat as `u32` keys).
pub proof fn repeated_block_sync_updates_nothing(h: Map<u32, Seq<char>>, digests: Seq<Seq<char>>)
    requires
        digests.len() <= 0x1_0000_0000,
    ensures
        pass_updates(pass_hashes(h, digests), digests) == 0,
        pass_hashes(pass_hashes(h, digests), digests) == pass_hashes(h, digests),
{
    lemma_pass_records_all(h, digests);
    lemma_pass_over_recorded(pass_hashes(h, digests), digests);
}

/// What a sync pass over the stats folder asks for next.
pub enum BlockSyncAction {
    /// Compute the digest of the files `[start, end)`, block `key`.
    HashBlock { key: u32, start: usize, end: usize },
    /// Sync the player at this position.
    SyncPlayer(usize),
    /// The pass is over.
    Done,
}

/// A sync pass over `players` stats files, block by block.
pub struct BlockSync {
    pub players: usize,
    pub blocks: usize,
    /// The block being checked or synced.
    pub block: usize,
    /// Whether the players of `block` are being synced.
    pub syncing: bool,
    /// The next player to sync while `syncing`.
    pub next_player: usize,
    /// The updated blocks and synced players so far.
    pub updated: u64,
    pub synced: u64,
    /// The recorded digests when the pass started.
    pub start_hashes: Ghost<Map<u32, Seq<char>>>,
    /// The digests seen so far, by block.
    pub digests: Ghost<Seq<Seq<char>>>,
}

/// The files of block `b`: `[start, end)`.
pub open spec fn block_end(b: int, players: int) -> int {
    if b * 400 + 400 <= players {
        b * 400 + 400
    } else {
        players
    }
}

impl BlockSync {
    /// The recorded digests the pass has made so far.
    pub open spec fn expected_hashes(&self) -> Map<u32, Seq<char>> {
        pass_hashes(self.start_hashes@, self.digests@)
    }

    pub open spec fn wf(&self) -> bool {
        &&& self.players + 400 <= usize::MAX
        &&& self.blocks == (self.players + 399) / 400
        &&& self.block <= self.blocks
        &&& self.digests@.len() == if self.syncing {
            self.block + 1
        } else {
            self.block as int
        }
        &&& self.updated == pass_updates(self.start_hashes@, self.digests@)
        &&& self.syncing ==> self.block < self.blocks && self.block * 400 <= self.next_player
            < block_end(self.block as int, self.players as int) && block_changed(
            pass_hashes(self.start_hashes@, self.digests@.drop_last()),
            self.block as int,
            self.digests@.last(),
        )
        &&& self.synced <= 400 * self.updated
        &&& self.syncing ==> self.synced + 400 <= 400 * self.updated + self.next_player - self.block
            * 400
    }

    /// What the pass asks for in this state.
    pub open spec fn action(&self) -> BlockSyncAction {
        if self.syncing {
            BlockSyncAction::SyncPlayer(self.next_player)
        } else if self.block < self.blocks {
            BlockSyncAction::HashBlock {
                key: self.block as u32,
                start: (self.block * 400) as usize,
                end: block_end(self.block as int, self.players as int) as usize,
            }
        } else {
            BlockSyncAction::Done
        }
    }

    /// A pass over `players` files, from the digests recorded in `hashes`.
    pub fn start(players: usize, hashes: &BlockHashes) -> (r: BlockSync)
        requires
            players + 400 <= usize::MAX,
        ensures
            r.wf(),
            r.players == players,
            r.block == 0,
            !r.syncing,
            r.updated == 0,
            r.synced == 0,
            r.start_hashes@ == hashes@,
            r.digests@.len() == 0,
            r.expected_hashes() == hashes@,
    {
        BlockSync {
            players,
            blocks: total_blocks(players),
            block: 0,
            syncing: false,
            next_player: 0,
            updated: 0,
            synced: 0,
            start_hashes: Ghost(hashes@),
            digests: Ghost(Seq::empty()),
        }
    }

    /// What the pass asks for next.
    pub fn next_action(&self) -> (a: BlockSyncAction)
        requires
            self.wf(),
        ensures
            a == self.action(),
    {
        if self.syncing {
            BlockSyncAction::SyncPlayer(self.next_player)
        } else if self.block < self.blocks {
            let (start, end) = block_bounds(self.block, self.players);
            BlockSyncAction::HashBlock { key: self.block as u32, start, end }
        } else {
            BlockSyncAction::Done
        }
    }

    /// The digest of the block being checked: an unchanged block is passed
    /// over; a changed one is counted, recorded, and its players are synced.
    pub fn on_digest(&mut self, hashes: &mut BlockHashes, digest: String)
        requires
            old(self).wf(),
            !old(self).syncing,
            old(self).block < old(self).blocks,
            old(hashes)@ == old(self).expected_hashes(),
        ensures
            final(self).wf(),
            final(self).digests@ == old(self).digests@.push(digest@),
            final(self).start_hashes == old(self).start_hashes,
            final(self).players == old(self).players,
            final(hashes)@ == final(self).expected_hashes(),
            final(self).synced == old(self).synced,
            block_changed(old(hashes)@, old(self).block as int, digest@) ==> final(self).syncing
                && final(self).block == old(self).block && final(self).updated == old(self).updated
                + 1 && final(self).next_player == old(self).block * 400,
            !block_changed(old(hashes)@, old(self).block as int, digest@) ==> !final(self).syncing
                && final(self).block == old(self).block + 1 && final(self).updated
                == old(self).updated,
    {
        let ghost before = self.digests@;
        let ghost h0 = self.start_hashes@;
        let key = self.block as u32;
        let changed = !hashes.unchanged(key, &digest);
        proof {
            let now = before.push(digest@);
            assert(now.drop_last() =~= before);
            assert(now.last() == digest@);
            lemma_pass_updates_bounded(h0, before);
        }
        self.digests = Ghost(before.push(digest@));
        if changed {
            hashes.record(key, digest);
            self.updated = self.updated + 1;
            self.syncing = true;
            self.next_player = self.block * 400;
            proof {
                assert(self.block * 400 < self.players) by (nonlinear_arith)
                    requires
                        self.block < (self.players + 399) / 400,
                ;
            }
        } else {
            self.block = self.block + 1;
        }
    }

    /// The sync of the player asked for: counted when it synced; after the
    /// block's last player the pass goes on to the next block.
    pub fn on_player_synced(&mut self, synced: bool)
        requires
            old(self).wf(),
            old(self).syncing,
        ensures
            final(self).wf(),
            final(self).digests == old(self).digests,
            final(self).start_hashes == old(self).start_hashes,
            final(self).players == old(self).players,
            final(self).updated == old(self).updated,
            final(self).synced == old(self).synced + if synced {
                1int
            } else {
                0int
            },
            old(self).next_player + 1 < block_end(old(self).block as int, old(self).players as int)
                ==> final(self).syncing && final(self).block == old(self).block
                && final(self).next_player == old(self).next_player + 1,
            old(self).next_player + 1 >= block_end(
                old(self).block as int,
                old(self).players as int,
            ) ==> !final(self).syncing && final(self).block == old(self).block + 1,
    {
        proof {
            lemma_pass_updates_bounded(self.start_hashes@, self.digests@);
        }
        if synced {
            self.synced = self.synced + 1;
        }
        let end = if self.block * 400 + 400 <= self.players {
            self.block * 400 + 400
        } else {
            self.players
        };
        if self.next_player + 1 < end {
            self.next_player = self.next_player + 1;
        } else {
            self.syncing = false;
            self.block = self.block + 1;
        }
    }

    /// `Checked {blocks} blocks, updated {updated} blocks, synced {synced}
    /// players out of {players}`.
    pub fn report(&self) -> (r: String)
        ensures
            r@ == "Checked "@ + digits_of(self.blocks as nat) + " blocks, updated "@ + digits_of(
                self.updated as nat,
            ) + " blocks, synced "@ + digits_of(self.synced as nat) + " players out of "@
                + digits_of(self.players as nat),
    {
        block_sync_report(self.blocks as u64, self.updated, self.synced, self.players as u64)
    }
}

/// A finished pass over files unchanged since a finished pass before it
/// updates no block and syncs no player: it starts from the digests the first
/// pass left and sees the same digests (for up to 2^32 blocks).
pub proof fn unchanged_folder_sync_is_idle(first: BlockSync, second: BlockSync)
    requires
        first.wf(),
        second.wf(),
        !second.syncing,
        second.block == second.blocks,
        second.start_hashes@ == first.expected_hashes(),
        second.digests@ == first.digests@,
        first.digests@.len() <= 0x1_0000_0000,
    ensures
        second.updated == 0,
        second.synced == 0,
        second.expected_hashes() == first.expected_hashes(),
{
    repeated_block_sync_updates_nothing(first.start_hashes@, first.digests@);
}

// ---------------------------------------------------------------------------
// Sync reports
// ---------------------------------------------------------------------------

/// `Synced {n} players from stats files`.
pub fn synced_files_message(n: u64) -> (r: String)
    ensures
        r@ == "Synced "@ + digits_of(n as nat) + " players from stats files"@,
{
    let mut v: Vec<char> = Vec::new();
    push_str(&mut v, "Synced ");
    push_u64(&mut v, n);
    push_str(&mut v, " players from stats files");
    string_from_chars(&v)
}

/// `Synced {n} players`.
pub fn synced_players_message(n: u64) -> (r: String)
    ensures
        r@ == "Synced "@ + digits_of(n as nat) + " players"@,
{
    let mut v: Vec<char> = Vec::new();
    push_str(&mut v, "Synced ");
    push_u64(&mut v, n);
    push_str(&mut v, " players");
    string_from_chars(&v)
}

/// `Checked {blocks} blocks, updated {updated} blocks, synced {synced} players out of {players}`.
pub fn block_sync_report(blocks: u64, updated: u64, synced: u64, players: u64) -> (r: String)
    ensures
        r@ == "Checked "@ + digits_of(blocks as nat) + " blocks, updated "@ + digits_of(
            updated as nat,
        ) + " blocks, synced "@ + digits_of(synced as nat) + " players out of "@ + digits_of(
            players as nat,
        ),
{
    let mut v: Vec<char> = Vec::new();
    push_str(&mut v, "Checked ");
    push_u64(&mut v, blocks);
    push_str(&mut v, " blocks, updated ");
    push_u64(&mut v, updated);
    push_str(&mut v, " blocks, synced ");
    push_u64(&mut v, synced);
    push_str(&mut v, " players out of ");
    push_u64(&mut v, players);
    string_from_chars(&v)
}

// ---------------------------------------------------------------------------
// Answers of the API
// ---------------------------------------------------------------------------

/// A `player_stats` row as the API reads it back.
pub struct PlayerQuery {
    pub uuid: String,
    pub name: String,
    pub join_date: i64,
    pub last_seen: i64,
    pub deaths: i32,
    pub kills: i32,
    pub mobs_killed: i32,
    pub blocks_broken: i32,
    pub blocks_placed: i32,
    pub time_played: i32,
    pub tnt_used: i32,
    pub arrows_shot: i32,
    pub items_dropped: i32,
    pub distance_travelled: i32,
    pub obsidian_mined: i32,
    pub obsidian_placed: i32,
    pub netherite_mined: i32,
    pub elytra_used: i32,
    pub totems_used: i32,
}

/// A player as `GET /player/:name` answers: the stored row and a skin URL.
pub struct PlayerResponse {
    pub uuid: String,
    pub name: String,
    pub join_date: i64,
    pub last_seen: i64,
    pub deaths: i32,
    pub kills: i32,
    pub mobs_killed: i32,
    pub blocks_broken: i32,
    pub blocks_placed: i32,
    pub time_played: i32,
    pub tnt_used: i32,
    pub arrows_shot: i32,
    pub items_dropped: i32,
    pub distance_travelled: i32,
    pub obsidian_mined: i32,
    pub obsidian_placed: i32,
    pub netherite_mined: i32,
    pub elytra_used: i32,
    pub totems_used: i32,
    pub skin_url: String,
}

/// The avatar image of a player, by player name.
pub fn get_skin_url(name: &str) -> (r: String)
    ensures
        r@ == "https://mc-heads.net/avatar/"@ + name@,
{
    let mut v: Vec<char> = Vec::new();
    push_str(&mut v, "https://mc-heads.net/avatar/");
    push_str(&mut v, name);
    string_from_chars(&v)
}

/// `r` answers for the stored row `q`: every column as stored, and the skin
/// URL of the player's name.
pub open spec fn is_response_of(r: PlayerResponse, q: PlayerQuery) -> bool {
    &&& r.uuid == q.uuid
    &&& r.name == q.name
    &&& r.join_date == q.join_date
    &&& r.last_seen == q.last_seen
    &&& r.deaths == q.deaths
    &&& r.kills == q.kills
    &&& r.mobs_killed == q.mobs_killed
    &&& r.blocks_broken == q.blocks_broken
    &&& r.blocks_placed == q.blocks_placed
    &&& r.time_played == q.time_played
    &&& r.tnt_used == q.tnt_used
    &&& r.arrows_shot == q.arrows_shot
    &&& r.items_dropped == q.items_dropped
    &&& r.distance_travelled == q.distance_travelled
    &&& r.obsidian_mined == q.obsidian_mined
    &&& r.obsidian_placed == q.obsidian_placed
    &&& r.netherite_mined == q.netherite_mined
    &&& r.elytra_used == q.elytra_used
    &&& r.totems_used == q.totems_used
    &&& r.skin_url@ == "https://mc-heads.net/avatar/"@ + q.name@
}

/// The answer for a stored player.
pub fn player_response(q: &PlayerQuery) -> (r: PlayerResponse)
    ensures
        is_response_of(r, *q),
{
    PlayerResponse {
        uuid: q.uuid.clone(),
        name: q.name.clone(),
        join_date: q.join_date,
        last_seen: q.last_seen,
        deaths: q.deaths,
        kills: q.kills,
        mobs_killed: q.mobs_killed,
        blocks_broken: q.blocks_broken,
        blocks_placed: q.blocks_placed,
        time_played: q.time_played,
        tnt_used: q.tnt_used,
        arrows_shot: q.arrows_shot,
        items_dropped: q.items_dropped,
        distance_travelled: q.distance_travelled,
        obsidian_mined: q.obsidian_mined,
        obsidian_placed: q.obsidian_placed,
        netherite_mined: q.netherite_mined,
        elytra_used: q.elytra_used,
        totems_used: q.totems_used,
        skin_url: get_skin_url(q.name.as_str()),
    }
}

/// The answer for a found player.
pub fn player_found(q: &PlayerQuery) -> (r: ApiResponse<PlayerResponse>)
    ensures
        r.success,
        r.error is None,
        r.data matches Some(p) && is_response_of(p, *q),
{
    ok(player_response(q))
}

/// The answer when no player matches.
pub fn player_not_found() -> (r: ApiResponse<PlayerResponse>)
    ensures
        !r.success,
        r.data is None,
        r.error matches Some(e) && e@ == "Player not found"@,
{
    failure("Player not found".to_string())
}

/// How long a looked-up player stays cached, in seconds.
pub const CACHE_TTL_SECONDS: u64 = 300;

/// A cached lookup is used while less than five minutes old: an age below
/// 300 s is exactly an age whose whole seconds are below 300.
pub fn cache_fresh(age_whole_seconds: u64) -> (r: bool)
    ensures
        r == (age_whole_seconds < 300),
{
    age_whole_seconds < CACHE_TTL_SECONDS
}

/// What a player lookup has learned at its latest step.
pub enum LookupEvent {
    /// The answer cache was read: the entry for the search key, if any, and
    /// its age in whole seconds.
    CacheRead(Option<(PlayerQuery, u64)>),
    /// The database was asked for the player by name or UUID; `None` when no
    /// row matched or the query failed.
    StoreRead(Option<PlayerQuery>),
    /// The server's user cache was searched for the player's UUID.
    UuidRead(Option<String>),
    /// The player's files were synced into the database, or not.
    Synced(bool),
    /// The database was asked again after the sync.
    StoreReread(Option<PlayerQuery>),
}

/// What a player lookup does next.
pub enum LookupAction {
    /// Answer with this row; `remember` asks for it to be cached.
    Answer { row: PlayerQuery, remember: bool },
    /// Ask the database.
    QueryStore,
    /// Search the server's user cache for the player's UUID.
    FindUuid,
    /// Sync the files of the player with this UUID.
    Sync(String),
    /// Ask the database again.
    QueryStoreAgain,
    /// Answer that no player matches.
    NotFound,
}

/// The lookup of `GET /player/:name`: a cached answer younger than five
/// minutes is used as it is; otherwise the database is asked, and a row found
/// there is cached and answered; a player the database does not know is
/// searched in the server's user cache, synced from its files and looked up
/// once more; every failure along the way ends in `Player not found`.
pub open spec fn lookup_decision(event: LookupEvent) -> LookupAction {
    match event {
        LookupEvent::CacheRead(entry) => match entry {
            Some((row, age)) => if age < 300 {
                LookupAction::Answer { row, remember: false }
            } else {
                LookupAction::QueryStore
            },
            None => LookupAction::QueryStore,
        },
        LookupEvent::StoreRead(found) => match found {
            Some(row) => LookupAction::Answer { row, remember: true },
            None => LookupAction::FindUuid,
        },
        LookupEvent::UuidRead(uuid) => match uuid {
            Some(u) => LookupAction::Sync(u),
            None => LookupAction::NotFound,
        },
        LookupEvent::Synced(done) => if done {
            LookupAction::QueryStoreAgain
        } else {
            LookupAction::NotFound
        },
        LookupEvent::StoreReread(found) => match found {
            Some(row) => LookupAction::Answer { row, remember: false },
            None => LookupAction::NotFound,
        },
    }
}

/// The lookup asks the database only when the cache has no answer younger
/// than 300 seconds, caches exactly the rows the database found on the first
/// try, and answers "not found" only when the user cache does not know the
/// name, the sync fails, or the database still has no row after it.
pub proof fn lookup_uses_fresh_cache_first(
    q: PlayerQuery,
    age: u64,
    found: Option<PlayerQuery>,
    uuid: Option<String>,
    synced: bool,
)
    ensures
        age < 300 ==> lookup_decision(LookupEvent::CacheRead(Some((q, age))))
            == (LookupAction::Answer { row: q, remember: false }),
        age >= 300 ==> lookup_decision(LookupEvent::CacheRead(Some((q, age))))
            == LookupAction::QueryStore,
        lookup_decision(LookupEvent::CacheRead(None)) == LookupAction::QueryStore,
        found matches Some(row) ==> lookup_decision(LookupEvent::StoreRead(found))
            == (LookupAction::Answer { row, remember: true }),
        found is None ==> lookup_decision(LookupEvent::StoreRead(found)) == LookupAction::FindUuid,
        uuid matches Some(u) ==> lookup_decision(LookupEvent::UuidRead(uuid)) == LookupAction::Sync(u),
        uuid is None ==> lookup_decision(LookupEvent::UuidRead(uuid)) == LookupAction::NotFound,
        synced ==> lookup_decision(LookupEvent::Synced(synced)) == LookupAction::QueryStoreAgain,
        !synced ==> lookup_decision(LookupEvent::Synced(synced)) == LookupAction::NotFound,
        found matches Some(row) ==> lookup_decision(LookupEvent::StoreReread(found))
            == (LookupAction::Answer { row, remember: false }),
        found is None ==> lookup_decision(LookupEvent::StoreReread(found)) == LookupAction::NotFound,
{
}

/// The next step of a player lookup.
pub fn lookup_step(event: LookupEvent) -> (r: LookupAction)
    ensures
        r == lookup_decision(event),
{
    match event {
        LookupEvent::CacheRead(entry) => match entry {
            Some((row, age)) => if cache_fresh(age) {
                LookupAction::Answer { row, remember: false }
            } else {
                LookupAction::QueryStore
            },
            None => LookupAction::QueryStore,
        },
        LookupEvent::StoreRead(found) => match found {
            Some(row) => LookupAction::Answer { row, remember: true },
            None => LookupAction::FindUuid,
        },
        LookupEvent::UuidRead(uuid) => match uuid {
            Some(u) => LookupAction::Sync(u),
            None => LookupAction::NotFound,
        },
        LookupEvent::Synced(done) => if done {
            LookupAction::QueryStoreAgain
        } else {
            LookupAction::NotFound
        },
        LookupEvent::StoreReread(found) => match found {
            Some(row) => LookupAction::Answer { row, remember: false },
            None => LookupAction::NotFound,
        },
    }
}

/// A leaderboard row as `GET /leaderboard` answers.
pub struct LeaderboardEntry {
    pub uuid: String,
    pub name: String,
    pub join_date: i64,
    pub deaths: i32,
    pub kills: i32,
    pub time_played: i32,
    pub skin_url: String,
}

/// The leaderboard row of a stored player.
pub fn leaderboard_entry(q: &PlayerQuery) -> (r: LeaderboardEntry)
    ensures
        r.uuid == q.uuid,
        r.name == q.name,
        r.join_date == q.join_date,
        r.deaths == q.deaths,
        r.kills == q.kills,
        r.time_played == q.time_played,
        r.skin_url@ == "https://mc-heads.net/avatar/"@ + q.name@,
{
    LeaderboardEntry {
        uuid: q.uuid.clone(),
        name: q.name.clone(),
        join_date: q.join_date,
        deaths: q.deaths,
        kills: q.kills,
        time_played: q.time_played,
        skin_url: get_skin_url(q.name.as_str()),
    }
}

/// The `limit` query parameter: an `i32`, 10 when missing or not a number.
pub fn leaderboard_limit(param: Option<&str>) -> (r: i32)
    ensures
        r == match param {
            Some(p) => match parse_i32_spec(p@) {
                Some(v) => v,
                None => 10,
            },
            None => 10,
        },
{
    match param {
        Some(p) => match parse_i32(p) {
            Some(v) => v,
            None => 10,
        },
        None => 10,
    }
}

/// The column a leaderboard is ordered by: the `sort` parameter when it names
/// one of the sortable columns, `kills` otherwise.
pub open spec fn order_column_for(sort: Option<Seq<char>>) -> Seq<char> {
    match sort {
        Some(s) => if s == "deaths"@ || s == "mobs_killed"@ || s == "time_played"@ || s
            == "blocks_broken"@ || s == "blocks_placed"@ || s == "tnt_used"@ || s
            == "obsidian_mined"@ || s == "netherite_mined"@ {
            s
        } else {
            "kills"@
        },
        None => "kills"@,
    }
}

/// The columns a leaderboard may be ordered by.
pub open spec fn sortable_column(c: Seq<char>) -> bool {
    c == "kills"@ || c == "deaths"@ || c == "mobs_killed"@ || c == "time_played"@ || c
        == "blocks_broken"@ || c == "blocks_placed"@ || c == "tnt_used"@ || c
        == "obsidian_mined"@ || c == "netherite_mined"@
}

/// Whatever the `sort` parameter holds, the leaderboard statement orders by
/// one of the sortable columns: no other text reaches the query.
pub proof fn order_column_is_sortable(sort: Option<Seq<char>>)
    ensures
        sortable_column(order_column_for(sort)),
{
}

/// Every sortable column is ordered by itself: `sort=c` orders the leaderboard
/// by `c` for each of `kills`, `deaths`, `mobs_killed`, `time_played`,
/// `blocks_broken`, `blocks_placed`, `tnt_used`, `obsidian_mined` and
/// `netherite_mined`; any other `sort`, or none, orders it by `kills`.
pub proof fn order_column_follows_sort(sort: Seq<char>)
    ensures
        order_column_for(Some("kills"@)) == "kills"@,
        order_column_for(Some("deaths"@)) == "deaths"@,
        order_column_for(Some("mobs_killed"@)) == "mobs_killed"@,
        order_column_for(Some("time_played"@)) == "time_played"@,
        order_column_for(Some("blocks_broken"@)) == "blocks_broken"@,
        order_column_for(Some("blocks_placed"@)) == "blocks_placed"@,
        order_column_for(Some("tnt_used"@)) == "tnt_used"@,
        order_column_for(Some("obsidian_mined"@)) == "obsidian_mined"@,
        order_column_for(Some("netherite_mined"@)) == "netherite_mined"@,
        sort != "kills"@ && sort != "deaths"@ && sort != "mobs_killed"@ && sort != "time_played"@
            && sort != "blocks_broken"@ && sort != "blocks_placed"@ && sort != "tnt_used"@ && sort
            != "obsidian_mined"@ && sort != "netherite_mined"@ ==> order_column_for(Some(sort))
            == "kills"@,
        order_column_for(None) == "kills"@,
{
}

/// The column for the `sort` query parameter.
pub fn order_column(sort: Option<&str>) -> (r: String)
    ensures
        r@ == order_column_for(match sort {
            Some(s) => Some(s@),
            None => None,
        }),
{
    match sort {
        Some(s) => {
            if str_equal(s, "deaths") || str_equal(s, "mobs_killed") || str_equal(s, "time_played")
                || str_equal(s, "blocks_broken") || str_equal(s, "blocks_placed") || str_equal(
                s,
                "tnt_used",
            ) || str_equal(s, "obsidian_mined") || str_equal(s, "netherite_mined") {
                s.to_string()
            } else {
                "kills".to_string()
            }
        },
        None => "kills".to_string(),
    }
}

/// The leaderboard statement, ordered by `column`, descending, with the row
/// limit bound as its one parameter.
pub fn leaderboard_query(column: &str) -> (r: String)
    ensures
        r@ == "SELECT uuid, name, join_date, last_seen, deaths, kills, mobs_killed, blocks_broken, blocks_placed, time_played, tnt_used, arrows_shot, items_dropped, distance_travelled, obsidian_mined, obsidian_placed, netherite_mined, elytra_used, totems_used\n         FROM player_stats ORDER BY "@
            + column@ + " DESC LIMIT ?"@,
{
    let mut v: Vec<char> = Vec::new();
    push_str(
        &mut v,
        "SELECT uuid, name, join_date, last_seen, deaths, kills, mobs_killed, blocks_broken, blocks_placed, time_played, tnt_used, arrows_shot, items_dropped, distance_travelled, obsidian_mined, obsidian_placed, netherite_mined, elytra_used, totems_used\n         FROM player_stats ORDER BY ",
    );
    push_str(&mut v, column);
    push_str(&mut v, " DESC LIMIT ?");
    string_from_chars(&v)
}

} // verus!
