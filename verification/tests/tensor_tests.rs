use std::io::Write;

use b8t_core::api::ApiResponse;
use b8t_core::tensor::{
    begin_player_sync, block_bounds, block_sync_report, cache_fresh, decompress_player_dat, get_skin_url,
    leaderboard_entry, leaderboard_limit, leaderboard_query, name_for_uuid, needs_sync,
    order_column, player_dat_info, player_found, player_lookup_key, player_not_found,
    player_response, read_player_stats, resolve_player_info, row_from_files, row_from_report,
    stat_value, stats_file_uuid, stats_fit, stats_keys_distinct, synced_files_message, synced_players_message,
    total_blocks, uuid_for_name, lookup_step, BlockHashes, BlockSync, BlockSyncAction, BukkitData, LookupAction, LookupEvent,
    PaperData, PlayerDat, PlayerQuery, PlayerStats, StatEntry, StatsData, UserCacheEntry,
    BLOCK_SIZE, CACHE_TTL_SECONDS,
};

fn entry(key: &str, value: i32) -> StatEntry {
    StatEntry { key: key.to_string(), value }
}

fn empty_stats() -> StatsData {
    StatsData { custom: vec![], mined: vec![], used: vec![], dropped: vec![], picked_up: vec![] }
}

fn query(name: &str) -> PlayerQuery {
    PlayerQuery {
        uuid: "5b3a39be-24cc-3861-b90a-619502c73562".to_string(),
        name: name.to_string(),
        join_date: 1773928561072,
        last_seen: 1774211991033,
        deaths: 3,
        kills: 7,
        mobs_killed: 11,
        blocks_broken: 13,
        blocks_placed: 17,
        time_played: 19,
        tnt_used: 23,
        arrows_shot: 29,
        items_dropped: 31,
        distance_travelled: 37,
        obsidian_mined: 41,
        obsidian_placed: 43,
        netherite_mined: 47,
        elytra_used: 53,
        totems_used: 59,
    }
}

#[test]
fn test_skin_url_uses_name() {
    assert_eq!(
        get_skin_url("MindComplexity"),
        "https://mc-heads.net/avatar/MindComplexity"
    );
    assert_eq!(get_skin_url("wqm"), "https://mc-heads.net/avatar/wqm");
}

#[test]
fn test_resolve_player_info() {
    // What the server folder holds for this player: no user-cache entry, and a
    // player data file whose bukkit compound names "MindComplexity".
    let from_dat = Some(("MindComplexity".to_string(), 1773928561072i64, 1774211991033i64, 1774211991033i64));
    let (name, first, _, _) =
        resolve_player_info("5b3a39be-24cc-3861-b90a-619502c73562", None, from_dat);
    assert_eq!(name, "MindComplexity");
    assert!(first > 0);

    // No user-cache entry and no data file.
    let (name, _, _, _) = resolve_player_info("00000000-0000-0000-0000-000000000000", None, None);
    assert_eq!(name, "00000000-0000-0000-0000-000000000000");
}

#[test]
fn resolve_prefers_the_user_cache_name() {
    let from_dat = Some(("OldName".to_string(), 5, 6, 7));
    let r = resolve_player_info("u", Some("NewName".to_string()), from_dat);
    assert_eq!(r, ("NewName".to_string(), 5, 6, 7));
    let r = resolve_player_info("u", Some("NewName".to_string()), None);
    assert_eq!(r, ("NewName".to_string(), 0, 0, 0));
}

#[test]
fn player_dat_info_reads_bukkit_and_paper_compounds() {
    // The fields of the MindComplexity data file.
    let dat = PlayerDat {
        last_known_name: None,
        bukkit_data: Some(BukkitData {
            first_played: Some(1773928561072),
            last_played: Some(1774211991033),
            last_known_name: Some("MindComplexity".to_string()),
        }),
        paper_data: Some(PaperData { last_seen: Some(1774211991033), last_login: None }),
        first_played: None,
        last_played: None,
    };
    let info = player_dat_info(&dat, "5b3a39be-24cc-3861-b90a-619502c73562");
    assert_eq!(
        info,
        ("MindComplexity".to_string(), 1773928561072, 1774211991033, 1774211991033)
    );
}

#[test]
fn player_dat_info_falls_back() {
    let dat = PlayerDat {
        last_known_name: Some("Top".to_string()),
        bukkit_data: Some(BukkitData {
            first_played: Some(1),
            last_played: Some(2),
            last_known_name: Some("Bukkit".to_string()),
        }),
        paper_data: None,
        first_played: Some(10),
        last_played: None,
    };
    assert_eq!(player_dat_info(&dat, "u"), ("Top".to_string(), 10, 2, 2));

    let bare = PlayerDat {
        last_known_name: None,
        bukkit_data: None,
        paper_data: Some(PaperData { last_seen: None, last_login: Some(9) }),
        first_played: None,
        last_played: None,
    };
    assert_eq!(player_dat_info(&bare, "the-uuid"), ("the-uuid".to_string(), 0, 0, 0));
}

#[test]
fn decompress_player_dat_inflates_gzip() {
    let payload: Vec<u8> = (0u8..200).collect();
    let mut enc = flate2::write::GzEncoder::new(Vec::new(), flate2::Compression::default());
    enc.write_all(&payload).unwrap();
    let compressed = enc.finish().unwrap();
    assert_ne!(compressed, payload);
    assert_eq!(decompress_player_dat(&compressed), Some(payload));
    assert_eq!(decompress_player_dat(b"not gzip at all"), None);
}

#[test]
fn user_cache_lookups() {
    let cache = vec![
        UserCacheEntry { uuid: "u1".to_string(), name: "Alice".to_string() },
        UserCacheEntry { uuid: "u2".to_string(), name: "Bob".to_string() },
        UserCacheEntry { uuid: "u1".to_string(), name: "Later".to_string() },
    ];
    assert_eq!(name_for_uuid(&cache, "u1"), Some("Alice".to_string()));
    assert_eq!(name_for_uuid(&cache, "u2"), Some("Bob".to_string()));
    assert_eq!(name_for_uuid(&cache, "u3"), None);
    assert_eq!(uuid_for_name(&cache, "bob"), Some("u2".to_string()));
    assert_eq!(uuid_for_name(&cache, "ALICE"), Some("u1".to_string()));
    assert_eq!(uuid_for_name(&cache, "Carol"), None);
    assert_eq!(player_lookup_key("MindComplexity"), "mindcomplexity");
    assert_eq!(player_lookup_key("ÄBC"), "äbc");
}

#[test]
fn test_read_player_stats() {
    // The counters of stats/d4c3cd0f-2fff-419d-af3f-3c2dc5e01deb.json, as its
    // parse shows them: nothing mined.
    let mut s = empty_stats();
    s.custom = vec![
        entry("minecraft:play_time", 64328),
        entry("minecraft:deaths", 1),
        entry("minecraft:mob_kills", 2),
    ];
    s.used = vec![entry("minecraft:tnt", 13), entry("minecraft:obsidian", 16)];
    assert!(stats_fit(&s));
    let stats = read_player_stats(&s);
    assert_eq!(stats.time_played, 64328);
    assert_eq!(stats.deaths, 1);
    assert_eq!(stats.kills, 0);
    assert_eq!(stats.mobs_killed, 2);
    assert_eq!(stats.tnt_used, 13);
    assert_eq!(stats.obsidian_placed, 16);
    assert_eq!(stats.blocks_broken, 0);
    assert_eq!(stats.netherite_mined, 0);
}

#[test]
fn test_read_player_stats_with_mined() {
    // The counters of stats/dd9be595-03ac-32fc-bcd8-d3c3f272889c.json.
    let mut s = empty_stats();
    s.custom = vec![entry("minecraft:deaths", 2)];
    s.mined = vec![entry("minecraft:short_grass", 8), entry("minecraft:pink_petals", 3)];
    let stats = read_player_stats(&s);
    assert_eq!(stats.blocks_broken, 11);
    assert_eq!(stats.deaths, 2);
}

#[test]
fn stats_sums_and_lookups() {
    let mut s = empty_stats();
    s.custom = vec![
        entry("minecraft:walk_one_cm", 1000),
        entry("minecraft:sprint_one_cm", 200),
        entry("minecraft:fly_one_cm", 30),
        entry("minecraft:player_kills", 4),
    ];
    s.used = vec![entry("minecraft:bow", 5), entry("minecraft:elytra", 6)];
    s.mined = vec![
        entry("minecraft:obsidian", 7),
        entry("minecraft:netherite_block", 8),
        entry("minecraft:stone", 100),
    ];
    s.dropped = vec![entry("minecraft:dirt", 9), entry("minecraft:sand", 10)];
    let stats = read_player_stats(&s);
    assert_eq!(stats.distance_travelled, 1230);
    assert_eq!(stats.kills, 4);
    assert_eq!(stats.arrows_shot, 5);
    assert_eq!(stats.elytra_used, 6);
    assert_eq!(stats.obsidian_mined, 7);
    assert_eq!(stats.netherite_mined, 8);
    assert_eq!(stats.blocks_broken, 115);
    assert_eq!(stats.items_dropped, 19);
    assert_eq!(stat_value(&s.custom, "minecraft:fly_one_cm"), 30);
    assert_eq!(stat_value(&s.custom, "minecraft:missing"), 0);

    let mut big = empty_stats();
    big.mined = vec![entry("a", i32::MAX), entry("b", 1)];
    assert!(!stats_fit(&big));
    big.mined = vec![entry("a", i32::MAX)];
    assert!(stats_fit(&big));
}

#[test]
fn rows_written_for_a_player() {
    let mut s = empty_stats();
    s.custom = vec![entry("minecraft:deaths", 2), entry("minecraft:play_time", 40)];
    let stats = read_player_stats(&s);
    let row = row_from_files("uuid-1", ("Name".to_string(), 100, 200, 300), &stats);
    assert_eq!(row.uuid, "uuid-1");
    assert_eq!(row.name, "Name");
    assert_eq!(row.join_date, 100);
    assert_eq!(row.last_seen, Some(300));
    assert_eq!(row.deaths, 2);
    assert_eq!(row.time_played, 40);
    assert_eq!(row.blocks_placed, 0);
    assert_eq!(row.totems_used, 0);

    let report = PlayerStats {
        uuid: "uuid-2".to_string(),
        name: "Other".to_string(),
        join_date: 5,
        deaths: Some(1),
        kills: None,
        mobs_killed: Some(3),
        blocks_broken: None,
        blocks_placed: Some(4),
        time_played: None,
        tnt_used: None,
        arrows_shot: None,
        items_dropped: None,
        distance_travelled: None,
        obsidian_mined: None,
        obsidian_placed: None,
        netherite_mined: None,
        elytra_used: None,
        totems_used: Some(6),
    };
    let row = row_from_report(&report);
    assert_eq!(row.uuid, "uuid-2");
    assert_eq!(row.last_seen, None);
    assert_eq!(row.deaths, 1);
    assert_eq!(row.kills, 0);
    assert_eq!(row.mobs_killed, 3);
    assert_eq!(row.blocks_placed, 4);
    assert_eq!(row.totems_used, 6);
}

#[test]
fn change_detection() {
    let h = "abc".to_string();
    assert!(needs_sync(&h, None));
    assert!(!needs_sync(&h, Some(&"abc".to_string())));
    assert!(needs_sync(&h, Some(&"abd".to_string())));

    assert_eq!(
        stats_file_uuid("d4c3cd0f-2fff-419d-af3f-3c2dc5e01deb.json"),
        Some("d4c3cd0f-2fff-419d-af3f-3c2dc5e01deb".to_string())
    );
    assert_eq!(stats_file_uuid("a.b.json"), Some("a.b".to_string()));
    assert_eq!(stats_file_uuid("notes.txt"), None);
    assert_eq!(stats_file_uuid(".json"), None);
    assert_eq!(stats_file_uuid("json"), None);
    assert_eq!(stats_file_uuid("x.JSON"), None);
}

#[test]
fn file_name_round_trip_law() {
    let uuid = "dd9be595-03ac-32fc-bcd8-d3c3f272889c";
    assert_eq!(stats_file_uuid(&format!("{}.json", uuid)), Some(uuid.to_string()));
}

#[test]
fn blocks_cover_every_file_once() {
    assert_eq!(BLOCK_SIZE, 400);
    assert_eq!(total_blocks(0), 0);
    assert_eq!(total_blocks(1), 1);
    assert_eq!(total_blocks(400), 1);
    assert_eq!(total_blocks(401), 2);
    assert_eq!(block_bounds(0, 401), (0, 400));
    assert_eq!(block_bounds(1, 401), (400, 401));
    let players = 1234usize;
    let mut covered = vec![0u32; players];
    for b in 0..total_blocks(players) {
        let (start, end) = block_bounds(b, players);
        for i in start..end {
            covered[i] += 1;
        }
    }
    assert!(covered.iter().all(|c| *c == 1));
}

#[test]
fn recorded_blocks_read_back() {
    let mut hashes = BlockHashes::new();
    assert!(!hashes.unchanged(0, &"h0".to_string()));
    hashes.record(0, "h0".to_string());
    hashes.record(1, "h1".to_string());
    assert!(hashes.unchanged(0, &"h0".to_string()));
    assert!(!hashes.unchanged(0, &"h1".to_string()));
    hashes.record(0, "h2".to_string());
    assert!(hashes.unchanged(0, &"h2".to_string()));
    assert!(hashes.unchanged(1, &"h1".to_string()));
}

#[test]
fn sync_messages() {
    assert_eq!(synced_files_message(12), "Synced 12 players from stats files");
    assert_eq!(synced_players_message(0), "Synced 0 players");
    assert_eq!(
        block_sync_report(3, 1, 400, 1000),
        "Checked 3 blocks, updated 1 blocks, synced 400 players out of 1000"
    );
}

#[test]
fn player_answers() {
    let q = query("MindComplexity");
    let r = player_response(&q);
    assert_eq!(r.uuid, q.uuid);
    assert_eq!(r.kills, 7);
    assert_eq!(r.totems_used, 59);
    assert_eq!(r.skin_url, "https://mc-heads.net/avatar/MindComplexity");

    let found: ApiResponse<_> = player_found(&q);
    assert!(found.success);
    assert!(found.error.is_none());
    let data = found.data.unwrap();
    assert_eq!(data.name, "MindComplexity");
    assert_eq!(data.elytra_used, 53);

    let missing = player_not_found();
    assert!(!missing.success);
    assert!(missing.data.is_none());
    assert_eq!(missing.error, Some("Player not found".to_string()));
}

#[test]
fn cache_lifetime() {
    assert_eq!(CACHE_TTL_SECONDS, 300);
    assert!(cache_fresh(0));
    assert!(cache_fresh(299));
    assert!(!cache_fresh(300));
}

#[test]
fn leaderboard_parameters() {
    let e = leaderboard_entry(&query("wqm"));
    assert_eq!(e.name, "wqm");
    assert_eq!(e.kills, 7);
    assert_eq!(e.skin_url, "https://mc-heads.net/avatar/wqm");

    assert_eq!(leaderboard_limit(None), 10);
    assert_eq!(leaderboard_limit(Some("25")), 25);
    assert_eq!(leaderboard_limit(Some("-3")), -3);
    assert_eq!(leaderboard_limit(Some("ten")), 10);
    assert_eq!(leaderboard_limit(Some("99999999999")), 10);

    assert_eq!(order_column(None), "kills");
    assert_eq!(order_column(Some("deaths")), "deaths");
    assert_eq!(order_column(Some("netherite_mined")), "netherite_mined");
    assert_eq!(order_column(Some("kills; DROP TABLE player_stats")), "kills");
    assert_eq!(order_column(Some("elytra_used")), "kills");

    let sql = leaderboard_query("deaths");
    assert!(sql.starts_with("SELECT uuid, name, join_date, last_seen, deaths, kills"));
    assert!(sql.ends_with("FROM player_stats ORDER BY deaths DESC LIMIT ?"));
}

#[test]
fn player_lookup_steps() {
    assert!(matches!(
        lookup_step(LookupEvent::CacheRead(Some((query("wqm"), 10)))),
        LookupAction::Answer { row, remember: false } if row.name == "wqm"
    ));
    assert!(matches!(
        lookup_step(LookupEvent::CacheRead(Some((query("wqm"), 300)))),
        LookupAction::QueryStore
    ));
    assert!(matches!(lookup_step(LookupEvent::CacheRead(None)), LookupAction::QueryStore));
    assert!(matches!(
        lookup_step(LookupEvent::StoreRead(Some(query("wqm")))),
        LookupAction::Answer { remember: true, .. }
    ));
    assert!(matches!(lookup_step(LookupEvent::StoreRead(None)), LookupAction::FindUuid));
    assert!(matches!(
        lookup_step(LookupEvent::UuidRead(Some("u1".to_string()))),
        LookupAction::Sync(u) if u == "u1"
    ));
    assert!(matches!(lookup_step(LookupEvent::UuidRead(None)), LookupAction::NotFound));
    assert!(matches!(lookup_step(LookupEvent::Synced(true)), LookupAction::QueryStoreAgain));
    assert!(matches!(lookup_step(LookupEvent::Synced(false)), LookupAction::NotFound));
    assert!(matches!(
        lookup_step(LookupEvent::StoreReread(Some(query("wqm")))),
        LookupAction::Answer { remember: false, .. }
    ));
    assert!(matches!(lookup_step(LookupEvent::StoreReread(None)), LookupAction::NotFound));
}

#[test]
fn statistic_keys_are_unique() {
    let mut s = empty_stats();
    s.custom = vec![entry("minecraft:deaths", 2), entry("minecraft:play_time", 40)];
    assert!(stats_keys_distinct(&s));
    assert_eq!(stat_value(&s.custom, "minecraft:play_time"), 40);
    s.mined = vec![entry("minecraft:stone", 1), entry("minecraft:stone", 2)];
    assert!(!stats_keys_distinct(&s));
}

/// Runs a pass over `players` files whose blocks have the digests `digests`;
/// `synced` says which players sync.
fn run_pass(hashes: &mut BlockHashes, players: usize, digests: &[&str], synced: impl Fn(usize) -> bool) -> (String, Vec<usize>) {
    let mut run = BlockSync::start(players, hashes);
    let mut visited = Vec::new();
    loop {
        match run.next_action() {
            BlockSyncAction::HashBlock { key, start, end } => {
                assert_eq!(start, key as usize * 400);
                assert_eq!(end, players.min(start + 400));
                run.on_digest(hashes, digests[key as usize].to_string());
            }
            BlockSyncAction::SyncPlayer(p) => {
                visited.push(p);
                run.on_player_synced(synced(p));
            }
            BlockSyncAction::Done => return (run.report(), visited),
        }
    }
}

#[test]
fn block_sync_passes() {
    let mut hashes = BlockHashes::new();
    let (report, visited) = run_pass(&mut hashes, 850, &["a", "b", "c"], |p| p % 2 == 0);
    assert_eq!(report, "Checked 3 blocks, updated 3 blocks, synced 425 players out of 850");
    assert_eq!(visited, (0..850).collect::<Vec<_>>());
    // Nothing changed: nothing is updated or synced.
    let (report, visited) = run_pass(&mut hashes, 850, &["a", "b", "c"], |_| true);
    assert_eq!(report, "Checked 3 blocks, updated 0 blocks, synced 0 players out of 850");
    assert!(visited.is_empty());
    // One block changed: only its players are synced.
    let (report, visited) = run_pass(&mut hashes, 850, &["a", "B", "c"], |_| true);
    assert_eq!(report, "Checked 3 blocks, updated 1 blocks, synced 400 players out of 850");
    assert_eq!(visited, (400..800).collect::<Vec<_>>());
    let (report, _) = run_pass(&mut hashes, 0, &[], |_| true);
    assert_eq!(report, "Checked 0 blocks, updated 0 blocks, synced 0 players out of 0");
}

#[test]
fn player_sync_begins_only_on_a_changed_file() {
    let contents = b"{\"stats\":{}}".to_vec();
    let digest = blake3::hash(&contents).to_hex().to_string();
    assert!(begin_player_sync("u1", None, None).is_none());
    assert!(begin_player_sync("u1", Some(contents.clone()), Some(&digest)).is_none());
    let sync = begin_player_sync("u1", Some(contents.clone()), Some(&"old".to_string())).unwrap();
    assert_eq!(sync.uuid, "u1");
    assert_eq!(sync.digest, digest);
    assert_eq!(sync.finish(true), Some(("u1".to_string(), digest.clone())));
    let sync = begin_player_sync("u1", Some(contents), None).unwrap();
    assert_eq!(sync.finish(false), None);
}
