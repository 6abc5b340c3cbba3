use b8t_core::api::{failure, ok, ApiResponse};
use b8t_core::bot::{
    command_failure_reply, command_for, command_guild, find_option, format_metric,
    integer_option, leaderboard_command, leaderboard_reply, leaderboard_request,
    leaderboard_sorts, leaderboard_url, player_url, promo_channels, promo_content,
    promo_interval_secs, stats_command, stats_embed, stats_reply, status_command, status_reply,
    status_url, string_option, title_case, trim_trailing_slash, url_encode, validate_config,
    BotCommand, BotReply, CommandOption, Config, ConfigError, EmbedSpec, LeaderboardEntry,
    OptionKind, OptionValue, PlayerStats, PromoConfig,
};

fn text_of(r: BotReply) -> (String, bool) {
    match r {
        BotReply::Text { content, ephemeral } => (content, ephemeral),
        BotReply::Embed(_) => panic!("expected text"),
    }
}

fn embed_of(r: BotReply) -> EmbedSpec {
    match r {
        BotReply::Embed(e) => e,
        BotReply::Text { .. } => panic!("expected an embed"),
    }
}

fn entry(name: &str, kills: i64) -> LeaderboardEntry {
    LeaderboardEntry {
        name: name.to_string(),
        kills,
        deaths: 2,
        mobs_killed: 1500,
        time_played: 162_000,
        blocks_broken: 2_500_000,
        tnt_used: 4,
        obsidian_mined: 5,
        netherite_mined: 6,
        elytra_used: 7,
        totems_used: 8,
        arrows_shot: 9,
        distance_travelled: 123_456,
    }
}

fn player(kills: i64, deaths: i64) -> PlayerStats {
    PlayerStats {
        uuid: "5b3a39be-24cc-3861-b90a-619502c73562".to_string(),
        name: "MindComplexity".to_string(),
        join_date: 1773928561072,
        last_seen: 0,
        deaths,
        kills,
        mobs_killed: 2,
        blocks_broken: 11,
        time_played: 64328,
        tnt_used: 13,
        arrows_shot: 0,
        items_dropped: 1000,
        distance_travelled: 250,
        obsidian_mined: 0,
        obsidian_placed: 16,
        netherite_mined: 0,
        elytra_used: 0,
        totems_used: 0,
        skin_url: "https://mc-heads.net/avatar/MindComplexity".to_string(),
    }
}

fn config(token: &str, promo_enabled: bool, channels: Vec<u64>) -> Config {
    Config {
        discord_token: token.to_string(),
        guild_id: Some(42),
        tensor_api_url: "https://api.xera.ca//".to_string(),
        promo: PromoConfig {
            enabled: promo_enabled,
            interval_hours: 6,
            shop_url: "https://shop.8b8t.me".to_string(),
            message: "Support 8b8t".to_string(),
            channel_ids: channels,
        },
    }
}

#[test]
fn trailing_slashes() {
    assert_eq!(trim_trailing_slash("https://api.xera.ca/"), "https://api.xera.ca");
    assert_eq!(trim_trailing_slash("https://api.xera.ca///"), "https://api.xera.ca");
    assert_eq!(trim_trailing_slash("https://api.xera.ca"), "https://api.xera.ca");
    assert_eq!(trim_trailing_slash("///"), "");
    for s in ["a//", "/", "x/y/", ""] {
        let once = trim_trailing_slash(s);
        assert_eq!(trim_trailing_slash(&once), once);
        assert!(!once.ends_with('/'));
        assert!(s.starts_with(&once));
    }
}

#[test]
fn title_casing() {
    assert_eq!(title_case("time_played"), "Time Played");
    assert_eq!(title_case("kills"), "Kills");
    assert_eq!(title_case("distance_travelled"), "Distance Travelled");
    assert_eq!(title_case("a__b"), "A  B");
    assert_eq!(title_case("ßtraße"), "SStraße");
    assert_eq!(title_case(""), "");
}

#[test]
fn url_encoding() {
    assert_eq!(url_encode("Notch"), "Notch");
    assert_eq!(url_encode("a b"), "a%20b");
    assert_eq!(url_encode("a/b?c#d"), "a%2Fb%3Fc%23d");
    assert_eq!(url_encode("é"), "%C3%A9");
    assert_eq!(url_encode("A-z_0.9~"), "A-z_0.9~");
    let encoded = url_encode("../../etc passwd/ü?");
    assert!(encoded.chars().all(|c| c.is_ascii_alphanumeric() || "-_.~%".contains(c)));
    assert_eq!(
        player_url("https://api.xera.ca", "some player"),
        "https://api.xera.ca/player/some%20player"
    );
}

#[test]
fn leaderboard_metrics() {
    let e = entry("wqm", 1234);
    assert_eq!(format_metric("kills", &e), "1.2K");
    assert_eq!(format_metric("deaths", &e), "2");
    assert_eq!(format_metric("mobs_killed", &e), "1.5K");
    assert_eq!(format_metric("time_played", &e), "2h 15m");
    assert_eq!(format_metric("blocks_broken", &e), "2.5M");
    assert_eq!(format_metric("distance_travelled", &e), "1.2km");
    assert_eq!(format_metric("totems_used", &e), "8");
    assert_eq!(format_metric("unknown", &e), "1.2K");
}

#[test]
fn configuration_checks() {
    match validate_config(config("real-token", true, vec![1])) {
        Ok(c) => {
            assert_eq!(c.tensor_api_url, "https://api.xera.ca");
            assert_eq!(c.discord_token, "real-token");
            assert_eq!(c.guild_id, Some(42));
            assert_eq!(c.promo.channel_ids, vec![1]);
        },
        Err(_) => panic!("expected a valid configuration"),
    }
    assert!(validate_config(config("real-token", false, vec![])).is_ok());
    for token in ["", "   ", "YOUR_DISCORD_BOT_TOKEN"] {
        match validate_config(config(token, false, vec![])) {
            Err(e) => {
                assert!(matches!(e, ConfigError::MissingToken));
                assert_eq!(e.message(), "discord_token must be configured");
            },
            Ok(_) => panic!("expected a refusal"),
        }
    }
    match validate_config(config("real-token", true, vec![])) {
        Err(e) => {
            assert!(matches!(e, ConfigError::MissingPromoChannels));
            assert_eq!(
                e.message(),
                "promo.channel_ids must contain at least one channel when promo is enabled"
            );
        },
        Ok(_) => panic!("expected a refusal"),
    }
}

#[test]
fn slash_commands() {
    let s = stats_command();
    assert_eq!(s.name, "stats");
    assert_eq!(s.description, "Look up 8b8t player stats");
    assert_eq!(s.options.len(), 1);
    assert!(matches!(s.options[0].kind, OptionKind::String));
    assert_eq!(s.options[0].name, "player");
    assert!(s.options[0].required);

    let l = leaderboard_command();
    assert_eq!(l.name, "leaderboard");
    assert_eq!(l.options.len(), 2);
    assert_eq!(l.options[0].name, "sort");
    assert_eq!(l.options[0].choices, leaderboard_sorts());
    assert_eq!(l.options[0].choices.len(), 12);
    assert_eq!(l.options[0].choices[0], "kills");
    assert_eq!(l.options[0].choices[11], "distance_travelled");
    assert!(matches!(l.options[1].kind, OptionKind::Integer));
    assert_eq!(l.options[1].name, "limit");
    assert!(!l.options[1].required);
    assert_eq!((l.options[1].min_int, l.options[1].max_int), (Some(1), Some(10)));

    let st = status_command();
    assert_eq!(st.name, "status");
    assert!(st.options.is_empty());

    assert_eq!(command_guild(Some(123)), Some(123));
    assert_eq!(command_guild(Some(0)), None);
    assert_eq!(command_guild(None), None);

    assert!(matches!(command_for("stats"), BotCommand::Stats));
    assert!(matches!(command_for("leaderboard"), BotCommand::Leaderboard));
    assert!(matches!(command_for("status"), BotCommand::Status));
    assert!(matches!(command_for("other"), BotCommand::Other));
}

#[test]
fn interaction_options() {
    let opts = vec![
        CommandOption { name: "sort".to_string(), value: OptionValue::Str("deaths".to_string()) },
        CommandOption { name: "limit".to_string(), value: OptionValue::Int(50) },
        CommandOption { name: "sort".to_string(), value: OptionValue::Str("kills".to_string()) },
    ];
    assert!(matches!(find_option(&opts, "sort"), Some(OptionValue::Str(s)) if s == "deaths"));
    assert!(find_option(&opts, "player").is_none());
    assert_eq!(string_option(&OptionValue::Str("x".to_string())), Some("x"));
    assert_eq!(string_option(&OptionValue::Int(1)), None);
    assert_eq!(integer_option(&OptionValue::Int(7)), Some(7));
    assert_eq!(integer_option(&OptionValue::Other), None);

    assert_eq!(leaderboard_request(&opts), ("deaths".to_string(), 10));
    assert_eq!(leaderboard_request(&vec![]), ("kills".to_string(), 5));
    let low = vec![CommandOption { name: "limit".to_string(), value: OptionValue::Int(-4) }];
    assert_eq!(leaderboard_request(&low), ("kills".to_string(), 1));
    let odd = vec![
        CommandOption { name: "sort".to_string(), value: OptionValue::Int(3) },
        CommandOption { name: "limit".to_string(), value: OptionValue::Str("x".to_string()) },
    ];
    assert_eq!(leaderboard_request(&odd), ("kills".to_string(), 5));
}

#[test]
fn stats_embeds() {
    let e = stats_embed(&player(5, 3));
    assert_eq!(e.title, "MindComplexity Stats");
    assert_eq!(e.thumbnail, Some("https://mc-heads.net/avatar/MindComplexity".to_string()));
    assert!(e.description.is_none());
    assert_eq!(e.fields.len(), 15);
    let names: Vec<&str> = e.fields.iter().map(|f| f.name.as_str()).collect();
    assert_eq!(
        names,
        vec![
            "Kills", "Deaths", "K/D", "Time Played", "Blocks Broken", "Distance", "Mob Kills",
            "TNT Used", "Arrows Shot", "Obsidian Mined", "Obsidian Placed", "Netherite Mined",
            "Elytra Used", "Totems Used", "Items Dropped",
        ]
    );
    assert!(e.fields.iter().all(|f| f.inline));
    assert_eq!(e.fields[0].value, "5");
    assert_eq!(e.fields[2].value, format!("{:.2}", 5f64 / 3f64));
    assert_eq!(e.fields[2].value, "1.67");
    assert_eq!(e.fields[3].value, "53m");
    assert_eq!(e.fields[5].value, "2m");
    assert_eq!(e.fields[14].value, "1.0K");
    assert_eq!(
        e.footer,
        Some(
            "UUID: 5b3a39be-24cc-3861-b90a-619502c73562 | Joined: <t:1773928561:d> | Last seen: unknown"
                .to_string()
        )
    );
    assert_eq!(stats_embed(&player(4, 0)).fields[2].value, "∞");
    assert_eq!(stats_embed(&player(0, 0)).fields[2].value, "0");
    for (k, d) in [(1i64, 8i64), (2, 3), (1_000_000, 7), (0, 5), (-3, 2), (i64::MAX, 3)] {
        assert_eq!(stats_embed(&player(k, d)).fields[2].value, format!("{:.2}", k as f64 / d as f64));
    }
}

#[test]
fn stats_replies() {
    let failed: ApiResponse<PlayerStats> = failure("Player not found".to_string());
    assert_eq!(text_of(stats_reply(&failed)), ("Player not found".to_string(), true));
    let odd: ApiResponse<PlayerStats> = ApiResponse { success: false, data: None, error: None };
    assert_eq!(text_of(stats_reply(&odd)), ("Player not found".to_string(), true));
    let empty: ApiResponse<PlayerStats> = ApiResponse { success: true, data: None, error: None };
    assert_eq!(text_of(stats_reply(&empty)), ("Player not found".to_string(), true));
    let found = ok(player(1, 1));
    assert_eq!(embed_of(stats_reply(&found)).title, "MindComplexity Stats");
    assert_eq!(
        text_of(command_failure_reply()),
        ("Something went wrong while contacting the stats API.".to_string(), true)
    );
}

#[test]
fn leaderboard_replies() {
    assert_eq!(
        leaderboard_url("https://api.xera.ca", "kills", 5),
        "https://api.xera.ca/leaderboard?sort=kills&limit=5"
    );
    let failed: ApiResponse<Vec<LeaderboardEntry>> = failure("boom".to_string());
    assert_eq!(text_of(leaderboard_reply("kills", &failed)), ("boom".to_string(), true));
    let odd: ApiResponse<Vec<LeaderboardEntry>> = ApiResponse { success: false, data: None, error: None };
    assert_eq!(text_of(leaderboard_reply("kills", &odd)), ("Leaderboard unavailable".to_string(), true));
    let empty = ok(Vec::<LeaderboardEntry>::new());
    assert_eq!(
        text_of(leaderboard_reply("kills", &empty)),
        ("No leaderboard entries found.".to_string(), true)
    );
    let none: ApiResponse<Vec<LeaderboardEntry>> = ApiResponse { success: true, data: None, error: None };
    assert_eq!(
        text_of(leaderboard_reply("kills", &none)),
        ("No leaderboard entries found.".to_string(), true)
    );
    let full = ok(vec![entry("Alpha", 1234), entry("Beta", 999)]);
    let e = embed_of(leaderboard_reply("time_played", &full));
    assert_eq!(e.title, "8b8t Time Played Leaderboard");
    assert_eq!(
        e.description,
        Some("`#1` **Alpha** - 2h 15m\n`#2` **Beta** - 2h 15m".to_string())
    );
    assert!(e.fields.is_empty());
    let e = embed_of(leaderboard_reply("kills", &full));
    assert_eq!(e.description, Some("`#1` **Alpha** - 1.2K\n`#2` **Beta** - 999".to_string()));
}

#[test]
fn status_replies() {
    assert_eq!(status_url("https://api.xera.ca"), "https://api.xera.ca/health");
    assert_eq!(
        text_of(status_reply("ok", Some("1.2.0"))),
        ("Tensor stats API status: `ok` | version `1.2.0`".to_string(), false)
    );
    assert_eq!(
        text_of(status_reply("ok", None)),
        ("Tensor stats API status: `ok` | version `unknown`".to_string(), false)
    );
}

#[test]
fn promotions() {
    assert_eq!(promo_interval_secs(6), 21_600);
    assert_eq!(promo_interval_secs(0), 3_600);
    assert_eq!(
        promo_content("Support 8b8t at https://shop.8b8t.me", "https://shop.8b8t.me"),
        "Support 8b8t at https://shop.8b8t.me"
    );
    assert_eq!(promo_content("Support 8b8t", "https://shop.8b8t.me"), "Support 8b8t\nhttps://shop.8b8t.me");
    assert_eq!(promo_channels(&vec![0, 5, 0, 7]), vec![5, 7]);
    assert!(promo_channels(&vec![]).is_empty());
}

fn percent_decode(s: &str) -> Vec<u8> {
    let b = s.as_bytes();
    let mut out = Vec::new();
    let mut i: usize = 0;
    while i < b.len() {
        if b[i] == b'%' && i + 2 < b.len() {
            out.push(u8::from_str_radix(std::str::from_utf8(&b[i + 1..i + 3]).unwrap(), 16).unwrap());
            i += 3;
        } else {
            out.push(b[i]);
            i += 1;
        }
    }
    out
}

#[test]
fn url_encoding_decodes_back() {
    for value in ["Notch", "a b/c", "ünïcødé ☃", "%41", "", "~-_."] {
        let encoded = url_encode(value);
        assert_eq!(percent_decode(&encoded), value.as_bytes());
        let expected_len: usize = value
            .bytes()
            .map(|b| if b.is_ascii_alphanumeric() || b"-_.~".contains(&b) { 1 } else { 3 })
            .sum();
        assert_eq!(encoded.len(), expected_len);
    }
}
