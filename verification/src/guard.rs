//! Protection of the website chat: hCaptcha gating, per-player rate limits
//! with escalating cool-downs, and blocking of links.
use vstd::prelude::*;
use crate::chat::{is_error, ApiError, BAD_REQUEST, FORBIDDEN, UNAUTHORIZED};
use crate::numtext::{parse_i64, parse_i64_spec};
use crate::text::{
    ascii_lowercase, ascii_lowercase_chars, chars_of, contains_chars, contains_seq, str_equal,
    string_from_chars, sub_chars, trim, trim_chars,
};

verus! {

// ---------------------------------------------------------------------------
// Settings
// ---------------------------------------------------------------------------

/// How the website chat is protected.
pub struct ChatGuardConfig {
    pub hcaptcha_enabled: bool,
    pub rate_limit_enabled: bool,
    /// Length of the window in which messages are counted.
    pub rate_window_seconds: i64,
    /// Messages allowed per window.
    pub rate_max_messages: u64,
    /// Cool-down after a first violation.
    pub short_limit_seconds: i64,
    /// Cool-down once violations reach `long_after_violations`.
    pub long_limit_seconds: i64,
    pub long_after_violations: u64,
    /// Quiet time after which past violations are forgotten.
    pub violation_reset_seconds: i64,
    pub allow_links: bool,
    /// Lowercase fragments that mark a link.
    pub blocked_link_patterns: Vec<String>,
}

/// The largest number of seconds a setting may hold.
pub open spec fn max_setting() -> int {
    0x10000000000
}

/// Settings within range: durations from 0 to 2^40 seconds.
pub open spec fn settings_in_range(c: ChatGuardConfig) -> bool {
    &&& 0 <= c.rate_window_seconds <= max_setting()
    &&& 0 <= c.short_limit_seconds <= max_setting()
    &&& 0 <= c.long_limit_seconds <= max_setting()
    &&& 0 <= c.violation_reset_seconds <= max_setting()
}

pub open spec fn flag_value(value: Option<&str>, default: bool) -> bool {
    match value {
        Some(v) => if v@ == "true"@ {
            true
        } else if v@ == "false"@ {
            false
        } else {
            default
        },
        None => default,
    }
}

pub open spec fn number_value(value: Option<&str>, default: i64) -> i64 {
    match value {
        Some(v) => match parse_i64_spec(v@) {
            Some(n) => if 0 <= n <= max_setting() {
                n
            } else {
                default
            },
            None => default,
        },
        None => default,
    }
}

/// A switch is on for exactly `true` and off for exactly `false`; anything
/// else, or no value, keeps the default. A duration or count is a decimal
/// number from 0 to 2^40; anything else, or no value, keeps the default.
pub proof fn settings_read_exact_values(value: Option<&str>, flag: bool, number: i64)
    ensures
        (value matches Some(v) && v@ == "true"@) ==> flag_value(value, flag),
        (value matches Some(v) && v@ == "false"@) ==> !flag_value(value, flag),
        !(value matches Some(v) && (v@ == "true"@ || v@ == "false"@)) ==> flag_value(value, flag)
            == flag,
        (value matches Some(v) && parse_i64_spec(v@) matches Some(n) && 0 <= n <= 0x100_0000_0000)
            ==> number_value(value, number) == parse_i64_spec(value->0@)->0,
        !(value matches Some(v) && parse_i64_spec(v@) matches Some(n) && 0 <= n <= 0x100_0000_0000)
            ==> number_value(value, number) == number,
{
    reveal_strlit("true");
    reveal_strlit("false");
    assert("true"@.len() != "false"@.len());
}

/// A switch setting: `true` or `false`, else the default.
pub fn flag_setting(value: Option<&str>, default: bool) -> (r: bool)
    ensures
        r == flag_value(value, default),
{
    match value {
        Some(v) => if str_equal(v, "true") {
            true
        } else if str_equal(v, "false") {
            false
        } else {
            default
        },
        None => default,
    }
}

/// A duration or count setting: a whole number from 0 to 2^40, else the default.
pub fn number_setting(value: Option<&str>, default: i64) -> (r: i64)
    requires
        0 <= default <= max_setting(),
    ensures
        r == number_value(value, default),
        0 <= r <= max_setting(),
{
    match value {
        Some(v) => match parse_i64(v) {
            Some(n) => if 0 <= n && n <= 0x10000000000 {
                n
            } else {
                default
            },
            None => default,
        },
        None => default,
    }
}

/// The comma-separated pieces of `s`, trimmed and ASCII-lowercased, empty
/// pieces dropped.
pub open spec fn pattern_list(s: Seq<char>) -> Seq<Seq<char>>
    decreases s.len(),
{
    if s.len() == 0 {
        Seq::empty()
    } else {
        let cut = last_comma(s);
        let head = if cut < 0 {
            Seq::<char>::empty()
        } else {
            s.subrange(0, cut)
        };
        let piece = ascii_lowercase(trim(s.subrange(cut + 1, s.len() as int)));
        let earlier = if cut < 0 {
            Seq::<Seq<char>>::empty()
        } else {
            proof {
                lemma_last_comma(s);
            }
            pattern_list(head)
        };
        if piece.len() == 0 {
            earlier
        } else {
            earlier.push(piece)
        }
    }
}

/// The position of the last comma in `s`, or -1.
pub open spec fn last_comma(s: Seq<char>) -> int
    decreases s.len(),
{
    if s.len() == 0 {
        -1
    } else if s.last() == ',' {
        s.len() - 1
    } else {
        last_comma(s.drop_last())
    }
}

pub proof fn lemma_last_comma(s: Seq<char>)
    ensures
        -1 <= last_comma(s) < s.len(),
        last_comma(s) >= 0 ==> s[last_comma(s)] == ',',
        forall|k: int| last_comma(s) < k < s.len() ==> s[k] != ',',
    decreases s.len(),
{
    if s.len() > 0 && s.last() != ',' {
        lemma_last_comma(s.drop_last());
        assert forall|k: int| last_comma(s) < k < s.len() implies s[k] != ',' by {
            if k < s.len() - 1 {
                assert(s[k] == s.drop_last()[k]);
            }
        }
    }
}

/// A piece of the pattern setting as it is kept: trimmed and lowercased.
pub open spec fn pattern_piece(b: Seq<char>) -> Seq<char> {
    ascii_lowercase(trim(b))
}

proof fn lemma_last_comma_after(a: Seq<char>, b: Seq<char>)
    requires
        forall|i: int| 0 <= i < b.len() ==> #[trigger] b[i] != ',',
    ensures
        last_comma(a.push(',') + b) == a.len(),
    decreases b.len(),
{
    let s = a.push(',') + b;
    if b.len() == 0 {
        assert(s =~= a.push(','));
    } else {
        assert(s.last() == b.last());
        assert(s.drop_last() =~= a.push(',') + b.drop_last());
        lemma_last_comma_after(a, b.drop_last());
    }
}

proof fn lemma_last_comma_none(b: Seq<char>)
    requires
        forall|i: int| 0 <= i < b.len() ==> #[trigger] b[i] != ',',
    ensures
        last_comma(b) == -1,
    decreases b.len(),
{
    if b.len() > 0 {
        assert(b.last() == b[b.len() - 1]);
        lemma_last_comma_none(b.drop_last());
    }
}

/// The pattern list of a setting that ends in `,` and a comma-free piece.
proof fn lemma_pattern_list_step(a: Seq<char>, b: Seq<char>)
    requires
        forall|i: int| 0 <= i < b.len() ==> #[trigger] b[i] != ',',
    ensures
        pattern_list(a.push(',') + b) == if pattern_piece(b).len() == 0 {
            pattern_list(a)
        } else {
            pattern_list(a).push(pattern_piece(b))
        },
{
    let s = a.push(',') + b;
    lemma_last_comma_after(a, b);
    assert(s.subrange(0, a.len() as int) =~= a);
    assert(s.subrange(a.len() as int + 1, s.len() as int) =~= b);
}

/// The pattern list of a comma-free setting.
proof fn lemma_pattern_list_single(b: Seq<char>)
    requires
        forall|i: int| 0 <= i < b.len() ==> #[trigger] b[i] != ',',
    ensures
        pattern_list(b) == if pattern_piece(b).len() == 0 {
            Seq::<Seq<char>>::empty()
        } else {
            seq![pattern_piece(b)]
        },
{
    if b.len() > 0 {
        lemma_last_comma_none(b);
        assert(b.subrange(0, b.len() as int) =~= b);
    } else {
        assert(trim(b).len() == 0);
    }
}

/// A piece with no whitespace at its ends and no uppercase letter is kept as written.
proof fn lemma_piece_kept(b: Seq<char>)
    requires
        b.len() > 0,
        !crate::text::is_white_space(b[0]),
        !crate::text::is_white_space(b.last()),
        forall|i: int| 0 <= i < b.len() ==> !crate::text::is_ascii_upper(#[trigger] b[i]),
    ensures
        pattern_piece(b) == b,
{
    crate::text::lemma_trim_fixed(b);
    assert(ascii_lowercase(b) =~= b);
}

/// Characters of a link fragment as the defaults write them.
pub open spec fn is_fragment_char(c: char) -> bool {
    ('a' <= c <= 'z') || c == '.' || c == ':' || c == '/'
}

/// The piece `b` after the setting `a` adds `b` itself to `a`'s patterns.
proof fn lemma_fragment_step(a: Seq<char>, b: Seq<char>)
    requires
        b.len() > 0,
        forall|i: int| 0 <= i < b.len() ==> is_fragment_char(#[trigger] b[i]),
    ensures
        pattern_list(a.push(',') + b) == pattern_list(a).push(b),
{
    assert(is_fragment_char(b[0]) && is_fragment_char(b.last()));
    lemma_piece_kept(b);
    lemma_pattern_list_step(a, b);
}

/// The default setting lists its ten fragments, in order.
pub proof fn default_link_patterns_listed()
    ensures
        pattern_list(default_link_patterns()) == seq![
            "http://"@,
            "https://"@,
            "www."@,
            "discord.gg"@,
            ".com"@,
            ".net"@,
            ".org"@,
            ".me"@,
            ".gg"@,
            ".io"@,
        ],
{
    reveal_strlit("http://,https://,www.,discord.gg,.com,.net,.org,.me,.gg,.io");
    reveal_strlit("http://");
    reveal_strlit("https://");
    reveal_strlit("www.");
    reveal_strlit("discord.gg");
    reveal_strlit(".com");
    reveal_strlit(".net");
    reveal_strlit(".org");
    reveal_strlit(".me");
    reveal_strlit(".gg");
    reveal_strlit(".io");
    let p1 = "http://"@;
    let d2 = p1.push(',') + "https://"@;
    let d3 = d2.push(',') + "www."@;
    let d4 = d3.push(',') + "discord.gg"@;
    let d5 = d4.push(',') + ".com"@;
    let d6 = d5.push(',') + ".net"@;
    let d7 = d6.push(',') + ".org"@;
    let d8 = d7.push(',') + ".me"@;
    let d9 = d8.push(',') + ".gg"@;
    let d10 = d9.push(',') + ".io"@;
    assert(default_link_patterns() =~= d10);
    assert(is_fragment_char(p1[0]) && is_fragment_char(p1.last()));
    lemma_piece_kept(p1);
    lemma_pattern_list_single(p1);
    lemma_fragment_step(p1, "https://"@);
    lemma_fragment_step(d2, "www."@);
    lemma_fragment_step(d3, "discord.gg"@);
    lemma_fragment_step(d4, ".com"@);
    lemma_fragment_step(d5, ".net"@);
    lemma_fragment_step(d6, ".org"@);
    lemma_fragment_step(d7, ".me"@);
    lemma_fragment_step(d8, ".gg"@);
    lemma_fragment_step(d9, ".io"@);
    assert(pattern_list(d10) =~= seq![
        "http://"@,
        "https://"@,
        "www."@,
        "discord.gg"@,
        ".com"@,
        ".net"@,
        ".org"@,
        ".me"@,
        ".gg"@,
        ".io"@,
    ]);
}

pub open spec fn texts(v: Seq<String>) -> Seq<Seq<char>> {
    v.map_values(|s: String| s@)
}

/// The blocked link patterns from a comma-separated setting.
pub fn pattern_setting(value: &str) -> (r: Vec<String>)
    ensures
        texts(r@) == pattern_list(value@),
{
    let v = chars_of(value);
    let r = patterns_of(&v, v.len());
    assert(v@.subrange(0, v.len() as int) =~= v@);
    r
}

fn patterns_of(v: &Vec<char>, end: usize) -> (r: Vec<String>)
    requires
        end <= v.len(),
    ensures
        texts(r@) == pattern_list(v@.subrange(0, end as int)),
    decreases end,
{
    let ghost s = v@.subrange(0, end as int);
    if end == 0 {
        let e: Vec<String> = Vec::new();
        assert(texts(e@) =~= pattern_list(s));
        return e;
    }
    let mut j: usize = end;
    while j > 0 && v[j - 1] != ','
        invariant
            j <= end <= v.len(),
            s == v@.subrange(0, end as int),
            last_comma(s) == last_comma(v@.subrange(0, j as int)),
            forall|k: int| j <= k < end ==> v@[k] != ',',
        decreases j,
    {
        assert(v@.subrange(0, j as int).drop_last() =~= v@.subrange(0, j - 1));
        j = j - 1;
    }
    proof {
        if j > 0 {
            assert(v@.subrange(0, j as int).last() == ',');
        }
        assert(last_comma(s) == j - 1);
    }
    let piece_raw = sub_chars(v, j, end);
    let piece_trim = trim_chars(&piece_raw);
    let piece = ascii_lowercase_chars(&piece_trim);
    proof {
        assert(piece_raw@ =~= s.subrange(j as int, s.len() as int));
    }
    let mut earlier = if j == 0 {
        Vec::new()
    } else {
        let e = patterns_of(v, j - 1);
        proof {
            assert(v@.subrange(0, j - 1) =~= s.subrange(0, j - 1));
        }
        e
    };
    let ghost before = earlier@;
    if piece.len() > 0 {
        earlier.push(string_from_chars(&piece));
        assert(texts(earlier@) =~= texts(before).push(piece@));
    }
    earlier
}

/// The link fragments blocked when no list is configured.
pub open spec fn default_link_patterns() -> Seq<char> {
    "http://,https://,www.,discord.gg,.com,.net,.org,.me,.gg,.io"@
}

/// The settings from their environment values, with the documented defaults:
/// captchas off unless enabled, rate limits on (5 messages per 10 s, a 60 s
/// cool-down, 600 s from the second violation, violations forgotten after an
/// hour), links blocked.
pub fn guard_config(
    hcaptcha_enabled: Option<&str>,
    rate_limit_enabled: Option<&str>,
    window_seconds: Option<&str>,
    max_messages: Option<&str>,
    short_limit_seconds: Option<&str>,
    long_limit_seconds: Option<&str>,
    long_after_violations: Option<&str>,
    violation_reset_seconds: Option<&str>,
    allow_links: Option<&str>,
    blocked_link_patterns: Option<&str>,
) -> (r: ChatGuardConfig)
    ensures
        settings_in_range(r),
        r.hcaptcha_enabled == flag_value(hcaptcha_enabled, false),
        r.rate_limit_enabled == flag_value(rate_limit_enabled, true),
        r.rate_window_seconds == number_value(window_seconds, 10),
        r.rate_max_messages == number_value(max_messages, 5),
        r.short_limit_seconds == number_value(short_limit_seconds, 60),
        r.long_limit_seconds == number_value(long_limit_seconds, 600),
        r.long_after_violations == number_value(long_after_violations, 2),
        r.violation_reset_seconds == number_value(violation_reset_seconds, 3600),
        r.allow_links == flag_value(allow_links, false),
        texts(r.blocked_link_patterns@) == pattern_list(
            match blocked_link_patterns {
                Some(p) => p@,
                None => default_link_patterns(),
            },
        ),
{
    let patterns = match blocked_link_patterns {
        Some(p) => pattern_setting(p),
        None => pattern_setting("http://,https://,www.,discord.gg,.com,.net,.org,.me,.gg,.io"),
    };
    ChatGuardConfig {
        hcaptcha_enabled: flag_setting(hcaptcha_enabled, false),
        rate_limit_enabled: flag_setting(rate_limit_enabled, true),
        rate_window_seconds: number_setting(window_seconds, 10),
        rate_max_messages: number_setting(max_messages, 5) as u64,
        short_limit_seconds: number_setting(short_limit_seconds, 60),
        long_limit_seconds: number_setting(long_limit_seconds, 600),
        long_after_violations: number_setting(long_after_violations, 2) as u64,
        violation_reset_seconds: number_setting(violation_reset_seconds, 3600),
        allow_links: flag_setting(allow_links, false),
        blocked_link_patterns: patterns,
    }
}

// ---------------------------------------------------------------------------
// hCaptcha
// ---------------------------------------------------------------------------

/// What a request needs before the captcha service is asked: nothing when
/// captchas are off, otherwise a token (401 without one).
pub fn captcha_token(enabled: bool, token: Option<&str>) -> (r: Result<Option<String>, ApiError>)
    ensures
        !enabled ==> r == Ok::<Option<String>, ApiError>(None),
        enabled && token is None ==> is_error(r, UNAUTHORIZED, "Captcha verification required"@),
        enabled && token is Some ==> (r matches Ok(Some(t)) && t@ == token->0@),
{
    if !enabled {
        return Ok(None);
    }
    match token {
        Some(t) => Ok(Some(t.to_string())),
        None => Err(ApiError::unauthorized("Captcha verification required")),
    }
}

/// The captcha service's verdict on a token: anything but a confirmed success
/// is refused with 403.
pub fn captcha_verdict(verified: bool) -> (r: Result<(), ApiError>)
    ensures
        verified ==> r is Ok,
        !verified ==> is_error(r, FORBIDDEN, "Captcha verification failed"@),
{
    if verified {
        Ok(())
    } else {
        Err(ApiError::forbidden("Captcha verification failed"))
    }
}

// ---------------------------------------------------------------------------
// Links
// ---------------------------------------------------------------------------

/// Whether the message, ignoring ASCII case, contains one of the patterns.
pub open spec fn has_blocked_link(message: Seq<char>, patterns: Seq<Seq<char>>) -> bool {
    exists|i: int| 0 <= i < patterns.len() && contains_seq(ascii_lowercase(message), patterns[i])
}

/// Website messages with a link are refused unless links are allowed.
pub fn check_links(c: &ChatGuardConfig, message: &str) -> (r: Result<(), ApiError>)
    ensures
        !c.allow_links && has_blocked_link(message@, texts(c.blocked_link_patterns@)) ==> is_error(
            r,
            BAD_REQUEST,
            "Links are not allowed in chat"@,
        ),
        r is Ok <==> c.allow_links || !has_blocked_link(
            message@,
            texts(c.blocked_link_patterns@),
        ),
{
    if c.allow_links {
        return Ok(());
    }
    let m = chars_of(message);
    let lower = ascii_lowercase_chars(&m);
    let mut i: usize = 0;
    while i < c.blocked_link_patterns.len()
        invariant
            i <= c.blocked_link_patterns@.len(),
            !c.allow_links,
            lower@ == ascii_lowercase(message@),
            forall|k: int|
                0 <= k < i ==> !contains_seq(lower@, #[trigger] texts(c.blocked_link_patterns@)[k]),
        decreases c.blocked_link_patterns@.len() - i,
    {
        let p = chars_of(c.blocked_link_patterns[i].as_str());
        if contains_chars(&lower, &p) {
            assert(texts(c.blocked_link_patterns@)[i as int] == p@);
            assert(contains_seq(
                ascii_lowercase(message@),
                texts(c.blocked_link_patterns@)[i as int],
            ));
            assert(has_blocked_link(message@, texts(c.blocked_link_patterns@)));
            return Err(ApiError::bad_request("Links are not allowed in chat"));
        }
        i = i + 1;
    }
    Ok(())
}

/// Links are blocked by default: with the default pattern setting, a website
/// message is refused exactly when, ignoring ASCII case, it contains
/// `http://`, `https://`, `www.`, `discord.gg`, `.com`, `.net`, `.org`, `.me`,
/// `.gg` or `.io`.
pub proof fn links_blocked_by_default(c: ChatGuardConfig, message: Seq<char>)
    requires
        !c.allow_links,
        texts(c.blocked_link_patterns@) == pattern_list(default_link_patterns()),
    ensures
        has_blocked_link(message, texts(c.blocked_link_patterns@)) <==> {
            let m = ascii_lowercase(message);
            ||| contains_seq(m, "http://"@)
            ||| contains_seq(m, "https://"@)
            ||| contains_seq(m, "www."@)
            ||| contains_seq(m, "discord.gg"@)
            ||| contains_seq(m, ".com"@)
            ||| contains_seq(m, ".net"@)
            ||| contains_seq(m, ".org"@)
            ||| contains_seq(m, ".me"@)
            ||| contains_seq(m, ".gg"@)
            ||| contains_seq(m, ".io"@)
        },
{
    default_link_patterns_listed();
    let p = texts(c.blocked_link_patterns@);
    let m = ascii_lowercase(message);
    assert(p[0] == "http://"@ && p[1] == "https://"@ && p[2] == "www."@ && p[3] == "discord.gg"@);
    assert(p[4] == ".com"@ && p[5] == ".net"@ && p[6] == ".org"@ && p[7] == ".me"@);
    assert(p[8] == ".gg"@ && p[9] == ".io"@ && p.len() == 10);
    if has_blocked_link(message, p) {
        let i = choose|i: int| 0 <= i < p.len() && contains_seq(m, p[i]);
        assert(0 <= i < 10);
    }
}

// ---------------------------------------------------------------------------
// Rate limits
// ---------------------------------------------------------------------------

/// What the limiter remembers of one player.
pub struct SpamRecord {
    /// When the accepted messages still inside the window were sent.
    pub recent: Vec<i64>,
    /// Violations since the last quiet period.
    pub violations: u64,
    pub last_violation: i64,
    /// Messages are refused before this time.
    pub limited_until: i64,
}

/// A player with no history.
pub fn fresh_record() -> (r: SpamRecord)
    ensures
        r.recent@.len() == 0,
        r.violations == 0,
        r.last_violation == 0,
        r.limited_until == 0,
{
    SpamRecord { recent: Vec::new(), violations: 0, last_violation: 0, limited_until: 0 }
}

/// The limiter's answer to one message.
pub enum RateDecision {
    Accept,
    /// Refused; the player may write again after this many seconds.
    Limited { retry_after: i64 },
}

/// The times still inside the window ending at `now`.
pub open spec fn in_window(times: Seq<i64>, now: i64, window: i64) -> Seq<i64> {
    times.filter(|t: i64| now - t < window)
}

/// The window keeps exactly the times less than the window
/// length before `now`.
pub proof fn window_keeps_recent_times(times: Seq<i64>, now: i64, window: i64)
    ensures
        forall|k: int|
            0 <= k < in_window(times, now, window).len() ==> now - #[trigger] in_window(
                times,
                now,
                window,
            )[k] < window,
        forall|i: int|
            0 <= i < times.len() && now - times[i] < window ==> in_window(times, now, window).contains(
                #[trigger] times[i],
            ),
        forall|i: int|
            0 <= i < times.len() && now - times[i] >= window ==> !in_window(
                times,
                now,
                window,
            ).contains(#[trigger] times[i]),
{
    let pred = |t: i64| now - t < window;
    assert forall|k: int| 0 <= k < in_window(times, now, window).len() implies now
        - #[trigger] in_window(times, now, window)[k] < window by {
        times.lemma_filter_pred(pred, k);
    }
    assert forall|i: int| 0 <= i < times.len() && now - times[i] < window implies in_window(
        times,
        now,
        window,
    ).contains(#[trigger] times[i]) by {
        times.filter_lemma(pred);
    }
    assert forall|i: int| 0 <= i < times.len() && now - times[i] >= window implies !in_window(
        times,
        now,
        window,
    ).contains(#[trigger] times[i]) by {
        let w = in_window(times, now, window);
        if w.contains(times[i]) {
            let k = choose|k: int| 0 <= k < w.len() && w[k] == times[i];
            times.lemma_filter_pred(pred, k);
        }
    }
}

/// Violations counted at `now`: forgotten after a quiet period.
pub open spec fn live_violations(r: SpamRecord, now: i64, reset: i64) -> u64 {
    if r.violations > 0 && now - r.last_violation >= reset {
        0
    } else {
        r.violations
    }
}

/// The violation count after one more violation; counting stops at the count
/// that brings the long cool-down, since more changes nothing.
pub open spec fn next_violations(c: ChatGuardConfig, v: u64) -> u64 {
    if v >= c.long_after_violations {
        v
    } else {
        (v + 1) as u64
    }
}

/// The cool-down for the `n`-th violation.
pub open spec fn cooldown(c: ChatGuardConfig, n: u64) -> i64 {
    if n >= c.long_after_violations {
        c.long_limit_seconds
    } else {
        c.short_limit_seconds
    }
}

/// Times the limiter can hold: 0 to 2^62 seconds.
pub open spec fn time_in_range(t: i64) -> bool {
    0 <= t <= 0x4000000000000000
}

/// A record the limiter can have made.
pub open spec fn record_in_range(r: SpamRecord) -> bool {
    &&& r.limited_until <= 0x4000000000000000 + 0x10000000000
    &&& time_in_range(r.last_violation)
    &&& forall|i: int| 0 <= i < r.recent@.len() ==> time_in_range(#[trigger] r.recent@[i])
}

/// The limiter's step for a message from a player at `now`: during a
/// cool-down everything is refused and nothing changes; otherwise messages
/// older than the window are forgotten, and a message that would exceed the
/// allowance is refused with a cool-down (short for early violations, long
/// once they reach the configured count), else it is accepted and counted.
pub open spec fn rate_transition(c: ChatGuardConfig, r: SpamRecord, now: i64) -> (
    Seq<i64>,
    u64,
    i64,
    i64,
    RateDecision,
) {
    if !c.rate_limit_enabled {
        (r.recent@, r.violations, r.last_violation, r.limited_until, RateDecision::Accept)
    } else if now < r.limited_until {
        (
            r.recent@,
            r.violations,
            r.last_violation,
            r.limited_until,
            RateDecision::Limited { retry_after: (r.limited_until - now) as i64 },
        )
    } else {
        let recent = in_window(r.recent@, now, c.rate_window_seconds);
        let v = live_violations(r, now, c.violation_reset_seconds);
        if recent.len() >= c.rate_max_messages {
            let n = next_violations(c, v);
            let limit = cooldown(c, n);
            (recent, n, now, (now + limit) as i64, RateDecision::Limited { retry_after: limit })
        } else {
            (recent.push(now), v, r.last_violation, r.limited_until, RateDecision::Accept)
        }
    }
}

/// Applies the limiter to one message, updating the player's record.
pub fn rate_check(c: &ChatGuardConfig, record: &mut SpamRecord, now: i64) -> (d: RateDecision)
    requires
        settings_in_range(*c),
        time_in_range(now),
        record_in_range(*old(record)),
    ensures
        ({
            let t = rate_transition(*c, *old(record), now);
            &&& final(record).recent@ == t.0
            &&& final(record).violations == t.1
            &&& final(record).last_violation == t.2
            &&& final(record).limited_until == t.3
            &&& d == t.4
        }),
        record_in_range(*final(record)),
{
    if !c.rate_limit_enabled {
        return RateDecision::Accept;
    }
    if now < record.limited_until {
        return RateDecision::Limited { retry_after: record.limited_until - now };
    }
    let ghost old_times = record.recent@;
    let mut kept: Vec<i64> = Vec::new();
    let mut i: usize = 0;
    while i < record.recent.len()
        invariant
            i <= record.recent@.len(),
            record.recent@ == old_times,
            time_in_range(now),
            settings_in_range(*c),
            forall|k: int| 0 <= k < old_times.len() ==> time_in_range(#[trigger] old_times[k]),
            kept@ == in_window(old_times.take(i as int), now, c.rate_window_seconds),
            forall|k: int| 0 <= k < kept@.len() ==> time_in_range(#[trigger] kept@[k]),
        decreases record.recent@.len() - i,
    {
        let t = record.recent[i];
        proof {
            reveal_with_fuel(Seq::<_>::filter, 1);
            assert(old_times.take(i + 1).drop_last() =~= old_times.take(i as int));
            assert(time_in_range(old_times[i as int]));
        }
        if now - t < c.rate_window_seconds {
            kept.push(t);
        }
        i = i + 1;
    }
    assert(old_times.take(old_times.len() as int) =~= old_times);
    let v = if record.violations > 0 && now - record.last_violation >= c.violation_reset_seconds {
        0
    } else {
        record.violations
    };
    if kept.len() as u64 >= c.rate_max_messages {
        let n = if v >= c.long_after_violations {
            v
        } else {
            v + 1
        };
        let limit = if n >= c.long_after_violations {
            c.long_limit_seconds
        } else {
            c.short_limit_seconds
        };
        record.recent = kept;
        record.violations = n;
        record.last_violation = now;
        record.limited_until = now + limit;
        RateDecision::Limited { retry_after: limit }
    } else {
        kept.push(now);
        record.recent = kept;
        record.violations = v;
        RateDecision::Accept
    }
}

/// The refusal a rate-limited message gets.
pub fn rate_limited_error(retry_after: i64) -> (r: ApiError)
    ensures
        r.status == 429,
        r.message@ == "You are sending messages too quickly. Try again later."@,
{
    ApiError::new(429, "You are sending messages too quickly. Try again later.")
}

/// Laws of the limiter. During a cool-down every message is refused and the
/// record is left as it was. An accepted message leaves at most the allowed
/// number of messages inside the window, all of them no older than the
/// window. A refusal for spam starts a cool-down from `now`: the short one for
/// a first violation (when more than one violation is needed for the long
/// one), the long one once the violations reach the configured count; a
/// violation after a quiet period counts as the first again.
pub proof fn rate_limit_laws(c: ChatGuardConfig, r: SpamRecord, now: i64)
    requires
        c.rate_limit_enabled,
        settings_in_range(c),
        time_in_range(now),
    ensures
        ({
            let t = rate_transition(c, r, now);
            &&& now < r.limited_until ==> t.4 is Limited && t.0 == r.recent@ && t.1
                == r.violations && t.3 == r.limited_until
            &&& t.4 is Accept ==> t.0.len() <= c.rate_max_messages && forall|k: int|
                0 <= k < t.0.len() ==> now - #[trigger] t.0[k] < c.rate_window_seconds || t.0[k]
                    == now
            &&& (now >= r.limited_until && t.4 is Limited) ==> t.3 == now + cooldown(c, t.1)
                && t.2 == now
            &&& (now >= r.limited_until && t.4 is Limited && live_violations(
                r,
                now,
                c.violation_reset_seconds,
            ) == 0 && c.long_after_violations >= 2) ==> t.3 == now + c.short_limit_seconds
            &&& (now >= r.limited_until && t.4 is Limited && live_violations(
                r,
                now,
                c.violation_reset_seconds,
            ) + 1 >= c.long_after_violations) ==> t.3 == now + c.long_limit_seconds
            &&& (now >= r.limited_until && t.4 is Limited && c.long_after_violations >= 1)
                ==> t.1 >= 1
        }),
{
    let t = rate_transition(c, r, now);
    if now >= r.limited_until {
        let pred = |x: i64| now - x < c.rate_window_seconds;
        let recent = r.recent@.filter(pred);
        if t.4 is Accept {
            assert forall|k: int| 0 <= k < t.0.len() implies now - #[trigger] t.0[k]
                < c.rate_window_seconds || t.0[k] == now by {
                if k < recent.len() {
                    assert(t.0[k] == recent[k]);
                    r.recent@.lemma_filter_pred(pred, k);
                }
            }
        }
    }
}

} // verus!
