//! The Discord stats bot: configuration rules, slash-command definitions,
//! request URLs and the replies built from the stats API's answers.
use vstd::prelude::*;
use vstd::utf8::{encode_utf8, is_ascii_chars, is_ascii_chars_encode_utf8};
use crate::api::ApiResponse;
use crate::binary64::{quotient_fixed, quotient_text};
use crate::display::{
    distance_text, format_distance, format_number, format_time, format_timestamp_ms, number_text,
    time_text, timestamp_text,
};
use crate::numtext::{decimal_of, digits_of, push_i64, push_u64};
use crate::text::{
    chars_of, contains_chars, contains_seq, push_chars, push_str, str_equal, string_from_chars,
    trim, trim_chars, trim_end_char, trim_end_char_chars,
};

verus! {

// ---------------------------------------------------------------------------
// Text helpers
// ---------------------------------------------------------------------------

/// `value` without any trailing `/`.
pub fn trim_trailing_slash(value: &str) -> (r: String)
    ensures
        r@ == trim_end_char(value@, '/'),
{
    let v = chars_of(value);
    let t = trim_end_char_chars(&v, '/');
    string_from_chars(&t)
}

/// What `char::to_uppercase` yields for `c`: its full Unicode uppercase
/// mapping, one to three characters.
pub uninterp spec fn uppercase_mapping(c: char) -> Seq<char>;

/// std `char::to_uppercase`, collected. The contract says only that the result
/// is the uppercase mapping that std computes for `c`; the Unicode tables
/// behind it are not restated here.
#[verifier::external_body]
fn uppercase_of(c: char) -> (s: Vec<char>)
    ensures
        s@ == uppercase_mapping(c),
{
    c.to_uppercase().collect()
}

/// What `title_case` writes for the character at `i`: an underscore becomes a
/// space, a character that starts a word is uppercased.
pub open spec fn title_piece(s: Seq<char>, i: int) -> Seq<char> {
    if s[i] == '_' {
        seq![' ']
    } else if i == 0 || s[i - 1] == '_' {
        uppercase_mapping(s[i])
    } else {
        seq![s[i]]
    }
}

/// `title_case` of the first `n` characters of `s`.
pub open spec fn title_prefix(s: Seq<char>, n: nat) -> Seq<char>
    decreases n,
{
    if n == 0 {
        Seq::empty()
    } else {
        title_prefix(s, (n - 1) as nat) + title_piece(s, n - 1)
    }
}

/// The words of a snake_case name, capitalized and joined with spaces.
pub open spec fn title_case_text(s: Seq<char>) -> Seq<char> {
    title_prefix(s, s.len())
}

proof fn lemma_title_prefix_depends_on_prefix(c: Seq<char>, d: Seq<char>, n: nat)
    requires
        n <= c.len(),
        n <= d.len(),
        c.take(n as int) == d.take(n as int),
    ensures
        title_prefix(c, n) == title_prefix(d, n),
    decreases n,
{
    if n > 0 {
        assert(c.take(n - 1) =~= c.take(n as int).take(n - 1));
        assert(d.take(n - 1) =~= d.take(n as int).take(n - 1));
        lemma_title_prefix_depends_on_prefix(c, d, (n - 1) as nat);
        assert(c[n - 1] == c.take(n as int)[n - 1]);
        assert(d[n - 1] == d.take(n as int)[n - 1]);
        if n >= 2 {
            assert(c[n - 2] == c.take(n as int)[n - 2]);
            assert(d[n - 2] == d.take(n as int)[n - 2]);
        }
    }
}

proof fn lemma_title_after_underscore(a: Seq<char>, b: Seq<char>, k: nat)
    requires
        k <= b.len(),
    ensures
        title_prefix(a + seq!['_'] + b, a.len() + 1 + k) == title_case_text(a) + seq![' ']
            + title_prefix(b, k),
    decreases k,
{
    let c = a + seq!['_'] + b;
    if k == 0 {
        assert(c.take(a.len() as int) =~= a.take(a.len() as int));
        lemma_title_prefix_depends_on_prefix(c, a, a.len());
        assert(c[a.len() as int] == '_');
        assert(title_prefix(b, 0) =~= Seq::<char>::empty());
        assert(title_prefix(c, a.len() + 1) =~= title_case_text(a) + seq![' ']);
    } else {
        lemma_title_after_underscore(a, b, (k - 1) as nat);
        let i: int = a.len() as int + k as int;
        assert(c[i] == b[k - 1]);
        if k >= 2 {
            assert(c[i - 1] == b[k - 2]);
        } else {
            assert(c[i - 1] == '_');
        }
        assert(title_piece(c, i) == title_piece(b, k - 1));
        assert(title_prefix(c, a.len() + 1 + k) =~= title_case_text(a) + seq![' '] + title_prefix(
            b,
            k,
        ));
    }
}

proof fn lemma_title_of_word(s: Seq<char>, n: nat)
    requires
        1 <= n <= s.len(),
        forall|i: int| 0 <= i < s.len() ==> #[trigger] s[i] != '_',
    ensures
        title_prefix(s, n) == uppercase_mapping(s[0]) + s.subrange(1, n as int),
    decreases n,
{
    if n == 1 {
        assert(title_prefix(s, 0) =~= Seq::<char>::empty());
        assert(s.subrange(1, 1) =~= Seq::<char>::empty());
        assert(title_prefix(s, 1) =~= uppercase_mapping(s[0]) + s.subrange(1, 1));
    } else {
        lemma_title_of_word(s, (n - 1) as nat);
        assert(s[n - 1] != '_' && s[n - 2] != '_');
        assert(title_prefix(s, n) =~= uppercase_mapping(s[0]) + s.subrange(1, n as int));
    }
}

/// Title case works word by word: the words between underscores are title-
/// cased on their own and the underscores become spaces; a word keeps all its
/// characters but the first, which is uppercased.
pub proof fn title_case_by_words(a: Seq<char>, b: Seq<char>)
    ensures
        title_case_text(a + seq!['_'] + b) == title_case_text(a) + seq![' '] + title_case_text(b),
        a.len() > 0 && (forall|i: int| 0 <= i < a.len() ==> #[trigger] a[i] != '_')
            ==> title_case_text(a) == uppercase_mapping(a[0]) + a.drop_first(),
{
    lemma_title_after_underscore(a, b, b.len());
    assert((a + seq!['_'] + b).len() == a.len() + 1 + b.len());
    if a.len() > 0 && (forall|i: int| 0 <= i < a.len() ==> #[trigger] a[i] != '_') {
        lemma_title_of_word(a, a.len());
        assert(a.subrange(1, a.len() as int) =~= a.drop_first());
    }
}

/// `time_played` becomes `Time Played`.
pub fn title_case(value: &str) -> (r: String)
    ensures
        r@ == title_case_text(value@),
{
    let v = chars_of(value);
    let mut out: Vec<char> = Vec::new();
    let mut i: usize = 0;
    while i < v.len()
        invariant
            i <= v.len(),
            out@ == title_prefix(v@, i as nat),
        decreases v.len() - i,
    {
        let c = v[i];
        if c == '_' {
            out.push(' ');
        } else if i == 0 || v[i - 1] == '_' {
            let u = uppercase_of(c);
            push_chars(&mut out, &u);
        } else {
            out.push(c);
        }
        i = i + 1;
    }
    assert(v@ == value@);
    string_from_chars(&out)
}

// ---------------------------------------------------------------------------
// URL path segments
// ---------------------------------------------------------------------------

/// Bytes that stand for themselves in a URL: ASCII letters, digits, `-_.~`.
pub open spec fn is_unreserved(b: u8) -> bool {
    (65 <= b <= 90) || (97 <= b <= 122) || (48 <= b <= 57) || b == 45 || b == 95 || b == 46
        || b == 126
}

/// An uppercase hexadecimal digit.
pub open spec fn hex_digit_upper(n: int) -> char {
    if n < 10 {
        (48 + n) as char
    } else {
        (55 + n) as char
    }
}

/// One byte as it appears in the URL.
pub open spec fn encoded_byte(b: u8) -> Seq<char> {
    if is_unreserved(b) {
        seq![b as char]
    } else {
        seq!['%', hex_digit_upper((b / 16) as int), hex_digit_upper((b % 16) as int)]
    }
}

/// A byte string percent-encoded, byte by byte.
pub open spec fn percent_encoded(bytes: Seq<u8>) -> Seq<char>
    decreases bytes.len(),
{
    if bytes.len() == 0 {
        Seq::empty()
    } else {
        percent_encoded(bytes.drop_last()) + encoded_byte(bytes.last())
    }
}

fn hex_upper_char(n: u8) -> (c: char)
    requires
        n < 16,
    ensures
        c == hex_digit_upper(n as int),
{
    if n < 10 {
        crate::text::char_from_ascii(48 + n as u32)
    } else {
        crate::text::char_from_ascii(55 + n as u32)
    }
}

/// Exactly the ASCII letters, digits and `-`, `_`, `.`, `~` stand for
/// themselves; every other byte becomes `%` and its two uppercase hexadecimal
/// digits, high half first.
pub proof fn encoded_byte_rules(b: u8)
    ensures
        (65 <= b <= 90 || 97 <= b <= 122 || 48 <= b <= 57 || b == 45 || b == 95 || b == 46 || b
            == 126) ==> encoded_byte(b) == seq![b as char],
        !(65 <= b <= 90 || 97 <= b <= 122 || 48 <= b <= 57 || b == 45 || b == 95 || b == 46 || b
            == 126) ==> {
            let e = encoded_byte(b);
            &&& e.len() == 3
            &&& e[0] == '%'
            &&& (('0' <= e[1] <= '9') || ('A' <= e[1] <= 'F'))
            &&& (('0' <= e[2] <= '9') || ('A' <= e[2] <= 'F'))
            &&& hex_value(e[1]) == b / 16
            &&& hex_value(e[2]) == b % 16
        },
{
}

/// The UTF-8 bytes of `value`, percent-encoded except for unreserved bytes.
pub fn url_encode(value: &str) -> (r: String)
    ensures
        r@ == percent_encoded(encode_utf8(value@)),
{
    let bytes = value.as_bytes();
    let mut out: Vec<char> = Vec::new();
    let mut i: usize = 0;
    while i < bytes.len()
        invariant
            i <= bytes@.len(),
            out@ == percent_encoded(bytes@.take(i as int)),
        decreases bytes@.len() - i,
    {
        let b = bytes[i];
        proof {
            assert(bytes@.take(i + 1).drop_last() =~= bytes@.take(i as int));
            assert(bytes@.take(i + 1).last() == b);
        }
        let ghost before = out@;
        if (65 <= b && b <= 90) || (97 <= b && b <= 122) || (48 <= b && b <= 57) || b == 45 || b
            == 95 || b == 46 || b == 126 {
            out.push(b as char);
        } else {
            out.push('%');
            out.push(hex_upper_char(b / 16));
            out.push(hex_upper_char(b % 16));
        }
        assert(out@ =~= before + encoded_byte(b));
        i = i + 1;
    }
    assert(bytes@.take(bytes@.len() as int) =~= bytes@);
    string_from_chars(&out)
}

/// A character that may stand in an encoded URL path segment.
pub open spec fn is_url_safe_char(c: char) -> bool {
    ('A' <= c <= 'Z') || ('a' <= c <= 'z') || ('0' <= c <= '9') || c == '-' || c == '_' || c
        == '.' || c == '~' || c == '%'
}

/// A character that `url_encode` leaves as it is.
pub open spec fn is_unreserved_char(c: char) -> bool {
    ('A' <= c <= 'Z') || ('a' <= c <= 'z') || ('0' <= c <= '9') || c == '-' || c == '_' || c
        == '.' || c == '~'
}

proof fn lemma_encoded_byte_safe(b: u8)
    ensures
        forall|i: int| 0 <= i < encoded_byte(b).len() ==> is_url_safe_char(#[trigger] encoded_byte(b)[i]),
{
    let hi = (b / 16) as int;
    let lo = (b % 16) as int;
    assert(0 <= hi < 16 && 0 <= lo < 16);
}

proof fn lemma_percent_encoded_safe(bytes: Seq<u8>)
    ensures
        forall|i: int|
            0 <= i < percent_encoded(bytes).len() ==> is_url_safe_char(
                #[trigger] percent_encoded(bytes)[i],
            ),
    decreases bytes.len(),
{
    if bytes.len() > 0 {
        let prev = percent_encoded(bytes.drop_last());
        let last = encoded_byte(bytes.last());
        lemma_percent_encoded_safe(bytes.drop_last());
        lemma_encoded_byte_safe(bytes.last());
        assert forall|i: int| 0 <= i < percent_encoded(bytes).len() implies is_url_safe_char(
            #[trigger] percent_encoded(bytes)[i],
        ) by {
            if i < prev.len() {
                assert(percent_encoded(bytes)[i] == prev[i]);
            } else {
                assert(percent_encoded(bytes)[i] == last[i - prev.len()]);
            }
        }
    }
}

proof fn lemma_unreserved_bytes_unchanged(s: Seq<char>, bytes: Seq<u8>)
    requires
        s.len() == bytes.len(),
        forall|i: int| 0 <= i < s.len() ==> is_unreserved_char(#[trigger] s[i]),
        forall|i: int| 0 <= i < s.len() ==> #[trigger] bytes[i] == s[i] as u8,
    ensures
        percent_encoded(bytes) == s,
    decreases s.len(),
{
    if s.len() > 0 {
        lemma_unreserved_bytes_unchanged(s.drop_last(), bytes.drop_last());
        let c = s.last();
        let b = bytes.last();
        assert(b == s[s.len() - 1] as u8);
        assert(is_unreserved_char(c));
        assert(is_unreserved(b));
        assert(b as char == c);
        assert(percent_encoded(bytes) =~= s);
    }
}

/// Laws of `url_encode`: its output holds only ASCII letters, digits and
/// `-_.~%`, so an encoded value can never add a path segment, query or
/// fragment to a URL; and a value made of unreserved characters only is
/// left as it is.
pub proof fn url_encode_laws(s: Seq<char>)
    ensures
        forall|i: int|
            0 <= i < percent_encoded(encode_utf8(s)).len() ==> is_url_safe_char(
                #[trigger] percent_encoded(encode_utf8(s))[i],
            ),
        (forall|i: int| 0 <= i < s.len() ==> is_unreserved_char(#[trigger] s[i]))
            ==> percent_encoded(encode_utf8(s)) == s,
{
    lemma_percent_encoded_safe(encode_utf8(s));
    if forall|i: int| 0 <= i < s.len() ==> is_unreserved_char(#[trigger] s[i]) {
        assert(is_ascii_chars(s)) by {
            assert forall|i: int| 0 <= i < s.len() implies '\0' <= #[trigger] s[i] <= '\u{7f}' by {
                assert(is_unreserved_char(s[i]));
            }
        }
        is_ascii_chars_encode_utf8(s);
        lemma_unreserved_bytes_unchanged(s, encode_utf8(s));
    }
}

/// The value of a hexadecimal digit.
pub open spec fn hex_value(c: char) -> int {
    if '0' <= c <= '9' {
        c as int - 48
    } else if 'A' <= c <= 'F' {
        c as int - 55
    } else if 'a' <= c <= 'f' {
        c as int - 87
    } else {
        0
    }
}

/// Percent-decoding: each `%XY` gives the byte `0xXY`, any other character
/// its own code.
pub open spec fn percent_decoded(s: Seq<char>) -> Seq<u8>
    decreases s.len(),
{
    if s.len() == 0 {
        Seq::empty()
    } else if s[0] == '%' && s.len() >= 3 {
        seq![(hex_value(s[1]) * 16 + hex_value(s[2])) as u8] + percent_decoded(
            s.subrange(3, s.len() as int),
        )
    } else {
        seq![s[0] as u8] + percent_decoded(s.drop_first())
    }
}

/// The length of the encoding: one character per unreserved byte, three per
/// other byte.
pub open spec fn encoded_len(bytes: Seq<u8>) -> nat
    decreases bytes.len(),
{
    if bytes.len() == 0 {
        0
    } else {
        encoded_len(bytes.drop_last()) + if is_unreserved(bytes.last()) {
            1nat
        } else {
            3nat
        }
    }
}

proof fn lemma_percent_encoded_front(bytes: Seq<u8>)
    requires
        bytes.len() > 0,
    ensures
        percent_encoded(bytes) == encoded_byte(bytes[0]) + percent_encoded(bytes.drop_first()),
    decreases bytes.len(),
{
    if bytes.len() == 1 {
        assert(bytes.drop_last() =~= Seq::<u8>::empty());
        assert(bytes.drop_first() =~= Seq::<u8>::empty());
        assert(percent_encoded(bytes.drop_last()) == Seq::<char>::empty());
        assert(bytes.last() == bytes[0]);
        assert(percent_encoded(bytes) =~= encoded_byte(bytes[0]));
    } else {
        lemma_percent_encoded_front(bytes.drop_last());
        assert(bytes.drop_last().drop_first() =~= bytes.drop_first().drop_last());
        assert(bytes.drop_first().last() == bytes.last());
        assert(bytes.drop_last()[0] == bytes[0]);
        assert(percent_encoded(bytes) =~= encoded_byte(bytes[0]) + percent_encoded(
            bytes.drop_first(),
        ));
    }
}

proof fn lemma_decode_one(b: u8, rest: Seq<char>)
    ensures
        percent_decoded(encoded_byte(b) + rest) == seq![b] + percent_decoded(rest),
{
    let e = encoded_byte(b);
    let s = e + rest;
    if is_unreserved(b) {
        assert(s[0] == b as char);
        assert(s.drop_first() =~= rest);
        assert((b as char) as u8 == b);
    } else {
        let hi = (b / 16) as int;
        let lo = (b % 16) as int;
        assert(s[0] == '%' && s[1] == hex_digit_upper(hi) && s[2] == hex_digit_upper(lo));
        assert(hex_value(hex_digit_upper(hi)) == hi);
        assert(hex_value(hex_digit_upper(lo)) == lo);
        assert(s.subrange(3, s.len() as int) =~= rest);
        assert(hi * 16 + lo == b);
    }
}

/// Laws of the encoding of bytes: decoding gives the bytes back, and the
/// encoding has one character per unreserved byte and three per other byte.
pub proof fn url_encode_round_trip(bytes: Seq<u8>)
    ensures
        percent_decoded(percent_encoded(bytes)) == bytes,
        percent_encoded(bytes).len() == encoded_len(bytes),
    decreases bytes.len(),
{
    if bytes.len() > 0 {
        url_encode_round_trip(bytes.drop_first());
        url_encode_round_trip(bytes.drop_last());
        lemma_percent_encoded_front(bytes);
        lemma_decode_one(bytes[0], percent_encoded(bytes.drop_first()));
        assert(seq![bytes[0]] + bytes.drop_first() =~= bytes);
    }
}

/// `trim_trailing_slash` leaves no `/` at the end, trimming its result again
/// changes nothing, and what it keeps is the start of the value.
pub proof fn trim_trailing_slash_laws(s: Seq<char>)
    ensures
        trim_end_char(s, '/').len() > 0 ==> trim_end_char(s, '/').last() != '/',
        trim_end_char(trim_end_char(s, '/'), '/') == trim_end_char(s, '/'),
        trim_end_char(s, '/').len() <= s.len(),
        trim_end_char(s, '/') == s.take(trim_end_char(s, '/').len() as int),
    decreases s.len(),
{
    if s.len() > 0 && s.last() == '/' {
        trim_trailing_slash_laws(s.drop_last());
        assert(s.drop_last().take(trim_end_char(s, '/').len() as int) =~= s.take(
            trim_end_char(s, '/').len() as int,
        ));
    } else {
        assert(s.take(s.len() as int) =~= s);
    }
}

// ---------------------------------------------------------------------------
// Leaderboard lines
// ---------------------------------------------------------------------------

/// One row of the stats API's leaderboard, as the bot reads it.
pub struct LeaderboardEntry {
    pub name: String,
    pub kills: i64,
    pub deaths: i64,
    pub mobs_killed: i64,
    pub time_played: i64,
    pub blocks_broken: i64,
    pub tnt_used: i64,
    pub obsidian_mined: i64,
    pub netherite_mined: i64,
    pub elytra_used: i64,
    pub totems_used: i64,
    pub arrows_shot: i64,
    pub distance_travelled: i64,
}

/// The value a leaderboard sorted by `sort` shows for `p`; an unknown metric
/// shows kills.
pub open spec fn metric_text(sort: Seq<char>, p: LeaderboardEntry) -> Seq<char> {
    if sort == "time_played"@ {
        time_text(p.time_played as int)
    } else if sort == "distance_travelled"@ {
        distance_text(p.distance_travelled as int)
    } else if sort == "kills"@ {
        number_text(p.kills as int)
    } else if sort == "deaths"@ {
        number_text(p.deaths as int)
    } else if sort == "mobs_killed"@ {
        number_text(p.mobs_killed as int)
    } else if sort == "blocks_broken"@ {
        number_text(p.blocks_broken as int)
    } else if sort == "tnt_used"@ {
        number_text(p.tnt_used as int)
    } else if sort == "obsidian_mined"@ {
        number_text(p.obsidian_mined as int)
    } else if sort == "netherite_mined"@ {
        number_text(p.netherite_mined as int)
    } else if sort == "elytra_used"@ {
        number_text(p.elytra_used as int)
    } else if sort == "totems_used"@ {
        number_text(p.totems_used as int)
    } else if sort == "arrows_shot"@ {
        number_text(p.arrows_shot as int)
    } else {
        number_text(p.kills as int)
    }
}

/// Each metric a leaderboard can be sorted by shows the player's counter of
/// the same name: play time as hours and minutes, distance in km, m or cm,
/// every other counter as a number; an unknown metric shows kills.
pub proof fn metric_shows_its_own_counter(sort: Seq<char>, p: LeaderboardEntry)
    ensures
        metric_text("kills"@, p) == number_text(p.kills as int),
        metric_text("deaths"@, p) == number_text(p.deaths as int),
        metric_text("mobs_killed"@, p) == number_text(p.mobs_killed as int),
        metric_text("time_played"@, p) == time_text(p.time_played as int),
        metric_text("blocks_broken"@, p) == number_text(p.blocks_broken as int),
        metric_text("tnt_used"@, p) == number_text(p.tnt_used as int),
        metric_text("obsidian_mined"@, p) == number_text(p.obsidian_mined as int),
        metric_text("netherite_mined"@, p) == number_text(p.netherite_mined as int),
        metric_text("elytra_used"@, p) == number_text(p.elytra_used as int),
        metric_text("totems_used"@, p) == number_text(p.totems_used as int),
        metric_text("arrows_shot"@, p) == number_text(p.arrows_shot as int),
        metric_text("distance_travelled"@, p) == distance_text(p.distance_travelled as int),
        !leaderboard_sort_names().contains(sort) ==> metric_text(sort, p) == number_text(
            p.kills as int,
        ),
{
    reveal_strlit("kills");
    reveal_strlit("deaths");
    reveal_strlit("mobs_killed");
    reveal_strlit("time_played");
    reveal_strlit("blocks_broken");
    reveal_strlit("tnt_used");
    reveal_strlit("obsidian_mined");
    reveal_strlit("netherite_mined");
    reveal_strlit("elytra_used");
    reveal_strlit("totems_used");
    reveal_strlit("arrows_shot");
    reveal_strlit("distance_travelled");
    assert("kills"@.len() == 5 && "kills"@[0] == 'k' && "kills"@[1] == 'i');
    assert("deaths"@.len() == 6 && "deaths"@[0] == 'd' && "deaths"@[1] == 'e');
    assert("mobs_killed"@.len() == 11 && "mobs_killed"@[0] == 'm' && "mobs_killed"@[1] == 'o');
    assert("time_played"@.len() == 11 && "time_played"@[0] == 't' && "time_played"@[1] == 'i');
    assert("blocks_broken"@.len() == 13 && "blocks_broken"@[0] == 'b' && "blocks_broken"@[1] == 'l');
    assert("tnt_used"@.len() == 8 && "tnt_used"@[0] == 't' && "tnt_used"@[1] == 'n');
    assert("obsidian_mined"@.len() == 14 && "obsidian_mined"@[0] == 'o' && "obsidian_mined"@[1] == 'b');
    assert("netherite_mined"@.len() == 15 && "netherite_mined"@[0] == 'n' && "netherite_mined"@[1] == 'e');
    assert("elytra_used"@.len() == 11 && "elytra_used"@[0] == 'e' && "elytra_used"@[1] == 'l');
    assert("totems_used"@.len() == 11 && "totems_used"@[0] == 't' && "totems_used"@[1] == 'o');
    assert("arrows_shot"@.len() == 11 && "arrows_shot"@[0] == 'a' && "arrows_shot"@[1] == 'r');
    assert("distance_travelled"@.len() == 18 && "distance_travelled"@[0] == 'd' && "distance_travelled"@[1] == 'i');
    if !leaderboard_sort_names().contains(sort) {
        assert(leaderboard_sort_names()[0] == "kills"@);
        assert(leaderboard_sort_names()[1] == "deaths"@);
        assert(leaderboard_sort_names()[2] == "mobs_killed"@);
        assert(leaderboard_sort_names()[3] == "time_played"@);
        assert(leaderboard_sort_names()[4] == "blocks_broken"@);
        assert(leaderboard_sort_names()[5] == "tnt_used"@);
        assert(leaderboard_sort_names()[6] == "obsidian_mined"@);
        assert(leaderboard_sort_names()[7] == "netherite_mined"@);
        assert(leaderboard_sort_names()[8] == "elytra_used"@);
        assert(leaderboard_sort_names()[9] == "totems_used"@);
        assert(leaderboard_sort_names()[10] == "arrows_shot"@);
        assert(leaderboard_sort_names()[11] == "distance_travelled"@);
    }
}

/// The value shown for `player` on a leaderboard sorted by `sort`.
pub fn format_metric(sort: &str, player: &LeaderboardEntry) -> (r: String)
    ensures
        r@ == metric_text(sort@, *player),
{
    if str_equal(sort, "time_played") {
        format_time(player.time_played)
    } else if str_equal(sort, "distance_travelled") {
        format_distance(player.distance_travelled)
    } else if str_equal(sort, "kills") {
        format_number(player.kills)
    } else if str_equal(sort, "deaths") {
        format_number(player.deaths)
    } else if str_equal(sort, "mobs_killed") {
        format_number(player.mobs_killed)
    } else if str_equal(sort, "blocks_broken") {
        format_number(player.blocks_broken)
    } else if str_equal(sort, "tnt_used") {
        format_number(player.tnt_used)
    } else if str_equal(sort, "obsidian_mined") {
        format_number(player.obsidian_mined)
    } else if str_equal(sort, "netherite_mined") {
        format_number(player.netherite_mined)
    } else if str_equal(sort, "elytra_used") {
        format_number(player.elytra_used)
    } else if str_equal(sort, "totems_used") {
        format_number(player.totems_used)
    } else if str_equal(sort, "arrows_shot") {
        format_number(player.arrows_shot)
    } else {
        format_number(player.kills)
    }
}

// ---------------------------------------------------------------------------
// Configuration
// ---------------------------------------------------------------------------

/// The promotion messages the bot posts on a schedule.
pub struct PromoConfig {
    pub enabled: bool,
    pub interval_hours: u64,
    pub shop_url: String,
    pub message: String,
    pub channel_ids: Vec<u64>,
}

/// The bot's configuration file.
pub struct Config {
    pub discord_token: String,
    pub guild_id: Option<u64>,
    pub tensor_api_url: String,
    pub promo: PromoConfig,
}

/// Why a configuration is refused.
pub enum ConfigError {
    MissingToken,
    MissingPromoChannels,
}

impl ConfigError {
    /// The message the bot stops with.
    pub fn message(&self) -> (r: String)
        ensures
            r@ == match self {
                ConfigError::MissingToken => "discord_token must be configured"@,
                ConfigError::MissingPromoChannels => "promo.channel_ids must contain at least one channel when promo is enabled"@,
            },
    {
        match self {
            ConfigError::MissingToken => "discord_token must be configured".to_string(),
            ConfigError::MissingPromoChannels => "promo.channel_ids must contain at least one channel when promo is enabled".to_string(),
        }
    }
}

/// The token still blank or still the placeholder of the example file.
pub open spec fn token_unset(token: Seq<char>) -> bool {
    trim(token).len() == 0 || token == "YOUR_DISCORD_BOT_TOKEN"@
}

/// A loaded configuration, checked: the API URL loses its trailing slashes;
/// the token must be set, and enabled promotions need a channel.
pub fn validate_config(config: Config) -> (r: Result<Config, ConfigError>)
    ensures
        token_unset(config.discord_token@) ==> r matches Err(ConfigError::MissingToken),
        !token_unset(config.discord_token@) && config.promo.enabled
            && config.promo.channel_ids@.len() == 0 ==> r matches Err(
            ConfigError::MissingPromoChannels,
        ),
        r is Ok <==> !token_unset(config.discord_token@) && !(config.promo.enabled
            && config.promo.channel_ids@.len() == 0),
        r matches Ok(c) ==> c.tensor_api_url@ == trim_end_char(config.tensor_api_url@, '/')
            && c.discord_token == config.discord_token && c.guild_id == config.guild_id
            && c.promo == config.promo,
{
    let mut config = config;
    config.tensor_api_url = trim_trailing_slash(config.tensor_api_url.as_str());
    let token = chars_of(config.discord_token.as_str());
    let trimmed = trim_chars(&token);
    if trimmed.len() == 0 || str_equal(config.discord_token.as_str(), "YOUR_DISCORD_BOT_TOKEN") {
        return Err(ConfigError::MissingToken);
    }
    if config.promo.enabled && config.promo.channel_ids.len() == 0 {
        return Err(ConfigError::MissingPromoChannels);
    }
    Ok(config)
}

// ---------------------------------------------------------------------------
// Slash commands
// ---------------------------------------------------------------------------

/// The value type of a command option.
pub enum OptionKind {
    String,
    Integer,
}

/// One option of a slash command.
pub struct CommandOptionSpec {
    pub kind: OptionKind,
    pub name: String,
    pub description: String,
    pub required: bool,
    pub choices: Vec<String>,
    pub min_int: Option<i64>,
    pub max_int: Option<i64>,
}

/// A slash command as it is registered.
pub struct CommandSpec {
    pub name: String,
    pub description: String,
    pub options: Vec<CommandOptionSpec>,
}

/// The metrics a leaderboard can be sorted by, in the order they are offered.
pub open spec fn leaderboard_sort_names() -> Seq<Seq<char>> {
    seq![
        "kills"@,
        "deaths"@,
        "mobs_killed"@,
        "time_played"@,
        "blocks_broken"@,
        "tnt_used"@,
        "obsidian_mined"@,
        "netherite_mined"@,
        "elytra_used"@,
        "totems_used"@,
        "arrows_shot"@,
        "distance_travelled"@,
    ]
}

pub open spec fn texts(v: Seq<String>) -> Seq<Seq<char>> {
    v.map_values(|s: String| s@)
}

/// `/leaderboard` offers twelve metrics, in this order: kills, deaths, mob
/// kills, time played, blocks broken, TNT used, obsidian mined, netherite
/// mined, elytra used, totems used, arrows shot and distance travelled.
pub proof fn leaderboard_offers_twelve_metrics()
    ensures
        leaderboard_sort_names().len() == 12,
        leaderboard_sort_names()[0] == "kills"@,
        leaderboard_sort_names()[1] == "deaths"@,
        leaderboard_sort_names()[2] == "mobs_killed"@,
        leaderboard_sort_names()[3] == "time_played"@,
        leaderboard_sort_names()[4] == "blocks_broken"@,
        leaderboard_sort_names()[5] == "tnt_used"@,
        leaderboard_sort_names()[6] == "obsidian_mined"@,
        leaderboard_sort_names()[7] == "netherite_mined"@,
        leaderboard_sort_names()[8] == "elytra_used"@,
        leaderboard_sort_names()[9] == "totems_used"@,
        leaderboard_sort_names()[10] == "arrows_shot"@,
        leaderboard_sort_names()[11] == "distance_travelled"@,
{
}

/// The metrics a leaderboard can be sorted by.
pub fn leaderboard_sorts() -> (r: Vec<String>)
    ensures
        texts(r@) == leaderboard_sort_names(),
{
    let mut r: Vec<String> = Vec::new();
    r.push("kills".to_string());
    r.push("deaths".to_string());
    r.push("mobs_killed".to_string());
    r.push("time_played".to_string());
    r.push("blocks_broken".to_string());
    r.push("tnt_used".to_string());
    r.push("obsidian_mined".to_string());
    r.push("netherite_mined".to_string());
    r.push("elytra_used".to_string());
    r.push("totems_used".to_string());
    r.push("arrows_shot".to_string());
    r.push("distance_travelled".to_string());
    assert(texts(r@) =~= leaderboard_sort_names());
    r
}

/// `/stats player:<name>`.
pub fn stats_command() -> (r: CommandSpec)
    ensures
        r.name@ == "stats"@,
        r.description@ == "Look up 8b8t player stats"@,
        r.options@.len() == 1,
        r.options@[0].kind == OptionKind::String,
        r.options@[0].name@ == "player"@,
        r.options@[0].description@ == "Minecraft username or UUID"@,
        r.options@[0].required,
        r.options@[0].choices@.len() == 0,
        r.options@[0].min_int is None && r.options@[0].max_int is None,
{
    let mut options: Vec<CommandOptionSpec> = Vec::new();
    options.push(
        CommandOptionSpec {
            kind: OptionKind::String,
            name: "player".to_string(),
            description: "Minecraft username or UUID".to_string(),
            required: true,
            choices: Vec::new(),
            min_int: None,
            max_int: None,
        },
    );
    CommandSpec {
        name: "stats".to_string(),
        description: "Look up 8b8t player stats".to_string(),
        options,
    }
}

/// `/leaderboard sort:<metric> limit:<1-10>`.
pub fn leaderboard_command() -> (r: CommandSpec)
    ensures
        r.name@ == "leaderboard"@,
        r.description@ == "Show an 8b8t stats leaderboard"@,
        r.options@.len() == 2,
        r.options@[0].kind == OptionKind::String,
        r.options@[0].name@ == "sort"@,
        r.options@[0].description@ == "Leaderboard metric"@,
        r.options@[0].required,
        texts(r.options@[0].choices@) == leaderboard_sort_names(),
        r.options@[0].min_int is None && r.options@[0].max_int is None,
        r.options@[1].kind == OptionKind::Integer,
        r.options@[1].name@ == "limit"@,
        r.options@[1].description@ == "Number of players, 1-10"@,
        !r.options@[1].required,
        r.options@[1].choices@.len() == 0,
        r.options@[1].min_int == Some(1i64) && r.options@[1].max_int == Some(10i64),
{
    let mut options: Vec<CommandOptionSpec> = Vec::new();
    options.push(
        CommandOptionSpec {
            kind: OptionKind::String,
            name: "sort".to_string(),
            description: "Leaderboard metric".to_string(),
            required: true,
            choices: leaderboard_sorts(),
            min_int: None,
            max_int: None,
        },
    );
    options.push(
        CommandOptionSpec {
            kind: OptionKind::Integer,
            name: "limit".to_string(),
            description: "Number of players, 1-10".to_string(),
            required: false,
            choices: Vec::new(),
            min_int: Some(1),
            max_int: Some(10),
        },
    );
    CommandSpec {
        name: "leaderboard".to_string(),
        description: "Show an 8b8t stats leaderboard".to_string(),
        options,
    }
}

/// `/status`.
pub fn status_command() -> (r: CommandSpec)
    ensures
        r.name@ == "status"@,
        r.description@ == "Check the Tensor stats API status"@,
        r.options@.len() == 0,
{
    CommandSpec {
        name: "status".to_string(),
        description: "Check the Tensor stats API status".to_string(),
        options: Vec::new(),
    }
}

/// Commands go to the configured guild when one is set and not 0, otherwise
/// they are registered globally (`None`).
pub fn command_guild(guild_id: Option<u64>) -> (r: Option<u64>)
    ensures
        r == match guild_id {
            Some(id) => if id != 0 {
                Some(id)
            } else {
                None
            },
            None => None,
        },
{
    match guild_id {
        Some(id) => if id != 0 {
            Some(id)
        } else {
            None
        },
        None => None,
    }
}

/// The command an interaction invokes.
pub enum BotCommand {
    Stats,
    Leaderboard,
    Status,
    Other,
}

pub fn command_for(name: &str) -> (r: BotCommand)
    ensures
        r == if name@ == "stats"@ {
            BotCommand::Stats
        } else if name@ == "leaderboard"@ {
            BotCommand::Leaderboard
        } else if name@ == "status"@ {
            BotCommand::Status
        } else {
            BotCommand::Other
        },
{
    if str_equal(name, "stats") {
        BotCommand::Stats
    } else if str_equal(name, "leaderboard") {
        BotCommand::Leaderboard
    } else if str_equal(name, "status") {
        BotCommand::Status
    } else {
        BotCommand::Other
    }
}

/// The value an interaction gives an option.
pub enum OptionValue {
    Str(String),
    Int(i64),
    Other,
}

/// A named option of an interaction.
pub struct CommandOption {
    pub name: String,
    pub value: OptionValue,
}

/// The text of a string option.
pub fn string_option(value: &OptionValue) -> (r: Option<&str>)
    ensures
        match *value {
            OptionValue::Str(s) => r matches Some(t) && t@ == s@,
            _ => r is None,
        },
{
    match value {
        OptionValue::Str(s) => Some(s.as_str()),
        _ => None,
    }
}

/// The number of an integer option.
pub fn integer_option(value: &OptionValue) -> (r: Option<i64>)
    ensures
        r == match *value {
            OptionValue::Int(i) => Some(i),
            _ => None,
        },
{
    match value {
        OptionValue::Int(i) => Some(*i),
        _ => None,
    }
}

/// The value of the first option called `name`.
pub fn find_option<'a>(options: &'a Vec<CommandOption>, name: &str) -> (r: Option<&'a OptionValue>)
    ensures
        match r {
            Some(v) => exists|i: int|
                0 <= i < options@.len() && options@[i].name@ == name@ && *v == options@[i].value
                    && forall|j: int| 0 <= j < i ==> options@[j].name@ != name@,
            None => forall|i: int| 0 <= i < options@.len() ==> options@[i].name@ != name@,
        },
{
    let mut i: usize = 0;
    while i < options.len()
        invariant
            i <= options.len(),
            forall|j: int| 0 <= j < i ==> options@[j].name@ != name@,
        decreases options.len() - i,
    {
        if str_equal(options[i].name.as_str(), name) {
            return Some(&options[i].value);
        }
        i = i + 1;
    }
    None
}

// ---------------------------------------------------------------------------
// Replies
// ---------------------------------------------------------------------------

/// A field of an embed.
pub struct EmbedField {
    pub name: String,
    pub value: String,
    pub inline: bool,
}

/// An embed the bot replies with.
pub struct EmbedSpec {
    pub title: String,
    pub thumbnail: Option<String>,
    pub description: Option<String>,
    pub fields: Vec<EmbedField>,
    pub footer: Option<String>,
}

/// What the bot answers an interaction with: a plain message (seen only by
/// the caller when `ephemeral`) or an embed.
pub enum BotReply {
    Text { content: String, ephemeral: bool },
    Embed(EmbedSpec),
}

/// `r` is a plain message with `content`, shown only to the caller.
pub open spec fn is_private_text(r: BotReply, content: Seq<char>) -> bool {
    r matches BotReply::Text { content: c, ephemeral } && ephemeral && c@ == content
}

/// What the bot says when a command fails.
pub fn command_failure_reply() -> (r: BotReply)
    ensures
        is_private_text(r, "Something went wrong while contacting the stats API."@),
{
    BotReply::Text {
        content: "Something went wrong while contacting the stats API.".to_string(),
        ephemeral: true,
    }
}

/// A player as the stats API answers `GET /player/:name`.
pub struct PlayerStats {
    pub uuid: String,
    pub name: String,
    pub join_date: i64,
    pub last_seen: i64,
    pub deaths: i64,
    pub kills: i64,
    pub mobs_killed: i64,
    pub blocks_broken: i64,
    pub time_played: i64,
    pub tnt_used: i64,
    pub arrows_shot: i64,
    pub items_dropped: i64,
    pub distance_travelled: i64,
    pub obsidian_mined: i64,
    pub obsidian_placed: i64,
    pub netherite_mined: i64,
    pub elytra_used: i64,
    pub totems_used: i64,
    pub skin_url: String,
}

/// The URL of a player's stats: the player path segment is percent-encoded.
pub fn player_url(base: &str, player: &str) -> (r: String)
    ensures
        r@ == base@ + "/player/"@ + percent_encoded(encode_utf8(player@)),
{
    let mut v = chars_of(base);
    push_str(&mut v, "/player/");
    let e = url_encode(player);
    push_str(&mut v, e.as_str());
    string_from_chars(&v)
}

/// The kill/death ratio: two decimals when there are deaths, `∞` for kills
/// without deaths, else `0`.
pub open spec fn kd_text(kills: int, deaths: int) -> Seq<char> {
    if deaths > 0 {
        quotient_text(kills, deaths, 2)
    } else if kills > 0 {
        seq!['\u{221e}']
    } else {
        seq!['0']
    }
}

fn kd_ratio(kills: i64, deaths: i64) -> (r: Vec<char>)
    ensures
        r@ == kd_text(kills as int, deaths as int),
{
    if deaths > 0 {
        quotient_fixed(kills, deaths, 2)
    } else if kills > 0 {
        let mut v: Vec<char> = Vec::new();
        v.push('\u{221e}');
        assert(v@ =~= kd_text(kills as int, deaths as int));
        v
    } else {
        let mut v: Vec<char> = Vec::new();
        v.push('0');
        assert(v@ =~= kd_text(kills as int, deaths as int));
        v
    }
}

pub open spec fn field_is(f: EmbedField, name: Seq<char>, value: Seq<char>) -> bool {
    f.name@ == name && f.value@ == value && f.inline
}

fn push_field(fields: &mut Vec<EmbedField>, name: &str, value: String)
    ensures
        final(fields)@.len() == old(fields)@.len() + 1,
        forall|i: int| 0 <= i < old(fields)@.len() ==> final(fields)@[i] == old(fields)@[i],
        field_is(final(fields)@[old(fields)@.len() as int], name@, value@),
{
    fields.push(EmbedField { name: name.to_string(), value, inline: true });
}

/// `e` is the embed of a player's stats: titled with the name, the skin as
/// thumbnail, fifteen inline fields and a footer with the UUID and the join
/// and last-seen dates.
pub open spec fn is_stats_embed(e: EmbedSpec, p: PlayerStats) -> bool {
    &&& e.title@ == p.name@ + " Stats"@
    &&& e.thumbnail matches Some(t) && t@ == p.skin_url@
    &&& e.description is None
    &&& e.fields@.len() == 15
    &&& field_is(e.fields@[0], "Kills"@, number_text(p.kills as int))
    &&& field_is(e.fields@[1], "Deaths"@, number_text(p.deaths as int))
    &&& field_is(e.fields@[2], "K/D"@, kd_text(p.kills as int, p.deaths as int))
    &&& field_is(e.fields@[3], "Time Played"@, time_text(p.time_played as int))
    &&& field_is(e.fields@[4], "Blocks Broken"@, number_text(p.blocks_broken as int))
    &&& field_is(e.fields@[5], "Distance"@, distance_text(p.distance_travelled as int))
    &&& field_is(e.fields@[6], "Mob Kills"@, number_text(p.mobs_killed as int))
    &&& field_is(e.fields@[7], "TNT Used"@, number_text(p.tnt_used as int))
    &&& field_is(e.fields@[8], "Arrows Shot"@, number_text(p.arrows_shot as int))
    &&& field_is(e.fields@[9], "Obsidian Mined"@, number_text(p.obsidian_mined as int))
    &&& field_is(e.fields@[10], "Obsidian Placed"@, number_text(p.obsidian_placed as int))
    &&& field_is(e.fields@[11], "Netherite Mined"@, number_text(p.netherite_mined as int))
    &&& field_is(e.fields@[12], "Elytra Used"@, number_text(p.elytra_used as int))
    &&& field_is(e.fields@[13], "Totems Used"@, number_text(p.totems_used as int))
    &&& field_is(e.fields@[14], "Items Dropped"@, number_text(p.items_dropped as int))
    &&& e.footer matches Some(f) && f@ == "UUID: "@ + p.uuid@ + " | Joined: "@ + timestamp_text(
        p.join_date as int,
    ) + " | Last seen: "@ + timestamp_text(p.last_seen as int)
}

/// Every field of a player's stats embed shows the counter it is named
/// after: kills, deaths, the kill/death ratio (two decimals of the `f64`
/// quotient, `∞` for kills without deaths, else `0`), play time, blocks
/// broken, distance, mob kills, TNT used, arrows shot, obsidian mined,
/// obsidian placed, netherite mined, elytra used, totems used and items
/// dropped, in that order, all inline; the title is the player's name.
pub proof fn stats_embed_fields_show_their_counters(e: EmbedSpec, p: PlayerStats)
    requires
        is_stats_embed(e, p),
    ensures
        e.title@ == p.name@ + " Stats"@,
        e.fields@.len() == 15,
        forall|i: int| 0 <= i < 15 ==> (#[trigger] e.fields@[i]).inline,
        e.fields@[0].name@ == "Kills"@ && e.fields@[0].value@ == number_text(p.kills as int),
        e.fields@[1].name@ == "Deaths"@ && e.fields@[1].value@ == number_text(p.deaths as int),
        e.fields@[2].name@ == "K/D"@ && e.fields@[2].value@ == kd_text(p.kills as int, p.deaths as int),
        e.fields@[3].name@ == "Time Played"@ && e.fields@[3].value@ == time_text(p.time_played as int),
        e.fields@[4].name@ == "Blocks Broken"@ && e.fields@[4].value@ == number_text(p.blocks_broken as int),
        e.fields@[5].name@ == "Distance"@ && e.fields@[5].value@ == distance_text(p.distance_travelled as int),
        e.fields@[6].name@ == "Mob Kills"@ && e.fields@[6].value@ == number_text(p.mobs_killed as int),
        e.fields@[7].name@ == "TNT Used"@ && e.fields@[7].value@ == number_text(p.tnt_used as int),
        e.fields@[8].name@ == "Arrows Shot"@ && e.fields@[8].value@ == number_text(p.arrows_shot as int),
        e.fields@[9].name@ == "Obsidian Mined"@ && e.fields@[9].value@ == number_text(p.obsidian_mined as int),
        e.fields@[10].name@ == "Obsidian Placed"@ && e.fields@[10].value@ == number_text(p.obsidian_placed as int),
        e.fields@[11].name@ == "Netherite Mined"@ && e.fields@[11].value@ == number_text(p.netherite_mined as int),
        e.fields@[12].name@ == "Elytra Used"@ && e.fields@[12].value@ == number_text(p.elytra_used as int),
        e.fields@[13].name@ == "Totems Used"@ && e.fields@[13].value@ == number_text(p.totems_used as int),
        e.fields@[14].name@ == "Items Dropped"@ && e.fields@[14].value@ == number_text(p.items_dropped as int),
        e.fields@[2].value@ == if p.deaths > 0 {
            quotient_text(p.kills as int, p.deaths as int, 2)
        } else if p.kills > 0 {
            seq!['\u{221e}']
        } else {
            seq!['0']
        },
{
    assert forall|i: int| 0 <= i < 15 implies (#[trigger] e.fields@[i]).inline by {
        assert(field_is(e.fields@[i], e.fields@[i].name@, e.fields@[i].value@));
    }
}

/// The embed for a player's stats.
pub fn stats_embed(p: &PlayerStats) -> (r: EmbedSpec)
    ensures
        is_stats_embed(r, *p),
{
    let mut fields: Vec<EmbedField> = Vec::new();
    push_field(&mut fields, "Kills", format_number(p.kills));
    push_field(&mut fields, "Deaths", format_number(p.deaths));
    let kd = kd_ratio(p.kills, p.deaths);
    push_field(&mut fields, "K/D", string_from_chars(&kd));
    push_field(&mut fields, "Time Played", format_time(p.time_played));
    push_field(&mut fields, "Blocks Broken", format_number(p.blocks_broken));
    push_field(&mut fields, "Distance", format_distance(p.distance_travelled));
    push_field(&mut fields, "Mob Kills", format_number(p.mobs_killed));
    push_field(&mut fields, "TNT Used", format_number(p.tnt_used));
    push_field(&mut fields, "Arrows Shot", format_number(p.arrows_shot));
    push_field(&mut fields, "Obsidian Mined", format_number(p.obsidian_mined));
    push_field(&mut fields, "Obsidian Placed", format_number(p.obsidian_placed));
    push_field(&mut fields, "Netherite Mined", format_number(p.netherite_mined));
    push_field(&mut fields, "Elytra Used", format_number(p.elytra_used));
    push_field(&mut fields, "Totems Used", format_number(p.totems_used));
    push_field(&mut fields, "Items Dropped", format_number(p.items_dropped));
    let mut title = chars_of(p.name.as_str());
    push_str(&mut title, " Stats");
    let mut footer: Vec<char> = Vec::new();
    push_str(&mut footer, "UUID: ");
    push_str(&mut footer, p.uuid.as_str());
    push_str(&mut footer, " | Joined: ");
    let joined = format_timestamp_ms(p.join_date);
    push_str(&mut footer, joined.as_str());
    push_str(&mut footer, " | Last seen: ");
    let seen = format_timestamp_ms(p.last_seen);
    push_str(&mut footer, seen.as_str());
    EmbedSpec {
        title: string_from_chars(&title),
        thumbnail: Some(p.skin_url.clone()),
        description: None,
        fields,
        footer: Some(string_from_chars(&footer)),
    }
}

/// The error text of a failed answer, or `fallback`.
fn error_or(error: &Option<String>, fallback: &str) -> (r: String)
    ensures
        r@ == match *error {
            Some(e) => e@,
            None => fallback@,
        },
{
    match error {
        Some(e) => e.clone(),
        None => fallback.to_string(),
    }
}

/// The reply to `/stats`: the API's error (or `Player not found`) privately,
/// or the player's embed.
pub fn stats_reply(response: &ApiResponse<PlayerStats>) -> (r: BotReply)
    ensures
        !response.success ==> is_private_text(
            r,
            match response.error {
                Some(e) => e@,
                None => "Player not found"@,
            },
        ),
        response.success && response.data is None ==> is_private_text(r, "Player not found"@),
        response.success && response.data is Some ==> (r matches BotReply::Embed(e)
            && is_stats_embed(e, response.data->0)),
{
    if !response.success {
        return BotReply::Text {
            content: error_or(&response.error, "Player not found"),
            ephemeral: true,
        };
    }
    match &response.data {
        Some(p) => BotReply::Embed(stats_embed(p)),
        None => BotReply::Text { content: "Player not found".to_string(), ephemeral: true },
    }
}

/// The leaderboard a `/leaderboard` interaction asks for: the `sort` option
/// (default `kills`) and the `limit` option (default 5), clamped to `1..=10`.
pub fn leaderboard_request(options: &Vec<CommandOption>) -> (r: (String, i64))
    ensures
        1 <= r.1 <= 10,
        (forall|i: int| 0 <= i < options@.len() ==> options@[i].name@ != "sort"@) ==> r.0@
            == "kills"@,
        (forall|i: int| 0 <= i < options@.len() ==> options@[i].name@ != "limit"@) ==> r.1 == 5,
        forall|i: int|
            0 <= i < options@.len() && options@[i].name@ == "sort"@ && (forall|j: int|
                0 <= j < i ==> options@[j].name@ != "sort"@) ==> r.0@ == match options@[i].value {
                OptionValue::Str(s) => s@,
                _ => "kills"@,
            },
        forall|i: int|
            0 <= i < options@.len() && options@[i].name@ == "limit"@ && (forall|j: int|
                0 <= j < i ==> options@[j].name@ != "limit"@) ==> r.1 == match options@[i].value {
                OptionValue::Int(n) => if n < 1 {
                    1
                } else if n > 10 {
                    10
                } else {
                    n
                },
                _ => 5,
            },
{
    let sort = match find_option(options, "sort") {
        Some(v) => match string_option(v) {
            Some(s) => s.to_string(),
            None => "kills".to_string(),
        },
        None => "kills".to_string(),
    };
    let limit = match find_option(options, "limit") {
        Some(v) => match integer_option(v) {
            Some(n) => n,
            None => 5,
        },
        None => 5,
    };
    let limit = if limit < 1 {
        1
    } else if limit > 10 {
        10
    } else {
        limit
    };
    proof {
        assert forall|i: int|
            0 <= i < options@.len() && options@[i].name@ == "sort"@ && (forall|j: int|
                0 <= j < i ==> options@[j].name@ != "sort"@) implies sort@ == match options@[i].value {
            OptionValue::Str(s) => s@,
            _ => "kills"@,
        } by {}
    }
    (sort, limit)
}

/// `{base}/leaderboard?sort={sort}&limit={limit}`.
pub fn leaderboard_url(base: &str, sort: &str, limit: i64) -> (r: String)
    ensures
        r@ == base@ + "/leaderboard?sort="@ + sort@ + "&limit="@ + decimal_of(limit as int),
{
    let mut v = chars_of(base);
    push_str(&mut v, "/leaderboard?sort=");
    push_str(&mut v, sort);
    push_str(&mut v, "&limit=");
    push_i64(&mut v, limit);
    string_from_chars(&v)
}

/// The line of the entry at `index` (counted from 0).
pub open spec fn leaderboard_line(sort: Seq<char>, index: int, e: LeaderboardEntry) -> Seq<char> {
    "`#"@ + digits_of((index + 1) as nat) + "` **"@ + e.name@ + "** - "@ + metric_text(sort, e)
}

/// The lines of the first `n` entries, separated by newlines.
pub open spec fn leaderboard_lines(sort: Seq<char>, entries: Seq<LeaderboardEntry>, n: nat) -> Seq<
    char,
>
    decreases n,
{
    if n == 0 {
        Seq::empty()
    } else if n == 1 {
        leaderboard_line(sort, 0, entries[0])
    } else {
        leaderboard_lines(sort, entries, (n - 1) as nat) + seq!['\n'] + leaderboard_line(
            sort,
            n - 1,
            entries[n - 1],
        )
    }
}

/// `r` is the leaderboard embed: titled with the metric, one line per entry.
pub open spec fn is_leaderboard_embed(r: BotReply, sort: Seq<char>, entries: Seq<LeaderboardEntry>) -> bool {
    &&& r matches BotReply::Embed(e)
    &&& r->Embed_0.title@ == "8b8t "@ + title_case_text(sort) + " Leaderboard"@
    &&& r->Embed_0.description matches Some(d)
    &&& r->Embed_0.description->0@ == leaderboard_lines(sort, entries, entries.len())
    &&& r->Embed_0.fields@.len() == 0
    &&& r->Embed_0.thumbnail is None
    &&& r->Embed_0.footer is None
}

/// A leaderboard embed is titled `8b8t <Metric> Leaderboard` and numbers its
/// players from 1 in the order the API gave them, one line each: the rank,
/// the name in bold and the metric's value for that player.
pub proof fn leaderboard_embed_ranks_players(
    r: BotReply,
    sort: Seq<char>,
    entries: Seq<LeaderboardEntry>,
    n: nat,
)
    requires
        1 <= n <= entries.len(),
    ensures
        is_leaderboard_embed(r, sort, entries) ==> r->Embed_0.title@ == "8b8t "@ + title_case_text(
            sort,
        ) + " Leaderboard"@,
        n == 1 ==> leaderboard_lines(sort, entries, n) == "`#1` **"@ + entries[0].name@ + "** - "@
            + metric_text(sort, entries[0]),
        n >= 2 ==> leaderboard_lines(sort, entries, n) == leaderboard_lines(
            sort,
            entries,
            (n - 1) as nat,
        ) + "\n"@ + "`#"@ + digits_of(n) + "` **"@ + entries[n - 1].name@ + "** - "@ + metric_text(
            sort,
            entries[n - 1],
        ),
{
    reveal_strlit("`#1` **");
    reveal_strlit("`#");
    reveal_strlit("` **");
    reveal_strlit("\n");
    assert(digits_of(1) == seq!['1']);
    assert("`#"@ + seq!['1'] + "` **"@ =~= "`#1` **"@);
    if n == 1 {
        assert(leaderboard_lines(sort, entries, 1) == leaderboard_line(sort, 0, entries[0]));
        assert(leaderboard_line(sort, 0, entries[0]) =~= "`#1` **"@ + entries[0].name@ + "** - "@
            + metric_text(sort, entries[0]));
    } else {
        assert(seq!['\n'] =~= "\n"@);
        assert(leaderboard_lines(sort, entries, n) =~= leaderboard_lines(sort, entries, (n - 1) as nat)
            + "\n"@ + "`#"@ + digits_of(n) + "` **"@ + entries[n - 1].name@ + "** - "@ + metric_text(
            sort,
            entries[n - 1],
        ));
    }
}

/// The reply to `/leaderboard`: the API's error (or `Leaderboard unavailable`)
/// privately, a private note when there are no entries, or an embed titled
/// with the metric and listing one line per entry.
pub fn leaderboard_reply(sort: &str, response: &ApiResponse<Vec<LeaderboardEntry>>) -> (r: BotReply)
    ensures
        !response.success ==> is_private_text(
            r,
            match response.error {
                Some(e) => e@,
                None => "Leaderboard unavailable"@,
            },
        ),
        response.success && (response.data matches Some(v) ==> v@.len() == 0) ==> is_private_text(
            r,
            "No leaderboard entries found."@,
        ),
        response.success && (response.data matches Some(v) && v@.len() > 0) ==> is_leaderboard_embed(
            r,
            sort@,
            response.data->0@,
        ),
{
    if !response.success {
        return BotReply::Text {
            content: error_or(&response.error, "Leaderboard unavailable"),
            ephemeral: true,
        };
    }
    let entries = match &response.data {
        Some(v) => v,
        None => {
            return BotReply::Text {
                content: "No leaderboard entries found.".to_string(),
                ephemeral: true,
            };
        },
    };
    if entries.len() == 0 {
        return BotReply::Text {
            content: "No leaderboard entries found.".to_string(),
            ephemeral: true,
        };
    }
    let mut lines: Vec<char> = Vec::new();
    let mut i: usize = 0;
    while i < entries.len()
        invariant
            i <= entries@.len(),
            lines@ == leaderboard_lines(sort@, entries@, i as nat),
        decreases entries@.len() - i,
    {
        let ghost before = lines@;
        if i > 0 {
            lines.push('\n');
        }
        push_str(&mut lines, "`#");
        push_u64(&mut lines, (i as u64) + 1);
        push_str(&mut lines, "` **");
        push_str(&mut lines, entries[i].name.as_str());
        push_str(&mut lines, "** - ");
        let m = format_metric(sort, &entries[i]);
        push_str(&mut lines, m.as_str());
        proof {
            if i == 0 {
                assert(lines@ =~= leaderboard_line(sort@, 0, entries@[0]));
            } else {
                assert(lines@ =~= before + seq!['\n'] + leaderboard_line(
                    sort@,
                    i as int,
                    entries@[i as int],
                ));
            }
        }
        i = i + 1;
    }
    let mut title: Vec<char> = Vec::new();
    push_str(&mut title, "8b8t ");
    let t = title_case(sort);
    push_str(&mut title, t.as_str());
    push_str(&mut title, " Leaderboard");
    BotReply::Embed(
        EmbedSpec {
            title: string_from_chars(&title),
            thumbnail: None,
            description: Some(string_from_chars(&lines)),
            fields: Vec::new(),
            footer: None,
        },
    )
}

/// `{base}/health`.
pub fn status_url(base: &str) -> (r: String)
    ensures
        r@ == base@ + "/health"@,
{
    let mut v = chars_of(base);
    push_str(&mut v, "/health");
    string_from_chars(&v)
}

/// `r` is a plain message with `content`, shown to everyone.
pub open spec fn is_public_text(r: BotReply, content: Seq<char>) -> bool {
    r matches BotReply::Text { content: c, ephemeral } && !ephemeral && c@ == content
}

pub open spec fn opt_str_view(o: Option<&str>) -> Option<Seq<char>> {
    match o {
        Some(s) => Some(s@),
        None => None,
    }
}

/// What `/status` says: the API's status and version (`unknown` if none).
pub open spec fn status_text(status: Seq<char>, version: Option<Seq<char>>) -> Seq<char> {
    "Tensor stats API status: `"@ + status + "` | version `"@ + match version {
        Some(v) => v,
        None => "unknown"@,
    } + "`"@
}

/// The status reply quotes the API's status and its version, `unknown` when
/// the API gave none.
pub proof fn status_text_quotes_the_api(status: Seq<char>, version: Option<Seq<char>>)
    ensures
        status_text(status, version) == "Tensor stats API status: `"@ + status + "` | version `"@
            + match version {
            Some(v) => v,
            None => "unknown"@,
        } + "`"@,
        version is None ==> status_text(status, version) == "Tensor stats API status: `"@ + status
            + "` | version `unknown`"@,
{
    reveal_strlit("` | version `");
    reveal_strlit("unknown");
    reveal_strlit("`");
    reveal_strlit("` | version `unknown`");
    assert("` | version `"@ + "unknown"@ + "`"@ =~= "` | version `unknown`"@);
    if version is None {
        assert(status_text(status, version) =~= "Tensor stats API status: `"@ + status
            + "` | version `unknown`"@);
    }
}

/// The reply to `/status`, seen by everyone.
pub fn status_reply(status: &str, version: Option<&str>) -> (r: BotReply)
    ensures
        is_public_text(r, status_text(status@, opt_str_view(version))),
{
    let mut v: Vec<char> = Vec::new();
    push_str(&mut v, "Tensor stats API status: `");
    push_str(&mut v, status);
    push_str(&mut v, "` | version `");
    match version {
        Some(ver) => push_str(&mut v, ver),
        None => push_str(&mut v, "unknown"),
    }
    push_str(&mut v, "`");
    BotReply::Text { content: string_from_chars(&v), ephemeral: false }
}

// ---------------------------------------------------------------------------
// Promotions
// ---------------------------------------------------------------------------

/// Seconds between promotions: the configured hours, at least one.
pub fn promo_interval_secs(interval_hours: u64) -> (r: u64)
    requires
        (if interval_hours < 1 {
            1
        } else {
            interval_hours
        }) * 3600 <= u64::MAX,
    ensures
        r == (if interval_hours < 1 {
            1
        } else {
            interval_hours
        }) * 3600,
{
    let h = if interval_hours < 1 {
        1
    } else {
        interval_hours
    };
    h * 60 * 60
}

/// The promotion text: the message, followed on a new line by the shop URL
/// unless the message already contains it.
pub fn promo_content(message: &str, shop_url: &str) -> (r: String)
    ensures
        r@ == if contains_seq(message@, shop_url@) {
            message@
        } else {
            message@ + seq!['\n'] + shop_url@
        },
{
    let m = chars_of(message);
    let u = chars_of(shop_url);
    if contains_chars(&m, &u) {
        message.to_string()
    } else {
        let mut v = m;
        v.push('\n');
        push_chars(&mut v, &u);
        string_from_chars(&v)
    }
}

/// The channels promotions go to: the configured ones, skipping 0.
pub fn promo_channels(channel_ids: &Vec<u64>) -> (r: Vec<u64>)
    ensures
        r@ == channel_ids@.filter(|id: u64| id != 0),
{
    let mut r: Vec<u64> = Vec::new();
    let mut i: usize = 0;
    while i < channel_ids.len()
        invariant
            i <= channel_ids@.len(),
            r@ == channel_ids@.take(i as int).filter(|id: u64| id != 0),
        decreases channel_ids@.len() - i,
    {
        proof {
            reveal_with_fuel(Seq::<_>::filter, 1);
            assert(channel_ids@.take(i + 1).drop_last() =~= channel_ids@.take(i as int));
        }
        if channel_ids[i] != 0 {
            r.push(channel_ids[i]);
        }
        i = i + 1;
    }
    assert(channel_ids@.take(channel_ids@.len() as int) =~= channel_ids@);
    r
}

} // verus!
