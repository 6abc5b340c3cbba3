//! Rules for player identities and chat text as the chat bridge accepts them.
use vstd::prelude::*;
use vstd::utf8::{encode_utf8, is_ascii_chars, is_ascii_chars_encode_utf8};
use crate::text::{
    ascii_lower, ascii_lowercase, ascii_lowercase_chars, chars_of, control_char,
    is_ascii_alphanumeric, is_ascii_hexdigit, is_control_char, is_white_space, string_from_chars,
    trim, trim_chars, trim_start,
};

verus! {

/// The most characters a chat message keeps.
pub const MAX_MESSAGE_LENGTH: usize = 256;

pub open spec fn is_username_char(c: char) -> bool {
    is_ascii_alphanumeric(c) || c == '_'
}

pub open spec fn is_uuid_char(c: char) -> bool {
    is_ascii_hexdigit(c) || c == '-'
}

/// A username after trimming: non-empty, at most 32 bytes, only ASCII letters,
/// digits and underscores.
pub open spec fn valid_username(s: Seq<char>) -> bool {
    let t = trim(s);
    &&& t.len() > 0
    &&& encode_utf8(t).len() <= 32
    &&& forall|i: int| 0 <= i < t.len() ==> is_username_char(#[trigger] t[i])
}

/// A UUID as the plugin sends it: at most 36 bytes of hex digits and dashes.
pub open spec fn valid_uuid(s: Seq<char>) -> bool {
    &&& encode_utf8(s).len() <= 36
    &&& forall|i: int| 0 <= i < s.len() ==> is_uuid_char(#[trigger] s[i])
}

/// The key a username is stored and looked up under.
pub open spec fn normalized_username(s: Seq<char>) -> Seq<char> {
    ascii_lowercase(trim(s))
}

pub open spec fn kept_in_message(c: char) -> bool {
    !is_control_char(c) || c == '\t'
}

/// The characters of `s` other than control characters (tabs stay).
pub open spec fn strip_controls(s: Seq<char>) -> Seq<char>
    decreases s.len(),
{
    if s.len() == 0 {
        s
    } else if kept_in_message(s.last()) {
        strip_controls(s.drop_last()).push(s.last())
    } else {
        strip_controls(s.drop_last())
    }
}

/// At most the first `MAX_MESSAGE_LENGTH` characters.
pub open spec fn cap_length(s: Seq<char>) -> Seq<char> {
    if s.len() <= 256 {
        s
    } else {
        s.take(256)
    }
}

/// The text a chat message is stored with, or `None` when nothing is left.
pub open spec fn cleaned_message(s: Seq<char>) -> Option<Seq<char>> {
    let c = cap_length(strip_controls(trim(s)));
    if c.len() == 0 {
        None
    } else {
        Some(c)
    }
}

/// A username is valid exactly when, trimmed, it has 1 to 32 characters, all
/// ASCII letters, digits or underscores; a UUID exactly when it has at most
/// 36 characters, all hexadecimal digits or dashes; a message is kept exactly
/// when something other than control characters (tabs aside) remains once
/// trimmed, and then at most its first 256 such characters are kept.
pub proof fn identity_rules(s: Seq<char>)
    ensures
        valid_username(s) <==> 1 <= trim(s).len() <= 32 && forall|i: int|
            0 <= i < trim(s).len() ==> #[trigger] is_ascii_alphanumeric(trim(s)[i]) || trim(s)[i]
                == '_',
        valid_uuid(s) <==> s.len() <= 36 && forall|i: int|
            0 <= i < s.len() ==> #[trigger] is_ascii_hexdigit(s[i]) || s[i] == '-',
        cleaned_message(s) is None <==> strip_controls(trim(s)).len() == 0,
        cleaned_message(s) matches Some(c) ==> c == strip_controls(trim(s)).take(
            if strip_controls(trim(s)).len() < 256 { strip_controls(trim(s)).len() as int } else { 256 },
        ),
{
    let t = trim(s);
    if forall|i: int| 0 <= i < t.len() ==> #[trigger] is_ascii_alphanumeric(t[i]) || t[i] == '_' {
        assert forall|i: int| 0 <= i < t.len() implies ('\0' <= #[trigger] t[i] <= '\u{7f}') by {
            assert(is_ascii_alphanumeric(t[i]) || t[i] == '_');
        }
        lemma_ascii_len(t);
    }
    if forall|i: int| 0 <= i < s.len() ==> #[trigger] is_ascii_hexdigit(s[i]) || s[i] == '-' {
        assert forall|i: int| 0 <= i < s.len() implies ('\0' <= #[trigger] s[i] <= '\u{7f}') by {
            assert(is_ascii_hexdigit(s[i]) || s[i] == '-');
        }
        lemma_ascii_len(s);
    }
    let c = strip_controls(t);
    if c.len() <= 256 {
        assert(c.take(c.len() as int) =~= c);
    }
}

/// `username` trimmed and ASCII-lowercased.
pub fn normalize_username(username: &str) -> (r: String)
    ensures
        r@ == normalized_username(username@),
{
    let v = chars_of(username);
    let t = trim_chars(&v);
    let l = ascii_lowercase_chars(&t);
    string_from_chars(&l)
}

fn all_username_chars(t: &Vec<char>) -> (r: bool)
    ensures
        r == forall|i: int| 0 <= i < t@.len() ==> is_username_char(#[trigger] t@[i]),
{
    let mut i: usize = 0;
    while i < t.len()
        invariant
            i <= t.len(),
            forall|k: int| 0 <= k < i ==> is_username_char(#[trigger] t@[k]),
        decreases t.len() - i,
    {
        let c = t[i];
        let ok = ('0' <= c && c <= '9') || ('A' <= c && c <= 'Z') || ('a' <= c && c <= 'z') || c
            == '_';
        if !ok {
            return false;
        }
        i = i + 1;
    }
    true
}

fn all_uuid_chars(t: &Vec<char>) -> (r: bool)
    ensures
        r == forall|i: int| 0 <= i < t@.len() ==> is_uuid_char(#[trigger] t@[i]),
{
    let mut i: usize = 0;
    while i < t.len()
        invariant
            i <= t.len(),
            forall|k: int| 0 <= k < i ==> is_uuid_char(#[trigger] t@[k]),
        decreases t.len() - i,
    {
        let c = t[i];
        let ok = ('0' <= c && c <= '9') || ('a' <= c && c <= 'f') || ('A' <= c && c <= 'F') || c
            == '-';
        if !ok {
            return false;
        }
        i = i + 1;
    }
    true
}

/// Characters from these classes are all ASCII, so bytes and characters agree.
proof fn lemma_ascii_len(t: Seq<char>)
    requires
        forall|i: int| 0 <= i < t.len() ==> ('\0' <= #[trigger] t[i] <= '\u{7f}'),
    ensures
        encode_utf8(t).len() == t.len(),
{
    assert(is_ascii_chars(t));
    is_ascii_chars_encode_utf8(t);
}

/// Whether `username` is a valid player name once trimmed.
pub fn is_valid_username(username: &str) -> (r: bool)
    ensures
        r == valid_username(username@),
{
    let v = chars_of(username);
    let t = trim_chars(&v);
    if t.len() == 0 {
        return false;
    }
    if !all_username_chars(&t) {
        return false;
    }
    proof {
        assert forall|i: int| 0 <= i < t@.len() implies ('\0' <= #[trigger] t@[i] <= '\u{7f}') by {
            assert(is_username_char(t@[i]));
        }
        lemma_ascii_len(t@);
    }
    t.len() <= 32
}

/// Whether `uuid` has the shape of a player UUID.
pub fn is_valid_uuid(uuid: &str) -> (r: bool)
    ensures
        r == valid_uuid(uuid@),
{
    let v = chars_of(uuid);
    if !all_uuid_chars(&v) {
        return false;
    }
    proof {
        assert forall|i: int| 0 <= i < v@.len() implies ('\0' <= #[trigger] v@[i] <= '\u{7f}') by {
            assert(is_uuid_char(v@[i]));
        }
        lemma_ascii_len(v@);
    }
    v.len() <= 36
}

/// A chat message trimmed, stripped of control characters other than tabs,
/// and cut to `MAX_MESSAGE_LENGTH` characters; `None` when that leaves nothing.
pub fn clean_message(message: &str) -> (r: Option<String>)
    ensures
        match r {
            Some(s) => cleaned_message(message@) == Some(s@),
            None => cleaned_message(message@) is None,
        },
{
    let v = chars_of(message);
    let t = trim_chars(&v);
    let mut out: Vec<char> = Vec::new();
    let mut i: usize = 0;
    while i < t.len()
        invariant
            i <= t.len(),
            out@ == cap_length(strip_controls(t@.take(i as int))),
        decreases t.len() - i,
    {
        let c = t[i];
        proof {
            assert(t@.take(i + 1).drop_last() =~= t@.take(i as int));
            assert(t@.take(i + 1).last() == c);
        }
        if !control_char(c) || c == '\t' {
            if out.len() < MAX_MESSAGE_LENGTH {
                out.push(c);
            }
        }
        i = i + 1;
        proof {
            let prev = strip_controls(t@.take(i - 1));
            let next = strip_controls(t@.take(i as int));
            if kept_in_message(c) {
                assert(next == prev.push(c));
                if prev.len() < 256 {
                    assert(out@ =~= cap_length(next));
                } else {
                    assert(cap_length(next) =~= cap_length(prev));
                }
            }
        }
    }
    assert(t@.take(t.len() as int) =~= t@);
    if out.len() == 0 {
        None
    } else {
        Some(string_from_chars(&out))
    }
}

// ---------------------------------------------------------------------------
// Laws
// ---------------------------------------------------------------------------

proof fn lemma_lower_keeps_white_space(c: char)
    ensures
        is_white_space(ascii_lower(c)) == is_white_space(c),
        ascii_lower(ascii_lower(c)) == ascii_lower(c),
        is_control_char(ascii_lower(c)) == is_control_char(c),
{
}

/// Normalizing a username twice gives what normalizing once gives, so a
/// stored key always matches the key of the same name typed again.
pub proof fn normalize_username_idempotent(s: Seq<char>)
    ensures
        normalized_username(normalized_username(s)) == normalized_username(s),
{
    let t = trim(s);
    let l = ascii_lowercase(t);
    crate::text::lemma_trim_start_no_leading_ws(s);
    crate::text::lemma_trim_end_no_trailing_ws(trim_start(s));
    if t.len() > 0 {
        assert(t[0] == trim_start(s)[0]);
        lemma_lower_keeps_white_space(t[0]);
        lemma_lower_keeps_white_space(t.last());
        assert(l.last() == ascii_lower(t.last()));
    }
    crate::text::lemma_trim_fixed(l);
    assert forall|i: int| 0 <= i < l.len() implies #[trigger] ascii_lowercase(l)[i] == l[i] by {
        lemma_lower_keeps_white_space(t[i]);
    }
    assert(ascii_lowercase(l) =~= l);
}

/// A valid username stays valid once normalized, with the same length.
pub proof fn normalized_valid_username_is_valid(s: Seq<char>)
    requires
        valid_username(s),
    ensures
        valid_username(normalized_username(s)),
        normalized_username(s).len() == trim(s).len(),
{
    let t = trim(s);
    let l = ascii_lowercase(t);
    assert(normalized_username(s) == l);
    crate::text::lemma_trim_start_no_leading_ws(s);
    crate::text::lemma_trim_end_no_trailing_ws(trim_start(s));
    assert(t[0] == trim_start(s)[0]);
    lemma_lower_keeps_white_space(t[0]);
    lemma_lower_keeps_white_space(t.last());
    assert(l[0] == ascii_lower(t[0]));
    assert(l.last() == ascii_lower(t.last()));
    crate::text::lemma_trim_fixed(l);
    assert(trim(l) == l);
    assert forall|i: int| 0 <= i < l.len() implies is_username_char(#[trigger] l[i]) by {
        assert(is_username_char(t[i]));
        assert(l[i] == ascii_lower(t[i]));
    }
    assert forall|i: int| 0 <= i < l.len() implies ('\0' <= #[trigger] l[i] <= '\u{7f}') by {
        assert(is_username_char(l[i]));
    }
    lemma_ascii_len(l);
    assert forall|i: int| 0 <= i < t.len() implies ('\0' <= #[trigger] t[i] <= '\u{7f}') by {
        assert(is_username_char(t[i]));
    }
    lemma_ascii_len(t);
}

proof fn lemma_strip_controls_kept(s: Seq<char>)
    ensures
        forall|i: int| 0 <= i < strip_controls(s).len() ==> kept_in_message(
            #[trigger] strip_controls(s)[i],
        ),
    decreases s.len(),
{
    if s.len() > 0 {
        let prev = strip_controls(s.drop_last());
        lemma_strip_controls_kept(s.drop_last());
        if kept_in_message(s.last()) {
            assert forall|i: int| 0 <= i < strip_controls(s).len() implies kept_in_message(
                #[trigger] strip_controls(s)[i],
            ) by {
                if i < prev.len() {
                    assert(strip_controls(s)[i] == prev[i]);
                }
            }
        }
    }
}

/// A cleaned chat message is never empty, never longer than 256 characters,
/// and holds no control character other than a tab.
pub proof fn cleaned_message_is_bounded(s: Seq<char>)
    ensures
        cleaned_message(s) matches Some(c) ==> 1 <= c.len() <= MAX_MESSAGE_LENGTH && forall|i: int|
            0 <= i < c.len() ==> kept_in_message(#[trigger] c[i]),
{
    let stripped = strip_controls(trim(s));
    lemma_strip_controls_kept(trim(s));
    let c = cap_length(stripped);
    assert forall|i: int| 0 <= i < c.len() implies kept_in_message(#[trigger] c[i]) by {
        assert(c[i] == stripped[i]);
    }
}

} // verus!
