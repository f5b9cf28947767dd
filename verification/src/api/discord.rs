//! The Discord applet's logic: the recipient's user id, the request URLs, and
//! the items shown for a message history or a sent message.
use vstd::prelude::*;
use vstd::string::StringSliceAdditionalSpecFns;
use vstd::utf8::{decode_utf8, encode_utf8, is_char_boundary, valid_utf8};
use crate::apps::{AppletItem, ItemView, item_views};
use crate::data::profile::Profile;
use crate::text::{chars_of, push_str, str_eq, string_of, trim, trimmed};

verus! {

broadcast use {
    vstd::utf8::encode_utf8_decode_utf8,
    vstd::utf8::encode_utf8_valid_utf8,
    vstd::utf8::is_char_boundary_start_end_of_seq,
    vstd::utf8::valid_utf8_split,
};

/// One message of a direct-message history.
#[derive(Debug, Clone)]
pub struct DmMessage {
    pub content: String,
    pub author_username: String,
    pub author_is_bot: bool,
    pub timestamp: String,
}

/// The length of `s` in bytes.
pub fn byte_len(s: &str) -> (res: usize)
    ensures
        res == s.spec_bytes().len(),
{
    s.as_bytes().len()
}

/// The trimmed Discord user id of the profile, or an error when it has none.
pub fn get_user_id(profile: &Profile) -> (res: Result<String, String>)
    ensures
        match res {
            Ok(id) => profile@.contains_key("discord_user_id"@) && trim(
                profile@["discord_user_id"@],
            ).len() > 0 && id@ == trim(profile@["discord_user_id"@]),
            Err(e) => (!profile@.contains_key("discord_user_id"@) || trim(
                profile@["discord_user_id"@],
            ).len() == 0) && e@ == "discord_user_id is required"@,
        },
{
    match profile.get("discord_user_id") {
        Some(v) => {
            let t = trimmed(v.as_str());
            if t.as_str().is_empty() {
                Err("discord_user_id is required".to_string())
            } else {
                Ok(t)
            }
        },
        None => Err("discord_user_id is required".to_string()),
    }
}

/// The characters of bytes `a..b` of `s`, when both are character boundaries
/// within `s` (`str::get(a..b)`).
pub open spec fn byte_slice(s: Seq<char>, a: int, b: int) -> Option<Seq<char>> {
    let bs = encode_utf8(s);
    if 0 <= a <= b <= bs.len() && is_char_boundary(bs, a) && is_char_boundary(bs, b) {
        Some(decode_utf8(bs.subrange(a, b)))
    } else {
        None
    }
}

/// Bytes `a..b` of `s`, when both are character boundaries within `s`.
pub fn byte_substr(s: &str, a: usize, b: usize) -> (res: Option<String>)
    ensures
        match res {
            Some(t) => byte_slice(s@, a as int, b as int) == Some(t@),
            None => byte_slice(s@, a as int, b as int) is None,
        },
{
    let len = byte_len(s);
    if a <= b && b <= len && s.is_char_boundary(a) && s.is_char_boundary(b) {
        let ghost bs = s.spec_bytes();
        let (_, rest) = s.split_at(a);
        proof {
            let rb = rest.spec_bytes();
            assert(rb == bs.subrange(a as int, bs.len() as int));
            if b < len {
                vstd::utf8::is_char_boundary_iff_not_is_continuation_byte(bs, b as int);
                vstd::utf8::is_char_boundary_iff_not_is_continuation_byte(rb, b - a);
                assert(rb[b - a] == bs[b as int]);
            } else {
                assert(rb.len() == b - a);
            }
        }
        let (mid, _) = rest.split_at(b - a);
        proof {
            assert(mid.spec_bytes() =~= bs.subrange(a as int, b as int));
            assert(decode_utf8(encode_utf8(mid@)) == mid@);
        }
        Some(mid.to_string())
    } else {
        None
    }
}

/// `s` cut to at most `max` bytes: unchanged when it fits, else its first
/// `max - 1` bytes (0 when `max` is 0) followed by `…`.
pub open spec fn truncated(s: Seq<char>, max: int) -> Seq<char> {
    let bs = encode_utf8(s);
    if bs.len() <= max {
        s
    } else {
        decode_utf8(bs.take(if max >= 1 { max - 1 } else { 0 })) + "…"@
    }
}

/// Where `truncated` cuts `s`: nothing to cut, or a character boundary.
pub open spec fn can_truncate(s: Seq<char>, max: int) -> bool {
    let bs = encode_utf8(s);
    bs.len() <= max || is_char_boundary(bs, if max >= 1 { max - 1 } else { 0 })
}

/// Whether `s` can be cut to `max` bytes: it fits, or the cut falls on a
/// character boundary.
pub fn can_truncate_at(s: &str, max: usize) -> (res: bool)
    ensures
        res == can_truncate(s@, max as int),
{
    let cut = if max >= 1 {
        max - 1
    } else {
        0
    };
    byte_len(s) <= max || s.is_char_boundary(cut)
}

/// `s` cut to at most `max` bytes, ending in `…` when it was cut.
pub fn truncate_str(s: &str, max: usize) -> (res: String)
    requires
        can_truncate(s@, max as int),
    ensures
        res@ == truncated(s@, max as int),
{
    if byte_len(s) <= max {
        s.to_string()
    } else {
        let cut = if max >= 1 {
            max - 1
        } else {
            0
        };
        let (head, _) = s.split_at(cut);
        let mut r = head.to_string();
        push_str(&mut r, "…");
        proof {
            assert(head.spec_bytes() =~= s.spec_bytes().take(cut as int));
            assert(decode_utf8(encode_utf8(head@)) == head@);
        }
        r
    }
}

/// The abbreviation of a two-digit month number.
pub open spec fn month_abbr(m: Seq<char>) -> Option<Seq<char>> {
    if m == "01"@ {
        Some("Jan"@)
    } else if m == "02"@ {
        Some("Feb"@)
    } else if m == "03"@ {
        Some("Mar"@)
    } else if m == "04"@ {
        Some("Apr"@)
    } else if m == "05"@ {
        Some("May"@)
    } else if m == "06"@ {
        Some("Jun"@)
    } else if m == "07"@ {
        Some("Jul"@)
    } else if m == "08"@ {
        Some("Aug"@)
    } else if m == "09"@ {
        Some("Sep"@)
    } else if m == "10"@ {
        Some("Oct"@)
    } else if m == "11"@ {
        Some("Nov"@)
    } else if m == "12"@ {
        Some("Dec"@)
    } else {
        None
    }
}

/// `s` without its leading `0`s.
pub open spec fn strip_zeros(s: Seq<char>) -> Seq<char>
    decreases s.len(),
{
    if s.len() > 0 && s[0] == '0' {
        strip_zeros(s.drop_first())
    } else {
        s
    }
}

pub open spec fn or_else(o: Option<Seq<char>>, d: Seq<char>) -> Seq<char> {
    match o {
        Some(s) => s,
        None => d,
    }
}

/// A timestamp such as `2024-01-15T10:30:00.000000+00:00` shown as
/// `Jan 15, 10:30`; left as it is when it is shorter than 16 bytes or its
/// month is not `01` to `12`.
pub open spec fn timestamp_shown(ts: Seq<char>) -> Seq<char> {
    if encode_utf8(ts).len() < 16 {
        ts
    } else {
        match byte_slice(ts, 5, 7) {
            None => ts,
            Some(m) => match month_abbr(m) {
                None => ts,
                Some(ab) => ab + " "@ + strip_zeros(or_else(byte_slice(ts, 8, 10), "??"@)) + ", "@
                    + or_else(byte_slice(ts, 11, 16), "??:??"@),
            },
        }
    }
}

fn month_abbr_of(m: &str) -> (res: Option<&'static str>)
    ensures
        match res {
            Some(a) => month_abbr(m@) == Some(a@),
            None => month_abbr(m@) is None,
        },
{
    if str_eq(m, "01") {
        Some("Jan")
    } else if str_eq(m, "02") {
        Some("Feb")
    } else if str_eq(m, "03") {
        Some("Mar")
    } else if str_eq(m, "04") {
        Some("Apr")
    } else if str_eq(m, "05") {
        Some("May")
    } else if str_eq(m, "06") {
        Some("Jun")
    } else if str_eq(m, "07") {
        Some("Jul")
    } else if str_eq(m, "08") {
        Some("Aug")
    } else if str_eq(m, "09") {
        Some("Sep")
    } else if str_eq(m, "10") {
        Some("Oct")
    } else if str_eq(m, "11") {
        Some("Nov")
    } else if str_eq(m, "12") {
        Some("Dec")
    } else {
        None
    }
}

fn strip_leading_zeros(s: &str) -> (res: String)
    ensures
        res@ == strip_zeros(s@),
{
    let v = chars_of(s);
    let n = v.len();
    let mut i: usize = 0;
    assert(v@.skip(0) =~= v@);
    while i < n && v[i] == '0'
        invariant
            n == v.len(),
            i <= n,
            strip_zeros(v@) == strip_zeros(v@.skip(i as int)),
        decreases n - i,
    {
        assert(v@.skip(i as int).drop_first() =~= v@.skip(i + 1));
        i = i + 1;
    }
    assert(v@.skip(i as int) =~= v@.subrange(i as int, n as int));
    string_of(&v, i, n)
}

/// A timestamp shown as month, day and time, e.g. `Jan 15, 10:30`.
pub fn format_timestamp(ts: &str) -> (res: String)
    ensures
        res@ == timestamp_shown(ts@),
{
    if byte_len(ts) < 16 {
        return ts.to_string();
    }
    let m = match byte_substr(ts, 5, 7) {
        Some(m) => m,
        None => {
            return ts.to_string();
        },
    };
    let ab = match month_abbr_of(m.as_str()) {
        Some(a) => a,
        None => {
            return ts.to_string();
        },
    };
    let day = match byte_substr(ts, 8, 10) {
        Some(d) => d,
        None => "??".to_string(),
    };
    let time = match byte_substr(ts, 11, 16) {
        Some(t) => t,
        None => "??:??".to_string(),
    };
    let mut r = ab.to_string();
    push_str(&mut r, " ");
    push_str(&mut r, strip_leading_zeros(day.as_str()).as_str());
    push_str(&mut r, ", ");
    push_str(&mut r, time.as_str());
    r
}

/// The item shown for one message.
pub open spec fn message_item(m: DmMessage) -> ItemView {
    let label = if m.author_is_bot {
        "[You]"@
    } else {
        "["@ + m.author_username@ + "]"@
    };
    ItemView {
        title: label + " "@ + truncated(m.content@, 80),
        subtitle: Some(timestamp_shown(m.timestamp@)),
        url: None,
    }
}

pub open spec fn no_messages_item() -> ItemView {
    ItemView { title: "No messages yet — press [c] to write one"@, subtitle: None, url: None }
}

/// The items shown for a message history.
pub open spec fn history_items(ms: Seq<DmMessage>) -> Seq<ItemView> {
    if ms.len() == 0 {
        seq![no_messages_item()]
    } else {
        ms.map_values(|m: DmMessage| message_item(m))
    }
}

/// The items shown for a message history: one per message, or a hint when there is none.
pub fn history_to_items(messages: &Vec<DmMessage>) -> (res: Vec<AppletItem>)
    requires
        forall|i: int| 0 <= i < messages.len() ==> can_truncate(#[trigger] messages@[i].content@, 80),
    ensures
        item_views(res@) == history_items(messages@),
{
    if messages.len() == 0 {
        let v = vec![
            AppletItem {
                title: "No messages yet — press [c] to write one".to_string(),
                subtitle: None,
                url: None,
            },
        ];
        assert(item_views(v@) =~= history_items(messages@));
        return v;
    }
    let n = messages.len();
    let mut out: Vec<AppletItem> = Vec::new();
    let mut i: usize = 0;
    while i < n
        invariant
            n == messages.len(),
            n > 0,
            i <= n,
            forall|j: int| 0 <= j < messages.len() ==> can_truncate(#[trigger] messages@[j].content@, 80),
            out@.len() == i,
            item_views(out@) == messages@.take(i as int).map_values(|m: DmMessage| message_item(m)),
        decreases n - i,
    {
        let m = &messages[i];
        let mut title = if m.author_is_bot {
            "[You]".to_string()
        } else {
            let mut l = "[".to_string();
            push_str(&mut l, m.author_username.as_str());
            push_str(&mut l, "]");
            l
        };
        push_str(&mut title, " ");
        push_str(&mut title, truncate_str(m.content.as_str(), 80).as_str());
        let item = AppletItem {
            title,
            subtitle: Some(format_timestamp(m.timestamp.as_str())),
            url: None,
        };
        assert(item@ == message_item(messages@[i as int]));
        let ghost before = out@;
        out.push(item);
        assert(out@ == before.push(item));
        assert(messages@.take(i + 1) =~= messages@.take(i as int).push(messages@[i as int]));
        proof {
            let lhs = item_views(out@);
            let rhs = messages@.take(i + 1).map_values(|m: DmMessage| message_item(m));
            let old_rhs = messages@.take(i as int).map_values(|m: DmMessage| message_item(m));
            assert forall|j: int| 0 <= j < i + 1 implies lhs[j] == rhs[j] by {
                if j < i {
                    assert(lhs[j] == item_views(before)[j]);
                    assert(item_views(before)[j] == old_rhs[j]);
                }
            }
            assert(lhs =~= rhs);
        }
        i = i + 1;
    }
    assert(messages@.take(n as int) =~= messages@);
    out
}

/// The item shown once `message` was sent.
pub fn sent_items(message: &str) -> (res: Vec<AppletItem>)
    requires
        can_truncate(message@, 60),
    ensures
        item_views(res@) == seq![
            ItemView { title: "Sent!"@, subtitle: Some(truncated(message@, 60)), url: None },
        ],
{
    let v = vec![
        AppletItem {
            title: "Sent!".to_string(),
            subtitle: Some(truncate_str(message, 60)),
            url: None,
        },
    ];
    assert(item_views(v@) =~= seq![
        ItemView { title: "Sent!"@, subtitle: Some(truncated(message@, 60)), url: None },
    ]);
    v
}

/// The endpoint that opens (or finds) the direct-message channel.
pub fn open_channel_url() -> (res: String)
    ensures
        res@ == "https://discord.com/api/v10/users/@me/channels"@,
{
    "https://discord.com/api/v10/users/@me/channels".to_string()
}

/// The endpoint that lists the last 20 messages of a channel.
pub fn history_url(channel_id: &str) -> (res: String)
    ensures
        res@ == "https://discord.com/api/v10/channels/"@ + channel_id@ + "/messages?limit=20"@,
{
    let mut u = "https://discord.com/api/v10/channels/".to_string();
    push_str(&mut u, channel_id);
    push_str(&mut u, "/messages?limit=20");
    u
}

/// The endpoint that posts a message to a channel.
pub fn send_url(channel_id: &str) -> (res: String)
    ensures
        res@ == "https://discord.com/api/v10/channels/"@ + channel_id@ + "/messages"@,
{
    let mut u = "https://discord.com/api/v10/channels/".to_string();
    push_str(&mut u, channel_id);
    push_str(&mut u, "/messages");
    u
}

proof fn lemma_encode_concat(a: Seq<char>, b: Seq<char>)
    ensures
        encode_utf8(a + b) == encode_utf8(a) + encode_utf8(b),
    decreases a.len(),
{
    if a.len() > 0 {
        lemma_encode_concat(a.drop_first(), b);
        assert((a + b).drop_first() =~= a.drop_first() + b);
        assert((a + b)[0] == a[0]);
        assert(encode_utf8(a + b) =~= encode_utf8(a) + encode_utf8(b));
    } else {
        assert(a + b =~= b);
        assert(encode_utf8(a) + encode_utf8(b) =~= encode_utf8(b));
    }
}

/// Cutting a string keeps it when it fits in `max` bytes; otherwise it keeps
/// a prefix of it, the first `max - 1` bytes (none when `max` is 0), and
/// adds `…`, three bytes long.
pub proof fn lemma_truncated_prefix(s: Seq<char>, max: int)
    requires
        max >= 0,
        can_truncate(s, max),
    ensures
        encode_utf8(s).len() <= max ==> truncated(s, max) == s,
        encode_utf8(s).len() > max ==> {
            let cut = if max >= 1 {
                max - 1
            } else {
                0
            };
            exists|p: Seq<char>|
                #![trigger p.is_prefix_of(s)]
                p.is_prefix_of(s) && encode_utf8(p).len() == cut && truncated(s, max) == p + "…"@
                    && encode_utf8(truncated(s, max)).len() == cut + 3
        },
{
    let bs = encode_utf8(s);
    if bs.len() > max {
        let cut = if max >= 1 {
            max - 1
        } else {
            0
        };
        reveal_strlit("…");
        let p = decode_utf8(bs.take(cut));
        assert(bs.take(cut) =~= bs.subrange(0, cut));
        assert(valid_utf8(bs.subrange(0, cut)));
        vstd::utf8::decode_utf8_split(bs, cut);
        assert(decode_utf8(bs) == s);
        assert(encode_utf8(p) == bs.take(cut)) by {
            vstd::utf8::decode_utf8_encode_utf8(bs.take(cut));
        }
        assert(p.is_prefix_of(s)) by {
            assert(s =~= p + decode_utf8(bs.subrange(cut, bs.len() as int)));
            assert(s.take(p.len() as int) =~= p);
        }
        lemma_encode_concat(p, "…"@);
        assert(encode_utf8("…"@).len() == 3) by {
            assert("…"@ =~= seq!['\u{2026}']);
            assert(('\u{2026}' as u32) == 0x2026u32);
            let e = seq!['\u{2026}'];
            assert(e.drop_first() =~= Seq::<char>::empty());
            assert(encode_utf8(e.drop_first()) == Seq::<u8>::empty());
            assert(vstd::utf8::encode_scalar(e[0] as u32).len() == 3);
            assert(encode_utf8(e) =~= vstd::utf8::encode_scalar(e[0] as u32));
        }
    }
}

/// A timestamp's month is shown as the first three letters of the month's
/// name.
pub proof fn lemma_month_abbr_is_name_prefix()
    ensures
        month_abbr("01"@) == Some(crate::api::birthday::month_name_of(1).take(3)),
        month_abbr("02"@) == Some(crate::api::birthday::month_name_of(2).take(3)),
        month_abbr("03"@) == Some(crate::api::birthday::month_name_of(3).take(3)),
        month_abbr("04"@) == Some(crate::api::birthday::month_name_of(4).take(3)),
        month_abbr("05"@) == Some(crate::api::birthday::month_name_of(5).take(3)),
        month_abbr("06"@) == Some(crate::api::birthday::month_name_of(6).take(3)),
        month_abbr("07"@) == Some(crate::api::birthday::month_name_of(7).take(3)),
        month_abbr("08"@) == Some(crate::api::birthday::month_name_of(8).take(3)),
        month_abbr("09"@) == Some(crate::api::birthday::month_name_of(9).take(3)),
        month_abbr("10"@) == Some(crate::api::birthday::month_name_of(10).take(3)),
        month_abbr("11"@) == Some(crate::api::birthday::month_name_of(11).take(3)),
        month_abbr("12"@) == Some(crate::api::birthday::month_name_of(12).take(3)),
{
    reveal_strlit("01");
    reveal_strlit("02");
    reveal_strlit("03");
    reveal_strlit("04");
    reveal_strlit("05");
    reveal_strlit("06");
    reveal_strlit("07");
    reveal_strlit("08");
    reveal_strlit("09");
    reveal_strlit("10");
    reveal_strlit("11");
    reveal_strlit("12");
    reveal_strlit("Jan");
    reveal_strlit("Feb");
    reveal_strlit("Mar");
    reveal_strlit("Apr");
    reveal_strlit("May");
    reveal_strlit("Jun");
    reveal_strlit("Jul");
    reveal_strlit("Aug");
    reveal_strlit("Sep");
    reveal_strlit("Oct");
    reveal_strlit("Nov");
    reveal_strlit("Dec");
    reveal_strlit("January");
    reveal_strlit("February");
    reveal_strlit("March");
    reveal_strlit("April");
    reveal_strlit("June");
    reveal_strlit("July");
    reveal_strlit("August");
    reveal_strlit("September");
    reveal_strlit("October");
    reveal_strlit("November");
    reveal_strlit("December");
    assert("Jan"@ =~= "January"@.take(3));
    assert("Feb"@ =~= "February"@.take(3));
    assert("Mar"@ =~= "March"@.take(3));
    assert("Apr"@ =~= "April"@.take(3));
    assert("May"@ =~= "May"@.take(3));
    assert("Jun"@ =~= "June"@.take(3));
    assert("Jul"@ =~= "July"@.take(3));
    assert("Aug"@ =~= "August"@.take(3));
    assert("Sep"@ =~= "September"@.take(3));
    assert("Oct"@ =~= "October"@.take(3));
    assert("Nov"@ =~= "November"@.take(3));
    assert("Dec"@ =~= "December"@.take(3));
    assert("01"@[1] == '1' && "02"@[1] == '2' && "03"@[1] == '3' && "04"@[1] == '4');
    assert("05"@[1] == '5' && "06"@[1] == '6' && "07"@[1] == '7' && "08"@[1] == '8');
    assert("09"@[1] == '9' && "10"@[0] == '1' && "11"@[1] == '1' && "12"@[1] == '2');
    assert("01"@[0] == '0' && "09"@[0] == '0' && "10"@[1] == '0' && "11"@[0] == '1');
    assert("12"@[0] == '1');
}

} // verus!
