//! From Discord channel objects to the rooms the interface shows: where a
//! channel lives, what it can do, which guild channels are hidden, and the
//! order of guild and private channel lists.

use vstd::prelude::*;

use crate::api::{Channel, ChannelTypes, Recipient, Snowflake};
use crate::text::{chars_of, decimal_value, is_digit, parse_decimal_u64, push_char};
use crate::roster::{duplicate_roster, VoiceRoster};
use crate::types::{Identifier, RoomCapabilities, User};

verus! {

// === capabilities and location ===
/// The capabilities a channel type gives a room: private channels both
/// text and voice, text and announcement channels text, voice and stage
/// channels voice, all others none.
pub open spec fn room_capability_bits(t: ChannelTypes) -> u8 {
    match t {
        ChannelTypes::DM | ChannelTypes::GroupDM => 3,
        ChannelTypes::GuildText | ChannelTypes::GuildAnnouncement => 1,
        ChannelTypes::GuildVoice | ChannelTypes::GuildStageVoice => 2,
        _ => 0,
    }
}

/// A room carries text (bit 1) exactly for private, text and announcement
/// channels, and voice (bit 2) exactly for private, voice and stage
/// channels.
pub proof fn law_capabilities_by_type(t: ChannelTypes)
    ensures
        (room_capability_bits(t) & 1u8 != 0) <==> (t == ChannelTypes::DM || t == ChannelTypes::GroupDM || t
            == ChannelTypes::GuildText || t == ChannelTypes::GuildAnnouncement),
        (room_capability_bits(t) & 2u8 != 0) <==> (t == ChannelTypes::DM || t == ChannelTypes::GroupDM || t
            == ChannelTypes::GuildVoice || t == ChannelTypes::GuildStageVoice),
{
    assert(3u8 & 1u8 != 0 && 3u8 & 2u8 != 0) by (bit_vector);
    assert(1u8 & 1u8 != 0 && 1u8 & 2u8 == 0) by (bit_vector);
    assert(2u8 & 1u8 == 0 && 2u8 & 2u8 != 0) by (bit_vector);
    assert(0u8 & 1u8 == 0 && 0u8 & 2u8 == 0) by (bit_vector);
}

impl From<ChannelTypes> for RoomCapabilities {
    fn from(val: ChannelTypes) -> (r: RoomCapabilities)
        ensures
            r.bits_spec() == room_capability_bits(val),
    {
        let r = match val {
            ChannelTypes::DM | ChannelTypes::GroupDM => RoomCapabilities::text().union(RoomCapabilities::voice()),
            ChannelTypes::GuildText | ChannelTypes::GuildAnnouncement => RoomCapabilities::text(),
            ChannelTypes::GuildVoice | ChannelTypes::GuildStageVoice => RoomCapabilities::voice(),
            ChannelTypes::GuildCategory => RoomCapabilities::empty(),
            _ => RoomCapabilities::empty(),
        };
        proof {
            RoomCapabilities::lemma_bits(r, room_capability_bits(val));
        }
        r
    }
}

impl vstd::std_specs::convert::FromSpecImpl<ChannelTypes> for RoomCapabilities {
    open spec fn obeys_from_spec() -> bool {
        true
    }

    open spec fn from_spec(v: ChannelTypes) -> RoomCapabilities {
        RoomCapabilities::from_bits_spec(room_capability_bits(v))
    }
}

/// Where a channel lives: in a guild, or private (DM or group DM).
#[derive(Clone, Copy, Debug, PartialEq, Eq)]
pub enum ChannelLocation {
    Guild { guild_id: Snowflake, channel_id: Snowflake },
    Private { channel_id: Snowflake },
}

/// The location of a channel; guild channels nested in a guild payload lack
/// `guild_id`, which `parent_guild_id` then supplies (and takes precedence).
pub open spec fn location_of(ch: Channel, parent_guild_id: Option<Snowflake>) -> Option<ChannelLocation> {
    match ch.channel_type {
        ChannelTypes::DM | ChannelTypes::GroupDM => Some(ChannelLocation::Private { channel_id: ch.id }),
        _ => match parent_guild_id {
            Some(g) => Some(ChannelLocation::Guild { guild_id: g, channel_id: ch.id }),
            None => match ch.guild_id {
                Some(g) => Some(ChannelLocation::Guild { guild_id: g, channel_id: ch.id }),
                None => None,
            },
        },
    }
}

impl ChannelLocation {
    /// The channel's id.
    pub fn channel_id(&self) -> (r: Snowflake)
        ensures
            r == match *self {
                ChannelLocation::Guild { channel_id, .. } => channel_id,
                ChannelLocation::Private { channel_id } => channel_id,
            },
    {
        match self {
            ChannelLocation::Guild { channel_id, .. } => *channel_id,
            ChannelLocation::Private { channel_id } => *channel_id,
        }
    }

    /// The guild's id, for guild channels.
    pub fn guild_id(&self) -> (r: Option<Snowflake>)
        ensures
            r == match *self {
                ChannelLocation::Guild { guild_id, .. } => Some(guild_id),
                ChannelLocation::Private { .. } => None::<Snowflake>,
            },
    {
        match self {
            ChannelLocation::Guild { guild_id, .. } => Some(*guild_id),
            ChannelLocation::Private { .. } => None,
        }
    }

    /// The location of a channel object.
    pub fn from_api(channel: &Channel, parent_guild_id: Option<Snowflake>) -> (r: Option<Self>)
        ensures
            r == location_of(*channel, parent_guild_id),
    {
        match channel.channel_type {
            ChannelTypes::DM | ChannelTypes::GroupDM => Some(ChannelLocation::Private { channel_id: channel.id }),
            _ => {
                let guild_id = match parent_guild_id {
                    Some(g) => g,
                    None => match channel.guild_id {
                        Some(g) => g,
                        None => {
                            return None;
                        },
                    },
                };
                Some(ChannelLocation::Guild { guild_id, channel_id: channel.id })
            },
        }
    }
}

// === numbers in strings ===
/// `s` without one leading `+`.
pub open spec fn strip_plus(s: Seq<char>) -> Seq<char> {
    if s.len() > 0 && s[0] == '+' {
        s.drop_first()
    } else {
        s
    }
}

/// Every character is an ASCII digit.
pub open spec fn all_digits(d: Seq<char>) -> bool {
    forall|i: int| 0 <= i < d.len() ==> is_digit(#[trigger] d[i])
}

/// `u64::from_str`: an optional `+`, then one or more ASCII digits whose
/// value fits in 64 bits.
pub open spec fn parse_u64_spec(s: Seq<char>) -> Option<u64> {
    let digits = strip_plus(s);
    if digits.len() > 0 && all_digits(digits) && decimal_value(digits) <= u64::MAX {
        Some(decimal_value(digits) as u64)
    } else {
        None
    }
}

/// Parses a decimal `u64` as `str::parse::<u64>` does.
pub fn parse_u64(s: &str) -> (r: Option<u64>)
    ensures
        r == parse_u64_spec(s@),
{
    let cs = chars_of(s);
    let start: usize = if cs.len() > 0 && cs[0] == '+' {
        1
    } else {
        0
    };
    let mut digits: Vec<char> = Vec::new();
    let mut i = start;
    while i < cs.len()
        invariant
            start <= i <= cs@.len(),
            digits@ == cs@.subrange(start as int, i as int),
        decreases cs@.len() - i,
    {
        digits.push(cs[i]);
        proof {
            assert(digits@ =~= cs@.subrange(start as int, i + 1));
        }
        i = i + 1;
    }
    let ghost ds = strip_plus(cs@);
    proof {
        assert(ds =~= digits@);
    }
    if digits.len() == 0 {
        return None;
    }
    let mut j: usize = 0;
    while j < digits.len()
        invariant
            j <= digits@.len(),
            digits@ == ds,
            ds == strip_plus(s@),
            forall|k: int| 0 <= k < j ==> is_digit(#[trigger] digits@[k]),
        decreases digits@.len() - j,
    {
        let c = digits[j];
        if !('0' <= c && c <= '9') {
            proof {
                assert(!is_digit(ds[j as int]));
                assert(!all_digits(ds));
            }
            return None;
        }
        j = j + 1;
    }
    parse_decimal_u64(&digits)
}

// === hidden guild channels ===
/// A deny bit set, as parsed; unparsable sets count as empty.
pub open spec fn deny_bits(s: Seq<char>) -> u64 {
    match parse_u64_spec(s) {
        Some(v) => v,
        None => 0,
    }
}

/// Whether bit 10 (`VIEW_CHANNEL`) is denied by an overwrite.
pub open spec fn denies_view(s: Seq<char>) -> bool {
    (deny_bits(s) / 1024) % 2 == 1
}

/// Some overwrite of the list denies viewing.
pub open spec fn any_denies_view(ovs: Seq<crate::api::OverwriteObject>) -> bool {
    exists|i: int| 0 <= i < ovs.len() && denies_view(#[trigger] ovs[i].deny@)
}

/// A guild channel is hidden when one of its overwrites denies viewing.
pub open spec fn channel_hidden(ch: Channel) -> bool {
    match ch.permission_overwrites {
        Some(ovs) => any_denies_view(ovs@),
        None => false,
    }
}

proof fn lemma_view_bit(v: u64)
    ensures
        ((v / 1024) % 2 == 1) <==> (v & 1024u64 != 0),
{
    assert(((v / 1024) % 2 == 1) <==> (v & 1024u64 != 0)) by (bit_vector);
}

/// A guild channel is hidden exactly when one of its overwrites denies
/// bit 10 (`VIEW_CHANNEL`, 1024); other denied bits, such as sending
/// messages (2048), never hide it.
pub proof fn law_hidden_iff_view_denied(ch: Channel)
    ensures
        channel_hidden(ch) <==> (ch.permission_overwrites matches Some(ovs) && exists|i: int|
            0 <= i < ovs@.len() && #[trigger] (deny_bits(ovs@[i].deny@) & 1024u64) != 0),
{
    if let Some(ovs) = ch.permission_overwrites {
        assert forall|i: int| 0 <= i < ovs@.len() implies denies_view(#[trigger] ovs@[i].deny@) == ((deny_bits(
            ovs@[i].deny@,
        ) & 1024u64) != 0) by {
            lemma_view_bit(deny_bits(ovs@[i].deny@));
        }
    }
}

/// Whether a channel is hidden from the guild's room list.
pub fn is_channel_hidden(ch: &Channel) -> (r: bool)
    ensures
        r == channel_hidden(*ch),
{
    match &ch.permission_overwrites {
        None => false,
        Some(ovs) => {
            let mut i: usize = 0;
            while i < ovs.len()
                invariant
                    i <= ovs@.len(),
                    ch.permission_overwrites == Some(*ovs),
                    forall|k: int| 0 <= k < i ==> !denies_view(#[trigger] ovs@[k].deny@),
                decreases ovs@.len() - i,
            {
                let bits = match parse_u64(ovs[i].deny.as_str()) {
                    Some(v) => v,
                    None => 0,
                };
                if (bits / 1024) % 2 == 1 {
                    proof {
                        assert(denies_view(ovs@[i as int].deny@));
                    }
                    return true;
                }
                i = i + 1;
            }
            false
        },
    }
}

// === ordering ===
/// `a` comes before `b` when its key is smaller, or equal with a smaller
/// index (a stable sort).
pub open spec fn stable_before(keys: Seq<u128>, a: usize, b: usize) -> bool {
    keys[a as int] < keys[b as int] || (keys[a as int] == keys[b as int] && a < b)
}

/// `ord` lists the indices of `keys` in stable ascending key order.
pub open spec fn is_stable_order(keys: Seq<u128>, ord: Seq<usize>) -> bool {
    &&& ord.len() == keys.len()
    &&& forall|k: int| 0 <= k < ord.len() ==> #[trigger] ord[k] < keys.len()
    &&& forall|a: int, b: int| 0 <= a < b < ord.len() ==> stable_before(keys, #[trigger] ord[a], #[trigger] ord[b])
}

/// The indices of `keys` in stable ascending key order (insertion sort).
pub fn stable_order(keys: &Vec<u128>) -> (r: Vec<usize>)
    ensures
        is_stable_order(keys@, r@),
{
    let n = keys.len();
    let mut r: Vec<usize> = Vec::new();
    let mut i: usize = 0;
    while i < n
        invariant
            n == keys@.len(),
            i <= n,
            r@.len() == i,
            forall|k: int| 0 <= k < r@.len() ==> #[trigger] r@[k] < i,
            forall|a: int, b: int| 0 <= a < b < r@.len() ==> stable_before(keys@, #[trigger] r@[a], #[trigger] r@[b]),
        decreases n - i,
    {
        let ki = keys[i];
        let mut p: usize = 0;
        while p < r.len() && keys[r[p]] <= ki
            invariant
                n == keys@.len(),
                i < n,
                ki == keys@[i as int],
                p <= r@.len(),
                forall|k: int| 0 <= k < r@.len() ==> #[trigger] r@[k] < i,
                forall|k: int| 0 <= k < p ==> keys@[#[trigger] r@[k] as int] <= ki,
            decreases r@.len() - p,
        {
            p = p + 1;
        }
        let ghost old_r = r@;
        r.insert(p, i);
        proof {
            assert(r@ == old_r.insert(p as int, i));
            assert forall|k: int| 0 <= k < r@.len() implies #[trigger] r@[k] < i + 1 by {
                if k < p {
                    assert(r@[k] == old_r[k]);
                } else if k > p {
                    assert(r@[k] == old_r[k - 1]);
                }
            }
            assert forall|a: int, b: int| 0 <= a < b < r@.len() implies stable_before(keys@, #[trigger] r@[a], #[trigger] r@[b]) by {
                if b < p {
                    assert(r@[a] == old_r[a] && r@[b] == old_r[b]);
                } else if a > p {
                    assert(r@[a] == old_r[a - 1] && r@[b] == old_r[b - 1]);
                } else if a < p && b > p {
                    assert(r@[a] == old_r[a] && r@[b] == old_r[b - 1]);
                    assert(stable_before(keys@, old_r[a], old_r[b - 1]));
                } else if a == p {
                    assert(r@[a] == i);
                    assert(r@[b] == old_r[b - 1]);
                    assert(keys@[old_r[p as int] as int] > ki);
                    if b - 1 > p {
                        assert(stable_before(keys@, old_r[p as int], old_r[b - 1]));
                    }
                } else {
                    assert(b == p);
                    assert(r@[b] == i);
                    assert(r@[a] == old_r[a]);
                    assert(keys@[old_r[a] as int] <= ki);
                }
            }
        }
        i = i + 1;
    }
    r
}

/// Whether `x` occurs in `ord`.
spec fn lists(ord: Seq<usize>, x: usize) -> bool {
    exists|k: int| 0 <= k < ord.len() && ord[k] == x
}

/// A stable order lists every index of `keys`.
proof fn lemma_stable_order_covers(keys: Seq<u128>, ord: Seq<usize>)
    requires
        is_stable_order(keys, ord),
    ensures
        forall|x: usize| x < keys.len() ==> #[trigger] lists(ord, x),
{
    broadcast use vstd::seq_lib::seq_to_set_is_finite;

    let s = ord.map_values(|v: usize| v as int);
    let n = keys.len() as int;
    assert forall|a: int, b: int| 0 <= a < s.len() && 0 <= b < s.len() && a != b implies s[a] != s[b] by {
        if a < b {
            assert(stable_before(keys, ord[a], ord[b]));
        } else {
            assert(stable_before(keys, ord[b], ord[a]));
        }
    }
    assert(s.no_duplicates());
    s.unique_seq_to_set();
    vstd::set_lib::lemma_int_range(0, n);
    assert forall|v: int| #[trigger] s.to_set().contains(v) implies vstd::set_lib::set_int_range(0, n).contains(v) by {
        let k = choose|k: int| 0 <= k < s.len() && s[k] == v;
        assert(ord[k] < keys.len());
    }
    vstd::set_lib::lemma_subset_equality(s.to_set(), vstd::set_lib::set_int_range(0, n));
    assert forall|x: usize| x < keys.len() implies #[trigger] lists(ord, x) by {
        assert(vstd::set_lib::set_int_range(0, n).contains(x as int));
        assert(s.to_set().contains(x as int));
        let k = choose|k: int| 0 <= k < s.len() && s[k] == x as int;
        assert(ord[k] == x);
    }
}

proof fn lemma_stable_orders_agree_upto(keys: Seq<u128>, o1: Seq<usize>, o2: Seq<usize>, m: int)
    requires
        is_stable_order(keys, o1),
        is_stable_order(keys, o2),
        0 <= m <= o1.len(),
    ensures
        forall|i: int| 0 <= i < m ==> o1[i] == o2[i],
    decreases m,
{
    if m > 0 {
        lemma_stable_orders_agree_upto(keys, o1, o2, m - 1);
        let j = m - 1;
        let x = o1[j];
        let y = o2[j];
        if x != y {
            lemma_stable_order_covers(keys, o1);
            lemma_stable_order_covers(keys, o2);
            assert(lists(o1, y));
            assert(lists(o2, x));
            let q = choose|q: int| 0 <= q < o1.len() && #[trigger] o1[q] == y;
            let p = choose|p: int| 0 <= p < o2.len() && #[trigger] o2[p] == x;
            if q < j {
                assert(o2[q] == y);
                assert(stable_before(keys, o2[q], o2[j]));
            }
            if p < j {
                assert(o1[p] == x);
                assert(stable_before(keys, o1[p], o1[j]));
            }
            assert(stable_before(keys, o1[j], o1[q]));
            assert(stable_before(keys, o2[j], o2[p]));
        }
    }
}

/// The stable order of a list of keys is unique: any two orders meeting
/// [`is_stable_order`] are the same sequence.
pub proof fn law_stable_order_unique(keys: Seq<u128>, o1: Seq<usize>, o2: Seq<usize>)
    requires
        is_stable_order(keys, o1),
        is_stable_order(keys, o2),
    ensures
        o1 == o2,
{
    lemma_stable_orders_agree_upto(keys, o1, o2, o1.len() as int);
    assert(o1 =~= o2);
}

/// The position of the last category among `chs[..upto]` whose id is `id`
/// (positions default to 0); `None` when there is none.
pub open spec fn category_position(chs: Seq<Channel>, id: Snowflake, upto: int) -> Option<i32>
    decreases upto,
{
    if upto <= 0 {
        None
    } else {
        let c = chs[upto - 1];
        if c.channel_type == ChannelTypes::GuildCategory && c.id == id {
            Some(
                match c.position {
                    Some(p) => p,
                    None => 0,
                },
            )
        } else {
            category_position(chs, id, upto - 1)
        }
    }
}

/// The guild-list sort key of a channel as a triple: a child sorts after
/// its parent category at the parent's position, then by its own
/// position; a category header sorts first at its own position; an
/// uncategorized channel sorts at its own position after a header there.
pub open spec fn guild_sort_triple(chs: Seq<Channel>, ch: Channel) -> (int, int, int) {
    let own = match ch.position {
        Some(p) => p as int,
        None => 0,
    };
    let parent = match ch.parent_id {
        Some(s) => parse_u64_spec(s@),
        None => None,
    };
    match parent {
        Some(pid) => (
            match category_position(chs, pid, chs.len() as int) {
                Some(p) => p as int,
                None => 0,
            },
            1,
            own,
        ),
        None => if ch.channel_type == ChannelTypes::GuildCategory {
            (own, 0, 0)
        } else {
            (own, 1, 0)
        },
    }
}

/// The triple as one number, ordered as the triple is lexicographically.
pub open spec fn encode_triple(t: (int, int, int)) -> int {
    (t.0 + 0x8000_0000) * 0x2_0000_0000 + t.1 * 0x1_0000_0000 + (t.2 + 0x8000_0000)
}

pub open spec fn lex_less(a: (int, int, int), b: (int, int, int)) -> bool {
    a.0 < b.0 || (a.0 == b.0 && (a.1 < b.1 || (a.1 == b.1 && a.2 < b.2)))
}

/// Comparing encoded sort keys is comparing the triples lexicographically.
pub proof fn law_guild_key_order_is_lexicographic(a: (int, int, int), b: (int, int, int))
    requires
        i32::MIN <= a.0 <= i32::MAX,
        i32::MIN <= b.0 <= i32::MAX,
        0 <= a.1 <= 1,
        0 <= b.1 <= 1,
        i32::MIN <= a.2 <= i32::MAX,
        i32::MIN <= b.2 <= i32::MAX,
    ensures
        encode_triple(a) < encode_triple(b) <==> lex_less(a, b),
        encode_triple(a) == encode_triple(b) <==> a == b,
{
    assert(encode_triple(a) < encode_triple(b) <==> lex_less(a, b)) by (nonlinear_arith)
        requires
            i32::MIN <= a.0 <= i32::MAX,
            i32::MIN <= b.0 <= i32::MAX,
            0 <= a.1 <= 1,
            0 <= b.1 <= 1,
            i32::MIN <= a.2 <= i32::MAX,
            i32::MIN <= b.2 <= i32::MAX,
    ;
    assert(encode_triple(a) == encode_triple(b) <==> (a.0 == b.0 && a.1 == b.1 && a.2 == b.2)) by (nonlinear_arith)
        requires
            i32::MIN <= a.0 <= i32::MAX,
            i32::MIN <= b.0 <= i32::MAX,
            0 <= a.1 <= 1,
            0 <= b.1 <= 1,
            i32::MIN <= a.2 <= i32::MAX,
            i32::MIN <= b.2 <= i32::MAX,
    ;
}

/// The guild-list sort keys of all channels.
pub open spec fn guild_keys(chs: Seq<Channel>) -> Seq<u128> {
    Seq::new(chs.len(), |i: int| encode_triple(guild_sort_triple(chs, chs[i])) as u128)
}

/// The position of the last category with id `id`.
fn find_category_position(chs: &Vec<Channel>, id: Snowflake) -> (r: Option<i32>)
    ensures
        r == category_position(chs@, id, chs@.len() as int),
{
    let mut j = chs.len();
    while j > 0
        invariant
            j <= chs@.len(),
            category_position(chs@, id, chs@.len() as int) == category_position(chs@, id, j as int),
        decreases j,
    {
        let c = &chs[j - 1];
        if c.channel_type == ChannelTypes::GuildCategory && c.id == id {
            return Some(
                match c.position {
                    Some(p) => p,
                    None => 0,
                },
            );
        }
        j = j - 1;
    }
    None
}

fn encode_key(a: i32, b: u8, c: i32) -> (r: u128)
    requires
        b <= 1,
    ensures
        r == encode_triple((a as int, b as int, c as int)),
{
    let x: u128 = ((a as i64) + 0x8000_0000) as u128;
    let z: u128 = ((c as i64) + 0x8000_0000) as u128;
    x * 0x2_0000_0000 + (b as u128) * 0x1_0000_0000 + z
}

/// The guild-list sort key of every channel.
pub fn guild_sort_keys(chs: &Vec<Channel>) -> (r: Vec<u128>)
    ensures
        r@ == guild_keys(chs@),
{
    let mut r: Vec<u128> = Vec::new();
    let mut i: usize = 0;
    while i < chs.len()
        invariant
            i <= chs@.len(),
            r@ == guild_keys(chs@).take(i as int),
        decreases chs@.len() - i,
    {
        let ch = &chs[i];
        let own: i32 = match ch.position {
            Some(p) => p,
            None => 0,
        };
        let parent = match &ch.parent_id {
            Some(s) => parse_u64(s.as_str()),
            None => None,
        };
        let key = match parent {
            Some(pid) => {
                let pp = match find_category_position(chs, pid) {
                    Some(p) => p,
                    None => 0,
                };
                encode_key(pp, 1, own)
            },
            None => if ch.channel_type == ChannelTypes::GuildCategory {
                encode_key(own, 0, 0)
            } else {
                encode_key(own, 1, 0)
            },
        };
        r.push(key);
        proof {
            assert(r@ =~= guild_keys(chs@).take(i + 1));
        }
        i = i + 1;
    }
    proof {
        assert(guild_keys(chs@).take(chs@.len() as int) =~= guild_keys(chs@));
    }
    r
}

/// A visible guild channel as a room of the guild's list.
#[derive(Debug)]
pub struct GuildRoom {
    pub channel_id: Snowflake,
    /// The channel's name, or `Unknown`.
    pub name: String,
    pub capabilities: RoomCapabilities,
    pub location: Option<ChannelLocation>,
    /// Who is in the channel's voice call, seeded from the live roster
    /// (always a list, empty when nobody is).
    pub participants: Option<Vec<Identifier<User>>>,
}

/// The content of a [`GuildRoom`].
pub struct GuildRoomView {
    pub channel_id: Snowflake,
    pub name: Seq<char>,
    pub capabilities: u8,
    pub location: Option<ChannelLocation>,
    pub participants: Option<Seq<Identifier<User>>>,
}

impl View for GuildRoom {
    type V = GuildRoomView;

    open spec fn view(&self) -> GuildRoomView {
        GuildRoomView {
            channel_id: self.channel_id,
            name: self.name@,
            capabilities: self.capabilities.bits_spec(),
            location: self.location,
            participants: match self.participants {
                Some(v) => Some(v@),
                None => None,
            },
        }
    }
}

/// The participants of a channel by the voice rosters: its roster, or none.
pub open spec fn roster_of(rosters: Map<u64, Seq<Identifier<User>>>, channel: Snowflake) -> Seq<Identifier<User>> {
    if rosters.contains_key(channel) {
        rosters[channel]
    } else {
        Seq::empty()
    }
}

/// The room a visible guild channel becomes.
pub open spec fn guild_room_of(guild_id: Snowflake, ch: Channel, rosters: Map<u64, Seq<Identifier<User>>>) -> GuildRoomView {
    GuildRoomView {
        channel_id: ch.id,
        name: match ch.name {
            Some(n) => n@,
            None => "Unknown"@,
        },
        capabilities: room_capability_bits(ch.channel_type),
        location: location_of(ch, Some(guild_id)),
        participants: Some(roster_of(rosters, ch.id)),
    }
}

/// The rooms of the channels listed in `ord`, hidden channels left out.
pub open spec fn guild_rooms_spec(
    guild_id: Snowflake,
    chs: Seq<Channel>,
    ord: Seq<usize>,
    rosters: Map<u64, Seq<Identifier<User>>>,
) -> Seq<GuildRoomView>
    decreases ord.len(),
{
    if ord.len() == 0 {
        Seq::empty()
    } else {
        let rest = guild_rooms_spec(guild_id, chs, ord.drop_last(), rosters);
        let ch = chs[ord.last() as int];
        if channel_hidden(ch) {
            rest
        } else {
            rest.push(guild_room_of(guild_id, ch, rosters))
        }
    }
}

/// The rooms of a guild's channels: sorted (see [`guild_sort_triple`]),
/// without the channels whose overwrites deny viewing, each with the users
/// the voice roster has in it.
pub fn process_guild_channels(guild_id: Snowflake, channels: &Vec<Channel>, roster: &VoiceRoster) -> (r: Vec<GuildRoom>)
    ensures
        exists|ord: Seq<usize>|
            is_stable_order(guild_keys(channels@), ord) && r@.map_values(|g: GuildRoom| g@)
                == guild_rooms_spec(guild_id, channels@, ord, roster.rosters_spec()),
{
    let keys = guild_sort_keys(channels);
    let ord = stable_order(&keys);
    let mut r: Vec<GuildRoom> = Vec::new();
    let mut k: usize = 0;
    while k < ord.len()
        invariant
            keys@ == guild_keys(channels@),
            is_stable_order(keys@, ord@),
            k <= ord@.len(),
            r@.map_values(|g: GuildRoom| g@) == guild_rooms_spec(guild_id, channels@, ord@.take(k as int), roster.rosters_spec()),
        decreases ord@.len() - k,
    {
        let idx = ord[k];
        let ch = &channels[idx];
        proof {
            assert(ord@.take(k + 1).drop_last() =~= ord@.take(k as int));
        }
        if !is_channel_hidden(ch) {
            let name = match &ch.name {
                Some(n) => n.clone(),
                None => String::from_str("Unknown"),
            };
            let participants = match roster.participants(ch.id) {
                Some(v) => duplicate_roster(v),
                None => Vec::new(),
            };
            proof {
                assert(participants@ =~= roster_of(roster.rosters_spec(), ch.id));
            }
            let room = GuildRoom {
                channel_id: ch.id,
                name,
                capabilities: RoomCapabilities::from(ch.channel_type),
                location: ChannelLocation::from_api(ch, Some(guild_id)),
                participants: Some(participants),
            };
            r.push(room);
            proof {
                assert(r@.map_values(|g: GuildRoom| g@) =~= guild_rooms_spec(guild_id, channels@, ord@.take(k as int), roster.rosters_spec()).push(guild_room_of(guild_id, channels@[idx as int], roster.rosters_spec())));
            }
        } else {
            proof {
                assert(r@.map_values(|g: GuildRoom| g@) =~= guild_rooms_spec(guild_id, channels@, ord@.take(k + 1), roster.rosters_spec()));
            }
        }
        k = k + 1;
    }
    proof {
        assert(ord@.take(ord@.len() as int) =~= ord@);
    }
    r
}

// === private channels ===
/// Private channels sort most recent first (by last message id), those
/// without messages last.
pub open spec fn dm_key(ch: Channel) -> u128 {
    match ch.last_message_id {
        Some(id) => (0x1_0000_0000_0000_0000 - id) as u128,
        None => 0x2_0000_0000_0000_0000,
    }
}

pub open spec fn dm_keys(chs: Seq<Channel>) -> Seq<u128> {
    Seq::new(chs.len(), |i: int| dm_key(chs[i]))
}

proof fn lemma_category_position_found(chs: Seq<Channel>, ci: int, upto: int)
    requires
        0 <= ci < upto <= chs.len(),
        chs[ci].channel_type == ChannelTypes::GuildCategory,
        forall|k: int|
            0 <= k < chs.len() && k != ci && (#[trigger] chs[k]).channel_type == ChannelTypes::GuildCategory
                ==> chs[k].id != chs[ci].id,
    ensures
        category_position(chs, chs[ci].id, upto) == Some(
            match chs[ci].position {
                Some(p) => p,
                None => 0i32,
            },
        ),
    decreases upto,
{
    if upto - 1 != ci {
        lemma_category_position_found(chs, ci, upto - 1);
    }
}

/// In a guild's list, a category comes before each of its channels, and a
/// category's channels come before any category placed after it.
pub proof fn law_category_before_its_channels(chs: Seq<Channel>, ci: int, ki: int, cj: int)
    requires
        0 <= ci < chs.len(),
        0 <= ki < chs.len(),
        chs[ci].channel_type == ChannelTypes::GuildCategory,
        chs[ci].parent_id is None,
        forall|k: int|
            0 <= k < chs.len() && k != ci && (#[trigger] chs[k]).channel_type == ChannelTypes::GuildCategory
                ==> chs[k].id != chs[ci].id,
        chs[ki].parent_id matches Some(s) && parse_u64_spec(s@) == Some(chs[ci].id),
    ensures
        guild_keys(chs)[ci] < guild_keys(chs)[ki],
        0 <= cj < chs.len() && chs[cj].channel_type == ChannelTypes::GuildCategory && chs[cj].parent_id is None
            && (match chs[ci].position {
            Some(p) => p as int,
            None => 0,
        }) < (match chs[cj].position {
            Some(p) => p as int,
            None => 0,
        }) ==> guild_keys(chs)[ki] < guild_keys(chs)[cj],
{
    lemma_category_position_found(chs, ci, chs.len() as int);
    let pp: int = match chs[ci].position {
        Some(p) => p as int,
        None => 0,
    };
    let own: int = match chs[ki].position {
        Some(p) => p as int,
        None => 0,
    };
    assert(guild_sort_triple(chs, chs[ci]) == (pp, 0int, 0int));
    assert(guild_sort_triple(chs, chs[ki]) == (pp, 1int, own));
    law_guild_key_order_is_lexicographic((pp, 0, 0), (pp, 1, own));
    if 0 <= cj < chs.len() && chs[cj].channel_type == ChannelTypes::GuildCategory && chs[cj].parent_id is None {
        let q: int = match chs[cj].position {
            Some(p) => p as int,
            None => 0,
        };
        assert(guild_sort_triple(chs, chs[cj]) == (q, 0int, 0int));
        law_guild_key_order_is_lexicographic((pp, 1, own), (q, 0, 0));
    }
}

/// The order of private channels: most recent message first, channels
/// without messages last, ties in their input order.
pub fn dm_channel_order(chs: &Vec<Channel>) -> (r: Vec<usize>)
    ensures
        is_stable_order(dm_keys(chs@), r@),
{
    let mut keys: Vec<u128> = Vec::new();
    let mut i: usize = 0;
    while i < chs.len()
        invariant
            i <= chs@.len(),
            keys@ == dm_keys(chs@).take(i as int),
        decreases chs@.len() - i,
    {
        let key: u128 = match chs[i].last_message_id {
            Some(id) => 0x1_0000_0000_0000_0000 - (id as u128),
            None => 0x2_0000_0000_0000_0000,
        };
        keys.push(key);
        proof {
            assert(keys@ =~= dm_keys(chs@).take(i + 1));
        }
        i = i + 1;
    }
    proof {
        assert(dm_keys(chs@).take(chs@.len() as int) =~= dm_keys(chs@));
    }
    stable_order(&keys)
}

/// A newer last message sorts first, and a channel with no message sorts
/// after every channel with one.
pub proof fn law_dm_order_newest_first(a: Channel, b: Channel)
    ensures
        (a.last_message_id matches Some(x) && b.last_message_id matches Some(y) && x > y) ==> dm_key(a) < dm_key(b),
        (a.last_message_id is Some && b.last_message_id is None) ==> dm_key(a) < dm_key(b),
{
}

/// The usernames of recipients joined with `, `.
pub open spec fn joined_usernames(rs: Seq<Recipient>) -> Seq<char>
    decreases rs.len(),
{
    if rs.len() == 0 {
        Seq::empty()
    } else if rs.len() == 1 {
        rs[0].username@
    } else {
        joined_usernames(rs.drop_last()) + ", "@ + rs.last().username@
    }
}

/// The name of a private room: its own name, else its recipients' names,
/// else `Unknown channel`.
pub open spec fn dm_room_name_spec(ch: Channel) -> Seq<char> {
    match ch.name {
        Some(n) => n@,
        None => match ch.recipients {
            Some(rs) => joined_usernames(rs@),
            None => "Unknown channel"@,
        },
    }
}

fn append_chars(out: &mut String, s: &str)
    ensures
        final(out)@ == old(out)@ + s@,
{
    let cs = chars_of(s);
    let mut i: usize = 0;
    let ghost start = out@;
    while i < cs.len()
        invariant
            i <= cs@.len(),
            cs@ == s@,
            out@ == start + cs@.take(i as int),
        decreases cs@.len() - i,
    {
        push_char(out, cs[i]);
        proof {
            assert(cs@.take(i + 1) =~= cs@.take(i as int).push(cs@[i as int]));
        }
        i = i + 1;
    }
    proof {
        assert(cs@.take(cs@.len() as int) =~= cs@);
    }
}

/// The name of a private room, as in [`dm_room_name_spec`].
pub fn dm_room_name(ch: &Channel) -> (r: String)
    ensures
        r@ == dm_room_name_spec(*ch),
{
    match &ch.name {
        Some(n) => n.clone(),
        None => match &ch.recipients {
            Some(rs) => {
                let mut out = String::new();
                let mut i: usize = 0;
                while i < rs.len()
                    invariant
                        i <= rs@.len(),
                        out@ == joined_usernames(rs@.take(i as int)),
                    decreases rs@.len() - i,
                {
                    proof {
                        assert(rs@.take(i + 1).drop_last() =~= rs@.take(i as int));
                    }
                    if i > 0 {
                        append_chars(&mut out, ", ");
                    }
                    append_chars(&mut out, rs[i].username.as_str());
                    proof {
                        if i == 0 {
                            assert(out@ =~= joined_usernames(rs@.take(1)));
                        }
                    }
                    i = i + 1;
                }
                proof {
                    assert(rs@.take(rs@.len() as int) =~= rs@);
                }
                out
            },
            None => String::from_str("Unknown channel"),
        },
    }
}

/// The icon of a private room: the channel's own icon when it was
/// resolved, else the first recipient avatar that was.
pub fn dm_room_icon(channel_icon: Option<String>, recipient_icons: Vec<Option<String>>) -> (r: Option<String>)
    ensures
        channel_icon is Some ==> r == channel_icon,
        channel_icon is None ==> (match r {
            Some(p) => exists|i: int|
                0 <= i < recipient_icons@.len() && recipient_icons@[i] == Some(p) && forall|j: int|
                    0 <= j < i ==> recipient_icons@[j] is None,
            None => forall|j: int| 0 <= j < recipient_icons@.len() ==> recipient_icons@[j] is None,
        }),
{
    if channel_icon.is_some() {
        return channel_icon;
    }
    let mut i: usize = 0;
    while i < recipient_icons.len()
        invariant
            i <= recipient_icons@.len(),
            channel_icon is None,
            forall|j: int| 0 <= j < i ==> recipient_icons@[j] is None,
        decreases recipient_icons@.len() - i,
    {
        match &recipient_icons[i] {
            Some(p) => {
                let q = p.clone();
                proof {
                    assert(recipient_icons@[i as int] == Some(q));
                }
                return Some(q);
            },
            None => {},
        }
        i = i + 1;
    }
    None
}

} // verus!
