//! Text forms of the BGP types, as the configuration and the operational
//! state show them.
use crate::bgp::rt_of;
use crate::bgp::AfiSafi;
use crate::bgp::Comm;
use crate::bgp::ExtComm;
use crate::bgp::Extv6Comm;
use crate::bgp::LargeComm;
use crate::bgp::Origin;
use crate::bgp::RouteDistinguisher;
use crate::bgp::RouteTarget;
use crate::bgp::WellKnownCommunities;
use crate::ip::be4;
use crate::ip::from_be4;
use crate::ip::from_be4_round_trip;
use crate::ip::u32_bytes;
use crate::ip::u32_of_bytes;
use crate::ip::Ipv6Addr;
use crate::text::all_digits;
use crate::text::byte_hex;
use crate::text::canonical;
use crate::text::decimal;
use crate::text::decimal_is_canonical;
use crate::text::decimal_round_trip;
use crate::text::digits_value;
use crate::text::dotted;
use crate::text::dotted_round_trip;
use crate::text::fields;
use crate::text::fields_of_append;
use crate::text::fields_of_one;
use crate::text::hex2;
use crate::text::is_digit;
use crate::text::join;
use crate::text::joined;
use crate::text::lacks;
use crate::text::not_a_number;
use crate::text::parse_ipv4;
use crate::text::parse_number;
use crate::text::parsed;
use crate::text::parsed_ipv4;
use crate::text::same_text;
use crate::text::split;
use crate::text::texts;
use crate::text::to_byte_hex;
use crate::text::to_decimal;
use crate::text::to_dotted;
use crate::text::to_hex2;
use vstd::prelude::*;
use vstd::string::StrSliceExecFns;
use vstd::string::StringExecFns;

verus! {

/// The name of an address family pair.
pub open spec fn afi_safi_name(a: AfiSafi) -> Seq<char> {
    match a {
        AfiSafi::Ipv4Unicast => "iana-bgp-types:ipv4-unicast"@,
        AfiSafi::Ipv6Unicast => "iana-bgp-types:ipv6-unicast"@,
        AfiSafi::L3vpnIpv4Unicast => "iana-bgp-types:l3vpn-ipv4-unicast"@,
        AfiSafi::L3vpnIpv6Unicast => "iana-bgp-types:l3vpn-ipv6-unicast"@,
        AfiSafi::L2vpnEvpn => "iana-bgp-types:l2vpn-evpn"@,
    }
}

/// The address family pair with a name.
pub open spec fn afi_safi_named(s: Seq<char>) -> Option<AfiSafi> {
    if s == afi_safi_name(AfiSafi::Ipv4Unicast) {
        Some(AfiSafi::Ipv4Unicast)
    } else if s == afi_safi_name(AfiSafi::Ipv6Unicast) {
        Some(AfiSafi::Ipv6Unicast)
    } else if s == afi_safi_name(AfiSafi::L3vpnIpv4Unicast) {
        Some(AfiSafi::L3vpnIpv4Unicast)
    } else if s == afi_safi_name(AfiSafi::L3vpnIpv6Unicast) {
        Some(AfiSafi::L3vpnIpv6Unicast)
    } else if s == afi_safi_name(AfiSafi::L2vpnEvpn) {
        Some(AfiSafi::L2vpnEvpn)
    } else {
        None
    }
}

/// A name is read back as the address family pair it belongs to.
pub proof fn afi_safi_text_round_trip(a: AfiSafi)
    ensures
        afi_safi_named(afi_safi_name(a)) == Some(a),
{
    reveal_strlit("iana-bgp-types:ipv4-unicast");
    reveal_strlit("iana-bgp-types:ipv6-unicast");
    reveal_strlit("iana-bgp-types:l3vpn-ipv4-unicast");
    reveal_strlit("iana-bgp-types:l3vpn-ipv6-unicast");
    reveal_strlit("iana-bgp-types:l2vpn-evpn");
    let v4 = "iana-bgp-types:ipv4-unicast"@;
    let v6 = "iana-bgp-types:ipv6-unicast"@;
    let l4 = "iana-bgp-types:l3vpn-ipv4-unicast"@;
    let l6 = "iana-bgp-types:l3vpn-ipv6-unicast"@;
    let evpn = "iana-bgp-types:l2vpn-evpn"@;
    assert(v4.len() == 27 && v6.len() == 27 && l4.len() == 33 && l6.len() == 33 && evpn.len() == 25);
    assert(v4[18] == '4' && v6[18] == '6' && l4[24] == '4' && l6[24] == '6');
}

impl AfiSafi {
    pub fn to_yang(&self) -> (r: String)
        ensures
            r@ == afi_safi_name(*self),
    {
        String::from_str(
            match self {
                AfiSafi::Ipv4Unicast => "iana-bgp-types:ipv4-unicast",
                AfiSafi::Ipv6Unicast => "iana-bgp-types:ipv6-unicast",
                AfiSafi::L3vpnIpv4Unicast => "iana-bgp-types:l3vpn-ipv4-unicast",
                AfiSafi::L3vpnIpv6Unicast => "iana-bgp-types:l3vpn-ipv6-unicast",
                AfiSafi::L2vpnEvpn => "iana-bgp-types:l2vpn-evpn",
            },
        )
    }

    /// Reads a name back; a text that is no name gives nothing.
    pub fn try_from_yang(value: &str) -> (r: Option<AfiSafi>)
        ensures
            r == afi_safi_named(value@),
    {
        if same_text(value, "iana-bgp-types:ipv4-unicast") {
            Some(AfiSafi::Ipv4Unicast)
        } else if same_text(value, "iana-bgp-types:ipv6-unicast") {
            Some(AfiSafi::Ipv6Unicast)
        } else if same_text(value, "iana-bgp-types:l3vpn-ipv4-unicast") {
            Some(AfiSafi::L3vpnIpv4Unicast)
        } else if same_text(value, "iana-bgp-types:l3vpn-ipv6-unicast") {
            Some(AfiSafi::L3vpnIpv6Unicast)
        } else if same_text(value, "iana-bgp-types:l2vpn-evpn") {
            Some(AfiSafi::L2vpnEvpn)
        } else {
            None
        }
    }
}

/// The name of an origin.
pub open spec fn origin_name(o: Origin) -> Seq<char> {
    match o {
        Origin::Igp => "igp"@,
        Origin::Egp => "egp"@,
        Origin::Incomplete => "incomplete"@,
    }
}

/// The origin with a name.
pub open spec fn origin_named(s: Seq<char>) -> Option<Origin> {
    if s == origin_name(Origin::Igp) {
        Some(Origin::Igp)
    } else if s == origin_name(Origin::Egp) {
        Some(Origin::Egp)
    } else if s == origin_name(Origin::Incomplete) {
        Some(Origin::Incomplete)
    } else {
        None
    }
}

/// A name is read back as the origin it belongs to.
pub proof fn origin_text_round_trip(o: Origin)
    ensures
        origin_named(origin_name(o)) == Some(o),
{
    reveal_strlit("igp");
    reveal_strlit("egp");
    reveal_strlit("incomplete");
    assert("igp"@.len() == 3 && "egp"@.len() == 3 && "incomplete"@.len() == 10);
    assert("igp"@[0] == 'i' && "egp"@[0] == 'e');
}

/// The number of an origin on the wire.
pub open spec fn origin_value(o: Origin) -> u8 {
    match o {
        Origin::Igp => 0,
        Origin::Egp => 1,
        Origin::Incomplete => 2,
    }
}

impl Default for Origin {
    fn default() -> (r: Self)
        ensures
            r == Origin::Incomplete,
    {
        Origin::Incomplete
    }
}

impl Origin {
    pub fn to_u8(&self) -> (r: u8)
        ensures
            r == origin_value(*self),
    {
        match self {
            Origin::Igp => 0,
            Origin::Egp => 1,
            Origin::Incomplete => 2,
        }
    }

    pub fn from_u8(value: u8) -> (r: Option<Origin>)
        ensures
            match r {
                Some(o) => value == origin_value(o),
                None => forall|o: Origin| value != #[trigger] origin_value(o),
            },
    {
        match value {
            0 => Some(Origin::Igp),
            1 => Some(Origin::Egp),
            2 => Some(Origin::Incomplete),
            _ => None,
        }
    }

    pub fn to_yang(&self) -> (r: String)
        ensures
            r@ == origin_name(*self),
    {
        String::from_str(
            match self {
                Origin::Igp => "igp",
                Origin::Egp => "egp",
                Origin::Incomplete => "incomplete",
            },
        )
    }

    /// Reads a name back; a text that is no name gives nothing.
    pub fn try_from_yang(value: &str) -> (r: Option<Origin>)
        ensures
            r == origin_named(value@),
    {
        if same_text(value, "igp") {
            Some(Origin::Igp)
        } else if same_text(value, "egp") {
            Some(Origin::Egp)
        } else if same_text(value, "incomplete") {
            Some(Origin::Incomplete)
        } else {
            None
        }
    }
}

/// The number of a well-known community.
pub open spec fn well_known_value(w: WellKnownCommunities) -> u32 {
    match w {
        WellKnownCommunities::NoExport => 0xFFFFFF01,
        WellKnownCommunities::NoAdvertise => 0xFFFFFF02,
        WellKnownCommunities::NoExportSubconfed => 0xFFFFFF03,
    }
}

/// The well-known community with a number.
pub open spec fn well_known_of(n: u32) -> Option<WellKnownCommunities> {
    if n == 0xFFFFFF01 {
        Some(WellKnownCommunities::NoExport)
    } else if n == 0xFFFFFF02 {
        Some(WellKnownCommunities::NoAdvertise)
    } else if n == 0xFFFFFF03 {
        Some(WellKnownCommunities::NoExportSubconfed)
    } else {
        None
    }
}

/// The name of a well-known community.
pub open spec fn well_known_name(w: WellKnownCommunities) -> Seq<char> {
    match w {
        WellKnownCommunities::NoExport => "iana-bgp-community-types:no-export"@,
        WellKnownCommunities::NoAdvertise => "iana-bgp-community-types:no-advertise"@,
        WellKnownCommunities::NoExportSubconfed => "iana-bgp-community-types:no-export-subconfed"@,
    }
}

/// The well-known community with a name.
pub open spec fn well_known_named(s: Seq<char>) -> Option<WellKnownCommunities> {
    if s == well_known_name(WellKnownCommunities::NoExport) {
        Some(WellKnownCommunities::NoExport)
    } else if s == well_known_name(WellKnownCommunities::NoAdvertise) {
        Some(WellKnownCommunities::NoAdvertise)
    } else if s == well_known_name(WellKnownCommunities::NoExportSubconfed) {
        Some(WellKnownCommunities::NoExportSubconfed)
    } else {
        None
    }
}

/// No two well-known communities share a name, and every name starts with a
/// letter.
pub proof fn well_known_names_differ(w: WellKnownCommunities)
    ensures
        well_known_named(well_known_name(w)) == Some(w),
        well_known_name(w).len() > 0,
        well_known_name(w)[0] == 'i',
{
    reveal_strlit("iana-bgp-community-types:no-export");
    reveal_strlit("iana-bgp-community-types:no-advertise");
    reveal_strlit("iana-bgp-community-types:no-export-subconfed");
    assert(well_known_name(WellKnownCommunities::NoExport).len()
        != well_known_name(WellKnownCommunities::NoAdvertise).len());
    assert(well_known_name(WellKnownCommunities::NoExport).len()
        != well_known_name(WellKnownCommunities::NoExportSubconfed).len());
    assert(well_known_name(WellKnownCommunities::NoAdvertise).len()
        != well_known_name(WellKnownCommunities::NoExportSubconfed).len());
}

impl WellKnownCommunities {
    pub fn to_u32(&self) -> (r: u32)
        ensures
            r == well_known_value(*self),
    {
        match self {
            WellKnownCommunities::NoExport => 0xFFFFFF01,
            WellKnownCommunities::NoAdvertise => 0xFFFFFF02,
            WellKnownCommunities::NoExportSubconfed => 0xFFFFFF03,
        }
    }

    pub fn from_u32(value: u32) -> (r: Option<WellKnownCommunities>)
        ensures
            r == well_known_of(value),
    {
        match value {
            0xFFFFFF01 => Some(WellKnownCommunities::NoExport),
            0xFFFFFF02 => Some(WellKnownCommunities::NoAdvertise),
            0xFFFFFF03 => Some(WellKnownCommunities::NoExportSubconfed),
            _ => None,
        }
    }

    pub fn to_yang(&self) -> (r: String)
        ensures
            r@ == well_known_name(*self),
    {
        String::from_str(
            match self {
                WellKnownCommunities::NoExport => "iana-bgp-community-types:no-export",
                WellKnownCommunities::NoAdvertise => "iana-bgp-community-types:no-advertise",
                WellKnownCommunities::NoExportSubconfed => "iana-bgp-community-types:no-export-subconfed",
            },
        )
    }

    /// Reads a name back; a text that is no name gives nothing.
    pub fn try_from_yang(value: &str) -> (r: Option<WellKnownCommunities>)
        ensures
            r == well_known_named(value@),
    {
        if same_text(value, "iana-bgp-community-types:no-export") {
            Some(WellKnownCommunities::NoExport)
        } else if same_text(value, "iana-bgp-community-types:no-advertise") {
            Some(WellKnownCommunities::NoAdvertise)
        } else if same_text(value, "iana-bgp-community-types:no-export-subconfed") {
            Some(WellKnownCommunities::NoExportSubconfed)
        } else {
            None
        }
    }
}

/// Two texts with a colon between them.
pub open spec fn colon(a: Seq<char>, b: Seq<char>) -> Seq<char> {
    a + seq![':'] + b
}

fn with_colon(a: String, b: &str) -> (r: String)
    ensures
        r@ == colon(a@, b@),
{
    proof {
        reveal_strlit(":");
        assert(":"@ =~= seq![':']);
    }
    a.concat(":").concat(b)
}

/// The text of a community: the name of a well-known one, else its two halves
/// in decimal.
pub open spec fn comm_text(c: Comm) -> Seq<char> {
    match well_known_of(c.0) {
        Some(w) => well_known_name(w),
        None => colon(decimal((c.0 / 0x1_0000) as nat), decimal((c.0 % 0x1_0000) as nat)),
    }
}

/// The pattern of a community in the "global:local" format.
pub open spec fn comm_pattern() -> Seq<char> {
    "^([0-9]|[1-9][0-9]{1,3}|[1-5][0-9]{4}|6[0-5][0-9]{3}|66[0-4][0-9]{2}|665[0-2][0-9]|6653[0-5]):([0-9]|[1-9][0-9]{1,3}|[1-5][0-9]{4}|6[0-5][0-9]{3}|66[0-4][0-9]{2}|665[0-2][0-9]|6653[0-5])$"@
}

/// Whether a text is two fields that `comm_pattern` admits: numbers up to
/// 66535 without leading zeros.
pub open spec fn is_comm_pair(s: Seq<char>) -> bool {
    let f = fields(s, ':');
    f.len() == 2 && canonical(f[0], 66535) && canonical(f[1], 66535)
}

/// The pattern of a large community in the "global:local:local" format.
pub open spec fn large_comm_pattern() -> Seq<char> {
    "^([0-9]|[1-9][0-9]+):([0-9]|[1-9][0-9]+):([0-9]|[1-9][0-9]+)$"@
}

/// Digits without a needless leading zero.
pub open spec fn is_numeral(f: Seq<char>) -> bool {
    f.len() > 0 && all_digits(f) && (f.len() > 1 ==> f[0] != '0')
}

/// Whether a text is three fields that `large_comm_pattern` admits.
pub open spec fn is_large_triple(s: Seq<char>) -> bool {
    let f = fields(s, ':');
    f.len() == 3 && is_numeral(f[0]) && is_numeral(f[1]) && is_numeral(f[2])
}

/// The views of what the groups of a pattern captured.
pub open spec fn capture_views(v: Seq<Option<String>>) -> Seq<Option<Seq<char>>> {
    Seq::new(
        v.len(),
        |i: int|
            match v[i] {
                Some(s) => Some(s@),
                None => None,
            },
    )
}

/// `regex::Regex::captures` on one of the two patterns of this module: whether
/// the pattern matches the whole text, and what its groups capture then.
#[verifier::external_body]
fn captures(pattern: &str, value: &str) -> (r: Option<Vec<Option<String>>>)
    requires
        pattern@ == comm_pattern() || pattern@ == large_comm_pattern(),
    ensures
        pattern@ == comm_pattern() ==> match r {
            Some(g) => is_comm_pair(value@) && capture_views(g@) == seq![
                Some(fields(value@, ':')[0]),
                Some(fields(value@, ':')[1]),
            ],
            None => !is_comm_pair(value@),
        },
        pattern@ == large_comm_pattern() ==> match r {
            Some(g) => is_large_triple(value@) && capture_views(g@) == seq![
                Some(fields(value@, ':')[0]),
                Some(fields(value@, ':')[1]),
                Some(fields(value@, ':')[2]),
            ],
            None => !is_large_triple(value@),
        },
{
    let re = regex::Regex::new(pattern).unwrap();
    let groups = re.captures(value)?;
    Some(groups.iter().skip(1).map(|m| m.map(|m| m.as_str().to_owned())).collect())
}

/// The community that a text stands for: a well-known name, a plain number or
/// two numbers with a colon between them.
pub open spec fn comm_of(s: Seq<char>) -> Option<Comm> {
    if well_known_named(s) is Some {
        Some(Comm(well_known_value(well_known_named(s)->0)))
    } else if parsed(s, u32::MAX as nat) is Some {
        Some(Comm(parsed(s, u32::MAX as nat)->0 as u32))
    } else if is_comm_pair(s) {
        let f = fields(s, ':');
        Some(Comm(((digits_value(f[0]) as u32) << 16u32) | (digits_value(f[1]) as u32)))
    } else {
        None
    }
}

impl Comm {
    pub fn to_yang(&self) -> (r: String)
        ensures
            r@ == comm_text(*self),
    {
        match WellKnownCommunities::from_u32(self.0) {
            Some(comm) => comm.to_yang(),
            None => {
                let global: u32 = self.0 / 0x1_0000;
                let local: u32 = self.0 % 0x1_0000;
                with_colon(to_decimal(global), to_decimal(local).as_str())
            },
        }
    }

    pub fn try_from_yang(value: &str) -> (r: Option<Comm>)
        ensures
            r == comm_of(value@),
    {
        // Well-known community identity.
        if let Some(comm) = WellKnownCommunities::try_from_yang(value) {
            return Some(Comm(comm.to_u32()));
        }
        // Plain integer community.
        if let Some(comm) = parse_number(value, u32::MAX) {
            return Some(Comm(comm));
        }
        // Community in the "global:local" format.
        let pattern = "^([0-9]|[1-9][0-9]{1,3}|[1-5][0-9]{4}|6[0-5][0-9]{3}|66[0-4][0-9]{2}|665[0-2][0-9]|6653[0-5]):([0-9]|[1-9][0-9]{1,3}|[1-5][0-9]{4}|6[0-5][0-9]{3}|66[0-4][0-9]{2}|665[0-2][0-9]|6653[0-5])$";
        if let Some(groups) = captures(pattern, value) {
            let ghost f = fields(value@, ':');
            assert(capture_views(groups@)[0] == Some(f[0]) && capture_views(groups@)[1] == Some(f[1]));
            assert(capture_views(groups@).len() == 2);
            if let (Some(g), Some(l)) = (&groups[0], &groups[1]) {
                assert(is_digit(f[0][0]) && is_digit(f[1][0]));
                if let (Some(global), Some(local)) = (
                    parse_number(g.as_str(), u32::MAX),
                    parse_number(l.as_str(), u32::MAX),
                ) {
                    return Some(Comm((global << 16) | local));
                }
            }
            assert(false);
        }
        None
    }
}

/// The text that an administrator and a number stand for after the first colon
/// that parts them.
pub open spec fn rt_of_pair(global: Seq<char>, local: Seq<char>) -> Option<RouteTarget> {
    if parsed(global, u16::MAX as nat) is Some && parsed(local, u32::MAX as nat) is Some {
        Some(
            RouteTarget::As2Administrator {
                asn: parsed(global, u16::MAX as nat)->0 as u16,
                number: parsed(local, u32::MAX as nat)->0 as u32,
            },
        )
    } else if parsed_ipv4(global) is Some && parsed(local, u16::MAX as nat) is Some {
        Some(
            RouteTarget::Ipv4Administrator {
                addr: parsed_ipv4(global)->0,
                number: parsed(local, u16::MAX as nat)->0 as u16,
            },
        )
    } else if parsed(global, u32::MAX as nat) is Some && parsed(local, u16::MAX as nat) is Some {
        Some(
            RouteTarget::As4Administrator {
                asn: parsed(global, u32::MAX as nat)->0 as u32,
                number: parsed(local, u16::MAX as nat)->0 as u16,
            },
        )
    } else {
        None
    }
}

/// The route target whose type is written out as a number before it.
pub open spec fn rt_of_typed(kind: Seq<char>, global: Seq<char>, local: Seq<char>) -> Option<RouteTarget> {
    if kind == seq!['0'] {
        if parsed(global, u16::MAX as nat) is Some && parsed(local, u32::MAX as nat) is Some {
            Some(
                RouteTarget::As2Administrator {
                    asn: parsed(global, u16::MAX as nat)->0 as u16,
                    number: parsed(local, u32::MAX as nat)->0 as u32,
                },
            )
        } else {
            None
        }
    } else if kind == seq!['1'] {
        if parsed_ipv4(global) is Some && parsed(local, u16::MAX as nat) is Some {
            Some(
                RouteTarget::Ipv4Administrator {
                    addr: parsed_ipv4(global)->0,
                    number: parsed(local, u16::MAX as nat)->0 as u16,
                },
            )
        } else {
            None
        }
    } else if kind == seq!['2'] {
        if parsed(global, u32::MAX as nat) is Some && parsed(local, u16::MAX as nat) is Some {
            Some(
                RouteTarget::As4Administrator {
                    asn: parsed(global, u32::MAX as nat)->0 as u32,
                    number: parsed(local, u16::MAX as nat)->0 as u16,
                },
            )
        } else {
            None
        }
    } else {
        None
    }
}

fn parse_u16(s: &str) -> (r: Option<u16>)
    ensures
        match r {
            Some(n) => parsed(s@, u16::MAX as nat) == Some(n as nat),
            None => parsed(s@, u16::MAX as nat) is None,
        },
{
    match parse_number(s, 0xFFFF) {
        Some(n) => Some(n as u16),
        None => None,
    }
}

fn parse_pair(global: &str, local: &str) -> (r: Option<RouteTarget>)
    ensures
        r == rt_of_pair(global@, local@),
{
    if let (Some(asn), Some(number)) = (parse_u16(global), parse_number(local, u32::MAX)) {
        return Some(RouteTarget::As2Administrator { asn, number });
    }
    if let (Some(addr), Some(number)) = (parse_ipv4(global), parse_u16(local)) {
        return Some(RouteTarget::Ipv4Administrator { addr, number });
    }
    if let (Some(asn), Some(number)) = (parse_number(global, u32::MAX), parse_u16(local)) {
        return Some(RouteTarget::As4Administrator { asn, number });
    }
    None
}

fn parse_typed(kind: &str, global: &str, local: &str) -> (r: Option<RouteTarget>)
    ensures
        r == rt_of_typed(kind@, global@, local@),
{
    proof {
        reveal_strlit("0");
        reveal_strlit("1");
        reveal_strlit("2");
        assert("0"@ =~= seq!['0'] && "1"@ =~= seq!['1'] && "2"@ =~= seq!['2']);
        assert(seq!['0'][0] == '0' && seq!['1'][0] == '1' && seq!['2'][0] == '2');
    }
    if same_text(kind, "0") {
        match (parse_u16(global), parse_number(local, u32::MAX)) {
            (Some(asn), Some(number)) => Some(RouteTarget::As2Administrator { asn, number }),
            _ => None,
        }
    } else if same_text(kind, "1") {
        match (parse_ipv4(global), parse_u16(local)) {
            (Some(addr), Some(number)) => Some(RouteTarget::Ipv4Administrator { addr, number }),
            _ => None,
        }
    } else if same_text(kind, "2") {
        match (parse_number(global, u32::MAX), parse_u16(local)) {
            (Some(asn), Some(number)) => Some(RouteTarget::As4Administrator { asn, number }),
            _ => None,
        }
    } else {
        None
    }
}

/// Administrator and number of a route target, in text.
pub open spec fn rt_pair_text(rt: RouteTarget) -> Seq<char> {
    match rt {
        RouteTarget::As2Administrator { asn, number } => colon(decimal(asn as nat), decimal(number as nat)),
        RouteTarget::Ipv4Administrator { addr, number } => colon(dotted(addr), decimal(number as nat)),
        RouteTarget::As4Administrator { asn, number } => colon(decimal(asn as nat), decimal(number as nat)),
    }
}

pub open spec fn rt_prefix() -> Seq<char> {
    "route-target:"@
}

/// The text of a route target.
pub open spec fn rt_text(rt: RouteTarget) -> Seq<char> {
    rt_prefix() + rt_pair_text(rt)
}

/// Whether a text starts with another.
pub open spec fn starts_with(s: Seq<char>, p: Seq<char>) -> bool {
    p.len() <= s.len() && s.take(p.len() as int) == p
}

/// The route target that a text stands for.
pub open spec fn rt_of_text(s: Seq<char>) -> Option<RouteTarget> {
    if starts_with(s, rt_prefix()) {
        let rest = s.skip(rt_prefix().len() as int);
        let f = fields(rest, ':');
        if f.len() >= 2 {
            rt_of_pair(f[0], rest.skip(f[0].len() as int + 1))
        } else {
            None
        }
    } else {
        let f = fields(s, ':');
        if f.len() == 3 {
            rt_of_typed(f[0], f[1], f[2])
        } else {
            None
        }
    }
}

/// The route distinguisher with the administrator and number of a route
/// target.
pub open spec fn rd_like(rt: RouteTarget) -> RouteDistinguisher {
    match rt {
        RouteTarget::As2Administrator { asn, number } => RouteDistinguisher::As2Administrator { asn, number },
        RouteTarget::Ipv4Administrator { addr, number } => RouteDistinguisher::Ipv4Administrator { addr, number },
        RouteTarget::As4Administrator { asn, number } => RouteDistinguisher::As4Administrator { asn, number },
    }
}

/// The route target with the administrator and number of a route
/// distinguisher.
pub open spec fn rt_like(rd: RouteDistinguisher) -> RouteTarget {
    match rd {
        RouteDistinguisher::As2Administrator { asn, number } => RouteTarget::As2Administrator { asn, number },
        RouteDistinguisher::Ipv4Administrator { addr, number } => RouteTarget::Ipv4Administrator { addr, number },
        RouteDistinguisher::As4Administrator { asn, number } => RouteTarget::As4Administrator { asn, number },
    }
}

/// The text of a route distinguisher.
pub open spec fn rd_text(rd: RouteDistinguisher) -> Seq<char> {
    rt_pair_text(rt_like(rd))
}

/// The route distinguisher that a text stands for.
pub open spec fn rd_of_text(s: Seq<char>) -> Option<RouteDistinguisher> {
    let f = fields(s, ':');
    let rt = if f.len() == 3 {
        rt_of_typed(f[0], f[1], f[2])
    } else if f.len() == 2 {
        rt_of_pair(f[0], f[1])
    } else {
        None
    };
    match rt {
        Some(t) => Some(rd_like(t)),
        None => None,
    }
}

fn pair_text(rt: RouteTarget) -> (r: String)
    ensures
        r@ == rt_pair_text(rt),
{
    match rt {
        RouteTarget::As2Administrator { asn, number } => with_colon(
            to_decimal(asn as u32),
            to_decimal(number).as_str(),
        ),
        RouteTarget::Ipv4Administrator { addr, number } => with_colon(
            to_dotted(addr),
            to_decimal(number as u32).as_str(),
        ),
        RouteTarget::As4Administrator { asn, number } => with_colon(
            to_decimal(asn),
            to_decimal(number as u32).as_str(),
        ),
    }
}

/// The position of the first separator bounds the first field.
proof fn first_field(s: Seq<char>, i: int, sep: char)
    requires
        0 <= i < s.len(),
        s[i] == sep,
        lacks(s.take(i), sep),
    ensures
        fields(s, sep).len() >= 2,
        fields(s, sep)[0] == s.take(i),
    decreases s.len(),
{
    let p = s.drop_last();
    if i == s.len() - 1 {
        assert(p =~= s.take(i));
        fields_of_one(p, sep);
    } else {
        assert(p.take(i) =~= s.take(i));
        first_field(p, i, sep);
    }
}

fn split_once(s: &str, sep: char) -> (r: Option<(String, String)>)
    ensures
        match r {
            Some(p) => fields(s@, sep).len() >= 2 && p.0@ == fields(s@, sep)[0] && p.1@ == s@.skip(
                fields(s@, sep)[0].len() as int + 1,
            ),
            None => fields(s@, sep).len() == 1,
        },
{
    let n: usize = s.unicode_len();
    let mut i: usize = 0;
    while i < n
        invariant
            n == s@.len(),
            i <= n,
            lacks(s@.take(i as int), sep),
        decreases n - i,
    {
        if s.get_char(i) == sep {
            proof {
                first_field(s@, i as int, sep);
                assert(s@.subrange(0, i as int) =~= s@.take(i as int));
                assert(s@.subrange(i + 1, n as int) =~= s@.skip(i + 1));
            }
            return Some((String::from_str(s.substring_char(0, i)), String::from_str(s.substring_char(i + 1, n))));
        }
        assert forall|j: int| 0 <= j < i + 1 implies #[trigger] s@.take(i + 1)[j] != sep by {
            if j < i {
                assert(s@.take(i as int)[j] == s@[j]);
            }
        }
        i += 1;
    }
    proof {
        assert(s@.take(n as int) =~= s@);
        fields_of_one(s@, sep);
    }
    None
}

fn strip_prefix(s: &str, p: &str) -> (r: Option<String>)
    ensures
        match r {
            Some(t) => starts_with(s@, p@) && t@ == s@.skip(p@.len() as int),
            None => !starts_with(s@, p@),
        },
{
    let n: usize = s.unicode_len();
    let m: usize = p.unicode_len();
    if m <= n && same_text(s.substring_char(0, m), p) {
        assert(s@.subrange(0, m as int) =~= s@.take(m as int));
        assert(s@.subrange(m as int, n as int) =~= s@.skip(m as int));
        Some(String::from_str(s.substring_char(m, n)))
    } else {
        proof {
            if m <= n {
                assert(s@.subrange(0, m as int) =~= s@.take(m as int));
            }
        }
        None
    }
}

impl RouteTarget {
    pub fn to_yang(&self) -> (r: String)
        ensures
            r@ == rt_text(*self),
    {
        String::from_str("route-target:").concat(pair_text(*self).as_str())
    }

    pub fn try_from_yang(value: &str) -> (r: Option<Self>)
        ensures
            r == rt_of_text(value@),
    {
        if let Some(rest) = strip_prefix(value, "route-target:") {
            return match split_once(rest.as_str(), ':') {
                Some((global, local)) => parse_pair(global.as_str(), local.as_str()),
                None => None,
            };
        }
        let f = split(value, ':');
        let ghost g = fields(value@, ':');
        assert(f@.len() == g.len());
        if f.len() != 3 {
            return None;
        }
        assert(texts(f@)[0] == g[0] && texts(f@)[1] == g[1] && texts(f@)[2] == g[2]);
        parse_typed(f[0].as_str(), f[1].as_str(), f[2].as_str())
    }
}

impl RouteDistinguisher {
    pub fn to_yang(&self) -> (r: String)
        ensures
            r@ == rd_text(*self),
    {
        pair_text(
            match *self {
                RouteDistinguisher::As2Administrator { asn, number } => RouteTarget::As2Administrator {
                    asn,
                    number,
                },
                RouteDistinguisher::Ipv4Administrator { addr, number } => RouteTarget::Ipv4Administrator {
                    addr,
                    number,
                },
                RouteDistinguisher::As4Administrator { asn, number } => RouteTarget::As4Administrator {
                    asn,
                    number,
                },
            },
        )
    }

    pub fn try_from_yang(value: &str) -> (r: Option<Self>)
        ensures
            r == rd_of_text(value@),
    {
        let f = split(value, ':');
        let ghost g = fields(value@, ':');
        assert(f@.len() == g.len());
        let rt = if f.len() == 3 {
            assert(texts(f@)[0] == g[0] && texts(f@)[1] == g[1] && texts(f@)[2] == g[2]);
            parse_typed(f[0].as_str(), f[1].as_str(), f[2].as_str())
        } else if f.len() == 2 {
            assert(texts(f@)[0] == g[0] && texts(f@)[1] == g[1]);
            parse_pair(f[0].as_str(), f[1].as_str())
        } else {
            None
        };
        match rt {
            Some(RouteTarget::As2Administrator { asn, number }) => Some(
                RouteDistinguisher::As2Administrator { asn, number },
            ),
            Some(RouteTarget::Ipv4Administrator { addr, number }) => Some(
                RouteDistinguisher::Ipv4Administrator { addr, number },
            ),
            Some(RouteTarget::As4Administrator { asn, number }) => Some(
                RouteDistinguisher::As4Administrator { asn, number },
            ),
            None => None,
        }
    }
}

/// The text of an extended community: that of the route target it carries,
/// else its bytes.
pub open spec fn ext_comm_text(b: Seq<u8>) -> Seq<char> {
    match rt_of(b) {
        Some(rt) => rt_text(rt),
        None => "raw:"@ + joined(Seq::new(8, |i: int| byte_hex(b[i])), seq![':']),
    }
}

/// The segments of an IPv6 address, most significant first.
pub open spec fn segments(a: Ipv6Addr) -> Seq<nat> {
    Seq::new(8, |i: int| (a.bits as int / pow16(7 - i) % 0x1_0000) as nat)
}

/// Powers of two in steps of sixteen bits.
pub open spec fn pow16(i: int) -> int
    decreases i,
{
    if i <= 0 {
        1
    } else {
        0x1_0000 * pow16(i - 1)
    }
}

/// The text of an IPv6 address specific extended community: the segments of
/// the address and the bytes of the number, in hexadecimal.
pub open spec fn ext6_comm_text(c: Extv6Comm) -> Seq<char> {
    "ipv6-raw:"@ + joined(Seq::new(8, |i: int| hex2(segments(c.0)[i])), seq![':']) + seq![':'] + joined(
        Seq::new(4, |i: int| hex2(be4(c.1)[i] as nat)),
        seq![':'],
    )
}

/// The three numbers of a large community.
pub open spec fn large_comm_parts(b: Seq<u8>) -> (u32, u32, u32) {
    (from_be4(b.subrange(0, 4)), from_be4(b.subrange(4, 8)), from_be4(b.subrange(8, 12)))
}

/// The text of a large community.
pub open spec fn large_comm_text(b: Seq<u8>) -> Seq<char> {
    let (x, y, z) = large_comm_parts(b);
    colon(colon(decimal(x as nat), decimal(y as nat)), decimal(z as nat))
}

/// The bytes of three numbers.
pub open spec fn large_comm_bytes(x: u32, y: u32, z: u32) -> Seq<u8> {
    be4(x) + be4(y) + be4(z)
}

/// The bytes of the large community that a text stands for: three numbers of
/// four octets without leading zeros, with a colon between each two of them.
pub open spec fn large_comm_of(s: Seq<char>) -> Option<Seq<u8>> {
    let f = fields(s, ':');
    let max = u32::MAX as nat;
    if f.len() == 3 && canonical(f[0], max) && canonical(f[1], max) && canonical(f[2], max) {
        Some(
            large_comm_bytes(
                digits_value(f[0]) as u32,
                digits_value(f[1]) as u32,
                digits_value(f[2]) as u32,
            ),
        )
    } else {
        None
    }
}

/// The large community that a text stands for.
pub open spec fn large_comm_named(s: Seq<char>) -> Option<LargeComm> {
    match large_comm_of(s) {
        Some(b) => Some(choose|c: LargeComm| c.0@ == b),
        None => None,
    }
}

proof fn hex_joined(s: Seq<Seq<char>>)
    requires
        s.len() > 0,
    ensures
        forall|t: Seq<char>| #[trigger] joined(s.push(t), seq![':']) == joined(s, seq![':']) + seq![':'] + t,
{
    assert forall|t: Seq<char>| #[trigger] joined(s.push(t), seq![':']) == joined(s, seq![':']) + seq![':'] + t by {
        assert(s.push(t).drop_last() =~= s);
    }
}

impl ExtComm {
    pub fn to_yang(&self) -> (r: String)
        ensures
            r@ == ext_comm_text(self.0@),
    {
        if let Some(rt) = RouteTarget::from_ext_comm(self) {
            return rt.to_yang();
        }
        let ghost parts = Seq::new(8, |i: int| byte_hex(self.0@[i]));
        let mut r = to_byte_hex(self.0[0]);
        let mut i: usize = 1;
        assert(parts.take(1) =~= seq![parts[0]]);
        while i < 8
            invariant
                1 <= i <= 8,
                parts == Seq::new(8, |i: int| byte_hex(self.0@[i])),
                r@ == joined(parts.take(i as int), seq![':']),
            decreases 8 - i,
        {
            r = with_colon(r, to_byte_hex(self.0[i]).as_str());
            proof {
                hex_joined(parts.take(i as int));
                assert(parts.take(i + 1) =~= parts.take(i as int).push(parts[i as int]));
            }
            i += 1;
        }
        assert(parts.take(8) =~= parts);
        String::from_str("raw:").concat(r.as_str())
    }
}

proof fn pow16_values()
    ensures
        pow16(0) == 1,
        pow16(1) == 0x1_0000,
        pow16(2) == 0x1_0000_0000,
        pow16(3) == 0x1_0000_0000_0000,
        pow16(4) == 0x1_0000_0000_0000_0000,
        pow16(5) == 0x1_0000_0000_0000_0000_0000,
        pow16(6) == 0x1_0000_0000_0000_0000_0000_0000,
        pow16(7) == 0x1_0000_0000_0000_0000_0000_0000_0000,
{
    reveal_with_fuel(pow16, 9);
}

fn segment(bits: u128, shift: u128) -> (r: u32)
    requires
        shift > 0,
    ensures
        r == bits as int / shift as int % 0x1_0000,
{
    (bits / shift % 0x1_0000) as u32
}

impl Extv6Comm {
    pub fn to_yang(&self) -> (r: String)
        ensures
            r@ == ext6_comm_text(*self),
    {
        let bits: u128 = self.0.bits;
        let b = u32_bytes(self.1);
        let addr: Vec<String> = vec![
            to_hex2(segment(bits, 0x1_0000_0000_0000_0000_0000_0000_0000)),
            to_hex2(segment(bits, 0x1_0000_0000_0000_0000_0000_0000)),
            to_hex2(segment(bits, 0x1_0000_0000_0000_0000_0000)),
            to_hex2(segment(bits, 0x1_0000_0000_0000_0000)),
            to_hex2(segment(bits, 0x1_0000_0000_0000)),
            to_hex2(segment(bits, 0x1_0000_0000)),
            to_hex2(segment(bits, 0x1_0000)),
            to_hex2(segment(bits, 1)),
        ];
        let local: Vec<String> = vec![
            to_hex2(b[0] as u32),
            to_hex2(b[1] as u32),
            to_hex2(b[2] as u32),
            to_hex2(b[3] as u32),
        ];
        proof {
            pow16_values();
            reveal_strlit(":");
            assert(":"@ =~= seq![':']);
            assert(texts(addr@) =~= Seq::new(8, |i: int| hex2(segments(self.0)[i])));
            assert(texts(local@) =~= Seq::new(4, |i: int| hex2(be4(self.1)[i] as nat)));
        }
        let head = String::from_str("ipv6-raw:").concat(join(addr, ":").as_str());
        with_colon(head, join(local, ":").as_str())
    }
}

impl LargeComm {
    pub fn to_yang(&self) -> (r: String)
        ensures
            r@ == large_comm_text(self.0@),
    {
        let b = &self.0;
        assert(b@.subrange(0, 4) =~= seq![b@[0], b@[1], b@[2], b@[3]]);
        assert(b@.subrange(4, 8) =~= seq![b@[4], b@[5], b@[6], b@[7]]);
        assert(b@.subrange(8, 12) =~= seq![b@[8], b@[9], b@[10], b@[11]]);
        let x: u32 = u32_of_bytes(b[0], b[1], b[2], b[3]);
        let y: u32 = u32_of_bytes(b[4], b[5], b[6], b[7]);
        let z: u32 = u32_of_bytes(b[8], b[9], b[10], b[11]);
        with_colon(with_colon(to_decimal(x), to_decimal(y).as_str()), to_decimal(z).as_str())
    }

    /// Reads a large community in the "global:local:local" format.
    pub fn try_from_yang(value: &str) -> (r: Option<LargeComm>)
        ensures
            match r {
                Some(c) => large_comm_of(value@) == Some(c.0@),
                None => large_comm_of(value@) is None,
            },
            r == large_comm_named(value@),
    {
        let pattern = "^([0-9]|[1-9][0-9]+):([0-9]|[1-9][0-9]+):([0-9]|[1-9][0-9]+)$";
        if let Some(groups) = captures(pattern, value) {
            let ghost f = fields(value@, ':');
            let ghost v = capture_views(groups@);
            assert(v.len() == 3);
            assert(v[0] == Some(f[0]) && v[1] == Some(f[1]) && v[2] == Some(f[2]));
            assert(is_digit(f[0][0]) && is_digit(f[1][0]) && is_digit(f[2][0]));
            if let (Some(g), Some(l), Some(m)) = (&groups[0], &groups[1], &groups[2]) {
                if let (Some(global), Some(local1), Some(local2)) = (
                    parse_number(g.as_str(), u32::MAX),
                    parse_number(l.as_str(), u32::MAX),
                    parse_number(m.as_str(), u32::MAX),
                ) {
                    let a = u32_bytes(global);
                    let b = u32_bytes(local1);
                    let c = u32_bytes(local2);
                    let r = LargeComm([a[0], a[1], a[2], a[3], b[0], b[1], b[2], b[3], c[0], c[1], c[2], c[3]]);
                    assert(r.0@ =~= large_comm_bytes(global, local1, local2));
                    let ghost named = large_comm_named(value@)->0;
                    assert(named.0@ == r.0@);
                    assert(named.0 =~= r.0);
                    return Some(r);
                }
            }
        }
        None
    }
}

/// A large community is read back from its text.
pub proof fn large_comm_text_round_trip(b: Seq<u8>)
    requires
        b.len() == 12,
    ensures
        large_comm_of(large_comm_text(b)) == Some(b),
{
    let (x, y, z) = large_comm_parts(b);
    let (dx, dy, dz) = (decimal(x as nat), decimal(y as nat), decimal(z as nat));
    decimal_is_canonical(x as nat);
    decimal_is_canonical(y as nat);
    decimal_is_canonical(z as nat);
    decimal_round_trip(x as nat, u32::MAX as nat);
    decimal_round_trip(y as nat, u32::MAX as nat);
    decimal_round_trip(z as nat, u32::MAX as nat);
    fields_of_one(dx, ':');
    fields_of_append(dx, dy, ':');
    fields_of_append(colon(dx, dy), dz, ':');
    let f = fields(large_comm_text(b), ':');
    assert(f =~= seq![dx, dy, dz]);
    assert(f[0] == dx && f[1] == dy && f[2] == dz);
    from_be4_round_trip(b.subrange(0, 4));
    from_be4_round_trip(b.subrange(4, 8));
    from_be4_round_trip(b.subrange(8, 12));
    assert(large_comm_bytes(x, y, z) =~= b);
}

/// A community is read back from its text.
pub proof fn comm_text_round_trip(c: Comm)
    ensures
        comm_of(comm_text(c)) == Some(c),
{
    match well_known_of(c.0) {
        Some(w) => well_known_names_differ(w),
        None => {
            let g = (c.0 / 0x1_0000) as nat;
            let l = (c.0 % 0x1_0000) as nat;
            let s = comm_text(c);
            decimal_is_canonical(g);
            decimal_is_canonical(l);
            decimal_round_trip(g, 66535);
            decimal_round_trip(l, 66535);
            well_known_names_differ(WellKnownCommunities::NoExport);
            well_known_names_differ(WellKnownCommunities::NoAdvertise);
            well_known_names_differ(WellKnownCommunities::NoExportSubconfed);
            assert(s[0] == decimal(g)[0]);
            assert(is_digit(s[0]));
            assert(s[decimal(g).len() as int] == ':');
            not_a_number(s, decimal(g).len() as int, u32::MAX as nat);
            fields_of_one(decimal(g), ':');
            fields_of_append(decimal(g), decimal(l), ':');
            assert(fields(s, ':') =~= seq![decimal(g), decimal(l)]);
            assert(fields(s, ':')[0] == decimal(g) && fields(s, ':')[1] == decimal(l));
            let n = c.0;
            assert(((n / 0x1_0000u32) << 16u32) | (n % 0x1_0000u32) == n) by (bit_vector);
        },
    }
}

/// What is read of the administrator and the number of a route target: the
/// route target itself, except that a four-octet AS number that fits in two
/// octets is taken for a two-octet one.
pub open spec fn rt_normal(rt: RouteTarget) -> RouteTarget {
    match rt {
        RouteTarget::As4Administrator { asn, number } => if asn <= u16::MAX {
            RouteTarget::As2Administrator { asn: asn as u16, number: number as u32 }
        } else {
            rt
        },
        _ => rt,
    }
}

proof fn pair_round_trip(rt: RouteTarget)
    ensures
        fields(rt_pair_text(rt), ':').len() == 2,
        rt_of_pair(fields(rt_pair_text(rt), ':')[0], fields(rt_pair_text(rt), ':')[1]) == Some(rt_normal(rt)),
        rt_pair_text(rt) == colon(fields(rt_pair_text(rt), ':')[0], fields(rt_pair_text(rt), ':')[1]),
{
    let (g, l) = match rt {
        RouteTarget::As2Administrator { asn, number } => (decimal(asn as nat), number as nat),
        RouteTarget::Ipv4Administrator { addr, number } => (dotted(addr), number as nat),
        RouteTarget::As4Administrator { asn, number } => (decimal(asn as nat), number as nat),
    };
    decimal_round_trip(l, u32::MAX as nat);
    decimal_round_trip(l, u16::MAX as nat);
    match rt {
        RouteTarget::As2Administrator { asn, number } => {
            decimal_round_trip(asn as nat, u16::MAX as nat);
        },
        RouteTarget::Ipv4Administrator { addr, number } => {
            dotted_round_trip(addr, u16::MAX as nat);
        },
        RouteTarget::As4Administrator { asn, number } => {
            decimal_round_trip(asn as nat, u16::MAX as nat);
            decimal_round_trip(asn as nat, u32::MAX as nat);
            not_dotted(asn as nat);
        },
    }
    fields_of_one(g, ':');
    fields_of_append(g, decimal(l), ':');
    let f = fields(rt_pair_text(rt), ':');
    assert(f =~= seq![g, decimal(l)]);
    assert(f[0] == g && f[1] == decimal(l));
}

proof fn not_dotted(n: nat)
    ensures
        parsed_ipv4(decimal(n)) is None,
{
    decimal_round_trip(n, 0);
    fields_of_one(decimal(n), '.');
}

/// A route distinguisher is read back from its text, except that a four-octet
/// AS number that fits in two octets comes back as a two-octet one.
pub proof fn rd_text_round_trip(rd: RouteDistinguisher)
    ensures
        rd_of_text(rd_text(rd)) == Some(rd_like(rt_normal(rt_like(rd)))),
        !(rd is As4Administrator) ==> rd_of_text(rd_text(rd)) == Some(rd),
        rd matches RouteDistinguisher::As4Administrator { asn, number } ==> asn > u16::MAX ==> rd_of_text(rd_text(rd))
            == Some(rd),
{
    pair_round_trip(rt_like(rd));
}

/// A route target is read back from its text, except that a four-octet AS
/// number that fits in two octets comes back as a two-octet one.
pub proof fn rt_text_round_trip(rt: RouteTarget)
    ensures
        rt_of_text(rt_text(rt)) == Some(rt_normal(rt)),
        !(rt is As4Administrator) ==> rt_of_text(rt_text(rt)) == Some(rt),
        rt matches RouteTarget::As4Administrator { asn, number } ==> asn > u16::MAX ==> rt_of_text(rt_text(rt)) == Some(
            rt,
        ),
{
    pair_round_trip(rt);
    let s = rt_text(rt);
    let n = rt_prefix().len() as int;
    assert(s.take(n) =~= rt_prefix());
    let rest = s.skip(n);
    assert(rest =~= rt_pair_text(rt));
    let f = fields(rest, ':');
    assert(rest.skip(f[0].len() as int + 1) =~= f[1]);
}

}
