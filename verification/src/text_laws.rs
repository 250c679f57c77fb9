//! What holds of the texts that stand for numbers, addresses and BGP values.
use crate::bgp::AfiSafi;
use crate::bgp::Comm;
use crate::bgp::ExtComm;
use crate::bgp::LargeComm;
use crate::bgp::Origin;
use crate::bgp::RouteDistinguisher;
use crate::bgp::RouteTarget;
use crate::bgp::WellKnownCommunities;
use crate::bgp_text::afi_safi_text_round_trip;
use crate::bgp_text::comm_text_round_trip;
use crate::bgp_text::large_comm_text_round_trip;
use crate::bgp_text::origin_text_round_trip;
use crate::bgp_text::rd_text_round_trip;
use crate::bgp_text::rt_text_round_trip;
use crate::bgp_text::well_known_names_differ;
use crate::ip::Ipv4Addr;
use crate::text::decimal_is_canonical;
use crate::text::decimal_round_trip;
use crate::text::dotted_round_trip;
use crate::text::fields;
use crate::text::fields_of_append;
use crate::text::fields_of_one;
use crate::text::lacks;
use crate::text::parse_ipv4;
use crate::text::parse_number;
use crate::text::split;
use crate::text::texts;
use crate::text::to_byte_hex;
use crate::text::to_decimal;
use crate::text::to_dotted;
use crate::text::to_hex2;
use vstd::prelude::*;

verus! {

/// Whether a text is the decimal digit of a number.
pub open spec fn is_digit_of(s: Seq<char>, d: int) -> bool {
    s.len() == 1 && s[0] as int == 48 + d
}

/// A number is written by its digits: one for a number below ten, and otherwise
/// those of its tens and the last one. It is read back as what it is, if it is
/// not above the limit.
pub proof fn numbers_are_written_in_tens(
    n: u32,
    r: String,
    tens: String,
    s: &str,
    max: u32,
    back: Option<u32>,
)
    requires
        call_ensures(to_decimal, (n,), r),
        call_ensures(to_decimal, ((n / 10) as u32,), tens),
        call_ensures(parse_number, (s, max), back),
        s@ == r@,
    ensures
        n < 10 ==> is_digit_of(r@, n as int),
        n >= 10 ==> r@.len() == tens@.len() + 1 && r@.drop_last() == tens@ && is_digit_of(
            seq![r@.last()],
            (n % 10) as int,
        ),
        n <= max ==> back == Some(n),
        n > max ==> back is None,
{
    decimal_round_trip(n as nat, max as nat);
    if n >= 10 {
        assert(r@.drop_last() =~= tens@);
    }
}

/// A text with anything but digits behind a possible sign is no number, and
/// neither is one without digits; a plus sign changes nothing.
pub proof fn other_texts_are_no_numbers(s: &str, t: &str, max: u32, r: Option<u32>, q: Option<u32>, i: int)
    requires
        call_ensures(parse_number, (s, max), r),
        call_ensures(parse_number, (t, max), q),
        t@ == seq!['+'] + s@,
        s@.len() == 0 || s@[0] != '+',
    ensures
        s@.len() == 0 ==> r is None,
        0 <= i < s@.len() && !('0' <= s@[i] <= '9') ==> r is None,
        q == r,
{
    assert(t@.skip(1) =~= s@);
    assert(t@[0] == '+');
    if 0 <= i < s@.len() && !('0' <= s@[i] <= '9') {
        assert(!crate::text::is_digit(s@[i]));
    }
}

/// A byte is written as two digits in upper case, and a number of up to 32 bits
/// as at least two in lower case.
pub proof fn bytes_are_written_in_sixteens(b: u8, r: String, n: u32, s: String)
    requires
        call_ensures(to_byte_hex, (b,), r),
        call_ensures(to_hex2, (n,), s),
    ensures
        r@.len() == 2,
        b / 16 < 10 ==> r@[0] as int == 48 + b / 16,
        b / 16 >= 10 ==> r@[0] as int == 65 + b / 16 - 10,
        b % 16 < 10 ==> r@[1] as int == 48 + b % 16,
        b % 16 >= 10 ==> r@[1] as int == 65 + b % 16 - 10,
        s@.len() >= 2,
        n < 16 ==> s@.len() == 2 && s@[0] == '0',
        n % 16 < 10 ==> s@.last() as int == 48 + n % 16,
        n % 16 >= 10 ==> s@.last() as int == 97 + n % 16 - 10,
{
    hex_is_not_empty((n / 16) as nat);
}

proof fn hex_is_not_empty(n: nat)
    ensures
        crate::text::hexadecimal(n).len() >= 1,
    decreases n,
{
    if n >= 16 {
        hex_is_not_empty(n / 16);
    }
}

/// An IPv4 address is written as its four bytes with dots between them, and is
/// read back from that.
pub proof fn addresses_are_dotted(
    a: Ipv4Addr,
    r: String,
    o: [u8; 4],
    d0: String,
    d1: String,
    d2: String,
    d3: String,
    s: &str,
    back: Option<Ipv4Addr>,
)
    requires
        call_ensures(to_dotted, (a,), r),
        o@[0] * 0x100_0000 + o@[1] * 0x1_0000 + o@[2] * 0x100 + o@[3] == a.bits,
        call_ensures(to_decimal, (o@[0] as u32,), d0),
        call_ensures(to_decimal, (o@[1] as u32,), d1),
        call_ensures(to_decimal, (o@[2] as u32,), d2),
        call_ensures(to_decimal, (o@[3] as u32,), d3),
        call_ensures(parse_ipv4, (s,), back),
        s@ == r@,
    ensures
        r@ == d0@ + seq!['.'] + d1@ + seq!['.'] + d2@ + seq!['.'] + d3@,
        back == Some(a),
{
    dotted_round_trip(a, 0);
    let n = a.bits;
    assert(n / 0x100_0000 == o@[0]);
    assert(n / 0x1_0000 == o@[0] * 0x100 + o@[1]);
    assert(n / 0x100 == o@[0] * 0x1_0000 + o@[1] * 0x100 + o@[2]);
    assert(n / 0x1_0000 % 256 == o@[1]);
    assert(n / 0x100 % 256 == o@[2]);
    assert(n % 256 == o@[3]);
}

/// A text is split into pieces at each separator: a separator and a piece without
/// one behind a text add that piece, and a text without separators is the only
/// piece.
pub proof fn texts_are_split_at_separators(
    s: &str,
    sep: char,
    r: Vec<String>,
    init: &str,
    q: Vec<String>,
    piece: Seq<char>,
)
    requires
        call_ensures(split, (s, sep), r),
        call_ensures(split, (init, sep), q),
        s@ == init@ + seq![sep] + piece,
        forall|i: int| 0 <= i < piece.len() ==> #[trigger] piece[i] != sep,
    ensures
        r@.len() == q@.len() + 1,
        r@[q@.len() as int]@ == piece,
        forall|i: int| 0 <= i < q@.len() ==> (#[trigger] r@[i])@ == q@[i]@,
        (forall|i: int| 0 <= i < init@.len() ==> #[trigger] init@[i] != sep) ==> q@.len() == 1 && q@[0]@ == init@,
{
    assert(lacks(piece, sep));
    fields_of_append(init@, piece, sep);
    assert(texts(r@).len() == r@.len() && texts(q@).len() == q@.len());
    assert(texts(r@)[q@.len() as int] == piece);
    assert forall|i: int| 0 <= i < q@.len() implies (#[trigger] r@[i])@ == q@[i]@ by {
        assert(texts(r@)[i] == fields(init@, sep)[i]);
        assert(texts(q@)[i] == fields(init@, sep)[i]);
    }
    if forall|i: int| 0 <= i < init@.len() ==> #[trigger] init@[i] != sep {
        assert(lacks(init@, sep));
        fields_of_one(init@, sep);
        assert(texts(q@)[0] == init@);
    }
}

/// Address families go by these names, and are read back from them.
pub proof fn families_have_names(a: AfiSafi, r: String, s: &str, back: Option<AfiSafi>)
    requires
        call_ensures(AfiSafi::to_yang, (&a,), r),
        call_ensures(AfiSafi::try_from_yang, (s,), back),
    ensures
        a == AfiSafi::Ipv4Unicast ==> r@ == "iana-bgp-types:ipv4-unicast"@,
        a == AfiSafi::Ipv6Unicast ==> r@ == "iana-bgp-types:ipv6-unicast"@,
        a == AfiSafi::L3vpnIpv4Unicast ==> r@ == "iana-bgp-types:l3vpn-ipv4-unicast"@,
        a == AfiSafi::L3vpnIpv6Unicast ==> r@ == "iana-bgp-types:l3vpn-ipv6-unicast"@,
        a == AfiSafi::L2vpnEvpn ==> r@ == "iana-bgp-types:l2vpn-evpn"@,
        s@ == r@ <==> back == Some(a),
{
    afi_safi_text_round_trip(a);
}

/// Origins go by these names and numbers, and are read back from their names.
pub proof fn origins_have_names(o: Origin, r: String, n: u8, s: &str, back: Option<Origin>)
    requires
        call_ensures(Origin::to_yang, (&o,), r),
        call_ensures(Origin::to_u8, (&o,), n),
        call_ensures(Origin::try_from_yang, (s,), back),
    ensures
        o == Origin::Igp ==> r@ == "igp"@ && n == 0,
        o == Origin::Egp ==> r@ == "egp"@ && n == 1,
        o == Origin::Incomplete ==> r@ == "incomplete"@ && n == 2,
        s@ == r@ <==> back == Some(o),
{
    origin_text_round_trip(o);
}

/// Well-known communities go by these names and numbers, and are read back from
/// them.
pub proof fn well_known_communities_have_names(
    w: WellKnownCommunities,
    r: String,
    n: u32,
    s: &str,
    back: Option<WellKnownCommunities>,
    m: u32,
    of: Option<WellKnownCommunities>,
)
    requires
        call_ensures(WellKnownCommunities::to_yang, (&w,), r),
        call_ensures(WellKnownCommunities::to_u32, (&w,), n),
        call_ensures(WellKnownCommunities::try_from_yang, (s,), back),
        call_ensures(WellKnownCommunities::from_u32, (m,), of),
    ensures
        w == WellKnownCommunities::NoExport ==> r@ == "iana-bgp-community-types:no-export"@ && n == 0xFFFF_FF01,
        w == WellKnownCommunities::NoAdvertise ==> r@ == "iana-bgp-community-types:no-advertise"@ && n == 0xFFFF_FF02,
        w == WellKnownCommunities::NoExportSubconfed ==> r@ == "iana-bgp-community-types:no-export-subconfed"@ && n
            == 0xFFFF_FF03,
        s@ == r@ <==> back == Some(w),
        m == n <==> of == Some(w),
{
    well_known_names_differ(w);
}

/// A community is written by its name if it is a well-known one, and otherwise as
/// its upper and its lower sixteen bits with a colon between them. It is read back
/// from that, and also from the plain number.
pub proof fn communities_have_texts(
    c: Comm,
    r: String,
    of: Option<WellKnownCommunities>,
    name: String,
    high: String,
    low: String,
    plain: String,
    s: &str,
    back: Option<Comm>,
)
    requires
        call_ensures(Comm::to_yang, (&c,), r),
        call_ensures(WellKnownCommunities::from_u32, (c.0,), of),
        of matches Some(w) ==> call_ensures(WellKnownCommunities::to_yang, (&w,), name),
        call_ensures(to_decimal, ((c.0 / 0x1_0000) as u32,), high),
        call_ensures(to_decimal, ((c.0 % 0x1_0000) as u32,), low),
        call_ensures(to_decimal, (c.0,), plain),
        call_ensures(Comm::try_from_yang, (s,), back),
    ensures
        of is Some ==> r@ == name@,
        of is None ==> r@ == high@ + seq![':'] + low@,
        s@ == r@ ==> back == Some(c),
        s@ == plain@ ==> back == Some(c),
{
    comm_text_round_trip(c);
    decimal_round_trip(c.0 as nat, 0xFFFF_FFFF);
    decimal_is_canonical(c.0 as nat);
    if let Some(w) = of {
        well_known_names_differ(w);
    }
    if s@ == plain@ {
        well_known_names_differ(WellKnownCommunities::NoExport);
        well_known_names_differ(WellKnownCommunities::NoAdvertise);
        well_known_names_differ(WellKnownCommunities::NoExportSubconfed);
        assert(crate::text::is_digit(s@[0]));
    }
}

/// A large community is written as its three numbers with colons between them,
/// and is read back from that.
pub proof fn large_communities_have_texts(
    c: LargeComm,
    r: String,
    x: u32,
    y: u32,
    z: u32,
    dx: String,
    dy: String,
    dz: String,
    s: &str,
    back: Option<LargeComm>,
)
    requires
        call_ensures(LargeComm::to_yang, (&c,), r),
        x == c.0@[0] * 0x100_0000 + c.0@[1] * 0x1_0000 + c.0@[2] * 0x100 + c.0@[3],
        y == c.0@[4] * 0x100_0000 + c.0@[5] * 0x1_0000 + c.0@[6] * 0x100 + c.0@[7],
        z == c.0@[8] * 0x100_0000 + c.0@[9] * 0x1_0000 + c.0@[10] * 0x100 + c.0@[11],
        call_ensures(to_decimal, (x,), dx),
        call_ensures(to_decimal, (y,), dy),
        call_ensures(to_decimal, (z,), dz),
        call_ensures(LargeComm::try_from_yang, (s,), back),
        s@ == r@,
    ensures
        r@ == dx@ + seq![':'] + dy@ + seq![':'] + dz@,
        back matches Some(d) && d.0@ == c.0@,
{
    large_comm_text_round_trip(c.0@);
}

/// A route distinguisher is written as its administrator and its number with a
/// colon between them, an address as such, and a route target in the same way
/// behind its name. Both are read back, except that an AS number of four bytes
/// comes back as one of two if it fits.
pub proof fn targets_and_distinguishers_have_texts(
    rt: RouteTarget,
    rd: RouteDistinguisher,
    r: String,
    q: String,
    s: &str,
    t: &str,
    rt_back: Option<RouteTarget>,
    rd_back: Option<RouteDistinguisher>,
)
    requires
        call_ensures(RouteTarget::to_yang, (&rt,), r),
        call_ensures(RouteDistinguisher::to_yang, (&rd,), q),
        call_ensures(RouteTarget::try_from_yang, (s,), rt_back),
        call_ensures(RouteDistinguisher::try_from_yang, (t,), rd_back),
        s@ == r@,
        t@ == q@,
        rt is As2Administrator <==> rd is As2Administrator,
        rt matches RouteTarget::As2Administrator { asn, number } ==> rd == (RouteDistinguisher::As2Administrator {
            asn,
            number,
        }),
        rt matches RouteTarget::Ipv4Administrator { addr, number } ==> rd == (RouteDistinguisher::Ipv4Administrator {
            addr,
            number,
        }),
        rt matches RouteTarget::As4Administrator { asn, number } ==> rd == (RouteDistinguisher::As4Administrator {
            asn,
            number,
        }),
    ensures
        r@ == "route-target:"@ + q@,
        !(rt is As4Administrator) ==> rt_back == Some(rt) && rd_back == Some(rd),
        rt matches RouteTarget::As4Administrator { asn, number } ==> if asn > 0xFFFF {
            rt_back == Some(rt) && rd_back == Some(rd)
        } else {
            rt_back == Some(RouteTarget::As2Administrator { asn: asn as u16, number: number as u32 }) && rd_back
                == Some(RouteDistinguisher::As2Administrator { asn: asn as u16, number: number as u32 })
        },
{
    rt_text_round_trip(rt);
    rd_text_round_trip(rd);
}

/// The parts of the text of a route distinguisher.
pub proof fn distinguishers_are_written_in_parts(
    rd: RouteDistinguisher,
    q: String,
    n: u32,
    m: u32,
    a: Ipv4Addr,
    dn: String,
    dm: String,
    da: String,
)
    requires
        call_ensures(RouteDistinguisher::to_yang, (&rd,), q),
        call_ensures(to_decimal, (n,), dn),
        call_ensures(to_decimal, (m,), dm),
        call_ensures(to_dotted, (a,), da),
    ensures
        rd matches RouteDistinguisher::As2Administrator { asn, number } ==> asn == n && number == m ==> q@ == dn@ + seq![
            ':',
        ] + dm@,
        rd matches RouteDistinguisher::As4Administrator { asn, number } ==> asn == n && number == m ==> q@ == dn@ + seq![
            ':',
        ] + dm@,
        rd matches RouteDistinguisher::Ipv4Administrator { addr, number } ==> addr == a && number == m ==> q@ == da@
            + seq![':'] + dm@,
{
}

/// An extended community that carries a route target is written as that; any
/// other as its bytes in hexadecimal.
pub proof fn extended_communities_have_texts(
    c: ExtComm,
    r: String,
    of: Option<RouteTarget>,
    text: String,
    h: Seq<String>,
    i: int,
)
    requires
        call_ensures(ExtComm::to_yang, (&c,), r),
        call_ensures(RouteTarget::from_ext_comm, (&c,), of),
        of matches Some(rt) ==> call_ensures(RouteTarget::to_yang, (&rt,), text),
        h.len() == 8,
        forall|k: int| 0 <= k < 8 ==> call_ensures(to_byte_hex, (#[trigger] c.0@[k],), h[k]),
    ensures
        of is Some ==> r@ == text@,
        of is None ==> r@ == "raw:"@ + (h[0]@ + seq![':'] + h[1]@ + seq![':'] + h[2]@ + seq![':'] + h[3]@ + seq![':']
            + h[4]@ + seq![':'] + h[5]@ + seq![':'] + h[6]@ + seq![':'] + h[7]@),
{
    let parts = Seq::new(8, |k: int| crate::text::byte_hex(c.0@[k]));
    assert(c.0@[0] == c.0@[0] && c.0@[1] == c.0@[1] && c.0@[2] == c.0@[2] && c.0@[3] == c.0@[3]);
    assert(c.0@[4] == c.0@[4] && c.0@[5] == c.0@[5] && c.0@[6] == c.0@[6] && c.0@[7] == c.0@[7]);
    reveal_with_fuel(crate::text::joined, 9);
    assert(parts.drop_last().drop_last().drop_last().drop_last().drop_last().drop_last().drop_last()[0] == parts[0]);
}

}
