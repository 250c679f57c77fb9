//! Configuration of segment routing and of BIER.
use crate::ip::AddressFamily;
use crate::ip::IpAddr;
use crate::ip::IpNetwork;
use crate::ord::all_valid;
use crate::ord::models;
use crate::ord::models_insert;
use crate::ord::models_remove;
use crate::ord::Duplicate;
use crate::ord::Ranked;
use crate::ord::SortedMap;
use crate::ord::SortedSet;
use vstd::prelude::*;

verus! {

/// An algorithm of the interior gateway protocols by its number.
#[derive(Clone, Copy, Debug, PartialEq, Eq, Structural)]
pub struct IgpAlgoType(pub u8);

#[derive(Clone, Copy, Debug, PartialEq, Eq, Structural)]
pub enum SidLastHopBehavior {
    ExpNull,
    NoPhp,
    Php,
}

#[derive(Clone, Copy, Debug, PartialEq, Eq, Structural)]
pub struct SrCfgPrefixSid {
    pub index: u32,
    pub last_hop: SidLastHopBehavior,
}

#[derive(Clone, Copy, Debug, PartialEq, Eq, Structural)]
pub struct PrefixSidKey {
    pub prefix: IpNetwork,
    pub algo: IgpAlgoType,
}

#[derive(Clone, Copy, Debug, PartialEq, Eq, Structural)]
pub struct LabelRange {
    pub lower_bound: u32,
    pub upper_bound: u32,
}

/// Configuration of segment routing.
pub struct SrCfg {
    pub prefix_sids: SortedMap<PrefixSidKey, SrCfgPrefixSid>,
    pub srgb: SortedSet<LabelRange>,
    pub srlb: SortedSet<LabelRange>,
}

/// The length of a bit string.
#[derive(Clone, Copy, Debug, PartialEq, Eq, Structural)]
pub struct Bsl(pub u16);

#[derive(Clone, Copy, Debug, PartialEq, Eq, Structural)]
pub enum BierEncapsulationType {
    Mpls,
    Ipv6,
    Ethernet,
}

#[derive(Clone, Copy, Debug, PartialEq, Eq, Structural)]
pub enum UnderlayProtocolType {
    Isis,
    Ospf,
    Bgp,
}

#[derive(Clone, Copy, Debug, PartialEq, Eq, Structural)]
pub enum BierInBiftId {
    Base(u32),
    Encoding(bool),
}

#[derive(Clone, Copy, Debug, PartialEq, Eq, Structural)]
pub enum BierOutBiftId {
    Defined(u32),
    Encoding(bool),
}

/// A sub-domain of an address family.
#[derive(Clone, Copy, Debug, PartialEq, Eq, Structural)]
pub struct SubDomainKey {
    pub sd_id: u8,
    pub af: AddressFamily,
}

#[derive(Clone, Copy, Debug, PartialEq, Eq, Structural)]
pub struct EncapKey {
    pub bsl: Bsl,
    pub encap_type: BierEncapsulationType,
}

#[derive(Clone, Copy, Debug, PartialEq, Eq, Structural)]
pub struct BierEncapsulation {
    pub bsl: Bsl,
    pub encap_type: BierEncapsulationType,
    pub max_si: u8,
    pub in_bift_id: BierInBiftId,
}

pub struct BierSubDomainCfg {
    pub sd_id: u8,
    pub af: AddressFamily,
    pub bfr_prefix: IpNetwork,
    pub underlay_protocol: UnderlayProtocolType,
    pub mt_id: u8,
    pub bfr_id: u16,
    pub bsl: Bsl,
    pub ipa: u8,
    pub bar: u8,
    pub load_balance_num: u8,
    pub encap: SortedMap<EncapKey, BierEncapsulation>,
}

#[derive(Clone, Copy, Debug, PartialEq, Eq, Structural)]
pub struct BiftNbr {
    pub bfr_nbr: IpAddr,
    pub encap_type: BierEncapsulationType,
    pub out_bift_id: BierOutBiftId,
}

pub struct BierBift {
    pub bsl: Bsl,
    pub nbr: SortedMap<IpAddr, BiftNbr>,
}

pub struct BierBiftCfg {
    pub bfr_id: u16,
    pub birt: SortedMap<Bsl, BierBift>,
}

/// Configuration of BIER.
pub struct BierCfg {
    pub sd_cfg: SortedMap<SubDomainKey, BierSubDomainCfg>,
    pub bift_cfg: SortedMap<u16, BierBiftCfg>,
}

impl View for PrefixSidKey {
    type V = PrefixSidKey;

    open spec fn view(&self) -> PrefixSidKey {
        *self
    }
}

impl Ranked for PrefixSidKey {
    open spec fn rank(self) -> int {
        self.prefix.rank() * 256 + self.algo.0
    }

    proof fn rank_identifies(a: Self, b: Self) {
        IpNetwork::rank_identifies(a.prefix, b.prefix);
    }

    proof fn view_is_value(self) {
    }

    fn ranks_below(&self, other: &Self) -> (r: bool) {
        if self.prefix.ranks_below(&other.prefix) {
            return true;
        }
        if other.prefix.ranks_below(&self.prefix) {
            return false;
        }
        self.algo.0 < other.algo.0
    }
}

impl View for LabelRange {
    type V = LabelRange;

    open spec fn view(&self) -> LabelRange {
        *self
    }
}

impl Ranked for LabelRange {
    open spec fn rank(self) -> int {
        self.lower_bound * 0x1_0000_0000 + self.upper_bound
    }

    proof fn rank_identifies(a: Self, b: Self) {
    }

    proof fn view_is_value(self) {
    }

    fn ranks_below(&self, other: &Self) -> (r: bool) {
        self.lower_bound < other.lower_bound || (self.lower_bound == other.lower_bound && self.upper_bound
            < other.upper_bound)
    }
}

impl View for Bsl {
    type V = Bsl;

    open spec fn view(&self) -> Bsl {
        *self
    }
}

impl Ranked for Bsl {
    open spec fn rank(self) -> int {
        self.0 as int
    }

    proof fn rank_identifies(a: Self, b: Self) {
    }

    proof fn view_is_value(self) {
    }

    fn ranks_below(&self, other: &Self) -> (r: bool) {
        self.0 < other.0
    }
}

pub open spec fn family_index(af: AddressFamily) -> int {
    match af {
        AddressFamily::Ipv4 => 0,
        AddressFamily::Ipv6 => 1,
    }
}

impl View for SubDomainKey {
    type V = SubDomainKey;

    open spec fn view(&self) -> SubDomainKey {
        *self
    }
}

impl Ranked for SubDomainKey {
    open spec fn rank(self) -> int {
        self.sd_id * 2 + family_index(self.af)
    }

    proof fn rank_identifies(a: Self, b: Self) {
    }

    proof fn view_is_value(self) {
    }

    fn ranks_below(&self, other: &Self) -> (r: bool) {
        self.sd_id < other.sd_id || (self.sd_id == other.sd_id && self.af == AddressFamily::Ipv4 && other.af
            == AddressFamily::Ipv6)
    }
}

pub open spec fn encap_index(t: BierEncapsulationType) -> int {
    match t {
        BierEncapsulationType::Mpls => 0,
        BierEncapsulationType::Ipv6 => 1,
        BierEncapsulationType::Ethernet => 2,
    }
}

fn encap_number(t: BierEncapsulationType) -> (r: u8)
    ensures
        r == encap_index(t),
{
    match t {
        BierEncapsulationType::Mpls => 0,
        BierEncapsulationType::Ipv6 => 1,
        BierEncapsulationType::Ethernet => 2,
    }
}

impl View for EncapKey {
    type V = EncapKey;

    open spec fn view(&self) -> EncapKey {
        *self
    }
}

impl Ranked for EncapKey {
    open spec fn rank(self) -> int {
        self.bsl.0 * 4 + encap_index(self.encap_type)
    }

    proof fn rank_identifies(a: Self, b: Self) {
    }

    proof fn view_is_value(self) {
    }

    fn ranks_below(&self, other: &Self) -> (r: bool) {
        self.bsl.0 < other.bsl.0 || (self.bsl.0 == other.bsl.0 && encap_number(self.encap_type) < encap_number(
            other.encap_type,
        ))
    }
}

/// `SrCfg` as a mathematical value.
pub struct SrModel {
    pub prefix_sids: Map<PrefixSidKey, SrCfgPrefixSid>,
    pub srgb: Set<LabelRange>,
    pub srlb: Set<LabelRange>,
}

impl View for SrCfg {
    type V = SrModel;

    open spec fn view(&self) -> SrModel {
        SrModel { prefix_sids: self.prefix_sids@, srgb: self.srgb@, srlb: self.srlb@ }
    }
}

/// A change to the configuration of segment routing.
#[derive(Clone, Copy, Debug, PartialEq, Eq, Structural)]
pub enum SrChange {
    PrefixSidCreate { key: PrefixSidKey, psid: SrCfgPrefixSid },
    PrefixSidDelete { key: PrefixSidKey },
    PrefixSidIndex { key: PrefixSidKey, index: u32 },
    PrefixSidLastHop { key: PrefixSidKey, last_hop: SidLastHopBehavior },
    SrgbCreate(LabelRange),
    SrgbDelete(LabelRange),
    SrlbCreate(LabelRange),
    SrlbDelete(LabelRange),
}

/// Whether what a change refers to is configured.
pub open spec fn sr_change_applies(m: SrModel, c: SrChange) -> bool {
    match c {
        SrChange::PrefixSidIndex { key, .. } => m.prefix_sids.contains_key(key),
        SrChange::PrefixSidLastHop { key, .. } => m.prefix_sids.contains_key(key),
        _ => true,
    }
}

/// The configuration after a change.
pub open spec fn sr_changed(m: SrModel, c: SrChange) -> SrModel {
    match c {
        SrChange::PrefixSidCreate { key, psid } => SrModel { prefix_sids: m.prefix_sids.insert(key, psid), ..m },
        SrChange::PrefixSidDelete { key } => SrModel { prefix_sids: m.prefix_sids.remove(key), ..m },
        SrChange::PrefixSidIndex { key, index } => SrModel {
            prefix_sids: m.prefix_sids.insert(key, SrCfgPrefixSid { index, ..m.prefix_sids[key] }),
            ..m
        },
        SrChange::PrefixSidLastHop { key, last_hop } => SrModel {
            prefix_sids: m.prefix_sids.insert(key, SrCfgPrefixSid { last_hop, ..m.prefix_sids[key] }),
            ..m
        },
        SrChange::SrgbCreate(range) => SrModel { srgb: m.srgb.insert(range), ..m },
        SrChange::SrgbDelete(range) => SrModel { srgb: m.srgb.remove(range), ..m },
        SrChange::SrlbCreate(range) => SrModel { srlb: m.srlb.insert(range), ..m },
        SrChange::SrlbDelete(range) => SrModel { srlb: m.srlb.remove(range), ..m },
    }
}

impl SrCfg {
    pub open spec fn wf(&self) -> bool {
        self.prefix_sids.wf() && self.srgb.wf() && self.srlb.wf()
    }

    pub fn new() -> (r: Self)
        ensures
            r.wf(),
            r@ == (SrModel { prefix_sids: Map::empty(), srgb: Set::empty(), srlb: Set::empty() }),
    {
        SrCfg { prefix_sids: SortedMap::new(), srgb: SortedSet::new(), srlb: SortedSet::new() }
    }

    /// A copy of the configuration.
    pub fn duplicate(&self) -> (r: Self)
        requires
            self.wf(),
        ensures
            r.wf(),
            r@ == self@,
    {
        SrCfg {
            prefix_sids: self.prefix_sids.duplicate(),
            srgb: self.srgb.duplicate(),
            srlb: self.srlb.duplicate(),
        }
    }

    /// Makes a change.
    pub fn apply(&mut self, change: SrChange)
        requires
            old(self).wf(),
            sr_change_applies(old(self)@, change),
        ensures
            final(self).wf(),
            final(self)@ == sr_changed(old(self)@, change),
    {
        match change {
            SrChange::PrefixSidCreate { key, psid } => {
                self.prefix_sids.insert(key, psid);
            },
            SrChange::PrefixSidDelete { key } => {
                let _ = self.prefix_sids.remove(&key);
            },
            SrChange::PrefixSidIndex { key, index } => {
                let psid = self.prefix_sids.get_mut(&key).unwrap();
                psid.index = index;
            },
            SrChange::PrefixSidLastHop { key, last_hop } => {
                let psid = self.prefix_sids.get_mut(&key).unwrap();
                psid.last_hop = last_hop;
            },
            SrChange::SrgbCreate(range) => {
                self.srgb.insert(range);
            },
            SrChange::SrgbDelete(range) => {
                let _ = self.srgb.remove(&range);
            },
            SrChange::SrlbCreate(range) => {
                self.srlb.insert(range);
            },
            SrChange::SrlbDelete(range) => {
                let _ = self.srlb.remove(&range);
            },
        }
    }
}

/// `BierSubDomainCfg` as a mathematical value.
pub struct SubDomainModel {
    pub sd_id: u8,
    pub af: AddressFamily,
    pub bfr_prefix: IpNetwork,
    pub underlay_protocol: UnderlayProtocolType,
    pub mt_id: u8,
    pub bfr_id: u16,
    pub bsl: Bsl,
    pub ipa: u8,
    pub bar: u8,
    pub load_balance_num: u8,
    pub encap: Map<EncapKey, BierEncapsulation>,
}

impl View for BierSubDomainCfg {
    type V = SubDomainModel;

    open spec fn view(&self) -> SubDomainModel {
        SubDomainModel {
            sd_id: self.sd_id,
            af: self.af,
            bfr_prefix: self.bfr_prefix,
            underlay_protocol: self.underlay_protocol,
            mt_id: self.mt_id,
            bfr_id: self.bfr_id,
            bsl: self.bsl,
            ipa: self.ipa,
            bar: self.bar,
            load_balance_num: self.load_balance_num,
            encap: self.encap@,
        }
    }
}

/// `BierBift` as a mathematical value.
pub struct BirtModel {
    pub bsl: Bsl,
    pub nbr: Map<IpAddr, BiftNbr>,
}

impl View for BierBift {
    type V = BirtModel;

    open spec fn view(&self) -> BirtModel {
        BirtModel { bsl: self.bsl, nbr: self.nbr@ }
    }
}

/// `BierBiftCfg` as a mathematical value.
pub struct BiftModel {
    pub bfr_id: u16,
    pub birt: Map<Bsl, BirtModel>,
}

impl View for BierBiftCfg {
    type V = BiftModel;

    open spec fn view(&self) -> BiftModel {
        BiftModel { bfr_id: self.bfr_id, birt: models(self.birt@) }
    }
}

/// `BierCfg` as a mathematical value.
pub struct BierModel {
    pub sd_cfg: Map<SubDomainKey, SubDomainModel>,
    pub bift_cfg: Map<u16, BiftModel>,
}

impl View for BierCfg {
    type V = BierModel;

    open spec fn view(&self) -> BierModel {
        BierModel { sd_cfg: models(self.sd_cfg@), bift_cfg: models(self.bift_cfg@) }
    }
}

/// A change to a sub-domain.
#[derive(Clone, Copy, Debug, PartialEq, Eq, Structural)]
pub enum SubDomainChange {
    BfrPrefix(IpNetwork),
    UnderlayProtocol(UnderlayProtocolType),
    MtId(u8),
    BfrId(u16),
    BitStringLength(Bsl),
    Ipa(u8),
    Bar(u8),
    LoadBalanceNum(u8),
    EncapCreate(BierEncapsulation),
    EncapDelete(EncapKey),
    EncapMaxSi(EncapKey, u8),
    EncapInBiftId(EncapKey, BierInBiftId),
}

/// A change to a forwarding table.
#[derive(Clone, Copy, Debug, PartialEq, Eq, Structural)]
pub enum BiftChange {
    BirtCreate(Bsl),
    BirtDelete(Bsl),
    NbrCreate(Bsl, BiftNbr),
    NbrDelete(Bsl, IpAddr),
    NbrEncapType(Bsl, IpAddr, BierEncapsulationType),
    NbrOutBiftId(Bsl, IpAddr, BierOutBiftId),
}

/// A new sub-domain.
#[derive(Clone, Copy, Debug, PartialEq, Eq, Structural)]
pub struct SubDomainCreate {
    pub sd_id: u8,
    pub af: AddressFamily,
    pub bfr_prefix: IpNetwork,
    pub underlay_protocol: UnderlayProtocolType,
    pub mt_id: u8,
    pub bfr_id: u16,
    pub bsl: Bsl,
    pub ipa: u8,
    pub bar: u8,
    pub load_balance_num: u8,
}

/// A change to the configuration of BIER.
#[derive(Clone, Copy, Debug, PartialEq, Eq, Structural)]
pub enum BierChange {
    SubDomainCreate(SubDomainCreate),
    SubDomainDelete(SubDomainKey),
    SubDomain(SubDomainKey, SubDomainChange),
    BiftCreate(u16),
    BiftDelete(u16),
    Bift(u16, BiftChange),
}

pub open spec fn encap_key(e: BierEncapsulation) -> EncapKey {
    EncapKey { bsl: e.bsl, encap_type: e.encap_type }
}

/// Whether what a change refers to is configured.
pub open spec fn sd_change_applies(m: SubDomainModel, c: SubDomainChange) -> bool {
    match c {
        SubDomainChange::EncapMaxSi(key, _) => m.encap.contains_key(key),
        SubDomainChange::EncapInBiftId(key, _) => m.encap.contains_key(key),
        _ => true,
    }
}

/// A sub-domain after a change.
pub open spec fn sd_changed(m: SubDomainModel, c: SubDomainChange) -> SubDomainModel {
    match c {
        SubDomainChange::BfrPrefix(bfr_prefix) => SubDomainModel { bfr_prefix, ..m },
        SubDomainChange::UnderlayProtocol(underlay_protocol) => SubDomainModel { underlay_protocol, ..m },
        SubDomainChange::MtId(mt_id) => SubDomainModel { mt_id, ..m },
        SubDomainChange::BfrId(bfr_id) => SubDomainModel { bfr_id, ..m },
        SubDomainChange::BitStringLength(bsl) => SubDomainModel { bsl, ..m },
        SubDomainChange::Ipa(ipa) => SubDomainModel { ipa, ..m },
        SubDomainChange::Bar(bar) => SubDomainModel { bar, ..m },
        SubDomainChange::LoadBalanceNum(load_balance_num) => SubDomainModel { load_balance_num, ..m },
        SubDomainChange::EncapCreate(e) => SubDomainModel { encap: m.encap.insert(encap_key(e), e), ..m },
        SubDomainChange::EncapDelete(key) => SubDomainModel { encap: m.encap.remove(key), ..m },
        SubDomainChange::EncapMaxSi(key, max_si) => SubDomainModel {
            encap: m.encap.insert(key, BierEncapsulation { max_si, ..m.encap[key] }),
            ..m
        },
        SubDomainChange::EncapInBiftId(key, in_bift_id) => SubDomainModel {
            encap: m.encap.insert(key, BierEncapsulation { in_bift_id, ..m.encap[key] }),
            ..m
        },
    }
}

/// Whether what a change refers to is configured.
pub open spec fn bift_change_applies(m: BiftModel, c: BiftChange) -> bool {
    match c {
        BiftChange::BirtCreate(_) => true,
        BiftChange::BirtDelete(_) => true,
        BiftChange::NbrCreate(bsl, _) => m.birt.contains_key(bsl),
        BiftChange::NbrDelete(bsl, _) => m.birt.contains_key(bsl),
        BiftChange::NbrEncapType(bsl, nbr, _) => m.birt.contains_key(bsl) && m.birt[bsl].nbr.contains_key(nbr),
        BiftChange::NbrOutBiftId(bsl, nbr, _) => m.birt.contains_key(bsl) && m.birt[bsl].nbr.contains_key(nbr),
    }
}

/// The neighbors for a bit string length, with another one.
pub open spec fn with_nbr(m: BiftModel, bsl: Bsl, addr: IpAddr, nbr: BiftNbr) -> BiftModel {
    BiftModel {
        birt: m.birt.insert(bsl, BirtModel { nbr: m.birt[bsl].nbr.insert(addr, nbr), ..m.birt[bsl] }),
        ..m
    }
}

/// A forwarding table after a change.
pub open spec fn bift_changed(m: BiftModel, c: BiftChange) -> BiftModel {
    match c {
        BiftChange::BirtCreate(bsl) => BiftModel {
            birt: m.birt.insert(bsl, BirtModel { bsl, nbr: Map::empty() }),
            ..m
        },
        BiftChange::BirtDelete(bsl) => BiftModel { birt: m.birt.remove(bsl), ..m },
        BiftChange::NbrCreate(bsl, nbr) => with_nbr(m, bsl, nbr.bfr_nbr, nbr),
        BiftChange::NbrDelete(bsl, addr) => BiftModel {
            birt: m.birt.insert(bsl, BirtModel { nbr: m.birt[bsl].nbr.remove(addr), ..m.birt[bsl] }),
            ..m
        },
        BiftChange::NbrEncapType(bsl, addr, encap_type) => with_nbr(
            m,
            bsl,
            addr,
            BiftNbr { encap_type, ..m.birt[bsl].nbr[addr] },
        ),
        BiftChange::NbrOutBiftId(bsl, addr, out_bift_id) => with_nbr(
            m,
            bsl,
            addr,
            BiftNbr { out_bift_id, ..m.birt[bsl].nbr[addr] },
        ),
    }
}

/// Whether what a change refers to is configured.
pub open spec fn bier_change_applies(m: BierModel, c: BierChange) -> bool {
    match c {
        BierChange::SubDomain(key, change) => m.sd_cfg.contains_key(key) && sd_change_applies(m.sd_cfg[key], change),
        BierChange::Bift(bfr_id, change) => m.bift_cfg.contains_key(bfr_id) && bift_change_applies(
            m.bift_cfg[bfr_id],
            change,
        ),
        _ => true,
    }
}

pub open spec fn new_sub_domain(c: SubDomainCreate) -> SubDomainModel {
    SubDomainModel {
        sd_id: c.sd_id,
        af: c.af,
        bfr_prefix: c.bfr_prefix,
        underlay_protocol: c.underlay_protocol,
        mt_id: c.mt_id,
        bfr_id: c.bfr_id,
        bsl: c.bsl,
        ipa: c.ipa,
        bar: c.bar,
        load_balance_num: c.load_balance_num,
        encap: Map::empty(),
    }
}

/// The configuration after a change.
pub open spec fn bier_changed(m: BierModel, c: BierChange) -> BierModel {
    match c {
        BierChange::SubDomainCreate(s) => BierModel {
            sd_cfg: m.sd_cfg.insert(SubDomainKey { sd_id: s.sd_id, af: s.af }, new_sub_domain(s)),
            ..m
        },
        BierChange::SubDomainDelete(key) => BierModel { sd_cfg: m.sd_cfg.remove(key), ..m },
        BierChange::SubDomain(key, change) => BierModel {
            sd_cfg: m.sd_cfg.insert(key, sd_changed(m.sd_cfg[key], change)),
            ..m
        },
        BierChange::BiftCreate(bfr_id) => BierModel {
            bift_cfg: m.bift_cfg.insert(bfr_id, BiftModel { bfr_id, birt: Map::empty() }),
            ..m
        },
        BierChange::BiftDelete(bfr_id) => BierModel { bift_cfg: m.bift_cfg.remove(bfr_id), ..m },
        BierChange::Bift(bfr_id, change) => BierModel {
            bift_cfg: m.bift_cfg.insert(bfr_id, bift_changed(m.bift_cfg[bfr_id], change)),
            ..m
        },
    }
}

impl BierSubDomainCfg {
    pub open spec fn wf(&self) -> bool {
        self.encap.wf()
    }

    fn apply(&mut self, change: SubDomainChange)
        requires
            old(self).wf(),
            sd_change_applies(old(self)@, change),
        ensures
            final(self).wf(),
            final(self)@ == sd_changed(old(self)@, change),
    {
        match change {
            SubDomainChange::BfrPrefix(bfr_prefix) => {
                self.bfr_prefix = bfr_prefix;
            },
            SubDomainChange::UnderlayProtocol(underlay_protocol) => {
                self.underlay_protocol = underlay_protocol;
            },
            SubDomainChange::MtId(mt_id) => {
                self.mt_id = mt_id;
            },
            SubDomainChange::BfrId(bfr_id) => {
                self.bfr_id = bfr_id;
            },
            SubDomainChange::BitStringLength(bsl) => {
                self.bsl = bsl;
            },
            SubDomainChange::Ipa(ipa) => {
                self.ipa = ipa;
            },
            SubDomainChange::Bar(bar) => {
                self.bar = bar;
            },
            SubDomainChange::LoadBalanceNum(load_balance_num) => {
                self.load_balance_num = load_balance_num;
            },
            SubDomainChange::EncapCreate(e) => {
                self.encap.insert(EncapKey { bsl: e.bsl, encap_type: e.encap_type }, e);
            },
            SubDomainChange::EncapDelete(key) => {
                let _ = self.encap.remove(&key);
            },
            SubDomainChange::EncapMaxSi(key, max_si) => {
                let encap = self.encap.get_mut(&key).unwrap();
                encap.max_si = max_si;
            },
            SubDomainChange::EncapInBiftId(key, in_bift_id) => {
                let encap = self.encap.get_mut(&key).unwrap();
                encap.in_bift_id = in_bift_id;
            },
        }
    }
}

impl BierBiftCfg {
    pub open spec fn wf(&self) -> bool {
        self.birt.wf() && all_valid(self.birt@)
    }

    fn apply(&mut self, change: BiftChange)
        requires
            old(self).wf(),
            bift_change_applies(old(self)@, change),
        ensures
            final(self).wf(),
            final(self)@ == bift_changed(old(self)@, change),
    {
        let ghost birt = self.birt@;
        match change {
            BiftChange::BirtCreate(bsl) => {
                let bift = BierBift { bsl, nbr: SortedMap::new() };
                proof {
                    models_insert(birt, bsl, bift);
                }
                self.birt.insert(bsl, bift);
            },
            BiftChange::BirtDelete(bsl) => {
                proof {
                    models_remove(birt, bsl);
                }
                let _ = self.birt.remove(&bsl);
            },
            BiftChange::NbrCreate(bsl, nbr) => {
                let bift = self.birt.get_mut(&bsl).unwrap();
                bift.nbr.insert(nbr.bfr_nbr, nbr);
                proof {
                    models_insert(birt, bsl, self.birt@[bsl]);
                }
            },
            BiftChange::NbrDelete(bsl, addr) => {
                let bift = self.birt.get_mut(&bsl).unwrap();
                let _ = bift.nbr.remove(&addr);
                proof {
                    models_insert(birt, bsl, self.birt@[bsl]);
                }
            },
            BiftChange::NbrEncapType(bsl, addr, encap_type) => {
                let bift = self.birt.get_mut(&bsl).unwrap();
                let nbr = bift.nbr.get_mut(&addr).unwrap();
                nbr.encap_type = encap_type;
                proof {
                    models_insert(birt, bsl, self.birt@[bsl]);
                }
            },
            BiftChange::NbrOutBiftId(bsl, addr, out_bift_id) => {
                let bift = self.birt.get_mut(&bsl).unwrap();
                let nbr = bift.nbr.get_mut(&addr).unwrap();
                nbr.out_bift_id = out_bift_id;
                proof {
                    models_insert(birt, bsl, self.birt@[bsl]);
                }
            },
        }
    }
}

impl Duplicate for BierSubDomainCfg {
    open spec fn valid(&self) -> bool {
        self.wf()
    }

    fn copy_of(&self) -> (r: Self) {
        BierSubDomainCfg {
            sd_id: self.sd_id,
            af: self.af,
            bfr_prefix: self.bfr_prefix,
            underlay_protocol: self.underlay_protocol,
            mt_id: self.mt_id,
            bfr_id: self.bfr_id,
            bsl: self.bsl,
            ipa: self.ipa,
            bar: self.bar,
            load_balance_num: self.load_balance_num,
            encap: self.encap.duplicate(),
        }
    }
}

impl Duplicate for BierBift {
    open spec fn valid(&self) -> bool {
        self.nbr.wf()
    }

    fn copy_of(&self) -> (r: Self) {
        BierBift { bsl: self.bsl, nbr: self.nbr.duplicate() }
    }
}

impl Duplicate for BierBiftCfg {
    open spec fn valid(&self) -> bool {
        self.wf()
    }

    fn copy_of(&self) -> (r: Self) {
        BierBiftCfg { bfr_id: self.bfr_id, birt: self.birt.deep_copy() }
    }
}

impl BierCfg {
    /// A copy of the configuration.
    pub fn duplicate(&self) -> (r: Self)
        requires
            self.wf(),
        ensures
            r.wf(),
            r@ == self@,
    {
        BierCfg { sd_cfg: self.sd_cfg.deep_copy(), bift_cfg: self.bift_cfg.deep_copy() }
    }
}

impl BierCfg {
    pub open spec fn wf(&self) -> bool {
        self.sd_cfg.wf() && all_valid(self.sd_cfg@) && self.bift_cfg.wf() && all_valid(self.bift_cfg@)
    }

    pub fn new() -> (r: Self)
        ensures
            r.wf(),
            r@ == (BierModel { sd_cfg: Map::empty(), bift_cfg: Map::empty() }),
    {
        let r = BierCfg { sd_cfg: SortedMap::new(), bift_cfg: SortedMap::new() };
        assert(r@.sd_cfg =~= Map::<SubDomainKey, SubDomainModel>::empty());
        assert(r@.bift_cfg =~= Map::<u16, BiftModel>::empty());
        r
    }

    /// Makes a change.
    pub fn apply(&mut self, change: BierChange)
        requires
            old(self).wf(),
            bier_change_applies(old(self)@, change),
        ensures
            final(self).wf(),
            final(self)@ == bier_changed(old(self)@, change),
    {
        let ghost sd_cfg = self.sd_cfg@;
        let ghost bift_cfg = self.bift_cfg@;
        match change {
            BierChange::SubDomainCreate(s) => {
                let key = SubDomainKey { sd_id: s.sd_id, af: s.af };
                let sd = BierSubDomainCfg {
                    sd_id: s.sd_id,
                    af: s.af,
                    bfr_prefix: s.bfr_prefix,
                    underlay_protocol: s.underlay_protocol,
                    mt_id: s.mt_id,
                    bfr_id: s.bfr_id,
                    bsl: s.bsl,
                    ipa: s.ipa,
                    bar: s.bar,
                    load_balance_num: s.load_balance_num,
                    encap: SortedMap::new(),
                };
                proof {
                    models_insert(sd_cfg, key, sd);
                }
                self.sd_cfg.insert(key, sd);
            },
            BierChange::SubDomainDelete(key) => {
                proof {
                    models_remove(sd_cfg, key);
                }
                let _ = self.sd_cfg.remove(&key);
            },
            BierChange::SubDomain(key, change) => {
                let sd = self.sd_cfg.get_mut(&key).unwrap();
                sd.apply(change);
                proof {
                    models_insert(sd_cfg, key, self.sd_cfg@[key]);
                }
            },
            BierChange::BiftCreate(bfr_id) => {
                let bift = BierBiftCfg { bfr_id, birt: SortedMap::new() };
                proof {
                    assert(bift@.birt =~= Map::<Bsl, BirtModel>::empty());
                    models_insert(bift_cfg, bfr_id, bift);
                }
                self.bift_cfg.insert(bfr_id, bift);
            },
            BierChange::BiftDelete(bfr_id) => {
                proof {
                    models_remove(bift_cfg, bfr_id);
                }
                let _ = self.bift_cfg.remove(&bfr_id);
            },
            BierChange::Bift(bfr_id, change) => {
                let bift = self.bift_cfg.get_mut(&bfr_id).unwrap();
                bift.apply(change);
                proof {
                    models_insert(bift_cfg, bfr_id, self.bift_cfg@[bfr_id]);
                }
            },
        }
    }
}

/// How labels are derived for packets that come in: from a base, or else by
/// whether an encoding is used.
pub fn in_bift_id(base: Option<u32>, encoding: Option<bool>) -> (r: Option<BierInBiftId>)
    ensures
        r == match (base, encoding) {
            (Some(base), _) => Some(BierInBiftId::Base(base)),
            (None, Some(encoding)) => Some(BierInBiftId::Encoding(encoding)),
            (None, None) => None,
        },
{
    match (base, encoding) {
        (Some(base), _) => Some(BierInBiftId::Base(base)),
        (None, Some(encoding)) => Some(BierInBiftId::Encoding(encoding)),
        (None, None) => None,
    }
}

/// How labels are derived for packets that go out to a neighbor: a defined one,
/// or else by whether an encoding is used.
pub fn out_bift_id(defined: Option<u32>, encoding: Option<bool>) -> (r: Option<BierOutBiftId>)
    ensures
        r == match (defined, encoding) {
            (Some(id), _) => Some(BierOutBiftId::Defined(id)),
            (None, Some(encoding)) => Some(BierOutBiftId::Encoding(encoding)),
            (None, None) => None,
        },
{
    match (defined, encoding) {
        (Some(id), _) => Some(BierOutBiftId::Defined(id)),
        (None, Some(encoding)) => Some(BierOutBiftId::Encoding(encoding)),
        (None, None) => None,
    }
}

/// Why a sub-domain is not valid.
#[derive(Clone, Copy, Debug, PartialEq, Eq, Structural)]
pub enum SubDomainError {
    /// The address family differs from that of the BFR prefix.
    AddressFamily,
    /// The multi-topology identifier is out of range.
    MtId,
}

/// Validates a sub-domain before it is configured.
pub fn validate_sub_domain(af: AddressFamily, bfr_prefix: Option<IpNetwork>, mt_id: Option<u8>) -> (r: Result<
    (),
    SubDomainError,
>)
    ensures
        r == if bfr_prefix matches Some(p) && p.address_family_spec() != af {
            Err::<(), SubDomainError>(SubDomainError::AddressFamily)
        } else if mt_id matches Some(m) && m > 128 {
            Err::<(), SubDomainError>(SubDomainError::MtId)
        } else {
            Ok(())
        },
{
    if let Some(bfr_prefix) = bfr_prefix {
        if bfr_prefix.address_family() != af {
            return Err(SubDomainError::AddressFamily);
        }
    }
    if let Some(mt_id) = mt_id {
        if mt_id > 128 {
            return Err(SubDomainError::MtId);
        }
    }
    Ok(())
}

}
