//! The directory of service providers and gateways: which of them a client
//! may use.

use vstd::prelude::*;
use crate::addressing::{identity_from_base58, identity_key_from_base58};
use crate::versions::{is_minor_version_compatible, minor_version_compatible};

verus! {

/// The bits of the smallest routing score that is not good enough: the
/// single-precision number nearest to nine tenths.
pub const SERVICE_ROUTING_SCORE_THRESHOLD_BITS: u32 = 0x3f66_6666;

/// The bits of positive infinity in single precision.
pub const POSITIVE_INFINITY_BITS: u32 = 0x7f80_0000;

/// Only gateways with a performance above this percentage are used.
pub const GATEWAY_PERFORMANCE_SCORE_THRESHOLD: u64 = 90;

/// The units of one in a performance value: eighteen decimal places.
pub const PERCENT_ONE: u128 = 1_000_000_000_000_000_000;

/// The units of one percent.
pub const PERCENT_UNIT: u128 = 10_000_000_000_000_000;

/// Errors of the directory operations.
#[derive(Debug, Clone, Copy, PartialEq, Eq, Structural)]
pub enum BackendError {
    /// No gateway has a good enough performance.
    NoGatewaysFound,
}

/// How much the user trades speed for privacy.
#[derive(Debug, Clone, Copy, PartialEq, Eq, Structural)]
pub enum PrivacyLevel {
    High,
    Medium,
}

impl Default for PrivacyLevel {
    fn default() -> (level: PrivacyLevel)
        ensures
            level == PrivacyLevel::High,
    {
        PrivacyLevel::High
    }
}

/// A service provider of the directory.
#[derive(Debug, Clone, PartialEq, Eq)]
pub struct DirectoryServiceProvider {
    pub id: String,
    pub description: String,
    /// The address of the provider's client.
    pub address: String,
    pub gateway: String,
}

impl DirectoryServiceProvider {
    /// A copy of the provider.
    pub fn duplicate(&self) -> (copy: DirectoryServiceProvider)
        ensures
            copy == *self,
    {
        DirectoryServiceProvider {
            id: self.id.clone(),
            description: self.description.clone(),
            address: self.address.clone(),
            gateway: self.gateway.clone(),
        }
    }
}

/// A category of the directory with its providers.
#[derive(Debug, Clone, PartialEq, Eq)]
pub struct DirectoryService {
    pub id: String,
    pub description: String,
    pub items: Vec<DirectoryServiceProvider>,
}

/// What the monitor of service providers knows of one of them. The
/// routing score is a single-precision number, held here by its bits.
#[derive(Debug, Clone, PartialEq, Eq)]
pub struct HarbourMasterService {
    pub service_provider_client_id: String,
    pub routing_score_bits: u32,
}

/// One page of a listing.
#[derive(Debug, Clone, PartialEq, Eq)]
pub struct PagedResult<T> {
    pub page: u32,
    pub size: u32,
    pub total: i32,
    pub items: Vec<T>,
}

/// A gateway as the user interface shows it.
#[derive(Debug, Clone, PartialEq, Eq)]
pub struct Gateway {
    pub identity: String,
}

/// A share of one, with eighteen decimal places.
#[derive(Debug, Clone, Copy, PartialEq, Eq, Structural)]
pub struct Percent {
    pub atomics: u128,
}

impl Percent {
    /// The share that `value` percent are; `None` above a hundred.
    pub fn from_percentage_value(value: u64) -> (percent: Option<Percent>)
        ensures
            percent is Some <==> value <= 100,
            percent is Some ==> percent.unwrap().atomics == value * PERCENT_UNIT,
    {
        if value > 100 {
            None
        } else {
            assert(value * PERCENT_UNIT <= 100 * PERCENT_UNIT) by (nonlinear_arith)
                requires
                    value <= 100,
            ;
            Some(Percent { atomics: value as u128 * PERCENT_UNIT })
        }
    }

    /// Whether this share is more than `other`.
    pub fn exceeds(&self, other: &Percent) -> (more: bool)
        ensures
            more == (self.atomics > other.atomics),
    {
        self.atomics > other.atomics
    }
}

/// A bonded gateway with what the directory measured of it.
#[derive(Debug, Clone, PartialEq, Eq)]
pub struct GatewayBondAnnotated {
    /// The gateway's identity key, in Base58.
    pub identity: String,
    pub version: String,
    pub host: String,
    pub clients_port: u16,
    /// The most recent measure of the gateway's performance.
    pub performance: Percent,
}

impl GatewayBondAnnotated {
    /// A copy of the record.
    pub fn duplicate(&self) -> (copy: GatewayBondAnnotated)
        ensures
            copy == *self,
    {
        GatewayBondAnnotated {
            identity: self.identity.clone(),
            version: self.version.clone(),
            host: self.host.clone(),
            clients_port: self.clients_port,
            performance: self.performance,
        }
    }
}

/// A gateway whose latency can be measured.
#[derive(Debug, Clone, PartialEq, Eq)]
pub struct GatewayCandidate {
    pub identity: [u8; 32],
    pub host: String,
    pub clients_port: u16,
}

/// The routing score with these bits is greater than the threshold. The
/// bits of positive numbers grow with the numbers; what lies above
/// infinity is no number, and a set sign bit makes the number negative.
pub open spec fn score_above_threshold(bits: u32) -> bool {
    SERVICE_ROUTING_SCORE_THRESHOLD_BITS < bits <= POSITIVE_INFINITY_BITS
}

/// Whether a routing score, given by its bits, is above the threshold.
pub fn is_score_above_threshold(bits: u32) -> (above: bool)
    ensures
        above == score_above_threshold(bits),
{
    SERVICE_ROUTING_SCORE_THRESHOLD_BITS < bits && bits <= POSITIVE_INFINITY_BITS
}

/// Some active service is this provider and routes well enough.
pub open spec fn service_is_active(
    provider: DirectoryServiceProvider,
    active: Seq<HarbourMasterService>,
) -> bool {
    exists|i: int|
        0 <= i < active.len() && (#[trigger] active[i]).service_provider_client_id@
            == provider.address@ && score_above_threshold(active[i].routing_score_bits)
}

/// The providers that are active, in their order.
pub open spec fn active_among(
    all: Seq<DirectoryServiceProvider>,
    active: Seq<HarbourMasterService>,
) -> Seq<DirectoryServiceProvider>
    decreases all.len(),
{
    if all.len() == 0 {
        Seq::empty()
    } else {
        let earlier = active_among(all.drop_last(), active);
        if service_is_active(all.last(), active) {
            earlier.push(all.last())
        } else {
            earlier
        }
    }
}

/// Whether `provider` is active according to `active`.
fn is_service_active(
    provider: &DirectoryServiceProvider,
    active: &Vec<HarbourMasterService>,
) -> (found: bool)
    ensures
        found == service_is_active(*provider, active@),
{
    let mut i: usize = 0;
    while i < active.len()
        invariant
            i <= active@.len(),
            forall|j: int|
                0 <= j < i ==> !((#[trigger] active@[j]).service_provider_client_id@
                    == provider.address@ && score_above_threshold(active@[j].routing_score_bits)),
        decreases active@.len() - i,
    {
        if active[i].service_provider_client_id == provider.address && is_score_above_threshold(
            active[i].routing_score_bits,
        ) {
            return true;
        }
        i += 1;
    }
    false
}

/// Keeps the providers that the monitor has seen routing well enough.
pub fn filter_out_inactive_services(
    all_services: &[DirectoryServiceProvider],
    active_services: PagedResult<HarbourMasterService>,
) -> (kept: Vec<DirectoryServiceProvider>)
    ensures
        kept@ == active_among(all_services@, active_services.items@),
{
    let mut kept: Vec<DirectoryServiceProvider> = Vec::new();
    let mut i: usize = 0;
    assert(all_services@.subrange(0, 0) =~= Seq::<DirectoryServiceProvider>::empty());
    while i < all_services.len()
        invariant
            i <= all_services@.len(),
            kept@ == active_among(all_services@.subrange(0, i as int), active_services.items@),
        decreases all_services@.len() - i,
    {
        proof {
            assert(all_services@.subrange(0, i + 1).drop_last() =~= all_services@.subrange(
                0,
                i as int,
            ));
        }
        if is_service_active(&all_services[i], &active_services.items) {
            kept.push(all_services[i].duplicate());
        }
        i += 1;
    }
    assert(all_services@.subrange(0, all_services@.len() as int) =~= all_services@);
    kept
}

/// The providers of all categories, one category after the other.
pub open spec fn flattened(categories: Seq<DirectoryService>) -> Seq<DirectoryServiceProvider>
    decreases categories.len(),
{
    if categories.len() == 0 {
        Seq::empty()
    } else {
        flattened(categories.drop_last()) + categories.last().items@
    }
}

/// Puts the providers of all categories in one list.
pub fn flatten_services(categories: &Vec<DirectoryService>) -> (all: Vec<DirectoryServiceProvider>)
    ensures
        all@ == flattened(categories@),
{
    let mut all: Vec<DirectoryServiceProvider> = Vec::new();
    let mut i: usize = 0;
    assert(categories@.subrange(0, 0) =~= Seq::<DirectoryService>::empty());
    while i < categories.len()
        invariant
            i <= categories@.len(),
            all@ == flattened(categories@.subrange(0, i as int)),
        decreases categories@.len() - i,
    {
        let items = &categories[i].items;
        let ghost before = all@;
        let mut k: usize = 0;
        while k < items.len()
            invariant
                k <= items@.len(),
                all@ == before + items@.subrange(0, k as int),
            decreases items@.len() - k,
        {
            all.push(items[k].duplicate());
            assert(all@ =~= before + items@.subrange(0, k + 1));
            k += 1;
        }
        proof {
            assert(items@.subrange(0, items@.len() as int) =~= items@);
            assert(categories@.subrange(0, i + 1).drop_last() =~= categories@.subrange(0,
                i as int));
        }
        i += 1;
    }
    assert(categories@.subrange(0, categories@.len() as int) =~= categories@);
    all
}

/// Whether the list of active services is needed for this privacy level.
pub fn needs_active_services(privacy_level: PrivacyLevel) -> (needed: bool)
    ensures
        needed == !(privacy_level is Medium),
{
    match privacy_level {
        PrivacyLevel::Medium => false,
        PrivacyLevel::High => true,
    }
}

/// The service providers that the user may choose from. With the medium
/// privacy level these are all providers. Otherwise they are the active
/// ones, but all of them where no active service is known or none of the
/// providers is active.
pub fn get_services(
    privacy_level: PrivacyLevel,
    all_services_with_category: Vec<DirectoryService>,
    active_services: Option<PagedResult<HarbourMasterService>>,
) -> (services: Vec<DirectoryServiceProvider>)
    ensures
        ({
            let all = flattened(all_services_with_category@);
            if privacy_level is Medium || active_services is None {
                services@ == all
            } else {
                let active = active_services.unwrap().items@;
                let filtered = active_among(all, active);
                if active.len() == 0 || filtered.len() == 0 {
                    services@ == all
                } else {
                    services@ == filtered
                }
            }
        }),
{
    let all_services = flatten_services(&all_services_with_category);
    if !needs_active_services(privacy_level) {
        return all_services;
    }
    let active_services = match active_services {
        Some(active_services) => active_services,
        None => {
            return all_services;
        },
    };
    if active_services.items.len() == 0 {
        return all_services;
    }
    let filtered_services = filter_out_inactive_services(all_services.as_slice(), active_services);
    if filtered_services.len() == 0 {
        return all_services;
    }
    filtered_services
}

/// The gateways whose version goes together with `our_version`, in their order.
pub open spec fn compatible_among(
    gateways: Seq<GatewayBondAnnotated>,
    our_version: Seq<char>,
) -> Seq<GatewayBondAnnotated>
    decreases gateways.len(),
{
    if gateways.len() == 0 {
        Seq::empty()
    } else {
        let earlier = compatible_among(gateways.drop_last(), our_version);
        if minor_version_compatible(gateways.last().version@, our_version) {
            earlier.push(gateways.last())
        } else {
            earlier
        }
    }
}

/// Keeps the gateways that run a version compatible with ours.
pub fn filter_compatible_gateways(gateways: &Vec<GatewayBondAnnotated>, our_version: &str) -> (kept:
    Vec<GatewayBondAnnotated>)
    ensures
        kept@ == compatible_among(gateways@, our_version@),
{
    let mut kept: Vec<GatewayBondAnnotated> = Vec::new();
    let mut i: usize = 0;
    assert(gateways@.subrange(0, 0) =~= Seq::<GatewayBondAnnotated>::empty());
    while i < gateways.len()
        invariant
            i <= gateways@.len(),
            kept@ == compatible_among(gateways@.subrange(0, i as int), our_version@),
        decreases gateways@.len() - i,
    {
        proof {
            assert(gateways@.subrange(0, i + 1).drop_last() =~= gateways@.subrange(0, i as int));
        }
        if is_minor_version_compatible(gateways[i].version.as_str(), our_version) {
            kept.push(gateways[i].duplicate());
        }
        i += 1;
    }
    assert(gateways@.subrange(0, gateways@.len() as int) =~= gateways@);
    kept
}

/// The performance of the gateway is above the threshold.
pub open spec fn performs_well(gateway: GatewayBondAnnotated) -> bool {
    gateway.performance.atomics > GATEWAY_PERFORMANCE_SCORE_THRESHOLD * PERCENT_UNIT
}

/// The gateways that perform well, in their order.
pub open spec fn performing_among(gateways: Seq<GatewayBondAnnotated>) -> Seq<GatewayBondAnnotated>
    decreases gateways.len(),
{
    if gateways.len() == 0 {
        Seq::empty()
    } else {
        let earlier = performing_among(gateways.drop_last());
        if performs_well(gateways.last()) {
            earlier.push(gateways.last())
        } else {
            earlier
        }
    }
}

/// Keeps the gateways whose performance is above the threshold.
pub fn filter_out_low_performance_gateways(gateways: Vec<GatewayBondAnnotated>) -> (kept: Vec<
    GatewayBondAnnotated,
>)
    ensures
        kept@ == performing_among(gateways@),
{
    let threshold = match Percent::from_percentage_value(GATEWAY_PERFORMANCE_SCORE_THRESHOLD) {
        Some(threshold) => threshold,
        None => Percent { atomics: PERCENT_ONE },
    };
    let mut kept: Vec<GatewayBondAnnotated> = Vec::new();
    let mut i: usize = 0;
    assert(gateways@.subrange(0, 0) =~= Seq::<GatewayBondAnnotated>::empty());
    while i < gateways.len()
        invariant
            i <= gateways@.len(),
            threshold.atomics == GATEWAY_PERFORMANCE_SCORE_THRESHOLD * PERCENT_UNIT,
            kept@ == performing_among(gateways@.subrange(0, i as int)),
        decreases gateways@.len() - i,
    {
        proof {
            assert(gateways@.subrange(0, i + 1).drop_last() =~= gateways@.subrange(0, i as int));
        }
        if gateways[i].performance.exceeds(&threshold) {
            kept.push(gateways[i].duplicate());
        }
        i += 1;
    }
    assert(gateways@.subrange(0, gateways@.len() as int) =~= gateways@);
    kept
}

/// The identities of the gateways, as the user interface shows them.
pub open spec fn shown(gateways: Seq<GatewayBondAnnotated>) -> Seq<Gateway> {
    Seq::new(gateways.len(), |i: int| Gateway { identity: gateways[i].identity })
}

/// All gateways that satisfy the performance threshold; fails when there is none.
pub fn get_gateways(all_gateways: Vec<GatewayBondAnnotated>) -> (res: Result<Vec<Gateway>,
    BackendError>)
    ensures
        res is Ok <==> performing_among(all_gateways@).len() > 0,
        res is Ok ==> res->Ok_0@ == shown(performing_among(all_gateways@)),
        res is Err ==> res->Err_0 == BackendError::NoGatewaysFound,
{
    let filtered = filter_out_low_performance_gateways(all_gateways);
    let mut gateways_filtered: Vec<Gateway> = Vec::new();
    let mut i: usize = 0;
    while i < filtered.len()
        invariant
            i <= filtered@.len(),
            gateways_filtered@.len() == i,
            forall|j: int|
                0 <= j < i ==> #[trigger] gateways_filtered@[j] == (Gateway {
                    identity: filtered@[j].identity,
                }),
        decreases filtered@.len() - i,
    {
        gateways_filtered.push(Gateway { identity: filtered[i].identity.clone() });
        i += 1;
    }
    if gateways_filtered.len() == 0 {
        return Err(BackendError::NoGatewaysFound);
    }
    assert(gateways_filtered@ =~= shown(filtered@));
    Ok(gateways_filtered)
}

/// The identity of the gateway is one of the wanted identities.
pub open spec fn is_wanted(gateway: GatewayBondAnnotated, wanted: Seq<Gateway>) -> bool {
    exists|i: int| 0 <= i < wanted.len() && (#[trigger] wanted[i]).identity@ == gateway.identity@
}

/// The gateways whose identity is wanted, in their order.
pub open spec fn wanted_among(all: Seq<GatewayBondAnnotated>, wanted: Seq<Gateway>) -> Seq<
    GatewayBondAnnotated,
>
    decreases all.len(),
{
    if all.len() == 0 {
        Seq::empty()
    } else {
        let earlier = wanted_among(all.drop_last(), wanted);
        if is_wanted(all.last(), wanted) {
            earlier.push(all.last())
        } else {
            earlier
        }
    }
}

/// Whether the identity of `gateway` is among `wanted`.
fn is_gateway_wanted(gateway: &GatewayBondAnnotated, wanted: &Vec<Gateway>) -> (found: bool)
    ensures
        found == is_wanted(*gateway, wanted@),
{
    let mut i: usize = 0;
    while i < wanted.len()
        invariant
            i <= wanted@.len(),
            forall|j: int| 0 <= j < i ==> (#[trigger] wanted@[j]).identity@ != gateway.identity@,
        decreases wanted@.len() - i,
    {
        if wanted[i].identity == gateway.identity {
            return true;
        }
        i += 1;
    }
    false
}

/// From the gateways of the directory, the ones that are in the given list
/// and perform well: the gateways among which the one with low latency is
/// then selected. Fails when none is left.
pub fn select_gateway_with_low_latency_from_list(
    gateways: Vec<Gateway>,
    all_gateways: Vec<GatewayBondAnnotated>,
) -> (res: Result<Vec<GatewayBondAnnotated>, BackendError>)
    ensures
        res is Ok <==> performing_among(wanted_among(all_gateways@, gateways@)).len() > 0,
        res is Ok ==> res->Ok_0@ == performing_among(wanted_among(all_gateways@, gateways@)),
        res is Err ==> res->Err_0 == BackendError::NoGatewaysFound,
{
    let mut gateways_union_set: Vec<GatewayBondAnnotated> = Vec::new();
    let mut i: usize = 0;
    assert(all_gateways@.subrange(0, 0) =~= Seq::<GatewayBondAnnotated>::empty());
    while i < all_gateways.len()
        invariant
            i <= all_gateways@.len(),
            gateways_union_set@ == wanted_among(all_gateways@.subrange(0, i as int), gateways@),
        decreases all_gateways@.len() - i,
    {
        proof {
            assert(all_gateways@.subrange(0, i + 1).drop_last() =~= all_gateways@.subrange(
                0,
                i as int,
            ));
        }
        if is_gateway_wanted(&all_gateways[i], &gateways) {
            gateways_union_set.push(all_gateways[i].duplicate());
        }
        i += 1;
    }
    assert(all_gateways@.subrange(0, all_gateways@.len() as int) =~= all_gateways@);
    let gateways_filtered = filter_out_low_performance_gateways(gateways_union_set);
    if gateways_filtered.len() == 0 {
        return Err(BackendError::NoGatewaysFound);
    }
    Ok(gateways_filtered)
}

/// The candidates for a measurement of latency: the gateways that perform
/// well. This is what `get_gateway_with_low_latency` selects from.
pub fn get_gateway_with_low_latency(all_gateways: Vec<GatewayBondAnnotated>) -> (candidates: Vec<
    GatewayBondAnnotated,
>)
    ensures
        candidates@ == performing_among(all_gateways@),
{
    filter_out_low_performance_gateways(all_gateways)
}

/// The mathematical content of a candidate.
pub struct CandidateView {
    pub identity: Seq<u8>,
    pub host: String,
    pub clients_port: u16,
}

impl View for GatewayCandidate {
    type V = CandidateView;

    open spec fn view(&self) -> CandidateView {
        CandidateView { identity: self.identity@, host: self.host, clients_port: self.clients_port }
    }
}

/// The candidates that the gateways give: one for each gateway whose
/// identity is a key, in the order of the gateways.
pub open spec fn candidates_among(gateways: Seq<GatewayBondAnnotated>) -> Seq<CandidateView>
    decreases gateways.len(),
{
    if gateways.len() == 0 {
        Seq::empty()
    } else {
        let earlier = candidates_among(gateways.drop_last());
        let gateway = gateways.last();
        match identity_from_base58(gateway.identity@) {
            Some(identity) => earlier.push(
                CandidateView { identity, host: gateway.host, clients_port: gateway.clients_port },
            ),
            None => earlier,
        }
    }
}

/// The views of a sequence of candidates.
pub open spec fn candidate_views(candidates: Seq<GatewayCandidate>) -> Seq<CandidateView> {
    Seq::new(candidates.len(), |i: int| candidates[i]@)
}

/// Turns the gateways into candidates for a measurement of latency,
/// leaving out those whose identity is no key.
pub fn select_gateway_by_latency(gateways: &Vec<GatewayBondAnnotated>) -> (candidates: Vec<
    GatewayCandidate,
>)
    ensures
        candidate_views(candidates@) == candidates_among(gateways@),
{
    let mut candidates: Vec<GatewayCandidate> = Vec::new();
    let mut i: usize = 0;
    assert(gateways@.subrange(0, 0) =~= Seq::<GatewayBondAnnotated>::empty());
    assert(candidate_views(candidates@) =~= Seq::<CandidateView>::empty());
    while i < gateways.len()
        invariant
            i <= gateways@.len(),
            candidate_views(candidates@) == candidates_among(gateways@.subrange(0, i as int)),
        decreases gateways@.len() - i,
    {
        let ghost before = candidates@;
        proof {
            assert(gateways@.subrange(0, i + 1).drop_last() =~= gateways@.subrange(0, i as int));
        }
        match identity_key_from_base58(gateways[i].identity.as_str()) {
            Some(identity) => {
                let candidate = GatewayCandidate {
                    identity,
                    host: gateways[i].host.clone(),
                    clients_port: gateways[i].clients_port,
                };
                candidates.push(candidate);
                assert(candidate_views(candidates@) =~= candidate_views(before).push(candidate@));
            },
            None => {},
        }
        i += 1;
    }
    assert(gateways@.subrange(0, gateways@.len() as int) =~= gateways@);
    candidates
}

} // verus!
