//! Resolving a target to one IP address.
//!
//! The caller reads the hostname as an address literal and, when that is not
//! enough, looks the name up; this module decides what the outcome is.

use vstd::prelude::*;
use crate::target::{IPVersion, IpAddress, Target};
use crate::PingCreationError;

verus! {

/// The first address of `addrs` that belongs to the family `version` asks for.
pub open spec fn first_fitting(addrs: Seq<IpAddress>, version: IPVersion) -> Option<IpAddress>
    decreases addrs.len(),
{
    if addrs.len() == 0 {
        None
    } else if addrs[0].fits(version) {
        Some(addrs[0])
    } else {
        first_fitting(addrs.drop_first(), version)
    }
}

/// What resolving a target gives.
///
/// `literal` is the hostname read as an IP address literal (of either family),
/// when it is one; `lookup` is what looking the hostname up gave: its addresses
/// in order, or `None` when the lookup failed. An address target resolves to
/// itself; a literal hostname resolves to its address when the family fits and
/// fails otherwise; any other hostname resolves to the first looked-up address
/// of a fitting family, and fails when there is none.
pub open spec fn resolution(
    target: Target,
    literal: Option<IpAddress>,
    lookup: Option<Seq<IpAddress>>,
) -> Result<IpAddress, Seq<char>> {
    match target {
        Target::IP(ip) => Ok(ip),
        Target::Hostname { domain, version } => match literal {
            Some(ip) => if ip.fits(version) {
                Ok(ip)
            } else {
                Err(domain@)
            },
            None => match lookup {
                None => Err(domain@),
                Some(addrs) => match first_fitting(addrs, version) {
                    Some(ip) => Ok(ip),
                    None => Err(domain@),
                },
            },
        },
    }
}

/// The outcome of resolution as the function returns it: an address, or a
/// hostname error naming the hostname.
pub open spec fn resolved_as(
    r: Result<IpAddress, PingCreationError>,
    expected: Result<IpAddress, Seq<char>>,
) -> bool {
    match (r, expected) {
        (Ok(a), Ok(b)) => a == b,
        (Err(PingCreationError::HostnameError(name)), Err(n)) => name@ == n,
        _ => false,
    }
}

/// Whether resolving the target needs a lookup of its hostname: only a
/// hostname that is not an address literal does.
pub fn needs_lookup(target: &Target, literal: &Option<IpAddress>) -> (r: bool)
    ensures
        r == (*target is Hostname && *literal is None),
{
    match target {
        Target::IP(_) => false,
        Target::Hostname { .. } => literal.is_none(),
    }
}

fn pick_first_fitting(candidates: Vec<IpAddress>, version: IPVersion) -> (r: Option<IpAddress>)
    ensures
        r == first_fitting(candidates@, version),
{
    let ghost all = candidates@;
    let mut addrs = candidates;
    let mut k: usize = 0;
    proof {
        assert(all.subrange(0, all.len() as int) =~= all);
    }
    while k < addrs.len()
        invariant
            addrs@ == all,
            all == candidates@,
            k <= all.len(),
            first_fitting(all, version) == first_fitting(all.subrange(k as int, all.len() as int), version),
        decreases all.len() - k,
    {
        proof {
            assert(all.subrange(k as int, all.len() as int).drop_first() =~= all.subrange(
                k + 1,
                all.len() as int,
            ));
        }
        if addrs[k].matches_version(version) {
            assert(all.subrange(k as int, all.len() as int)[0] == all[k as int]);
            let found = addrs.swap_remove(k);
            return Some(found);
        }
        k += 1;
    }
    proof {
        assert(all.subrange(k as int, all.len() as int) =~= Seq::<IpAddress>::empty());
    }
    None
}

/// Resolve a target to the IP address to ping.
///
/// # Arguments
/// * `target` - Target address (IP or hostname)
/// * `literal` - the hostname read as an IP address literal, when it is one
/// * `lookup` - the addresses that looking the hostname up gave, in order, or
///   `None` when the lookup failed; only consulted when [`needs_lookup`] says so
///
/// # Returns
/// * `Ok(IpAddress)` - Successfully resolved IP address
/// * `Err(PingCreationError::HostnameError)` - Resolution failed
pub fn resolve_target(
    target: &Target,
    literal: Option<IpAddress>,
    lookup: Option<Vec<IpAddress>>,
) -> (r: Result<IpAddress, PingCreationError>)
    ensures
        resolved_as(
            r,
            resolution(
                *target,
                literal,
                match lookup {
                    Some(v) => Some(v@),
                    None => None,
                },
            ),
        ),
{
    match target {
        Target::IP(ip) => Ok(ip.clone_address()),
        Target::Hostname { domain, version } => match literal {
            Some(ip) => {
                if ip.matches_version(*version) {
                    Ok(ip)
                } else {
                    Err(PingCreationError::HostnameError(domain.clone()))
                }
            },
            None => match lookup {
                None => Err(PingCreationError::HostnameError(domain.clone())),
                Some(addrs) => match pick_first_fitting(addrs, *version) {
                    Some(ip) => Ok(ip),
                    None => Err(PingCreationError::HostnameError(domain.clone())),
                },
            },
        },
    }
}

/// An address target resolves to itself, whatever else is handed in.
pub proof fn law_address_resolves_to_itself(
    ip: IpAddress,
    literal: Option<IpAddress>,
    lookup: Option<Seq<IpAddress>>,
)
    ensures
        resolution(Target::IP(ip), literal, lookup) == Ok::<IpAddress, Seq<char>>(ip),
{
}

/// A resolved hostname always has an address of the family its constraint
/// asks for.
pub proof fn law_resolved_family_fits(
    domain: String,
    version: IPVersion,
    literal: Option<IpAddress>,
    lookup: Option<Seq<IpAddress>>,
)
    ensures
        resolution(Target::Hostname { domain, version }, literal, lookup) matches Ok(ip) ==> ip.fits(
            version,
        ),
{
    if let Some(addrs) = lookup {
        lemma_first_fitting_fits(addrs, version);
    }
}

proof fn lemma_first_fitting_fits(addrs: Seq<IpAddress>, version: IPVersion)
    ensures
        first_fitting(addrs, version) matches Some(ip) ==> ip.fits(version) && addrs.contains(ip),
    decreases addrs.len(),
{
    if addrs.len() > 0 && !addrs[0].fits(version) {
        lemma_first_fitting_fits(addrs.drop_first(), version);
        if let Some(ip) = first_fitting(addrs, version) {
            let k = choose|k: int| 0 <= k < addrs.drop_first().len() && addrs.drop_first()[k] == ip;
            assert(addrs[k + 1] == ip);
        }
    } else if addrs.len() > 0 {
        assert(addrs[0] == addrs[0]);
    }
}

/// When no lookup is needed, what the lookup gave does not matter; when one is
/// needed, the looked-up addresses are the only candidates.
pub proof fn law_lookup_consulted_only_when_needed(
    target: Target,
    literal: Option<IpAddress>,
    lookup_a: Option<Seq<IpAddress>>,
    lookup_b: Option<Seq<IpAddress>>,
)
    ensures
        !(target is Hostname && literal is None) ==> resolution(target, literal, lookup_a)
            == resolution(target, literal, lookup_b),
        lookup_a matches Some(addrs) ==> (target is Hostname && literal is None ==> (resolution(
            target,
            literal,
            lookup_a,
        ) matches Ok(ip) ==> addrs.contains(ip))),
{
    if let Some(addrs) = lookup_a {
        if let Target::Hostname { version, .. } = target {
            lemma_first_fitting_fits(addrs, version);
        }
    }
}

/// The address is of the family that `version` asks for: IPv4 for `V4`, IPv6
/// for `V6`, either for `Any`.
pub open spec fn family_allowed(ip: IpAddress, version: IPVersion) -> bool {
    match version {
        IPVersion::V4 => ip is V4,
        IPVersion::V6 => ip is V6,
        IPVersion::Any => true,
    }
}

proof fn lemma_first_fitting_at(addrs: Seq<IpAddress>, version: IPVersion, j: int)
    requires
        0 <= j < addrs.len(),
        family_allowed(addrs[j], version),
        forall|k: int| 0 <= k < j ==> !family_allowed(#[trigger] addrs[k], version),
    ensures
        first_fitting(addrs, version) == Some(addrs[j]),
    decreases j,
{
    if j > 0 {
        assert(!family_allowed(addrs[0], version));
        let rest = addrs.drop_first();
        assert forall|k: int| 0 <= k < j - 1 implies !family_allowed(#[trigger] rest[k], version) by {
            assert(rest[k] == addrs[k + 1]);
        }
        lemma_first_fitting_at(rest, version, j - 1);
    }
}

proof fn lemma_first_fitting_none(addrs: Seq<IpAddress>, version: IPVersion)
    requires
        forall|k: int| 0 <= k < addrs.len() ==> !family_allowed(#[trigger] addrs[k], version),
    ensures
        first_fitting(addrs, version) is None,
    decreases addrs.len(),
{
    if addrs.len() > 0 {
        assert(!family_allowed(addrs[0], version));
        let rest = addrs.drop_first();
        assert forall|k: int| 0 <= k < rest.len() implies !family_allowed(#[trigger] rest[k], version) by {
            assert(rest[k] == addrs[k + 1]);
        }
        lemma_first_fitting_none(rest, version);
    }
}

/// A hostname resolved through a lookup gets the first looked-up address of
/// an allowed family: if `addrs[j]` is allowed and no earlier one is, the
/// result is `addrs[j]`, wherever `j` stands in the list, the last included.
pub proof fn law_lookup_gives_first_allowed(
    domain: String,
    version: IPVersion,
    addrs: Seq<IpAddress>,
    j: int,
)
    requires
        0 <= j < addrs.len(),
        family_allowed(addrs[j], version),
        forall|k: int| 0 <= k < j ==> !family_allowed(#[trigger] addrs[k], version),
    ensures
        resolution(Target::Hostname { domain, version }, None, Some(addrs)) == Ok::<
            IpAddress,
            Seq<char>,
        >(addrs[j]),
{
    lemma_first_fitting_at(addrs, version, j);
}

/// A hostname resolved through a lookup fails, naming the hostname, exactly
/// when no looked-up address is of an allowed family, or when the lookup fails.
pub proof fn law_lookup_fails_without_allowed(
    domain: String,
    version: IPVersion,
    addrs: Seq<IpAddress>,
)
    ensures
        (forall|k: int| 0 <= k < addrs.len() ==> !family_allowed(#[trigger] addrs[k], version))
            ==> resolution(Target::Hostname { domain, version }, None, Some(addrs)) == Err::<
            IpAddress,
            Seq<char>,
        >(domain@),
        (exists|k: int| 0 <= k < addrs.len() && family_allowed(#[trigger] addrs[k], version))
            ==> resolution(Target::Hostname { domain, version }, None, Some(addrs)) is Ok,
        resolution(Target::Hostname { domain, version }, None, None) == Err::<IpAddress, Seq<char>>(
            domain@,
        ),
{
    if forall|k: int| 0 <= k < addrs.len() ==> !family_allowed(#[trigger] addrs[k], version) {
        lemma_first_fitting_none(addrs, version);
    }
    if exists|k: int| 0 <= k < addrs.len() && family_allowed(#[trigger] addrs[k], version) {
        let k = choose|k: int| 0 <= k < addrs.len() && family_allowed(#[trigger] addrs[k], version);
        lemma_first_allowed_exists(addrs, version, k);
    }
}

proof fn lemma_first_allowed_exists(addrs: Seq<IpAddress>, version: IPVersion, k: int)
    requires
        0 <= k < addrs.len(),
        family_allowed(addrs[k], version),
    ensures
        first_fitting(addrs, version) is Some,
    decreases k,
{
    if k > 0 && !family_allowed(addrs[0], version) {
        let rest = addrs.drop_first();
        assert(rest[k - 1] == addrs[k]);
        lemma_first_allowed_exists(rest, version, k - 1);
    }
}

/// A hostname that is itself an address literal resolves to that address when
/// its family is allowed and fails, naming the hostname, when it is not; the
/// lookup plays no part. An address target resolves to itself.
pub proof fn law_literal_resolution(
    domain: String,
    version: IPVersion,
    ip: IpAddress,
    lookup: Option<Seq<IpAddress>>,
)
    ensures
        resolution(Target::Hostname { domain, version }, Some(ip), lookup) == if family_allowed(
            ip,
            version,
        ) {
            Ok::<IpAddress, Seq<char>>(ip)
        } else {
            Err(domain@)
        },
        resolution(Target::IP(ip), None, lookup) == Ok::<IpAddress, Seq<char>>(ip),
{
}

} // verus!
