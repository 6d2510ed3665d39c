//! Target address types.

use vstd::prelude::*;

verus! {

/// IP version specification for hostname resolution.
#[derive(Debug, Clone, Copy, PartialEq, Eq, Structural)]
pub enum IPVersion {
    /// IPv4 only
    V4,
    /// IPv6 only
    V6,
    /// Any IP version (IPv4 or IPv6)
    Any,
}

/// An IP address of either family, held as its canonical text form (the form
/// in which the standard library writes it, e.g. `8.8.8.8` or `::1`).
#[derive(Debug, Clone)]
pub enum IpAddress {
    /// An IPv4 address.
    V4(String),
    /// An IPv6 address.
    V6(String),
}

impl IpAddress {
    /// The text form of the address.
    pub open spec fn text(self) -> Seq<char> {
        match self {
            IpAddress::V4(t) => t@,
            IpAddress::V6(t) => t@,
        }
    }

    /// The address belongs to the family that `version` asks for.
    pub open spec fn fits(self, version: IPVersion) -> bool {
        match version {
            IPVersion::V4 => self is V4,
            IPVersion::V6 => self is V6,
            IPVersion::Any => true,
        }
    }

    /// Whether this is an IPv6 address.
    pub fn is_ipv6(&self) -> (r: bool)
        ensures
            r == (*self is V6),
    {
        match self {
            IpAddress::V4(_) => false,
            IpAddress::V6(_) => true,
        }
    }

    /// Whether the address belongs to the family that `version` asks for.
    pub fn matches_version(&self, version: IPVersion) -> (r: bool)
        ensures
            r == self.fits(version),
    {
        match version {
            IPVersion::V4 => !self.is_ipv6(),
            IPVersion::V6 => self.is_ipv6(),
            IPVersion::Any => true,
        }
    }

    /// A copy of the address.
    pub fn clone_address(&self) -> (r: IpAddress)
        ensures
            r == *self,
    {
        match self {
            IpAddress::V4(t) => IpAddress::V4(t.clone()),
            IpAddress::V6(t) => IpAddress::V6(t.clone()),
        }
    }

    /// The text form of the address.
    pub fn to_text(&self) -> (r: String)
        ensures
            r@ == self.text(),
    {
        match self {
            IpAddress::V4(t) => t.clone(),
            IpAddress::V6(t) => t.clone(),
        }
    }
}

/// Target address for ping operations.
///
/// Can be either a direct IP address or a hostname that needs to be resolved.
#[derive(Debug, Clone)]
pub enum Target {
    /// Direct IP address
    IP(IpAddress),
    /// Hostname with IP version constraint
    Hostname {
        /// Domain name to resolve
        domain: String,
        /// IP version constraint for resolution
        version: IPVersion,
    },
}

/// The target that a text names under a version constraint: the text's own
/// address when it is an address literal of an admitted family, else the text
/// as a hostname under that constraint.
pub open spec fn target_from(value: String, literal: Option<IpAddress>, version: IPVersion) -> Target {
    match literal {
        Some(ip) => if ip.fits(version) {
            Target::IP(ip)
        } else {
            Target::Hostname { domain: value, version }
        },
        None => Target::Hostname { domain: value, version },
    }
}

impl Target {
    /// The target is IPv6: an IPv6 address, or a hostname constrained to IPv6.
    pub open spec fn spec_is_ipv6(self) -> bool {
        match self {
            Target::IP(ip) => ip is V6,
            Target::Hostname { version, .. } => version == IPVersion::V6,
        }
    }

    /// The text of the target: its address or its hostname.
    pub open spec fn text(self) -> Seq<char> {
        match self {
            Target::IP(ip) => ip.text(),
            Target::Hostname { domain, .. } => domain@,
        }
    }

    /// Check if the target is IPv6.
    ///
    /// Returns `true` if the target is an IPv6 address or a hostname constrained to IPv6.
    pub fn is_ipv6(&self) -> (r: bool)
        ensures
            r == self.spec_is_ipv6(),
    {
        match self {
            Target::IP(ip) => ip.is_ipv6(),
            Target::Hostname { version, .. } => *version == IPVersion::V6,
        }
    }

    fn from_text(value: String, literal: Option<IpAddress>, version: IPVersion) -> (r: Self)
        ensures
            r == target_from(value, literal, version),
    {
        match literal {
            Some(ip) => {
                if ip.matches_version(version) {
                    Target::IP(ip)
                } else {
                    Target::Hostname { domain: value, version }
                }
            },
            None => Target::Hostname { domain: value, version },
        }
    }

    /// Create a new target from a string, allowing any IP version.
    ///
    /// `literal` is the string read as an IP address literal, when it is one.
    /// A literal is used directly; any other string is treated as a hostname that
    /// can resolve to either IPv4 or IPv6.
    pub fn new_any(value: String, literal: Option<IpAddress>) -> (r: Self)
        ensures
            r == target_from(value, literal, IPVersion::Any),
    {
        Self::from_text(value, literal, IPVersion::Any)
    }

    /// Create a new target from a string, constraining to IPv4.
    ///
    /// `literal` is the string read as an IP address literal, when it is one.
    /// An IPv4 literal is used directly; any other string is treated as a
    /// hostname that must resolve to IPv4.
    pub fn new_ipv4(value: String, literal: Option<IpAddress>) -> (r: Self)
        ensures
            r == target_from(value, literal, IPVersion::V4),
    {
        Self::from_text(value, literal, IPVersion::V4)
    }

    /// Create a new target from a string, constraining to IPv6.
    ///
    /// `literal` is the string read as an IP address literal, when it is one.
    /// An IPv6 literal is used directly; any other string is treated as a
    /// hostname that must resolve to IPv6.
    pub fn new_ipv6(value: String, literal: Option<IpAddress>) -> (r: Self)
        ensures
            r == target_from(value, literal, IPVersion::V6),
    {
        Self::from_text(value, literal, IPVersion::V6)
    }

    /// The text of the target, as it is displayed: its address or its hostname.
    pub fn to_text(&self) -> (r: String)
        ensures
            r@ == self.text(),
    {
        match self {
            Target::IP(ip) => ip.to_text(),
            Target::Hostname { domain, .. } => domain.clone(),
        }
    }
}

/// A target made under the IPv6 constraint is always an IPv6 target, and one
/// made under the IPv4 constraint never is; without a constraint, the target is
/// IPv6 exactly when the text is an IPv6 literal.
pub proof fn law_constructor_family(value: String, literal: Option<IpAddress>)
    ensures
        target_from(value, literal, IPVersion::V6).spec_is_ipv6(),
        !target_from(value, literal, IPVersion::V4).spec_is_ipv6(),
        target_from(value, literal, IPVersion::Any).spec_is_ipv6() <==> (literal matches Some(
            ip,
        ) && ip is V6),
{
}

/// A target keeps the text it was made from: a literal displays as itself, a
/// hostname as its domain.
pub proof fn law_constructor_keeps_text(value: String, literal: Option<IpAddress>, version: IPVersion)
    requires
        literal matches Some(ip) ==> ip.text() == value@,
    ensures
        target_from(value, literal, version).text() == value@,
{
}

/// The literal may be used under the constraint: IPv4 under `V4`, IPv6 under
/// `V6`, either under `Any`.
pub open spec fn literal_allowed(ip: IpAddress, version: IPVersion) -> bool {
    match version {
        IPVersion::V4 => ip is V4,
        IPVersion::V6 => ip is V6,
        IPVersion::Any => true,
    }
}

/// A constructor gives the literal's address exactly when the text is a
/// literal allowed by the constraint; otherwise it gives the text as a
/// hostname, and never drops or changes the constraint asked for.
pub proof fn law_constructor_keeps_constraint(
    value: String,
    literal: Option<IpAddress>,
    version: IPVersion,
)
    ensures
        target_from(value, literal, version) == match literal {
            Some(ip) => if literal_allowed(ip, version) {
                Target::IP(ip)
            } else {
                Target::Hostname { domain: value, version }
            },
            None => Target::Hostname { domain: value, version },
        },
        target_from(value, literal, version) matches Target::Hostname { domain, version: v } ==> v
            == version && domain == value,
{
}

/// A target is IPv6 exactly when it is an IPv6 address or a hostname held to
/// IPv6: IPv4 addresses and hostnames held to IPv4 or to any version are not.
pub proof fn law_ipv6_targets(target: Target)
    ensures
        target.spec_is_ipv6() == match target {
            Target::IP(ip) => ip is V6,
            Target::Hostname { version, .. } => version == IPVersion::V6,
        },
{
}

} // verus!
