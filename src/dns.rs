//! The provider's records as the engine sees them, and the requests built
//! from them.

use vstd::prelude::*;
pub use crate::clone::Clone_;

verus! {

/// A public address of either family.
#[derive(Clone, Copy, Debug, PartialEq, Eq, Structural)]
pub enum Address {
    V4(u32),
    V6(u128),
}

/// An address family: IPv4 (A records) or IPv6 (AAAA records).
#[derive(Clone, Copy, Debug, PartialEq, Eq, Structural)]
pub enum Family {
    V4,
    V6,
}

impl Address {
    pub open spec fn family(self) -> Family {
        match self {
            Address::V4(_) => Family::V4,
            Address::V6(_) => Family::V6,
        }
    }
}

/// What a record holds, by record type.
#[derive(Debug)]
#[allow(inconsistent_fields)]
pub enum DnsContent {
    A { content: u32 },
    AAAA { content: u128 },
    CNAME { content: String },
    NS { content: String },
    MX { content: String, priority: u16 },
    TXT { content: String },
    SRV { content: String },
}

impl DnsContent {
    /// The address an A or AAAA record holds; none for other types.
    pub open spec fn address(self) -> Option<Address> {
        match self {
            DnsContent::A { content } => Some(Address::V4(content)),
            DnsContent::AAAA { content } => Some(Address::V6(content)),
            _ => None,
        }
    }

    /// The family of an A or AAAA record; none for other types.
    pub open spec fn family(self) -> Option<Family> {
        match self {
            DnsContent::A { .. } => Some(Family::V4),
            DnsContent::AAAA { .. } => Some(Family::V6),
            _ => None,
        }
    }

    pub open spec fn kind_name(self) -> Seq<char> {
        match self {
            DnsContent::A { .. } => "A"@,
            DnsContent::AAAA { .. } => "AAAA"@,
            DnsContent::CNAME { .. } => "CNAME"@,
            DnsContent::NS { .. } => "NS"@,
            DnsContent::MX { .. } => "MX"@,
            DnsContent::TXT { .. } => "TXT"@,
            DnsContent::SRV { .. } => "SRV"@,
        }
    }

    /// The record content that holds `ip`.
    pub open spec fn of_address(ip: Address) -> DnsContent {
        match ip {
            Address::V4(a) => DnsContent::A { content: a },
            Address::V6(a) => DnsContent::AAAA { content: a },
        }
    }

    pub fn get_ip(&self) -> (r: Option<Address>)
        ensures
            r == self.address(),
    {
        match self {
            DnsContent::A { content } => Some(Address::V4(*content)),
            DnsContent::AAAA { content } => Some(Address::V6(*content)),
            _ => None,
        }
    }

    pub fn get_type(&self) -> (r: &'static str)
        ensures
            r@ == self.kind_name(),
    {
        match self {
            DnsContent::A { .. } => "A",
            DnsContent::AAAA { .. } => "AAAA",
            DnsContent::CNAME { .. } => "CNAME",
            DnsContent::NS { .. } => "NS",
            DnsContent::MX { .. } => "MX",
            DnsContent::TXT { .. } => "TXT",
            DnsContent::SRV { .. } => "SRV",
        }
    }
}

impl Clone_ for DnsContent {
    fn clone(&self) -> (r: Self)
        ensures
            r == *self,
    {
        match self {
            DnsContent::A { content } => DnsContent::A { content: *content },
            DnsContent::AAAA { content } => DnsContent::AAAA { content: *content },
            DnsContent::CNAME { content } => DnsContent::CNAME { content: content.clone() },
            DnsContent::NS { content } => DnsContent::NS { content: content.clone() },
            DnsContent::MX { content, priority } => DnsContent::MX {
                content: content.clone(),
                priority: *priority,
            },
            DnsContent::TXT { content } => DnsContent::TXT { content: content.clone() },
            DnsContent::SRV { content } => DnsContent::SRV { content: content.clone() },
        }
    }
}

/// A DNS zone held by the provider: its identifier and its domain suffix.
#[derive(Debug)]
pub struct Zone {
    pub id: String,
    pub name: String,
}

/// A snapshot of one record held by the provider.
#[derive(Debug)]
pub struct DnsRecord {
    pub id: String,
    pub name: String,
    pub zone_id: String,
    pub ttl: u32,
    pub proxied: bool,
    pub content: DnsContent,
}

impl Clone_ for DnsRecord {
    fn clone(&self) -> (r: Self)
        ensures
            r == *self,
    {
        DnsRecord {
            id: self.id.clone(),
            name: self.name.clone(),
            zone_id: self.zone_id.clone(),
            ttl: self.ttl,
            proxied: self.proxied,
            content: self.content.clone(),
        }
    }
}

/// The parameters of a request that rewrites a record.
#[derive(Debug)]
pub struct UpdateDnsRecordParams {
    pub ttl: Option<u32>,
    pub proxied: Option<bool>,
    pub name: String,
    pub content: DnsContent,
}

/// A request that rewrites the record `identifier` in zone `zone_identifier`.
#[derive(Debug)]
pub struct UpdateDnsRecord {
    pub zone_identifier: String,
    pub identifier: String,
    pub params: UpdateDnsRecordParams,
}

/// The parameters of a request that adds a record.
#[derive(Debug)]
pub struct CreateDnsRecordParams {
    pub ttl: Option<u32>,
    pub priority: Option<u16>,
    pub proxied: Option<bool>,
    pub name: String,
    pub content: DnsContent,
}

/// A request that adds a record to zone `zone_identifier`.
#[derive(Debug)]
pub struct CreateDnsRecord {
    pub zone_identifier: String,
    pub params: CreateDnsRecordParams,
}

/// A request that removes the record `identifier` from zone `zone_identifier`.
#[derive(Debug)]
pub struct DeleteDnsRecord {
    pub zone_identifier: String,
    pub identifier: String,
}

/// The time to live that asks the provider to choose one itself.
pub const AUTOMATIC_TTL: u32 = 1;

impl DnsRecord {
    /// The rewrite that puts `ip` into this record: none when the record
    /// holds no address, holds one of the other family, or holds `ip`
    /// already. Time to live and proxying stay as they are.
    pub open spec fn update_for(self, ip: Address) -> Option<UpdateDnsRecord> {
        match self.content.address() {
            Some(current) => if current == ip || current.family() != ip.family() {
                None
            } else {
                Some(
                    UpdateDnsRecord {
                        zone_identifier: self.zone_id,
                        identifier: self.id,
                        params: UpdateDnsRecordParams {
                            ttl: Some(self.ttl),
                            proxied: Some(self.proxied),
                            name: self.name,
                            content: DnsContent::of_address(ip),
                        },
                    },
                )
            },
            None => None,
        }
    }

    /// The request that adds a record `name` holding `ip` to the zone `zone_id`:
    /// automatic time to live, never proxied.
    pub open spec fn create_for(ip: Address, name: String, zone_id: String) -> CreateDnsRecord {
        CreateDnsRecord {
            zone_identifier: zone_id,
            params: CreateDnsRecordParams {
                ttl: Some(AUTOMATIC_TTL),
                priority: None,
                proxied: Some(false),
                name: name,
                content: DnsContent::of_address(ip),
            },
        }
    }

    /// The request that removes this record.
    pub open spec fn delete_for(self) -> DeleteDnsRecord {
        DeleteDnsRecord { zone_identifier: self.zone_id, identifier: self.id }
    }
}

/// The requests that change a record at the provider.
pub trait Requests: Sized {
    fn update_request(&self, ip: Address) -> Option<UpdateDnsRecord>;

    fn create_request(ip: Address, name: &String, id: &String) -> CreateDnsRecord;

    fn delete_request(&self) -> DeleteDnsRecord;
}

impl Requests for DnsRecord {
    fn update_request(&self, ip: Address) -> (r: Option<UpdateDnsRecord>)
        ensures
            r == self.update_for(ip),
    {
        let current = match self.content.get_ip() {
            Some(current) => current,
            None => return None,
        };
        if ip == current {
            return None;
        }
        let content = match (&self.content, ip) {
            (DnsContent::A { .. }, Address::V4(a)) => DnsContent::A { content: a },
            (DnsContent::AAAA { .. }, Address::V6(a)) => DnsContent::AAAA { content: a },
            _ => return None,
        };
        Some(
            UpdateDnsRecord {
                zone_identifier: self.zone_id.clone(),
                identifier: self.id.clone(),
                params: UpdateDnsRecordParams {
                    ttl: Some(self.ttl),
                    proxied: Some(self.proxied),
                    name: self.name.clone(),
                    content,
                },
            },
        )
    }

    fn create_request(ip: Address, name: &String, id: &String) -> (r: CreateDnsRecord)
        ensures
            r == DnsRecord::create_for(ip, *name, *id),
    {
        let content = match ip {
            Address::V4(a) => DnsContent::A { content: a },
            Address::V6(a) => DnsContent::AAAA { content: a },
        };
        CreateDnsRecord {
            zone_identifier: id.clone(),
            params: CreateDnsRecordParams {
                ttl: Some(AUTOMATIC_TTL),
                priority: None,
                proxied: Some(false),
                name: name.clone(),
                content,
            },
        }
    }

    fn delete_request(&self) -> (r: DeleteDnsRecord)
        ensures
            r == self.delete_for(),
    {
        DeleteDnsRecord { zone_identifier: self.zone_id.clone(), identifier: self.id.clone() }
    }
}

/// The rewrite of `record`, whose address is `record_ip`, to `public_ip`:
/// none when the two are equal. The content takes the family of `public_ip`;
/// time to live and proxying stay as they are.
pub fn update_record(record: &DnsRecord, record_ip: Address, public_ip: Address) -> (r: Option<
    UpdateDnsRecord,
>)
    ensures
        record_ip == public_ip ==> r is None,
        record_ip != public_ip ==> r == Some(
            UpdateDnsRecord {
                zone_identifier: record.zone_id,
                identifier: record.id,
                params: UpdateDnsRecordParams {
                    ttl: Some(record.ttl),
                    proxied: Some(record.proxied),
                    name: record.name,
                    content: DnsContent::of_address(public_ip),
                },
            },
        ),
{
    if public_ip == record_ip {
        return None;
    }
    let content = match public_ip {
        Address::V4(a) => DnsContent::A { content: a },
        Address::V6(a) => DnsContent::AAAA { content: a },
    };
    Some(
        UpdateDnsRecord {
            zone_identifier: record.zone_id.clone(),
            identifier: record.id.clone(),
            params: UpdateDnsRecordParams {
                ttl: Some(record.ttl),
                proxied: Some(record.proxied),
                name: record.name.clone(),
                content,
            },
        },
    )
}

} // verus!
