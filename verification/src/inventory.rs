//! The inventory: which customer owns an address, and which of its services
//! the address belongs to.
//!
//! The owner of an address is the customer with the longest prefix that
//! holds it; between customers with equally long prefixes the one listed
//! first owns it. The service is the first service of that customer with an
//! asset that holds the address.

use vstd::prelude::*;

use crate::config::PolicyProfile;
use crate::domain::opt_text;
use crate::net::{prefix_contains, prefix_holds, prefix_valid, IpAddress, IpPrefix};
use crate::search::{lemma_first_where_is, position};

verus! {

/// Something a customer runs: addresses and the ports it listens on.
#[derive(Debug)]
pub struct Service {
    pub service_id: String,
    pub assets: Vec<IpPrefix>,
    pub ports: Vec<u16>,
}

/// A customer with what it owns.
#[derive(Debug)]
pub struct Customer {
    pub customer_id: String,
    pub prefixes: Vec<IpPrefix>,
    pub services: Vec<Service>,
    pub policy_profile: PolicyProfile,
}

/// The customers of a network, as loaded once.
#[derive(Debug)]
pub struct Inventory {
    pub customers: Vec<Customer>,
}

/// Who owns a victim.
#[derive(Debug)]
pub struct Owner {
    pub customer_id: String,
    pub service_id: Option<String>,
    pub policy_profile: PolicyProfile,
    /// The ports of the service; empty where no service was found.
    pub service_ports: Vec<u16>,
}

/// The mathematical content of a [`Service`].
pub struct ServiceView {
    pub service_id: Seq<char>,
    pub assets: Seq<IpPrefix>,
    pub ports: Seq<u16>,
}

/// The mathematical content of a [`Customer`].
pub struct CustomerView {
    pub customer_id: Seq<char>,
    pub prefixes: Seq<IpPrefix>,
    pub services: Seq<ServiceView>,
    pub policy_profile: PolicyProfile,
}

/// The mathematical content of an [`Owner`].
pub struct OwnerView {
    pub customer_id: Seq<char>,
    pub service_id: Option<Seq<char>>,
    pub policy_profile: PolicyProfile,
    pub service_ports: Seq<u16>,
}

impl View for Service {
    type V = ServiceView;

    open spec fn view(&self) -> ServiceView {
        ServiceView { service_id: self.service_id@, assets: self.assets@, ports: self.ports@ }
    }
}

impl View for Customer {
    type V = CustomerView;

    open spec fn view(&self) -> CustomerView {
        CustomerView {
            customer_id: self.customer_id@,
            prefixes: self.prefixes@,
            services: self.services@.map_values(|s: Service| s@),
            policy_profile: self.policy_profile,
        }
    }
}

impl View for Inventory {
    type V = Seq<CustomerView>;

    open spec fn view(&self) -> Seq<CustomerView> {
        self.customers@.map_values(|c: Customer| c@)
    }
}

impl View for Owner {
    type V = OwnerView;

    open spec fn view(&self) -> OwnerView {
        OwnerView {
            customer_id: self.customer_id@,
            service_id: opt_text(self.service_id),
            policy_profile: self.policy_profile,
            service_ports: self.service_ports@,
        }
    }
}

/// Whether a prefix is well formed and holds an address.
pub open spec fn holds(prefix: IpPrefix, ip: IpAddress) -> bool {
    prefix_valid(prefix) && prefix_holds(prefix, ip)
}

/// Whether one of the prefixes is `len` bits long and holds the address.
pub open spec fn held_at(prefixes: Seq<IpPrefix>, ip: IpAddress, len: u8) -> bool {
    exists|k: int|
        0 <= k < prefixes.len() && holds(#[trigger] prefixes[k], ip) && prefixes[k].len == len
}

/// Whether customer `c` owns the address by a prefix of `len` bits: no
/// customer holds it by a longer prefix, and no customer listed earlier
/// holds it by one as long.
pub open spec fn is_longest_match(customers: Seq<CustomerView>, ip: IpAddress, c: int, len: u8) -> bool {
    &&& 0 <= c < customers.len()
    &&& held_at(customers[c].prefixes, ip, len)
    &&& forall|d: int, k: int|
        0 <= d < customers.len() && 0 <= k < customers[d].prefixes.len() && holds(
            #[trigger] customers[d].prefixes[k],
            ip,
        ) ==> customers[d].prefixes[k].len < len || (customers[d].prefixes[k].len == len && d
            >= c)
}

/// Whether some customer holds the address.
pub open spec fn owned(customers: Seq<CustomerView>, ip: IpAddress) -> bool {
    exists|d: int, k: int|
        0 <= d < customers.len() && 0 <= k < customers[d].prefixes.len() && holds(
            #[trigger] customers[d].prefixes[k],
            ip,
        )
}

/// The services with an asset that holds the address.
pub open spec fn serves(ip: IpAddress) -> spec_fn(ServiceView) -> bool {
    |s: ServiceView| exists|k: int| 0 <= k < s.assets.len() && holds(#[trigger] s.assets[k], ip)
}

/// The owner that the inventory names for an address owned by customer
/// `c`.
pub open spec fn owner_at(customers: Seq<CustomerView>, ip: IpAddress, c: int) -> OwnerView {
    let customer = customers[c];
    let s = position(customer.services, serves(ip));
    if s < customer.services.len() {
        OwnerView {
            customer_id: customer.customer_id,
            service_id: Some(customer.services[s].service_id),
            policy_profile: customer.policy_profile,
            service_ports: customer.services[s].ports,
        }
    } else {
        OwnerView {
            customer_id: customer.customer_id,
            service_id: None,
            policy_profile: customer.policy_profile,
            service_ports: Seq::empty(),
        }
    }
}

/// The owner that the inventory names for an address; `None` where no
/// customer holds it.
pub open spec fn owner_of(customers: Seq<CustomerView>, ip: IpAddress) -> Option<OwnerView> {
    if exists|c: int, len: u8| is_longest_match(customers, ip, c, len) {
        let (c, len) = choose|c: int, len: u8| is_longest_match(customers, ip, c, len);
        Some(owner_at(customers, ip, c))
    } else {
        None
    }
}

/// The view of an optional owner.
pub open spec fn opt_owner(owner: Option<Owner>) -> Option<OwnerView> {
    match owner {
        Some(o) => Some(o@),
        None => None,
    }
}

/// An address has one owner at most: two longest matches are one.
pub proof fn lemma_longest_match_unique(
    customers: Seq<CustomerView>,
    ip: IpAddress,
    c1: int,
    len1: u8,
    c2: int,
    len2: u8,
)
    requires
        is_longest_match(customers, ip, c1, len1),
        is_longest_match(customers, ip, c2, len2),
    ensures
        c1 == c2,
        len1 == len2,
{
    let k1 = choose|k: int|
        0 <= k < customers[c1].prefixes.len() && holds(#[trigger] customers[c1].prefixes[k], ip)
            && customers[c1].prefixes[k].len == len1;
    let k2 = choose|k: int|
        0 <= k < customers[c2].prefixes.len() && holds(#[trigger] customers[c2].prefixes[k], ip)
            && customers[c2].prefixes[k].len == len2;
    assert(holds(customers[c1].prefixes[k1], ip));
    assert(holds(customers[c2].prefixes[k2], ip));
}

/// Tells whether a prefix is well formed and holds an address.
pub fn prefix_has(prefix: IpPrefix, ip: IpAddress) -> (yes: bool)
    ensures
        yes == holds(prefix, ip),
{
    let bits: u8 = match prefix.addr {
        IpAddress::V4(_) => 32,
        IpAddress::V6(_) => 128,
    };
    prefix.len <= bits && prefix_contains(prefix, ip)
}

/// The length of the longest of the prefixes that hold the address, if one
/// does.
pub fn longest_holding(prefixes: &Vec<IpPrefix>, ip: IpAddress) -> (best: Option<u8>)
    ensures
        match best {
            Some(len) => held_at(prefixes@, ip, len) && forall|k: int|
                0 <= k < prefixes.len() && holds(#[trigger] prefixes@[k], ip) ==> prefixes@[k].len
                    <= len,
            None => forall|k: int| 0 <= k < prefixes.len() ==> !holds(#[trigger] prefixes@[k], ip),
        },
{
    let mut best: Option<u8> = None;
    let mut i: usize = 0;
    while i < prefixes.len()
        invariant
            i <= prefixes.len(),
            match best {
                Some(len) => (exists|k: int|
                    0 <= k < i && holds(#[trigger] prefixes@[k], ip) && prefixes@[k].len == len)
                    && forall|k: int|
                    0 <= k < i && holds(#[trigger] prefixes@[k], ip) ==> prefixes@[k].len <= len,
                None => forall|k: int| 0 <= k < i ==> !holds(#[trigger] prefixes@[k], ip),
            },
        decreases prefixes.len() - i,
    {
        let p = prefixes[i];
        if prefix_has(p, ip) {
            let better = match best {
                Some(len) => p.len > len,
                None => true,
            };
            if better {
                best = Some(p.len);
                assert(holds(prefixes@[i as int], ip) && prefixes@[i as int].len == p.len);
            } else {
                proof {
                    let len = best->0;
                    let k = choose|k: int|
                        0 <= k < i && holds(#[trigger] prefixes@[k], ip) && prefixes@[k].len
                            == len;
                    assert(holds(prefixes@[k], ip) && prefixes@[k].len == len);
                }
            }
        } else {
            proof {
                if best is Some {
                    let len = best->0;
                    let k = choose|k: int|
                        0 <= k < i && holds(#[trigger] prefixes@[k], ip) && prefixes@[k].len
                            == len;
                    assert(holds(prefixes@[k], ip) && prefixes@[k].len == len);
                }
            }
        }
        i = i + 1;
    }
    proof {
        if best is Some {
            let len = best->0;
            let k = choose|k: int|
                0 <= k < i && holds(#[trigger] prefixes@[k], ip) && prefixes@[k].len == len;
            assert(holds(prefixes@[k], ip) && prefixes@[k].len == len);
        }
    }
    best
}

/// Tells whether a service has an asset that holds the address.
pub fn service_has(service: &Service, ip: IpAddress) -> (yes: bool)
    ensures
        yes == serves(ip)(service@),
{
    let mut i: usize = 0;
    while i < service.assets.len()
        invariant
            i <= service.assets.len(),
            forall|k: int| 0 <= k < i ==> !holds(#[trigger] service.assets@[k], ip),
        decreases service.assets.len() - i,
    {
        if prefix_has(service.assets[i], ip) {
            assert(holds(service@.assets[i as int], ip));
            return true;
        }
        i = i + 1;
    }
    false
}

impl Inventory {
    /// The customer that owns an address, with the length of the prefix it
    /// owns it by; `None` where no customer holds the address.
    pub fn find_owner(&self, ip: IpAddress) -> (r: Option<(usize, u8)>)
        ensures
            match r {
                Some((c, len)) => is_longest_match(self@, ip, c as int, len),
                None => !owned(self@, ip),
            },
    {
        let ghost customers = self@;
        let mut best: Option<(usize, u8)> = None;
        let mut i: usize = 0;
        while i < self.customers.len()
            invariant
                i <= self.customers.len(),
                customers == self@,
                match best {
                    Some((c, len)) => {
                        &&& c < i
                        &&& held_at(customers[c as int].prefixes, ip, len)
                        &&& forall|d: int, k: int|
                            0 <= d < i && 0 <= k < customers[d].prefixes.len() && holds(
                                #[trigger] customers[d].prefixes[k],
                                ip,
                            ) ==> customers[d].prefixes[k].len < len || (
                            customers[d].prefixes[k].len == len && d >= c)
                    },
                    None => forall|d: int, k: int|
                        0 <= d < i && 0 <= k < customers[d].prefixes.len() ==> !holds(
                            #[trigger] customers[d].prefixes[k],
                            ip,
                        ),
                },
            decreases self.customers.len() - i,
        {
            assert(customers[i as int].prefixes == self.customers@[i as int].prefixes@);
            let here = longest_holding(&self.customers[i].prefixes, ip);
            match here {
                Some(len) => {
                    let better = match best {
                        Some((_, old)) => len > old,
                        None => true,
                    };
                    if better {
                        best = Some((i, len));
                    }
                },
                None => {},
            }
            i = i + 1;
        }
        proof {
            if best is None {
                if owned(customers, ip) {
                    let (d, k) = choose|d: int, k: int|
                        0 <= d < customers.len() && 0 <= k < customers[d].prefixes.len() && holds(
                            #[trigger] customers[d].prefixes[k],
                            ip,
                        );
                    assert(!holds(customers[d].prefixes[k], ip));
                }
            }
        }
        best
    }

    /// Whether some customer owns the address.
    pub fn is_owned(&self, ip: IpAddress) -> (yes: bool)
        ensures
            yes == owned(self@, ip),
    {
        let r = self.find_owner(ip);
        proof {
            if r is Some {
                let (cu, len) = r->0;
                let c = cu as int;
                let k = choose|k: int|
                    0 <= k < self@[c].prefixes.len() && holds(#[trigger] self@[c].prefixes[k], ip)
                        && self@[c].prefixes[k].len == len;
                assert(holds(self@[c].prefixes[k], ip));
            }
        }
        r.is_some()
    }

    /// The owner of an address: the customer with the longest prefix that
    /// holds it, and the first of its services with an asset that holds it.
    pub fn lookup_ip(&self, ip: IpAddress) -> (r: Option<Owner>)
        ensures
            opt_owner(r) == owner_of(self@, ip),
            r is Some <==> owned(self@, ip),
    {
        let (c, len) = match self.find_owner(ip) {
            Some(found) => found,
            None => {
                proof {
                    if exists|c: int, len: u8| is_longest_match(self@, ip, c, len) {
                        let (c, len) = choose|c: int, len: u8| is_longest_match(self@, ip, c, len);
                        let k = choose|k: int|
                            0 <= k < self@[c].prefixes.len() && holds(
                                #[trigger] self@[c].prefixes[k],
                                ip,
                            ) && self@[c].prefixes[k].len == len;
                        assert(holds(self@[c].prefixes[k], ip));
                    }
                }
                return None;
            },
        };
        let customer = &self.customers[c];
        let ghost services = self@[c as int].services;
        let ghost pred = serves(ip);
        assert(self@[c as int] == customer@);
        let mut s: usize = 0;
        let mut found = false;
        while s < customer.services.len() && !found
            invariant
                s <= customer.services.len(),
                services == customer@.services,
                pred == serves(ip),
                forall|k: int| 0 <= k < s ==> !pred(#[trigger] services[k]),
                found ==> s < customer.services.len() && pred(services[s as int]),
            decreases customer.services.len() - s + (if found { 0int } else { 1int }),
        {
            assert(services[s as int] == customer.services@[s as int]@);
            if service_has(&customer.services[s], ip) {
                found = true;
            } else {
                s = s + 1;
            }
        }
        proof {
            lemma_first_where_is(services, pred, 0, s as int);
        }
        let owner = if s < customer.services.len() {
            let service = &customer.services[s];
            assert(services[s as int] == service@);
            Owner {
                customer_id: customer.customer_id.clone(),
                service_id: Some(service.service_id.clone()),
                policy_profile: customer.policy_profile,
                service_ports: crate::domain::clone_ports(&service.ports),
            }
        } else {
            Owner {
                customer_id: customer.customer_id.clone(),
                service_id: None,
                policy_profile: customer.policy_profile,
                service_ports: Vec::new(),
            }
        };
        assert(owner@ == owner_at(self@, ip, c as int));
        proof {
            assert(is_longest_match(self@, ip, c as int, len));
            let (c2, len2) = choose|c: int, len: u8| is_longest_match(self@, ip, c, len);
            lemma_longest_match_unique(self@, ip, c as int, len, c2, len2);
            let k = choose|k: int|
                0 <= k < self@[c as int].prefixes.len() && holds(
                    #[trigger] self@[c as int].prefixes[k],
                    ip,
                ) && self@[c as int].prefixes[k].len == len;
            assert(holds(self@[c as int].prefixes[k], ip));
        }
        Some(owner)
    }
}

} // verus!
