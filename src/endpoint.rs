use vstd::prelude::*;

verus! {

/// An IP address, version 4 or 6, held as its integer value.
#[derive(Clone, Copy, Debug, PartialEq, Eq, Structural)]
pub enum IpAddress {
    V4(u32),
    V6(u128),
}

/// A socket address: an IP address and a port.
#[derive(Clone, Copy, Debug, PartialEq, Eq, Structural)]
pub struct Address {
    pub ip: IpAddress,
    pub port: u16,
}

impl Address {
    /// The IPv4 address `a.b.c.d` with the given port.
    pub fn v4(a: u8, b: u8, c: u8, d: u8, port: u16) -> (r: Address)
        ensures
            r.ip == IpAddress::V4(
                (a * 0x100_0000 + b * 0x1_0000 + c * 0x100 + d) as u32,
            ),
            r.port == port,
    {
        let ip: u32 = (a as u32) * 0x100_0000 + (b as u32) * 0x1_0000 + (c as u32) * 0x100 + (d as u32);
        Address { ip: IpAddress::V4(ip), port }
    }
}

/// One routable backend destination. Two endpoints are the same exactly when
/// their addresses are.
#[derive(Clone, Copy, Debug, PartialEq, Eq, Structural)]
pub struct Endpoint {
    pub address: Address,
}

impl Endpoint {
    pub fn from_address(address: Address) -> (r: Endpoint)
        ensures
            r.address == address,
    {
        Endpoint { address }
    }
}

/// The error of building an [`Endpoints`] from an empty list.
#[derive(Clone, Copy, Debug, PartialEq, Eq, Structural)]
pub struct EmptyListError;

/// A non-empty, ordered sequence of endpoints.
pub struct Endpoints {
    endpoints: Vec<Endpoint>,
}

impl View for Endpoints {
    type V = Seq<Endpoint>;

    closed spec fn view(&self) -> Seq<Endpoint> {
        self.endpoints@
    }
}

impl Endpoints {
    #[verifier::type_invariant]
    spec fn non_empty(self) -> bool {
        self.endpoints@.len() > 0
    }

    /// Builds the sequence from `endpoints`; fails exactly when the list is empty.
    pub fn new(endpoints: Vec<Endpoint>) -> (r: Result<Endpoints, EmptyListError>)
        ensures
            endpoints@.len() == 0 <==> r is Err,
            r matches Ok(e) ==> e@ == endpoints@,
    {
        if endpoints.len() == 0 {
            Err(EmptyListError)
        } else {
            Ok(Endpoints { endpoints })
        }
    }

    /// The number of endpoints; never zero.
    pub fn len(&self) -> (r: usize)
        ensures
            r == self@.len(),
            r > 0,
    {
        proof { use_type_invariant(self); }
        self.endpoints.len()
    }

    /// The endpoints in order.
    pub fn as_slice(&self) -> (r: &[Endpoint])
        ensures
            r@ == self@,
    {
        self.endpoints.as_slice()
    }
}

impl Clone for Endpoints {
    fn clone(&self) -> (r: Endpoints)
        ensures
            r@ == self@,
    {
        proof { use_type_invariant(self); }
        Endpoints { endpoints: self.endpoints.clone() }
    }
}

/// The read-only view of an [`Endpoints`] value that the packet path consumes.
pub struct UpstreamEndpoints {
    endpoints: Endpoints,
}

impl View for UpstreamEndpoints {
    type V = Seq<Endpoint>;

    closed spec fn view(&self) -> Seq<Endpoint> {
        self.endpoints@
    }
}

impl UpstreamEndpoints {
    pub fn from_endpoints(endpoints: Endpoints) -> (r: UpstreamEndpoints)
        ensures
            r@ == endpoints@,
    {
        UpstreamEndpoints { endpoints }
    }

    /// The number of endpoints in view; never zero.
    pub fn size(&self) -> (r: usize)
        ensures
            r == self@.len(),
            r > 0,
    {
        self.endpoints.len()
    }

    /// The endpoint at `index`.
    pub fn get(&self, index: usize) -> (r: Endpoint)
        requires
            index < self@.len(),
        ensures
            r == self@[index as int],
    {
        self.endpoints.as_slice()[index]
    }
}

} // verus!
