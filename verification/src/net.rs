//! Addresses.

use vstd::prelude::*;

verus! {

/// An address of either family, as the number that its octets write, the
/// first being the most significant.
#[derive(Debug, Clone, Copy, PartialEq, Eq, Structural)]
pub enum IpAddr {
    V4(u32),
    V6(u128),
}

/// An address and a port.
#[derive(Debug, Clone, Copy, PartialEq, Eq, Structural)]
pub struct SocketAddr {
    pub ip: IpAddr,
    pub port: u16,
}

/// The addresses of one family, in their order.
pub open spec fn family(addrs: Seq<IpAddr>, v6: bool) -> Seq<IpAddr>
    decreases addrs.len(),
{
    if addrs.len() == 0 {
        Seq::empty()
    } else if (addrs.last() is V6) == v6 {
        family(addrs.drop_last(), v6).push(addrs.last())
    } else {
        family(addrs.drop_last(), v6)
    }
}

/// The IPv6 and the IPv4 addresses of a list, each in their order.
pub fn split_families(addrs: &Vec<IpAddr>) -> (r: (Vec<IpAddr>, Vec<IpAddr>))
    ensures
        r.0@ == family(addrs@, true),
        r.1@ == family(addrs@, false),
{
    let mut v6: Vec<IpAddr> = Vec::new();
    let mut v4: Vec<IpAddr> = Vec::new();
    let mut i: usize = 0;
    while i < addrs.len()
        invariant
            i <= addrs@.len(),
            v6@ == family(addrs@.take(i as int), true),
            v4@ == family(addrs@.take(i as int), false),
        decreases addrs@.len() - i,
    {
        assert(addrs@.take(i + 1).drop_last() =~= addrs@.take(i as int));
        match addrs[i] {
            IpAddr::V6(_) => {
                v6.push(addrs[i]);
            },
            IpAddr::V4(_) => {
                v4.push(addrs[i]);
            },
        }
        i = i + 1;
    }
    assert(addrs@.take(i as int) =~= addrs@);
    (v6, v4)
}

/// Each family keeps its own addresses in their order, and every address is in
/// exactly one of them.
pub proof fn law_every_address_is_in_its_family(
    before: Seq<IpAddr>,
    a: IpAddr,
    behind: Seq<IpAddr>,
    v6: bool,
)
    ensures
        family(before + behind, v6) == family(before, v6) + family(behind, v6),
        a is V6 ==> family(seq![a], true) == seq![a] && family(seq![a], false).len() == 0,
        a is V4 ==> family(seq![a], false) == seq![a] && family(seq![a], true).len() == 0,
    decreases behind.len(),
{
    let one = seq![a];
    assert(one.drop_last() =~= Seq::<IpAddr>::empty());
    assert(family(one.drop_last(), true) =~= Seq::<IpAddr>::empty());
    assert(family(one.drop_last(), false) =~= Seq::<IpAddr>::empty());
    assert(Seq::<IpAddr>::empty().push(a) =~= one);
    let all = before + behind;
    if behind.len() == 0 {
        assert(all =~= before);
        assert(family(before, v6) + family(behind, v6) =~= family(before, v6));
    } else {
        law_every_address_is_in_its_family(before, a, behind.drop_last(), v6);
        assert(all.drop_last() =~= before + behind.drop_last());
        assert(all.last() == behind.last());
        assert(family(all, v6) =~= family(before, v6) + family(behind, v6));
    }
}

} // verus!
