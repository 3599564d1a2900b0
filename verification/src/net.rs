//! Interface-address selection: given the host's interface addresses of
//! one family, in discovery order, pick the first that a node may listen
//! and announce on — neither loopback nor multicast. Addresses are plain
//! integers: an IPv4 address as its 32 bits, an IPv6 address as its 128
//! bits, both in network (big-endian) bit order.
use vstd::prelude::*;

verus! {

/// An IPv4 address is loopback when its first octet is 127, multicast
/// when its first octet lies in 224..=239.
pub open spec fn v4_usable(a: u32) -> bool {
    !(a >> 24 == 127) && !(224 <= a >> 24 < 240)
}

/// An IPv6 address is loopback when it is ::1, multicast when its first
/// octet is 0xff.
pub open spec fn v6_usable(a: u128) -> bool {
    !(a == 1) && !(a >> 120 == 0xff)
}

/// The first usable address of the list, if any.
pub open spec fn spec_first_usable_v4(s: Seq<u32>) -> Option<u32>
    decreases s.len(),
{
    if s.len() == 0 {
        None
    } else if v4_usable(s[0]) {
        Some(s[0])
    } else {
        spec_first_usable_v4(s.drop_first())
    }
}

/// The first usable address of the list, if any.
pub open spec fn spec_first_usable_v6(s: Seq<u128>) -> Option<u128>
    decreases s.len(),
{
    if s.len() == 0 {
        None
    } else if v6_usable(s[0]) {
        Some(s[0])
    } else {
        spec_first_usable_v6(s.drop_first())
    }
}

proof fn lemma_first_usable_v4_skip(s: Seq<u32>, i: int)
    requires
        0 <= i <= s.len(),
        forall|j: int| 0 <= j < i ==> !v4_usable(#[trigger] s[j]),
    ensures
        spec_first_usable_v4(s) == spec_first_usable_v4(s.skip(i)),
    decreases i,
{
    if i > 0 {
        assert(s.skip(i) =~= s.drop_first().skip(i - 1));
        lemma_first_usable_v4_skip(s.drop_first(), i - 1);
    } else {
        assert(s.skip(0) =~= s);
    }
}

proof fn lemma_first_usable_v6_skip(s: Seq<u128>, i: int)
    requires
        0 <= i <= s.len(),
        forall|j: int| 0 <= j < i ==> !v6_usable(#[trigger] s[j]),
    ensures
        spec_first_usable_v6(s) == spec_first_usable_v6(s.skip(i)),
    decreases i,
{
    if i > 0 {
        assert(s.skip(i) =~= s.drop_first().skip(i - 1));
        lemma_first_usable_v6_skip(s.drop_first(), i - 1);
    } else {
        assert(s.skip(0) =~= s);
    }
}

/// Whether a node may listen and announce on this IPv4 address.
pub fn usable_v4(a: u32) -> (r: bool)
    ensures
        r == v4_usable(a),
{
    let hi = a >> 24;
    !(hi == 127) && !(224 <= hi && hi < 240)
}

/// Whether a node may listen and announce on this IPv6 address.
pub fn usable_v6(a: u128) -> (r: bool)
    ensures
        r == v6_usable(a),
{
    !(a == 1) && !(a >> 120 == 0xff)
}

/// The listen address an IPv4-only role uses: the first of the host's
/// IPv4 interface addresses, in discovery order, that is neither
/// loopback nor multicast; none when no interface qualifies.
pub fn first_usable_v4(addrs: &Vec<u32>) -> (r: Option<u32>)
    ensures
        r == spec_first_usable_v4(addrs@),
{
    let mut i: usize = 0;
    while i < addrs.len()
        invariant
            i <= addrs@.len(),
            forall|j: int| 0 <= j < i ==> !v4_usable(#[trigger] addrs@[j]),
        decreases addrs@.len() - i,
    {
        let a = addrs[i];
        if usable_v4(a) {
            proof {
                lemma_first_usable_v4_skip(addrs@, i as int);
                assert(addrs@.skip(i as int)[0] == a);
            }
            return Some(a);
        }
        i = i + 1;
    }
    proof {
        lemma_first_usable_v4_skip(addrs@, i as int);
        assert(addrs@.skip(i as int).len() == 0);
    }
    None
}

/// The listen address an IPv6-only role uses: the first of the host's
/// IPv6 interface addresses, in discovery order, that is neither
/// loopback nor multicast; none when no interface qualifies.
pub fn first_usable_v6(addrs: &Vec<u128>) -> (r: Option<u128>)
    ensures
        r == spec_first_usable_v6(addrs@),
{
    let mut i: usize = 0;
    while i < addrs.len()
        invariant
            i <= addrs@.len(),
            forall|j: int| 0 <= j < i ==> !v6_usable(#[trigger] addrs@[j]),
        decreases addrs@.len() - i,
    {
        let a = addrs[i];
        if usable_v6(a) {
            proof {
                lemma_first_usable_v6_skip(addrs@, i as int);
                assert(addrs@.skip(i as int)[0] == a);
            }
            return Some(a);
        }
        i = i + 1;
    }
    proof {
        lemma_first_usable_v6_skip(addrs@, i as int);
        assert(addrs@.skip(i as int).len() == 0);
    }
    None
}

} // verus!
