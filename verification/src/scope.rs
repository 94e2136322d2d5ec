//! The scope of a mitigation and its key.
//!
//! A scope is what a mitigation applies to: a prefix, a protocol and a set
//! of ports. Its canonical form has the prefix in network form (host bits
//! cleared) and the ports in ascending order, each once. Two match criteria
//! that mean the same have the same canonical form, and only those.
//!
//! The key of a scope is the 128-bit FNV-1a hash of the bytes of the
//! canonical form, written as 32 hexadecimal digits. Scopes that differ
//! have different bytes, and keys differ exactly when the hashes do; that
//! two different byte strings never share a hash is not claimed.

use vstd::arithmetic::div_mod::{lemma_basic_div, lemma_div_denominator};
use vstd::prelude::*;
use vstd::string::StringExecFns;

use crate::domain::MatchCriteria;
use crate::net::{
    ip_net_parse, netmask, netmask6, parse_ip_net, prefix_valid, IpAddress, IpPrefix,
};

verus! {

/// A scope in canonical form.
pub struct Scope {
    /// The prefix, in network form.
    pub prefix: IpPrefix,
    /// The protocol; `None` for any.
    pub protocol: Option<u8>,
    /// The ports, ascending, each once.
    pub ports: Vec<u16>,
}

/// The mathematical content of a [`Scope`].
pub struct ScopeView {
    pub prefix: IpPrefix,
    pub protocol: Option<u8>,
    pub ports: Seq<u16>,
}

impl View for Scope {
    type V = ScopeView;

    open spec fn view(&self) -> ScopeView {
        ScopeView { prefix: self.prefix, protocol: self.protocol, ports: self.ports@ }
    }
}

/// A prefix in network form: the host bits of its address cleared.
pub open spec fn network_form(prefix: IpPrefix) -> IpPrefix {
    match prefix.addr {
        IpAddress::V4(a) => IpPrefix { addr: IpAddress::V4(a & netmask(prefix.len)), len: prefix.len },
        IpAddress::V6(a) => IpPrefix {
            addr: IpAddress::V6(a & netmask6(prefix.len)),
            len: prefix.len,
        },
    }
}

/// Whether a list of ports ascends strictly.
pub open spec fn ports_ascend(ports: Seq<u16>) -> bool {
    forall|a: int, b: int| 0 <= a < b < ports.len() ==> #[trigger] ports[a] < #[trigger] ports[b]
}

/// The first position at or after `from` whose port is not below `port`; the
/// length of `ports` if there is none.
pub open spec fn port_slot(ports: Seq<u16>, port: u16, from: int) -> int
    decreases ports.len() - from,
{
    if from >= ports.len() || ports[from] >= port {
        from
    } else {
        port_slot(ports, port, from + 1)
    }
}

/// An ascending list of ports with `port` put in, unless it stands there
/// already.
pub open spec fn with_port(ports: Seq<u16>, port: u16) -> Seq<u16> {
    let at = port_slot(ports, port, 0);
    if at < ports.len() && ports[at] == port {
        ports
    } else {
        ports.insert(at, port)
    }
}

/// The first `n` ports of a list, ascending, each once.
pub open spec fn canonical_ports_upto(ports: Seq<u16>, n: int) -> Seq<u16>
    decreases n,
{
    if n <= 0 {
        Seq::empty()
    } else {
        with_port(canonical_ports_upto(ports, n - 1), ports[n - 1])
    }
}

/// The ports of a list, ascending, each once.
pub open spec fn canonical_ports(ports: Seq<u16>) -> Seq<u16> {
    canonical_ports_upto(ports, ports.len() as int)
}

/// The canonical form of match criteria whose prefix parsed to `prefix`.
pub open spec fn canonical_scope(prefix: IpPrefix, protocol: Option<u8>, ports: Seq<u16>) -> ScopeView {
    ScopeView { prefix: network_form(prefix), protocol, ports: canonical_ports(ports) }
}

/// The FNV-1a offset basis for 128 bits.
pub const FNV_OFFSET: u128 = 0x6c62272e07bb014262b821756295c58d;

/// The FNV-1a prime for 128 bits.
pub const FNV_PRIME: u128 = 0x0000000001000000000000000000013b;

/// One step of FNV-1a: the byte is mixed in, then the hash is multiplied by
/// the prime, keeping the low 128 bits.
pub open spec fn fnv_step(hash: u128, byte: u8) -> u128 {
    vstd::wrapping::u128_specs::wrapping_mul(hash ^ (byte as u128), FNV_PRIME)
}

/// The FNV-1a hash of the first `n` bytes of a byte string.
pub open spec fn fnv_upto(bytes: Seq<u8>, n: int) -> u128
    decreases n,
{
    if n <= 0 {
        FNV_OFFSET
    } else {
        fnv_step(fnv_upto(bytes, n - 1), bytes[n - 1])
    }
}

/// The 128-bit FNV-1a hash of a byte string.
pub open spec fn fnv128(bytes: Seq<u8>) -> u128 {
    fnv_upto(bytes, bytes.len() as int)
}

/// The two bytes of a 16-bit number, the high byte first.
pub open spec fn be16(n: u16) -> Seq<u8> {
    seq![(n / 256) as u8, (n % 256) as u8]
}

/// The bytes of a list of ports, two for each port.
pub open spec fn port_bytes(ports: Seq<u16>, n: int) -> Seq<u8>
    decreases n,
{
    if n <= 0 {
        Seq::empty()
    } else {
        port_bytes(ports, n - 1) + be16(ports[n - 1])
    }
}

/// The byte at position `i` of a number with `width` bytes, the high byte
/// first.
pub open spec fn byte_of(n: u128, width: int, i: int) -> u8 {
    ((n as int / pow256(width - 1 - i)) % 256) as u8
}

/// 256 to the power `e`.
pub open spec fn pow256(e: int) -> int
    decreases e,
{
    if e <= 0 {
        1
    } else {
        256 * pow256(e - 1)
    }
}

/// The bytes of the address of a prefix: a byte that tells the family, then
/// the address, the high byte first.
pub open spec fn addr_bytes(addr: IpAddress) -> Seq<u8> {
    match addr {
        IpAddress::V4(a) => seq![4u8] + Seq::new(4, |i: int| byte_of(a as u128, 4, i)),
        IpAddress::V6(a) => seq![6u8] + Seq::new(16, |i: int| byte_of(a, 16, i)),
    }
}

/// The bytes of a protocol: a byte that tells whether there is one, then the
/// protocol, or zero for any.
pub open spec fn protocol_bytes(protocol: Option<u8>) -> Seq<u8> {
    match protocol {
        Some(p) => seq![1u8, p],
        None => seq![0u8, 0u8],
    }
}

/// The bytes of a scope in canonical form: the address, the prefix length,
/// the protocol, then the ports.
pub open spec fn scope_bytes(scope: ScopeView) -> Seq<u8> {
    addr_bytes(scope.prefix.addr) + seq![scope.prefix.len] + protocol_bytes(scope.protocol)
        + port_bytes(scope.ports, scope.ports.len() as int)
}

/// The hexadecimal digit of a number below 16.
pub open spec fn hex_digit(n: int) -> Seq<char> {
    if n == 0 {
        "0"@
    } else if n == 1 {
        "1"@
    } else if n == 2 {
        "2"@
    } else if n == 3 {
        "3"@
    } else if n == 4 {
        "4"@
    } else if n == 5 {
        "5"@
    } else if n == 6 {
        "6"@
    } else if n == 7 {
        "7"@
    } else if n == 8 {
        "8"@
    } else if n == 9 {
        "9"@
    } else if n == 10 {
        "a"@
    } else if n == 11 {
        "b"@
    } else if n == 12 {
        "c"@
    } else if n == 13 {
        "d"@
    } else if n == 14 {
        "e"@
    } else {
        "f"@
    }
}

/// The two hexadecimal digits of a byte.
pub open spec fn hex_byte(b: u8) -> Seq<char> {
    hex_digit(b as int / 16) + hex_digit(b as int % 16)
}

/// The first `n` bytes of a 128-bit number in hexadecimal, the high byte
/// first.
pub open spec fn hex_upto(hash: u128, n: int) -> Seq<char>
    decreases n,
{
    if n <= 0 {
        Seq::empty()
    } else {
        hex_upto(hash, n - 1) + hex_byte(byte_of(hash, 16, n - 1))
    }
}

/// A 128-bit number as 32 hexadecimal digits.
pub open spec fn hex128(hash: u128) -> Seq<char> {
    hex_upto(hash, 16)
}

/// The key of a scope in canonical form.
pub open spec fn key_of(scope: ScopeView) -> Seq<char> {
    hex128(fnv128(scope_bytes(scope)))
}

/// The key of match criteria, given what their prefix parsed to: `None`
/// where the prefix does not read as a network.
pub open spec fn scope_key_with(
    prefix: Option<IpPrefix>,
    protocol: Option<u8>,
    ports: Seq<u16>,
) -> Option<Seq<char>> {
    match prefix {
        Some(p) => Some(key_of(canonical_scope(p, protocol, ports))),
        None => None,
    }
}

/// The key of match criteria.
pub open spec fn scope_key(criteria: crate::domain::MatchCriteriaView) -> Option<Seq<char>> {
    scope_key_with(ip_net_parse(criteria.dst_prefix), criteria.protocol, criteria.dst_ports)
}

/// Where `port_slot` stops, every port before it is below `port`, and the
/// port there is not.
proof fn lemma_port_slot(ports: Seq<u16>, port: u16, from: int)
    requires
        0 <= from <= ports.len(),
    ensures
        from <= port_slot(ports, port, from) <= ports.len(),
        forall|k: int| from <= k < port_slot(ports, port, from) ==> #[trigger] ports[k] < port,
        port_slot(ports, port, from) < ports.len() ==> ports[port_slot(ports, port, from)] >= port,
    decreases ports.len() - from,
{
    if from >= ports.len() || ports[from] >= port {
    } else {
        lemma_port_slot(ports, port, from + 1);
    }
}

/// Putting a port into an ascending list keeps the list ascending, keeps
/// what it held, adds the port and nothing else.
proof fn lemma_with_port(ports: Seq<u16>, port: u16)
    requires
        ports_ascend(ports),
    ensures
        ports_ascend(with_port(ports, port)),
        forall|x: u16| with_port(ports, port).contains(x) <==> x == port || ports.contains(x),
{
    let at = port_slot(ports, port, 0);
    lemma_port_slot(ports, port, 0);
    let next = with_port(ports, port);
    if at < ports.len() && ports[at] == port {
        assert(next[at] == port);
    } else {
        assert(next == ports.insert(at, port));
        assert(next.len() == ports.len() + 1);
        assert(next[at] == port);
        assert forall|x: u16| next.contains(x) <==> x == port || ports.contains(x) by {
            if ports.contains(x) {
                let k = choose|k: int| 0 <= k < ports.len() && ports[k] == x;
                if k < at {
                    assert(next[k] == x);
                } else {
                    assert(next[k + 1] == x);
                }
            }
            if next.contains(x) {
                let k = choose|k: int| 0 <= k < next.len() && next[k] == x;
                if k < at {
                    assert(ports[k] == x);
                } else if k > at {
                    assert(ports[k - 1] == x);
                }
            }
        }
        assert forall|a: int, b: int| 0 <= a < b < next.len() implies #[trigger] next[a]
            < #[trigger] next[b] by {
            if b < at {
                assert(next[a] == ports[a] && next[b] == ports[b]);
            } else if b == at {
                assert(next[a] == ports[a] && next[b] == port);
            } else if a < at {
                assert(next[a] == ports[a] && next[b] == ports[b - 1]);
            } else if a == at {
                assert(next[a] == port && next[b] == ports[b - 1]);
                assert(ports[at] >= port);
                if at < b - 1 {
                    assert(ports[at] < ports[b - 1]);
                }
            } else {
                assert(next[a] == ports[a - 1] && next[b] == ports[b - 1]);
            }
        }
    }
}

/// The canonical form of the first `n` ports ascends strictly and holds
/// exactly the ports among them.
pub proof fn lemma_canonical_ports_upto(ports: Seq<u16>, n: int)
    requires
        0 <= n <= ports.len(),
    ensures
        ports_ascend(canonical_ports_upto(ports, n)),
        forall|x: u16|
            canonical_ports_upto(ports, n).contains(x) <==> exists|i: int|
                0 <= i < n && #[trigger] ports[i] == x,
    decreases n,
{
    if n > 0 {
        lemma_canonical_ports_upto(ports, n - 1);
        let earlier = canonical_ports_upto(ports, n - 1);
        lemma_with_port(earlier, ports[n - 1]);
        let now = canonical_ports_upto(ports, n);
        assert forall|x: u16| now.contains(x) <==> exists|i: int|
            0 <= i < n && #[trigger] ports[i] == x by {
            if now.contains(x) {
                if x == ports[n - 1] {
                    assert(ports[n - 1] == x);
                } else {
                    assert(earlier.contains(x));
                    let i = choose|i: int| 0 <= i < n - 1 && #[trigger] ports[i] == x;
                    assert(ports[i] == x);
                }
            }
            if exists|i: int| 0 <= i < n && #[trigger] ports[i] == x {
                let i = choose|i: int| 0 <= i < n && #[trigger] ports[i] == x;
                if i < n - 1 {
                    assert(earlier.contains(x));
                }
            }
        }
    }
}

/// The canonical ports ascend strictly, so none stands twice, and they are
/// exactly the ports of the list.
pub proof fn lemma_canonical_ports(ports: Seq<u16>)
    ensures
        ports_ascend(canonical_ports(ports)),
        forall|x: u16| canonical_ports(ports).contains(x) <==> ports.contains(x),
{
    lemma_canonical_ports_upto(ports, ports.len() as int);
    assert forall|x: u16| canonical_ports(ports).contains(x) <==> ports.contains(x) by {
        if ports.contains(x) {
            let i = choose|i: int| 0 <= i < ports.len() && ports[i] == x;
            assert(ports[i] == x);
        }
    }
}

/// Two strictly ascending lists agree on their first `k` ports if they hold
/// the same ports.
proof fn lemma_ascending_agree(x: Seq<u16>, y: Seq<u16>, k: int)
    requires
        ports_ascend(x),
        ports_ascend(y),
        forall|v: u16| x.contains(v) <==> y.contains(v),
        0 <= k <= x.len(),
        k <= y.len(),
    ensures
        forall|j: int| 0 <= j < k ==> x[j] == y[j],
    decreases k,
{
    if k > 0 {
        lemma_ascending_agree(x, y, k - 1);
        let n = k - 1;
        assert(x.contains(x[n]));
        assert(y.contains(x[n]));
        let p = choose|p: int| 0 <= p < y.len() && y[p] == x[n];
        assert(y.contains(y[n]));
        assert(x.contains(y[n]));
        let q = choose|q: int| 0 <= q < x.len() && x[q] == y[n];
        if p < n {
            assert(x[p] == y[p]);
            assert(x[p] < x[n]);
        }
        if q < n {
            assert(x[q] == y[q]);
            assert(y[q] < y[n]);
        }
        if p > n {
            assert(y[n] < y[p]);
            if q > n {
                assert(x[n] < x[q]);
            }
        }
    }
}

/// A set of ports has one strictly ascending list only.
pub proof fn lemma_ascending_unique(x: Seq<u16>, y: Seq<u16>)
    requires
        ports_ascend(x),
        ports_ascend(y),
        forall|v: u16| x.contains(v) <==> y.contains(v),
    ensures
        x == y,
{
    if x.len() < y.len() {
        lemma_ascending_agree(x, y, x.len() as int);
        let n = x.len() as int;
        assert(y.contains(y[n]));
        assert(x.contains(y[n]));
        let q = choose|q: int| 0 <= q < x.len() && x[q] == y[n];
        assert(x[q] == y[q]);
        assert(y[q] < y[n]);
        assert(false);
    } else if y.len() < x.len() {
        lemma_ascending_agree(x, y, y.len() as int);
        let n = y.len() as int;
        assert(x.contains(x[n]));
        assert(y.contains(x[n]));
        let p = choose|p: int| 0 <= p < y.len() && y[p] == x[n];
        assert(x[p] == y[p]);
        assert(x[p] < x[n]);
        assert(false);
    } else {
        lemma_ascending_agree(x, y, x.len() as int);
        assert(x =~= y);
    }
}

/// The canonical ports depend on which ports a list holds, not on their
/// order nor on how often each stands in it; and lists that hold different
/// ports have different canonical ports.
pub proof fn lemma_canonical_ports_by_set(a: Seq<u16>, b: Seq<u16>)
    ensures
        canonical_ports(a) == canonical_ports(b) <==> (forall|v: u16|
            a.contains(v) <==> b.contains(v)),
{
    lemma_canonical_ports(a);
    lemma_canonical_ports(b);
    let ca = canonical_ports(a);
    let cb = canonical_ports(b);
    if forall|v: u16| a.contains(v) <==> b.contains(v) {
        assert forall|v: u16| ca.contains(v) <==> cb.contains(v) by {
            assert(ca.contains(v) <==> a.contains(v));
            assert(cb.contains(v) <==> b.contains(v));
            assert(a.contains(v) <==> b.contains(v));
        }
        lemma_ascending_unique(ca, cb);
    }
    if ca == cb {
        assert forall|v: u16| a.contains(v) <==> b.contains(v) by {
            assert(ca.contains(v) <==> a.contains(v));
            assert(cb.contains(v) <==> b.contains(v));
        }
    }
}

/// Two match criteria have the same canonical scope exactly when they mean
/// the same: their prefixes have the same network form, their protocols are
/// the same, and they hold the same ports. Criteria that mean the same have
/// the same key, and criteria that do not are hashed from different bytes.
pub proof fn lemma_canonical_scope_by_meaning(
    left: IpPrefix,
    left_proto: Option<u8>,
    left_ports: Seq<u16>,
    right: IpPrefix,
    right_proto: Option<u8>,
    right_ports: Seq<u16>,
)
    ensures
        canonical_scope(left, left_proto, left_ports) == canonical_scope(right, right_proto, right_ports) <==> {
            &&& network_form(left) == network_form(right)
            &&& left_proto == right_proto
            &&& (forall|v: u16| left_ports.contains(v) <==> right_ports.contains(v))
        },
        canonical_scope(left, left_proto, left_ports) == canonical_scope(right, right_proto, right_ports) ==> key_of(
            canonical_scope(left, left_proto, left_ports),
        ) == key_of(canonical_scope(right, right_proto, right_ports)),
        canonical_scope(left, left_proto, left_ports) == canonical_scope(
            right,
            right_proto,
            right_ports,
        ) <==> scope_bytes(canonical_scope(left, left_proto, left_ports)) == scope_bytes(
            canonical_scope(right, right_proto, right_ports),
        ),
{
    lemma_canonical_ports_by_set(left_ports, right_ports);
    if scope_bytes(canonical_scope(left, left_proto, left_ports)) == scope_bytes(
        canonical_scope(right, right_proto, right_ports),
    ) {
        lemma_scope_bytes_tell_scopes_apart(
            canonical_scope(left, left_proto, left_ports),
            canonical_scope(right, right_proto, right_ports),
        );
    }
}

/// Putting a prefix into network form a second time changes nothing.
pub proof fn lemma_network_form_is_stable(prefix: IpPrefix)
    ensures
        network_form(network_form(prefix)) == network_form(prefix),
{
    match prefix.addr {
        IpAddress::V4(a) => {
            let m = netmask(prefix.len);
            assert(((a & m) & m) == (a & m)) by (bit_vector);
        },
        IpAddress::V6(a) => {
            let m = netmask6(prefix.len);
            assert(((a & m) & m) == (a & m)) by (bit_vector);
        },
    }
}

/// The byte of a number below 256 to a power one higher is found by
/// dividing once more.
proof fn lemma_pow256_step(n: u128, e: int)
    requires
        0 <= e,
    ensures
        pow256(e) > 0,
        (n as int / pow256(e)) / 256 == n as int / pow256(e + 1),
    decreases e,
{
    if e > 0 {
        lemma_pow256_step(n, e - 1);
    }
    assert(pow256(e + 1) == 256 * pow256(e));
    lemma_div_denominator(n as int, pow256(e), 256);
    assert(pow256(e) * 256 == 256 * pow256(e)) by (nonlinear_arith);
}

/// Two numbers of `width` bytes that agree above those bytes and in the
/// first `k` of them agree above the remaining ones.
proof fn lemma_leading_bytes(a: u128, b: u128, width: int, k: int)
    requires
        0 <= k <= width,
        a as int / pow256(width) == b as int / pow256(width),
        forall|i: int| 0 <= i < k ==> #[trigger] byte_of(a, width, i) == byte_of(b, width, i),
    ensures
        a as int / pow256(width - k) == b as int / pow256(width - k),
    decreases k,
{
    if k > 0 {
        lemma_leading_bytes(a, b, width, k - 1);
        let e = width - k;
        lemma_pow256_step(a, e);
        lemma_pow256_step(b, e);
        let qa = a as int / pow256(e);
        let qb = b as int / pow256(e);
        assert(byte_of(a, width, k - 1) == byte_of(b, width, k - 1));
        assert(qa % 256 == qb % 256);
        assert(qa / 256 == qb / 256);
    }
}

/// A number below 256 to the power `width` is told by its `width` bytes.
proof fn lemma_bytes_tell_numbers_apart(a: u128, b: u128, width: int)
    requires
        0 <= width,
        (a as int) < pow256(width),
        (b as int) < pow256(width),
        forall|i: int| 0 <= i < width ==> #[trigger] byte_of(a, width, i) == byte_of(b, width, i),
    ensures
        a == b,
{
    lemma_basic_div(a as int, pow256(width));
    lemma_basic_div(b as int, pow256(width));
    lemma_leading_bytes(a, b, width, width);
    assert(pow256(0) == 1);
}

/// Every 128-bit number fits in sixteen bytes.
proof fn lemma_sixteen_bytes_hold(n: u128)
    ensures
        (n as int) < pow256(16),
{
    assert(pow256(8) == 0x1_0000_0000_0000_0000) by {
        reveal_with_fuel(pow256, 9);
    }
    assert(pow256(16) > u128::MAX) by {
        reveal_with_fuel(pow256, 9);
    }
}

/// The digit of a number below 16 is one character, and tells the number.
proof fn lemma_hex_digit(m: int, n: int)
    requires
        0 <= m < 16,
        0 <= n < 16,
    ensures
        hex_digit(m).len() == 1,
        hex_digit(m) == hex_digit(n) ==> m == n,
{
    reveal_strlit("0");
    reveal_strlit("1");
    reveal_strlit("2");
    reveal_strlit("3");
    reveal_strlit("4");
    reveal_strlit("5");
    reveal_strlit("6");
    reveal_strlit("7");
    reveal_strlit("8");
    reveal_strlit("9");
    reveal_strlit("a");
    reveal_strlit("b");
    reveal_strlit("c");
    reveal_strlit("d");
    reveal_strlit("e");
    reveal_strlit("f");
    if m != n {
        assert(hex_digit(m)[0] != hex_digit(n)[0]);
    }
}

/// The two digits of a byte tell the byte.
proof fn lemma_hex_byte(a: u8, b: u8)
    ensures
        hex_byte(a).len() == 2,
        hex_byte(a) == hex_byte(b) ==> a == b,
{
    lemma_hex_digit(a as int / 16, b as int / 16);
    lemma_hex_digit(a as int % 16, b as int % 16);
    lemma_hex_digit(b as int / 16, a as int / 16);
    lemma_hex_digit(b as int % 16, a as int % 16);
    if hex_byte(a) == hex_byte(b) {
        assert(hex_byte(a)[0] == hex_digit(a as int / 16)[0]);
        assert(hex_byte(a)[1] == hex_digit(a as int % 16)[0]);
        assert(hex_byte(b)[0] == hex_digit(b as int / 16)[0]);
        assert(hex_byte(b)[1] == hex_digit(b as int % 16)[0]);
        assert(hex_digit(a as int / 16) =~= hex_digit(b as int / 16));
        assert(hex_digit(a as int % 16) =~= hex_digit(b as int % 16));
    }
}

/// The first `n` bytes of a number in hexadecimal tell those bytes.
proof fn lemma_hex_upto(x: u128, y: u128, n: int)
    requires
        0 <= n <= 16,
    ensures
        hex_upto(x, n).len() == 2 * n,
        hex_upto(x, n) == hex_upto(y, n) ==> forall|i: int|
            0 <= i < n ==> #[trigger] byte_of(x, 16, i) == byte_of(y, 16, i),
    decreases n,
{
    if n > 0 {
        lemma_hex_upto(x, y, n - 1);
        lemma_hex_upto(y, x, n - 1);
        let bx = byte_of(x, 16, n - 1);
        let by = byte_of(y, 16, n - 1);
        lemma_hex_byte(bx, by);
        lemma_hex_byte(by, bx);
        let hx = hex_upto(x, n);
        let hy = hex_upto(y, n);
        if hx == hy {
            assert(hex_upto(x, n - 1) =~= hx.subrange(0, 2 * (n - 1)));
            assert(hex_upto(y, n - 1) =~= hy.subrange(0, 2 * (n - 1)));
            assert(hex_byte(bx) =~= hx.subrange(2 * (n - 1), 2 * n));
            assert(hex_byte(by) =~= hy.subrange(2 * (n - 1), 2 * n));
        }
    }
}

/// The 32 hexadecimal digits of a number tell the number.
pub proof fn lemma_hex128_tells_numbers_apart(x: u128, y: u128)
    requires
        hex128(x) == hex128(y),
    ensures
        x == y,
{
    lemma_hex_upto(x, y, 16);
    lemma_sixteen_bytes_hold(x);
    lemma_sixteen_bytes_hold(y);
    lemma_bytes_tell_numbers_apart(x, y, 16);
}

/// Two scopes have the same key exactly when their bytes have the same
/// hash.
pub proof fn lemma_key_follows_the_hash(a: ScopeView, b: ScopeView)
    ensures
        key_of(a) == key_of(b) <==> fnv128(scope_bytes(a)) == fnv128(scope_bytes(b)),
{
    if key_of(a) == key_of(b) {
        lemma_hex128_tells_numbers_apart(fnv128(scope_bytes(a)), fnv128(scope_bytes(b)));
    }
}

/// The bytes of an address tell the address: its family and its number.
pub proof fn lemma_addr_bytes_tell_addresses_apart(a: IpAddress, b: IpAddress)
    requires
        addr_bytes(a) == addr_bytes(b),
    ensures
        a == b,
{
    let x = addr_bytes(a);
    let y = addr_bytes(b);
    assert(x[0] == y[0]);
    match (a, b) {
        (IpAddress::V4(p), IpAddress::V4(q)) => {
            let pw = p as u128;
            let qw = q as u128;
            assert forall|i: int| 0 <= i < 4 implies #[trigger] byte_of(pw, 4, i) == byte_of(
                qw,
                4,
                i,
            ) by {
                assert(x[i + 1] == y[i + 1]);
            }
            assert(pow256(4) == 0x1_0000_0000) by {
                reveal_with_fuel(pow256, 5);
            }
            lemma_bytes_tell_numbers_apart(pw, qw, 4);
        },
        (IpAddress::V6(p), IpAddress::V6(q)) => {
            assert forall|i: int| 0 <= i < 16 implies #[trigger] byte_of(p, 16, i) == byte_of(q, 16, i) by {
                assert(x[i + 1] == y[i + 1]);
            }
            lemma_sixteen_bytes_hold(p);
            lemma_sixteen_bytes_hold(q);
            lemma_bytes_tell_numbers_apart(p, q, 16);
        },
        _ => {},
    }
}

/// The bytes of the first `n` ports: two for each, the high byte first.
proof fn lemma_port_bytes(ports: Seq<u16>, n: int)
    requires
        0 <= n <= ports.len(),
    ensures
        port_bytes(ports, n).len() == 2 * n,
        forall|i: int|
            0 <= i < n ==> port_bytes(ports, n)[2 * i] == ((#[trigger] ports[i]) / 256) as u8
                && port_bytes(ports, n)[2 * i + 1] == (ports[i] % 256) as u8,
    decreases n,
{
    if n > 0 {
        lemma_port_bytes(ports, n - 1);
        let earlier = port_bytes(ports, n - 1);
        let all = port_bytes(ports, n);
        assert(all == earlier + be16(ports[n - 1]));
        assert forall|i: int| 0 <= i < n implies all[2 * i] == ((#[trigger] ports[i]) / 256) as u8
            && all[2 * i + 1] == (ports[i] % 256) as u8 by {
            if i < n - 1 {
                assert(all[2 * i] == earlier[2 * i]);
                assert(all[2 * i + 1] == earlier[2 * i + 1]);
            } else {
                assert(all[2 * i] == be16(ports[n - 1])[0]);
                assert(all[2 * i + 1] == be16(ports[n - 1])[1]);
            }
        }
    }
}

/// The bytes of a scope tell the scope: two scopes with the same bytes have
/// the same prefix, the same protocol and the same list of ports.
pub proof fn lemma_scope_bytes_tell_scopes_apart(a: ScopeView, b: ScopeView)
    requires
        scope_bytes(a) == scope_bytes(b),
    ensures
        a == b,
{
    let x = scope_bytes(a);
    let y = scope_bytes(b);
    let xa = addr_bytes(a.prefix.addr);
    let ya = addr_bytes(b.prefix.addr);
    let xp = protocol_bytes(a.protocol);
    let yp = protocol_bytes(b.protocol);
    let na = a.ports.len() as int;
    let nb = b.ports.len() as int;
    lemma_port_bytes(a.ports, na);
    lemma_port_bytes(b.ports, nb);
    assert(x[0] == xa[0]);
    assert(y[0] == ya[0]);
    assert(xa.len() == ya.len());
    let w = xa.len() as int;
    assert(xa =~= x.subrange(0, w));
    assert(ya =~= y.subrange(0, w));
    lemma_addr_bytes_tell_addresses_apart(a.prefix.addr, b.prefix.addr);
    assert(x[w] == a.prefix.len);
    assert(y[w] == b.prefix.len);
    assert(x[w + 1] == xp[0] && x[w + 2] == xp[1]);
    assert(y[w + 1] == yp[0] && y[w + 2] == yp[1]);
    assert(a.protocol == b.protocol);
    assert(x.len() == w + 3 + 2 * na);
    assert(y.len() == w + 3 + 2 * nb);
    assert forall|i: int| 0 <= i < na implies a.ports[i] == b.ports[i] by {
        let pa = port_bytes(a.ports, na);
        let pb = port_bytes(b.ports, nb);
        assert(x[w + 3 + 2 * i] == pa[2 * i]);
        assert(y[w + 3 + 2 * i] == pb[2 * i]);
        assert(x[w + 3 + 2 * i + 1] == pa[2 * i + 1]);
        assert(y[w + 3 + 2 * i + 1] == pb[2 * i + 1]);
        assert(a.ports[i] / 256 == b.ports[i] / 256);
        assert(a.ports[i] % 256 == b.ports[i] % 256);
    }
    assert(a.ports =~= b.ports);
}

/// A prefix in network form.
pub fn network_of_prefix(prefix: IpPrefix) -> (net: IpPrefix)
    requires
        prefix_valid(prefix),
    ensures
        net == network_form(prefix),
        prefix_valid(net),
{
    match prefix.addr {
        IpAddress::V4(a) => {
            let mask: u32 = if prefix.len == 0 {
                0
            } else {
                0xffff_ffffu32 << ((32 - prefix.len) as u32)
            };
            IpPrefix { addr: IpAddress::V4(a & mask), len: prefix.len }
        },
        IpAddress::V6(a) => {
            let mask: u128 = if prefix.len == 0 {
                0
            } else {
                0xffff_ffff_ffff_ffff_ffff_ffff_ffff_ffffu128 << ((128 - prefix.len) as u128)
            };
            IpPrefix { addr: IpAddress::V6(a & mask), len: prefix.len }
        },
    }
}

/// The ports of a list, ascending, each once.
pub fn canonical_ports_of(ports: &Vec<u16>) -> (out: Vec<u16>)
    ensures
        out@ == canonical_ports(ports@),
{
    let mut out: Vec<u16> = Vec::new();
    let mut i: usize = 0;
    assert(out@ =~= canonical_ports_upto(ports@, 0));
    while i < ports.len()
        invariant
            i <= ports.len(),
            out@ == canonical_ports_upto(ports@, i as int),
        decreases ports.len() - i,
    {
        let port = ports[i];
        let ghost earlier = out@;
        let mut at: usize = 0;
        while at < out.len() && out[at] < port
            invariant
                at <= out.len(),
                earlier == out@,
                port_slot(earlier, port, 0) == port_slot(earlier, port, at as int),
            decreases out.len() - at,
        {
            at = at + 1;
        }
        if at < out.len() && out[at] == port {
        } else {
            out.insert(at, port);
        }
        i = i + 1;
    }
    out
}

/// Appends the `width` bytes of a number, the high byte first.
fn push_bytes(out: &mut Vec<u8>, n: u128, width: usize)
    requires
        1 <= width <= 16,
    ensures
        final(out)@ == old(out)@ + Seq::new(width as nat, |i: int| byte_of(n, width as int, i)),
{
    let ghost before = out@;
    let ghost wanted = Seq::new(width as nat, |i: int| byte_of(n, width as int, i));
    let start = out.len();
    let mut k: usize = 0;
    while k < width
        invariant
            k <= width,
            out@.len() == before.len() + k,
            out@.subrange(0, before.len() as int) == before,
            start == before.len(),
        decreases width - k,
    {
        out.push(0);
        assert(out@.subrange(0, before.len() as int) =~= before);
        k = k + 1;
    }
    let mut rest: u128 = n;
    let mut j: usize = 0;
    proof {
        assert(pow256(0) == 1);
    }
    while j < width
        invariant
            j <= width <= 16,
            start == before.len(),
            out.len() == start + width,
            out@.len() == before.len() + width,
            out@.subrange(0, before.len() as int) == before,
            rest as int == n as int / pow256(j as int),
            wanted == Seq::new(width as nat, |i: int| byte_of(n, width as int, i)),
            forall|i: int| width - j <= i < width ==> out@[before.len() + i] == wanted[i],
        decreases width - j,
    {
        proof {
            lemma_pow256_step(n, j as int);
        }
        let b: u8 = (rest % 256) as u8;
        let at = start + (width - 1 - j);
        let ghost prev = out@;
        out[at] = b;
        assert(out@ == prev.update(at as int, b));
        assert(out@.subrange(0, before.len() as int) =~= before);
        assert(wanted[width - 1 - j] == b);
        rest = rest / 256;
        j = j + 1;
    }
    assert(out@ =~= before + wanted);
}

/// The bytes of a scope in canonical form.
pub fn encode_scope(scope: &Scope) -> (bytes: Vec<u8>)
    ensures
        bytes@ == scope_bytes(scope@),
{
    let mut bytes: Vec<u8> = Vec::new();
    match scope.prefix.addr {
        IpAddress::V4(a) => {
            bytes.push(4);
            assert(bytes@ =~= seq![4u8]);
            push_bytes(&mut bytes, a as u128, 4);
        },
        IpAddress::V6(a) => {
            bytes.push(6);
            assert(bytes@ =~= seq![6u8]);
            push_bytes(&mut bytes, a, 16);
        },
    }
    assert(bytes@ == addr_bytes(scope.prefix.addr));
    bytes.push(scope.prefix.len);
    match scope.protocol {
        Some(p) => {
            bytes.push(1);
            bytes.push(p);
        },
        None => {
            bytes.push(0);
            bytes.push(0);
        },
    }
    let ghost head = addr_bytes(scope.prefix.addr) + seq![scope.prefix.len] + protocol_bytes(
        scope.protocol,
    );
    assert(bytes@ =~= head);
    let mut i: usize = 0;
    assert(port_bytes(scope.ports@, 0) =~= Seq::empty());
    assert(bytes@ =~= head + port_bytes(scope.ports@, 0));
    while i < scope.ports.len()
        invariant
            i <= scope.ports.len(),
            bytes@ == head + port_bytes(scope.ports@, i as int),
        decreases scope.ports.len() - i,
    {
        let port = scope.ports[i];
        bytes.push((port / 256) as u8);
        bytes.push((port % 256) as u8);
        assert(bytes@ =~= head + (port_bytes(scope.ports@, i as int) + be16(port)));
        i = i + 1;
    }
    bytes
}

/// The 128-bit FNV-1a hash of a byte string.
pub fn fnv128_of(bytes: &[u8]) -> (hash: u128)
    ensures
        hash == fnv128(bytes@),
{
    let mut hash: u128 = FNV_OFFSET;
    let mut i: usize = 0;
    while i < bytes.len()
        invariant
            i <= bytes.len(),
            hash == fnv_upto(bytes@, i as int),
        decreases bytes.len() - i,
    {
        hash = (hash ^ (bytes[i] as u128)).wrapping_mul(FNV_PRIME);
        i = i + 1;
    }
    hash
}

/// The hexadecimal digit of a number below 16.
fn hex_digit_of(n: u8) -> (digit: &'static str)
    requires
        n < 16,
    ensures
        digit@ == hex_digit(n as int),
{
    match n {
        0 => "0",
        1 => "1",
        2 => "2",
        3 => "3",
        4 => "4",
        5 => "5",
        6 => "6",
        7 => "7",
        8 => "8",
        9 => "9",
        10 => "a",
        11 => "b",
        12 => "c",
        13 => "d",
        14 => "e",
        _ => "f",
    }
}

/// A 128-bit number as 32 hexadecimal digits.
pub fn hex128_of(hash: u128) -> (text: String)
    ensures
        text@ == hex128(hash),
{
    let mut bytes: Vec<u8> = Vec::new();
    push_bytes(&mut bytes, hash, 16);
    assert(bytes@ =~= Seq::new(16, |i: int| byte_of(hash, 16, i)));
    let mut text = String::new();
    let mut i: usize = 0;
    assert(text@ =~= hex_upto(hash, 0));
    while i < 16
        invariant
            i <= 16,
            bytes@ == Seq::new(16, |k: int| byte_of(hash, 16, k)),
            text@ == hex_upto(hash, i as int),
        decreases 16 - i,
    {
        let b = bytes[i];
        assert(b == byte_of(hash, 16, i as int));
        let ghost before = text@;
        text.append(hex_digit_of(b / 16));
        text.append(hex_digit_of(b % 16));
        assert(text@ =~= before + hex_byte(b));
        i = i + 1;
    }
    text
}

impl Scope {
    /// The canonical form of match criteria whose prefix parsed to `prefix`.
    pub fn new(prefix: IpPrefix, protocol: Option<u8>, ports: &Vec<u16>) -> (scope: Scope)
        requires
            prefix_valid(prefix),
        ensures
            scope@ == canonical_scope(prefix, protocol, ports@),
    {
        Scope {
            prefix: network_of_prefix(prefix),
            protocol,
            ports: canonical_ports_of(ports),
        }
    }

    /// The key of this scope.
    pub fn key(&self) -> (key: String)
        ensures
            key@ == key_of(self@),
    {
        let bytes = encode_scope(self);
        hex128_of(fnv128_of(bytes.as_slice()))
    }
}

/// The key of match criteria, given what their prefix parsed to.
pub fn scope_key_from(prefix: Option<IpPrefix>, protocol: Option<u8>, ports: &Vec<u16>) -> (key:
    Option<String>)
    requires
        match prefix {
            Some(p) => prefix_valid(p),
            None => true,
        },
    ensures
        crate::domain::opt_text(key) == scope_key_with(prefix, protocol, ports@),
{
    match prefix {
        Some(p) => Some(Scope::new(p, protocol, ports).key()),
        None => None,
    }
}

/// The key of match criteria: `None` where the prefix does not read as a
/// network.
pub fn scope_key_of(criteria: &MatchCriteria) -> (key: Option<String>)
    ensures
        crate::domain::opt_text(key) == scope_key(criteria@),
{
    let prefix = parse_ip_net(criteria.dst_prefix.as_str());
    scope_key_from(prefix, criteria.protocol, &criteria.dst_ports)
}

} // verus!
