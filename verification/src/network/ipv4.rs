//! IPv4 (layer 3): addresses, the packet header, the header checksum, and
//! the decision what to do with a received packet.
use crate::network::nic::{be16, PacketReader};
use vstd::prelude::*;

verus! {

/// Length of an IPv4 header without options.
pub const BASE_HEADER_LEN: usize = 20;

/// An IPv4 address.
#[derive(Copy, Clone, PartialEq, PartialOrd, Eq, Ord, Debug)]
pub struct Address([u8; 4]);

impl Address {
    /// The four bytes of the address, first byte first.
    pub closed spec fn octets(&self) -> Seq<u8> {
        self.0@
    }

    /// The address with the given bytes.
    pub closed spec fn of(a: u8, b: u8, c: u8, d: u8) -> Address {
        Address([a, b, c, d])
    }

    /// Two addresses with the same bytes are the same address.
    pub proof fn lemma_octets_decide(a: Address, b: Address)
        requires
            a.octets() == b.octets(),
        ensures
            a == b,
    {
        assert(a.0 =~= b.0);
    }

    pub proof fn lemma_octets_of(a: u8, b: u8, c: u8, d: u8)
        ensures
            Address::of(a, b, c, d).octets() == seq![a, b, c, d],
    {
        assert(Address::of(a, b, c, d).0@ =~= seq![a, b, c, d]);
    }

    pub fn new(octets: [u8; 4]) -> (r: Self)
        ensures
            r.octets() == octets@,
            r == Address::of(octets[0], octets[1], octets[2], octets[3]),
    {
        let r = Address(octets);
        proof {
            Address::lemma_octets_of(octets[0], octets[1], octets[2], octets[3]);
            assert(r.octets() =~= seq![octets[0], octets[1], octets[2], octets[3]]);
            Address::lemma_octets_decide(
                r,
                Address::of(octets[0], octets[1], octets[2], octets[3]),
            );
        }
        r
    }

    pub fn to_octets(&self) -> (r: [u8; 4])
        ensures
            r@ == self.octets(),
    {
        self.0
    }

    /// The address as a number, first byte most significant.
    pub open spec fn spec_as_u32(&self) -> u32 {
        (self.octets()[0] as int * 0x100_0000 + self.octets()[1] as int * 0x1_0000
            + self.octets()[2] as int * 0x100 + self.octets()[3] as int) as u32
    }

    /// Big endian u32 (so 127.0.0.1 => 0x7F000001)
    pub fn as_u32(&self) -> (r: u32)
        ensures
            r == self.spec_as_u32(),
    {
        let a = self.0[0];
        let b = self.0[1];
        let c = self.0[2];
        let d = self.0[3];
        assert((a as u32) << 24 | (b as u32) << 16 | (c as u32) << 8 | (d as u32) << 0 == (a as int
            * 0x100_0000 + b as int * 0x1_0000 + c as int * 0x100 + d as int) as u32)
            by (bit_vector);
        (a as u32) << 24 | (b as u32) << 16 | (c as u32) << 8 | (d as u32) << 0
    }

    /// Whether the two addresses are the same.
    pub fn same(&self, other: &Address) -> (r: bool)
        ensures
            r == (*self == *other),
    {
        let r = self.0[0] == other.0[0] && self.0[1] == other.0[1] && self.0[2] == other.0[2]
            && self.0[3] == other.0[3];
        proof {
            if r {
                assert(self.octets() =~= other.octets());
                Address::lemma_octets_decide(*self, *other);
            }
        }
        r
    }
}

/// The character of a decimal digit.
pub open spec fn digit(d: int) -> char {
    if d == 0 {
        '0'
    } else if d == 1 {
        '1'
    } else if d == 2 {
        '2'
    } else if d == 3 {
        '3'
    } else if d == 4 {
        '4'
    } else if d == 5 {
        '5'
    } else if d == 6 {
        '6'
    } else if d == 7 {
        '7'
    } else if d == 8 {
        '8'
    } else {
        '9'
    }
}

/// The decimal notation of `v`, without leading zeros.
pub open spec fn decimal(v: u8) -> Seq<char> {
    if v >= 100 {
        seq![digit(v as int / 100), digit(v as int / 10 % 10), digit(v as int % 10)]
    } else if v >= 10 {
        seq![digit(v as int / 10), digit(v as int % 10)]
    } else {
        seq![digit(v as int)]
    }
}

/// The dotted notation of an address: its four bytes in decimal, with a dot between them.
pub open spec fn dotted(octets: Seq<u8>) -> Seq<char> {
    decimal(octets[0]) + seq!['.'] + decimal(octets[1]) + seq!['.'] + decimal(octets[2])
        + seq!['.'] + decimal(octets[3])
}

fn digit_str(d: u8) -> (r: &'static str)
    requires
        d < 10,
    ensures
        r@ == seq![digit(d as int)],
{
    proof {
        reveal_strlit("0");
        reveal_strlit("1");
        reveal_strlit("2");
        reveal_strlit("3");
        reveal_strlit("4");
        reveal_strlit("5");
        reveal_strlit("6");
        reveal_strlit("7");
        reveal_strlit("8");
        reveal_strlit("9");
    }
    let r = if d == 0 {
        "0"
    } else if d == 1 {
        "1"
    } else if d == 2 {
        "2"
    } else if d == 3 {
        "3"
    } else if d == 4 {
        "4"
    } else if d == 5 {
        "5"
    } else if d == 6 {
        "6"
    } else if d == 7 {
        "7"
    } else if d == 8 {
        "8"
    } else {
        "9"
    };
    assert(r@ =~= seq![digit(d as int)]);
    r
}

fn push_decimal(s: &mut String, v: u8)
    ensures
        final(s)@ == old(s)@ + decimal(v),
{
    if v >= 100 {
        s.append(digit_str(v / 100));
        s.append(digit_str(v / 10 % 10));
        s.append(digit_str(v % 10));
    } else if v >= 10 {
        s.append(digit_str(v / 10));
        s.append(digit_str(v % 10));
    } else {
        s.append(digit_str(v));
    }
    assert(s@ =~= old(s)@ + decimal(v));
}

impl Address {
    /// The address in dotted notation, as in `127.0.0.1`.
    pub fn to_string(&self) -> (r: String)
        ensures
            r@ == dotted(self.octets()),
    {
        proof {
            reveal_strlit(".");
        }
        let mut s = String::new();
        push_decimal(&mut s, self.0[0]);
        s.append(".");
        push_decimal(&mut s, self.0[1]);
        s.append(".");
        push_decimal(&mut s, self.0[2]);
        s.append(".");
        push_decimal(&mut s, self.0[3]);
        assert(s@ =~= dotted(self.octets()));
        s
    }
}

impl Default for Address {
    fn default() -> (r: Self)
        ensures
            r == Address::of(0, 0, 0, 0),
    {
        Address::new([0, 0, 0, 0])
    }
}

/// A local endpoint of the IPv4 layer.
#[derive(Copy, Clone, PartialEq, Eq, Debug)]
pub struct Interface {
    address: Address,
}

impl Interface {
    pub closed spec fn spec_addr(&self) -> Address {
        self.address
    }

    pub fn new(address: Address) -> (r: Self)
        ensures
            r.spec_addr() == address,
    {
        Interface { address }
    }

    pub fn addr(&self) -> (r: Address)
        ensures
            r == self.spec_addr(),
    {
        self.address
    }
}

/// The fixed part of an IPv4 header, as it stands in the packet.
#[derive(Copy, Clone, PartialEq, Eq, Debug)]
pub struct Ipv4Header {
    pub ver_and_len: u8,
    pub diff_services: u8,
    pub total_length: u16,
    pub identification: u16,
    pub flags: u8,
    pub frag_ofs_high: u8,
    pub ttl: u8,
    pub protocol: u8,
    pub hdr_checksum: u16,
    pub source: Address,
    pub destination: Address,
}

/// How many bytes reading a header consumes when `n` bytes are left: all
/// twenty, or, of fewer, those of the leading fields that are there in full.
pub open spec fn header_bytes_read(n: nat) -> int {
    if n >= 20 {
        20
    } else if n >= 16 {
        16
    } else if n >= 12 {
        12
    } else if n >= 10 {
        10
    } else if n >= 6 {
        if n >= 7 {
            n as int
        } else {
            6
        }
    } else if n >= 4 {
        4
    } else if n >= 2 {
        2
    } else {
        n as int
    }
}

/// The header that the first twenty bytes of `b` spell.
pub open spec fn parse_header(b: Seq<u8>) -> Ipv4Header
    recommends
        b.len() >= BASE_HEADER_LEN,
{
    Ipv4Header {
        ver_and_len: b[0],
        diff_services: b[1],
        total_length: be16(b[2], b[3]),
        identification: be16(b[4], b[5]),
        flags: b[6],
        frag_ofs_high: b[7],
        ttl: b[8],
        protocol: b[9],
        hdr_checksum: be16(b[10], b[11]),
        source: Address::of(b[12], b[13], b[14], b[15]),
        destination: Address::of(b[16], b[17], b[18], b[19]),
    }
}

impl Ipv4Header {
    /// The IP version that the header claims.
    pub open spec fn version(&self) -> int {
        self.ver_and_len as int / 16
    }

    /// Length of the header with its options, in bytes.
    pub open spec fn header_length(&self) -> int {
        (self.ver_and_len as int % 16) * 4
    }

    /// Whether the packet is a fragment that others follow.
    pub open spec fn has_more_fragments(&self) -> bool {
        self.flags & 0x20 != 0
    }

    /// Where in the whole datagram this fragment belongs.
    pub open spec fn fragment_ofs(&self) -> int {
        self.frag_ofs_high as int * 32 + (self.flags & 0x1F) as int
    }

    /// Reads the fixed part of a header, field by field. Fails when fewer
    /// than twenty bytes are left; the fields that were there are then read.
    pub fn read(reader: &mut PacketReader) -> (r: Result<Self, ()>)
        ensures
            final(reader).remaining() == old(reader).remaining().skip(
                header_bytes_read(old(reader).remaining().len()),
            ),
            match r {
                Ok(h) => {
                    &&& old(reader).remaining().len() >= BASE_HEADER_LEN
                    &&& h == parse_header(old(reader).remaining())
                },
                Err(_) => old(reader).remaining().len() < BASE_HEADER_LEN,
            },
    {
        let ghost p = reader.remaining();
        assert(reader.remaining() =~= p.skip(0));
        let ver_and_len = reader.read_u8()?;
        assert(reader.remaining() =~= p.skip(1));
        let diff_services = reader.read_u8()?;
        assert(reader.remaining() =~= p.skip(2));
        let total_length = reader.read_u16n()?;
        assert(reader.remaining() =~= p.skip(4));
        let identification = reader.read_u16n()?;
        assert(reader.remaining() =~= p.skip(6));
        let flags = reader.read_u8()?;
        assert(reader.remaining() =~= p.skip(7));
        // low bits in the `flags` field
        let frag_ofs_high = reader.read_u8()?;
        assert(reader.remaining() =~= p.skip(8));
        let ttl = reader.read_u8()?;
        assert(reader.remaining() =~= p.skip(9));
        let protocol = reader.read_u8()?;
        assert(reader.remaining() =~= p.skip(10));
        let hdr_checksum = reader.read_u16n()?;
        assert(reader.remaining() =~= p.skip(12));
        let source = Address::new(reader.read_bytes([0;4])?);
        assert(reader.remaining() =~= p.skip(16));
        let destination = Address::new(reader.read_bytes([0;4])?);
        assert(reader.remaining() =~= p.skip(20));
        Ok(
            Ipv4Header {
                ver_and_len,
                diff_services,
                total_length,
                identification,
                flags,
                frag_ofs_high,
                ttl,
                protocol,
                hdr_checksum,
                source,
                destination,
            },
        )
    }

    pub fn get_version(&self) -> (r: u8)
        ensures
            r == self.version(),
    {
        let v = self.ver_and_len;
        assert(v >> 4 == v / 16) by (bit_vector);
        v >> 4
    }

    pub fn get_header_length(&self) -> (r: usize)
        ensures
            r == self.header_length(),
            r <= 60,
    {
        let v = self.ver_and_len;
        assert(v & 0xF == v % 16) by (bit_vector);
        (v & 0xF) as usize * 4
    }

    pub fn get_has_more_fragments(&self) -> (r: bool)
        ensures
            r == self.has_more_fragments(),
    {
        let f = self.flags;
        assert(f & (1u8 << 5) == f & 0x20) by (bit_vector);
        f & (1u8 << 5) != 0
    }

    pub fn get_fragment_ofs(&self) -> (r: usize)
        ensures
            r == self.fragment_ofs(),
    {
        let hi = self.frag_ofs_high;
        let f = self.flags;
        let lo = f & 0x1F;
        assert((hi as u32) << 5 | (lo as u32) == hi as u32 * 32 + lo as u32) by (bit_vector)
            requires
                lo == f & 0x1F,
        ;
        let ofs: u32 = (hi as u32) << 5 | (lo as u32);
        ofs as usize
    }
}

/// The sum of the words, without any carry folded in.
pub open spec fn word_sum(words: Seq<u16>) -> nat
    decreases words.len(),
{
    if words.len() == 0 {
        0
    } else {
        word_sum(words.drop_last()) + words.last() as nat
    }
}

/// Adds what lies above bit 16 back into the low 16 bits, until nothing lies above.
pub open spec fn fold_carries(sum: nat) -> nat
    decreases sum,
{
    if sum > 0xFFFF {
        fold_carries(sum % 0x1_0000 + sum / 0x1_0000)
    } else {
        sum
    }
}

/// The one's complement of the one's-complement sum of the words.
pub open spec fn checksum_of(words: Seq<u16>) -> u16 {
    (0xFFFF - fold_carries(word_sum(words))) as u16
}

/// Calculate a checksum of a sequence of 16-bit words in the byte order of the machine.
pub fn calculate_checksum(words: &[u16]) -> (r: u16)
    ensures
        r == checksum_of(words@),
{
    let mut sum: u128 = 0;
    let mut i: usize = 0;
    while i < words.len()
        invariant
            i <= words.len(),
            sum == word_sum(words@.take(i as int)),
            sum <= i * 0xFFFF,
        decreases words.len() - i,
    {
        sum = sum + words[i] as u128;
        i = i + 1;
        proof {
            assert(words@.take(i as int).drop_last() =~= words@.take(i - 1));
        }
    }
    proof {
        assert(words@.take(i as int) =~= words@);
    }
    while sum > 0xFFFF
        invariant
            fold_carries(sum as nat) == fold_carries(word_sum(words@)),
        decreases sum,
    {
        proof {
            assert(sum & 0xFFFF == sum % 0x1_0000) by (bit_vector);
            assert(sum >> 16 == sum / 0x1_0000) by (bit_vector);
        }
        sum = (sum & 0xFFFF) + (sum >> 16);
    }
    let low = sum as u16;
    assert(!low == (0xFFFFu16 - low) as u16) by (bit_vector);
    !low
}

/// Who takes the packets of one protocol.
#[derive(Copy, Clone, PartialEq, Eq, Debug)]
pub enum ProtoHandler {
    /// Direct in-kernel handling (e.g. TCP): the number under which the
    /// kernel knows the handling function.
    DirectKernel(usize),
    /// Indirect user handling.
    User(Address),
}

/// A call of a protocol's handling function that remains to be made.
pub struct Dispatch<'a> {
    /// The number of the handling function.
    pub handler: usize,
    /// The interface on which the packet arrived.
    pub interface: Interface,
    /// The sender of the packet.
    pub source: Address,
    /// The packet, read up to its body.
    pub reader: PacketReader<'a>,
}

impl ProtoHandler {
    /// The call that hands a packet to this handler. Handing over to a user
    /// handler is not provided for.
    pub fn dispatch<'a>(
        &self,
        i: &Interface,
        src: Address,
        _dest: Address,
        r: PacketReader<'a>,
    ) -> (d: Dispatch<'a>)
        requires
            self is DirectKernel,
        ensures
            d.handler == self->DirectKernel_0,
            d.interface == *i,
            d.source == src,
            d.reader == r,
    {
        match *self {
            ProtoHandler::DirectKernel(fcn) => Dispatch {
                handler: fcn,
                interface: *i,
                source: src,
                reader: r,
            },
            ProtoHandler::User(_) => unreached(),
        }
    }
}

/// The protocol numbers that have a handler, in the order of registration.
pub struct ProtocolTable {
    handlers: Vec<(u8, ProtoHandler)>,
}

/// The place of the first element of `s` of which `p` holds, if there is one.
pub open spec fn first_where<T>(s: Seq<T>, p: spec_fn(T) -> bool) -> Option<int>
    decreases s.len(),
{
    if s.len() == 0 {
        None
    } else if p(s[0]) {
        Some(0)
    } else {
        match first_where(s.skip(1), p) {
            Some(i) => Some(i + 1),
            None => None,
        }
    }
}

/// What `first_where` finds: an element of which `p` holds, before which it holds of none.
pub proof fn lemma_first_where<T>(s: Seq<T>, p: spec_fn(T) -> bool)
    ensures
        match first_where(s, p) {
            Some(i) => 0 <= i < s.len() && p(s[i]) && forall|j: int| 0 <= j < i ==> !p(#[trigger] s[j]),
            None => forall|j: int| 0 <= j < s.len() ==> !p(#[trigger] s[j]),
        },
    decreases s.len(),
{
    if s.len() > 0 && !p(s[0]) {
        lemma_first_where(s.skip(1), p);
        match first_where(s.skip(1), p) {
            Some(i) => {
                assert forall|j: int| 0 <= j < i + 1 implies !p(#[trigger] s[j]) by {
                    if j > 0 {
                        assert(s[j] == s.skip(1)[j - 1]);
                    }
                }
            },
            None => {
                assert forall|j: int| 0 <= j < s.len() implies !p(#[trigger] s[j]) by {
                    if j > 0 {
                        assert(s[j] == s.skip(1)[j - 1]);
                    }
                }
            },
        }
    }
}

/// An element of which `p` holds, before which it holds of none, is what `first_where` finds.
pub proof fn lemma_first_where_is<T>(s: Seq<T>, p: spec_fn(T) -> bool, i: int)
    requires
        0 <= i < s.len(),
        p(s[i]),
        forall|j: int| 0 <= j < i ==> !p(#[trigger] s[j]),
    ensures
        first_where(s, p) == Some(i),
{
    lemma_first_where(s, p);
    match first_where(s, p) {
        Some(k) => {
            if k < i {
                assert(!p(s[k]));
            } else if i < k {
                assert(!p(s[i]));
            }
        },
        None => {
            assert(!p(s[i]));
        },
    }
}

/// When `p` holds of no element, `first_where` finds none.
pub proof fn lemma_first_where_none<T>(s: Seq<T>, p: spec_fn(T) -> bool)
    requires
        forall|j: int| 0 <= j < s.len() ==> !p(#[trigger] s[j]),
    ensures
        first_where(s, p) is None,
{
    lemma_first_where(s, p);
    match first_where(s, p) {
        Some(k) => {
            assert(!p(s[k]));
        },
        None => {},
    }
}

/// Holds of the table entries for the protocol `proto`.
pub open spec fn is_for(proto: u8) -> spec_fn((u8, ProtoHandler)) -> bool {
    |e: (u8, ProtoHandler)| e.0 == proto
}

/// Holds of the interfaces with the address `dest`.
pub open spec fn has_address(dest: Address) -> spec_fn(Interface) -> bool {
    |i: Interface| i.spec_addr() == dest
}

/// The place of the first entry for `proto`, if there is one.
pub open spec fn first_handler(handlers: Seq<(u8, ProtoHandler)>, proto: u8) -> Option<int> {
    first_where(handlers, is_for(proto))
}

/// The place of the first interface with the address `dest`, if there is one.
pub open spec fn first_interface(interfaces: Seq<Interface>, dest: Address) -> Option<int> {
    first_where(interfaces, has_address(dest))
}

impl View for ProtocolTable {
    type V = Seq<(u8, ProtoHandler)>;

    closed spec fn view(&self) -> Seq<(u8, ProtoHandler)> {
        self.handlers@
    }
}

impl ProtocolTable {
    /// Every handler in the table is an in-kernel one: no other can be registered.
    pub open spec fn wf(&self) -> bool {
        forall|i: int| 0 <= i < self@.len() ==> (#[trigger] self@[i]).1 is DirectKernel
    }

    /// A table without handlers.
    pub fn new() -> (r: Self)
        ensures
            r.wf(),
            r@ == Seq::<(u8, ProtoHandler)>::empty(),
    {
        ProtocolTable { handlers: Vec::new() }
    }

    /// The handler registered for `proto`, if there is one.
    pub fn lookup(&self, proto: u8) -> (r: Option<ProtoHandler>)
        ensures
            match first_handler(self@, proto) {
                Some(i) => 0 <= i < self@.len() && r == Some(self@[i].1) && self@[i].0 == proto,
                None => r is None,
            },
    {
        let mut i: usize = 0;
        while i < self.handlers.len()
            invariant
                i <= self.handlers@.len(),
                forall|j: int| 0 <= j < i ==> !is_for(proto)(#[trigger] self.handlers@[j]),
            decreases self.handlers.len() - i,
        {
            if self.handlers[i].0 == proto {
                proof {
                    lemma_first_where_is(self.handlers@, is_for(proto), i as int);
                }
                return Some(self.handlers[i].1);
            }
            i = i + 1;
        }
        proof {
            lemma_first_where_none(self.handlers@, is_for(proto));
        }
        None
    }
}

/// Registers the kernel function number `handler` for the protocol `proto`.
/// A protocol can have one handler only.
pub fn register_handler(table: &mut ProtocolTable, proto: u8, handler: usize) -> (r: Result<(), ()>)
    requires
        old(table).wf(),
    ensures
        final(table).wf(),
        r is Err <==> first_handler(old(table)@, proto) is Some,
        r is Err ==> final(table)@ == old(table)@,
        r is Ok ==> final(table)@ == old(table)@.push((proto, ProtoHandler::DirectKernel(handler))),
{
    if table.lookup(proto).is_some() {
        return Err(());
    }
    table.handlers.push((proto, ProtoHandler::DirectKernel(handler)));
    Ok(())
}

/// What becomes of a received packet that is well formed.
pub enum Routing {
    /// It is a fragment. Fragments are not put together: it is dropped.
    Fragmented,
    /// It goes to the handler of its protocol on the interface that has its
    /// destination address, with what follows the header.
    Dispatch { handler: usize, interface: Interface, source: Address, payload: Seq<u8> },
    /// An interface has its destination address, but its protocol has no handler: it is dropped.
    Unhandled { interface: Interface },
    /// No interface has its destination address: it is dropped.
    Unrouted,
}

/// What is to be done with a received packet that is well formed.
pub enum RxAction<'a> {
    /// Nothing: it is a fragment.
    Fragmented,
    /// The call of a handler.
    Dispatch(Dispatch<'a>),
    /// Nothing: the protocol has no handler on this interface.
    Unhandled(Interface),
    /// Nothing: the packet is for nobody here.
    Unrouted,
}

impl<'a> View for RxAction<'a> {
    type V = Routing;

    open spec fn view(&self) -> Routing {
        match *self {
            RxAction::Fragmented => Routing::Fragmented,
            RxAction::Dispatch(d) => Routing::Dispatch {
                handler: d.handler,
                interface: d.interface,
                source: d.source,
                payload: d.reader.remaining(),
            },
            RxAction::Unhandled(i) => Routing::Unhandled { interface: i },
            RxAction::Unrouted => Routing::Unrouted,
        }
    }
}

/// A received packet that is well formed: its header, the checksum over the
/// header (zero when the header is intact), and what is to be done with it.
pub struct Received<'a> {
    pub header: Ipv4Header,
    pub checksum: u16,
    pub action: RxAction<'a>,
}

/// The first `n` 16-bit words of `packet`, each taken in network order.
pub open spec fn leading_words(packet: Seq<u8>, n: int) -> Seq<u16> {
    Seq::new(n as nat, |i: int| be16(packet[2 * i], packet[2 * i + 1]))
}

/// The checksum over the header of `packet`, options included.
pub open spec fn header_checksum(packet: Seq<u8>) -> u16 {
    checksum_of(leading_words(packet, parse_header(packet).header_length() / 2))
}

/// Where the body of `packet` starts: behind the header and its options.
pub open spec fn body_start(packet: Seq<u8>) -> int {
    let hdr_len = parse_header(packet).header_length();
    if hdr_len > BASE_HEADER_LEN {
        hdr_len
    } else {
        BASE_HEADER_LEN as int
    }
}

/// Whether `packet` is refused as malformed: it is too short for a header,
/// is not of version 4, claims a header longer than itself, or, not being a
/// fragment, claims a body longer than what follows the header.
pub open spec fn malformed(packet: Seq<u8>) -> bool {
    let h = parse_header(packet);
    ||| packet.len() < BASE_HEADER_LEN
    ||| h.version() != 4
    ||| h.header_length() > packet.len()
    ||| {
        &&& !is_fragment(h)
        &&& {
            ||| h.total_length < h.header_length()
            ||| packet.len() - body_start(packet) < h.total_length - h.header_length()
        }
    }
}

/// Whether the header belongs to a fragment of a larger datagram.
pub open spec fn is_fragment(h: Ipv4Header) -> bool {
    h.has_more_fragments() || h.fragment_ofs() != 0
}

/// What becomes of `packet`, which is not malformed, given the interfaces
/// and the registered handlers: the first interface with the destination
/// address takes it, for the first handler of its protocol.
pub open spec fn routing(
    interfaces: Seq<Interface>,
    handlers: Seq<(u8, ProtoHandler)>,
    packet: Seq<u8>,
) -> Routing {
    let h = parse_header(packet);
    if is_fragment(h) {
        Routing::Fragmented
    } else {
        match first_interface(interfaces, h.destination) {
            None => Routing::Unrouted,
            Some(i) => match first_handler(handlers, h.protocol) {
                None => Routing::Unhandled { interface: interfaces[i] },
                Some(k) => Routing::Dispatch {
                    handler: handlers[k].1->DirectKernel_0,
                    interface: interfaces[i],
                    source: h.source,
                    payload: packet.skip(body_start(packet)),
                },
            },
        }
    }
}

/// Decides what to do with a packet received from an ethernet interface.
///
/// A malformed packet is refused. Of any other the result holds the header,
/// the header checksum, and the action: the call of the handler that takes
/// it, or nothing where it is dropped.
#[verifier::loop_isolation(false)]
pub fn handle_rx_ethernet<'a>(
    interfaces: &[Interface],
    protocols: &ProtocolTable,
    _source_mac: [u8; 6],
    reader: PacketReader<'a>,
) -> (r: Result<Received<'a>, ()>)
    requires
        protocols.wf(),
    ensures
        r is Err <==> malformed(reader.remaining()),
        r matches Ok(rx) ==> {
            &&& rx.header == parse_header(reader.remaining())
            &&& rx.checksum == header_checksum(reader.remaining())
            &&& rx.action@ == routing(interfaces@, protocols@, reader.remaining())
        },
{
    let ghost packet = reader.remaining();
    let pre_header_reader = reader;
    let mut reader = reader;
    let hdr = match Ipv4Header::read(&mut reader) {
        Ok(v) => v,
        Err(_) => {
            return Err(());
        },
    };

    if hdr.get_version() != 4 {
        // Malformed packet, bad IP version
        return Err(());
    }
    let hdr_len = hdr.get_header_length();
    let total = pre_header_reader.remain();
    if hdr_len > total {
        // Malformed packet, header's reported size is larger than the buffer
        return Err(());
    }
    let ghost mut at: int = BASE_HEADER_LEN as int;
    if reader.remain() > total - hdr_len {
        // Consume bytes out of the buffer until the end of the header is reached
        let n_bytes_after_header = total - hdr_len;
        while reader.remain() > n_bytes_after_header
            invariant
                BASE_HEADER_LEN <= at <= hdr_len <= total == packet.len(),
                n_bytes_after_header == total - hdr_len,
                reader.remaining() == packet.skip(at),
            decreases reader.remaining().len(),
        {
            reader.read_u8()?;
            proof {
                assert(packet.skip(at).skip(1) =~= packet.skip(at + 1));
                at = at + 1;
            }
        }
    }
    assert(at == body_start(packet));

    // Checksum: sum all of the words of the header
    let sum = {
        let mut reader2 = pre_header_reader;
        let mut words: Vec<u16> = Vec::new();
        let n = hdr_len / 2;
        let mut k: usize = 0;
        while k < n
            invariant
                k <= n,
                2 * n <= packet.len(),
                reader2.remaining() == packet.skip(2 * k),
                words@ == leading_words(packet, k as int),
            decreases n - k,
        {
            let w = reader2.read_u16n()?;
            words.push(w);
            proof {
                assert(packet.skip(2 * k).skip(2) =~= packet.skip(2 * (k + 1)));
                assert(words@ =~= leading_words(packet, k + 1));
            }
            k = k + 1;
        }
        calculate_checksum(words.as_slice())
    };

    // Check for IP-level fragmentation
    if hdr.get_has_more_fragments() || hdr.get_fragment_ofs() != 0 {
        return Ok(Received { header: hdr, checksum: sum, action: RxAction::Fragmented });
    }
    // Sanity check that we have enough bytes for the body.

    if (hdr.total_length as usize) < hdr_len || reader.remain() < hdr.total_length as usize
        - hdr_len {
        return Err(());
    }
    // Check destination IP against known interfaces.

    let mut i: usize = 0;
    while i < interfaces.len()
        invariant
            i <= interfaces@.len(),
            forall|j: int| 0 <= j < i ==> !has_address(hdr.destination)(#[trigger] interfaces@[j]),
        decreases interfaces.len() - i,
    {
        let interface = &interfaces[i];
        if interface.addr().same(&hdr.destination) {
            proof {
                lemma_first_where_is(interfaces@, has_address(hdr.destination), i as int);
                lemma_first_where(protocols@, is_for(hdr.protocol));
            }
            // Figure out which sub-protocol to send this packet to
            return match protocols.lookup(hdr.protocol) {
                Some(handler) => Ok(
                    Received {
                        header: hdr,
                        checksum: sum,
                        action: RxAction::Dispatch(
                            handler.dispatch(interface, hdr.source, hdr.destination, reader),
                        ),
                    },
                ),
                // No handler, but the interface is known
                None => Ok(
                    Received {
                        header: hdr,
                        checksum: sum,
                        action: RxAction::Unhandled(*interface),
                    },
                ),
            };
        }
        i = i + 1;
    }
    proof {
        lemma_first_where_none(interfaces@, has_address(hdr.destination));
    }
    // Routing: for now, just drop it
    Ok(Received { header: hdr, checksum: sum, action: RxAction::Unrouted })
}

} // verus!
