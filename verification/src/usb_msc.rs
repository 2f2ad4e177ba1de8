//! USB MSC (Mass Storage Class) driver: bulk-only transport.
//!
//! Every command travels as a command block wrapper (CBW) to the device, which
//! answers, after the data, with a command status wrapper (CSW) that carries
//! the same tag.
use vstd::prelude::*;

verus! {

/// Signature of a command block wrapper: 'USBC', little endian.
pub const CBW_SIG: u32 = 0x43425355;

/// Flag of a command block wrapper: the data goes from the device to the host.
pub const CBW_FLAG_INPUT: u8 = 0x80;

/// Signature of a command status wrapper: 'USBS', little endian.
pub const CSW_SIG: u32 = 0x53425355;

/// Class code of mass storage with a SCSI command set over bulk-only transport.
pub const CLASS_MSC_SCSI_BULK: u32 = 0x080650;

/// The four bytes of `v`, least significant first.
pub open spec fn le32(v: u32) -> Seq<u8> {
    seq![
        (v as int % 0x100) as u8,
        (v as int / 0x100 % 0x100) as u8,
        (v as int / 0x1_0000 % 0x100) as u8,
        (v as int / 0x100_0000) as u8,
    ]
}

/// The number that four bytes spell, least significant first.
pub open spec fn from_le32(b: Seq<u8>) -> u32
    recommends
        b.len() == 4,
{
    (b[0] as int + b[1] as int * 0x100 + b[2] as int * 0x1_0000 + b[3] as int * 0x100_0000) as u32
}

/// The command bytes `s`, filled up with zeros to sixteen.
pub open spec fn padded(s: Seq<u8>) -> Seq<u8>
    recommends
        s.len() <= 16,
{
    Seq::new(
        16,
        |i: int|
            if i < s.len() {
                s[i]
            } else {
                0u8
            },
    )
}

/// The 31 bytes of a command block wrapper with the given fields.
pub open spec fn cbw_image(
    sig: u32,
    tag: u32,
    data_len: u32,
    flags: u8,
    lun: u8,
    cmd_len: u8,
    cmd_bytes: Seq<u8>,
) -> Seq<u8> {
    le32(sig) + le32(tag) + le32(data_len) + seq![flags, lun, cmd_len] + cmd_bytes
}

/// Command block wrapper.
#[derive(Debug)]
pub struct Cbw {
    pub sig: u32,
    pub tag: u32,
    pub data_len: u32,
    pub flags: u8,
    pub lun: u8,
    pub cmd_len: u8,
    pub cmd_bytes: [u8; 16],
}

fn le_bytes(v: u32) -> (r: [u8; 4])
    ensures
        r@ == le32(v),
{
    assert(v & 0xFF == v % 0x100) by (bit_vector);
    assert((v >> 8) & 0xFF == v / 0x100 % 0x100) by (bit_vector);
    assert((v >> 16) & 0xFF == v / 0x1_0000 % 0x100) by (bit_vector);
    assert(v >> 24 == v / 0x100_0000) by (bit_vector);
    assert(v >> 24 <= 0xFF) by (bit_vector);
    assert(v & 0xFF <= 0xFF) by (bit_vector);
    assert((v >> 8) & 0xFF <= 0xFF) by (bit_vector);
    assert((v >> 16) & 0xFF <= 0xFF) by (bit_vector);
    let r = [
        (v & 0xFF) as u8,
        ((v >> 8) & 0xFF) as u8,
        ((v >> 16) & 0xFF) as u8,
        (v >> 24) as u8,
    ];
    assert(r@ =~= le32(v));
    r
}

impl Cbw {
    /// The wrapper as it travels.
    pub open spec fn image(&self) -> Seq<u8> {
        cbw_image(
            self.sig,
            self.tag,
            self.data_len,
            self.flags,
            self.lun,
            self.cmd_len,
            self.cmd_bytes@,
        )
    }

    pub fn to_bytes(self) -> (r: [u8; 31])
        ensures
            r@ == self.image(),
    {
        let sig = le_bytes(self.sig);
        let tag = le_bytes(self.tag);
        let len = le_bytes(self.data_len);
        let r = [
            sig[0],
            sig[1],
            sig[2],
            sig[3],
            tag[0],
            tag[1],
            tag[2],
            tag[3],
            len[0],
            len[1],
            len[2],
            len[3],
            self.flags,
            self.lun,
            self.cmd_len,
            self.cmd_bytes[0],
            self.cmd_bytes[1],
            self.cmd_bytes[2],
            self.cmd_bytes[3],
            self.cmd_bytes[4],
            self.cmd_bytes[5],
            self.cmd_bytes[6],
            self.cmd_bytes[7],
            self.cmd_bytes[8],
            self.cmd_bytes[9],
            self.cmd_bytes[10],
            self.cmd_bytes[11],
            self.cmd_bytes[12],
            self.cmd_bytes[13],
            self.cmd_bytes[14],
            self.cmd_bytes[15],
        ];
        assert(r@ =~= self.image());
        r
    }

    /// The command bytes in a field of sixteen, zeros behind them.
    pub fn slice_to_array(s: &[u8]) -> (rv: [u8; 16])
        requires
            s@.len() <= 16,
        ensures
            rv@ == padded(s@),
    {
        let mut rv = [0u8;16];
        let n = s.len();
        let mut i: usize = 0;
        while i < n
            invariant
                i <= n == s@.len() <= 16,
                forall|k: int| 0 <= k < i ==> rv@[k] == s@[k],
                forall|k: int| i <= k < 16 ==> rv@[k] == 0,
            decreases n - i,
        {
            rv[i] = s[i];
            i = i + 1;
        }
        assert(rv@ =~= padded(s@));
        rv
    }
}

/// Command status wrapper.
#[derive(Debug)]
pub struct Csw {
    pub sig: u32,
    pub tag: u32,
    pub data_residue: u32,
    pub status: u8,
}

fn from_le_bytes(b0: u8, b1: u8, b2: u8, b3: u8) -> (r: u32)
    ensures
        r == from_le32(seq![b0, b1, b2, b3]),
{
    assert((b0 as u32) << 0 | (b1 as u32) << 8 | (b2 as u32) << 16 | (b3 as u32) << 24 == (b0 as int
        + b1 as int * 0x100 + b2 as int * 0x1_0000 + b3 as int * 0x100_0000) as u32)
        by (bit_vector);
    (b0 as u32) << 0 | (b1 as u32) << 8 | (b2 as u32) << 16 | (b3 as u32) << 24
}

impl Csw {
    /// The wrapper that the thirteen bytes spell.
    pub open spec fn parse(b: Seq<u8>) -> Csw
        recommends
            b.len() == 13,
    {
        Csw {
            sig: from_le32(b.subrange(0, 4)),
            tag: from_le32(b.subrange(4, 8)),
            data_residue: from_le32(b.subrange(8, 12)),
            status: b[12],
        }
    }

    pub fn from_bytes(b: [u8; 13]) -> (r: Self)
        ensures
            r == Csw::parse(b@),
    {
        assert(b@.subrange(0, 4) =~= seq![b[0], b[1], b[2], b[3]]);
        assert(b@.subrange(4, 8) =~= seq![b[4], b[5], b[6], b[7]]);
        assert(b@.subrange(8, 12) =~= seq![b[8], b[9], b[10], b[11]]);
        Csw {
            sig: from_le_bytes(b[0], b[1], b[2], b[3]),
            tag: from_le_bytes(b[4], b[5], b[6], b[7]),
            data_residue: from_le_bytes(b[8], b[9], b[10], b[11]),
            status: b[12],
        }
    }
}

/// Why a command status wrapper is not the answer to the command that was sent.
#[derive(Debug, PartialEq, Eq, Structural, Clone, Copy)]
pub enum CswError {
    /// It does not start with the signature; the value is what stands there.
    Signature(u32),
    /// It answers another command.
    TagMismatch { got: u32, expected: u32 },
}

/// A command on its way: its tag, and the wrapper to send ahead of the data.
pub struct Transfer {
    pub tag: u32,
    pub cbw: [u8; 31],
}

impl Transfer {
    /// Reads the status that the device sent after the data and checks that it
    /// answers this command: first the signature, then the tag.
    pub fn finish(&self, csw_bytes: [u8; 13]) -> (r: Result<Csw, CswError>)
        ensures
            r == check_status(self.tag, Csw::parse(csw_bytes@)),
    {
        let csw = Csw::from_bytes(csw_bytes);
        if csw.sig != CSW_SIG {
            Err(CswError::Signature(csw.sig))
        } else if csw.tag != self.tag {
            Err(CswError::TagMismatch { got: csw.tag, expected: self.tag })
        } else {
            Ok(csw)
        }
    }
}

/// The status, if it answers the command with the tag `tag`; what is wrong with it, if not.
pub open spec fn check_status(tag: u32, csw: Csw) -> Result<Csw, CswError> {
    if csw.sig != CSW_SIG {
        Err(CswError::Signature(csw.sig))
    } else if csw.tag != tag {
        Err(CswError::TagMismatch { got: csw.tag, expected: tag })
    } else {
        Ok(csw)
    }
}

/// The two bulk endpoints of a device and the tag of the next command.
pub struct ScsiInterfaceInner<I, O> {
    next_tag: u32,
    ep_in: I,
    ep_out: O,
}

impl<I, O> ScsiInterfaceInner<I, O> {
    /// The tag that the next command will carry.
    pub closed spec fn tag(&self) -> u32 {
        self.next_tag
    }

    pub closed spec fn input(&self) -> I {
        self.ep_in
    }

    pub closed spec fn output(&self) -> O {
        self.ep_out
    }

    pub fn new(ep_in: I, ep_out: O) -> (r: Self)
        ensures
            r.tag() == 0,
            r.input() == ep_in,
            r.output() == ep_out,
    {
        ScsiInterfaceInner { next_tag: 0, ep_in, ep_out }
    }

    pub fn next_tag(&self) -> (r: u32)
        ensures
            r == self.tag(),
    {
        self.next_tag
    }

    /// The endpoint on which data and status arrive.
    pub fn ep_in(&self) -> (r: &I)
        ensures
            *r == self.input(),
    {
        &self.ep_in
    }

    /// The endpoint on which wrappers and data leave.
    pub fn ep_out(&self) -> (r: &O)
        ensures
            *r == self.output(),
    {
        &self.ep_out
    }

    fn begin(&mut self, flags: u8, lun: u8, cmd: &[u8], buf_len: usize) -> (r: Transfer)
        requires
            cmd@.len() <= 16,
            old(self).tag() < u32::MAX,
        ensures
            r.tag == old(self).tag(),
            final(self).tag() == old(self).tag() + 1,
            final(self).input() == old(self).input(),
            final(self).output() == old(self).output(),
            r.cbw@ == cbw_image(
                CBW_SIG,
                r.tag,
                buf_len as u32,
                flags,
                lun,
                cmd@.len() as u8,
                padded(cmd@),
            ),
    {
        let tag = self.next_tag;
        self.next_tag = self.next_tag + 1;
        let cbw = Cbw {
            sig: CBW_SIG,
            tag,
            data_len: #[verifier::truncate]
            (buf_len as u32),
            flags,
            lun,
            cmd_len: cmd.len() as u8,
            cmd_bytes: Cbw::slice_to_array(cmd),
        };
        Transfer { tag, cbw: cbw.to_bytes() }
    }

    /// Starts a command that reads `buf_len` bytes from the device: takes the
    /// next tag and builds the wrapper. The caller sends the wrapper, receives
    /// the data and then the status, and hands the status to `finish`.
    pub fn recv_data(&mut self, lun: u8, cmd: &[u8], buf_len: usize) -> (r: Transfer)
        requires
            cmd@.len() <= 16,
            old(self).tag() < u32::MAX,
        ensures
            r.tag == old(self).tag(),
            final(self).tag() == old(self).tag() + 1,
            final(self).input() == old(self).input(),
            final(self).output() == old(self).output(),
            r.cbw@ == cbw_image(
                CBW_SIG,
                r.tag,
                buf_len as u32,
                CBW_FLAG_INPUT,
                lun,
                cmd@.len() as u8,
                padded(cmd@),
            ),
    {
        self.begin(CBW_FLAG_INPUT, lun, cmd, buf_len)
    }

    /// Starts a command that writes `buf_len` bytes to the device: takes the
    /// next tag and builds the wrapper. The caller sends the wrapper and the
    /// data, receives the status, and hands it to `finish`.
    pub fn send_data(&mut self, lun: u8, cmd: &[u8], buf_len: usize) -> (r: Transfer)
        requires
            cmd@.len() <= 16,
            old(self).tag() < u32::MAX,
        ensures
            r.tag == old(self).tag(),
            final(self).tag() == old(self).tag() + 1,
            final(self).input() == old(self).input(),
            final(self).output() == old(self).output(),
            r.cbw@ == cbw_image(CBW_SIG, r.tag, buf_len as u32, 0, lun, cmd@.len() as u8, padded(cmd@)),
    {
        self.begin(0, lun, cmd, buf_len)
    }
}

/// How well a driver fits a device.
#[derive(Debug, PartialEq, Eq, Structural, Clone, Copy)]
pub enum MatchLevel {
    /// The driver cannot drive the device.
    NoMatch,
    /// The driver can drive every device of this class.
    Generic,
}

/// One endpoint of a device.
pub enum Endpoint<I, O> {
    BulkIn(I),
    BulkOut(O),
    Other,
}

/// The mass storage driver.
pub struct Driver;

impl Driver {
    pub fn name(&self) -> (r: &'static str)
        ensures
            r@ == "msc"@,
    {
        "msc"
    }

    /// Mass storage with a SCSI interface is taken; nothing else is.
    pub fn matches(&self, _vendor_id: u16, _device_id: u16, class_code: u32) -> (r: MatchLevel)
        ensures
            r == if class_code == CLASS_MSC_SCSI_BULK {
                MatchLevel::Generic
            } else {
                MatchLevel::NoMatch
            },
    {
        if class_code == CLASS_MSC_SCSI_BULK {
            MatchLevel::Generic
        } else {
            MatchLevel::NoMatch
        }
    }

    /// Takes over a device whose first endpoint is bulk-in and whose second is bulk-out.
    pub fn start_device<I, O>(&self, endpoints: Vec<Endpoint<I, O>>) -> (r: ScsiInterfaceInner<I, O>)
        requires
            endpoints@.len() >= 2,
            endpoints@[0] is BulkIn,
            endpoints@[1] is BulkOut,
        ensures
            r.tag() == 0,
            r.input() == endpoints@[0]->BulkIn_0,
            r.output() == endpoints@[1]->BulkOut_0,
    {
        let mut endpoints = endpoints;
        let first = endpoints.remove(0);
        let second = endpoints.remove(0);
        let bulk_in = match first {
            Endpoint::BulkIn(v) => v,
            _ => unreached(),
        };
        let bulk_out = match second {
            Endpoint::BulkOut(v) => v,
            _ => unreached(),
        };
        ScsiInterfaceInner::new(bulk_in, bulk_out)
    }
}

} // verus!
