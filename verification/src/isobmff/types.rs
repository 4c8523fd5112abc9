//! Box type codes as big-endian four-character values.

use vstd::prelude::*;

verus! {

/// `ftyp` box type.
pub const FTYP: u32 = 0x66747970;

/// `moov` box type.
pub const MOOV: u32 = 0x6d6f6f76;

/// `mvhd` box type.
pub const MVHD: u32 = 0x6d766864;

/// `trak` box type.
pub const TRAK: u32 = 0x7472616b;

/// `tkhd` box type.
pub const TKHD: u32 = 0x746b6864;

/// `mdia` box type.
pub const MDIA: u32 = 0x6d646961;

/// `mdhd` box type.
pub const MDHD: u32 = 0x6d646864;

/// `hdlr` box type.
pub const HDLR: u32 = 0x68646c72;

/// `minf` box type.
pub const MINF: u32 = 0x6d696e66;

/// `vmhd` box type.
pub const VMHD: u32 = 0x766d6864;

/// `smhd` box type.
pub const SMHD: u32 = 0x736d6864;

/// `dinf` box type.
pub const DINF: u32 = 0x64696e66;

/// `stbl` box type.
pub const STBL: u32 = 0x7374626c;

/// `stsd` box type.
pub const STSD: u32 = 0x73747364;

/// `stts` box type.
pub const STTS: u32 = 0x73747473;

/// `ctts` box type.
pub const CTTS: u32 = 0x63747473;

/// `stsc` box type.
pub const STSC: u32 = 0x73747363;

/// `stsz` box type.
pub const STSZ: u32 = 0x7374737a;

/// `stco` box type.
pub const STCO: u32 = 0x7374636f;

/// `co64` box type.
pub const CO64: u32 = 0x636f3634;

/// `stss` box type.
pub const STSS: u32 = 0x73747373;

/// `mvex` box type.
pub const MVEX: u32 = 0x6d766578;

/// `trex` box type.
pub const TREX: u32 = 0x74726578;

/// `mehd` box type.
pub const MEHD: u32 = 0x6d656864;

/// `moof` box type.
pub const MOOF: u32 = 0x6d6f6f66;

/// `traf` box type.
pub const TRAF: u32 = 0x74726166;

/// `tfhd` box type.
pub const TFHD: u32 = 0x74666864;

/// `tfdt` box type.
pub const TFDT: u32 = 0x74666474;

/// `trun` box type.
pub const TRUN: u32 = 0x7472756e;

/// `mdat` box type.
pub const MDAT: u32 = 0x6d646174;

/// `avc1` box type.
pub const AVC1: u32 = 0x61766331;

/// `avc3` box type.
pub const AVC3: u32 = 0x61766333;

/// `hvc1` box type.
pub const HVC1: u32 = 0x68766331;

/// `hev1` box type.
pub const HEV1: u32 = 0x68657631;

/// `mp4a` box type.
pub const MP4A: u32 = 0x6d703461;

/// `avcC` box type.
pub const AVCC: u32 = 0x61766343;

/// `hvcC` box type.
pub const HVCC: u32 = 0x68766343;

/// `esds` box type.
pub const ESDS: u32 = 0x65736473;

/// `free` box type.
pub const FREE: u32 = 0x66726565;

/// `skip` box type.
pub const SKIP: u32 = 0x736b6970;

/// `uuid` box type.
pub const UUID: u32 = 0x75756964;

/// `url ` box type.
pub const URL: u32 = 0x75726c20;

/// `dref` box type.
pub const DREF: u32 = 0x64726566;

/// `mfhd` box type.
pub const MFHD: u32 = 0x6d666864;

} // verus!
