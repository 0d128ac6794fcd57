//! The typed surface of the `bpf(2)` syscall: subcommand and type
//! enumerations with their kernel codes, the attribute values a caller
//! assembles, and the shared return-value decoding.  The syscalls themselves
//! are outside the library; everything here is plain computation.

use vstd::prelude::*;

use crate::common::BpfError;

verus! {

/// The map types the loader supports, matching the kernel enumeration.
#[derive(Debug, Clone, Copy, PartialEq, Eq, Structural)]
pub enum BpfMapType {
    Unspec,
    Hash,
    Array,
    ProgArray,
}

/// The kernel code of a map type.
pub open spec fn map_type_code_spec(t: BpfMapType) -> u32 {
    match t {
        BpfMapType::Unspec => 0,
        BpfMapType::Hash => 1,
        BpfMapType::Array => 2,
        BpfMapType::ProgArray => 3,
    }
}

impl BpfMapType {
    /// The kernel code of this map type.
    pub fn code(&self) -> (r: u32)
        ensures
            r == map_type_code_spec(*self),
    {
        match self {
            BpfMapType::Unspec => 0,
            BpfMapType::Hash => 1,
            BpfMapType::Array => 2,
            BpfMapType::ProgArray => 3,
        }
    }
}

/// The flag of a map-element update, matching the kernel enumeration:
/// create or update, create only, update only.
#[derive(Debug, Clone, Copy, PartialEq, Eq, Structural)]
pub enum BpfMapUpdateFlag {
    Any,
    Noexist,
    Exist,
}

/// The kernel code of an update flag.
pub open spec fn map_update_flag_code_spec(f: BpfMapUpdateFlag) -> u64 {
    match f {
        BpfMapUpdateFlag::Any => 0,
        BpfMapUpdateFlag::Noexist => 1,
        BpfMapUpdateFlag::Exist => 2,
    }
}

impl BpfMapUpdateFlag {
    /// The kernel code of this update flag.
    pub fn code(&self) -> (r: u64)
        ensures
            r == map_update_flag_code_spec(*self),
    {
        match self {
            BpfMapUpdateFlag::Any => 0,
            BpfMapUpdateFlag::Noexist => 1,
            BpfMapUpdateFlag::Exist => 2,
        }
    }
}

/// The classic program types, matching the kernel enumeration; XDP is the
/// one the loader exercises.
#[derive(Debug, Clone, Copy, PartialEq, Eq, Structural)]
pub enum BpfProgType {
    Unspec,
    SocketFilter,
    Kprobe,
    SchedCls,
    SchedAct,
    Tracepoint,
    Xdp,
    PerfEvent,
    CgroupSkb,
    CgroupSock,
    LwtIn,
    LwtOut,
    LwtXmit,
    SockOps,
    SkSkb,
    CgroupDevice,
    SkMsg,
    RawTracepoint,
    CgroupSockAddr,
    LwtSeg6local,
    LircMode2,
    SkReuseport,
    FlowDissector,
}

/// The kernel code of a program type.
pub open spec fn prog_type_code_spec(t: BpfProgType) -> u32 {
    match t {
        BpfProgType::Unspec => 0,
        BpfProgType::SocketFilter => 1,
        BpfProgType::Kprobe => 2,
        BpfProgType::SchedCls => 3,
        BpfProgType::SchedAct => 4,
        BpfProgType::Tracepoint => 5,
        BpfProgType::Xdp => 6,
        BpfProgType::PerfEvent => 7,
        BpfProgType::CgroupSkb => 8,
        BpfProgType::CgroupSock => 9,
        BpfProgType::LwtIn => 10,
        BpfProgType::LwtOut => 11,
        BpfProgType::LwtXmit => 12,
        BpfProgType::SockOps => 13,
        BpfProgType::SkSkb => 14,
        BpfProgType::CgroupDevice => 15,
        BpfProgType::SkMsg => 16,
        BpfProgType::RawTracepoint => 17,
        BpfProgType::CgroupSockAddr => 18,
        BpfProgType::LwtSeg6local => 19,
        BpfProgType::LircMode2 => 20,
        BpfProgType::SkReuseport => 21,
        BpfProgType::FlowDissector => 22,
    }
}

impl BpfProgType {
    /// The kernel code of this program type.
    pub fn code(&self) -> (r: u32)
        ensures
            r == prog_type_code_spec(*self),
    {
        match self {
            BpfProgType::Unspec => 0,
            BpfProgType::SocketFilter => 1,
            BpfProgType::Kprobe => 2,
            BpfProgType::SchedCls => 3,
            BpfProgType::SchedAct => 4,
            BpfProgType::Tracepoint => 5,
            BpfProgType::Xdp => 6,
            BpfProgType::PerfEvent => 7,
            BpfProgType::CgroupSkb => 8,
            BpfProgType::CgroupSock => 9,
            BpfProgType::LwtIn => 10,
            BpfProgType::LwtOut => 11,
            BpfProgType::LwtXmit => 12,
            BpfProgType::SockOps => 13,
            BpfProgType::SkSkb => 14,
            BpfProgType::CgroupDevice => 15,
            BpfProgType::SkMsg => 16,
            BpfProgType::RawTracepoint => 17,
            BpfProgType::CgroupSockAddr => 18,
            BpfProgType::LwtSeg6local => 19,
            BpfProgType::LircMode2 => 20,
            BpfProgType::SkReuseport => 21,
            BpfProgType::FlowDissector => 22,
        }
    }
}

/// The attach types the loader can name, matching the kernel enumeration;
/// XDP is the one it exercises.
#[derive(Debug, Clone, Copy, PartialEq, Eq, Structural)]
pub enum BpfAttachType {
    CgroupInetIngress,
    CgroupInetEgress,
    CgroupInetSockCreate,
    CgroupSockOps,
    SkSkbStreamParser,
    SkSkbStreamVerdict,
    CgroupDevice,
    SkMsgVerdict,
    CgroupInet4Bind,
    CgroupInet6Bind,
    CgroupInet4Connect,
    CgroupInet6Connect,
    CgroupInet4PostBind,
    CgroupInet6PostBind,
    CgroupUdp4Sendmsg,
    CgroupUdp6Sendmsg,
    LircMode2,
    FlowDissector,
    CgroupSysctl,
    CgroupUdp4Recvmsg,
    CgroupUdp6Recvmsg,
    CgroupGetsockopt,
    CgroupSetsockopt,
    TraceRawTp,
    TraceFentry,
    TraceFexit,
    ModifyReturn,
    LsmMac,
    TraceIter,
    CgroupInet4Getpeername,
    CgroupInet6Getpeername,
    CgroupInet4Getsockname,
    CgroupInet6Getsockname,
    XdpDevmap,
    CgroupInetSockRelease,
    XdpCpumap,
    SkLookup,
    Xdp,
    SkSkbVerdict,
    SkReuseportSelect,
    SkReuseportSelectOrMigrate,
    PerfEvent,
    TraceKprobeMulti,
    LsmCgroup,
    StructOps,
    Netfilter,
    TcxIngress,
    TcxEgress,
    TraceUprobeMulti,
    CgroupUnixConnect,
    CgroupUnixSendmsg,
    CgroupUnixRecvmsg,
    CgroupUnixGetpeername,
    CgroupUnixGetsockname,
    NetkitPrimary,
    NetkitPeer,
    TraceKprobeSession,
    TraceUprobeSession,
}

/// The kernel code of an attach type.
pub open spec fn attach_type_code_spec(t: BpfAttachType) -> u32 {
    match t {
        BpfAttachType::CgroupInetIngress => 0,
        BpfAttachType::CgroupInetEgress => 1,
        BpfAttachType::CgroupInetSockCreate => 2,
        BpfAttachType::CgroupSockOps => 3,
        BpfAttachType::SkSkbStreamParser => 4,
        BpfAttachType::SkSkbStreamVerdict => 5,
        BpfAttachType::CgroupDevice => 6,
        BpfAttachType::SkMsgVerdict => 7,
        BpfAttachType::CgroupInet4Bind => 8,
        BpfAttachType::CgroupInet6Bind => 9,
        BpfAttachType::CgroupInet4Connect => 10,
        BpfAttachType::CgroupInet6Connect => 11,
        BpfAttachType::CgroupInet4PostBind => 12,
        BpfAttachType::CgroupInet6PostBind => 13,
        BpfAttachType::CgroupUdp4Sendmsg => 14,
        BpfAttachType::CgroupUdp6Sendmsg => 15,
        BpfAttachType::LircMode2 => 16,
        BpfAttachType::FlowDissector => 17,
        BpfAttachType::CgroupSysctl => 18,
        BpfAttachType::CgroupUdp4Recvmsg => 19,
        BpfAttachType::CgroupUdp6Recvmsg => 20,
        BpfAttachType::CgroupGetsockopt => 21,
        BpfAttachType::CgroupSetsockopt => 22,
        BpfAttachType::TraceRawTp => 23,
        BpfAttachType::TraceFentry => 24,
        BpfAttachType::TraceFexit => 25,
        BpfAttachType::ModifyReturn => 26,
        BpfAttachType::LsmMac => 27,
        BpfAttachType::TraceIter => 28,
        BpfAttachType::CgroupInet4Getpeername => 29,
        BpfAttachType::CgroupInet6Getpeername => 30,
        BpfAttachType::CgroupInet4Getsockname => 31,
        BpfAttachType::CgroupInet6Getsockname => 32,
        BpfAttachType::XdpDevmap => 33,
        BpfAttachType::CgroupInetSockRelease => 34,
        BpfAttachType::XdpCpumap => 35,
        BpfAttachType::SkLookup => 36,
        BpfAttachType::Xdp => 37,
        BpfAttachType::SkSkbVerdict => 38,
        BpfAttachType::SkReuseportSelect => 39,
        BpfAttachType::SkReuseportSelectOrMigrate => 40,
        BpfAttachType::PerfEvent => 41,
        BpfAttachType::TraceKprobeMulti => 42,
        BpfAttachType::LsmCgroup => 43,
        BpfAttachType::StructOps => 44,
        BpfAttachType::Netfilter => 45,
        BpfAttachType::TcxIngress => 46,
        BpfAttachType::TcxEgress => 47,
        BpfAttachType::TraceUprobeMulti => 48,
        BpfAttachType::CgroupUnixConnect => 49,
        BpfAttachType::CgroupUnixSendmsg => 50,
        BpfAttachType::CgroupUnixRecvmsg => 51,
        BpfAttachType::CgroupUnixGetpeername => 52,
        BpfAttachType::CgroupUnixGetsockname => 53,
        BpfAttachType::NetkitPrimary => 54,
        BpfAttachType::NetkitPeer => 55,
        BpfAttachType::TraceKprobeSession => 56,
        BpfAttachType::TraceUprobeSession => 57,
    }
}

impl BpfAttachType {
    /// The kernel code of this attach type.
    pub fn code(&self) -> (r: u32)
        ensures
            r == attach_type_code_spec(*self),
    {
        match self {
            BpfAttachType::CgroupInetIngress => 0,
            BpfAttachType::CgroupInetEgress => 1,
            BpfAttachType::CgroupInetSockCreate => 2,
            BpfAttachType::CgroupSockOps => 3,
            BpfAttachType::SkSkbStreamParser => 4,
            BpfAttachType::SkSkbStreamVerdict => 5,
            BpfAttachType::CgroupDevice => 6,
            BpfAttachType::SkMsgVerdict => 7,
            BpfAttachType::CgroupInet4Bind => 8,
            BpfAttachType::CgroupInet6Bind => 9,
            BpfAttachType::CgroupInet4Connect => 10,
            BpfAttachType::CgroupInet6Connect => 11,
            BpfAttachType::CgroupInet4PostBind => 12,
            BpfAttachType::CgroupInet6PostBind => 13,
            BpfAttachType::CgroupUdp4Sendmsg => 14,
            BpfAttachType::CgroupUdp6Sendmsg => 15,
            BpfAttachType::LircMode2 => 16,
            BpfAttachType::FlowDissector => 17,
            BpfAttachType::CgroupSysctl => 18,
            BpfAttachType::CgroupUdp4Recvmsg => 19,
            BpfAttachType::CgroupUdp6Recvmsg => 20,
            BpfAttachType::CgroupGetsockopt => 21,
            BpfAttachType::CgroupSetsockopt => 22,
            BpfAttachType::TraceRawTp => 23,
            BpfAttachType::TraceFentry => 24,
            BpfAttachType::TraceFexit => 25,
            BpfAttachType::ModifyReturn => 26,
            BpfAttachType::LsmMac => 27,
            BpfAttachType::TraceIter => 28,
            BpfAttachType::CgroupInet4Getpeername => 29,
            BpfAttachType::CgroupInet6Getpeername => 30,
            BpfAttachType::CgroupInet4Getsockname => 31,
            BpfAttachType::CgroupInet6Getsockname => 32,
            BpfAttachType::XdpDevmap => 33,
            BpfAttachType::CgroupInetSockRelease => 34,
            BpfAttachType::XdpCpumap => 35,
            BpfAttachType::SkLookup => 36,
            BpfAttachType::Xdp => 37,
            BpfAttachType::SkSkbVerdict => 38,
            BpfAttachType::SkReuseportSelect => 39,
            BpfAttachType::SkReuseportSelectOrMigrate => 40,
            BpfAttachType::PerfEvent => 41,
            BpfAttachType::TraceKprobeMulti => 42,
            BpfAttachType::LsmCgroup => 43,
            BpfAttachType::StructOps => 44,
            BpfAttachType::Netfilter => 45,
            BpfAttachType::TcxIngress => 46,
            BpfAttachType::TcxEgress => 47,
            BpfAttachType::TraceUprobeMulti => 48,
            BpfAttachType::CgroupUnixConnect => 49,
            BpfAttachType::CgroupUnixSendmsg => 50,
            BpfAttachType::CgroupUnixRecvmsg => 51,
            BpfAttachType::CgroupUnixGetpeername => 52,
            BpfAttachType::CgroupUnixGetsockname => 53,
            BpfAttachType::NetkitPrimary => 54,
            BpfAttachType::NetkitPeer => 55,
            BpfAttachType::TraceKprobeSession => 56,
            BpfAttachType::TraceUprobeSession => 57,
        }
    }
}

/// The `bpf(2)` subcommands, matching the kernel enumeration.
#[derive(Debug, Clone, Copy, PartialEq, Eq, Structural)]
pub enum BpfCmd {
    MapCreate,
    MapLookupElem,
    MapUpdateElem,
    MapDeleteElem,
    MapGetNextKey,
    ProgLoad,
    ObjPin,
    ObjGet,
    ProgAttach,
    ProgDetach,
    ProgTestRun,
    ProgGetNextId,
    MapGetNextId,
    ProgGetFdById,
    MapGetFdById,
    ObjGetInfoByFd,
    ProgQuery,
    RawTracepointOpen,
    BtfLoad,
    BtfGetFdById,
    TaskFdQuery,
    MapLookupAndDeleteElem,
    MapFreeze,
    BtfGetNextId,
    MapLookupBatch,
    MapLookupAndDeleteBatch,
    MapUpdateBatch,
    MapDeleteBatch,
    LinkCreate,
    LinkUpdate,
}

/// The kernel code of a subcommand.
pub open spec fn cmd_code_spec(c: BpfCmd) -> i32 {
    match c {
        BpfCmd::MapCreate => 0,
        BpfCmd::MapLookupElem => 1,
        BpfCmd::MapUpdateElem => 2,
        BpfCmd::MapDeleteElem => 3,
        BpfCmd::MapGetNextKey => 4,
        BpfCmd::ProgLoad => 5,
        BpfCmd::ObjPin => 6,
        BpfCmd::ObjGet => 7,
        BpfCmd::ProgAttach => 8,
        BpfCmd::ProgDetach => 9,
        BpfCmd::ProgTestRun => 10,
        BpfCmd::ProgGetNextId => 11,
        BpfCmd::MapGetNextId => 12,
        BpfCmd::ProgGetFdById => 13,
        BpfCmd::MapGetFdById => 14,
        BpfCmd::ObjGetInfoByFd => 15,
        BpfCmd::ProgQuery => 16,
        BpfCmd::RawTracepointOpen => 17,
        BpfCmd::BtfLoad => 18,
        BpfCmd::BtfGetFdById => 19,
        BpfCmd::TaskFdQuery => 20,
        BpfCmd::MapLookupAndDeleteElem => 21,
        BpfCmd::MapFreeze => 22,
        BpfCmd::BtfGetNextId => 23,
        BpfCmd::MapLookupBatch => 24,
        BpfCmd::MapLookupAndDeleteBatch => 25,
        BpfCmd::MapUpdateBatch => 26,
        BpfCmd::MapDeleteBatch => 27,
        BpfCmd::LinkCreate => 28,
        BpfCmd::LinkUpdate => 29,
    }
}

impl BpfCmd {
    /// The kernel code of this subcommand.
    pub fn code(&self) -> (r: i32)
        ensures
            r == cmd_code_spec(*self),
    {
        match self {
            BpfCmd::MapCreate => 0,
            BpfCmd::MapLookupElem => 1,
            BpfCmd::MapUpdateElem => 2,
            BpfCmd::MapDeleteElem => 3,
            BpfCmd::MapGetNextKey => 4,
            BpfCmd::ProgLoad => 5,
            BpfCmd::ObjPin => 6,
            BpfCmd::ObjGet => 7,
            BpfCmd::ProgAttach => 8,
            BpfCmd::ProgDetach => 9,
            BpfCmd::ProgTestRun => 10,
            BpfCmd::ProgGetNextId => 11,
            BpfCmd::MapGetNextId => 12,
            BpfCmd::ProgGetFdById => 13,
            BpfCmd::MapGetFdById => 14,
            BpfCmd::ObjGetInfoByFd => 15,
            BpfCmd::ProgQuery => 16,
            BpfCmd::RawTracepointOpen => 17,
            BpfCmd::BtfLoad => 18,
            BpfCmd::BtfGetFdById => 19,
            BpfCmd::TaskFdQuery => 20,
            BpfCmd::MapLookupAndDeleteElem => 21,
            BpfCmd::MapFreeze => 22,
            BpfCmd::BtfGetNextId => 23,
            BpfCmd::MapLookupBatch => 24,
            BpfCmd::MapLookupAndDeleteBatch => 25,
            BpfCmd::MapUpdateBatch => 26,
            BpfCmd::MapDeleteBatch => 27,
            BpfCmd::LinkCreate => 28,
            BpfCmd::LinkUpdate => 29,
        }
    }
}

/// Decodes a raw syscall return value: -1 signals failure, carrying the
/// `errno` the caller captured; anything else is the kernel's answer.
pub fn handle_error(ret: i64, errno: i32) -> (r: Result<i64, BpfError>)
    ensures
        ret == -1 ==> r == Err::<i64, BpfError>(BpfError::Syscall(errno)),
        ret != -1 ==> r == Ok::<i64, BpfError>(ret),
{
    if ret == -1 {
        Err(BpfError::Syscall(errno))
    } else {
        Ok(ret)
    }
}

/// The instruction count of an eBPF bytecode buffer: one instruction for
/// each 8 bytes.
pub fn insn_count(insns_len: usize) -> (r: u64)
    ensures
        r == insns_len as int / 8,
{
    (insns_len / 8) as u64
}

/// A bitfield kept as a plain 64-bit word, one flag per bit.
#[derive(Debug, Clone, Copy, PartialEq, Eq, Structural, Default)]
pub struct Flags {
    pub bits: u64,
}

impl Flags {
    /// Sets or clears bit `bit`; bits past the word are left untouched.
    pub fn set(&mut self, bit: usize, val: bool)
        ensures
            bit >= 64 ==> final(self).bits == old(self).bits,
            bit < 64 && val ==> final(self).bits == old(self).bits | (1u64 << bit),
            bit < 64 && !val ==> final(self).bits == old(self).bits & !(1u64 << bit),
    {
        if bit >= 64 {
            return ;
        }
        if val {
            self.bits = self.bits | (1u64 << bit);
        } else {
            self.bits = self.bits & !(1u64 << bit);
        }
    }

    /// Reads bit `bit`; bits past the word read as false.
    pub fn get(&self, bit: usize) -> (r: bool)
        ensures
            bit >= 64 ==> r == false,
            bit < 64 ==> r == (self.bits & (1u64 << bit) != 0),
    {
        if bit >= 64 {
            false
        } else {
            (self.bits & (1u64 << bit)) != 0
        }
    }
}

/// The perf event attribute block, its unions modelled as the plain words
/// they overlay; reserved for future use by the loader.
#[derive(Debug, Clone, Copy)]
pub struct PerfEventAttr {
    pub type_: u32,
    pub size: u32,
    pub config: u64,
    pub sample: u64,
    pub sample_type: u64,
    pub read_format: u64,
    pub flags: Flags,
    pub wakeup: u32,
    pub bp_type: u32,
    pub config1: u64,
    pub config2: u64,
    pub branch_sample_type: u64,
    pub sample_regs_user: u64,
    pub sample_stack_user: u32,
    pub clockid: i32,
    pub sample_regs_intr: u64,
    pub aux_watermark: u32,
    pub sample_max_stack: u16,
    pub reserved_2: u16,
    pub aux_sample_size: u32,
    pub reserved_3: u32,
    pub sig_data: u64,
}

/// The byte size of the kernel's perf event attribute block in the revision
/// this struct models (through `sig_data`).
pub const PERF_EVENT_ATTR_SIZE: u32 = 136;

impl Default for PerfEventAttr {
    /// The all-zero attribute block, sized for the kernel ABI revision this
    /// struct models.
    fn default() -> (r: Self)
        ensures
            r.size == PERF_EVENT_ATTR_SIZE,
            r.type_ == 0 && r.config == 0 && r.sample == 0 && r.sample_type == 0,
            r.read_format == 0 && r.flags.bits == 0 && r.wakeup == 0 && r.bp_type == 0,
            r.config1 == 0 && r.config2 == 0 && r.branch_sample_type == 0,
            r.sample_regs_user == 0 && r.sample_stack_user == 0 && r.clockid == 0,
            r.sample_regs_intr == 0 && r.aux_watermark == 0 && r.sample_max_stack == 0,
            r.reserved_2 == 0 && r.aux_sample_size == 0 && r.reserved_3 == 0 && r.sig_data == 0,
    {
        PerfEventAttr {
            type_: 0,
            size: PERF_EVENT_ATTR_SIZE,
            config: 0,
            sample: 0,
            sample_type: 0,
            read_format: 0,
            flags: Flags { bits: 0 },
            wakeup: 0,
            bp_type: 0,
            config1: 0,
            config2: 0,
            branch_sample_type: 0,
            sample_regs_user: 0,
            sample_stack_user: 0,
            clockid: 0,
            sample_regs_intr: 0,
            aux_watermark: 0,
            sample_max_stack: 0,
            reserved_2: 0,
            aux_sample_size: 0,
            reserved_3: 0,
            sig_data: 0,
        }
    }
}

} // verus!
