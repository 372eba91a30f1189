//! Fabricated EVENT_RECORDs: the 112 bytes of an x64 `EVENT_RECORD`, written field
//! by field in little-endian order, and the user data that the record points to.
//!
//! Offsets: EventHeader.Size 0, HeaderType 2, Flags 4, EventProperty 6, ThreadId 8,
//! ProcessId 12, TimeStamp 16, ProviderId 24, EventDescriptor 40, ActivityId 64;
//! BufferContext.ProcessorNumber 80, LoggerId 82; ExtendedDataCount 84,
//! UserDataLength 86; the ExtendedData, UserData and UserContext pointers 88, 96, 104.

use vstd::prelude::*;
use crate::guid::Guid;

verus! {

/// Size of an x64 `EVENT_RECORD`.
pub const EVENT_RECORD_SIZE: usize = 112;
/// Size of an `EVENT_HEADER`, the value of its `Size` field.
pub const EVENT_HEADER_SIZE: u16 = 80;

pub const OFFSET_FLAGS: usize = 4;
pub const OFFSET_EVENT_PROPERTY: usize = 6;
pub const OFFSET_THREAD_ID: usize = 8;
pub const OFFSET_PROCESS_ID: usize = 12;
pub const OFFSET_TIMESTAMP: usize = 16;
pub const OFFSET_PROVIDER_ID: usize = 24;
pub const OFFSET_DESCRIPTOR: usize = 40;
pub const OFFSET_ACTIVITY_ID: usize = 64;
pub const OFFSET_PROCESSOR_NUMBER: usize = 80;
pub const OFFSET_LOGGER_ID: usize = 82;
pub const OFFSET_USER_DATA_LENGTH: usize = 86;

/// The `n` low bytes of `v`, least significant first.
pub open spec fn le(v: nat, n: nat) -> Seq<u8>
    decreases n,
{
    if n == 0 {
        Seq::empty()
    } else {
        seq![(v % 256) as u8] + le(v / 256, (n - 1) as nat)
    }
}

proof fn lemma_le_len(v: nat, n: nat)
    ensures
        le(v, n).len() == n,
    decreases n,
{
    if n > 0 {
        lemma_le_len(v / 256, (n - 1) as nat);
    }
}

/// `buf` with the bytes from `off` on replaced by `b`.
pub open spec fn put(buf: Seq<u8>, off: int, b: Seq<u8>) -> Seq<u8> {
    buf.subrange(0, off) + b + buf.subrange(off + b.len(), buf.len() as int)
}

/// `n` zero bytes.
pub open spec fn zeros(n: nat) -> Seq<u8> {
    Seq::new(n, |i: int| 0u8)
}

/// The 16 bytes of a GUID in memory.
pub open spec fn guid_bytes(g: Guid) -> Seq<u8> {
    le(g.data1 as nat, 4) + le(g.data2 as nat, 2) + le(g.data3 as nat, 2) + g.data4@
}

/// An `EVENT_DESCRIPTOR`: the identity of an event within its provider.
#[derive(Debug, Clone, Copy, PartialEq, Eq, Structural)]
pub struct EventDescriptor {
    pub id: u16,
    pub version: u8,
    pub channel: u8,
    pub level: u8,
    pub opcode: u8,
    pub task: u16,
    pub keyword: u64,
}

/// The 16 packed bytes of an `EVENT_DESCRIPTOR`.
pub open spec fn descriptor_bytes(d: EventDescriptor) -> Seq<u8> {
    le(d.id as nat, 2) + seq![d.version, d.channel, d.level, d.opcode] + le(d.task as nat, 2) + le(
        d.keyword as nat,
        8,
    )
}

/// A standard `EVENT_DESCRIPTOR` from its fields.
pub fn make_descriptor(
    id: u16,
    version: u8,
    channel: u8,
    level: u8,
    opcode: u8,
    task: u16,
    keyword: u64,
) -> (d: EventDescriptor)
    ensures
        d == (EventDescriptor { id, version, channel, level, opcode, task, keyword }),
{
    EventDescriptor { id, version, channel, level, opcode, task, keyword }
}

/// Writes the `n` low bytes of `v` at `off`, least significant first.
fn write_le(buf: &mut Vec<u8>, off: usize, v: u64, n: usize)
    requires
        off + n <= old(buf)@.len(),
    ensures
        final(buf)@ == put(old(buf)@, off as int, le(v as nat, n as nat)),
        final(buf)@.len() == old(buf)@.len(),
{
    proof {
        lemma_le_len(v as nat, n as nat);
    }
    let ghost start = buf@;
    let ghost want = le(v as nat, n as nat);
    let total = buf.len();
    let mut x = v;
    let mut k: usize = 0;
    while k < n
        invariant
            k <= n,
            total == start.len(),
            off + n <= total,
            want == le(v as nat, n as nat),
            want.len() == n,
            buf@.len() == total,
            forall|j: int| 0 <= j < total && !(off <= j < off + k) ==> buf@[j] == start[j],
            forall|j: int| 0 <= j < k ==> buf@[off + j] == want[j],
            le(x as nat, (n - k) as nat) == want.subrange(k as int, n as int),
        decreases n - k,
    {
        proof {
            lemma_le_len((x / 256) as nat, (n - k - 1) as nat);
            let rest = le(x as nat, (n - k) as nat);
            assert(rest == seq![(x % 256) as u8] + le((x / 256) as nat, (n - k - 1) as nat));
            assert(rest[0] == want[k as int]);
            let tail = le((x / 256) as nat, (n - k - 1) as nat);
            assert(tail =~= rest.subrange(1, (n - k) as int));
            assert(rest.subrange(1, (n - k) as int) =~= want.subrange(k + 1, n as int));
        }
        buf.set(off + k, (x % 256) as u8);
        x = x / 256;
        k = k + 1;
    }
    assert(buf@ =~= put(start, off as int, want));
}

/// Writes `b` at `off`.
fn write_bytes(buf: &mut Vec<u8>, off: usize, b: &[u8])
    requires
        off + b@.len() <= old(buf)@.len(),
    ensures
        final(buf)@ == put(old(buf)@, off as int, b@),
        final(buf)@.len() == old(buf)@.len(),
{
    let ghost start = buf@;
    let total = buf.len();
    let mut k: usize = 0;
    while k < b.len()
        invariant
            k <= b@.len(),
            total == start.len(),
            off + b@.len() <= total,
            buf@.len() == total,
            forall|j: int| 0 <= j < total && !(off <= j < off + k) ==> buf@[j] == start[j],
            forall|j: int| 0 <= j < k ==> buf@[off + j] == b@[j],
        decreases b.len() - k,
    {
        buf.set(off + k, b[k]);
        k = k + 1;
    }
    assert(buf@ =~= put(start, off as int, b@));
}

/// A fabricated `EVENT_RECORD` that owns its bytes and the user data it points to.
pub struct FabricatedRecord {
    buffer: Vec<u8>,
    user_data: Vec<u8>,
}

impl FabricatedRecord {
    /// The bytes of the record.
    pub closed spec fn bytes(&self) -> Seq<u8> {
        self.buffer@
    }

    /// The user data that the record points to.
    pub closed spec fn data(&self) -> Seq<u8> {
        self.user_data@
    }

    /// The record holds the size of an `EVENT_RECORD`.
    pub open spec fn wf(&self) -> bool {
        self.bytes().len() == EVENT_RECORD_SIZE
    }

    /// A zeroed record whose header size is set.
    pub fn new() -> (r: Self)
        ensures
            r.wf(),
            r.bytes() == put(zeros(112), 0, le(EVENT_HEADER_SIZE as nat, 2)),
            r.data() == Seq::<u8>::empty(),
    {
        let mut buffer: Vec<u8> = Vec::new();
        let mut k: usize = 0;
        while k < EVENT_RECORD_SIZE
            invariant
                k <= EVENT_RECORD_SIZE,
                buffer@ == zeros(k as nat),
            decreases EVENT_RECORD_SIZE - k,
        {
            buffer.push(0);
            k = k + 1;
            assert(buffer@ =~= zeros(k as nat));
        }
        write_le(&mut buffer, 0, EVENT_HEADER_SIZE as u64, 2);
        proof {
            lemma_le_len(EVENT_HEADER_SIZE as nat, 2);
        }
        FabricatedRecord { buffer, user_data: Vec::new() }
    }

    /// A record holding the first bytes of `bytes` (up to a whole record), zero after them.
    pub fn from_bytes(bytes: &[u8]) -> (r: Self)
        ensures
            r.wf(),
            r.bytes() == (if bytes@.len() >= 112 {
                bytes@.subrange(0, 112)
            } else {
                bytes@ + zeros((112 - bytes@.len()) as nat)
            }),
            r.data() == Seq::<u8>::empty(),
    {
        let copy_len = if bytes.len() < EVENT_RECORD_SIZE { bytes.len() } else { EVENT_RECORD_SIZE };
        let mut buffer: Vec<u8> = Vec::new();
        let mut k: usize = 0;
        while k < EVENT_RECORD_SIZE
            invariant
                k <= EVENT_RECORD_SIZE,
                copy_len <= bytes@.len(),
                copy_len == (if bytes@.len() < 112 { bytes@.len() } else { 112 }),
                buffer@.len() == k,
                forall|j: int| 0 <= j < k ==> buffer@[j] == if j < copy_len { bytes@[j] } else { 0u8 },
            decreases EVENT_RECORD_SIZE - k,
        {
            if k < copy_len {
                buffer.push(bytes[k]);
            } else {
                buffer.push(0);
            }
            k = k + 1;
        }
        proof {
            if bytes@.len() >= 112 {
                assert(buffer@ =~= bytes@.subrange(0, 112));
            } else {
                assert(buffer@ =~= bytes@ + zeros((112 - bytes@.len()) as nat));
            }
        }
        FabricatedRecord { buffer, user_data: Vec::new() }
    }

    /// A copy of the record's bytes.
    pub fn record_bytes(&self) -> (b: Vec<u8>)
        ensures
            b@ == self.bytes(),
    {
        self.buffer.clone()
    }

    /// A copy of the user data.
    pub fn user_data_bytes(&self) -> (b: Vec<u8>)
        ensures
            b@ == self.data(),
    {
        self.user_data.clone()
    }

    /// Sets EventHeader.ProviderId.
    pub fn set_provider_id(&mut self, guid: Guid)
        requires
            old(self).wf(),
        ensures
            final(self).wf(),
            final(self).bytes() == put(old(self).bytes(), OFFSET_PROVIDER_ID as int, guid_bytes(guid)),
            final(self).data() == old(self).data(),
    {
        self.write_guid(OFFSET_PROVIDER_ID, guid);
    }

    /// Sets EventHeader.ActivityId.
    pub fn set_activity_id(&mut self, guid: Guid)
        requires
            old(self).wf(),
        ensures
            final(self).wf(),
            final(self).bytes() == put(old(self).bytes(), OFFSET_ACTIVITY_ID as int, guid_bytes(guid)),
            final(self).data() == old(self).data(),
    {
        self.write_guid(OFFSET_ACTIVITY_ID, guid);
    }

    fn write_guid(&mut self, off: usize, guid: Guid)
        requires
            old(self).wf(),
            off + 16 <= 112,
        ensures
            final(self).wf(),
            final(self).bytes() == put(old(self).bytes(), off as int, guid_bytes(guid)),
            final(self).data() == old(self).data(),
    {
        let ghost start = self.buffer@;
        proof {
            lemma_le_len(guid.data1 as nat, 4);
            lemma_le_len(guid.data2 as nat, 2);
            lemma_le_len(guid.data3 as nat, 2);
        }
        write_le(&mut self.buffer, off, guid.data1 as u64, 4);
        write_le(&mut self.buffer, off + 4, guid.data2 as u64, 2);
        write_le(&mut self.buffer, off + 6, guid.data3 as u64, 2);
        write_bytes(&mut self.buffer, off + 8, &guid.data4);
        assert(self.buffer@ =~= put(start, off as int, guid_bytes(guid)));
    }

    /// Sets EventHeader.EventDescriptor.
    pub fn set_event_descriptor(&mut self, descriptor: EventDescriptor)
        requires
            old(self).wf(),
        ensures
            final(self).wf(),
            final(self).bytes() == put(
                old(self).bytes(),
                OFFSET_DESCRIPTOR as int,
                descriptor_bytes(descriptor),
            ),
            final(self).data() == old(self).data(),
    {
        let ghost start = self.buffer@;
        let off = OFFSET_DESCRIPTOR;
        proof {
            lemma_le_len(descriptor.id as nat, 2);
            lemma_le_len(descriptor.task as nat, 2);
            lemma_le_len(descriptor.keyword as nat, 8);
            lemma_le_len(descriptor.version as nat, 1);
            lemma_le_len(descriptor.channel as nat, 1);
            lemma_le_len(descriptor.level as nat, 1);
            lemma_le_len(descriptor.opcode as nat, 1);
            assert(le(descriptor.version as nat, 1) =~= seq![descriptor.version]);
            assert(le(descriptor.channel as nat, 1) =~= seq![descriptor.channel]);
            assert(le(descriptor.level as nat, 1) =~= seq![descriptor.level]);
            assert(le(descriptor.opcode as nat, 1) =~= seq![descriptor.opcode]);
        }
        write_le(&mut self.buffer, off, descriptor.id as u64, 2);
        write_le(&mut self.buffer, off + 2, descriptor.version as u64, 1);
        write_le(&mut self.buffer, off + 3, descriptor.channel as u64, 1);
        write_le(&mut self.buffer, off + 4, descriptor.level as u64, 1);
        write_le(&mut self.buffer, off + 5, descriptor.opcode as u64, 1);
        write_le(&mut self.buffer, off + 6, descriptor.task as u64, 2);
        write_le(&mut self.buffer, off + 8, descriptor.keyword, 8);
        assert(self.buffer@ =~= put(start, off as int, descriptor_bytes(descriptor)));
    }

    /// Sets EventHeader.EventDescriptor from its fields.
    pub fn set_descriptor(
        &mut self,
        id: u16,
        version: u8,
        channel: u8,
        level: u8,
        opcode: u8,
        task: u16,
        keyword: u64,
    )
        requires
            old(self).wf(),
        ensures
            final(self).wf(),
            final(self).bytes() == put(
                old(self).bytes(),
                OFFSET_DESCRIPTOR as int,
                descriptor_bytes(EventDescriptor { id, version, channel, level, opcode, task, keyword }),
            ),
            final(self).data() == old(self).data(),
    {
        let d = make_descriptor(id, version, channel, level, opcode, task, keyword);
        self.set_event_descriptor(d);
    }

    fn write_field(&mut self, off: usize, v: u64, n: usize)
        requires
            old(self).wf(),
            off + n <= 112,
        ensures
            final(self).wf(),
            final(self).bytes() == put(old(self).bytes(), off as int, le(v as nat, n as nat)),
            final(self).data() == old(self).data(),
    {
        proof {
            lemma_le_len(v as nat, n as nat);
        }
        write_le(&mut self.buffer, off, v, n);
    }

    /// Sets EventHeader.Size.
    pub fn set_header_size(&mut self, size: u16)
        requires
            old(self).wf(),
        ensures
            final(self).wf(),
            final(self).bytes() == put(old(self).bytes(), 0, le(size as nat, 2)),
            final(self).data() == old(self).data(),
    {
        self.write_field(0, size as u64, 2);
    }

    /// Sets one byte of EventHeader.EventDescriptor (its id is bytes 0 and 1,
    /// the version byte 2, the opcode byte 5, the task bytes 6 and 7, the
    /// keyword bytes 8 to 15).
    pub fn set_descriptor_byte(&mut self, index: usize, value: u8)
        requires
            old(self).wf(),
            index < 16,
        ensures
            final(self).wf(),
            final(self).bytes() == old(self).bytes().update(OFFSET_DESCRIPTOR + index, value),
            final(self).data() == old(self).data(),
    {
        let ghost start = self.buffer@;
        self.write_field(OFFSET_DESCRIPTOR + index, value as u64, 1);
        proof {
            lemma_le_len(value as nat, 1);
            lemma_le_len(value as nat / 256, 0);
            assert(le(value as nat, 1) =~= seq![value]);
            assert(self.buffer@ =~= start.update(OFFSET_DESCRIPTOR + index, value));
        }
    }

    /// Sets EventHeader.Flags.
    pub fn set_flags(&mut self, flags: u16)
        requires
            old(self).wf(),
        ensures
            final(self).wf(),
            final(self).bytes() == put(old(self).bytes(), OFFSET_FLAGS as int, le(flags as nat, 2)),
            final(self).data() == old(self).data(),
    {
        self.write_field(OFFSET_FLAGS, flags as u64, 2);
    }

    /// Sets EventHeader.EventProperty.
    pub fn set_event_property(&mut self, property: u16)
        requires
            old(self).wf(),
        ensures
            final(self).wf(),
            final(self).bytes() == put(
                old(self).bytes(),
                OFFSET_EVENT_PROPERTY as int,
                le(property as nat, 2),
            ),
            final(self).data() == old(self).data(),
    {
        self.write_field(OFFSET_EVENT_PROPERTY, property as u64, 2);
    }

    /// Sets BufferContext: the logger id and the processor number.
    pub fn set_buffer_context(&mut self, logger_id: u16, processor_number: u8)
        requires
            old(self).wf(),
        ensures
            final(self).wf(),
            final(self).bytes() == put(
                put(old(self).bytes(), OFFSET_LOGGER_ID as int, le(logger_id as nat, 2)),
                OFFSET_PROCESSOR_NUMBER as int,
                seq![processor_number],
            ),
            final(self).data() == old(self).data(),
    {
        self.write_field(OFFSET_LOGGER_ID, logger_id as u64, 2);
        self.write_field(OFFSET_PROCESSOR_NUMBER, processor_number as u64, 1);
        proof {
            lemma_le_len(processor_number as nat, 1);
            lemma_le_len(processor_number as nat / 256, 0);
            assert(le(processor_number as nat, 1) =~= seq![processor_number]);
        }
    }

    /// Sets EventHeader.ProcessId and ThreadId.
    pub fn set_process_thread(&mut self, pid: u32, tid: u32)
        requires
            old(self).wf(),
        ensures
            final(self).wf(),
            final(self).bytes() == put(
                put(old(self).bytes(), OFFSET_PROCESS_ID as int, le(pid as nat, 4)),
                OFFSET_THREAD_ID as int,
                le(tid as nat, 4),
            ),
            final(self).data() == old(self).data(),
    {
        self.write_field(OFFSET_PROCESS_ID, pid as u64, 4);
        self.write_field(OFFSET_THREAD_ID, tid as u64, 4);
    }

    /// Sets EventHeader.TimeStamp (two's complement, little-endian).
    pub fn set_timestamp(&mut self, ts: i64)
        requires
            old(self).wf(),
        ensures
            final(self).wf(),
            final(self).bytes() == put(
                old(self).bytes(),
                OFFSET_TIMESTAMP as int,
                le((ts as u64) as nat, 8),
            ),
            final(self).data() == old(self).data(),
    {
        self.write_field(OFFSET_TIMESTAMP, ts as u64, 8);
    }

    /// Sets the user data and its length field (the length kept modulo 2^16).
    pub fn set_user_data(&mut self, data: &[u8])
        requires
            old(self).wf(),
        ensures
            final(self).wf(),
            final(self).bytes() == put(
                old(self).bytes(),
                OFFSET_USER_DATA_LENGTH as int,
                le((data@.len() % 65536) as nat, 2),
            ),
            final(self).data() == data@,
    {
        let len16 = (data.len() % 65536) as u64;
        self.write_field(OFFSET_USER_DATA_LENGTH, len16, 2);
        let mut v: Vec<u8> = Vec::new();
        let mut k: usize = 0;
        while k < data.len()
            invariant
                k <= data@.len(),
                v@ == data@.subrange(0, k as int),
            decreases data.len() - k,
        {
            v.push(data[k]);
            k = k + 1;
            assert(v@ =~= data@.subrange(0, k as int));
        }
        assert(data@.subrange(0, data@.len() as int) =~= data@);
        self.user_data = v;
    }
}

impl Default for FabricatedRecord {
    fn default() -> (r: Self)
        ensures
            r.wf(),
            r.bytes() == put(zeros(112), 0, le(EVENT_HEADER_SIZE as nat, 2)),
            r.data() == Seq::<u8>::empty(),
    {
        Self::new()
    }
}

/// The kernel FileIo provider.
pub fn fileio_provider_guid() -> (g: Guid)
    ensures
        g.data1 == 0x90cbdc39 && g.data2 == 0x4a3e && g.data3 == 0x11d1 && g.data4@ == seq![
            0x84u8,
            0xf4,
            0x00,
            0x00,
            0xf8,
            0x04,
            0x64,
            0xe3,
        ],
{
    let g = Guid {
        data1: 0x90cbdc39,
        data2: 0x4a3e,
        data3: 0x11d1,
        data4: [0x84, 0xf4, 0x00, 0x00, 0xf8, 0x04, 0x64, 0xe3],
    };
    assert(g.data4@ =~= seq![0x84u8, 0xf4, 0x00, 0x00, 0xf8, 0x04, 0x64, 0xe3]);
    g
}

/// The SystemTraceProvider (legacy kernel tracing).
pub fn system_trace_provider_guid() -> (g: Guid)
    ensures
        g.data1 == 0x9e9bba3c && g.data2 == 0x2e38 && g.data3 == 0x11d3 && g.data4@ == seq![
            0x9au8,
            0x10,
            0x00,
            0x90,
            0x27,
            0x3f,
            0xc1,
            0xfd,
        ],
{
    let g = Guid {
        data1: 0x9e9bba3c,
        data2: 0x2e38,
        data3: 0x11d3,
        data4: [0x9a, 0x10, 0x00, 0x90, 0x27, 0x3f, 0xc1, 0xfd],
    };
    assert(g.data4@ =~= seq![0x9au8, 0x10, 0x00, 0x90, 0x27, 0x3f, 0xc1, 0xfd]);
    g
}

/// The DiskIo provider.
pub fn diskio_provider_guid() -> (g: Guid)
    ensures
        g.data1 == 0x01853a65 && g.data2 == 0x418f && g.data3 == 0x3f73 && g.data4@ == seq![
            0x98u8,
            0x13,
            0x64,
            0xd6,
            0x3f,
            0xe1,
            0xcd,
            0xb8,
        ],
{
    let g = Guid {
        data1: 0x01853a65,
        data2: 0x418f,
        data3: 0x3f73,
        data4: [0x98, 0x13, 0x64, 0xd6, 0x3f, 0xe1, 0xcd, 0xb8],
    };
    assert(g.data4@ =~= seq![0x98u8, 0x13, 0x64, 0xd6, 0x3f, 0xe1, 0xcd, 0xb8]);
    g
}

/// The Process provider; the Microsoft-Windows-Kernel-Process manifest provider
/// has the same GUID.
pub fn process_provider_guid() -> (g: Guid)
    ensures
        g.data1 == 0x22fb2cd6 && g.data2 == 0x0e7b && g.data3 == 0x422b && g.data4@ == seq![
            0xa0u8,
            0xc7,
            0x2f,
            0xad,
            0x1f,
            0xd0,
            0xe7,
            0x16,
        ],
{
    let g = Guid {
        data1: 0x22fb2cd6,
        data2: 0x0e7b,
        data3: 0x422b,
        data4: [0xa0, 0xc7, 0x2f, 0xad, 0x1f, 0xd0, 0xe7, 0x16],
    };
    assert(g.data4@ =~= seq![0xa0u8, 0xc7, 0x2f, 0xad, 0x1f, 0xd0, 0xe7, 0x16]);
    g
}

/// The Thread provider.
pub fn thread_provider_guid() -> (g: Guid)
    ensures
        g.data1 == 0x3d6fa8d1 && g.data2 == 0xfe05 && g.data3 == 0x11d0 && g.data4@ == seq![
            0x9du8,
            0xda,
            0x00,
            0xc0,
            0x4f,
            0xd9,
            0x30,
            0xc5,
        ],
{
    let g = Guid {
        data1: 0x3d6fa8d1,
        data2: 0xfe05,
        data3: 0x11d0,
        data4: [0x9d, 0xda, 0x00, 0xc0, 0x4f, 0xd9, 0x30, 0xc5],
    };
    assert(g.data4@ =~= seq![0x9du8, 0xda, 0x00, 0xc0, 0x4f, 0xd9, 0x30, 0xc5]);
    g
}

/// The Microsoft-Windows-Kernel-FileIo manifest provider (user mode).
pub fn kernel_fileio_manifest_guid() -> (g: Guid)
    ensures
        g.data1 == 0xedd08927 && g.data2 == 0x9cc4 && g.data3 == 0x4e65 && g.data4@ == seq![
            0xb9u8,
            0x70,
            0xc2,
            0x56,
            0x0f,
            0xb5,
            0xc2,
            0x89,
        ],
{
    let g = Guid {
        data1: 0xedd08927,
        data2: 0x9cc4,
        data3: 0x4e65,
        data4: [0xb9, 0x70, 0xc2, 0x56, 0x0f, 0xb5, 0xc2, 0x89],
    };
    assert(g.data4@ =~= seq![0xb9u8, 0x70, 0xc2, 0x56, 0x0f, 0xb5, 0xc2, 0x89]);
    g
}

} // verus!
