//! SNTP packets and the synchronised-time state.
use vstd::prelude::*;

use crate::clock::Clock;

verus! {

/// Seconds from the NTP epoch (1900) to the Unix epoch (1970).
pub const SNTP_TIME_OFFSET: u32 = 2_208_988_800;

/// Size of an SNTP packet in bytes.
pub const SNTP_PACKET_SIZE: usize = 48;

/// First byte of a request: leap indicator 3 (not in sync), version 4,
/// mode 3 (client).
pub const SNTP_REQUEST_HEADER: u8 = 0xE3;

/// A transmit timestamp: seconds since 1900 and the binary fraction of a second.
#[derive(Clone, Copy, Debug, PartialEq, Eq, Structural)]
pub struct SntpTimestamp {
    pub secs: u32,
    pub frac: u32,
}

/// The request packet: the header byte, then zeros.
pub open spec fn request_packet() -> Seq<u8> {
    seq![SNTP_REQUEST_HEADER].add(Seq::new(47, |i: int| 0u8))
}

/// Builds the SNTP client request.
pub fn sntp_request() -> (p: Vec<u8>)
    ensures
        p@ == request_packet(),
{
    let mut p: Vec<u8> = Vec::new();
    p.push(SNTP_REQUEST_HEADER);
    let mut i: usize = 1;
    while i < SNTP_PACKET_SIZE
        invariant
            1 <= i <= SNTP_PACKET_SIZE,
            p@.len() == i,
            p@[0] == SNTP_REQUEST_HEADER,
            forall|j: int| 1 <= j < i ==> p@[j] == 0,
        decreases SNTP_PACKET_SIZE - i,
    {
        p.push(0);
        i = i + 1;
    }
    assert(p@ =~= request_packet());
    p
}

/// The big-endian number in `b[at..at + 4]`.
pub open spec fn be_u32(b: Seq<u8>, at: int) -> u32 {
    (b[at] as nat * 0x100_0000 + b[at + 1] as nat * 0x1_0000 + b[at + 2] as nat * 0x100
        + b[at + 3] as nat) as u32
}

fn read_be_u32(b: &[u8], at: usize) -> (v: u32)
    requires
        at + 4 <= b@.len(),
    ensures
        v == be_u32(b@, at as int),
{
    (b[at] as u32) * 0x100_0000 + (b[at + 1] as u32) * 0x1_0000 + (b[at + 2] as u32) * 0x100
        + (b[at + 3] as u32)
}

/// Version field of a header byte.
pub open spec fn header_version(hdr: u8) -> u8 {
    ((hdr / 8) % 8) as u8
}

/// Mode field of a header byte.
pub open spec fn header_mode(hdr: u8) -> u8 {
    (hdr % 8) as u8
}

/// What a received packet of `recv` bytes in `response` means: the server's
/// transmit timestamp, or the reason it is refused.
pub open spec fn sntp_reply(response: Seq<u8>, recv: nat) -> Result<SntpTimestamp, Seq<char>> {
    if recv != SNTP_PACKET_SIZE {
        Err("Invalid SNTP packet size received"@)
    } else if header_version(response[0]) != 4 {
        Err("Server returned wrong SNTP version"@)
    } else if header_mode(response[0]) != 4 && header_mode(response[0]) != 5 {
        Err("Not a SNTP server reply"@)
    } else {
        Ok(SntpTimestamp { secs: be_u32(response, 40), frac: be_u32(response, 44) })
    }
}

/// Checks a received packet (`recv` bytes landed in the 48-byte `response`)
/// and extracts its transmit timestamp.
pub fn parse_sntp_response(response: &[u8], recv: usize) -> (r: Result<SntpTimestamp, &'static str>)
    requires
        response@.len() == SNTP_PACKET_SIZE,
    ensures
        match (r, sntp_reply(response@, recv as nat)) {
            (Ok(t), Ok(u)) => t == u,
            (Err(e), Err(m)) => e@ == m,
            _ => false,
        },
{
    if recv != SNTP_PACKET_SIZE {
        return Err("Invalid SNTP packet size received");
    }
    let hdr = response[0];
    let vn = (hdr / 8) % 8;
    if vn != 4 {
        return Err("Server returned wrong SNTP version");
    }
    let mode = hdr % 8;
    if mode != 4 && mode != 5 {
        return Err("Not a SNTP server reply");
    }
    let secs = read_be_u32(response, 40);
    let frac = read_be_u32(response, 44);
    Ok(SntpTimestamp { secs, frac })
}

/// Unix seconds of an NTP seconds count: the epoch difference subtracted
/// modulo 2^32 (so the count rolls over in 2036 as NTP era 0 does).
pub open spec fn unix_of_ntp(secs: u32) -> i64 {
    (((secs as int - SNTP_TIME_OFFSET as int) % 0x1_0000_0000) as u32) as i64
}

pub fn sntp_unix_time(secs: u32) -> (t: i64)
    ensures
        t == unix_of_ntp(secs),
        0 <= t < 0x1_0000_0000,
{
    let d: u32 = secs.wrapping_sub(SNTP_TIME_OFFSET);
    d as i64
}

/// Ticks per second of the monotonic clock (`embassy_time::TICK_HZ`): one
/// million, the rate that embassy-time's `std` feature selects and the
/// driver's default.
#[verifier::external_body]
fn tick_hz() -> (hz: u64)
    ensures
        hz == 1_000_000,
{
    embassy_time::TICK_HZ
}

/// `a - b` on 64-bit signed integers, wrapping as release builds do.
pub open spec fn wrapping_diff(a: i64, b: i64) -> i64 {
    vstd::wrapping::i64_specs::wrapping_sub(a, b)
}

/// `a + b` on 64-bit signed integers, wrapping as release builds do.
pub open spec fn wrapping_total(a: i64, b: i64) -> i64 {
    vstd::wrapping::i64_specs::wrapping_add(a, b)
}

/// Synchronised wall-clock state.
///
/// `time_offset` is the Unix time at monotonic second zero (0 until the
/// first sync); `last_sync_ticks` is the monotonic tick count of the last
/// sync (`u64::MAX` until then); `last_sync_unix` is the Unix time received
/// then (0 until then). Offsets are computed with wrapping arithmetic.
pub struct TimeSyncService {
    time_offset: i64,
    last_sync_ticks: u64,
    last_sync_unix: i64,
    tick_hz: u64,
    clock: Clock,
}

impl TimeSyncService {
    pub closed spec fn offset(&self) -> i64 {
        self.time_offset
    }

    pub closed spec fn sync_ticks(&self) -> u64 {
        self.last_sync_ticks
    }

    pub closed spec fn sync_unix(&self) -> i64 {
        self.last_sync_unix
    }

    pub closed spec fn hz(&self) -> u64 {
        self.tick_hz
    }

    pub closed spec fn wf(&self) -> bool {
        self.tick_hz > 0
    }

    /// The latest clock reading this service has recorded (0 before the
    /// first): every later reading is at least this.
    pub closed spec fn clock_floor(&self) -> u64 {
        self.clock.floor()
    }

    /// Whole seconds of the monotonic clock at `ticks`.
    pub open spec fn secs_at(&self, ticks: u64) -> i64 {
        (ticks / self.hz()) as i64
    }

    /// A service that has never synchronised, for a clock of `hz` ticks per second.
    pub fn with_tick_rate(hz: u64) -> (s: Self)
        requires
            hz > 0,
        ensures
            s.wf(),
            s.hz() == hz,
            s.offset() == 0,
            s.sync_ticks() == u64::MAX,
            s.sync_unix() == 0,
            s.clock_floor() == 0,
    {
        TimeSyncService {
            time_offset: 0,
            last_sync_ticks: u64::MAX,
            last_sync_unix: 0,
            tick_hz: hz,
            clock: Clock::new(),
        }
    }

    /// A service that has never synchronised, on the system's monotonic clock
    /// (one million ticks per second).
    pub fn new() -> (s: Self)
        ensures
            s.wf(),
            s.hz() == 1_000_000,
            s.offset() == 0,
            s.sync_ticks() == u64::MAX,
            s.sync_unix() == 0,
            s.clock_floor() == 0,
    {
        Self::with_tick_rate(tick_hz())
    }

    /// Records a sync that received `unix_time` at monotonic tick `now`.
    pub fn update_time_at(&mut self, unix_time: i64, now: u64)
        requires
            old(self).wf(),
        ensures
            final(self).wf(),
            final(self).hz() == old(self).hz(),
            final(self).offset() == wrapping_diff(unix_time, old(self).secs_at(now)),
            final(self).sync_ticks() == now,
            final(self).sync_unix() == unix_time,
            final(self).clock_floor() == old(self).clock_floor(),
    {
        let secs = now / self.tick_hz;
        let secs_i = secs as i64;
        self.time_offset = unix_time.wrapping_sub(secs_i);
        self.last_sync_ticks = now;
        self.last_sync_unix = unix_time;
    }

    /// Records a sync that received `unix_time` now: the sync tick is the
    /// clock reading taken during the call, no earlier than any reading
    /// before it.
    pub fn update_time(&mut self, unix_time: i64)
        requires
            old(self).wf(),
        ensures
            final(self).wf(),
            final(self).hz() == old(self).hz(),
            final(self).offset() == wrapping_diff(unix_time, old(self).secs_at(final(self).sync_ticks())),
            final(self).sync_unix() == unix_time,
            final(self).sync_ticks() >= old(self).clock_floor(),
            final(self).clock_floor() == final(self).sync_ticks(),
    {
        let now = self.clock.read();
        self.update_time_at(unix_time, now);
    }

    /// Monotonic tick count of the last sync, or `None` before the first.
    pub fn get_last_sync_instant(&self) -> (r: Option<u64>)
        ensures
            r == (if self.sync_ticks() == u64::MAX {
                None
            } else {
                Some(self.sync_ticks())
            }),
    {
        if self.last_sync_ticks == u64::MAX {
            None
        } else {
            Some(self.last_sync_ticks)
        }
    }

    /// Unix time received at the last sync, or `None` before the first.
    pub fn get_last_sync_unix(&self) -> (r: Option<i64>)
        ensures
            r == (if self.sync_unix() == 0 {
                None
            } else {
                Some(self.sync_unix())
            }),
    {
        if self.last_sync_unix == 0 {
            None
        } else {
            Some(self.last_sync_unix)
        }
    }

    /// Current Unix time at monotonic tick `now`, or `None` before the first
    /// sync (while the offset is 0).
    pub fn get_unix_timestamp_at(&self, now: u64) -> (r: Option<i64>)
        requires
            self.wf(),
        ensures
            r == (if self.offset() == 0 {
                None
            } else {
                Some(wrapping_total(self.offset(), self.secs_at(now)))
            }),
    {
        if self.time_offset == 0 {
            None
        } else {
            let secs = now / self.tick_hz;
            let secs_i = secs as i64;
            Some(self.time_offset.wrapping_add(secs_i))
        }
    }

    /// Current Unix time, or `None` before the first sync: read at the
    /// current clock reading, which is no earlier than any reading recorded
    /// before (the last sync among them).
    pub fn get_unix_timestamp(&self) -> (r: Option<i64>)
        requires
            self.wf(),
        ensures
            self.offset() == 0 ==> r is None,
            self.offset() != 0 ==> exists|now: u64|
                #![trigger self.secs_at(now)]
                now >= self.clock_floor() && r == Some(
                    wrapping_total(self.offset(), self.secs_at(now)),
                ),
    {
        let now = self.clock.peek();
        self.get_unix_timestamp_at(now)
    }

    /// Applies the outcome of one request made at tick `now`: a valid reply
    /// is recorded and its Unix time returned; a failure changes nothing.
    pub fn complete_sync_at(&mut self, reply: Result<SntpTimestamp, &'static str>, now: u64) -> (r:
        Result<i64, &'static str>)
        requires
            old(self).wf(),
        ensures
            final(self).wf(),
            match reply {
                Ok(t) => {
                    &&& r == Ok::<i64, &'static str>(unix_of_ntp(t.secs))
                    &&& final(self).hz() == old(self).hz()
                    &&& final(self).offset() == wrapping_diff(
                        unix_of_ntp(t.secs),
                        old(self).secs_at(now),
                    )
                    &&& final(self).sync_ticks() == now
                    &&& final(self).sync_unix() == unix_of_ntp(t.secs)
                    &&& final(self).clock_floor() == old(self).clock_floor()
                },
                Err(e) => r == Err::<i64, &'static str>(e) && *final(self) == *old(self),
            },
    {
        match reply {
            Ok(t) => {
                let unix_time = sntp_unix_time(t.secs);
                self.update_time_at(unix_time, now);
                Ok(unix_time)
            },
            Err(e) => Err(e),
        }
    }
}

/// Read after a sync: once `update_time_at(unix_time, sync)` has run, the
/// Unix time read at a later tick `now` is the received time plus the whole
/// monotonic seconds elapsed (for ordinary values, where nothing wraps).
pub proof fn lemma_timestamp_after_sync(
    before: TimeSyncService,
    after: TimeSyncService,
    unix_time: i64,
    sync: u64,
    now: u64,
)
    requires
        before.wf(),
        after.hz() == before.hz(),
        after.offset() == wrapping_diff(unix_time, before.secs_at(sync)),
        0 <= unix_time < 0x1_0000_0000,
        sync <= now < 0x4000_0000_0000_0000,
    ensures
        after.offset() != 0 ==> wrapping_total(after.offset(), after.secs_at(now)) == unix_time + (
        after.secs_at(now) - after.secs_at(sync)),
{
    let hz = before.hz() as int;
    vstd::arithmetic::div_mod::lemma_div_is_ordered(sync as int, now as int, hz);
    assert((now as int) / hz <= now as int) by (nonlinear_arith)
        requires
            hz >= 1,
            now >= 0,
    ;
    assert((sync as int) / hz >= 0) by (nonlinear_arith)
        requires
            hz >= 1,
            sync >= 0,
    ;
}

/// A reading taken after `update_time(unix_time)` recorded its sync (so the
/// sync tick is the service's latest reading, and every later reading is at
/// least that) is the received Unix time plus the whole monotonic seconds
/// elapsed since the sync, for ordinary values where nothing wraps.
pub proof fn lemma_reading_after_update(s: TimeSyncService, unix_time: i64, now: u64)
    requires
        s.wf(),
        s.clock_floor() == s.sync_ticks(),
        s.offset() == wrapping_diff(unix_time, s.secs_at(s.sync_ticks())),
        now >= s.clock_floor(),
        0 <= unix_time < 0x1_0000_0000,
        now < 0x4000_0000_0000_0000,
    ensures
        now >= s.sync_ticks(),
        s.offset() != 0 ==> wrapping_total(s.offset(), s.secs_at(now)) == unix_time + (s.secs_at(now)
            - s.secs_at(s.sync_ticks())),
{
    lemma_timestamp_after_sync(s, s, unix_time, s.sync_ticks(), now);
}

/// The big-endian bytes of `x`.
pub open spec fn be_bytes(x: u32) -> Seq<u8> {
    seq![(x >> 24u32) as u8, (x >> 16u32) as u8, (x >> 8u32) as u8, x as u8]
}

proof fn lemma_be_round_trip(b: Seq<u8>, at: int, x: u32)
    requires
        0 <= at,
        at + 4 <= b.len(),
        b.subrange(at, at + 4) == be_bytes(x),
    ensures
        be_u32(b, at) == x,
{
    let b0 = (x >> 24u32) as u8;
    let b1 = (x >> 16u32) as u8;
    let b2 = (x >> 8u32) as u8;
    let b3 = x as u8;
    assert(b[at] == b0 && b[at + 1] == b1 && b[at + 2] == b2 && b[at + 3] == b3) by {
        assert(b.subrange(at, at + 4)[0] == b0);
        assert(b.subrange(at, at + 4)[1] == b1);
        assert(b.subrange(at, at + 4)[2] == b2);
        assert(b.subrange(at, at + 4)[3] == b3);
    }
    assert((b0 as u64) * 0x100_0000u64 + (b1 as u64) * 0x1_0000u64 + (b2 as u64) * 0x100u64
        + (b3 as u64) == x as u64) by (bit_vector)
        requires
            b0 == (x >> 24u32) as u8,
            b1 == (x >> 16u32) as u8,
            b2 == (x >> 8u32) as u8,
            b3 == x as u8,
    ;
}

/// A server reply (version 4, mode 4 or 5) whose transmit timestamp was
/// written big-endian at bytes 40 and 44 reads back as that timestamp.
pub proof fn lemma_reply_round_trip(response: Seq<u8>, secs: u32, frac: u32)
    requires
        response.len() == SNTP_PACKET_SIZE,
        header_version(response[0]) == 4,
        header_mode(response[0]) == 4 || header_mode(response[0]) == 5,
        response.subrange(40, 44) == be_bytes(secs),
        response.subrange(44, 48) == be_bytes(frac),
    ensures
        sntp_reply(response, SNTP_PACKET_SIZE as nat) == Ok::<SntpTimestamp, Seq<char>>(
            SntpTimestamp { secs, frac },
        ),
{
    lemma_be_round_trip(response, 40, secs);
    lemma_be_round_trip(response, 44, frac);
}

} // verus!
