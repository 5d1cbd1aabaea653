//! WebSocket frames on the display's monitor channel: the masked text frames
//! this side sends, and the frames it receives.

use vstd::prelude::*;
use vstd::string::StringSliceAdditionalSpecFns;
use vstd::utf8::{decode_utf8, valid_utf8};
use crate::text::{decimal_chars, decimal_string, push_text, str_from_utf8, string_of};

verus! {

/// The masking key of the frames this side sends.
pub open spec fn mask_key() -> Seq<u8> {
    seq![0x12u8, 0x34u8, 0x56u8, 0x78u8]
}

/// A masked text frame holding `payload` (its length taken modulo 256 into the
/// 7-bit length field, as the frame is only meant for short payloads).
pub open spec fn text_frame(payload: Seq<u8>) -> Seq<u8> {
    seq![0x81u8, (0x80u8 | ((payload.len() % 256) as u8)) as u8] + mask_key() + Seq::new(
        payload.len(),
        |i: int| (payload[i] ^ mask_key()[i % 4]) as u8,
    )
}

/// Writes a masked text frame holding `payload` into `out` and returns its length.
pub fn ws_frame_text(payload: &str, out: &mut [u8]) -> (n: usize)
    requires
        old(out)@.len() >= 6 + payload.spec_bytes().len(),
    ensures
        n == 6 + payload.spec_bytes().len(),
        final(out)@.len() == old(out)@.len(),
        final(out)@.subrange(0, n as int) == text_frame(payload.spec_bytes()),
        final(out)@.subrange(n as int, final(out)@.len() as int) == old(out)@.subrange(n as int, old(out)@.len() as int),
{
    let bytes = payload.as_bytes();
    let len = bytes.len();
    let mask: [u8; 4] = [0x12, 0x34, 0x56, 0x78];
    out[0] = 0x81;
    out[1] = 0x80 | ((len % 256) as u8);
    out[2] = mask[0];
    out[3] = mask[1];
    out[4] = mask[2];
    out[5] = mask[3];
    let olen = out.len();
    let mut i: usize = 0;
    while i < len
        invariant
            olen == out@.len(),
            bytes@ == payload.spec_bytes(),
            len == bytes@.len(),
            i <= len,
            out@.len() == old(out)@.len(),
            out@.len() >= 6 + len,
            mask@ == mask_key(),
            out@.subrange(0, 6 + i) == text_frame(bytes@).subrange(0, 6 + i),
            out@.subrange(6 + len, out@.len() as int) == old(out)@.subrange(6 + len, old(out)@.len() as int),
        decreases len - i,
    {
        let m = mask[i % 4];
        out[6 + i] = bytes[i] ^ m;
        proof {
            assert(out@.subrange(0, 6 + i + 1) =~= text_frame(bytes@).subrange(0, 6 + i + 1));
            assert(out@.subrange(6 + len, out@.len() as int) =~= old(out)@.subrange(6 + len, old(out)@.len() as int));
        }
        i = i + 1;
    }
    proof {
        assert(text_frame(bytes@).len() == 6 + len);
        assert(text_frame(bytes@).subrange(0, 6 + len) =~= text_frame(bytes@));
    }
    6 + len
}

/// The payload length that a frame header declares, when the header is complete.
pub open spec fn declared_len(buf: Seq<u8>) -> nat {
    let len7 = buf[1] & 0x7f;
    if len7 == 126 {
        (buf[2] as nat) * 256 + buf[3] as nat
    } else if len7 == 127 {
        be_value(buf.subrange(2, 10))
    } else {
        len7 as nat
    }
}

/// A big-endian number.
pub open spec fn be_value(b: Seq<u8>) -> nat
    decreases b.len(),
{
    if b.len() == 0 {
        0
    } else {
        be_value(b.drop_last()) * 256 + b.last() as nat
    }
}

/// Bytes of a frame header: two, then two or eight of extended length, then
/// four of masking key when the frame is masked.
pub open spec fn header_len_of(buf: Seq<u8>) -> nat {
    let len7 = buf[1] & 0x7f;
    let ext: nat = if len7 == 126 { 2 } else if len7 == 127 { 8 } else { 0 };
    let mask: nat = if buf[1] & 0x80 != 0 { 4 } else { 0 };
    2 + ext + mask
}

/// The header and payload lengths of the frame at the start of `buf`, when all
/// of it has arrived.
pub open spec fn frame_extent(buf: Seq<u8>) -> Option<(nat, nat)> {
    if buf.len() < 2 {
        None
    } else if buf.len() < header_len_of(buf) {
        None
    } else if buf.len() < header_len_of(buf) + declared_len(buf) {
        None
    } else {
        Some((header_len_of(buf), declared_len(buf)))
    }
}

/// Finds the header and payload lengths of the frame at the start of `buf`,
/// or reports that more bytes are needed.
pub fn parse_incoming_ws_frame_buffered(buf: &[u8]) -> (r: Option<(usize, usize)>)
    ensures
        match frame_extent(buf@) {
            Some((h, p)) => r == Some((h as usize, p as usize)),
            None => r is None,
        },
{
    if buf.len() < 2 {
        return None;
    }
    let masked = (buf[1] & 0x80) != 0;
    let len7 = buf[1] & 0x7f;
    let mut header_len: usize = 2;
    if len7 == 126 {
        header_len = header_len + 2;
    } else if len7 == 127 {
        header_len = header_len + 8;
    }
    if masked {
        header_len = header_len + 4;
    }
    if buf.len() < header_len {
        return None;
    }
    let payload_len: u64 = if len7 == 126 {
        buf[2] as u64 * 256 + buf[3] as u64
    } else if len7 == 127 {
        let mut value: u64 = 0;
        let mut k: usize = 2;
        while k < 10
            invariant
                2 <= k <= 10,
                buf@.len() >= 10,
                value == be_value(buf@.subrange(2, k as int)),
                value < pow256((k - 2) as nat),
            decreases 10 - k,
        {
            proof {
                assert(buf@.subrange(2, k + 1).drop_last() =~= buf@.subrange(2, k as int));
                lemma_pow256_step((k - 2) as nat);
                assert(value * 256 + buf[k as int] < pow256((k - 1) as nat)) by (nonlinear_arith)
                    requires value < pow256((k - 2) as nat), buf[k as int] < 256,
                        pow256((k - 1) as nat) == pow256((k - 2) as nat) * 256;
                lemma_pow256_bound((k - 1) as nat);
            }
            value = value * 256 + buf[k] as u64;
            k = k + 1;
        }
        value
    } else {
        len7 as u64
    };
    proof {
        assert(payload_len == declared_len(buf@));
        assert(header_len == header_len_of(buf@));
    }
    if (buf.len() as u64) < payload_len || buf.len() - (payload_len as usize) < header_len {
        return None;
    }
    Some((header_len, payload_len as usize))
}

pub open spec fn pow256(n: nat) -> nat
    decreases n,
{
    if n == 0 {
        1
    } else {
        pow256((n - 1) as nat) * 256
    }
}

proof fn lemma_pow256_step(n: nat)
    ensures
        pow256(n + 1) == pow256(n) * 256,
{
}

proof fn lemma_pow256_bound(n: nat)
    requires
        n <= 8,
    ensures
        pow256(n) <= 0x1_0000_0000_0000_0000,
    decreases n,
{
    reveal_with_fuel(pow256, 9);
}

/// A received frame: its opcode, the bytes it takes in the buffer, and its
/// payload, unmasked, and cut to [`MAX_TEXT_PAYLOAD`] bytes when it was masked.
pub struct WsFrame {
    pub opcode: u8,
    pub total_len: usize,
    pub payload: Vec<u8>,
}

/// Longest masked payload that is unmasked.
pub const MAX_TEXT_PAYLOAD: usize = 512;

/// The payload of a complete frame as this side reads it.
pub open spec fn frame_payload(buf: Seq<u8>, header: nat, len: nat) -> Seq<u8> {
    if buf[1] & 0x80 != 0 {
        let n = if len > MAX_TEXT_PAYLOAD { MAX_TEXT_PAYLOAD as nat } else { len };
        Seq::new(n, |i: int| (buf[header + i] ^ buf[header - 4 + (i % 4)]) as u8)
    } else {
        buf.subrange(header as int, (header + len) as int)
    }
}

/// Takes the complete frame at the start of `buf`, if there is one.
pub fn decode_ws_frame(buf: &[u8]) -> (r: Option<WsFrame>)
    ensures
        match frame_extent(buf@) {
            Some((h, p)) => r matches Some(f) && f.opcode == buf@[0] & 0x0f && f.total_len == h + p
                && f.payload@ == frame_payload(buf@, h, p),
            None => r is None,
        },
{
    let (header_len, payload_len) = match parse_incoming_ws_frame_buffered(buf) {
        Some(x) => x,
        None => return None,
    };
    let blen = buf.len();
    let opcode = buf[0] & 0x0f;
    let masked = (buf[1] & 0x80) != 0;
    let mut payload: Vec<u8> = Vec::new();
    if masked {
        let n = if payload_len > MAX_TEXT_PAYLOAD { MAX_TEXT_PAYLOAD } else { payload_len };
        let mask_offset = header_len - 4;
        let mut i: usize = 0;
        while i < n
            invariant
                i <= n,
                blen == buf@.len(),
                n <= payload_len,
                header_len + payload_len <= buf@.len(),
                header_len >= 6,
                mask_offset == header_len - 4,
                payload@ == Seq::new(i as nat, |j: int| (buf@[header_len + j] ^ buf@[header_len - 4 + (j % 4)]) as u8),
            decreases n - i,
        {
            payload.push(buf[header_len + i] ^ buf[mask_offset + i % 4]);
            i = i + 1;
            proof {
                assert(payload@ =~= Seq::new(i as nat, |j: int| (buf@[header_len + j] ^ buf@[header_len - 4 + (j % 4)]) as u8));
            }
        }
    } else {
        let mut i: usize = 0;
        while i < payload_len
            invariant
                i <= payload_len,
                blen == buf@.len(),
                header_len + payload_len <= buf@.len(),
                payload@ == buf@.subrange(header_len as int, header_len + i),
            decreases payload_len - i,
        {
            payload.push(buf[header_len + i]);
            i = i + 1;
            proof {
                assert(payload@ =~= buf@.subrange(header_len as int, header_len + i));
            }
        }
    }
    Some(WsFrame { opcode, total_len: header_len + payload_len, payload })
}

/// Milliseconds between heartbeats on the monitor channel.
pub const HEARTBEAT_INTERVAL_MS: u64 = 15000;

/// Whether a heartbeat is due, `elapsed_ms` after the last one, and how long
/// to wait for data before looking again.
pub fn heartbeat_due(elapsed_ms: u64) -> (r: (bool, u64))
    ensures
        r == if elapsed_ms >= HEARTBEAT_INTERVAL_MS {
            (true, HEARTBEAT_INTERVAL_MS)
        } else {
            (false, (HEARTBEAT_INTERVAL_MS - elapsed_ms) as u64)
        },
{
    if elapsed_ms >= HEARTBEAT_INTERVAL_MS {
        (true, HEARTBEAT_INTERVAL_MS)
    } else {
        (false, HEARTBEAT_INTERVAL_MS - elapsed_ms)
    }
}

/// The heartbeat message sent on the monitor channel.
pub fn heartbeat_message(msg_id: u32) -> (s: String)
    ensures
        s@ == "{\"cmd\": \"heartbeat\", \"msgId\": \""@ + decimal_chars(msg_id as nat) + "\"}"@,
{
    let mut s = string_of("{\"cmd\": \"heartbeat\", \"msgId\": \"");
    let id = decimal_string(msg_id as u64);
    push_text(&mut s, id.as_str());
    push_text(&mut s, "\"}");
    s
}

/// The id of the heartbeat after the one with `msg_id`: one more, wrapping
/// past the largest id.
pub fn next_heartbeat_id(msg_id: u32) -> (next: u32)
    ensures
        next == if msg_id == u32::MAX { 0 } else { (msg_id + 1) as u32 },
{
    msg_id.wrapping_add(1)
}

/// The opcode of a text frame.
pub const OPCODE_TEXT: u8 = 1;
/// The opcode of a ping.
pub const OPCODE_PING: u8 = 9;

/// The pong this side answers a ping with: final, opcode 10, no payload.
pub open spec fn pong_frame() -> Seq<u8> {
    seq![0x8au8, 0x00u8]
}

/// What a received frame asks of this side.
pub enum FrameAction {
    /// A text frame with a UTF-8 payload: a notification, with its text.
    Notify(String),
    /// A text frame whose payload is not UTF-8.
    BadText,
    /// A ping: send these bytes back.
    Pong(Vec<u8>),
    /// Any other frame.
    Ignore,
}

/// What to do with a received frame: a text frame is a notification when its
/// payload is UTF-8, a ping is answered with a pong, anything else is
/// passed over.
pub fn frame_action(frame: &WsFrame) -> (a: FrameAction)
    ensures
        frame.opcode == OPCODE_TEXT && valid_utf8(frame.payload@) ==> (a matches FrameAction::Notify(s) && s@
            == decode_utf8(frame.payload@)),
        frame.opcode == OPCODE_TEXT && !valid_utf8(frame.payload@) ==> a is BadText,
        frame.opcode == OPCODE_PING ==> (a matches FrameAction::Pong(p) && p@ == pong_frame()),
        frame.opcode != OPCODE_TEXT && frame.opcode != OPCODE_PING ==> a is Ignore,
        action_for(frame.opcode, frame.payload@, a),
{
    if frame.opcode == OPCODE_TEXT {
        match str_from_utf8(frame.payload.as_slice()) {
            Some(text) => FrameAction::Notify(string_of(text)),
            None => FrameAction::BadText,
        }
    } else if frame.opcode == OPCODE_PING {
        let pong: Vec<u8> = vec![0x8a, 0x00];
        proof {
            assert(pong@ =~= pong_frame());
        }
        FrameAction::Pong(pong)
    } else {
        FrameAction::Ignore
    }
}

/// Whether `a` is what a frame with this opcode and payload asks for.
pub open spec fn action_for(opcode: u8, payload: Seq<u8>, a: FrameAction) -> bool {
    if opcode == OPCODE_TEXT {
        if valid_utf8(payload) {
            a matches FrameAction::Notify(s) && s@ == decode_utf8(payload)
        } else {
            a is BadText
        }
    } else if opcode == OPCODE_PING {
        a matches FrameAction::Pong(p) && p@ == pong_frame()
    } else {
        a is Ignore
    }
}

/// The complete frames at the start of a buffer, one after another, each as
/// its opcode and payload.
pub open spec fn frames_in(buf: Seq<u8>) -> Seq<(u8, Seq<u8>)>
    decreases buf.len(),
{
    match frame_extent(buf) {
        Some((h, p)) => if 0 < h + p <= buf.len() {
            seq![(buf[0] & 0x0f, frame_payload(buf, h, p))] + frames_in(buf.skip((h + p) as int))
        } else {
            Seq::empty()
        },
        None => Seq::empty(),
    }
}

/// The bytes those frames take.
pub open spec fn frames_len(buf: Seq<u8>) -> nat
    decreases buf.len(),
{
    match frame_extent(buf) {
        Some((h, p)) => if 0 < h + p <= buf.len() {
            h + p + frames_len(buf.skip((h + p) as int))
        } else {
            0
        },
        None => 0,
    }
}

proof fn lemma_extent_bounds(buf: Seq<u8>)
    ensures
        frame_extent(buf) matches Some((h, p)) ==> 0 < h + p <= buf.len(),
{
}

/// Takes every complete frame at the start of `buf`: what each asks for, in
/// order, and how many bytes they took. Each text frame gives its text, each
/// ping the pong.
pub fn drain_frames(buf: &[u8]) -> (r: (Vec<FrameAction>, usize))
    ensures
        r.0@.len() == frames_in(buf@).len(),
        forall|i: int| 0 <= i < r.0@.len() ==> action_for(frames_in(buf@)[i].0, frames_in(buf@)[i].1, #[trigger] r.0@[i]),
        r.1 == frames_len(buf@),
        r.1 <= buf@.len(),
{
    let mut actions: Vec<FrameAction> = Vec::new();
    let mut pos: usize = 0;
    let ghost mut done: Seq<(u8, Seq<u8>)> = Seq::empty();
    proof {
        assert(buf@.skip(0) =~= buf@);
    }
    loop
        invariant
            pos <= buf@.len(),
            frames_in(buf@) == done + frames_in(buf@.skip(pos as int)),
            frames_len(buf@) == pos + frames_len(buf@.skip(pos as int)),
            actions@.len() == done.len(),
            forall|i: int| 0 <= i < actions@.len() ==> action_for(done[i].0, done[i].1, #[trigger] actions@[i]),
        decreases buf@.len() - pos,
    {
        let rest = &buf[pos..buf.len()];
        proof {
            assert(rest@ =~= buf@.skip(pos as int));
            lemma_extent_bounds(rest@);
        }
        match decode_ws_frame(rest) {
            Some(f) => {
                let ghost item = (f.opcode, f.payload@);
                let ghost old_actions = actions@;
                let a = frame_action(&f);
                actions.push(a);
                proof {
                    let (h, p) = frame_extent(rest@)->0;
                    assert(rest@.skip((h + p) as int) =~= buf@.skip(pos + h + p));
                    assert(frames_in(rest@) == seq![item] + frames_in(rest@.skip((h + p) as int)));
                    assert(done + frames_in(rest@) =~= done.push(item) + frames_in(rest@.skip((h + p) as int)));
                    done = done.push(item);
                    assert forall|i: int| 0 <= i < actions@.len() implies action_for(
                        done[i].0,
                        done[i].1,
                        #[trigger] actions@[i],
                    ) by {
                        if i < old_actions.len() {
                            assert(actions@[i] == old_actions[i]);
                        }
                    }
                }
                pos = pos + f.total_len;
            },
            None => {
                proof {
                    assert(frames_in(rest@) =~= Seq::<(u8, Seq<u8>)>::empty());
                    assert(done + Seq::<(u8, Seq<u8>)>::empty() =~= done);
                }
                return (actions, pos);
            },
        }
    }
}

/// The id of a heartbeat `k` heartbeats after one with id `m`.
pub open spec fn heartbeat_id_after(m: u32, k: nat) -> u32
    decreases k,
{
    if k == 0 {
        m
    } else {
        let prev = heartbeat_id_after(m, (k - 1) as nat);
        if prev == u32::MAX { 0 } else { (prev + 1) as u32 }
    }
}

/// Heartbeat ids rise by one per heartbeat, wrapping past the largest id:
/// `k` heartbeats after id `m` the id is `m + k` modulo 2^32.
pub proof fn law_heartbeat_ids(m: u32, k: nat)
    ensures
        heartbeat_id_after(m, k) as int == (m as int + k as int) % 0x1_0000_0000,
    decreases k,
{
    if k > 0 {
        law_heartbeat_ids(m, (k - 1) as nat);
        let prev = heartbeat_id_after(m, (k - 1) as nat);
        let s = m as int + (k - 1) as int;
        assert(prev as int == s % 0x1_0000_0000);
        if prev == u32::MAX {
            assert((s + 1) % 0x1_0000_0000 == 0) by (nonlinear_arith)
                requires
                    s % 0x1_0000_0000 == 0xffff_ffff,
                    s >= 0,
            ;
        } else {
            assert((s + 1) % 0x1_0000_0000 == s % 0x1_0000_0000 + 1) by (nonlinear_arith)
                requires
                    s % 0x1_0000_0000 < 0xffff_ffff,
                    s >= 0,
            ;
        }
    }
}

/// A frame this side sends is read back as sent: a text frame with a short
/// payload parses to its six header bytes and the payload, and unmasking
/// restores the payload.
pub proof fn law_ws_frame_roundtrip(payload: Seq<u8>)
    requires
        payload.len() < 126,
    ensures
        frame_extent(text_frame(payload)) == Some((6nat, payload.len())),
        text_frame(payload)[0] & 0x0f == 1,
        frame_payload(text_frame(payload), 6, payload.len()) == payload,
{
    let f = text_frame(payload);
    let n = payload.len();
    let l = (n % 256) as u8;
    assert(f[1] == (0x80u8 | l) as u8);
    assert(((0x80u8 | l) as u8) & 0x7f == l && ((0x80u8 | l) as u8) & 0x80 != 0) by (bit_vector)
        requires l < 126u8;
    assert(f[0] & 0x0f == 1) by {
        assert((0x81u8 & 0x0fu8) == 1u8) by (bit_vector);
    }
    let q = frame_payload(f, 6, n);
    assert forall|i: int| 0 <= i < n implies #[trigger] q[i] == payload[i] by {
        let m = mask_key()[i % 4];
        let b = payload[i];
        assert(f[6 + i] == (b ^ m) as u8);
        assert(f[6 - 4 + (i % 4)] == m);
        assert(((b ^ m) as u8 ^ m) as u8 == b) by (bit_vector);
    }
    assert(q =~= payload);
}

/// A frame with a 16-bit extended length: final text opcode, the length
/// marker 126 (with the mask bit when a key is given), the payload length in
/// two bytes, most significant first, then the key if any and the payload.
pub open spec fn frame16(payload: Seq<u8>, key: Option<Seq<u8>>) -> Seq<u8> {
    let n = payload.len();
    let second: u8 = if key is Some { 0xfe } else { 126 };
    seq![0x81u8, second, (n / 256) as u8, (n % 256) as u8] + match key {
        Some(k) => k,
        None => Seq::empty(),
    } + payload
}

/// A frame whose payload takes 126 to 65535 bytes carries its length in two
/// big-endian bytes after the first two: such a frame, received whole, is
/// read as a four-byte header (eight with a masking key) and exactly its
/// payload's length, and an unmasked one gives back its payload.
pub proof fn law_ws_frame16_roundtrip(payload: Seq<u8>, key: Option<Seq<u8>>)
    requires
        126 <= payload.len() <= 0xffff,
        key matches Some(k) ==> k.len() == 4,
    ensures
        frame_extent(frame16(payload, key)) == Some((if key is Some { 8nat } else { 4nat }, payload.len())),
        key is None ==> frame_payload(frame16(payload, key), 4, payload.len()) == payload,
{
    let n = payload.len();
    let f = frame16(payload, key);
    let hi = (n / 256) as u8;
    let lo = (n % 256) as u8;
    assert(n / 256 < 256);
    assert(hi as nat == n / 256);
    assert(lo as nat == n % 256);
    assert(f[1] == if key is Some { 0xfeu8 } else { 126u8 });
    assert(f[2] == hi && f[3] == lo);
    assert((0xfeu8 & 0x7f) == 126u8 && (0xfeu8 & 0x80) != 0u8) by (bit_vector);
    assert((126u8 & 0x7f) == 126u8 && (126u8 & 0x80) == 0u8) by (bit_vector);
    assert(declared_len(f) == (hi as nat) * 256 + lo as nat);
    assert((n / 256) * 256 + n % 256 == n);
    if key is None {
        assert(f.subrange(4, 4 + n as int) =~= payload);
    }
}

/// A leading zero byte does not change a big-endian number.
pub proof fn law_be_leading_zero(b: Seq<u8>)
    ensures
        be_value(seq![0u8] + b) == be_value(b),
{
    law_be_leading_byte(0, b);
    assert(0nat * pow256(b.len()) == 0) by (nonlinear_arith);
}

/// A big-endian number is its leading byte times 256 to the power of the
/// bytes after it, plus the number those bytes write.
pub proof fn law_be_leading_byte(x: u8, b: Seq<u8>)
    ensures
        be_value(seq![x] + b) == (x as nat) * pow256(b.len()) + be_value(b),
    decreases b.len(),
{
    let s = seq![x] + b;
    if b.len() > 0 {
        assert(s.drop_last() =~= seq![x] + b.drop_last());
        assert(s.last() == b.last());
        law_be_leading_byte(x, b.drop_last());
        lemma_pow256_step(b.drop_last().len());
        let p = pow256(b.drop_last().len());
        let r = be_value(b.drop_last());
        assert(be_value(s) == be_value(s.drop_last()) * 256 + s.last() as nat);
        assert(be_value(b) == r * 256 + b.last() as nat);
        assert(((x as nat) * p + r) * 256 + b.last() as nat == (x as nat) * (p * 256) + (r * 256 + b.last() as nat))
            by (nonlinear_arith);
    } else {
        assert(s.drop_last() =~= Seq::<u8>::empty());
        assert(s.last() == x);
        assert(be_value(s) == be_value(s.drop_last()) * 256 + x as nat);
        assert(b =~= Seq::<u8>::empty());
        assert((x as nat) * 1 == x as nat) by (nonlinear_arith);
    }
}

} // verus!
