use vstd::prelude::*;
use vstd::string::{StrSliceExecFns, StringExecFns};
use crate::lockfree_queue::MIDIEventCmd;

verus! {

/// Standard MIDI status nibbles.
#[derive(Debug, Clone, Copy, PartialEq, Eq)]
pub enum MidiStatus {
    NoteOff,
    NoteOn,
    ControlChange,
    PitchBend,
}

pub open spec fn status_code(s: MidiStatus) -> u32 {
    match s {
        MidiStatus::NoteOff => 0x80,
        MidiStatus::NoteOn => 0x90,
        MidiStatus::ControlChange => 0xB0,
        MidiStatus::PitchBend => 0xE0,
    }
}

impl MidiStatus {
    /// The status byte of this message kind (channel nibble zero).
    pub fn as_u32(self) -> (c: u32)
        ensures
            c == status_code(self),
    {
        match self {
            MidiStatus::NoteOff => 0x80,
            MidiStatus::NoteOn => 0x90,
            MidiStatus::ControlChange => 0xB0,
            MidiStatus::PitchBend => 0xE0,
        }
    }
}

/// The `i`-th data byte of `msg`, 0 when absent, with the high bit cleared.
pub open spec fn data_byte(msg: Seq<u8>, i: int) -> u32 {
    if i < msg.len() {
        (msg[i] % 128) as u32
    } else {
        0
    }
}

pub open spec fn event(event_type: u32, pitch: u32, velocity: u32) -> MIDIEventCmd {
    MIDIEventCmd { event_type, pitch, velocity, timestamp_samples: 0 }
}

/// What a raw MIDI message decodes to: note on (velocity 0 read as note
/// off), note off, control change and pitch bend, each needing two data
/// bytes; anything else decodes to nothing.
pub open spec fn spec_parse(msg: Seq<u8>) -> Option<MIDIEventCmd> {
    if msg.len() < 3 {
        None
    } else {
        let status = msg[0] / 16;
        let d1 = data_byte(msg, 1);
        let d2 = data_byte(msg, 2);
        if status == 0x9 {
            if d2 == 0 {
                Some(event(0x80, d1, 0))
            } else {
                Some(event(0x90, d1, d2))
            }
        } else if status == 0x8 {
            Some(event(0x80, d1, d2))
        } else if status == 0xB {
            Some(event(0xB0, d1, d2))
        } else if status == 0xE {
            Some(event(0xE0, (d2 * 128 + d1) as u32, 0))
        } else {
            None
        }
    }
}

/// Law: a decoded event only ever carries one of the four event kinds, a
/// 7-bit pitch and velocity (a 14-bit value for pitch bend) and timestamp 0,
/// whatever bytes arrive.
pub proof fn law_parse_in_range(msg: Seq<u8>)
    ensures
        spec_parse(msg) matches Some(c) ==> {
            &&& c.event_type == 0x80 || c.event_type == 0x90 || c.event_type == 0xB0
                || c.event_type == 0xE0
            &&& c.velocity < 128
            &&& c.pitch < 16384
            &&& c.event_type != 0xE0 ==> c.pitch < 128
            &&& c.timestamp_samples == 0
        },
{
}

/// Law: the channel nibble of the status byte never changes what a message
/// decodes to: messages that differ only in it decode alike.
pub proof fn law_parse_ignores_channel(m1: Seq<u8>, m2: Seq<u8>)
    requires
        m1.len() == m2.len(),
        m1.len() > 0,
        m1[0] / 16 == m2[0] / 16,
        forall|i: int| 1 <= i < m1.len() ==> m1[i] == m2[i],
    ensures
        spec_parse(m1) == spec_parse(m2),
{
}

/// Law: what each kind of three-byte message decodes to, read straight off
/// its bytes: a note on with velocity 0 is a note off on every channel, a
/// note on otherwise; note off and control change keep both data bytes;
/// pitch bend packs them least significant first; other kinds, and shorter
/// messages, decode to nothing. Data bytes lose their high bit.
pub proof fn law_parse_by_kind(msg: Seq<u8>)
    ensures
        msg.len() < 3 ==> spec_parse(msg) is None,
        msg.len() >= 3 ==> {
            let kind = msg[0] / 16;
            let d1 = (msg[1] % 128) as u32;
            let d2 = (msg[2] % 128) as u32;
            &&& kind == 9 && d2 == 0 ==> spec_parse(msg) == Some(
                MIDIEventCmd { event_type: 0x80, pitch: d1, velocity: 0, timestamp_samples: 0 },
            )
            &&& kind == 9 && d2 != 0 ==> spec_parse(msg) == Some(
                MIDIEventCmd { event_type: 0x90, pitch: d1, velocity: d2, timestamp_samples: 0 },
            )
            &&& kind == 8 ==> spec_parse(msg) == Some(
                MIDIEventCmd { event_type: 0x80, pitch: d1, velocity: d2, timestamp_samples: 0 },
            )
            &&& kind == 11 ==> spec_parse(msg) == Some(
                MIDIEventCmd { event_type: 0xB0, pitch: d1, velocity: d2, timestamp_samples: 0 },
            )
            &&& kind == 14 ==> spec_parse(msg) == Some(
                MIDIEventCmd {
                    event_type: 0xE0,
                    pitch: (d2 * 128 + d1) as u32,
                    velocity: 0,
                    timestamp_samples: 0,
                },
            )
            &&& kind != 8 && kind != 9 && kind != 11 && kind != 14 ==> spec_parse(msg) is None
        },
{
}

/// Parse a raw MIDI message into a queue command, or `None` if the
/// message is empty, truncated or of an unsupported kind.
///
/// `NoteOn` with velocity 0 is the running-status form of `NoteOff` and is
/// reported as `NoteOff`. Data bytes are masked to 7 bits.
pub fn parse(msg: &[u8]) -> (r: Option<MIDIEventCmd>)
    ensures
        r == spec_parse(msg@),
{
    if msg.len() == 0 {
        return None;
    }
    let status: u8 = msg[0] & 0xF0;
    let d1: u8 = if msg.len() > 1 { msg[1] & 0x7F } else { 0 };
    let d2: u8 = if msg.len() > 2 { msg[2] & 0x7F } else { 0 };
    proof {
        let b0 = msg@[0];
        assert(b0 & 0xF0 == (b0 / 16) * 16) by (bit_vector);
        if msg.len() > 1 {
            let b1 = msg@[1];
            assert(b1 & 0x7F == b1 % 128) by (bit_vector);
        }
        if msg.len() > 2 {
            let b2 = msg@[2];
            assert(b2 & 0x7F == b2 % 128) by (bit_vector);
        }
    }
    if msg.len() < 3 {
        return None;
    }
    if status == 0x90 {
        let velocity = d2 as u32;
        let event_type = if velocity == 0 {
            MidiStatus::NoteOff.as_u32()
        } else {
            MidiStatus::NoteOn.as_u32()
        };
        Some(MIDIEventCmd { event_type, pitch: d1 as u32, velocity, timestamp_samples: 0 })
    } else if status == 0x80 {
        Some(
            MIDIEventCmd {
                event_type: MidiStatus::NoteOff.as_u32(),
                pitch: d1 as u32,
                velocity: d2 as u32,
                timestamp_samples: 0,
            },
        )
    } else if status == 0xB0 {
        Some(
            MIDIEventCmd {
                event_type: MidiStatus::ControlChange.as_u32(),
                pitch: d1 as u32,
                velocity: d2 as u32,
                timestamp_samples: 0,
            },
        )
    } else if status == 0xE0 {
        let lsb = d1 as u32;
        let msb = d2 as u32;
        proof {
            assert(msb < 128 && lsb < 128);
            assert((msb << 7u32) | lsb == msb * 128 + lsb) by (bit_vector)
                requires
                    msb < 128,
                    lsb < 128,
            ;
        }
        Some(
            MIDIEventCmd {
                event_type: MidiStatus::PitchBend.as_u32(),
                pitch: (msb << 7u32) | lsb,
                velocity: 0,
                timestamp_samples: 0,
            },
        )
    } else {
        None
    }
}

/// `hay` holds `needle` as a contiguous run of characters.
pub open spec fn contains_text(hay: Seq<char>, needle: Seq<char>) -> bool {
    exists|i: int|
        0 <= i && i + needle.len() <= hay.len() && #[trigger] hay.subrange(i, i + needle.len())
            == needle
}

/// The characters of `s`, in order.
fn chars_of(s: &str) -> (v: Vec<char>)
    ensures
        v@ == s@,
{
    let n = s.unicode_len();
    let mut v: Vec<char> = Vec::new();
    let mut i: usize = 0;
    while i < n
        invariant
            n == s@.len(),
            i <= n,
            v@ == s@.take(i as int),
        decreases n - i,
    {
        let c = s.get_char(i);
        v.push(c);
        proof {
            assert(s@.take(i + 1) == s@.take(i as int).push(c));
        }
        i = i + 1;
    }
    proof {
        assert(s@.take(n as int) == s@);
    }
    v
}

/// Whether `hay` holds `needle` as a contiguous run of characters.
pub fn text_contains(hay: &str, needle: &str) -> (b: bool)
    ensures
        b == contains_text(hay@, needle@),
{
    let h = chars_of(hay);
    let w = chars_of(needle);
    let m = w.len();
    if m > h.len() {
        return false;
    }
    let mut i: usize = 0;
    while i <= h.len() - m
        invariant
            h@ == hay@,
            w@ == needle@,
            m == w@.len(),
            m <= h@.len(),
            h@.len() <= usize::MAX,
            i <= h@.len() - m + 1,
            forall|k: int| 0 <= k < i ==> #[trigger] h@.subrange(k, k + m) != w@,
        decreases h@.len() - m + 1 - i,
    {
        let mut j: usize = 0;
        let mut same = true;
        while j < m
            invariant
                h@ == hay@,
                w@ == needle@,
                m == w@.len(),
                i + m <= h@.len(),
                h@.len() <= usize::MAX,
                j <= m,
                same <==> forall|t: int| 0 <= t < j ==> h@[i + t] == w@[t],
            decreases m - j,
        {
            if h[i + j] != w[j] {
                same = false;
            }
            j = j + 1;
        }
        if same {
            proof {
                assert(h@.subrange(i as int, i + m) =~= w@);
            }
            return true;
        }
        proof {
            let t = choose|t: int| 0 <= t < m && h@[i + t] != w@[t];
            assert(h@.subrange(i as int, i + m)[t] == h@[i + t]);
        }
        i = i + 1;
    }
    proof {
        assert forall|k: int| 0 <= k && k + m <= h@.len() implies #[trigger] h@.subrange(k, k + m)
            != w@ by {
            assert(k < i);
        }
    }
    false
}

/// The port called `name` holds `wanted` in its name; a port whose name
/// could not be read holds nothing.
pub open spec fn port_matches(name: Option<String>, wanted: Seq<char>) -> bool {
    match name {
        Some(n) => contains_text(n@, wanted),
        None => false,
    }
}

pub open spec fn msg_port_not_found(wanted: Seq<char>) -> Seq<char> {
    "MIDI port containing '"@ + wanted + "' not found"@
}

/// Choose the MIDI input port to open among ports with the given names
/// (`None` for a name that could not be read): none when there is no port,
/// the first port when no name is wanted, else the first port whose name
/// holds `wanted`; refused when no port's name does.
pub fn choose_port(names: &[Option<String>], wanted: Option<&str>) -> (r: Result<
    Option<usize>,
    String,
>)
    ensures
        match r {
            Ok(None) => names@.len() == 0,
            Ok(Some(i)) => {
                &&& 0 < names@.len()
                &&& i < names@.len()
                &&& match wanted {
                    None => i == 0,
                    Some(w) => {
                        &&& port_matches(names@[i as int], w@)
                        &&& forall|k: int| 0 <= k < i ==> !port_matches(#[trigger] names@[k], w@)
                    },
                }
            },
            Err(e) => {
                &&& 0 < names@.len()
                &&& wanted matches Some(w)
                &&& forall|k: int| 0 <= k < names@.len() ==> !port_matches(#[trigger] names@[k], w@)
                &&& e@ == msg_port_not_found(w@)
            },
        },
{
    if names.len() == 0 {
        return Ok(None);
    }
    match wanted {
        None => Ok(Some(0)),
        Some(w) => {
            let mut i: usize = 0;
            while i < names.len()
                invariant
                    wanted == Some(w),
                    0 < names@.len(),
                    i <= names@.len(),
                    forall|k: int| 0 <= k < i ==> !port_matches(#[trigger] names@[k], w@),
                decreases names@.len() - i,
            {
                let found = match &names[i] {
                    Some(n) => {
                        text_contains(n.as_str(), w)
                    },
                    None => false,
                };
                if found {
                    return Ok(Some(i));
                }
                i = i + 1;
            }
            let mut msg = String::from_str("MIDI port containing '");
            msg.append(w);
            msg.append("' not found");
            Err(msg)
        },
    }
}

} // verus!
