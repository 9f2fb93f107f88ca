//! State of the graphics pipeline channel: capability confirmation, frame
//! numbering and acknowledgements, and the commands that make up a frame.

use vstd::prelude::*;
use crate::gfx_caps::{
    CapabilitySet, CapSpec, caps_view, negotiate_caps, negotiate_prefix, parse_caps_advertise_lenient,
    spec_parse_caps_advertise,
};
use crate::zgfx::{spec_unwrap_zgfx, unwrap_meets_empty_segment, unwrap_zgfx};

verus! {

/// The integer state of the graphics pipeline channel.
pub struct GfxSession {
    pub channel_id: Option<u32>,
    pub surface_created: bool,
    pub caps_confirmed: bool,
    pub frame_id: u32,
    pub avc420_supported: bool,
    /// The client supports AVC444.
    pub avc444_supported: bool,
    /// AVC444 is enabled by configuration.
    pub avc444_enabled: bool,
    pub confirmed_cap: Option<CapabilitySet>,
    pub width: u16,
    pub height: u16,
    /// Frames sent and not yet acknowledged.
    pub pending_acks: u32,
    pub last_ack_frame: u32,
    pub last_frame_bytes: u32,
    pub total_bytes_sent: u64,
    /// `pending_acks` at the previous acknowledgement.
    pub prev_pending_at_ack: u32,
}

/// A copy of a capability set.
pub fn copy_cap(c: &CapabilitySet) -> (r: CapabilitySet)
    ensures
        r@ == c@,
{
    match c {
        CapabilitySet::V8 { flags } => CapabilitySet::V8 { flags: *flags },
        CapabilitySet::V8_1 { flags } => CapabilitySet::V8_1 { flags: *flags },
        CapabilitySet::V10 { flags } => CapabilitySet::V10 { flags: *flags },
        CapabilitySet::V10_1 => CapabilitySet::V10_1,
        CapabilitySet::V10_2 { flags } => CapabilitySet::V10_2 { flags: *flags },
        CapabilitySet::V10_3 { flags } => CapabilitySet::V10_3 { flags: *flags },
        CapabilitySet::V10_4 { flags } => CapabilitySet::V10_4 { flags: *flags },
        CapabilitySet::V10_5 { flags } => CapabilitySet::V10_5 { flags: *flags },
        CapabilitySet::V10_6 { flags } => CapabilitySet::V10_6 { flags: *flags },
        CapabilitySet::V10_6Err { flags } => CapabilitySet::V10_6Err { flags: *flags },
        CapabilitySet::V10_7 { flags } => CapabilitySet::V10_7 { flags: *flags },
        CapabilitySet::Unknown(body) => CapabilitySet::Unknown(vstd::slice::slice_to_vec(body.as_slice())),
    }
}

/// The capability set confirmed for `caps`: the negotiated one, or an empty
/// version-8 set.
pub open spec fn confirmed_for(caps: Seq<CapSpec>) -> CapSpec {
    match negotiate_prefix(caps, caps.len()).best {
        Some(i) => caps[i as int],
        None => CapSpec::V8 { flags: 0 },
    }
}

/// One command of a graphics pipeline frame.
#[derive(Debug, Clone, Copy, PartialEq, Eq, Structural)]
pub enum GfxCommand {
    ResetGraphics { width: u32, height: u32, monitor_right: i32, monitor_bottom: i32 },
    CreateSurface { surface_id: u16, surface_width: u16, surface_height: u16 },
    MapSurfaceToOutput { surface_id: u16, origin_x: u32, origin_y: u32 },
    StartFrame { frame_id: u32 },
    /// H.264 picture: the visible crop and the encoder-aligned destination.
    WireToSurfaceAvc { avc444: bool, crop_right: u16, crop_bottom: u16, dest_right: u16, dest_bottom: u16 },
    /// Uncompressed pixels of the rectangle at `index` of the update.
    WireToSurfaceUncompressed { index: usize, left: u16, top: u16, right: u16, bottom: u16 },
    EndFrame { frame_id: u32 },
}

/// Surface setup that precedes the first frame.
pub open spec fn surface_setup(width: u16, height: u16, surface_width: u16, surface_height: u16) -> Seq<GfxCommand> {
    seq![
        GfxCommand::ResetGraphics {
            width: width as u32,
            height: height as u32,
            monitor_right: (width - 1) as i32,
            monitor_bottom: (height - 1) as i32,
        },
        GfxCommand::CreateSurface { surface_id: 0, surface_width, surface_height },
        GfxCommand::MapSurfaceToOutput { surface_id: 0, origin_x: 0, origin_y: 0 },
    ]
}

/// Setup commands when the surface does not exist yet.
pub open spec fn setup_if_needed(s: GfxSession, surface_width: u16, surface_height: u16) -> Seq<GfxCommand> {
    if s.surface_created {
        seq![]
    } else {
        surface_setup(s.width, s.height, surface_width, surface_height)
    }
}

/// An uncompressed update rectangle.
#[derive(Debug, Clone, Copy, PartialEq, Eq, Structural)]
pub struct UpdateRect {
    pub x: u16,
    pub y: u16,
    pub width: u16,
    pub height: u16,
}

/// The commands for the uncompressed rectangles of `rects`.
pub open spec fn uncompressed_commands(rects: Seq<UpdateRect>) -> Seq<GfxCommand> {
    Seq::new(
        rects.len(),
        |i: int|
            GfxCommand::WireToSurfaceUncompressed {
                index: i as usize,
                left: rects[i].x,
                top: rects[i].y,
                right: (rects[i].x + rects[i].width) as u16,
                bottom: (rects[i].y + rects[i].height) as u16,
            },
    )
}

impl GfxSession {
    pub fn new(width: u16, height: u16, avc444_enabled: bool) -> (s: Self)
        ensures
            s.channel_id is None,
            !s.surface_created,
            !s.caps_confirmed,
            s.frame_id == 0,
            !s.avc420_supported,
            !s.avc444_supported,
            s.avc444_enabled == avc444_enabled,
            s.confirmed_cap is None,
            s.width == width,
            s.height == height,
            s.pending_acks == 0,
            s.last_ack_frame == 0,
            s.last_frame_bytes == 0,
            s.total_bytes_sent == 0,
            s.prev_pending_at_ack == 0,
    {
        GfxSession {
            channel_id: None,
            surface_created: false,
            caps_confirmed: false,
            frame_id: 0,
            avc420_supported: false,
            avc444_supported: false,
            avc444_enabled,
            confirmed_cap: None,
            width,
            height,
            pending_acks: 0,
            last_ack_frame: 0,
            last_frame_bytes: 0,
            total_bytes_sent: 0,
            prev_pending_at_ack: 0,
        }
    }

    /// Frames can be sent: channel open, AVC420 supported, capabilities
    /// confirmed.
    pub fn is_ready(&self) -> (b: bool)
        ensures
            b == (self.channel_id is Some && self.avc420_supported && self.caps_confirmed),
    {
        self.channel_id.is_some() && self.avc420_supported && self.caps_confirmed
    }

    /// The channel opened; nothing else changes.
    pub fn start(&mut self, channel_id: u32)
        ensures
            *final(self) == (GfxSession { channel_id: Some(channel_id), ..*old(self) }),
    {
        self.channel_id = Some(channel_id);
    }

    /// The desktop was resized: the session takes the new size; nothing
    /// else changes.
    pub fn set_size(&mut self, width: u16, height: u16)
        ensures
            *final(self) == (GfxSession { width, height, ..*old(self) }),
    {
        self.width = width;
        self.height = height;
    }

    /// The channel closed: surface and negotiation are forgotten; the
    /// counters, size and configuration stay.
    pub fn close(&mut self)
        ensures
            *final(self) == (GfxSession {
                channel_id: None,
                surface_created: false,
                caps_confirmed: false,
                avc420_supported: false,
                avc444_supported: false,
                confirmed_cap: None,
                ..*old(self)
            }),
    {
        self.channel_id = None;
        self.surface_created = false;
        self.caps_confirmed = false;
        self.avc420_supported = false;
        self.avc444_supported = false;
        self.confirmed_cap = None;
    }

    /// A capabilities advertisement: ignored once confirmed; otherwise the
    /// negotiated set (or an empty version-8 set) is confirmed and returned
    /// for the confirm message, and AVC support recorded.
    pub fn on_caps_advertise(&mut self, caps: &Vec<CapabilitySet>) -> (r: Option<CapabilitySet>)
        ensures
            old(self).caps_confirmed ==> r is None && *final(self) == *old(self),
            !old(self).caps_confirmed ==> ({
                let n = negotiate_prefix(caps_view(caps@), caps@.len());
                &&& r matches Some(c) && c@ == confirmed_for(caps_view(caps@))
                &&& final(self).caps_confirmed
                &&& final(self).confirmed_cap matches Some(c) && c@ == confirmed_for(caps_view(caps@))
                &&& final(self).avc420_supported == (old(self).avc420_supported || n.avc420)
                &&& final(self).avc444_supported == (old(self).avc444_supported || n.avc444)
                &&& *final(self) == (GfxSession {
                    caps_confirmed: true,
                    confirmed_cap: final(self).confirmed_cap,
                    avc420_supported: final(self).avc420_supported,
                    avc444_supported: final(self).avc444_supported,
                    ..*old(self)
                })
            }),
    {
        if self.caps_confirmed {
            return None;
        }
        let neg = negotiate_caps(caps);
        if neg.avc420 {
            self.avc420_supported = true;
        }
        if neg.avc444 {
            self.avc444_supported = true;
        }
        let confirmed = match neg.confirmed {
            Some(i) => {
                proof {
                    crate::gfx_caps::lemma_best_in_range(caps_view(caps@), caps@.len());
                    assert(caps_view(caps@)[i as int] == caps@[i as int]@);
                }
                copy_cap(&caps[i])
            },
            None => CapabilitySet::V8 { flags: 0 },
        };
        let reply = copy_cap(&confirmed);
        self.confirmed_cap = Some(confirmed);
        self.caps_confirmed = true;
        Some(reply)
    }

    /// Number the next frame: it counts as pending, and the previous frame's
    /// bytes go to the running total.
    pub fn next_frame_id(&mut self) -> (id: u32)
        requires
            old(self).frame_id < u32::MAX,
            old(self).pending_acks < u32::MAX,
            old(self).total_bytes_sent + old(self).last_frame_bytes <= u64::MAX,
        ensures
            id == old(self).frame_id + 1,
            *final(self) == (GfxSession {
                frame_id: id,
                pending_acks: (old(self).pending_acks + 1) as u32,
                total_bytes_sent: (old(self).total_bytes_sent + old(self).last_frame_bytes) as u64,
                ..*old(self)
            }),
    {
        self.frame_id = self.frame_id + 1;
        self.pending_acks = self.pending_acks + 1;
        self.total_bytes_sent = self.total_bytes_sent + self.last_frame_bytes as u64;
        self.frame_id
    }

    /// A frame acknowledgement: one fewer pending frame (never below zero).
    /// Returns how much the pending count grew since the previous
    /// acknowledgement, which drives the congestion estimate.
    pub fn ack_frame(&mut self, ack_frame_id: u32) -> (trend_delta: i64)
        ensures
            *final(self) == (GfxSession {
                last_ack_frame: ack_frame_id,
                pending_acks: if old(self).pending_acks > 0 {
                    (old(self).pending_acks - 1) as u32
                } else {
                    0
                },
                prev_pending_at_ack: if old(self).pending_acks > 0 {
                    (old(self).pending_acks - 1) as u32
                } else {
                    0
                },
                ..*old(self)
            }),
            trend_delta == final(self).pending_acks - old(self).prev_pending_at_ack,
    {
        self.last_ack_frame = ack_frame_id;
        if self.pending_acks > 0 {
            self.pending_acks = self.pending_acks - 1;
        }
        let delta: i64 = self.pending_acks as i64 - self.prev_pending_at_ack as i64;
        self.prev_pending_at_ack = self.pending_acks;
        delta
    }

    /// The commands of an H.264 frame: surface setup before the first
    /// frame, then start, the picture (AVC444 when there is an auxiliary
    /// stream and client and configuration allow it), end.
    pub fn plan_frame(&mut self, width: u16, height: u16, enc_width: u16, enc_height: u16, has_aux: bool) -> (cmds: Vec<GfxCommand>)
        requires
            old(self).frame_id < u32::MAX,
            old(self).pending_acks < u32::MAX,
            old(self).total_bytes_sent + old(self).last_frame_bytes <= u64::MAX,
        ensures
            ({
                let id = (old(self).frame_id + 1) as u32;
                cmds@ == setup_if_needed(*old(self), enc_width, enc_height) + seq![
                    GfxCommand::StartFrame { frame_id: id },
                    GfxCommand::WireToSurfaceAvc {
                        avc444: has_aux && old(self).avc444_supported && old(self).avc444_enabled,
                        crop_right: width,
                        crop_bottom: height,
                        dest_right: enc_width,
                        dest_bottom: enc_height,
                    },
                    GfxCommand::EndFrame { frame_id: id },
                ]
            }),
            *final(self) == (GfxSession {
                surface_created: true,
                frame_id: (old(self).frame_id + 1) as u32,
                pending_acks: (old(self).pending_acks + 1) as u32,
                total_bytes_sent: (old(self).total_bytes_sent + old(self).last_frame_bytes) as u64,
                ..*old(self)
            }),
    {
        let mut cmds: Vec<GfxCommand> = Vec::new();
        self.push_setup(&mut cmds, enc_width, enc_height);
        let ghost setup = cmds@;
        let frame_id = self.next_frame_id();
        cmds.push(GfxCommand::StartFrame { frame_id });
        let avc444 = has_aux && self.avc444_supported && self.avc444_enabled;
        cmds.push(GfxCommand::WireToSurfaceAvc {
            avc444,
            crop_right: width,
            crop_bottom: height,
            dest_right: enc_width,
            dest_bottom: enc_height,
        });
        cmds.push(GfxCommand::EndFrame { frame_id });
        cmds
    }

    /// The commands of an uncompressed update: surface setup before the
    /// first frame, then start, one command per rectangle, end.
    pub fn plan_uncompressed(&mut self, width: u16, height: u16, rects: &Vec<UpdateRect>) -> (cmds: Vec<GfxCommand>)
        requires
            old(self).frame_id < u32::MAX,
            old(self).pending_acks < u32::MAX,
            old(self).total_bytes_sent + old(self).last_frame_bytes <= u64::MAX,
            forall|i: int|
                0 <= i < rects@.len() ==> #[trigger] rects@[i].x + rects@[i].width <= u16::MAX
                    && rects@[i].y + rects@[i].height <= u16::MAX,
        ensures
            ({
                let id = (old(self).frame_id + 1) as u32;
                cmds@ == setup_if_needed(*old(self), width, height) + seq![GfxCommand::StartFrame { frame_id: id }]
                    + uncompressed_commands(rects@) + seq![GfxCommand::EndFrame { frame_id: id }]
            }),
            *final(self) == (GfxSession {
                surface_created: true,
                frame_id: (old(self).frame_id + 1) as u32,
                pending_acks: (old(self).pending_acks + 1) as u32,
                total_bytes_sent: (old(self).total_bytes_sent + old(self).last_frame_bytes) as u64,
                ..*old(self)
            }),
    {
        let mut cmds: Vec<GfxCommand> = Vec::new();
        self.push_setup(&mut cmds, width, height);
        let frame_id = self.next_frame_id();
        cmds.push(GfxCommand::StartFrame { frame_id });
        let ghost head = cmds@;
        let mut i: usize = 0;
        while i < rects.len()
            invariant
                i <= rects@.len(),
                forall|j: int|
                    0 <= j < rects@.len() ==> #[trigger] rects@[j].x + rects@[j].width <= u16::MAX
                        && rects@[j].y + rects@[j].height <= u16::MAX,
                cmds@ == head + uncompressed_commands(rects@.take(i as int)),
            decreases rects.len() - i,
        {
            let r = rects[i];
            cmds.push(GfxCommand::WireToSurfaceUncompressed {
                index: i,
                left: r.x,
                top: r.y,
                right: r.x + r.width,
                bottom: r.y + r.height,
            });
            assert(cmds@ =~= head + uncompressed_commands(rects@.take(i + 1)));
            i = i + 1;
        }
        assert(rects@.take(rects@.len() as int) =~= rects@);
        cmds.push(GfxCommand::EndFrame { frame_id });
        cmds
    }

    /// Pushes the surface setup when the surface does not exist yet, and
    /// marks it created.
    fn push_setup(&mut self, cmds: &mut Vec<GfxCommand>, surface_width: u16, surface_height: u16)
        ensures
            final(cmds)@ == old(cmds)@ + setup_if_needed(*old(self), surface_width, surface_height),
            *final(self) == (GfxSession { surface_created: true, ..*old(self) }),
    {
        if !self.surface_created {
            let w = self.width;
            let h = self.height;
            cmds.push(GfxCommand::ResetGraphics {
                width: w as u32,
                height: h as u32,
                monitor_right: w as i32 - 1,
                monitor_bottom: h as i32 - 1,
            });
            cmds.push(GfxCommand::CreateSurface { surface_id: 0, surface_width, surface_height });
            cmds.push(GfxCommand::MapSurfaceToOutput { surface_id: 0, origin_x: 0, origin_y: 0 });
            self.surface_created = true;
        }
    }
}

/// Encoded bytes of one graphics pipeline message, sent as they are.
pub struct RawGfxPdu(pub Vec<u8>);

impl RawGfxPdu {
    /// Name of the message kind, for diagnostics.
    pub fn name(&self) -> (n: &'static str)
        ensures
            n@ == "GfxServerPdu"@,
    {
        "GfxServerPdu"
    }

    /// Encoded size: the number of bytes held.
    pub fn size(&self) -> (n: usize)
        ensures
            n == self.0@.len(),
    {
        self.0.len()
    }
}

/// A client message as the PDU decoder delivered it.
pub enum DecodedClientPdu {
    CapabilitiesAdvertise(Vec<CapabilitySet>),
    FrameAcknowledge { frame_id: u32 },
    /// The decoder refused the data.
    Failed,
}

/// The client message the channel acts on.
pub enum ClientMessage {
    CapabilitiesAdvertise(Vec<CapabilitySet>),
    FrameAcknowledge { frame_id: u32 },
    /// Nothing to act on.
    Ignored,
}

/// The bytes a client payload carries: its segmented-data content when it
/// unwraps as such, else the payload itself. A payload with an empty
/// segment is refused by `requires`; [`crate::zgfx::zgfx_has_empty_segment`]
/// tells it.
pub fn client_payload_data(payload: &[u8]) -> (d: Vec<u8>)
    requires
        !unwrap_meets_empty_segment(payload@),
    ensures
        d@ == match spec_unwrap_zgfx(payload@) {
            Some(content) => content,
            None => payload@,
        },
{
    match unwrap_zgfx(payload) {
        Some(content) => content,
        None => {
            let mut d: Vec<u8> = Vec::new();
            let mut i: usize = 0;
            while i < payload.len()
                invariant
                    i <= payload@.len(),
                    d@ == payload@.take(i as int),
                decreases payload.len() - i,
            {
                d.push(payload[i]);
                assert(d@ =~= payload@.take(i + 1));
                i = i + 1;
            }
            assert(payload@.take(payload@.len() as int) =~= payload@);
            d
        },
    }
}

/// The message to act on: what the decoder gave; when it refused the data,
/// a capabilities advertisement (first byte `0x12`) that the lenient parser
/// reads, and otherwise nothing.
pub fn client_message(data: &[u8], decoded: DecodedClientPdu) -> (m: ClientMessage)
    ensures
        match decoded {
            DecodedClientPdu::CapabilitiesAdvertise(caps) => m matches ClientMessage::CapabilitiesAdvertise(
                v,
            ) && v@ == caps@,
            DecodedClientPdu::FrameAcknowledge { frame_id } => m matches ClientMessage::FrameAcknowledge {
                frame_id: f,
            } && f == frame_id,
            DecodedClientPdu::Failed => if data@.len() > 0 && data@[0] == 0x12 && spec_parse_caps_advertise(
                data@,
            ) is Some {
                m matches ClientMessage::CapabilitiesAdvertise(v) && spec_parse_caps_advertise(data@) == Some(
                    caps_view(v@),
                )
            } else {
                m is Ignored
            },
        },
{
    match decoded {
        DecodedClientPdu::CapabilitiesAdvertise(caps) => ClientMessage::CapabilitiesAdvertise(caps),
        DecodedClientPdu::FrameAcknowledge { frame_id } => ClientMessage::FrameAcknowledge { frame_id },
        DecodedClientPdu::Failed => {
            if data.len() > 0 && data[0] == 0x12 {
                match parse_caps_advertise_lenient(data) {
                    Some(caps) => ClientMessage::CapabilitiesAdvertise(caps),
                    None => ClientMessage::Ignored,
                }
            } else {
                ClientMessage::Ignored
            }
        },
    }
}

} // verus!
