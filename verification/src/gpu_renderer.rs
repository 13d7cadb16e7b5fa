//! The renderer's part that is no GPU work: which output it drives, which of
//! its two buffers is on display, and what went wrong.

use crate::abort_guard::{enter_frame, leave_frame, GuardState};
#[allow(unused_imports)]
use vstd::string::*;
use vstd::prelude::*;

verus! {

/// What can go wrong, with the words of what failed.
#[derive(Clone, Debug)]
pub enum GpuError {
    Io(String),
    Egl(String),
    Gles(String),
    Gbm(String),
}

impl GpuError {
    /// The message of an error.
    pub open spec fn text(self) -> Seq<char> {
        match self {
            GpuError::Io(e) => "IO: "@ + e@,
            GpuError::Egl(e) => "EGL: "@ + e@,
            GpuError::Gles(e) => "GLES: "@ + e@,
            GpuError::Gbm(e) => "GBM: "@ + e@,
        }
    }

    /// The message of the error.
    pub fn message(&self) -> (message: String)
        ensures
            message@ == self.text(),
    {
        match self {
            GpuError::Io(e) => "IO: ".to_owned().concat(e.as_str()),
            GpuError::Egl(e) => "EGL: ".to_owned().concat(e.as_str()),
            GpuError::Gles(e) => "GLES: ".to_owned().concat(e.as_str()),
            GpuError::Gbm(e) => "GBM: ".to_owned().concat(e.as_str()),
        }
    }
}

/// A display mode.
#[derive(Clone, Copy, Debug, PartialEq, Eq, Structural)]
pub struct Mode {
    pub width: u16,
    pub height: u16,
    pub refresh: u32,
}

/// The connector and the CRTC of a lease, by their handles.
#[derive(Clone, Copy, Debug, PartialEq, Eq, Structural)]
pub struct Output {
    pub connector: u32,
    pub crtc: u32,
}

/// The size of the physical output in pixels.
#[derive(Clone, Copy, Debug, PartialEq, Eq, Structural)]
pub struct OutputSize {
    pub w: i32,
    pub h: i32,
}

/// Picks the output of a lease: its first connector and its first CRTC.
pub fn probe_output(connectors: &Vec<u32>, crtcs: &Vec<u32>) -> (output: Result<Output, GpuError>)
    ensures
        connectors@.len() > 0 && crtcs@.len() > 0 ==> output == Ok::<Output, GpuError>(
            Output { connector: connectors@[0], crtc: crtcs@[0] },
        ),
        connectors@.len() == 0 || crtcs@.len() == 0 ==> (output matches Err(GpuError::Gbm(e)) && e@
            == "lease has no connectors or CRTCs"@),
{
    if connectors.len() == 0 || crtcs.len() == 0 {
        return Err(GpuError::Gbm("lease has no connectors or CRTCs".to_owned()));
    }
    Ok(Output { connector: connectors[0], crtc: crtcs[0] })
}

/// A brightness to scale the gamma ramp of the CRTC to.
#[derive(Clone, Copy, Debug, PartialEq, Eq, Structural)]
pub struct GammaRequest {
    /// The CRTC whose ramp is scaled.
    pub crtc: u32,
    /// The brightness in percent, at most 100.
    pub percent: u8,
    /// The number of entries of the ramp.
    pub size: usize,
}

/// A double-buffered renderer for one output.
#[derive(Clone, Copy, Debug, PartialEq, Eq, Structural)]
pub struct GpuRenderer {
    /// The buffer on display, 0 or 1.
    front: usize,
    output: Output,
    mode: Mode,
}

impl GpuRenderer {
    /// There are two buffers.
    pub closed spec fn valid(self) -> bool {
        self.front < 2
    }

    /// The buffer on display.
    pub closed spec fn front_spec(self) -> usize {
        self.front
    }

    /// The buffer that is drawn to.
    pub open spec fn back_spec(self) -> usize {
        (1 - self.front_spec()) as usize
    }

    /// The output that the renderer drives.
    pub closed spec fn output_spec(self) -> Output {
        self.output
    }

    /// The mode that the output runs in.
    pub closed spec fn mode_spec(self) -> Mode {
        self.mode
    }

    /// The renderer with its buffers exchanged.
    pub closed spec fn flipped(self) -> GpuRenderer {
        GpuRenderer { front: self.back_spec(), ..self }
    }

    /// A renderer for `output` in the first of the modes that its connector
    /// offers, with the first buffer on display.
    pub fn new(output: Output, modes: &Vec<Mode>) -> (renderer: Result<GpuRenderer, GpuError>)
        ensures
            modes@.len() > 0 ==> (renderer matches Ok(r) && r.valid() && r.front_spec() == 0
                && r.output_spec() == output && r.mode_spec() == modes@[0]),
            modes@.len() == 0 ==> (renderer matches Err(GpuError::Gbm(e)) && e@
                == "connector has no modes"@),
    {
        if modes.len() == 0 {
            return Err(GpuError::Gbm("connector has no modes".to_owned()));
        }
        Ok(GpuRenderer { front: 0, output, mode: modes[0] })
    }

    /// The size of the output, in its native orientation.
    pub fn output_size(&self) -> (size: OutputSize)
        ensures
            size.w == self.mode_spec().width,
            size.h == self.mode_spec().height,
    {
        OutputSize { w: self.mode.width as i32, h: self.mode.height as i32 }
    }

    /// The connector of the output.
    pub fn connector(&self) -> (handle: u32)
        ensures
            handle == self.output_spec().connector,
    {
        self.output.connector
    }

    /// The CRTC of the output.
    pub fn crtc(&self) -> (handle: u32)
        ensures
            handle == self.output_spec().crtc,
    {
        self.output.crtc
    }

    /// The mode of the output.
    pub fn mode(&self) -> (mode: Mode)
        ensures
            mode == self.mode_spec(),
    {
        self.mode
    }

    /// The buffer on display.
    pub fn front(&self) -> (index: usize)
        ensures
            index == self.front_spec(),
    {
        self.front
    }

    /// What the gamma ramp of the output is scaled to for a brightness of
    /// `percent`; nothing where the CRTC has no ramp.
    pub fn set_brightness(&self, percent: u8, gamma_length: usize) -> (request: Option<
        GammaRequest,
    >)
        ensures
            request == (if gamma_length == 0 {
                None
            } else {
                Some(
                    GammaRequest {
                        crtc: self.output_spec().crtc,
                        percent: if percent < 100 {
                            percent
                        } else {
                            100
                        },
                        size: gamma_length,
                    },
                )
            }),
    {
        if gamma_length == 0 {
            return None;
        }
        let percent: u8 = if percent < 100 {
            percent
        } else {
            100
        };
        Some(GammaRequest { crtc: self.output.crtc, percent, size: gamma_length })
    }

    /// Begins a frame: sets the recovery point and gives the buffer to draw to.
    /// `jumped` is what setting the recovery point returned; where it is not
    /// zero, the GPU was reset in the midst of the frame.
    pub fn begin_frame(&self, guard: &mut GuardState, jumped: i32) -> (back: Result<
        usize,
        GpuError,
    >)
        requires
            self.valid(),
        ensures
            *final(guard) == (GuardState { recovery_active: jumped == 0, ..*old(guard) }),
            jumped == 0 ==> back == Ok::<usize, GpuError>(self.back_spec()),
            self.back_spec() < 2,
            self.back_spec() != self.front_spec(),
            jumped != 0 ==> (back matches Err(GpuError::Gbm(e)) && e@
                == "GPU reset (signal recovery)"@),
    {
        if enter_frame(guard, jumped) {
            Ok(1 - self.front)
        } else {
            Err(GpuError::Gbm("GPU reset (signal recovery)".to_owned()))
        }
    }

    /// Ends a frame: gives the recovery point up, and puts the buffer that was
    /// drawn to on display where `outcome` says that it was drawn and shown.
    pub fn render_frame(
        &mut self,
        guard: &mut GuardState,
        outcome: Result<(), GpuError>,
    ) -> (result: Result<(), GpuError>)
        requires
            old(self).valid(),
        ensures
            result == outcome,
            *final(guard) == (GuardState { recovery_active: false, ..*old(guard) }),
            *final(self) == (if outcome is Ok {
                old(self).flipped()
            } else {
                *old(self)
            }),
            final(self).front_spec() == (if outcome is Ok {
                old(self).back_spec()
            } else {
                old(self).front_spec()
            }),
            final(self).output_spec() == old(self).output_spec(),
            final(self).mode_spec() == old(self).mode_spec(),
            final(self).valid(),
    {
        if outcome.is_ok() {
            self.front = 1 - self.front;
        }
        leave_frame(guard);
        outcome
    }
}

/// Of a valid renderer: it has the two buffers 0 and 1, the one that is drawn to
/// is not the one on display, and exchanging them puts the drawn one on display
/// and changes neither the output nor its mode; exchanging them twice changes
/// nothing.
pub proof fn shown_frame_exchanges_the_buffers(renderer: GpuRenderer)
    requires
        renderer.valid(),
    ensures
        renderer.front_spec() < 2,
        renderer.back_spec() == 1 - renderer.front_spec(),
        renderer.back_spec() != renderer.front_spec(),
        renderer.flipped().valid(),
        renderer.flipped().front_spec() == renderer.back_spec(),
        renderer.flipped().back_spec() == renderer.front_spec(),
        renderer.flipped().output_spec() == renderer.output_spec(),
        renderer.flipped().mode_spec() == renderer.mode_spec(),
        renderer.flipped().flipped() == renderer,
{
}

/// The renderer after frames with these outcomes.
pub open spec fn after_frames(renderer: GpuRenderer, shown: Seq<bool>) -> GpuRenderer
    decreases shown.len(),
{
    if shown.len() == 0 {
        renderer
    } else {
        let before = after_frames(renderer, shown.drop_last());
        if shown.last() {
            before.flipped()
        } else {
            before
        }
    }
}

/// How many of the outcomes are successes.
pub open spec fn successes(shown: Seq<bool>) -> nat
    decreases shown.len(),
{
    if shown.len() == 0 {
        0
    } else if shown.last() {
        successes(shown.drop_last()) + 1
    } else {
        successes(shown.drop_last())
    }
}

/// The buffer on display is never the one that is drawn to; each frame that is
/// shown exchanges the two and a frame that fails leaves the picture as it is;
/// the output and its mode never change.
pub proof fn buffers_alternate(renderer: GpuRenderer, shown: Seq<bool>)
    requires
        renderer.valid(),
    ensures
        ({
            let r = after_frames(renderer, shown);
            &&& r.valid()
            &&& r.front_spec() as nat == (renderer.front_spec() + successes(shown)) % 2
            &&& r.back_spec() < 2
            &&& r.back_spec() != r.front_spec()
            &&& r.output_spec() == renderer.output_spec()
            &&& r.mode_spec() == renderer.mode_spec()
        }),
    decreases shown.len(),
{
    if shown.len() > 0 {
        buffers_alternate(renderer, shown.drop_last());
    }
}

/// The message of an error names what failed, then gives its own words.
pub proof fn message_names_what_failed(words: String)
    ensures
        GpuError::Io(words).text() == "IO: "@ + words@,
        GpuError::Egl(words).text() == "EGL: "@ + words@,
        GpuError::Gles(words).text() == "GLES: "@ + words@,
        GpuError::Gbm(words).text() == "GBM: "@ + words@,
{
}

} // verus!
