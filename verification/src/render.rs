//! The render loop.
//!
//! The display is slow, so it is redrawn only when there is something new.
//! Once at startup the whole screen is drawn. After that the loop polls the
//! status channel at a fixed period and, when a text is pending, refreshes the
//! one region that shows it. Every frame is sent under an access to the shared
//! bus that is acquired for it and given back when it ends. A frame that fails
//! is dropped: it is counted, not repeated, and the loop goes on.
//!
//! Drawing and refreshing are the caller's part. This module decides what is
//! drawn and when.

use vstd::prelude::*;
use embedded_graphics::geometry::{Point, Size};
use embedded_graphics::primitives::Rectangle;
use uc8151::UpdateRegion;
use crate::bounded::text_of;
use crate::bus::{acquired, released, BusArbiter, BusHandle, ScopedBusAccess};
use crate::status::{polled, Snapshot, StatusChannel};

verus! {

/// Width of the display in pixels.
pub const DISPLAY_WIDTH: u32 = 296;

/// Height of the display in pixels.
pub const DISPLAY_HEIGHT: u32 = 128;

/// Height in pixels of the strip at the top that shows the status text.
pub const STATUS_HEIGHT: u32 = 24;

/// Pause between two polls of the status channel, in milliseconds.
pub const RENDER_PERIOD_MS: u64 = 100;

/// A rectangle that the display can refresh on its own: it has no negative
/// coordinate, its top edge and its height are multiples of eight, it is not
/// empty, and it lies on the screen.
pub open spec fn refreshable(x: int, y: int, width: int, height: int) -> bool {
    &&& 0 <= x
    &&& 0 <= y
    &&& y % 8 == 0
    &&& height % 8 == 0
    &&& 1 <= width
    &&& 1 <= height
    &&& x + width <= DISPLAY_WIDTH
    &&& y + height <= DISPLAY_HEIGHT
}

/// A rectangle on the display, in pixels.
#[derive(Clone, Copy, Debug, PartialEq, Eq, Structural)]
pub struct Region {
    pub x: u32,
    pub y: u32,
    pub width: u32,
    pub height: u32,
}

/// The whole screen.
pub open spec fn full_screen() -> Region {
    Region { x: 0, y: 0, width: DISPLAY_WIDTH, height: DISPLAY_HEIGHT }
}

/// The strip at the top of the screen that shows the status text.
pub open spec fn status_strip() -> Region {
    Region { x: 0, y: 0, width: DISPLAY_WIDTH, height: STATUS_HEIGHT }
}

impl Region {
    /// Whether the display can refresh this region on its own.
    pub open spec fn valid(self) -> bool {
        refreshable(self.x as int, self.y as int, self.width as int, self.height as int)
    }

    /// The region with its top left corner at (`x`, `y`) and the given size,
    /// if the display can refresh it on its own.
    pub fn new(x: i32, y: i32, width: u32, height: u32) -> (region: Option<Region>)
        ensures
            region is Some <==> refreshable(x as int, y as int, width as int, height as int),
            region matches Some(r) ==> r.x == x && r.y == y && r.width == width && r.height
                == height && r.valid(),
    {
        if !driver_accepts(x, y, width, height) {
            return None;
        }
        let screen_width = display_width();
        let screen_height = display_height();
        let left = x as u32;
        let top = y as u32;
        if width == 0 || height == 0 {
            return None;
        }
        if left > screen_width || width > screen_width - left {
            return None;
        }
        if top > screen_height || height > screen_height - top {
            return None;
        }
        Some(Region { x: left, y: top, width, height })
    }

    /// The whole screen.
    pub fn whole_screen() -> (region: Region)
        ensures
            region == full_screen(),
            region.valid(),
    {
        Region::new(0, 0, display_width(), display_height()).unwrap()
    }

    /// The strip at the top of the screen that shows the status text.
    pub fn status_line() -> (region: Region)
        ensures
            region == status_strip(),
            region.valid(),
    {
        Region::new(0, 0, display_width(), STATUS_HEIGHT).unwrap()
    }
}

/// What the caller is to draw next. A frame comes with the access to the bus
/// that was acquired for it, to be handed back with
/// [`RenderLoop::frame_done`] when the frame has been sent or has failed.
#[derive(Debug)]
pub enum RenderAction {
    /// Draw the fixed content and refresh the whole display.
    FullRedraw { access: ScopedBusAccess },
    /// Draw `text` into `region` and refresh that region only.
    PartialRedraw { region: Region, text: Snapshot, access: ScopedBusAccess },
    /// Nothing can be drawn now: no text is pending, or the bus is in use.
    Wait,
}

impl RenderAction {
    /// How long the loop pauses after this action, in milliseconds: the first
    /// poll follows the startup frame at once, and every poll is followed by
    /// one period of rest.
    pub open spec fn pause(self) -> u64 {
        match self {
            RenderAction::FullRedraw { access } => 0,
            _ => RENDER_PERIOD_MS,
        }
    }

    /// How long the loop pauses after this action, in milliseconds.
    pub fn pause_ms(&self) -> (millis: u64)
        ensures
            millis == self.pause(),
    {
        match self {
            RenderAction::FullRedraw { access } => 0,
            _ => RENDER_PERIOD_MS,
        }
    }
}

/// What can be observed of a render loop.
pub struct RenderModel {
    /// The chip-select line of the display.
    pub line: u8,
    /// The region drawn last, or `None` before the startup frame.
    pub last_region: Option<Region>,
    /// How many frames have failed and were dropped.
    pub dropped: nat,
}

/// The state of the render loop.
pub struct RenderLoop {
    display: BusHandle,
    last_region: Option<Region>,
    dropped: u32,
}

impl View for RenderLoop {
    type V = RenderModel;

    closed spec fn view(&self) -> RenderModel {
        RenderModel {
            line: self.display.line(),
            last_region: self.last_region,
            dropped: self.dropped as nat,
        }
    }
}

impl RenderLoop {
    /// A loop for the display behind `display`, with nothing drawn yet.
    pub fn new(display: BusHandle) -> (state: Self)
        ensures
            state@ == (RenderModel { line: display.line(), last_region: None, dropped: 0 }),
    {
        RenderLoop { display, last_region: None, dropped: 0 }
    }

    /// The region drawn last, or `None` before the startup frame.
    pub fn last_region(&self) -> (region: Option<Region>)
        ensures
            region == self@.last_region,
    {
        self.last_region
    }

    /// How many frames have failed and were dropped. The count stops at
    /// `u32::MAX`.
    pub fn dropped_frames(&self) -> (count: u32)
        ensures
            count == self@.dropped,
    {
        self.dropped
    }

    /// Decides the next frame.
    ///
    /// Before anything was drawn, the frame is the whole screen, whatever the
    /// channel holds, and the channel is left alone. After that, the frame is
    /// the status strip with the pending text, and the channel is polled for
    /// it. Either frame needs the bus: it is acquired for the display, and
    /// while another device holds it there is no frame, and nothing changes:
    /// a pending text stays pending.
    pub fn tick(
        &mut self,
        channel: &mut StatusChannel,
        arbiter: &mut BusArbiter,
    ) -> (action: RenderAction)
        ensures
            final(self)@.line == old(self)@.line,
            final(self)@.dropped == old(self)@.dropped,
            old(self)@.last_region is None && old(arbiter)@.holder is None ==> {
                &&& action matches RenderAction::FullRedraw { access }
                &&& access.line() == old(self)@.line
                &&& final(self)@.last_region == Some(full_screen())
                &&& final(channel)@ == old(channel)@
                &&& final(arbiter)@ == acquired(old(arbiter)@, old(self)@.line)
            },
            old(self)@.last_region is Some && old(arbiter)@.holder is None
                && old(channel)@.dirty ==> {
                &&& action matches RenderAction::PartialRedraw { region, text, access }
                &&& region == status_strip()
                &&& text_of(text) == old(channel)@.text
                &&& access.line() == old(self)@.line
                &&& final(self)@.last_region == Some(status_strip())
                &&& final(channel)@ == polled(old(channel)@)
                &&& final(arbiter)@ == acquired(old(arbiter)@, old(self)@.line)
            },
            old(arbiter)@.holder is Some || (old(self)@.last_region is Some && !old(
                channel,
            )@.dirty) ==> {
                &&& action is Wait
                &&& final(self)@ == old(self)@
                &&& final(channel)@ == old(channel)@
                &&& final(arbiter)@ == old(arbiter)@
            },
    {
        let first = self.last_region.is_none();
        if !first && !channel.is_dirty() {
            return RenderAction::Wait;
        }
        match arbiter.acquire(&self.display) {
            None => RenderAction::Wait,
            Some(access) => {
                if first {
                    self.last_region = Some(Region::whole_screen());
                    RenderAction::FullRedraw { access }
                } else {
                    let region = Region::status_line();
                    self.last_region = Some(region);
                    let text = channel.poll_and_take().unwrap();
                    RenderAction::PartialRedraw { region, text, access }
                }
            },
        }
    }

    /// Ends a frame: gives the bus back, whether the frame was drawn or
    /// failed, and says whether there is a failure to log. A failed frame is
    /// counted and dropped: what the loop draws next does not depend on it.
    pub fn frame_done(
        &mut self,
        arbiter: &mut BusArbiter,
        access: ScopedBusAccess,
        drawn: bool,
    ) -> (failed: bool)
        ensures
            failed == !drawn,
            final(arbiter)@ == released(old(arbiter)@, access.line()),
            final(arbiter)@.wf(),
            final(self)@.line == old(self)@.line,
            final(self)@.last_region == old(self)@.last_region,
            final(self)@.dropped == if drawn || old(self)@.dropped == u32::MAX {
                old(self)@.dropped
            } else {
                old(self)@.dropped + 1
            },
    {
        let _freed = arbiter.release(access);
        if !drawn && self.dropped < u32::MAX {
            self.dropped = self.dropped + 1;
        }
        !drawn
    }
}

/// `uc8151::UpdateRegion::try_from` on an `embedded_graphics` rectangle: the
/// driver takes a rectangle for a partial refresh when neither coordinate of
/// its top left corner is negative and both its top edge and its height are
/// multiples of eight.
#[verifier::external_body]
fn driver_accepts(x: i32, y: i32, width: u32, height: u32) -> (accepted: bool)
    ensures
        accepted == (x >= 0 && y >= 0 && y % 8 == 0 && height % 8 == 0),
{
    let rectangle = Rectangle::new(Point::new(x, y), Size::new(width, height));
    UpdateRegion::try_from(rectangle).is_ok()
}

/// `uc8151::WIDTH`: the width of the display in pixels.
#[verifier::external_body]
fn display_width() -> (width: u32)
    ensures
        width == DISPLAY_WIDTH,
{
    uc8151::WIDTH
}

/// `uc8151::HEIGHT`: the height of the display in pixels.
#[verifier::external_body]
fn display_height() -> (height: u32)
    ensures
        height == DISPLAY_HEIGHT,
{
    uc8151::HEIGHT
}

} // verus!
