//! The three facades that the application is written against. Whatever stands
//! behind them, real peripherals or stand-ins on a desk, the run loop sees
//! only these.
//!
//! Each facade has a model, and its operations are stated over it: the keys
//! that wait at the keypad, the frame drawn and the frame shown by the
//! display, the memory that the system has. A driver says what its model is;
//! the run loop is proved against the models alone, and so holds of every
//! driver that keeps to them.

use crate::frame::{
    filled, plotted_all, surface_area, text_shown, Alignment, Color, Pixel, Rectangle,
};
pub use crate::key::Key;
use vstd::prelude::*;

verus! {

/// The hardware of the device: each handle is owned by the run loop alone.
pub struct Hardware<D, KB, SYS> {
    pub display: D,
    pub keypad: KB,
    pub system: SYS,
}

/// What is left of a queue of keys after the first was taken.
pub open spec fn keys_after_read(pending: Seq<Key>) -> Seq<Key> {
    if pending.len() > 0 {
        pending.skip(1)
    } else {
        pending
    }
}

/// The consuming end of the event channel, decoded into keys.
pub trait KeypadDriver {
    /// The keys that wait to be read, oldest first. A driver states its own.
    open spec fn pending(&self) -> Seq<Key> {
        arbitrary()
    }

    /// The time, in milliseconds, for which the driver was last asked to
    /// wait, if it ever was. A driver states its own.
    open spec fn asked(&self) -> Option<u64> {
        arbitrary()
    }

    /// Takes the oldest waiting key without waiting for one. A key is handed
    /// out once: it is gone from the queue when it has been read.
    fn read_key(&mut self) -> (key: Option<Key>)
        ensures
            key is Some <==> old(self).pending().len() > 0,
            key is Some ==> key == Some(old(self).pending()[0]),
            final(self).pending() == keys_after_read(old(self).pending()),
            final(self).asked() == old(self).asked(),
    ;

    /// Waits until a key is waiting or `timeout_ms` have passed, and says
    /// whether one is waiting now. Nothing is taken from the queue; keys may
    /// have arrived at its back.
    fn wait_for_key(&mut self, timeout_ms: u64) -> (ready: bool)
        ensures
            old(self).pending().is_prefix_of(final(self).pending()),
            ready ==> final(self).pending().len() > 0,
            final(self).asked() == Some(timeout_ms),
    ;
}

/// A two-tone surface that is drawn on and then committed to the panel.
pub trait DisplayDriver {
    /// The frame as drawn so far. A driver states its own.
    open spec fn surface(&self) -> Seq<u8> {
        arbitrary()
    }

    /// The frame that the panel shows. A driver states its own.
    open spec fn visible(&self) -> Seq<u8> {
        arbitrary()
    }

    /// How often the surface was committed. A driver states its own.
    open spec fn committed(&self) -> nat {
        arbitrary()
    }

    /// How often a full refresh cycle was asked for. A driver states its own.
    open spec fn refreshed(&self) -> nat {
        arbitrary()
    }

    /// The rectangle of the surface: the panel's own resolution, the same for
    /// as long as the handle lives.
    fn bounding_box(&self) -> (area: Rectangle)
        ensures
            area == surface_area(),
    ;

    /// Gives every pixel of the surface one colour.
    fn clear(&mut self, color: Color)
        ensures
            final(self).surface() == filled(color),
            final(self).visible() == old(self).visible(),
            final(self).committed() == old(self).committed(),
            final(self).refreshed() == old(self).refreshed(),
    ;

    /// Plots the pixels in turn. Pixels off the surface are passed over.
    fn draw_iter(&mut self, pixels: &[Pixel])
        ensures
            final(self).surface() == plotted_all(old(self).surface(), pixels@),
            final(self).visible() == old(self).visible(),
            final(self).committed() == old(self).committed(),
            final(self).refreshed() == old(self).refreshed(),
    ;

    /// Draws a line of text in black, anchored at `(x, y)`. A text beyond the
    /// limits of one call is not drawn.
    fn draw_text(&mut self, text: &str, x: i32, y: i32, alignment: Alignment)
        ensures
            final(self).surface() == text_shown(
                old(self).surface(),
                text@,
                x as int,
                y as int,
                alignment,
            ),
            final(self).visible() == old(self).visible(),
            final(self).committed() == old(self).committed(),
            final(self).refreshed() == old(self).refreshed(),
    ;

    /// Commits the surface: the panel shows what was drawn, and one more
    /// commit is counted. Nothing that is drawn shows before it is committed.
    fn update(&mut self)
        ensures
            final(self).surface() == old(self).surface(),
            final(self).visible() == old(self).surface(),
            final(self).committed() == old(self).committed() + 1,
            final(self).refreshed() == old(self).refreshed(),
    ;

    /// Runs a full refresh cycle of the panel, where the panel has one, and
    /// counts it. The surface stays as drawn, and the panel shows what it
    /// showed or what is drawn; this is no commit. A driver whose panel has
    /// no such cycle does nothing to the panel.
    fn refresh(&mut self)
        ensures
            final(self).surface() == old(self).surface(),
            final(self).visible() == old(self).visible() || final(self).visible() == old(
                self,
            ).surface(),
            final(self).committed() == old(self).committed(),
            final(self).refreshed() == old(self).refreshed() + 1,
    ;
}

/// Coarse telemetry of the device. Each call samples anew.
pub trait SystemDriver {
    /// The memory of the device, in bytes. A driver states its own.
    open spec fn capacity(&self) -> u64 {
        arbitrary()
    }

    /// The memory that was in use when it was last sampled. A driver states
    /// its own.
    open spec fn sampled(&self) -> u64 {
        arbitrary()
    }

    /// The memory in use, in bytes: never more than there is. The figure is
    /// sampled anew, and is the one last sampled from now on.
    fn memory_used(&mut self) -> (bytes: u64)
        ensures
            bytes <= old(self).capacity(),
            final(self).sampled() == bytes,
            final(self).capacity() == old(self).capacity(),
    ;

    /// The memory of the device, in bytes.
    fn memory_total(&mut self) -> (bytes: u64)
        ensures
            bytes == old(self).capacity(),
            final(self).capacity() == old(self).capacity(),
            final(self).sampled() == old(self).sampled(),
    ;

    /// The charge of the battery, in percent.
    fn battery_level(&mut self) -> (percent: u8)
        ensures
            percent <= 100,
            final(self).capacity() == old(self).capacity(),
            final(self).sampled() == old(self).sampled(),
    ;
}

} // verus!
