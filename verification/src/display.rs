//! A display that keeps its frames in memory: the surface that is drawn on,
//! and the frame that the panel shows. It stands in for the e-paper panel
//! wherever there is none.

use crate::frame::{
    can_draw, color_at, draw_text, fill, filled, on_surface, plot, plotted_all, Alignment, Color,
    Pixel, Rectangle, FRAME_BYTES, HEIGHT, LINE_BYTES, WIDTH,
};
use crate::hardware::DisplayDriver;
use vstd::prelude::*;

verus! {

/// A count as a counter of the machine shows it: the count itself, or the
/// greatest value of the counter where the count has outgrown it.
pub open spec fn counter_of(count: nat) -> u64 {
    if count <= u64::MAX {
        count as u64
    } else {
        u64::MAX
    }
}

/// A count of events, with the counter that shows it.
struct Tally {
    counter: u64,
    count: Ghost<nat>,
}

impl Tally {
    /// The counter shows the count.
    spec fn wf(self) -> bool {
        self.counter == counter_of(self.count@)
    }

    /// A tally of nothing.
    fn new() -> (tally: Tally)
        ensures
            tally.wf(),
            tally.count@ == 0,
    {
        Tally { counter: 0, count: Ghost(0) }
    }

    /// The tally with one more counted.
    fn up(&self) -> (tally: Tally)
        requires
            self.wf(),
        ensures
            tally.wf(),
            tally.count@ == self.count@ + 1,
    {
        let counter: u64 = if self.counter < u64::MAX {
            self.counter + 1
        } else {
            self.counter
        };
        Tally { counter, count: Ghost(self.count@ + 1) }
    }
}

/// A display with its frames in memory.
pub struct Display {
    surface: Vec<u8>,
    shown: Vec<u8>,
    commits: Tally,
    refreshes: Tally,
}

impl Display {
    #[verifier::type_invariant]
    spec fn frames_whole(self) -> bool {
        &&& self.surface@.len() == FRAME_BYTES
        &&& self.shown@.len() == FRAME_BYTES
        &&& self.commits.wf()
        &&& self.refreshes.wf()
    }

    /// A display on which nothing was drawn or shown yet: both frames are
    /// black, as the memory of the panel is before its first frame.
    pub fn new() -> (display: Display)
        ensures
            display.surface() == filled(Color::Black),
            display.visible() == filled(Color::Black),
            display.committed() == 0,
            display.refreshed() == 0,
    {
        let surface: Vec<u8> = vec![0u8; FRAME_BYTES];
        let shown: Vec<u8> = vec![0u8; FRAME_BYTES];
        assert(surface@ =~= filled(Color::Black));
        assert(shown@ =~= filled(Color::Black));
        Display { surface, shown, commits: Tally::new(), refreshes: Tally::new() }
    }

    /// The frame that the panel shows.
    pub fn frame(&self) -> (frame: &Vec<u8>)
        ensures
            frame@ == self.visible(),
            frame@.len() == FRAME_BYTES,
    {
        proof {
            use_type_invariant(self);
        }
        &self.shown
    }

    /// The frame as drawn so far.
    pub fn drawn(&self) -> (frame: &Vec<u8>)
        ensures
            frame@ == self.surface(),
            frame@.len() == FRAME_BYTES,
    {
        proof {
            use_type_invariant(self);
        }
        &self.surface
    }

    /// How often the surface was committed, as far as a counter counts.
    pub fn commits(&self) -> (n: u64)
        ensures
            n == counter_of(self.committed()),
    {
        proof {
            use_type_invariant(self);
        }
        self.commits.counter
    }

    /// How often a full refresh cycle was run, as far as a counter counts.
    pub fn refreshes(&self) -> (n: u64)
        ensures
            n == counter_of(self.refreshed()),
    {
        proof {
            use_type_invariant(self);
        }
        self.refreshes.counter
    }

    /// The colour that the panel shows at `(x, y)`, for a point of the
    /// surface.
    pub fn pixel(&self, x: i32, y: i32) -> (color: Option<Color>)
        ensures
            color is Some <==> on_surface(x as int, y as int),
            color is Some ==> color == Some(color_at(self.visible(), x as int, y as int)),
    {
        proof {
            use_type_invariant(self);
        }
        if 0 <= x && x < WIDTH as i32 && 0 <= y && y < HEIGHT as i32 {
            let across: usize = (HEIGHT as i32 - 1 - y) as usize;
            let index: usize = x as usize * LINE_BYTES + across / 8;
            let shift: u8 = (across % 8) as u8;
            let bit: u8 = 0x80u8 >> shift;
            if self.shown[index] & bit != 0 {
                Some(Color::White)
            } else {
                Some(Color::Black)
            }
        } else {
            None
        }
    }
}

impl DisplayDriver for Display {
    /// The frame as drawn so far.
    closed spec fn surface(&self) -> Seq<u8> {
        self.surface@
    }

    /// The frame that the panel shows.
    closed spec fn visible(&self) -> Seq<u8> {
        self.shown@
    }

    /// How often the surface was committed.
    closed spec fn committed(&self) -> nat {
        self.commits.count@
    }

    /// How often a full refresh cycle was run.
    closed spec fn refreshed(&self) -> nat {
        self.refreshes.count@
    }

    /// The rectangle of the surface: 296 by 128, from the origin.
    fn bounding_box(&self) -> (area: Rectangle) {
        Rectangle { x: 0, y: 0, width: WIDTH, height: HEIGHT }
    }

    /// Gives every pixel of the surface one colour. The panel shows what it
    /// showed.
    fn clear(&mut self, color: Color)
    {
        proof {
            use_type_invariant(&*self);
        }
        fill(&mut self.surface, color);
    }

    /// Plots the pixels in turn on the surface. Pixels off the surface are
    /// passed over.
    fn draw_iter(&mut self, pixels: &[Pixel])
    {
        proof {
            use_type_invariant(&*self);
        }
        let ghost before = self.surface@;
        assert(pixels@.skip(0) =~= pixels@);
        let mut i: usize = 0;
        while i < pixels.len()
            invariant
                i <= pixels@.len(),
                self.surface@.len() == FRAME_BYTES,
                self.shown@.len() == FRAME_BYTES,
                self.shown == old(self).shown,
                self.commits == old(self).commits,
                self.refreshes == old(self).refreshes,
                self.commits.wf(),
                self.refreshes.wf(),
                plotted_all(self.surface@, pixels@.skip(i as int)) == plotted_all(before, pixels@),
            decreases pixels@.len() - i,
        {
            let pixel = pixels[i];
            proof {
                let rest = pixels@.skip(i as int);
                assert(rest[0] == pixel);
                assert(rest.skip(1) =~= pixels@.skip(i + 1));
            }
            if 0 <= pixel.x && pixel.x < WIDTH as i32 && 0 <= pixel.y && pixel.y < HEIGHT as i32 {
                plot(&mut self.surface, pixel);
            }
            i += 1;
        }
    }

    /// Draws a line of text in black on the surface, in the 6 by 13 font, its
    /// baseline at `y`. A text of more than `TEXT_MAX` bytes, or one anchored
    /// further than `ANCHOR_MAX` from the origin, is not drawn.
    fn draw_text(&mut self, text: &str, x: i32, y: i32, alignment: Alignment)
    {
        proof {
            use_type_invariant(&*self);
        }
        if can_draw(text, x, y) {
            draw_text(&mut self.surface, text, x, y, alignment);
        }
    }

    /// Commits the surface: the panel shows what was drawn.
    fn update(&mut self) {
        proof {
            use_type_invariant(&*self);
        }
        let shown = self.surface.clone();
        assert(shown@ =~= self.surface@);
        self.shown = shown;
        self.commits = self.commits.up();
    }

    /// Runs a full refresh cycle: the panel is driven through the frame as
    /// drawn, and shows it.
    fn refresh(&mut self)
        ensures
            final(self).visible() == old(self).surface(),
    {
        proof {
            use_type_invariant(&*self);
        }
        let shown = self.surface.clone();
        assert(shown@ =~= self.surface@);
        self.shown = shown;
        self.refreshes = self.refreshes.up();
    }
}

} // verus!
