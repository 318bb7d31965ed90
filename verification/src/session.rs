//! The application's run loop, written against the three facades alone. It has
//! two states. Drawing clears the surface, draws the memory banner, refreshes
//! the panel and commits. Listening waits for keys: a key adds its text to the
//! line of input, which is redrawn and committed, and the clearing key empties
//! the line and leads back to drawing.
//!
//! The line of input holds at most `LINE_CAPACITY` characters. A key whose
//! text does not fit is turned away whole, and the line stays as it was.

use crate::buffer::{decimal, lemma_ascii_byte_len, lemma_decimal_u64, Line, LINE_CAPACITY};
use crate::frame::{drawable, filled, text_drawn, text_shown, Alignment, Color};
use crate::hardware::{DisplayDriver, Hardware, KeypadDriver, SystemDriver};
use crate::key::{lemma_key_text_shape, Key};
use vstd::prelude::*;
use vstd::utf8::{is_ascii_chars, is_ascii_chars_concat};

verus! {

/// Where the memory banner is anchored: the middle of the surface.
pub const BANNER_X: i32 = 148;

/// The baseline of the memory banner.
pub const BANNER_Y: i32 = 64;

/// Where the line of input starts.
pub const INPUT_X: i32 = 0;

/// The baseline of the line of input.
pub const INPUT_Y: i32 = 100;

/// The run loop waits for a key for as long as the driver can be asked to.
pub const WAIT_FOREVER: u64 = u64::MAX;

/// The longest memory banner, in characters: eight of caption, up to twenty
/// for each figure, and three of units.
pub const BANNER_MAX: usize = 51;

/// Memory is shown in units of this many bytes.
pub const BYTES_PER_K: u64 = 1000;

/// What a key did to the line of input.
#[derive(Debug, Copy, Clone, PartialEq, Eq, Structural)]
pub enum KeyOutcome {
    /// The key cleared the line.
    Cleared,
    /// The key's text was added to the line.
    Appended,
    /// The key's text did not fit, and the line is as it was.
    Rejected,
}

/// Whether the text of `key` fits behind `text`.
pub open spec fn fits(text: Seq<char>, key: Key) -> bool {
    text.len() + key.text().len() <= LINE_CAPACITY
}

/// The line of input after a key.
pub open spec fn keyed(text: Seq<char>, key: Key) -> Seq<char> {
    if key.clears() {
        Seq::empty()
    } else if fits(text, key) {
        text + key.text()
    } else {
        text
    }
}

/// What a key does to the line of input.
pub open spec fn outcome_of(text: Seq<char>, key: Key) -> KeyOutcome {
    if key.clears() {
        KeyOutcome::Cleared
    } else if fits(text, key) {
        KeyOutcome::Appended
    } else {
        KeyOutcome::Rejected
    }
}

/// The line of input after a run of keys, taken in order.
pub open spec fn absorbed(text: Seq<char>, keys: Seq<Key>) -> Seq<char>
    decreases keys.len(),
{
    if keys.len() == 0 {
        text
    } else {
        keyed(absorbed(text, keys.drop_last()), keys.last())
    }
}

/// Whether no key but the last of a run clears the line.
pub open spec fn clears_only_last(keys: Seq<Key>) -> bool {
    forall|i: int| 0 <= i < keys.len() - 1 ==> !(#[trigger] keys[i]).clears()
}

/// The banner that shows the memory in use and the memory there is, each in
/// thousands of bytes, rounded down.
pub open spec fn banner_text(used: u64, total: u64) -> Seq<char> {
    "Memory: "@ + decimal((used / BYTES_PER_K) as nat) + "K/"@ + decimal(
        (total / BYTES_PER_K) as nat,
    ) + "K"@
}

/// The state of the run loop: the line of input gathered so far.
pub struct Session {
    input: Line,
}

impl View for Session {
    type V = Seq<char>;

    closed spec fn view(&self) -> Seq<char> {
        self.input@
    }
}

impl Session {
    /// The line is plain ASCII and within its capacity.
    pub open spec fn wf(&self) -> bool {
        &&& is_ascii_chars(self@)
        &&& self@.len() <= LINE_CAPACITY
    }

    /// A session with an empty line.
    pub fn new() -> (session: Session)
        ensures
            session.wf(),
            session@ == Seq::<char>::empty(),
    {
        Session { input: Line::new() }
    }

    /// The line of input.
    pub fn text(&self) -> (text: &str)
        ensures
            text@ == self@,
    {
        self.input.as_str()
    }

    /// Takes a key: the clearing key empties the line, and any other key adds
    /// its text if that fits.
    pub fn on_key(&mut self, key: Key) -> (outcome: KeyOutcome)
        requires
            old(self).wf(),
        ensures
            final(self).wf(),
            final(self)@ == keyed(old(self)@, key),
            outcome == outcome_of(old(self)@, key),
    {
        if key.is_clear() {
            self.input.clear();
            KeyOutcome::Cleared
        } else {
            proof {
                lemma_key_text_shape(key);
                lemma_ascii_byte_len(self@);
                lemma_ascii_byte_len(key.text());
                is_ascii_chars_concat(self@ + key.text(), self@, key.text());
            }
            if self.input.push_str(key.name()) {
                KeyOutcome::Appended
            } else {
                KeyOutcome::Rejected
            }
        }
    }
}

/// The memory banner for the figures of the system.
pub fn memory_banner(used: u64, total: u64) -> (banner: Line)
    ensures
        banner.wf(),
        banner@ == banner_text(used, total),
        is_ascii_chars(banner@),
        banner@.len() <= BANNER_MAX,
{
    let mut banner = Line::new();
    proof {
        reveal_strlit("Memory: ");
        reveal_strlit("K/");
        reveal_strlit("K");
        lemma_decimal_u64((used / BYTES_PER_K) as u64);
        lemma_decimal_u64((total / BYTES_PER_K) as u64);
        lemma_ascii_byte_len(banner@);
        lemma_ascii_byte_len("Memory: "@);
        lemma_ascii_byte_len("K/"@);
        lemma_ascii_byte_len("K"@);
    }
    banner.push_str("Memory: ");
    proof {
        assert(banner@ =~= "Memory: "@);
        lemma_ascii_byte_len(banner@);
    }
    banner.push_decimal(used / BYTES_PER_K);
    proof {
        is_ascii_chars_concat(banner@, "Memory: "@, decimal((used / BYTES_PER_K) as nat));
        lemma_ascii_byte_len(banner@);
    }
    let ghost first = banner@;
    banner.push_str("K/");
    proof {
        is_ascii_chars_concat(banner@, first, "K/"@);
        lemma_ascii_byte_len(banner@);
    }
    let ghost second = banner@;
    banner.push_decimal(total / BYTES_PER_K);
    proof {
        is_ascii_chars_concat(banner@, second, decimal((total / BYTES_PER_K) as nat));
        lemma_ascii_byte_len(banner@);
    }
    let ghost third = banner@;
    banner.push_str("K");
    proof {
        is_ascii_chars_concat(banner@, third, "K"@);
    }
    banner
}

/// The frame of the drawing state: the memory banner, centred in the middle
/// of a white surface.
pub open spec fn banner_frame(used: u64, total: u64) -> Seq<u8> {
    text_shown(
        filled(Color::White),
        banner_text(used, total),
        BANNER_X as int,
        BANNER_Y as int,
        Alignment::Center,
    )
}

/// The frame of a line of input: the line at the foot of a white surface.
pub open spec fn input_frame(text: Seq<char>) -> Seq<u8> {
    text_shown(filled(Color::White), text, INPUT_X as int, INPUT_Y as int, Alignment::Left)
}

/// Whether a display holds, drawn and shown, the banner for `used` bytes of
/// memory in use out of `total`.
pub open spec fn shows_banner(surface: Seq<u8>, visible: Seq<u8>, used: u64, total: u64) -> bool {
    surface == banner_frame(used, total) && visible == banner_frame(used, total)
}

/// Whether a display holds, drawn and shown, a line of input.
pub open spec fn shows_input(surface: Seq<u8>, visible: Seq<u8>, text: Seq<char>) -> bool {
    surface == input_frame(text) && visible == input_frame(text)
}

/// How many keys a round of listening reads from a queue: it reads up to
/// `limit` keys, and none behind the first that clears the line.
pub open spec fn heard(pending: Seq<Key>, limit: nat) -> nat
    decreases pending.len(),
{
    if limit == 0 || pending.len() == 0 {
        0
    } else if pending[0].clears() {
        1
    } else {
        1 + heard(pending.skip(1), (limit - 1) as nat)
    }
}

/// How many keys of a run clear the line.
pub open spec fn clears_in(keys: Seq<Key>) -> nat
    decreases keys.len(),
{
    if keys.len() == 0 {
        0
    } else {
        clears_in(keys.drop_last()) + if keys.last().clears() {
            1nat
        } else {
            0nat
        }
    }
}

/// The keys of a round whose effect on the line is drawn while listening: all
/// of them but the key that clears the line, which leads to drawing instead.
pub open spec fn drawn_keys(keys: Seq<Key>) -> Seq<Key> {
    if keys.len() > 0 && keys.last().clears() {
        keys.drop_last()
    } else {
        keys
    }
}

/// What a display holds after listening: as before if no key was drawn, and
/// else the line as it stood after the last key that was drawn.
pub open spec fn listened(
    surface_before: Seq<u8>,
    visible_before: Seq<u8>,
    surface: Seq<u8>,
    visible: Seq<u8>,
    text: Seq<char>,
    keys: Seq<Key>,
) -> bool {
    if drawn_keys(keys).len() == 0 {
        surface == surface_before && visible == visible_before
    } else {
        shows_input(surface, visible, absorbed(text, drawn_keys(keys)))
    }
}

/// What a display holds after a round: as before if no key was read, the
/// banner for the figure last sampled if the last key cleared the line, and
/// else the line.
pub open spec fn served(
    surface_before: Seq<u8>,
    visible_before: Seq<u8>,
    surface: Seq<u8>,
    visible: Seq<u8>,
    text: Seq<char>,
    keys: Seq<Key>,
    used: u64,
    total: u64,
) -> bool {
    if keys.len() == 0 {
        surface == surface_before && visible == visible_before
    } else if keys.last().clears() {
        shows_banner(surface, visible, used, total)
    } else {
        shows_input(surface, visible, absorbed(text, keys))
    }
}

/// Draws the memory banner for the two figures: the surface is cleared, the
/// banner is drawn in its middle, the panel is refreshed once, and the surface
/// is committed once.
pub fn draw_banner<D: DisplayDriver>(display: &mut D, used: u64, total: u64)
    ensures
        final(display).surface() == banner_frame(used, total),
        final(display).visible() == banner_frame(used, total),
        final(display).committed() == old(display).committed() + 1,
        final(display).refreshed() == old(display).refreshed() + 1,
{
    display.clear(Color::White);
    let banner = memory_banner(used, total);
    display.draw_text(banner.as_str(), BANNER_X, BANNER_Y, Alignment::Center);
    display.refresh();
    display.update();
}

/// The drawing state: the memory in use and the memory there is are sampled,
/// and the banner for the figures that came back is drawn, with one refresh
/// and one commit. The keypad is left alone.
pub fn draw<D: DisplayDriver, KB: KeypadDriver, SYS: SystemDriver>(hw: &mut Hardware<D, KB, SYS>)
    ensures
        shows_banner(
            final(hw).display.surface(),
            final(hw).display.visible(),
            final(hw).system.sampled(),
            old(hw).system.capacity(),
        ),
        final(hw).system.sampled() <= old(hw).system.capacity(),
        final(hw).display.committed() == old(hw).display.committed() + 1,
        final(hw).display.refreshed() == old(hw).display.refreshed() + 1,
        final(hw).system.capacity() == old(hw).system.capacity(),
        final(hw).keypad.pending() == old(hw).keypad.pending(),
        final(hw).keypad.asked() == old(hw).keypad.asked(),
{
    let used = hw.system.memory_used();
    let total = hw.system.memory_total();
    draw_banner(&mut hw.display, used, total);
}

/// Redraws the line of input: the surface is cleared, the line is drawn at
/// the foot of the surface, and the surface is committed once. No refresh
/// cycle is run.
pub fn render<D: DisplayDriver>(display: &mut D, session: &Session)
    ensures
        shows_input(final(display).surface(), final(display).visible(), session@),
        final(display).committed() == old(display).committed() + 1,
        final(display).refreshed() == old(display).refreshed(),
{
    display.clear(Color::White);
    display.draw_text(session.text(), INPUT_X, INPUT_Y, Alignment::Left);
    display.update();
}

/// Entry into the loop: the drawing state, and a session with an empty line.
pub fn start<D: DisplayDriver, KB: KeypadDriver, SYS: SystemDriver>(
    hw: &mut Hardware<D, KB, SYS>,
) -> (session: Session)
    ensures
        session.wf(),
        session@ == Seq::<char>::empty(),
        shows_banner(
            final(hw).display.surface(),
            final(hw).display.visible(),
            final(hw).system.sampled(),
            old(hw).system.capacity(),
        ),
        final(hw).system.sampled() <= old(hw).system.capacity(),
        final(hw).display.committed() == old(hw).display.committed() + 1,
        final(hw).display.refreshed() == old(hw).display.refreshed() + 1,
        final(hw).system.capacity() == old(hw).system.capacity(),
        final(hw).keypad.pending() == old(hw).keypad.pending(),
        final(hw).keypad.asked() == old(hw).keypad.asked(),
{
    draw(hw);
    Session::new()
}

/// The listening state: waits for a key, then takes the keys that wait, one
/// by one. A key that adds to the line, or is turned away, has the line
/// redrawn and committed; the key that clears the line ends the listening.
/// So does an empty keypad, and so do `limit` keys.
///
/// The keys that were read are returned in order. They are the front of the
/// queue as it stood after the wait, as many as `heard` says; the rest of the
/// queue waits on. The line is what these keys make of the line before, and
/// the display holds the line as it stood after the last key that was drawn.
pub fn listen<D: DisplayDriver, KB: KeypadDriver, SYS: SystemDriver>(
    hw: &mut Hardware<D, KB, SYS>,
    session: &mut Session,
    limit: usize,
) -> (keys: Vec<Key>)
    requires
        old(session).wf(),
    ensures
        final(session).wf(),
        final(session)@ == absorbed(old(session)@, keys@),
        keys@.len() <= limit,
        clears_only_last(keys@),
        old(hw).keypad.pending().is_prefix_of(keys@ + final(hw).keypad.pending()),
        keys@.len() == heard(keys@ + final(hw).keypad.pending(), limit as nat),
        final(hw).keypad.asked() == Some(WAIT_FOREVER),
        listened(
            old(hw).display.surface(),
            old(hw).display.visible(),
            final(hw).display.surface(),
            final(hw).display.visible(),
            old(session)@,
            keys@,
        ),
        final(hw).display.committed() == old(hw).display.committed() + drawn_keys(keys@).len(),
        final(hw).display.refreshed() == old(hw).display.refreshed(),
        final(hw).system.capacity() == old(hw).system.capacity(),
        final(hw).system.sampled() == old(hw).system.sampled(),
{
    let _ = hw.keypad.wait_for_key(WAIT_FOREVER);
    let ghost queue = hw.keypad.pending();
    let mut keys: Vec<Key> = Vec::new();
    proof {
        assert(keys@ + hw.keypad.pending() =~= queue);
    }
    while keys.len() < limit
        invariant_except_break
            forall|i: int| 0 <= i < keys@.len() ==> !(#[trigger] keys@[i]).clears(),
            heard(queue, limit as nat) == keys@.len() + heard(
                hw.keypad.pending(),
                (limit - keys@.len()) as nat,
            ),
        invariant
            session.wf(),
            session@ == absorbed(old(session)@, keys@),
            keys@.len() <= limit,
            old(hw).keypad.pending().is_prefix_of(queue),
            queue == keys@ + hw.keypad.pending(),
            hw.keypad.asked() == Some(WAIT_FOREVER),
            listened(
                old(hw).display.surface(),
                old(hw).display.visible(),
                hw.display.surface(),
                hw.display.visible(),
                old(session)@,
                keys@,
            ),
            hw.display.committed() == old(hw).display.committed() + drawn_keys(keys@).len(),
            hw.display.refreshed() == old(hw).display.refreshed(),
            hw.system.capacity() == old(hw).system.capacity(),
            hw.system.sampled() == old(hw).system.sampled(),
        ensures
            session.wf(),
            session@ == absorbed(old(session)@, keys@),
            keys@.len() <= limit,
            clears_only_last(keys@),
            old(hw).keypad.pending().is_prefix_of(queue),
            queue == keys@ + hw.keypad.pending(),
            heard(queue, limit as nat) == keys@.len(),
            hw.keypad.asked() == Some(WAIT_FOREVER),
            listened(
                old(hw).display.surface(),
                old(hw).display.visible(),
                hw.display.surface(),
                hw.display.visible(),
                old(session)@,
                keys@,
            ),
            hw.display.committed() == old(hw).display.committed() + drawn_keys(keys@).len(),
            hw.display.refreshed() == old(hw).display.refreshed(),
            hw.system.capacity() == old(hw).system.capacity(),
            hw.system.sampled() == old(hw).system.sampled(),
        decreases limit - keys.len(),
    {
        let ghost waiting = hw.keypad.pending();
        let ghost before = keys@;
        match hw.keypad.read_key() {
            None => {
                break;
            },
            Some(key) => {
                let outcome = session.on_key(key);
                keys.push(key);
                proof {
                    assert(keys@.drop_last() =~= before);
                    assert(keys@ + hw.keypad.pending() =~= before + waiting);
                    lemma_heard_counts(queue, before, waiting, limit as nat);
                }
                match outcome {
                    KeyOutcome::Cleared => {
                        proof {
                            assert(drawn_keys(keys@) == before);
                            assert(drawn_keys(before) == before);
                        }
                        break;
                    },
                    _ => {
                        render(&mut hw.display, session);
                        proof {
                            assert(drawn_keys(keys@) == keys@);
                        }
                    },
                }
            },
        }
    }
    keys
}

/// One round of the loop: the listening state, and after it the drawing state
/// if the line was cleared. The keys that were read are returned, with all
/// that listening says of them; the display holds the banner if the last of
/// them cleared the line. Each key costs one commit, and the key that clears
/// the line one refresh cycle as well.
pub fn service<D: DisplayDriver, KB: KeypadDriver, SYS: SystemDriver>(
    hw: &mut Hardware<D, KB, SYS>,
    session: &mut Session,
    limit: usize,
) -> (keys: Vec<Key>)
    requires
        old(session).wf(),
    ensures
        final(session).wf(),
        final(session)@ == absorbed(old(session)@, keys@),
        keys@.len() <= limit,
        clears_only_last(keys@),
        old(hw).keypad.pending().is_prefix_of(keys@ + final(hw).keypad.pending()),
        keys@.len() == heard(keys@ + final(hw).keypad.pending(), limit as nat),
        final(hw).keypad.asked() == Some(WAIT_FOREVER),
        served(
            old(hw).display.surface(),
            old(hw).display.visible(),
            final(hw).display.surface(),
            final(hw).display.visible(),
            old(session)@,
            keys@,
            final(hw).system.sampled(),
            old(hw).system.capacity(),
        ),
        clears_in(keys@) == 0 ==> final(hw).system.sampled() == old(hw).system.sampled(),
        final(hw).system.sampled() <= old(hw).system.capacity() || final(hw).system.sampled()
            == old(hw).system.sampled(),
        final(hw).display.committed() == old(hw).display.committed() + keys@.len(),
        final(hw).display.refreshed() == old(hw).display.refreshed() + clears_in(keys@),
        final(hw).system.capacity() == old(hw).system.capacity(),
{
    let keys = listen(hw, session, limit);
    proof {
        lemma_clears_in_round(keys@);
    }
    let n = keys.len();
    if n > 0 && keys[n - 1].is_clear() {
        draw(hw);
    }
    keys
}

/// What a display holds at the end of the run loop: the banner for the figure
/// last sampled if no key was read or the last key cleared the line, and else
/// the line.
pub open spec fn ran(
    surface: Seq<u8>,
    visible: Seq<u8>,
    text: Seq<char>,
    keys: Seq<Key>,
    used: u64,
    total: u64,
) -> bool {
    if keys.len() == 0 || keys.last().clears() {
        shows_banner(surface, visible, used, total)
    } else {
        shows_input(surface, visible, text)
    }
}

/// The run loop for `rounds` rounds: entry, then one round after another. The
/// session is returned with all the keys that were read, in order. They came
/// from the front of the keypad's queue, none lost and none read twice, and
/// with a round to run they are at least the keys that one round hears of the
/// queue as it stood. The line is what they make of an empty line, and the
/// display holds the banner or the line, as the last of them left it: after
/// one commit for the entry and one for each key, and one refresh cycle for
/// the entry and one for each key that cleared the line.
pub fn run<D: DisplayDriver, KB: KeypadDriver, SYS: SystemDriver>(
    hw: &mut Hardware<D, KB, SYS>,
    rounds: usize,
    limit: usize,
) -> (end: (Session, Vec<Key>))
    ensures
        end.0.wf(),
        end.0@ == absorbed(Seq::empty(), end.1@),
        old(hw).keypad.pending().is_prefix_of(end.1@ + final(hw).keypad.pending()),
        rounds == 0 || limit == 0 ==> end.1@.len() == 0,
        rounds > 0 ==> end.1@.len() >= heard(old(hw).keypad.pending(), limit as nat),
        rounds > 0 && limit > 0 && old(hw).keypad.pending().len() > 0 ==> end.1@.len() > 0,
        final(hw).keypad.asked() == if rounds > 0 {
            Some(WAIT_FOREVER)
        } else {
            old(hw).keypad.asked()
        },
        ran(
            final(hw).display.surface(),
            final(hw).display.visible(),
            end.0@,
            end.1@,
            final(hw).system.sampled(),
            old(hw).system.capacity(),
        ),
        final(hw).system.sampled() <= old(hw).system.capacity(),
        final(hw).display.committed() == old(hw).display.committed() + 1 + end.1@.len(),
        final(hw).display.refreshed() == old(hw).display.refreshed() + 1 + clears_in(end.1@),
        final(hw).system.capacity() == old(hw).system.capacity(),
{
    let mut session = start(hw);
    let mut keys: Vec<Key> = Vec::new();
    let mut round: usize = 0;
    proof {
        assert(keys@ + hw.keypad.pending() =~= hw.keypad.pending());
    }
    while round < rounds
        invariant
            session.wf(),
            session@ == absorbed(Seq::empty(), keys@),
            old(hw).keypad.pending().is_prefix_of(keys@ + hw.keypad.pending()),
            round <= rounds,
            limit == 0 || round == 0 ==> keys@.len() == 0,
            round == 0 ==> hw.keypad.pending() == old(hw).keypad.pending(),
            hw.keypad.asked() == if round > 0 {
                Some(WAIT_FOREVER)
            } else {
                old(hw).keypad.asked()
            },
            round > 0 ==> keys@.len() >= heard(old(hw).keypad.pending(), limit as nat),
            hw.display.committed() == old(hw).display.committed() + 1 + keys@.len(),
            hw.display.refreshed() == old(hw).display.refreshed() + 1 + clears_in(keys@),
            ran(
                hw.display.surface(),
                hw.display.visible(),
                session@,
                keys@,
                hw.system.sampled(),
                old(hw).system.capacity(),
            ),
            hw.system.sampled() <= old(hw).system.capacity(),
            hw.system.capacity() == old(hw).system.capacity(),
        decreases rounds - round,
    {
        let ghost before = keys@;
        let ghost waiting = hw.keypad.pending();
        let mut read = service(hw, &mut session, limit);
        proof {
            lemma_absorbed_in_parts(Seq::empty(), before, read@);
            lemma_clears_in_parts(before, read@);
            lemma_heard_grows(waiting, read@ + hw.keypad.pending(), limit as nat);
            assert((before + read@) + hw.keypad.pending() =~= before + (read@
                + hw.keypad.pending()));
            if read@.len() > 0 {
                assert((before + read@).last() == read@.last());
            } else {
                assert(before + read@ =~= before);
            }
        }
        keys.append(&mut read);
        round += 1;
    }
    (session, keys)
}

/// Counting what is heard: with `read` keys taken that do not clear the line
/// and `waiting` the queue behind them, the count for the whole queue is the
/// keys taken and the count for what waits.
proof fn lemma_heard_counts(queue: Seq<Key>, read: Seq<Key>, waiting: Seq<Key>, limit: nat)
    requires
        queue == read + waiting,
        read.len() < limit,
        waiting.len() > 0,
        heard(queue, limit) == read.len() + heard(waiting, (limit - read.len()) as nat),
    ensures
        waiting[0].clears() ==> heard(queue, limit) == read.len() + 1,
        !waiting[0].clears() ==> heard(queue, limit) == read.len() + 1 + heard(
            waiting.skip(1),
            (limit - read.len() - 1) as nat,
        ),
{
}

/// A longer queue is heard at least as far as its front.
pub proof fn lemma_heard_grows(front: Seq<Key>, queue: Seq<Key>, limit: nat)
    requires
        front.is_prefix_of(queue),
    ensures
        heard(front, limit) <= heard(queue, limit),
        limit > 0 && front.len() > 0 ==> heard(front, limit) >= 1,
    decreases front.len(),
{
    if limit > 0 && front.len() > 0 {
        assert(queue[0] == front[0]);
        if !front[0].clears() {
            assert(front.skip(1).is_prefix_of(queue.skip(1))) by {
                assert(queue.skip(1).subrange(0, front.len() - 1) =~= queue.subrange(
                    0,
                    front.len() as int,
                ).skip(1));
            }
            lemma_heard_grows(front.skip(1), queue.skip(1), (limit - 1) as nat);
        }
    }
}

/// Clearing keys are counted run by run.
pub proof fn lemma_clears_in_parts(first: Seq<Key>, second: Seq<Key>)
    ensures
        clears_in(first + second) == clears_in(first) + clears_in(second),
    decreases second.len(),
{
    if second.len() == 0 {
        assert(first + second =~= first);
    } else {
        lemma_clears_in_parts(first, second.drop_last());
        assert((first + second).drop_last() =~= first + second.drop_last());
        assert((first + second).last() == second.last());
    }
}

/// In a round only the last key can clear the line, so a round counts one
/// clearing key or none.
pub proof fn lemma_clears_in_round(keys: Seq<Key>)
    requires
        clears_only_last(keys),
    ensures
        clears_in(keys) == if keys.len() > 0 && keys.last().clears() {
            1nat
        } else {
            0nat
        },
        keys.len() == drawn_keys(keys).len() + clears_in(keys),
{
    if keys.len() > 0 {
        lemma_no_clears(keys.drop_last());
    }
}

/// Keys of which none clears the line count no clearing key.
proof fn lemma_no_clears(keys: Seq<Key>)
    requires
        forall|i: int| 0 <= i < keys.len() ==> !(#[trigger] keys[i]).clears(),
    ensures
        clears_in(keys) == 0,
    decreases keys.len(),
{
    if keys.len() > 0 {
        lemma_no_clears(keys.drop_last());
    }
}

/// The banner is always drawn: it is within what one call draws, whatever the
/// figures.
pub proof fn lemma_banner_is_drawn(used: u64, total: u64)
    ensures
        drawable(banner_text(used, total), BANNER_X as int, BANNER_Y as int),
        banner_frame(used, total) == text_drawn(
            filled(Color::White),
            banner_text(used, total),
            BANNER_X as int,
            BANNER_Y as int,
            true,
        ),
{
    reveal_strlit("Memory: ");
    reveal_strlit("K/");
    reveal_strlit("K");
    let a = decimal((used / BYTES_PER_K) as nat);
    let b = decimal((total / BYTES_PER_K) as nat);
    lemma_decimal_u64((used / BYTES_PER_K) as u64);
    lemma_decimal_u64((total / BYTES_PER_K) as u64);
    is_ascii_chars_concat("Memory: "@ + a, "Memory: "@, a);
    is_ascii_chars_concat("Memory: "@ + a + "K/"@, "Memory: "@ + a, "K/"@);
    is_ascii_chars_concat("Memory: "@ + a + "K/"@ + b, "Memory: "@ + a + "K/"@, b);
    is_ascii_chars_concat(banner_text(used, total), "Memory: "@ + a + "K/"@ + b, "K"@);
    lemma_ascii_byte_len(banner_text(used, total));
}

/// The line of a session is always drawn: it is within what one call draws.
pub proof fn lemma_line_is_drawn(text: Seq<char>)
    requires
        is_ascii_chars(text),
        text.len() <= LINE_CAPACITY,
    ensures
        drawable(text, INPUT_X as int, INPUT_Y as int),
        input_frame(text) == text_drawn(
            filled(Color::White),
            text,
            INPUT_X as int,
            INPUT_Y as int,
            false,
        ),
{
    lemma_ascii_byte_len(text);
}

/// Keys taken one run after another add up as if taken in one run.
pub proof fn lemma_absorbed_in_parts(text: Seq<char>, first: Seq<Key>, second: Seq<Key>)
    ensures
        absorbed(absorbed(text, first), second) == absorbed(text, first + second),
    decreases second.len(),
{
    if second.len() == 0 {
        assert(first + second =~= first);
    } else {
        lemma_absorbed_in_parts(text, first, second.drop_last());
        assert((first + second).drop_last() =~= first + second.drop_last());
        assert((first + second).last() == second.last());
    }
}

/// The clearing key forgets: whatever was typed before it, the line is what
/// the keys after it make of an empty line.
pub proof fn lemma_clear_forgets(text: Seq<char>, before: Seq<Key>, after: Seq<Key>)
    ensures
        absorbed(text, before + seq![Key::Fn] + after) == absorbed(Seq::empty(), after),
{
    let cleared = before + seq![Key::Fn];
    assert(cleared.drop_last() =~= before);
    assert(cleared.last() == Key::Fn);
    assert(absorbed(text, cleared) == Seq::<char>::empty());
    lemma_absorbed_in_parts(text, cleared, after);
}

/// The line never outgrows its capacity, and holds only the texts of keys:
/// whatever keys arrive, it stays plain ASCII within `LINE_CAPACITY`.
pub proof fn lemma_line_stays_bounded(text: Seq<char>, keys: Seq<Key>)
    requires
        is_ascii_chars(text),
        text.len() <= LINE_CAPACITY,
    ensures
        is_ascii_chars(absorbed(text, keys)),
        absorbed(text, keys).len() <= LINE_CAPACITY,
    decreases keys.len(),
{
    if keys.len() > 0 {
        lemma_line_stays_bounded(text, keys.drop_last());
        let so_far = absorbed(text, keys.drop_last());
        lemma_key_text_shape(keys.last());
        is_ascii_chars_concat(so_far + keys.last().text(), so_far, keys.last().text());
    }
}

} // verus!
