//! Turning protocol input events into synthesized OS input.
//!
//! [`InputSink`] is the seam: the session loop calls it, and what is behind it
//! is chosen at startup. [`NullSink`] discards everything, [`RecordingSink`]
//! keeps events for assertions, and [`HeldInputs`] plans the OS injections of
//! a real backend while tracking what it holds pressed.
use vstd::prelude::*;

use crate::geometry::Point;
use crate::input::{Button, KeyAction, KeyEvent, MouseEvent};
use std::collections::{HashMap, HashSet};
use vstd::std_specs::iter::IteratorSpec;

verus! {

/// Receives input events destined for this machine.
pub trait InputSink: Send {
    /// The cursor entered this screen; position it at `at` (absolute).
    fn enter(&mut self, at: Point);

    /// The cursor left this screen; release everything still held.
    fn leave(&mut self);

    fn key(&mut self, ev: &KeyEvent);

    fn mouse(&mut self, ev: MouseEvent);
}

/// Discards all input. Useful for `--dry-run` and headless runs.
#[derive(Debug, Default, Clone, Copy)]
pub struct NullSink;

impl InputSink for NullSink {
    fn enter(&mut self, at: Point) {
    }

    fn leave(&mut self) {
    }

    fn key(&mut self, ev: &KeyEvent) {
    }

    fn mouse(&mut self, ev: MouseEvent) {
    }
}

/// Records every event for test assertions.
#[derive(Debug)]
pub struct RecordingSink {
    pub enters: Vec<Point>,
    pub leaves: usize,
    pub keys: Vec<KeyEvent>,
    pub mice: Vec<MouseEvent>,
}

impl Default for RecordingSink {
    fn default() -> (s: RecordingSink)
        ensures
            s.enters@ == Seq::<Point>::empty(),
            s.leaves == 0,
            s.keys@ == Seq::<KeyEvent>::empty(),
            s.mice@ == Seq::<MouseEvent>::empty(),
    {
        RecordingSink { enters: Vec::new(), leaves: 0, keys: Vec::new(), mice: Vec::new() }
    }
}

impl InputSink for RecordingSink {
    fn enter(&mut self, at: Point)
        ensures
            final(self).enters@ == old(self).enters@.push(at),
            final(self).leaves == old(self).leaves,
            final(self).keys@ == old(self).keys@,
            final(self).mice@ == old(self).mice@,
    {
        self.enters.push(at);
    }

    /// Counts the leave; the count stops at `usize::MAX`.
    fn leave(&mut self)
        ensures
            final(self).leaves == if old(self).leaves < usize::MAX {
                old(self).leaves + 1
            } else {
                old(self).leaves as int
            },
            final(self).enters@ == old(self).enters@,
            final(self).keys@ == old(self).keys@,
            final(self).mice@ == old(self).mice@,
    {
        self.leaves = self.leaves.saturating_add(1);
    }

    fn key(&mut self, ev: &KeyEvent)
        ensures
            final(self).keys@ == old(self).keys@.push(*ev),
            final(self).enters@ == old(self).enters@,
            final(self).leaves == old(self).leaves,
            final(self).mice@ == old(self).mice@,
    {
        self.keys.push(ev.clone());
    }

    fn mouse(&mut self, ev: MouseEvent)
        ensures
            final(self).mice@ == old(self).mice@.push(ev),
            final(self).enters@ == old(self).enters@,
            final(self).leaves == old(self).leaves,
            final(self).keys@ == old(self).keys@,
    {
        self.mice.push(ev);
    }
}

/// The one-byte code a held mouse button is remembered by.
pub open spec fn button_code(b: Button) -> u8 {
    match b {
        Button::Left => 0,
        Button::Middle => 1,
        Button::Right => 2,
        Button::Back => 3,
        Button::Forward => 4,
        Button::Extra(n) => if n <= 245 {
            (10 + n) as u8
        } else {
            255
        },
    }
}

/// The button a code stands for.
pub open spec fn button_of_code(code: u8) -> Button {
    match code {
        0 => Button::Left,
        1 => Button::Middle,
        2 => Button::Right,
        3 => Button::Back,
        4 => Button::Forward,
        n => Button::Extra(if n >= 10 {
            (n - 10) as u8
        } else {
            0
        }),
    }
}

pub fn encode_button(b: Button) -> (code: u8)
    ensures
        code == button_code(b),
{
    match b {
        Button::Left => 0,
        Button::Middle => 1,
        Button::Right => 2,
        Button::Back => 3,
        Button::Forward => 4,
        Button::Extra(n) => 10u8.saturating_add(n),
    }
}

pub fn decode_button(code: u8) -> (b: Button)
    ensures
        b == button_of_code(code),
{
    match code {
        0 => Button::Left,
        1 => Button::Middle,
        2 => Button::Right,
        3 => Button::Back,
        4 => Button::Forward,
        n => Button::Extra(n.saturating_sub(10)),
    }
}

/// Decoding the code of a button gives the button back, for every named
/// button and every extra button up to 245; beyond that the code saturates.
pub proof fn lemma_button_code_roundtrip(b: Button)
    ensures
        !(b matches Button::Extra(n) && n > 245) ==> button_of_code(button_code(b)) == b,
        b matches Button::Extra(n) && n > 245 ==> button_of_code(button_code(b)) == Button::Extra(
            245,
        ),
{
}

/// One OS injection a backend performs.
#[derive(Debug, Clone, Copy, PartialEq, Eq, Structural)]
pub enum InjectStep {
    /// Press or release the key that produces `ch`.
    Key { ch: char, press: bool },
    /// Put the cursor at `(x, y)`.
    MoveAbs { x: i32, y: i32 },
    /// Move the cursor by `(dx, dy)`.
    MoveRel { dx: i32, dy: i32 },
    /// Press or release a mouse button.
    Button { button: Button, press: bool },
    /// Scroll by whole notches, horizontally or vertically.
    Scroll { notches: i32, horizontal: bool },
}

/// Whole wheel notches in a delta of 120-per-notch units, rounding toward
/// zero.
pub open spec fn notches(delta: int) -> int {
    if delta >= 0 {
        delta / 120
    } else {
        -((-delta) / 120)
    }
}

/// The injections for a mouse event, in the order they are attempted; a
/// backend stops at the first that fails.
pub open spec fn mouse_steps(ev: MouseEvent) -> Seq<InjectStep> {
    match ev {
        MouseEvent::MoveAbs { x, y } => seq![InjectStep::MoveAbs { x, y }],
        MouseEvent::MoveRel { dx, dy } => seq![InjectStep::MoveRel { dx, dy }],
        MouseEvent::Button { button, down } => seq![InjectStep::Button { button, press: down }],
        MouseEvent::Wheel { dx, dy } => (if dx != 0 {
            seq![InjectStep::Scroll { notches: notches(dx as int) as i32, horizontal: true }]
        } else {
            Seq::empty()
        }) + (if dy != 0 {
            seq![InjectStep::Scroll { notches: -notches(dy as int) as i32, horizontal: false }]
        } else {
            Seq::empty()
        }),
    }
}

/// The injection for a key event, if the event carries a character.
pub open spec fn key_step(ev: KeyEvent) -> Option<InjectStep> {
    match ev.ch {
        Some(c) => Some(InjectStep::Key { ch: c, press: !(ev.action matches KeyAction::Up) }),
        None => None,
    }
}

/// A plan injects what the event says: a button event presses or releases
/// that very button as the event is down or up, so a release plans the
/// inverse of a press; moves keep their coordinates; wheel notches have the
/// sign of the delta (vertical ones inverted) and count only whole notches;
/// a key with a character is pressed by it on `Down` and `Repeat` and released
/// on `Up`, and a key without one injects nothing.
pub proof fn lemma_plans_follow_events(b: Button, down: bool, x: i32, y: i32, ev: KeyEvent)
    ensures
        mouse_steps(MouseEvent::Button { button: b, down }) == seq![
            InjectStep::Button { button: b, press: down },
        ],
        mouse_steps(MouseEvent::Button { button: b, down: true })[0] matches InjectStep::Button {
            button: pb,
            press: true,
        } && pb == b,
        mouse_steps(MouseEvent::Button { button: b, down: false })[0] matches InjectStep::Button {
            button: rb,
            press: false,
        } && rb == b,
        mouse_steps(MouseEvent::MoveAbs { x, y }) == seq![InjectStep::MoveAbs { x, y }],
        mouse_steps(MouseEvent::MoveRel { dx: x, dy: y }) == seq![
            InjectStep::MoveRel { dx: x, dy: y },
        ],
        mouse_steps(MouseEvent::Wheel { dx: 0, dy: 0 }).len() == 0,
        ev.ch is None ==> key_step(ev) is None,
        ev.ch matches Some(c) ==> key_step(ev) == Some(
            InjectStep::Key { ch: c, press: ev.action != KeyAction::Up },
        ),
{
}

/// A wheel event scrolls horizontally exactly when it has a horizontal
/// delta and vertically exactly when it has a vertical one, horizontal
/// first; the horizontal count follows the delta's sign and the vertical one
/// is opposite to it (a positive delta scrolls up).
pub proof fn lemma_wheel_plan(dx: i32, dy: i32)
    ensures
        mouse_steps(MouseEvent::Wheel { dx, dy }).len() == (if dx != 0 { 1int } else { 0 }) + (
        if dy != 0 {
            1int
        } else {
            0
        }),
        dx != 0 ==> mouse_steps(MouseEvent::Wheel { dx, dy })[0] == (InjectStep::Scroll {
            notches: notches(dx as int) as i32,
            horizontal: true,
        }),
        dy != 0 ==> mouse_steps(MouseEvent::Wheel { dx, dy }).last() == (InjectStep::Scroll {
            notches: -notches(dy as int) as i32,
            horizontal: false,
        }),
        dy != 0 ==> (dy > 0 ==> -notches(dy as int) <= 0) && (dy < 0 ==> -notches(dy as int)
            >= 0),
{
}

/// Whole notches in a wheel delta: the count carries the delta's sign and
/// is the largest whole number of 120-unit notches within it.
pub proof fn lemma_notches_are_whole(delta: int)
    ensures
        delta >= 0 ==> 0 <= notches(delta) && notches(delta) * 120 <= delta < (notches(delta) + 1)
            * 120,
        delta < 0 ==> notches(delta) <= 0 && (notches(delta) - 1) * 120 < delta <= notches(delta)
            * 120,
{
}

/// No two entries of a held-key list are for the same key.
pub open spec fn hids_distinct(s: Seq<(u16, Option<char>)>) -> bool {
    forall|i: int, j: int| 0 <= i < s.len() && 0 <= j < s.len() && i != j ==> s[i].0 != s[j].0
}

/// `ks` lists the held keys `m`: one entry per key, each with the character
/// the key is held under.
pub open spec fn lists_keys(ks: Seq<(u16, Option<char>)>, m: Map<u16, Option<char>>) -> bool {
    &&& hids_distinct(ks)
    &&& forall|i: int| 0 <= i < ks.len() ==> #[trigger] m.contains_key(ks[i].0) && m[ks[i].0] == ks[i].1
    &&& forall|k: u16| #[trigger] m.contains_key(k) ==> exists|i: int| 0 <= i < ks.len() && ks[i].0 == k
}

/// `bs` lists the held buttons `set`, each once.
pub open spec fn lists_buttons(bs: Seq<u8>, set: Set<u8>) -> bool {
    &&& bs.no_duplicates()
    &&& bs.to_set() == set
}

/// The releases for a list of held keys, in order: one per key that was
/// pressed by a character; a key pressed without one injected nothing.
pub open spec fn key_releases(s: Seq<(u16, Option<char>)>) -> Seq<InjectStep>
    decreases s.len(),
{
    if s.len() == 0 {
        Seq::empty()
    } else {
        let r = key_releases(s.drop_last());
        match s.last().1 {
            Some(c) => r.push(InjectStep::Key { ch: c, press: false }),
            None => r,
        }
    }
}

/// The releases for a list of held buttons, in order.
pub open spec fn button_releases(s: Seq<u8>) -> Seq<InjectStep> {
    s.map_values(|c: u8| InjectStep::Button { button: button_of_code(c), press: false })
}

/// The release planned for one held key: one step if it was pressed by a
/// character, none otherwise.
pub open spec fn release_of(k: (u16, Option<char>)) -> Seq<InjectStep> {
    match k.1 {
        Some(ch) => seq![InjectStep::Key { ch, press: false }],
        None => Seq::empty(),
    }
}

/// The character a held key was pressed by (any character if none).
pub open spec fn char_of(k: (u16, Option<char>)) -> char {
    match k.1 {
        Some(c) => c,
        None => ' ',
    }
}

/// A key pressed by a character is released by it, in one step; a key
/// pressed without one needs no release.
proof fn lemma_release_of(k: (u16, Option<char>))
    ensures
        has_char(k) ==> release_of(k) == seq![InjectStep::Key { ch: char_of(k), press: false }],
        !has_char(k) ==> release_of(k).len() == 0,
{
}

/// The releases of a list whose last key was pressed by `ch`.
proof fn lemma_key_releases_step_char(ks: Seq<(u16, Option<char>)>, ch: char)
    requires
        ks.len() > 0,
        ks.last().1 == Some(ch),
    ensures
        key_releases(ks) == key_releases(ks.drop_last()) + release_of(ks.last()),
{
    let r = key_releases(ks.drop_last());
    assert(release_of(ks.last()) == seq![InjectStep::Key { ch, press: false }]);
    assert(key_releases(ks) == r.push(InjectStep::Key { ch, press: false }));
    assert(r.push(InjectStep::Key { ch, press: false }) =~= r + release_of(ks.last()));
}

/// The releases of a list whose last key was pressed without a character.
proof fn lemma_key_releases_step_none(ks: Seq<(u16, Option<char>)>)
    requires
        ks.len() > 0,
        ks.last().1 == None::<char>,
    ensures
        key_releases(ks) == key_releases(ks.drop_last()) + release_of(ks.last()),
{
    let r = key_releases(ks.drop_last());
    assert(release_of(ks.last()) == Seq::<InjectStep>::empty());
    assert(key_releases(ks) == r);
    assert(r =~= r + release_of(ks.last()));
}

/// The releases of a list are those of all but its last key, then the last
/// key's release.
proof fn lemma_key_releases_step(ks: Seq<(u16, Option<char>)>)
    requires
        ks.len() > 0,
    ensures
        key_releases(ks) == key_releases(ks.drop_last()) + release_of(ks.last()),
{
    if has_char(ks.last()) {
        let ch = char_of(ks.last());
        assert(ks.last().1 == Some(ch));
        lemma_key_releases_step_char(ks, ch);
    } else {
        lemma_key_releases_step_none(ks);
    }
}

/// The held key was pressed by a character.
pub open spec fn has_char(k: (u16, Option<char>)) -> bool {
    k.1 is Some
}

/// Leaving releases and never presses: every planned step is a release;
/// each listed key pressed by a character gets a release of that character,
/// no release names a character no listed key was pressed by, and there is
/// one release per such key. Every listed button is released, as the button
/// its code stands for, one step per button.
pub proof fn lemma_releases_cover_held(ks: Seq<(u16, Option<char>)>, bs: Seq<u8>)
    ensures
        forall|j: int| 0 <= j < key_releases(ks).len() ==> (#[trigger] key_releases(ks)[j] matches InjectStep::Key {
            ch,
            press: false,
        } && exists|i: int| 0 <= i < ks.len() && ks[i].1 == Some(ch)),
        forall|i: int| 0 <= i < ks.len() ==> (#[trigger] ks[i].1 matches Some(c) ==> key_releases(ks).contains(
            InjectStep::Key { ch: c, press: false },
        )),
        key_releases(ks).len() == ks.filter(|k: (u16, Option<char>)| has_char(k)).len(),
        button_releases(bs).len() == bs.len(),
        forall|j: int| 0 <= j < bs.len() ==> #[trigger] button_releases(bs)[j] == (InjectStep::Button {
            button: button_of_code(bs[j]),
            press: false,
        }),
    decreases ks.len(),
{
    if ks.len() > 0 {
        let d = ks.drop_last();
        lemma_releases_cover_held(d, bs);
        assert(ks.filter(|k: (u16, Option<char>)| has_char(k)).len() == d.filter(
            |k: (u16, Option<char>)| has_char(k),
        ).len() + if has_char(ks.last()) {
            1int
        } else {
            0int
        }) by {
            reveal_with_fuel(Seq::filter, 1);
        }
        let r = key_releases(d);
        let k = ks.last();
        lemma_key_releases_step(ks);
        let all = key_releases(ks);
        assert(all == r + release_of(k));
        lemma_release_of(k);
        assert forall|j: int| 0 <= j < all.len() implies (#[trigger] all[j] matches InjectStep::Key {
            ch,
            press: false,
        } && exists|i: int| 0 <= i < ks.len() && ks[i].1 == Some(ch)) by {
            if j < r.len() {
                assert(all[j] == r[j]);
                let ch = r[j]->ch;
                let i = choose|i: int| 0 <= i < d.len() && d[i].1 == Some(ch);
                assert(ks[i] == d[i]);
            } else {
                let ch = char_of(k);
                assert(k.1 == Some(ch));
                assert(release_of(k) == seq![InjectStep::Key { ch, press: false }]);
                assert(all[j] == release_of(k)[j - r.len()]);
                assert(ks[ks.len() - 1] == k);
            }
        }
        assert forall|i: int| 0 <= i < ks.len() implies (#[trigger] ks[i].1 matches Some(c) ==> all.contains(
            InjectStep::Key { ch: c, press: false },
        )) by {
            if has_char(ks[i]) {
                let c = char_of(ks[i]);
                assert(ks[i].1 == Some(c));
                if i < d.len() {
                    assert(d[i] == ks[i]);
                    assert(r.contains(InjectStep::Key { ch: c, press: false }));
                    let j = choose|j: int| 0 <= j < r.len() && r[j] == InjectStep::Key { ch: c, press: false };
                    assert(all[j] == r[j]);
                } else {
                    assert(ks[i] == k);
                    assert(release_of(k) == seq![InjectStep::Key { ch: c, press: false }]);
                    assert(all[r.len() as int] == InjectStep::Key { ch: c, press: false });
                }
            }
        }
    }
}

/// The keys and mouse buttons a backend holds pressed, so that leaving the
/// screen can release them.
#[derive(Debug)]
pub struct HeldInputs {
    /// Each held key's HID code, with the character it was pressed by.
    keys: HashMap<u16, Option<char>>,
    /// The codes of the held buttons.
    buttons: HashSet<u8>,
}

impl HeldInputs {
    /// The keys held pressed: each HID code mapped to the character it was
    /// pressed with, if any.
    pub closed spec fn held_keys(self) -> Map<u16, Option<char>> {
        self.keys@
    }

    /// The codes of the buttons held pressed.
    pub closed spec fn held_buttons(self) -> Set<u8> {
        self.buttons@
    }

    pub fn new() -> (h: HeldInputs)
        ensures
            h.held_keys() == Map::<u16, Option<char>>::empty(),
            h.held_buttons() == Set::<u8>::empty(),
    {
        HeldInputs { keys: HashMap::new(), buttons: HashSet::new() }
    }

    /// Plan a key event: a press is remembered with the character it is
    /// injected by, a release forgotten, and the key is injected by its
    /// character when it has one.
    pub fn on_key(&mut self, ev: &KeyEvent) -> (step: Option<InjectStep>)
        ensures
            step == key_step(*ev),
            final(self).held_buttons() == old(self).held_buttons(),
            final(self).held_keys() == match ev.action {
                KeyAction::Down => old(self).held_keys().insert(ev.hid, ev.ch),
                KeyAction::Up => old(self).held_keys().remove(ev.hid),
                KeyAction::Repeat(_) => old(self).held_keys(),
            },
    {
        match ev.action {
            KeyAction::Down => {
                self.keys.insert(ev.hid, ev.ch);
            },
            KeyAction::Up => {
                self.keys.remove(&ev.hid);
            },
            KeyAction::Repeat(_) => {},
        }
        match ev.ch {
            Some(c) => Some(InjectStep::Key { ch: c, press: !matches!(ev.action, KeyAction::Up) }),
            None => None,
        }
    }

    /// Plan a mouse event: a button press is remembered, a release
    /// forgotten.
    pub fn on_mouse(&mut self, ev: MouseEvent) -> (steps: Vec<InjectStep>)
        ensures
            steps@ == mouse_steps(ev),
            final(self).held_keys() == old(self).held_keys(),
            final(self).held_buttons() == match ev {
                MouseEvent::Button { button, down } => if down {
                    old(self).held_buttons().insert(button_code(button))
                } else {
                    old(self).held_buttons().remove(button_code(button))
                },
                _ => old(self).held_buttons(),
            },
    {
        let mut steps: Vec<InjectStep> = Vec::new();
        match ev {
            MouseEvent::MoveAbs { x, y } => {
                steps.push(InjectStep::MoveAbs { x, y });
            },
            MouseEvent::MoveRel { dx, dy } => {
                steps.push(InjectStep::MoveRel { dx, dy });
            },
            MouseEvent::Button { button, down } => {
                let code = encode_button(button);
                if down {
                    self.buttons.insert(code);
                } else {
                    self.buttons.remove(&code);
                }
                steps.push(InjectStep::Button { button, press: down });
            },
            MouseEvent::Wheel { dx, dy } => {
                if dx != 0 {
                    steps.push(InjectStep::Scroll { notches: dx / 120, horizontal: true });
                }
                if dy != 0 {
                    steps.push(InjectStep::Scroll { notches: -(dy / 120), horizontal: false });
                }
            },
        }
        assert(steps@ =~= mouse_steps(ev));
        steps
    }

    /// Plan leaving the screen: every held key that was pressed by a
    /// character is released by that character, then every held button is
    /// released; each once, in the order the sets are walked. Afterwards
    /// nothing is held.
    pub fn on_leave(&mut self) -> (steps: Vec<InjectStep>)
        ensures
            exists|ks: Seq<(u16, Option<char>)>, bs: Seq<u8>|
                {
                    &&& lists_keys(ks, old(self).held_keys())
                    &&& lists_buttons(bs, old(self).held_buttons())
                    &&& steps@ == key_releases(ks) + button_releases(bs)
                },
            final(self).held_keys() == Map::<u16, Option<char>>::empty(),
            final(self).held_buttons() == Set::<u8>::empty(),
    {
        let ghost ks = vstd::std_specs::hash::spec_hash_map_iter(&self.keys).remaining().unref();
        let ghost m = self.keys@;
        let mut steps: Vec<InjectStep> = Vec::new();
        for (_hid, ch) in it: self.keys.iter()
            invariant
                it.seq() == vstd::std_specs::hash::spec_hash_map_iter(&self.keys).remaining(),
                ks == it.seq().unref(),
                steps@ == key_releases(ks.take(it.index() as int)),
        {
            assert(ks.take(it.index() + 1).drop_last() =~= ks.take(it.index() as int));
            match ch {
                Some(c) => {
                    steps.push(InjectStep::Key { ch: *c, press: false });
                },
                None => {},
            }
        }
        proof {
            assert(ks.take(ks.len() as int) =~= ks);
            let v = vstd::std_specs::hash::spec_hash_map_iter(&self.keys).remaining();
            assert forall|i: int| 0 <= i < ks.len() implies #[trigger] m.contains_key(ks[i].0)
                && m[ks[i].0] == ks[i].1 by {
                assert(m.contains_key(*v[i].0) && m[*v[i].0] == *v[i].1);
            }
            assert forall|k: u16| #[trigger] m.contains_key(k) implies exists|i: int|
                0 <= i < ks.len() && ks[i].0 == k by {
                assert(v.contains((&k, &m[k])));
                let i = choose|i: int| 0 <= i < v.len() && v[i] == (&k, &m[k]);
                assert(ks[i].0 == k);
            }
            assert(hids_distinct(ks)) by {
                assert forall|i: int, j: int|
                    0 <= i < ks.len() && 0 <= j < ks.len() && i != j implies ks[i].0 != ks[j].0 by {
                    assert(m.contains_key(*v[i].0) && m[*v[i].0] == *v[i].1);
                    assert(m.contains_key(*v[j].0) && m[*v[j].0] == *v[j].1);
                    if ks[i].0 == ks[j].0 {
                        assert(v[i] == v[j]);
                    }
                }
            }
            assert(lists_keys(ks, m));
        }
        let ghost bs = vstd::std_specs::hash::spec_hash_keys_iter(&self.buttons).remaining().unref();
        let ghost keys_part = steps@;
        for code in it: self.buttons.iter()
            invariant
                it.seq() == vstd::std_specs::hash::spec_hash_keys_iter(&self.buttons).remaining(),
                bs == it.seq().unref(),
                steps@ == keys_part + button_releases(bs.take(it.index() as int)),
        {
            assert(bs.take(it.index() + 1) =~= bs.take(it.index() as int).push(*code));
            steps.push(InjectStep::Button { button: decode_button(*code), press: false });
            assert(steps@ =~= keys_part + button_releases(bs.take(it.index() + 1)));
        }
        proof {
            assert(bs.take(bs.len() as int) =~= bs);
            assert(lists_buttons(bs, self.buttons@));
        }
        self.keys.clear();
        self.buttons.clear();
        steps
    }
}

} // verus!
