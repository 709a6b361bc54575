//! The viewer's state: display toggles, the gray-level table, counters and
//! the text of the last frame, with the effect of each key on them.
use vstd::prelude::*;
use crate::glyphs::{build_lut, lut_for};
use crate::text::{decimal, push_decimal};

verus! {

/// A key read from the terminal.
pub enum Key {
    /// A character key.
    Char(char),
    /// Any other key.
    Other,
}

/// What the viewer does after a key.
#[derive(PartialEq, Eq, Structural, Debug, Clone, Copy)]
pub enum KeyAction {
    /// Leave the viewer.
    Quit,
    /// Go on reading keys.
    Continue,
    /// Write the last frame's plain characters to the next capture file.
    SaveCapture,
}

/// The five display toggles.
#[derive(PartialEq, Eq, Structural, Debug, Clone, Copy)]
pub struct Settings {
    pub invert: bool,
    pub mirror: bool,
    pub transpose: bool,
    pub bw: bool,
    pub output_enabled: bool,
}

/// Whether a key leaves the viewer: `q`, or `c` with Control.
pub open spec fn quits(key: Key, ctrl: bool) -> bool {
    match key {
        Key::Char(c) => c == 'q' || (c == 'c' && ctrl),
        Key::Other => false,
    }
}

/// The toggles after a key: `r` inverts brightness, `m` mirrors, `t`
/// transposes, `b` switches black and white, `s` switches the output; Control
/// does not matter to these.
pub open spec fn settings_after(st: Settings, key: Key) -> Settings {
    match key {
        Key::Char(c) => if c == 'r' {
            Settings { invert: !st.invert, ..st }
        } else if c == 'm' {
            Settings { mirror: !st.mirror, ..st }
        } else if c == 't' {
            Settings { transpose: !st.transpose, ..st }
        } else if c == 'b' {
            Settings { bw: !st.bw, ..st }
        } else if c == 's' {
            Settings { output_enabled: !st.output_enabled, ..st }
        } else {
            st
        },
        Key::Other => st,
    }
}

/// What the viewer does after a key, given whether a frame has been rendered
/// (its plain text is not empty): quit, save a capture on `c` when there is
/// something to save, or go on.
pub open spec fn action_after(key: Key, ctrl: bool, has_frame: bool) -> KeyAction {
    if quits(key, ctrl) {
        KeyAction::Quit
    } else if key == Key::Char('c') && has_frame {
        KeyAction::SaveCapture
    } else {
        KeyAction::Continue
    }
}

/// The name of capture file number `index`.
pub open spec fn capture_name(index: u32) -> Seq<char> {
    "capture_"@ + decimal(index as nat) + ".txt"@
}

/// Pressing the same key twice leaves the toggles as they were.
pub proof fn lemma_key_twice_restores(st: Settings, key: Key)
    ensures
        settings_after(settings_after(st, key), key) == st,
{
}

/// The toggles after a sequence of keys, pressed in order.
pub open spec fn settings_after_keys(st: Settings, keys: Seq<Key>) -> Settings
    decreases keys.len(),
{
    if keys.len() == 0 {
        st
    } else {
        settings_after(settings_after_keys(st, keys.drop_last()), keys.last())
    }
}

/// How often the character key `c` occurs in `keys`.
pub open spec fn presses(keys: Seq<Key>, c: char) -> nat
    decreases keys.len(),
{
    if keys.len() == 0 {
        0
    } else {
        presses(keys.drop_last(), c) + if keys.last() == Key::Char(c) {
            1nat
        } else {
            0nat
        }
    }
}

/// After a sequence of keys, each toggle has flipped once for each press of
/// its key: it differs from where it started exactly when its key was pressed
/// an odd number of times.
pub proof fn lemma_keys_toggle_per_press(st: Settings, keys: Seq<Key>)
    ensures
        settings_after_keys(st, keys).invert == (st.invert != (presses(keys, 'r') % 2 == 1)),
        settings_after_keys(st, keys).mirror == (st.mirror != (presses(keys, 'm') % 2 == 1)),
        settings_after_keys(st, keys).transpose == (st.transpose != (presses(keys, 't') % 2
            == 1)),
        settings_after_keys(st, keys).bw == (st.bw != (presses(keys, 'b') % 2 == 1)),
        settings_after_keys(st, keys).output_enabled == (st.output_enabled != (presses(keys, 's')
            % 2 == 1)),
    decreases keys.len(),
{
    if keys.len() > 0 {
        lemma_keys_toggle_per_press(st, keys.drop_last());
    }
}

/// Only `q` (with or without Control) and `c` with Control leave the viewer;
/// a capture is asked for only by `c` without Control when there is a frame;
/// any other key, and every key that is not a character whatever the
/// modifiers, goes on and changes no setting.
pub proof fn lemma_key_outcomes(st: Settings, key: Key, ctrl: bool, has_frame: bool)
    ensures
        (action_after(key, ctrl, has_frame) == KeyAction::Quit) <==> (key == Key::Char('q') || (key
            == Key::Char('c') && ctrl)),
        (action_after(key, ctrl, has_frame) == KeyAction::SaveCapture) <==> (key == Key::Char('c')
            && !ctrl && has_frame),
        key == Key::Other ==> action_after(key, ctrl, has_frame) == KeyAction::Continue
            && settings_after(st, key) == st,
        (action_after(key, ctrl, has_frame) == KeyAction::Quit) ==> settings_after(st, key) == st,
{
}

/// Distinct capture numbers give distinct file names, so captures of one run
/// never overwrite each other.
pub proof fn lemma_capture_names_distinct(a: u32, b: u32)
    requires
        a != b,
    ensures
        capture_name(a) != capture_name(b),
{
    crate::text::lemma_decimal_injective(a as nat, b as nat);
    reveal_strlit("capture_");
    reveal_strlit(".txt");
    if capture_name(a) == capture_name(b) {
        let pa = "capture_"@ + decimal(a as nat);
        let pb = "capture_"@ + decimal(b as nat);
        assert(capture_name(a).len() == capture_name(b).len());
        assert(pa.len() == pb.len());
        assert(pa =~= capture_name(a).subrange(0, pa.len() as int));
        assert(pb =~= capture_name(b).subrange(0, pb.len() as int));
        assert(decimal(a as nat) =~= pa.subrange(8, pa.len() as int));
        assert(decimal(b as nat) =~= pb.subrange(8, pb.len() as int));
    }
}

/// What to do with the frame output after a frame.
#[derive(PartialEq, Eq, Structural, Debug, Clone, Copy)]
pub enum OutputStep {
    /// Output is on but not running: start it, then send the frame if it
    /// started.
    Start,
    /// Output is on and running: send the frame.
    Send,
    /// Output is off: stop it if it runs.
    Stop,
}

/// What to do with the frame output, given whether it is switched on and
/// whether it is running.
pub fn output_step(enabled: bool, running: bool) -> (step: OutputStep)
    ensures
        step == if !enabled {
            OutputStep::Stop
        } else if running {
            OutputStep::Send
        } else {
            OutputStep::Start
        },
{
    if !enabled {
        OutputStep::Stop
    } else if running {
        OutputStep::Send
    } else {
        OutputStep::Start
    }
}

/// Display settings and counters of the viewer.
pub struct ViewState {
    /// Bright pixels take the dark end of the ramp.
    pub invert: bool,
    /// The picture is mirrored horizontally.
    pub mirror: bool,
    /// The frame is read with rows and columns swapped.
    pub transpose: bool,
    /// Characters are printed white instead of in their pixel colour.
    pub bw: bool,
    /// Frames go to the virtual camera or stream output.
    pub output_enabled: bool,
    /// Character for each gray level.
    pub lut: [char; 256],
    /// Frames rendered so far.
    pub frame_count: u64,
    /// Number of the next capture file.
    pub capture_index: u32,
    /// Plain characters of the last rendered frame.
    pub last_frame_plain: String,
}

impl ViewState {
    /// The table agrees with the invert setting.
    pub open spec fn wf(&self) -> bool {
        self.lut@ == lut_for(self.invert)
    }

    /// The five toggles.
    pub open spec fn settings(&self) -> Settings {
        Settings {
            invert: self.invert,
            mirror: self.mirror,
            transpose: self.transpose,
            bw: self.bw,
            output_enabled: self.output_enabled,
        }
    }

    /// The state at start-up: the given settings, the matching table, no
    /// frames, no captures.
    pub fn new(invert: bool, mirror: bool, transpose: bool, bw: bool, output_enabled: bool) -> (s:
        ViewState)
        ensures
            s.wf(),
            s.invert == invert,
            s.mirror == mirror,
            s.transpose == transpose,
            s.bw == bw,
            s.output_enabled == output_enabled,
            s.frame_count == 0,
            s.capture_index == 0,
            s.last_frame_plain@ == Seq::<char>::empty(),
    {
        ViewState {
            invert,
            mirror,
            transpose,
            bw,
            output_enabled,
            lut: build_lut(invert),
            frame_count: 0,
            capture_index: 0,
            last_frame_plain: String::new(),
        }
    }

    /// The five toggles.
    pub fn current_settings(&self) -> (st: Settings)
        ensures
            st == self.settings(),
    {
        Settings {
            invert: self.invert,
            mirror: self.mirror,
            transpose: self.transpose,
            bw: self.bw,
            output_enabled: self.output_enabled,
        }
    }

    /// Applies one key: toggles a setting (rebuilding the table when the
    /// brightness is inverted) and says whether to quit, save a capture, or go
    /// on. Counters and the last frame are left as they are.
    pub fn handle_key(&mut self, key: Key, ctrl: bool) -> (action: KeyAction)
        ensures
            final(self).lut@ == if key == Key::Char('r') {
                lut_for(final(self).invert)
            } else {
                old(self).lut@
            },
            old(self).wf() ==> final(self).wf(),
            final(self).settings() == settings_after(old(self).settings(), key),
            action == action_after(key, ctrl, old(self).last_frame_plain@.len() > 0),
            final(self).frame_count == old(self).frame_count,
            final(self).capture_index == old(self).capture_index,
            final(self).last_frame_plain == old(self).last_frame_plain,
    {
        match key {
            Key::Char(c) => {
                if c == 'c' && ctrl {
                    KeyAction::Quit
                } else if c == 'q' {
                    KeyAction::Quit
                } else if c == 'r' {
                    self.invert = !self.invert;
                    self.lut = build_lut(self.invert);
                    KeyAction::Continue
                } else if c == 'm' {
                    self.mirror = !self.mirror;
                    KeyAction::Continue
                } else if c == 't' {
                    self.transpose = !self.transpose;
                    KeyAction::Continue
                } else if c == 'b' {
                    self.bw = !self.bw;
                    KeyAction::Continue
                } else if c == 's' {
                    self.output_enabled = !self.output_enabled;
                    KeyAction::Continue
                } else if c == 'c' {
                    if !self.last_frame_plain.as_str().is_empty() {
                        KeyAction::SaveCapture
                    } else {
                        KeyAction::Continue
                    }
                } else {
                    KeyAction::Continue
                }
            },
            Key::Other => KeyAction::Continue,
        }
    }

    /// The name of the file the next capture goes to.
    pub fn capture_file_name(&self) -> (name: String)
        ensures
            name@ == capture_name(self.capture_index),
    {
        let mut name = String::new();
        name.append("capture_");
        push_decimal(&mut name, self.capture_index as u64);
        name.append(".txt");
        name
    }

    /// Records that a capture was written: the next goes to the next number.
    pub fn capture_saved(&mut self)
        requires
            old(self).capture_index < u32::MAX,
        ensures
            final(self).capture_index == old(self).capture_index + 1,
            final(self).settings() == old(self).settings(),
            final(self).lut == old(self).lut,
            final(self).frame_count == old(self).frame_count,
            final(self).last_frame_plain == old(self).last_frame_plain,
    {
        self.capture_index = self.capture_index + 1;
    }
}

} // verus!
