//! Opening the camera and reporting why it failed: the order in which pixel
//! formats are tried, and the message shown for an error.
use vstd::prelude::*;
use crate::text::{chars_of, occurs_in};

verus! {

/// One camera frame: `width` x `height` pixels of three bytes, red, green and
/// blue, row by row.
pub struct Frame {
    pub rgb: Vec<u8>,
    pub width: u32,
    pub height: u32,
}

/// The hint for an error whose debug text is `detail`: missing device,
/// missing permission, or a camera held by another program.
pub open spec fn camera_hint(detail: Seq<char>) -> Seq<char> {
    if occurs_in("No such file"@, detail) || occurs_in("V4L2"@, detail) {
        "No camera detected. Is one connected?"@
    } else if occurs_in("Permission"@, detail) || occurs_in("authorization"@, detail) || occurs_in(
        "Not authorized"@,
        detail,
    ) {
        "Check camera permissions."@
    } else if occurs_in("lockForConfiguration"@, detail) || occurs_in("Lock Rejected"@, detail) {
        "Camera is locked by another app. Close other apps using the camera (FaceTime, Zoom, Photo Booth, etc.) and try again."@
    } else {
        Seq::empty()
    }
}

/// The message for an error whose debug text is `detail`: a first line, the
/// hint on a line of its own when there is one, then the detail.
pub open spec fn camera_message(detail: Seq<char>) -> Seq<char> {
    let hint = camera_hint(detail);
    if hint.len() == 0 {
        "Could not open camera.\n"@ + detail
    } else {
        "Could not open camera.\n"@ + hint + "\n"@ + detail
    }
}

/// The debug text of a value, pretty-printed (std's `{:#?}` formatting).
/// What it holds depends on the value's `Debug` implementation; nothing is
/// stated of it.
#[verifier::external_body]
fn pretty_debug<E: std::fmt::Debug>(e: &E) -> String {
    format!("{:#?}", e)
}

/// Whether `pat` occurs in `s`.
fn occurs(pat: &Vec<char>, s: &Vec<char>) -> (found: bool)
    ensures
        found == occurs_in(pat@, s@),
{
    let m = pat.len();
    let n = s.len();
    if m > n {
        return false;
    }
    let mut i: usize = 0;
    while i <= n - m
        invariant
            m == pat@.len(),
            n == s@.len(),
            m <= n,
            i <= n - m + 1,
            forall|k: int| 0 <= k < i ==> #[trigger] s@.subrange(k, k + pat@.len()) != pat@,
        decreases n - m + 1 - i,
    {
        let mut k: usize = 0;
        let mut same = true;
        while k < m
            invariant
                m == pat@.len(),
                n == s@.len(),
                i + m <= n,
                k <= m,
                same == (forall|t: int| 0 <= t < k ==> s@[i + t] == pat@[t]),
            decreases m - k,
        {
            if s[i + k] != pat[k] {
                same = false;
            }
            k = k + 1;
        }
        if same {
            assert(s@.subrange(i as int, i + m) =~= pat@);
            return true;
        }
        assert(s@.subrange(i as int, i + pat@.len()) != pat@) by {
            let t = choose|t: int| 0 <= t < m && s@[i + t] != pat@[t];
            assert(s@.subrange(i as int, i + m)[t] == s@[i + t]);
        }
        i = i + 1;
    }
    assert(!occurs_in(pat@, s@)) by {
        if occurs_in(pat@, s@) {
            let k = choose|k: int| 0 <= k && k + pat@.len() <= s@.len() && #[trigger] s@.subrange(k, k + pat@.len()) == pat@;
            assert(k < i);
        }
    }
    false
}

/// Whether `pat` occurs in the characters `s`.
fn occurs_str(pat: &str, s: &Vec<char>) -> (found: bool)
    ensures
        found == occurs_in(pat@, s@),
{
    let p = chars_of(pat);
    occurs(&p, s)
}

/// The message for a camera error whose debug text is `detail`.
pub fn camera_error_message(detail: &str) -> (msg: String)
    ensures
        msg@ == camera_message(detail@),
{
    let d = chars_of(detail);
    let hint: &str = if occurs_str("No such file", &d) || occurs_str("V4L2", &d) {
        "No camera detected. Is one connected?"
    } else if occurs_str("Permission", &d) || occurs_str("authorization", &d) || occurs_str(
        "Not authorized",
        &d,
    ) {
        "Check camera permissions."
    } else if occurs_str("lockForConfiguration", &d) || occurs_str("Lock Rejected", &d) {
        "Camera is locked by another app. Close other apps using the camera (FaceTime, Zoom, Photo Booth, etc.) and try again."
    } else {
        ""
    };
    proof {
        reveal_strlit("");
    }
    assert(hint@ == camera_hint(detail@));
    let mut msg = String::new();
    msg.append("Could not open camera.\n");
    if !hint.is_empty() {
        msg.append(hint);
        msg.append("\n");
    }
    msg.append(detail);
    msg
}

/// The message for a camera error `e`, built from its pretty-printed debug
/// text.
pub fn format_msg<E: std::fmt::Debug>(e: E) -> (msg: String)
    ensures
        exists|detail: Seq<char>| msg@ == camera_message(detail),
{
    let detail = pretty_debug(&e);
    camera_error_message(detail.as_str())
}

/// Every message starts with the line "Could not open camera." and ends with
/// the error's debug text.
pub proof fn lemma_message_frames_detail(detail: Seq<char>)
    ensures
        camera_message(detail).subrange(0, 23) == "Could not open camera.\n"@,
        camera_message(detail).subrange(
            camera_message(detail).len() - detail.len(),
            camera_message(detail).len() as int,
        ) == detail,
{
    reveal_strlit("Could not open camera.\n");
    let head = "Could not open camera.\n"@;
    let hint = camera_hint(detail);
    let m = camera_message(detail);
    if hint.len() == 0 {
        assert(m.subrange(0, 23) =~= head);
        assert(m.subrange(m.len() - detail.len(), m.len() as int) =~= detail);
    } else {
        assert(m.subrange(0, 23) =~= head);
        assert(m.subrange(m.len() - detail.len(), m.len() as int) =~= detail);
    }
}

} // verus!

verus! {

/// Which of the camera's formats is asked for.
#[derive(PartialEq, Eq, Structural, Debug, Clone, Copy)]
pub enum FormatChoice {
    /// Whatever the camera offers first.
    Any,
    /// The format with the highest resolution.
    HighestResolution,
    /// The format with the highest frame rate.
    HighestFrameRate,
}

/// One way to open the camera: raw YUYV or decoded RGB frames, and a format.
#[derive(PartialEq, Eq, Structural, Debug, Clone, Copy)]
pub struct Strategy {
    pub yuyv: bool,
    pub choice: FormatChoice,
}

/// The ways to open the camera, in the order they are tried: RGB with any
/// format, with the highest resolution, with the highest frame rate, then
/// YUYV with any format.
pub open spec fn strategy_at(k: int) -> Strategy {
    if k == 0 {
        Strategy { yuyv: false, choice: FormatChoice::Any }
    } else if k == 1 {
        Strategy { yuyv: false, choice: FormatChoice::HighestResolution }
    } else if k == 2 {
        Strategy { yuyv: false, choice: FormatChoice::HighestFrameRate }
    } else {
        Strategy { yuyv: true, choice: FormatChoice::Any }
    }
}

/// How many ways there are to open the camera.
pub const STRATEGY_COUNT: usize = 4;

/// What to do next while opening the camera.
pub enum OpenAction {
    /// Try to open the camera this way.
    Try(Strategy),
    /// Every way failed: report this error.
    GiveUp(String),
}

/// Progress through the ways of opening the camera.
pub struct OpenPlan {
    /// Attempts started so far.
    pub tried: usize,
    /// The error of the last failed attempt.
    pub last_err: String,
}

impl OpenPlan {
    /// No attempt yet, no error.
    pub fn new() -> (p: OpenPlan)
        ensures
            p.tried == 0,
            p.last_err@ == Seq::<char>::empty(),
    {
        OpenPlan { tried: 0, last_err: String::new() }
    }

    /// The next step, told how the previous attempt failed (`None` before the
    /// first): remembers the error, then tries the next way, or gives up with
    /// the last error once all four have failed.
    pub fn step(&mut self, failure: Option<String>) -> (action: OpenAction)
        requires
            old(self).tried <= STRATEGY_COUNT,
        ensures
            final(self).tried <= STRATEGY_COUNT,
            final(self).last_err@ == (match failure {
                Some(e) => e@,
                None => old(self).last_err@,
            }),
            old(self).tried < STRATEGY_COUNT ==> final(self).tried == old(self).tried + 1 && action
                == OpenAction::Try(strategy_at(old(self).tried as int)),
            old(self).tried == STRATEGY_COUNT ==> final(self).tried == old(self).tried && (
            action matches OpenAction::GiveUp(e) && e@ == final(self).last_err@),
    {
        match failure {
            Some(e) => {
                self.last_err = e;
            },
            None => {},
        }
        if self.tried < STRATEGY_COUNT {
            let k = self.tried;
            let s = if k == 0 {
                Strategy { yuyv: false, choice: FormatChoice::Any }
            } else if k == 1 {
                Strategy { yuyv: false, choice: FormatChoice::HighestResolution }
            } else if k == 2 {
                Strategy { yuyv: false, choice: FormatChoice::HighestFrameRate }
            } else {
                Strategy { yuyv: true, choice: FormatChoice::Any }
            };
            self.tried = k + 1;
            OpenAction::Try(s)
        } else {
            OpenAction::GiveUp(self.last_err.clone())
        }
    }
}

} // verus!
