//! The floating window that keeps a hidden tab's audio alive: when it is opened
//! and closed without being asked for.

use vstd::prelude::*;

use crate::text;
use crate::text::decimal;

verus! {

/// What a change of the tab's visibility calls for.
#[derive(Clone, Copy, Debug, PartialEq, Eq, Structural)]
pub enum PipAction {
    /// Open the window and report how that went.
    Pin,
    /// Close the window and report when that is done.
    Unpin,
}

/// Whether the listener is installed, and whether the open window is its doing.
pub struct AutoPip {
    pub installed: bool,
    pub auto_pinned: bool,
}

/// What a change of the tab's visibility calls for, where `open` is whether the
/// window is open already.
pub open spec fn reaction(p: AutoPip, hidden: bool, open: bool) -> Option<PipAction> {
    if hidden {
        if open {
            None
        } else {
            Some(PipAction::Pin)
        }
    } else if p.auto_pinned {
        Some(PipAction::Unpin)
    } else {
        None
    }
}

/// The state once opening the window succeeded or failed.
pub open spec fn after_pin(p: AutoPip, ok: bool) -> AutoPip {
    AutoPip { auto_pinned: p.auto_pinned || ok, ..p }
}

impl AutoPip {
    /// Nothing is installed.
    pub fn new() -> (r: Self)
        ensures
            r == (AutoPip { installed: false, auto_pinned: false }),
    {
        AutoPip { installed: false, auto_pinned: false }
    }

    /// Whether the listener has to be attached: the first time only.
    pub fn install(&mut self) -> (attach: bool)
        ensures
            attach == !old(self).installed,
            *final(self) == (AutoPip { installed: true, ..*old(self) }),
    {
        let attach = !self.installed;
        self.installed = true;
        attach
    }

    /// The tab was hidden or came back; `open` is whether the window is open
    /// already. A window that the user opened stays.
    pub fn visibility_changed(&self, hidden: bool, open: bool) -> (r: Option<PipAction>)
        ensures
            r == reaction(*self, hidden, open),
    {
        if hidden {
            if open {
                None
            } else {
                Some(PipAction::Pin)
            }
        } else if self.auto_pinned {
            Some(PipAction::Unpin)
        } else {
            None
        }
    }

    /// The window was opened, or not. What to tell the display, if anything.
    pub fn pin_done(&mut self, ok: bool) -> (tell: Option<bool>)
        ensures
            *final(self) == after_pin(*old(self), ok),
            tell == if ok {
                Some(true)
            } else {
                None
            },
    {
        if ok {
            self.auto_pinned = true;
            Some(true)
        } else {
            None
        }
    }

    /// The window was closed. What to tell the display.
    pub fn unpin_done(&mut self) -> (tell: bool)
        ensures
            *final(self) == (AutoPip { auto_pinned: false, ..*old(self) }),
            tell == false,
    {
        self.auto_pinned = false;
        false
    }
}

/// A window that the user opened is left alone while the tab goes and comes
/// back; one that was opened because the tab went is closed when it is back.
pub proof fn law_undoes_only_its_own(p: AutoPip)
    requires
        !p.auto_pinned,
    ensures
        reaction(p, true, true) is None,
        reaction(p, false, true) is None,
        reaction(p, true, false) == Some(PipAction::Pin),
        reaction(after_pin(p, true), false, true) == Some(PipAction::Unpin),
        reaction(after_pin(p, false), false, false) is None,
{
}

/// Whether a video is ready to float: a browser refuses one without a size.
pub fn check_video(width: u32, height: u32, ready_state: u16) -> (r: Result<(), String>)
    ensures
        r is Ok <==> width != 0 && height != 0,
        r matches Err(e) ==> e@ == "video metadata still empty after wait (readyState="@
            + text::decimal_spec(ready_state as nat) + "); skipping PiP"@,
{
    if width == 0 || height == 0 {
        let mut e = "video metadata still empty after wait (readyState=".to_owned();
        e.push_str(decimal(ready_state as u64).as_str());
        e.push_str("); skipping PiP");
        Err(e)
    } else {
        Ok(())
    }
}

/// What has to be done to open the window.
#[derive(Clone, Copy, Debug, PartialEq, Eq, Structural)]
pub enum PinStep {
    /// Put a canvas to draw on into the page.
    CreateCanvas,
    /// Put a video into the page.
    CreateVideo,
    /// Start drawing.
    StartAnimation,
    /// Show the canvas in the video.
    AttachStream,
    /// Wait until the video knows its size.
    WaitForMetadata,
    /// Play the video.
    Play,
    /// Wait until a frame was painted.
    WaitForFrame,
    /// Make sure that the video has a size.
    CheckVideo,
    /// Ask the browser for the window.
    RequestWindow,
}

/// What comes before the video is attached. Nothing when the window is open
/// already; canvas and video are made once.
pub open spec fn preparation(open: bool, has_canvas: bool, has_video: bool) -> Seq<PinStep> {
    if open {
        Seq::empty()
    } else {
        (if has_canvas {
            Seq::empty()
        } else {
            seq![PinStep::CreateCanvas]
        }) + (if has_video {
            Seq::empty()
        } else {
            seq![PinStep::CreateVideo]
        }) + seq![PinStep::StartAnimation, PinStep::AttachStream]
    }
}

/// What comes after the video is attached.
pub open spec fn playing(ready_state: u16) -> Seq<PinStep> {
    (if ready_state < 1 {
        seq![PinStep::WaitForMetadata]
    } else {
        Seq::empty()
    }) + seq![
        PinStep::Play,
        PinStep::WaitForFrame,
        PinStep::CheckVideo,
        PinStep::RequestWindow,
    ]
}

/// What has to be done first to open the window. Asking for a window that is
/// open is asking for nothing.
pub fn prepare_pin(open: bool, has_canvas: bool, has_video: bool) -> (steps: Vec<PinStep>)
    ensures
        steps@ == preparation(open, has_canvas, has_video),
{
    let mut steps: Vec<PinStep> = Vec::new();
    if open {
        return steps;
    }
    if !has_canvas {
        steps.push(PinStep::CreateCanvas);
    }
    if !has_video {
        steps.push(PinStep::CreateVideo);
    }
    steps.push(PinStep::StartAnimation);
    steps.push(PinStep::AttachStream);
    assert(steps@ =~= preparation(open, has_canvas, has_video));
    steps
}

/// What has to be done once the video is attached; a browser refuses a video
/// that does not know its size yet.
pub fn finish_pin(ready_state: u16) -> (steps: Vec<PinStep>)
    ensures
        steps@ == playing(ready_state),
{
    let mut steps: Vec<PinStep> = Vec::new();
    if ready_state < 1 {
        steps.push(PinStep::WaitForMetadata);
    }
    steps.push(PinStep::Play);
    steps.push(PinStep::WaitForFrame);
    steps.push(PinStep::CheckVideo);
    steps.push(PinStep::RequestWindow);
    assert(steps@ =~= playing(ready_state));
    steps
}

/// Opening the window makes a canvas and a video where there are none, draws,
/// and shows the drawing in the video, in this order; nothing is done for a
/// window that is open.
pub proof fn law_preparation_in_order(has_canvas: bool, has_video: bool)
    ensures
        preparation(true, has_canvas, has_video).len() == 0,
        preparation(false, true, true) == seq![PinStep::StartAnimation, PinStep::AttachStream],
        preparation(false, false, has_video) == seq![PinStep::CreateCanvas] + preparation(
            false,
            true,
            has_video,
        ),
        preparation(false, true, false) == seq![
            PinStep::CreateVideo,
            PinStep::StartAnimation,
            PinStep::AttachStream,
        ],
{
    assert(preparation(false, true, true) =~= seq![
        PinStep::StartAnimation,
        PinStep::AttachStream,
    ]);
    assert(preparation(false, false, has_video) =~= seq![PinStep::CreateCanvas] + preparation(
        false,
        true,
        has_video,
    ));
    assert(preparation(false, true, false) =~= seq![
        PinStep::CreateVideo,
        PinStep::StartAnimation,
        PinStep::AttachStream,
    ]);
}

/// The video is played and looked at before the window is asked for; where its
/// size is not known yet, that is waited for first.
pub proof fn law_window_is_asked_for_last(ready_state: u16)
    ensures
        ({
            let last = seq![
                PinStep::Play,
                PinStep::WaitForFrame,
                PinStep::CheckVideo,
                PinStep::RequestWindow,
            ];
            &&& ready_state >= 1 ==> playing(ready_state) == last
            &&& ready_state == 0 ==> playing(ready_state) == seq![PinStep::WaitForMetadata] + last
        }),
{
    if ready_state >= 1 {
        assert(playing(ready_state) =~= seq![
            PinStep::Play,
            PinStep::WaitForFrame,
            PinStep::CheckVideo,
            PinStep::RequestWindow,
        ]);
    }
}

/// A video floats only where it has a size.
pub proof fn law_video_needs_a_size(width: u32, height: u32, ready: u16, r: Result<(), String>)
    requires
        call_ensures(check_video, (width, height, ready), r),
    ensures
        r is Ok <==> width > 0 && height > 0,
        r is Err ==> r->Err_0@ == "video metadata still empty after wait (readyState="@
            + text::decimal_spec(ready as nat) + "); skipping PiP"@,
{
}

} // verus!
