//! What the backend reports to the interface: log lines, installer progress,
//! per-file results, and what a close request does.
use vstd::prelude::*;
use crate::text::{chars_of, copy_range, starts_with, starts_with_chars, str_is, string_of};

verus! {

/// One line of FFmpeg's log.
pub struct LogEvent {
    pub line: String,
}

/// A step of the FFmpeg installer, or its error.
pub struct InstallProgress {
    pub step: String,
    pub done: bool,
    pub error: Option<String>,
}

pub open spec fn error_view(e: Option<String>) -> Option<Seq<char>> {
    match e {
        Some(s) => Some(s@),
        None => None,
    }
}

/// How an installer output line is reported: `STATUS:<step>` is a step (the
/// last one is `Done!`), `ERROR:<message>` an error; other lines are not
/// reported.
pub open spec fn install_event(line: Seq<char>) -> Option<(Seq<char>, bool, Option<Seq<char>>)> {
    if starts_with(line, "STATUS:"@) {
        let step = line.skip(7);
        Some((step, step == "Done!"@, None))
    } else if starts_with(line, "ERROR:"@) {
        Some((seq![], false, Some(line.skip(6))))
    } else {
        None
    }
}

pub fn install_progress_from_line(line: &str) -> (r: Option<InstallProgress>)
    ensures
        match r {
            Some(p) => install_event(line@) == Some((p.step@, p.done, error_view(p.error))),
            None => install_event(line@) is None,
        },
{
    let l = chars_of(line);
    let status = chars_of("STATUS:");
    let error = chars_of("ERROR:");
    proof {
        reveal_strlit("STATUS:");
        reveal_strlit("ERROR:");
    }
    if starts_with_chars(l.as_slice(), status.as_slice()) {
        let step = copy_range(l.as_slice(), 7, l.len());
        proof {
            assert(step@ =~= line@.skip(7));
        }
        let step = string_of(step.as_slice());
        let done = str_is(step.as_str(), "Done!");
        Some(InstallProgress { step, done, error: None })
    } else if starts_with_chars(l.as_slice(), error.as_slice()) {
        let msg = copy_range(l.as_slice(), 6, l.len());
        proof {
            assert(msg@ =~= line@.skip(6));
        }
        Some(InstallProgress { step: String::new(), done: false, error: Some(string_of(msg.as_slice())) })
    } else {
        None
    }
}

/// The outcome of one input file.
pub struct FileResult {
    pub file_index: usize,
    pub file_name: String,
    pub output_path: String,
    pub output_size: u64,
    pub success: bool,
    pub cancelled: bool,
    pub error: Option<String>,
}

impl FileResult {
    /// A file whose encode was cancelled: no output, no error.
    pub fn cancelled(file_index: usize, file_name: String) -> (r: FileResult)
        ensures
            r.file_index == file_index,
            r.file_name == file_name,
            r.output_path@ == Seq::<char>::empty(),
            r.output_size == 0,
            !r.success,
            r.cancelled,
            r.error is None,
    {
        FileResult {
            file_index,
            file_name,
            output_path: String::new(),
            output_size: 0,
            success: false,
            cancelled: true,
            error: None,
        }
    }

    /// A file that failed with `error`: no output.
    pub fn failed(file_index: usize, file_name: String, error: String) -> (r: FileResult)
        ensures
            r.file_index == file_index,
            r.file_name == file_name,
            r.output_path@ == Seq::<char>::empty(),
            r.output_size == 0,
            !r.success,
            !r.cancelled,
            r.error == Some(error),
    {
        FileResult {
            file_index,
            file_name,
            output_path: String::new(),
            output_size: 0,
            success: false,
            cancelled: false,
            error: Some(error),
        }
    }

    /// A file encoded to `output_path`, of `output_size` bytes.
    pub fn completed(file_index: usize, file_name: String, output_path: String, output_size: u64) -> (r: FileResult)
        ensures
            r.file_index == file_index,
            r.file_name == file_name,
            r.output_path == output_path,
            r.output_size == output_size,
            r.success,
            !r.cancelled,
            r.error is None,
    {
        FileResult { file_index, file_name, output_path, output_size, success: true, cancelled: false, error: None }
    }
}

/// What the title bar's close button does.
#[derive(PartialEq, Eq, Structural, Clone, Copy, Debug)]
pub enum TitlebarClose {
    /// A compression is running: ask the interface to confirm.
    ConfirmDuringCompression,
    /// Hide the window to the tray.
    HideToTray,
    /// Quit the application.
    Exit,
}

pub open spec fn titlebar_close_spec(running: bool, minimize_to_tray: bool) -> TitlebarClose {
    if running {
        TitlebarClose::ConfirmDuringCompression
    } else if minimize_to_tray {
        TitlebarClose::HideToTray
    } else {
        TitlebarClose::Exit
    }
}

pub fn titlebar_close_action(running: bool, minimize_to_tray: bool) -> (r: TitlebarClose)
    ensures
        r == titlebar_close_spec(running, minimize_to_tray),
{
    if running {
        TitlebarClose::ConfirmDuringCompression
    } else if minimize_to_tray {
        TitlebarClose::HideToTray
    } else {
        TitlebarClose::Exit
    }
}

/// What a window close request from the system does.
#[derive(PartialEq, Eq, Structural, Clone, Copy, Debug)]
pub enum WindowClose {
    /// Keep the window and ask the interface to confirm (a compression runs).
    KeepAndConfirm,
    /// Keep the application and hide the window to the tray.
    KeepAndHide,
    /// Let the window close.
    Close,
}

pub open spec fn window_close_spec(running: bool, allow_close: bool, minimize_to_tray: bool) -> WindowClose {
    if running && !allow_close {
        WindowClose::KeepAndConfirm
    } else if minimize_to_tray && !allow_close {
        WindowClose::KeepAndHide
    } else {
        WindowClose::Close
    }
}

pub fn window_close_action(running: bool, allow_close: bool, minimize_to_tray: bool) -> (r: WindowClose)
    ensures
        r == window_close_spec(running, allow_close, minimize_to_tray),
{
    if running && !allow_close {
        WindowClose::KeepAndConfirm
    } else if minimize_to_tray && !allow_close {
        WindowClose::KeepAndHide
    } else {
        WindowClose::Close
    }
}

/// While a compression runs, neither the close button nor a system close
/// request closes the window unless closing was explicitly allowed; both ask
/// the interface to confirm instead.
pub proof fn lemma_no_silent_close_while_compressing(allow_close: bool, minimize_to_tray: bool)
    ensures
        titlebar_close_spec(true, minimize_to_tray) == TitlebarClose::ConfirmDuringCompression,
        window_close_spec(true, false, minimize_to_tray) == WindowClose::KeepAndConfirm,
        window_close_spec(true, allow_close, minimize_to_tray) == WindowClose::Close ==> allow_close,
{
}

/// An installer line `STATUS:<step>` reports the step, finished exactly when
/// the step is `Done!`; `ERROR:<message>` reports the message; a line that
/// begins with neither reports nothing.
pub proof fn lemma_installer_lines(step: Seq<char>, line: Seq<char>)
    ensures
        install_event("STATUS:"@ + step) == Some((step, step == "Done!"@, None::<Seq<char>>)),
        install_event("ERROR:"@ + step) == Some((Seq::<char>::empty(), false, Some(step))),
        !(line.len() >= 7 && line.take(7) == "STATUS:"@) && !(line.len() >= 6 && line.take(6) == "ERROR:"@) ==> install_event(line)
            is None,
{
    reveal_strlit("STATUS:");
    reveal_strlit("ERROR:");
    let a = "STATUS:"@ + step;
    assert(a.take(7) =~= "STATUS:"@);
    assert(a.skip(7) =~= step);
    let b = "ERROR:"@ + step;
    assert(b.take(6) =~= "ERROR:"@);
    assert(b.skip(6) =~= step);
    if b.len() >= 7 {
        assert(b.take(7)[0] == 'E');
        assert("STATUS:"@[0] == 'S');
    }
}

/// With no compression running, the close button hides the window to the tray
/// when that is enabled and quits otherwise; a system close request hides it
/// when the tray is enabled and closing was not allowed, and closes it
/// otherwise. An allowed close always closes.
pub proof fn lemma_idle_close(minimize_to_tray: bool, running: bool)
    ensures
        titlebar_close_spec(false, minimize_to_tray) == (if minimize_to_tray {
            TitlebarClose::HideToTray
        } else {
            TitlebarClose::Exit
        }),
        window_close_spec(false, false, minimize_to_tray) == (if minimize_to_tray {
            WindowClose::KeepAndHide
        } else {
            WindowClose::Close
        }),
        window_close_spec(running, true, minimize_to_tray) == WindowClose::Close,
{
}

} // verus!
