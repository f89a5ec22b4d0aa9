use vstd::prelude::*;
use crate::text::{chars_to_string, decimal, push_decimal, push_str, push_two_digits, two_digits};

verus! {

/// State of the file transfer dialog: which log tab is shown (0 all
/// messages, 1 warnings, 2 errors).
#[derive(Default)]
pub struct FileTransferDialog {
    pub selected_log: usize,
}

/// The number of log lines a tab lists.
pub open spec fn tab_count(selected_log: usize, log_count: usize, warnings: usize, errors: usize) -> usize {
    if selected_log == 0 {
        log_count
    } else if selected_log == 1 {
        warnings
    } else if selected_log == 2 {
        errors
    } else {
        0
    }
}

impl FileTransferDialog {
    /// Shows the tab of all messages.
    pub fn new() -> (res: Self)
        ensures
            res.selected_log == 0,
    {
        Self { selected_log: 0 }
    }

    /// The number of log lines the selected tab lists, given the numbers of
    /// all messages, of warnings and of errors.
    pub fn shown_log_count(&self, log_count: usize, warnings: usize, errors: usize) -> (res: usize)
        ensures
            res == tab_count(self.selected_log, log_count, warnings, errors),
    {
        if self.selected_log == 0 {
            log_count
        } else if self.selected_log == 1 {
            warnings
        } else if self.selected_log == 2 {
            errors
        } else {
            0
        }
    }
}

/// Whether the dialog stays open after a frame: not when escape is held,
/// its window was closed, or its button was clicked.
pub fn dialog_stays_open(escape_down: bool, window_closed: bool, button_clicked: bool) -> (res: bool)
    ensures
        res == (!escape_down && !window_closed && !button_clicked),
{
    let mut open = true;
    if escape_down {
        open = false;
    }
    if window_closed {
        open = false;
    }
    open && !button_clicked
}

/// `secs` as `mm:ss` (minutes not wrapped, each part at least two digits).
pub open spec fn minutes_seconds(secs: u64) -> Seq<char> {
    two_digits((secs / 60) as nat) + seq![':'] + two_digits((secs % 60) as nat)
}

/// Formats a duration in seconds as `mm:ss`.
pub fn format_minutes_seconds(secs: u64) -> (s: String)
    ensures
        s@ == minutes_seconds(secs),
{
    let mut out: Vec<char> = Vec::new();
    push_two_digits(&mut out, secs / 60);
    out.push(':');
    push_two_digits(&mut out, secs % 60);
    assert(out@ =~= minutes_seconds(secs));
    chars_to_string(out)
}

/// Percentage of a file transferred, in whole percent; an empty file counts
/// as one byte.
pub open spec fn spec_percent(transferred: usize, file_size: usize) -> int {
    (transferred * 100) / (if file_size == 0 { 1 } else { file_size as int })
}

/// Seconds still needed at `bps` bytes per second (at least one) for the
/// bytes not yet transferred.
pub open spec fn spec_time_left(file_size: usize, transferred: usize, bps: u64) -> int {
    let left: int = if transferred <= file_size { file_size - transferred } else { 0 };
    left / (if bps == 0 { 1 } else { bps as int })
}

/// How `gabi::BytesConfig::default()` displays a number of bytes: scaled to
/// the largest power of 1000 that keeps it below 1000, two decimals and
/// the unit.
pub uninterp spec fn byte_size_text(n: u64) -> Seq<char>;

/// Displays `n` bytes with `gabi::BytesConfig::default().bytes(n)`.
/// Trusted: the contract claims that the text is `byte_size_text` of `n`,
/// and, below 1000, the number in decimal followed by ` B`, as the crate's
/// display code writes it for that range.
#[verifier::external_body]
fn format_byte_size(n: u64) -> (s: String)
    ensures
        s@ == byte_size_text(n),
        n < 1000 ==> s@ == decimal(n as nat) + seq![' ', 'B'],
{
    gabi::BytesConfig::default().bytes(n).to_string()
}

/// What the transfer dialog shows of a transfer.
pub struct TransferView {
    /// Whole percent transferred.
    pub percent: usize,
    /// Time since the start, `mm:ss`.
    pub elapsed: String,
    /// Estimated time left, `mm:ss`.
    pub time_left: String,
    /// `p% transferred/size`, byte counts in units.
    pub progress: String,
    /// The transfer rate in units.
    pub rate: String,
}

/// The progress line: percent, then the texts of the transferred and of
/// the total size.
pub open spec fn progress_line_text(percent: int, done_text: Seq<char>, size_text: Seq<char>) -> Seq<char> {
    decimal(percent as nat) + seq!['%', ' '] + done_text + seq!['/'] + size_text
}

/// The progress line of the dialog from the percentage and the displayed
/// byte counts.
pub fn progress_line(percent: usize, done_text: &str, size_text: &str) -> (s: String)
    ensures
        s@ == progress_line_text(percent as int, done_text@, size_text@),
{
    let mut out: Vec<char> = Vec::new();
    push_decimal(&mut out, percent as u64);
    out.push('%');
    out.push(' ');
    push_str(&mut out, done_text);
    out.push('/');
    push_str(&mut out, size_text);
    assert(out@ =~= progress_line_text(percent as int, done_text@, size_text@));
    chars_to_string(out)
}

/// What the transfer dialog shows of a transfer of `file_size` bytes of
/// which `transferred` are done, at `bps` bytes per second, `elapsed_secs`
/// seconds after it began.
pub fn transfer_view(file_size: usize, transferred: usize, bps: u64, elapsed_secs: u64) -> (v: TransferView)
    requires
        transferred * 100 <= usize::MAX,
    ensures
        v.percent == spec_percent(transferred, file_size),
        v.elapsed@ == minutes_seconds(elapsed_secs),
        v.time_left@ == minutes_seconds(spec_time_left(file_size, transferred, bps) as u64),
        v.progress@ == progress_line_text(spec_percent(transferred, file_size), byte_size_text(transferred as u64),
            byte_size_text(file_size as u64)),
        v.rate@ == byte_size_text(bps),
{
    let divisor: usize = if file_size == 0 { 1 } else { file_size };
    let percent: usize = (transferred * 100) / divisor;
    let bytes_left: usize = file_size.saturating_sub(transferred);
    let per_second: u64 = if bps == 0 { 1 } else { bps };
    let left_secs: u64 = (bytes_left as u64) / per_second;
    proof {
        assert(left_secs as int == spec_time_left(file_size, transferred, bps));
    }
    let elapsed = format_minutes_seconds(elapsed_secs);
    let time_left = format_minutes_seconds(left_secs);

    let done_text = format_byte_size(transferred as u64);
    let size_text = format_byte_size(file_size as u64);
    let progress = progress_line(percent, done_text.as_str(), size_text.as_str());
    let rate = format_byte_size(bps);
    TransferView { percent, elapsed, time_left, progress, rate }
}

/// What the main window knows of the running transfer in a frame.
#[derive(Clone, Copy, PartialEq, Eq, Debug, Structural)]
pub enum TransferStatus {
    /// No transfer thread exists.
    NoTransfer,
    /// The transfer's state could not be read.
    Unreadable,
    /// The transfer has finished.
    Finished,
    /// The transfer runs; its dialog is shown.
    Running,
}

/// What to do with the transfer after a frame.
#[derive(Clone, Copy, PartialEq, Eq, Debug, Structural)]
pub struct TransferDecision {
    /// Ask the transfer thread to cancel.
    pub request_cancel: bool,
    /// Join the transfer thread and take the connection back.
    pub join_thread: bool,
}

/// The decision after a frame of the file transfer mode: a missing,
/// unreadable or finished transfer is joined; a running one whose dialog
/// was closed is cancelled and joined; otherwise it goes on.
pub fn transfer_frame(status: TransferStatus, dialog_open: bool) -> (res: TransferDecision)
    ensures
        res.request_cancel == (status == TransferStatus::Running && !dialog_open),
        res.join_thread == (status != TransferStatus::Running || !dialog_open),
{
    match status {
        TransferStatus::Running => {
            if dialog_open {
                TransferDecision { request_cancel: false, join_thread: false }
            } else {
                TransferDecision { request_cancel: true, join_thread: true }
            }
        },
        _ => TransferDecision { request_cancel: false, join_thread: true },
    }
}

} // verus!
