use icy_term::file_transfer::{
    dialog_stays_open, format_minutes_seconds, progress_line, transfer_frame, transfer_view, FileTransferDialog,
    TransferDecision, TransferStatus,
};

#[test]
fn file_transfer_dialog_starts_at_first_log() {
    assert_eq!(FileTransferDialog::new().selected_log, 0);
}

#[test]
fn log_tabs_count_their_lines() {
    let mut dialog = FileTransferDialog::new();
    assert_eq!(dialog.shown_log_count(10, 3, 2), 10);
    dialog.selected_log = 1;
    assert_eq!(dialog.shown_log_count(10, 3, 2), 3);
    dialog.selected_log = 2;
    assert_eq!(dialog.shown_log_count(10, 3, 2), 2);
    dialog.selected_log = 5;
    assert_eq!(dialog.shown_log_count(10, 3, 2), 0);
}

#[test]
fn dialog_closing() {
    assert!(dialog_stays_open(false, false, false));
    assert!(!dialog_stays_open(true, false, false));
    assert!(!dialog_stays_open(false, true, false));
    assert!(!dialog_stays_open(false, false, true));
}

#[test]
fn minutes_and_seconds() {
    assert_eq!(format_minutes_seconds(0), "00:00");
    assert_eq!(format_minutes_seconds(75), "01:15");
    assert_eq!(format_minutes_seconds(6000), "100:00");
}

#[test]
fn transfer_in_progress() {
    let v = transfer_view(2000, 500, 100, 75);
    assert_eq!(v.percent, 25);
    assert_eq!(v.elapsed, "01:15");
    assert_eq!(v.time_left, "00:15");
    assert_eq!(v.progress, "25% 500 B/2.00 KB");
    assert_eq!(v.rate, "100 B");
}

#[test]
fn transfer_of_empty_file_and_zero_rate() {
    let v = transfer_view(0, 0, 0, 0);
    assert_eq!(v.percent, 0);
    assert_eq!(v.time_left, "00:00");
    assert_eq!(v.progress, "0% 0 B/0 B");
    assert_eq!(v.rate, "0 B");
    let w = transfer_view(1500, 0, 0, 59);
    assert_eq!(w.time_left, "25:00");
    assert_eq!(w.elapsed, "00:59");
    assert_eq!(w.progress, "0% 0 B/1.50 KB");
}

#[test]
fn transfer_beyond_file_size() {
    let v = transfer_view(100, 150, 10, 0);
    assert_eq!(v.percent, 150);
    assert_eq!(v.time_left, "00:00");
}

#[test]
fn progress_lines() {
    assert_eq!(progress_line(42, "1.00 KB", "2.38 KB"), "42% 1.00 KB/2.38 KB");
    assert_eq!(progress_line(0, "", ""), "0% /");
}

#[test]
fn transfer_frames() {
    let go_on = TransferDecision { request_cancel: false, join_thread: false };
    let join = TransferDecision { request_cancel: false, join_thread: true };
    let cancel = TransferDecision { request_cancel: true, join_thread: true };
    assert_eq!(transfer_frame(TransferStatus::Running, true), go_on);
    assert_eq!(transfer_frame(TransferStatus::Running, false), cancel);
    assert_eq!(transfer_frame(TransferStatus::Finished, true), join);
    assert_eq!(transfer_frame(TransferStatus::NoTransfer, false), join);
    assert_eq!(transfer_frame(TransferStatus::Unreadable, true), join);
}
