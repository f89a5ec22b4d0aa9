use icy_term::dialing_directory::{
    address_index, call_target, clicked_selection, delete_address, dialing_directory_frame, DirectoryAction, DirectoryInput,
    DirectoryState, contains_chars, filter_bbs, find_address_index,
    generate_password, matches_lowered, row_selected, show_quick_connect, AddressCategory,
    AddressRow, DialingDirectoryFilter,
};
use icy_term::rng::Rng;

#[test]
fn filter_defaults_to_all() {
    assert_eq!(DialingDirectoryFilter::default(), DialingDirectoryFilter::All);
    assert_ne!(AddressCategory::Server, AddressCategory::Notes);
}

#[test]
fn address_row() {
    let row = AddressRow::new(true, "bbs.example.org".to_string());
    assert!(row.selected());
    assert!(!row.centered);
    assert_eq!(row.addr(), "bbs.example.org");
}

#[test]
fn finding_addresses_by_id() {
    let ids = vec![7, 3, 9, 3];
    assert_eq!(find_address_index(&ids, 3), Some(1));
    assert_eq!(find_address_index(&ids, 4), None);
    assert_eq!(address_index(&ids, Some(9)), 2);
    assert_eq!(address_index(&ids, Some(4)), 0);
    assert_eq!(address_index(&ids, None), 0);
    assert_eq!(call_target(&ids, None), Some(0));
    assert_eq!(call_target(&ids, Some(3)), Some(1));
    assert_eq!(call_target(&ids, Some(5)), None);
}

#[test]
fn generated_password() {
    let mut rng = Rng::with_seed(7);
    let pw = generate_password(&mut rng);
    assert_eq!(pw, "FQ>dgR;rXiF8Yjei");
    assert_eq!(rng.next(), { let mut r = Rng::with_seed(1249809432); r.next() });
}

#[test]
fn generated_password_characters() {
    let mut rng = Rng::with_seed(99);
    for _ in 0..20 {
        let pw = generate_password(&mut rng);
        assert_eq!(pw.chars().count(), 16);
        assert!(pw.chars().all(|c| ('0'..='z').contains(&c)));
    }
}

#[test]
fn empty_filter_lists_every_address() {
    assert!(filter_bbs("", "Anything", "host.example"));
    assert!(filter_bbs("", "", ""));
}

#[test]
fn filter_ignores_case() {
    assert!(filter_bbs("BBS", "Cool bbs", "x"));
    assert!(filter_bbs("cool", "COOL BBS", "x"));
    assert!(filter_bbs("EXAMPLE", "name", "telnet.example.org"));
    assert!(!filter_bbs("zz", "a", "b"));
    assert!(!filter_bbs("bbsx", "Cool bbs", "bbs"));
}

#[test]
fn contained_runs() {
    let hay: Vec<char> = "abcabd".chars().collect();
    assert!(contains_chars(&hay, &"abd".chars().collect()));
    assert!(contains_chars(&hay, &Vec::new()));
    assert!(!contains_chars(&hay, &"abdx".chars().collect()));
    assert!(!contains_chars(&hay, &"acb".chars().collect()));
    assert!(!contains_chars(&Vec::new(), &"a".chars().collect()));
    assert!(matches_lowered("ab", "xx", "cab"));
    assert!(!matches_lowered("ab", "xx", "ba"));
}

#[test]
fn quick_connect_row() {
    assert!(show_quick_connect(DialingDirectoryFilter::All, ""));
    assert!(!show_quick_connect(DialingDirectoryFilter::Favourites, ""));
    assert!(!show_quick_connect(DialingDirectoryFilter::All, "a"));
    assert!(row_selected(None, 7, 0, true));
    assert!(!row_selected(None, 7, 1, true));
    assert!(!row_selected(None, 7, 0, false));
    assert!(row_selected(Some(7), 7, 3, true));
    assert!(!row_selected(Some(8), 7, 0, true));
    assert_eq!(clicked_selection(7, 0, true), None);
    assert_eq!(clicked_selection(7, 0, false), Some(7));
    assert_eq!(clicked_selection(7, 2, true), Some(7));
}

#[test]
fn deleting_addresses() {
    let mut ids = vec![4, 7, 9, 7];
    assert_eq!(delete_address(&mut ids, 7), Some(1));
    assert_eq!(ids, vec![4, 9, 7]);
    assert_eq!(delete_address(&mut ids, 5), None);
    assert_eq!(ids, vec![4, 9, 7]);
    assert_eq!(delete_address(&mut ids, 7), Some(2));
    assert_eq!(ids, vec![4, 9]);
}

fn dir_state() -> DirectoryState {
    DirectoryState {
        filter: DialingDirectoryFilter::All,
        filter_string: "abc".to_string(),
        selected_bbs: None,
        scroll_address_list_to_bottom: false,
        ids: vec![0, 1, 2],
        write_lock: false,
    }
}

fn quiet_dir() -> DirectoryInput {
    DirectoryInput {
        escape_down: false,
        star_clicked: false,
        filter_edit: None,
        clear_filter_clicked: false,
        list_clicked: None,
        add_clicked: false,
        new_id: 7,
        delete_clicked: false,
        cancel_clicked: false,
        connect_clicked: false,
    }
}

#[test]
fn directory_frames() {
    let mut s = dir_state();
    assert!(dialing_directory_frame(&mut s, quiet_dir()).is_empty());
    let star = DirectoryInput { star_clicked: true, ..quiet_dir() };
    assert!(dialing_directory_frame(&mut s, star).is_empty());
    assert_eq!(s.filter, DialingDirectoryFilter::Favourites);
    let clear = DirectoryInput { clear_filter_clicked: true, filter_edit: Some("x".to_string()), ..quiet_dir() };
    dialing_directory_frame(&mut s, clear);
    assert_eq!(s.filter_string, "");
    let edit = DirectoryInput { filter_edit: Some("cool".to_string()), ..quiet_dir() };
    dialing_directory_frame(&mut s, edit);
    assert_eq!(s.filter_string, "cool");
    let add = DirectoryInput { add_clicked: true, delete_clicked: true, ..quiet_dir() };
    assert_eq!(dialing_directory_frame(&mut s, add), vec![DirectoryAction::AddAddress(7), DirectoryAction::DeleteAddress(7)]);
    assert_eq!(s.selected_bbs, Some(7));
    assert_eq!(s.ids, vec![0, 1, 2, 7]);
    assert_eq!(s.filter, DialingDirectoryFilter::All);
    assert!(s.scroll_address_list_to_bottom);
    let call = DirectoryInput { list_clicked: Some(2), connect_clicked: true, cancel_clicked: true, ..quiet_dir() };
    assert_eq!(
        dialing_directory_frame(&mut s, call),
        vec![DirectoryAction::Call(Some(2)), DirectoryAction::ShowTerminal, DirectoryAction::Call(Some(7))]
    );
}

#[test]
fn directory_escape_and_lock() {
    let mut s = dir_state();
    s.write_lock = true;
    let add = DirectoryInput { add_clicked: true, delete_clicked: true, connect_clicked: true, ..quiet_dir() };
    assert_eq!(dialing_directory_frame(&mut s, add), vec![DirectoryAction::Call(None)]);
    assert_eq!(s.ids, vec![0, 1, 2]);
    let esc = DirectoryInput { escape_down: true, star_clicked: true, list_clicked: Some(1), ..quiet_dir() };
    assert_eq!(dialing_directory_frame(&mut s, esc), vec![DirectoryAction::ShowTerminal]);
    assert_eq!(s.filter, DialingDirectoryFilter::All);
}
