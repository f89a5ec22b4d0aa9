use vstd::prelude::*;
use crate::rng::{lehmer_next, Rng};
use crate::text::{chars_to_string, push_str};

verus! {

/// Which addresses the dialing directory lists.
#[derive(Default, Clone, Copy, PartialEq, Eq, Debug, Structural)]
pub enum DialingDirectoryFilter {
    #[default]
    All,
    Favourites,
}

/// The pages of the address editor.
#[derive(Clone, Copy, PartialEq, Eq, Debug, Structural)]
pub enum AddressCategory {
    Server,
    Login,
    Terminal,
    Notes,
}

/// One row of the address list: an address and whether it is selected.
pub struct AddressRow<A> {
    selected: bool,
    pub centered: bool,
    addr: A,
}

impl<A> AddressRow<A> {
    pub closed spec fn is_selected(&self) -> bool {
        self.selected
    }

    pub closed spec fn is_centered(&self) -> bool {
        self.centered
    }

    pub closed spec fn address(&self) -> A {
        self.addr
    }

    /// A row that is not centered.
    pub fn new(selected: bool, addr: A) -> (res: Self)
        ensures
            res.is_selected() == selected,
            res.address() == addr,
            !res.is_centered(),
    {
        Self { selected, centered: false, addr }
    }

    pub fn selected(&self) -> (res: bool)
        ensures
            res == self.is_selected(),
    {
        self.selected
    }

    pub fn addr(&self) -> (res: &A)
        ensures
            *res == self.address(),
    {
        &self.addr
    }
}

/// The first position of `uuid` among the address ids, if any.
pub fn find_address_index(ids: &Vec<usize>, uuid: usize) -> (res: Option<usize>)
    ensures
        match res {
            Some(i) => i < ids@.len() && ids@[i as int] == uuid && forall|j: int| 0 <= j < i ==> ids@[j] != uuid,
            None => forall|j: int| 0 <= j < ids@.len() ==> ids@[j] != uuid,
        },
{
    let mut i: usize = 0;
    while i < ids.len()
        invariant
            i <= ids@.len(),
            forall|j: int| 0 <= j < i ==> ids@[j] != uuid,
        decreases ids@.len() - i,
    {
        if ids[i] == uuid {
            return Some(i);
        }
        i = i + 1;
    }
    None
}

/// The address an operation works on: the one with id `uuid`, or the first
/// address when no id is given or none has it.
pub fn address_index(ids: &Vec<usize>, uuid: Option<usize>) -> (res: usize)
    ensures
        match uuid {
            None => res == 0,
            Some(u) => (exists|j: int| 0 <= j < ids@.len() && ids@[j] == u) ==> (res < ids@.len() && ids@[res as int] == u && forall|j: int| 0 <= j < res ==> ids@[j] != u),
        },
        uuid matches Some(u) && (forall|j: int| 0 <= j < ids@.len() ==> ids@[j] != u) ==> res == 0,
{
    match uuid {
        None => 0,
        Some(u) => match find_address_index(ids, u) {
            Some(i) => i,
            None => 0,
        },
    }
}

/// The address a call by id dials: the first one when no id is given, the
/// one with the id otherwise, none when no address has it.
pub fn call_target(ids: &Vec<usize>, uuid: Option<usize>) -> (res: Option<usize>)
    ensures
        uuid is None ==> res == Some(0usize),
        uuid matches Some(u) ==> match res {
            Some(i) => i < ids@.len() && ids@[i as int] == u && forall|j: int| 0 <= j < i ==> ids@[j] != u,
            None => forall|j: int| 0 <= j < ids@.len() ==> ids@[j] != u,
        },
{
    match uuid {
        None => Some(0),
        Some(u) => find_address_index(ids, u),
    }
}

/// Deletes the first address with id `uuid` from the list of ids and says
/// where it stood; the list is unchanged when no address has the id.
pub fn delete_address(ids: &mut Vec<usize>, uuid: usize) -> (res: Option<usize>)
    ensures
        match res {
            Some(i) => i < old(ids)@.len() && old(ids)@[i as int] == uuid
                && (forall|j: int| 0 <= j < i ==> old(ids)@[j] != uuid)
                && final(ids)@ == old(ids)@.remove(i as int),
            None => (forall|j: int| 0 <= j < old(ids)@.len() ==> old(ids)@[j] != uuid)
                && final(ids)@ == old(ids)@,
        },
{
    match find_address_index(ids, uuid) {
        Some(i) => {
            ids.remove(i);
            Some(i)
        },
        None => None,
    }
}

/// The generator state after `n` draws from `state`.
pub open spec fn nth_state(state: i32, n: nat) -> i32
    decreases n,
{
    if n == 0 {
        state
    } else {
        lehmer_next(nth_state(state, (n - 1) as nat))
    }
}

/// Length of a generated password.
pub const PASSWORD_LEN: usize = 16;

/// The character a generator state picks for a password: one of `'0'..='z'`.
pub open spec fn password_char(state: i32) -> char {
    ((48 + (state as int) % 75) as u8) as char
}

/// A password of 16 characters from `'0'..='z'`, each drawn from the next
/// state of `rng`.
pub fn generate_password(rng: &mut Rng) -> (pw: String)
    ensures
        pw@.len() == 16,
        forall|i: int| 0 <= i < 16 ==> #[trigger] pw@[i] == password_char(nth_state(old(rng).state(), (i + 1) as nat)),
        final(rng).state() == nth_state(old(rng).state(), 16),
        forall|i: int| 0 <= i < 16 ==> '0' <= #[trigger] pw@[i] <= 'z',
{
    let mut out: Vec<char> = Vec::new();
    let mut k: usize = 0;
    while k < PASSWORD_LEN
        invariant
            k <= 16,
            out@.len() == k,
            rng.state() == nth_state(old(rng).state(), k as nat),
            forall|i: int| 0 <= i < k ==> #[trigger] out@[i] == password_char(nth_state(old(rng).state(), (i + 1) as nat)),
            forall|i: int| 0 <= i < k ==> '0' <= #[trigger] out@[i] <= 'z',
        decreases 16 - k,
    {
        let v = rng.gen_range_inclusive(48, 122);
        out.push((v as u8) as char);
        k = k + 1;
    }
    chars_to_string(out)
}


/// What `str::to_lowercase` makes of a string (Unicode lowercase mapping).
pub uninterp spec fn spec_to_lowercase(s: Seq<char>) -> Seq<char>;

/// Unicode lowercase of `s` by `str::to_lowercase`. Trusted: the contract
/// claims only that the result is `spec_to_lowercase` of the argument, that
/// is, that it depends on the text alone; the Unicode tables are not restated.
#[verifier::external_body]
fn to_lowercase(s: &str) -> (res: String)
    ensures
        res@ == spec_to_lowercase(s@),
{
    s.to_lowercase()
}

/// `needle` occurs in `hay` as a contiguous run.
pub open spec fn contains_seq(hay: Seq<char>, needle: Seq<char>) -> bool {
    exists|i: int| 0 <= i && i + needle.len() <= hay.len() && #[trigger] hay.subrange(i, i + needle.len()) == needle
}

/// Whether `needle` occurs at position `i` of `hay`.
fn occurs_at(hay: &Vec<char>, needle: &Vec<char>, i: usize) -> (res: bool)
    requires
        i + needle@.len() <= hay@.len(),
    ensures
        res == (hay@.subrange(i as int, i + needle@.len()) == needle@),
{
    let hay_len = hay.len();
    let mut j: usize = 0;
    while j < needle.len()
        invariant
            hay_len == hay@.len(),
            j <= needle@.len(),
            i + needle@.len() <= hay@.len(),
            forall|k: int| 0 <= k < j ==> hay@[i + k] == needle@[k],
        decreases needle@.len() - j,
    {
        if hay[i + j] != needle[j] {
            assert(hay@.subrange(i as int, i + needle@.len())[j as int] != needle@[j as int]);
            return false;
        }
        j = j + 1;
    }
    assert(hay@.subrange(i as int, i + needle@.len()) =~= needle@);
    true
}

/// Whether `needle` occurs in `hay`.
pub fn contains_chars(hay: &Vec<char>, needle: &Vec<char>) -> (res: bool)
    ensures
        res == contains_seq(hay@, needle@),
{
    if needle.len() > hay.len() {
        return false;
    }
    let last = hay.len() - needle.len();
    let mut i: usize = 0;
    loop
        invariant
            i <= last,
            last == hay@.len() - needle@.len(),
            needle@.len() <= hay@.len(),
            forall|k: int| 0 <= k < i ==> #[trigger] hay@.subrange(k, k + needle@.len()) != needle@,
        ensures
            forall|k: int| 0 <= k <= last ==> #[trigger] hay@.subrange(k, k + needle@.len()) != needle@,
        decreases last - i,
    {
        if occurs_at(hay, needle, i) {
            return true;
        }
        if i == last {
            break;
        }
        i = i + 1;
    }
    false
}

fn chars_of(s: &str) -> (v: Vec<char>)
    ensures
        v@ == s@,
{
    let mut v: Vec<char> = Vec::new();
    push_str(&mut v, s);
    assert(v@ =~= s@);
    v
}

/// Whether an address with an already lowercased name and address matches
/// an already lowercased, non-empty filter: the filter occurs in the name
/// or in the address.
pub fn matches_lowered(filter: &str, system_name: &str, address: &str) -> (res: bool)
    ensures
        res == (contains_seq(system_name@, filter@) || contains_seq(address@, filter@)),
{
    let f = chars_of(filter);
    let n = chars_of(system_name);
    let a = chars_of(address);
    contains_chars(&n, &f) || contains_chars(&a, &f)
}

/// Whether the dialing directory lists an address under a filter text: all
/// do when the filter is empty, else those whose name or address contains
/// it, ignoring case.
pub fn filter_bbs(filter_string: &str, system_name: &str, address: &str) -> (res: bool)
    ensures
        filter_string@.len() == 0 ==> res,
        filter_string@.len() > 0 ==> res == (contains_seq(spec_to_lowercase(system_name@), spec_to_lowercase(filter_string@))
            || contains_seq(spec_to_lowercase(address@), spec_to_lowercase(filter_string@))),
{
    if filter_string.is_empty() {
        return true;
    }
    let lower = to_lowercase(filter_string);
    let name = to_lowercase(system_name);
    let adr = to_lowercase(address);
    matches_lowered(lower.as_str(), name.as_str(), adr.as_str())
}

/// The first row offers a quick connect: no filter text and all addresses
/// listed.
pub fn show_quick_connect(filter: DialingDirectoryFilter, filter_string: &str) -> (res: bool)
    ensures
        res == (filter_string@.len() == 0 && filter == DialingDirectoryFilter::All),
{
    filter_string.is_empty() && filter == DialingDirectoryFilter::All
}

/// Whether row `i`, showing the address with id `id`, is drawn selected:
/// the selected address, or the quick-connect row when none is selected.
pub fn row_selected(selected_bbs: Option<usize>, id: usize, i: usize, quick_connect: bool) -> (res: bool)
    ensures
        res == (match selected_bbs {
            Some(uuid) => id == uuid,
            None => i == 0 && quick_connect,
        }),
{
    match selected_bbs {
        Some(uuid) => id == uuid,
        None => i == 0 && quick_connect,
    }
}

/// The selection after a click on row `i`: none for the quick-connect row,
/// else the row's address.
pub fn clicked_selection(id: usize, i: usize, quick_connect: bool) -> (res: Option<usize>)
    ensures
        res == (if i == 0 && quick_connect { None } else { Some(id) }),
{
    if i == 0 && quick_connect { None } else { Some(id) }
}

/// The dialing directory's own state, as its window changes it: which
/// addresses are listed, the filter text, the selected address, whether
/// the list scrolls to its end, the ids of the addresses and whether the
/// address book may be written.
pub struct DirectoryState {
    pub filter: DialingDirectoryFilter,
    pub filter_string: String,
    pub selected_bbs: Option<usize>,
    pub scroll_address_list_to_bottom: bool,
    pub ids: Vec<usize>,
    pub write_lock: bool,
}

/// What happened in the dialing directory window in one frame.
pub struct DirectoryInput {
    /// Escape is held: the window closes and is not drawn.
    pub escape_down: bool,
    /// The favourites star was clicked.
    pub star_clicked: bool,
    /// The filter text was edited to this text.
    pub filter_edit: Option<String>,
    /// The button that clears the filter text was clicked.
    pub clear_filter_clicked: bool,
    /// An entry of the list was clicked: the id of its address.
    pub list_clicked: Option<usize>,
    /// The add button was clicked.
    pub add_clicked: bool,
    /// The id a newly added address gets.
    pub new_id: usize,
    /// The delete button was clicked.
    pub delete_clicked: bool,
    /// The cancel button was clicked.
    pub cancel_clicked: bool,
    /// The connect button was clicked.
    pub connect_clicked: bool,
}

/// What the window asks of the main window, in order.
#[derive(Debug, PartialEq, Eq)]
pub enum DirectoryAction {
    /// Call the address with this id, or the first one.
    Call(Option<usize>),
    /// A new address with this id was added (and selected).
    AddAddress(usize),
    /// Ask whether to delete the address with this id.
    DeleteAddress(usize),
    /// Go back to the terminal.
    ShowTerminal,
}

/// The window is drawn (escape is not held).
pub open spec fn directory_drawn(input: DirectoryInput) -> bool {
    !input.escape_down
}

/// A new address is added in this frame.
pub open spec fn adds_address(state: DirectoryState, input: DirectoryInput) -> bool {
    directory_drawn(input) && input.add_clicked && !state.write_lock
}

/// The listing filter after a frame: the star toggles it, adding an
/// address lists all.
pub open spec fn next_filter(state: DirectoryState, input: DirectoryInput) -> DialingDirectoryFilter {
    if adds_address(state, input) {
        DialingDirectoryFilter::All
    } else if directory_drawn(input) && input.star_clicked {
        if state.filter == DialingDirectoryFilter::Favourites { DialingDirectoryFilter::All } else { DialingDirectoryFilter::Favourites }
    } else {
        state.filter
    }
}

/// The filter text after a frame: edited, then cleared by its button.
pub open spec fn next_filter_string(state: DirectoryState, input: DirectoryInput) -> Seq<char> {
    if directory_drawn(input) && input.clear_filter_clicked {
        Seq::empty()
    } else if directory_drawn(input) && input.filter_edit is Some {
        input.filter_edit->0@
    } else {
        state.filter_string@
    }
}

/// The selected address after a frame: a new address is selected.
pub open spec fn next_selected(state: DirectoryState, input: DirectoryInput) -> Option<usize> {
    if adds_address(state, input) { Some(input.new_id) } else { state.selected_bbs }
}

/// `a` when `b`, else nothing.
pub open spec fn action_when(b: bool, a: DirectoryAction) -> Seq<DirectoryAction> {
    if b { seq![a] } else { Seq::empty() }
}

/// The actions of a frame, in the order the window takes them: a click in
/// the list, adding, deleting (only with a selection), cancel, connect
/// (the selected address), and closing by escape.
pub open spec fn spec_directory_actions(state: DirectoryState, input: DirectoryInput) -> Seq<DirectoryAction> {
    let drawn = directory_drawn(input);
    let sel = next_selected(state, input);
    action_when(drawn && input.list_clicked is Some, DirectoryAction::Call(input.list_clicked))
        + action_when(adds_address(state, input), DirectoryAction::AddAddress(input.new_id))
        + action_when(drawn && input.delete_clicked && sel is Some, DirectoryAction::DeleteAddress(sel->0))
        + action_when(drawn && input.cancel_clicked, DirectoryAction::ShowTerminal)
        + action_when(drawn && input.connect_clicked, DirectoryAction::Call(sel))
        + action_when(input.escape_down, DirectoryAction::ShowTerminal)
}

fn push_action(out: &mut Vec<DirectoryAction>, b: bool, a: DirectoryAction)
    ensures
        final(out)@ == old(out)@ + action_when(b, a),
{
    if b {
        out.push(a);
    }
    assert(final(out)@ =~= old(out)@ + action_when(b, a));
}

/// One frame of the dialing directory window: updates its state and
/// returns what the main window has to do.
pub fn dialing_directory_frame(state: &mut DirectoryState, input: DirectoryInput) -> (actions: Vec<DirectoryAction>)
    ensures
        actions@ == spec_directory_actions(*old(state), input),
        final(state).filter == next_filter(*old(state), input),
        final(state).filter_string@ == next_filter_string(*old(state), input),
        final(state).selected_bbs == next_selected(*old(state), input),
        final(state).scroll_address_list_to_bottom == (adds_address(*old(state), input) || old(state).scroll_address_list_to_bottom),
        final(state).ids@ == (if adds_address(*old(state), input) { old(state).ids@.push(input.new_id) } else { old(state).ids@ }),
        final(state).write_lock == old(state).write_lock,
{
    let ghost spec_input = input;
    let DirectoryInput {
        escape_down,
        star_clicked,
        filter_edit,
        clear_filter_clicked,
        list_clicked,
        add_clicked,
        new_id,
        delete_clicked,
        cancel_clicked,
        connect_clicked,
    } = input;
    let drawn = !escape_down;
    let mut actions: Vec<DirectoryAction> = Vec::new();
    if drawn && star_clicked {
        state.filter = if state.filter == DialingDirectoryFilter::Favourites {
            DialingDirectoryFilter::All
        } else {
            DialingDirectoryFilter::Favourites
        };
    }
    if drawn {
        match filter_edit {
            Some(text) => {
                state.filter_string = text;
            },
            None => {},
        }
    }
    if drawn && clear_filter_clicked {
        state.filter_string = String::new();
    }
    let listed = list_clicked.is_some();
    push_action(&mut actions, drawn && listed, DirectoryAction::Call(list_clicked));
    let adds = drawn && add_clicked && !state.write_lock;
    if adds {
        state.selected_bbs = Some(new_id);
        state.ids.push(new_id);
        state.filter = DialingDirectoryFilter::All;
        state.scroll_address_list_to_bottom = true;
    }
    push_action(&mut actions, adds, DirectoryAction::AddAddress(new_id));
    match state.selected_bbs {
        Some(uuid) => push_action(&mut actions, drawn && delete_clicked, DirectoryAction::DeleteAddress(uuid)),
        None => push_action(&mut actions, false, DirectoryAction::ShowTerminal),
    }
    push_action(&mut actions, drawn && cancel_clicked, DirectoryAction::ShowTerminal);
    push_action(&mut actions, drawn && connect_clicked, DirectoryAction::Call(state.selected_bbs));
    push_action(&mut actions, escape_down, DirectoryAction::ShowTerminal);
    assert(actions@ =~= spec_directory_actions(*old(state), spec_input));
    actions
}

/// The favourites star toggles the listing: in a drawn frame in which no
/// address is added, a star click turns Favourites into All and All into
/// Favourites (so two such frames restore the filter); without a click,
/// or while escape closes the window, the filter stays.
pub proof fn lemma_star_toggles(state: DirectoryState, input: DirectoryInput)
    requires
        !input.add_clicked || state.write_lock,
    ensures
        !input.escape_down && input.star_clicked ==> next_filter(state, input) != state.filter,
        !input.escape_down && input.star_clicked && state.filter == DialingDirectoryFilter::Favourites
            ==> next_filter(state, input) == DialingDirectoryFilter::All,
        !input.escape_down && input.star_clicked && state.filter == DialingDirectoryFilter::All
            ==> next_filter(state, input) == DialingDirectoryFilter::Favourites,
        (input.escape_down || !input.star_clicked) ==> next_filter(state, input) == state.filter,
{
}

/// Escape closes the directory: the window is not drawn, so no click
/// counts; the only action is going back to the terminal and the state
/// stays as it was.
pub proof fn lemma_escape_closes(state: DirectoryState, input: DirectoryInput)
    requires
        input.escape_down,
    ensures
        spec_directory_actions(state, input) == seq![DirectoryAction::ShowTerminal],
        next_filter(state, input) == state.filter,
        next_filter_string(state, input) == state.filter_string@,
        next_selected(state, input) == state.selected_bbs,
        !adds_address(state, input),
{
    assert(spec_directory_actions(state, input) =~= seq![DirectoryAction::ShowTerminal]);
}

/// Adding an address (a drawn frame, the add button, no write lock) selects
/// the new id, lists all addresses and reports the addition; with a write
/// lock nothing is added.
pub proof fn lemma_add_selects_new(state: DirectoryState, input: DirectoryInput)
    ensures
        !input.escape_down && input.add_clicked && !state.write_lock ==> {
            &&& next_selected(state, input) == Some(input.new_id)
            &&& next_filter(state, input) == DialingDirectoryFilter::All
            &&& spec_directory_actions(state, input).contains(DirectoryAction::AddAddress(input.new_id))
        },
        state.write_lock ==> next_selected(state, input) == state.selected_bbs
            && !spec_directory_actions(state, input).contains(DirectoryAction::AddAddress(input.new_id)),
{
    let drawn = !input.escape_down;
    let sel = next_selected(state, input);
    let a = action_when(drawn && input.list_clicked is Some, DirectoryAction::Call(input.list_clicked));
    let b = action_when(adds_address(state, input), DirectoryAction::AddAddress(input.new_id));
    let rest = action_when(drawn && input.delete_clicked && sel is Some, DirectoryAction::DeleteAddress(sel->0))
        + action_when(drawn && input.cancel_clicked, DirectoryAction::ShowTerminal)
        + action_when(drawn && input.connect_clicked, DirectoryAction::Call(sel))
        + action_when(input.escape_down, DirectoryAction::ShowTerminal);
    assert(spec_directory_actions(state, input) =~= a + b + rest);
    if adds_address(state, input) {
        assert((a + b + rest)[a.len() as int] == DirectoryAction::AddAddress(input.new_id));
    }
    if state.write_lock {
        assert forall|i: int| 0 <= i < (a + b + rest).len() implies (a + b + rest)[i] != DirectoryAction::AddAddress(input.new_id) by {
            if i < a.len() {
            } else if i < a.len() + b.len() {
            } else {
                let k = i - a.len() - b.len();
                assert((a + b + rest)[i] == rest[k]);
            }
        }
    }
}

} // verus!
