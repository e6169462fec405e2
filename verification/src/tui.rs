//! The screens: what a key does, and what is shown.
use vstd::prelude::*;
use vstd::string::*;

use crate::commands::{login, port_argument, ssh_arguments};
use crate::number::{
    decimal, decimal_int, decimal_reads_back, is_digit, parse_u16, read_nat, read_up_to, to_decimal,
};
use crate::server::{
    ascending, has_host, host, last_connect_display, last_seen, place_of, put, removal_keeps_order,
    seconds_now, without, HostEntry, Hosts, Server, ServerCollection,
};
use crate::text::{
    cat2, cat3, clip, clipped, drop_tail, flush_left, flush_right, pad_left, pad_right,
    without_last, texts, trim,
};

verus! {

/// A key that was pressed.
#[derive(Debug, Clone, Copy, PartialEq, Eq, Structural)]
pub enum Key {
    Tab,
    Enter,
    Esc,
    Backspace,
    Delete,
    Left,
    Right,
    Up,
    Down,
    Char(char),
    Other,
}

/// What the program does after a key.
pub enum TuiAction<S = String> {
    Nothing,
    /// Store the servers.
    Save,
    /// Connect to the server under this alias.
    Connect(S),
    Quit,
}

impl View for TuiAction<String> {
    type V = TuiAction<Seq<char>>;

    open spec fn view(&self) -> TuiAction<Seq<char>> {
        match self {
            TuiAction::Nothing => TuiAction::Nothing,
            TuiAction::Save => TuiAction::Save,
            TuiAction::Connect(a) => TuiAction::Connect(a@),
            TuiAction::Quit => TuiAction::Quit,
        }
    }
}

// ---------------------------------------------------------------------------
// A form
// ---------------------------------------------------------------------------

/// The number of fields of a form.
pub const FIELDS: usize = 4;

/// A form with the parts of a server. One of its fields is the active one.
pub struct Form<S = String> {
    pub alias: S,
    pub username: S,
    pub address: S,
    pub port: S,
    pub field: usize,
}

impl View for Form<String> {
    type V = Form<Seq<char>>;

    open spec fn view(&self) -> Form<Seq<char>> {
        Form {
            alias: self.alias@,
            username: self.username@,
            address: self.address@,
            port: self.port@,
            field: self.field,
        }
    }
}

impl Form<Seq<char>> {
    /// One of the fields is active, and the port holds digits only.
    pub open spec fn wf(self) -> bool {
        &&& self.field < FIELDS
        &&& forall|i: int| 0 <= i < self.port.len() ==> is_digit(#[trigger] self.port[i])
    }

    pub open spec fn blank() -> Self {
        Form {
            alias: Seq::empty(),
            username: Seq::empty(),
            address: Seq::empty(),
            port: Seq::empty(),
            field: 0,
        }
    }

    /// With the next field active; the first follows on the last.
    pub open spec fn onward(self) -> Self {
        Form { field: ((self.field + 1) % (FIELDS as int)) as usize, ..self }
    }

    /// With a character added to the active field. The port takes digits only.
    pub open spec fn typed(self, c: char) -> Self {
        if self.field == 0 {
            Form { alias: self.alias.push(c), ..self }
        } else if self.field == 1 {
            Form { username: self.username.push(c), ..self }
        } else if self.field == 2 {
            Form { address: self.address.push(c), ..self }
        } else if self.field == 3 && is_digit(c) {
            Form { port: self.port.push(c), ..self }
        } else {
            self
        }
    }

    /// Without the last character of the active field.
    pub open spec fn erased(self) -> Self {
        if self.field == 0 {
            Form { alias: drop_tail(self.alias), ..self }
        } else if self.field == 1 {
            Form { username: drop_tail(self.username), ..self }
        } else if self.field == 2 {
            Form { address: drop_tail(self.address), ..self }
        } else if self.field == 3 {
            Form { port: drop_tail(self.port), ..self }
        } else {
            self
        }
    }

    /// The port in the form, where it is one.
    pub open spec fn port_number(self) -> Option<nat> {
        match read_up_to(self.port, u16::MAX as nat) {
            Some(p) => if p >= 1 {
                Some(p)
            } else {
                None
            },
            None => None,
        }
    }

    /// The server that the form describes.
    pub open spec fn server(self) -> Server<Seq<char>> {
        Server {
            id: None,
            alias: Some(self.alias),
            username: self.username,
            address: self.address,
            port: self.port_number()->Some_0 as u16,
            last_connect: None,
        }
    }
}

fn empty_text() -> (r: String)
    ensures
        r@ == Seq::<char>::empty(),
{
    let s = String::new();
    proof {
        assert(s@ =~= Seq::<char>::empty());
    }
    s
}

impl Form {
    pub fn new() -> (r: Self)
        ensures
            r@ == Form::<Seq<char>>::blank(),
            r@.wf(),
    {
        Form {
            alias: empty_text(),
            username: empty_text(),
            address: empty_text(),
            port: empty_text(),
            field: 0,
        }
    }

    fn go_on(&mut self)
        requires
            old(self)@.wf(),
        ensures
            final(self)@ == old(self)@.onward(),
            final(self)@.wf(),
    {
        assert((self.field + 1) % (FIELDS as int) < FIELDS);
        self.field = (self.field + 1) % FIELDS;
    }

    fn type_in(&mut self, c: char)
        requires
            old(self)@.wf(),
        ensures
            final(self)@ == old(self)@.typed(c),
            final(self)@.wf(),
    {
        match self.field {
            0 => self.alias.push(c),
            1 => self.username.push(c),
            2 => self.address.push(c),
            3 => {
                if '0' <= c && c <= '9' {
                    self.port.push(c);
                }
            },
            _ => {},
        }
    }

    fn erase(&mut self)
        requires
            old(self)@.wf(),
        ensures
            final(self)@ == old(self)@.erased(),
            final(self)@.wf(),
    {
        match self.field {
            0 => {
                self.alias = without_last(self.alias.as_str());
            },
            1 => {
                self.username = without_last(self.username.as_str());
            },
            2 => {
                self.address = without_last(self.address.as_str());
            },
            3 => {
                self.port = without_last(self.port.as_str());
            },
            _ => {},
        }
    }

    fn read_port(&self) -> (r: Option<u16>)
        ensures
            match r {
                Some(p) => self@.port_number() == Some(p as nat),
                None => self@.port_number() is None,
            },
    {
        match parse_u16(self.port.as_str()) {
            Some(p) => if p >= 1 {
                Some(p)
            } else {
                None
            },
            None => None,
        }
    }

    fn build(&self, port: u16) -> (r: Server)
        requires
            self@.port_number() == Some(port as nat),
        ensures
            r@ == self@.server(),
    {
        Server {
            id: None,
            alias: Some(self.alias.clone()),
            username: self.username.clone(),
            address: self.address.clone(),
            port,
            last_connect: None,
        }
    }
}

// ---------------------------------------------------------------------------
// The state of the screens
// ---------------------------------------------------------------------------

/// The state of the screens. `C` is the collection of servers.
pub struct TuiApp<S = String, C = ServerCollection> {
    pub collection: C,
    /// What was typed to connect quickly.
    pub input: S,
    /// The position of the selected server.
    pub selected: usize,
    /// The position that is highlighted in the table.
    pub highlight: Option<usize>,
    /// The position of the server that is edited.
    pub editing: Option<usize>,
    pub edit: Form<S>,
    /// The position of the server that is to be deleted.
    pub deleting: Option<usize>,
    pub confirm_yes: bool,
    pub adding: bool,
    pub add: Form<S>,
    pub add_confirm_stage: bool,
    pub add_choice: bool,
    pub error_message: S,
    pub show_help: bool,
    pub quick_connect_focused: bool,
}

/// The state of the screens, as mathematical values.
pub type TuiState = TuiApp<Seq<char>, Hosts>;

impl View for TuiApp<String, ServerCollection> {
    type V = TuiState;

    open spec fn view(&self) -> TuiState {
        TuiApp {
            collection: self.collection@,
            input: self.input@,
            selected: self.selected,
            highlight: self.highlight,
            editing: self.editing,
            edit: self.edit@,
            deleting: self.deleting,
            confirm_yes: self.confirm_yes,
            adding: self.adding,
            add: self.add@,
            add_confirm_stage: self.add_confirm_stage,
            add_choice: self.add_choice,
            error_message: self.error_message@,
            show_help: self.show_help,
            quick_connect_focused: self.quick_connect_focused,
        }
    }
}

/// What is shown where the port is none.
pub open spec fn port_error() -> Seq<char> {
    "⚠️ 端口需在 1 到 65535 之间"@
}

/// Where the selection moves down to; after the last it is the first.
pub open spec fn below(highlight: Option<usize>, len: nat) -> int {
    match highlight {
        Some(i) => if i >= len - 1 {
            0
        } else {
            i + 1
        },
        None => 0,
    }
}

/// Where the selection moves up to; before the first it is the last.
pub open spec fn above(highlight: Option<usize>, len: nat) -> int {
    match highlight {
        Some(i) => if i == 0 {
            len - 1
        } else {
            i - 1
        },
        None => 0,
    }
}

impl TuiApp<Seq<char>, Hosts> {
    /// The state at the start.
    pub open spec fn initial(h: Hosts) -> Self {
        TuiApp {
            collection: h,
            input: Seq::empty(),
            selected: 0,
            highlight: Some(0),
            editing: None,
            edit: Form::<Seq<char>>::blank(),
            deleting: None,
            confirm_yes: false,
            adding: false,
            add: Form::<Seq<char>>::blank(),
            add_confirm_stage: false,
            add_choice: false,
            error_message: Seq::empty(),
            show_help: false,
            quick_connect_focused: false,
        }
    }

    /// The forms are sound, and the servers are in order.
    pub open spec fn wf(self) -> bool {
        &&& self.edit.wf()
        &&& self.add.wf()
        &&& ascending(self.collection)
    }

    /// Whether the keys go to the list of servers.
    pub open spec fn in_list(self) -> bool {
        &&& self.editing is None
        &&& self.deleting is None
        &&& !self.adding
        &&& !self.show_help
        &&& !self.quick_connect_focused
    }

    /// Whether the selection can move: not from a place in an empty list.
    pub open spec fn can_move(self) -> bool {
        self.highlight is Some ==> self.collection.len() > 0
    }

    /// Whether a key can be taken: one that moves the selection only where it
    /// can move.
    pub open spec fn takes(self, key: Key) -> bool {
        self.in_list() && (key == Key::Up || key == Key::Down) ==> self.can_move()
    }

    pub open spec fn stay(self) -> (Self, TuiAction<Seq<char>>) {
        (self, TuiAction::Nothing)
    }

    pub open spec fn go(self, position: int) -> Self {
        TuiApp { selected: position as usize, highlight: Some(position as usize), ..self }
    }

    /// A key while a server is edited.
    pub open spec fn press_edit(self, key: Key) -> (Self, TuiAction<Seq<char>>) {
        match key {
            Key::Tab => (TuiApp { edit: self.edit.onward(), ..self }).stay(),
            Key::Esc => (TuiApp { editing: None, ..self }).stay(),
            Key::Char(c) => (TuiApp { edit: self.edit.typed(c), ..self }).stay(),
            Key::Backspace => (TuiApp { edit: self.edit.erased(), ..self }).stay(),
            Key::Enter => if self.edit.port_number() is None {
                (TuiApp { error_message: port_error(), ..self }).stay()
            } else {
                let closed = TuiApp { editing: None, error_message: Seq::empty(), ..self };
                let position = self.editing->Some_0 as int;
                if position < self.collection.len() {
                    (
                        TuiApp {
                            collection: put(
                                without(self.collection, self.collection[position].key),
                                self.edit.alias,
                                self.edit.server(),
                            ),
                            ..closed
                        },
                        TuiAction::Save,
                    )
                } else {
                    closed.stay()
                }
            },
            _ => self.stay(),
        }
    }

    /// A key while it is asked whether a server is to be deleted.
    pub open spec fn press_delete(self, key: Key) -> (Self, TuiAction<Seq<char>>) {
        match key {
            Key::Left => (TuiApp { confirm_yes: false, ..self }).stay(),
            Key::Right => (TuiApp { confirm_yes: true, ..self }).stay(),
            Key::Esc => (TuiApp { deleting: None, ..self }).stay(),
            Key::Enter => {
                let closed = TuiApp { deleting: None, ..self };
                if !self.confirm_yes {
                    closed.stay()
                } else {
                    let position = self.deleting->Some_0 as int;
                    let left = if position < self.collection.len() {
                        without(self.collection, self.collection[position].key)
                    } else {
                        self.collection
                    };
                    let selected: int = if left.len() == 0 {
                        0
                    } else if self.selected >= left.len() {
                        left.len() - 1
                    } else {
                        self.selected as int
                    };
                    ((TuiApp { collection: left, ..closed }).go(selected), TuiAction::Save)
                }
            },
            _ => self.stay(),
        }
    }

    /// A key while it is asked whether a server is to be added.
    pub open spec fn press_confirm(self, key: Key) -> (Self, TuiAction<Seq<char>>) {
        let closed = TuiApp { adding: false, add_confirm_stage: false, ..self };
        match key {
            Key::Left => (TuiApp { add_choice: false, ..self }).stay(),
            Key::Right => (TuiApp { add_choice: true, ..self }).stay(),
            Key::Esc => closed.stay(),
            Key::Enter => if !self.add_choice {
                (TuiApp { error_message: Seq::empty(), ..closed }).stay()
            } else if self.add.port_number() is None {
                (TuiApp { error_message: port_error(), ..self }).stay()
            } else {
                let more = put(self.collection, self.add.alias, self.add.server());
                (
                    (TuiApp { collection: more, error_message: Seq::empty(), ..closed }).go(
                        place_of(more, self.add.alias) as int,
                    ),
                    TuiAction::Save,
                )
            },
            _ => self.stay(),
        }
    }

    /// A key while a new server is entered.
    pub open spec fn press_add(self, key: Key) -> (Self, TuiAction<Seq<char>>) {
        match key {
            Key::Tab => (TuiApp { add: self.add.onward(), ..self }).stay(),
            Key::Enter => (TuiApp { add_confirm_stage: true, add_choice: false, ..self }).stay(),
            Key::Esc => (TuiApp { adding: false, ..self }).stay(),
            Key::Char(c) => (TuiApp { add: self.add.typed(c), ..self }).stay(),
            Key::Backspace => (TuiApp { add: self.add.erased(), ..self }).stay(),
            _ => self.stay(),
        }
    }

    /// A key while the alias to connect to is entered.
    pub open spec fn press_quick(self, key: Key) -> (Self, TuiAction<Seq<char>>) {
        let closed = TuiApp { input: Seq::empty(), quick_connect_focused: false, ..self };
        match key {
            Key::Enter => if self.input.len() == 0 {
                self.stay()
            } else if has_host(self.collection, self.input) {
                (closed, TuiAction::Connect(self.input))
            } else {
                (TuiApp {
                    error_message: "Server '"@ + self.input + "' not found"@,
                    ..closed
                }).stay()
            },
            Key::Esc => closed.stay(),
            Key::Char(c) => (TuiApp { input: self.input.push(c), ..self }).stay(),
            Key::Backspace => (TuiApp { input: drop_tail(self.input), ..self }).stay(),
            _ => self.stay(),
        }
    }

    /// With the question whether the selected server is to be deleted.
    pub open spec fn ask_delete(self) -> Self {
        TuiApp { deleting: Some(self.selected), confirm_yes: false, ..self }
    }

    /// With an empty form for a new server.
    pub open spec fn ask_add(self) -> Self {
        TuiApp {
            adding: true,
            add: Form {
                alias: Seq::empty(),
                username: "root"@,
                address: Seq::empty(),
                port: "22"@,
                field: 0,
            },
            add_confirm_stage: false,
            ..self
        }
    }

    /// With a form for the selected server, where there is one.
    pub open spec fn ask_edit(self) -> Self {
        if self.selected < self.collection.len() {
            let e = self.collection[self.selected as int];
            TuiApp {
                editing: Some(self.selected),
                edit: Form {
                    alias: e.key,
                    username: e.server.username,
                    address: e.server.address,
                    port: decimal(e.server.port as nat),
                    field: 0,
                },
                ..self
            }
        } else {
            self
        }
    }

    /// A key in the list of servers.
    pub open spec fn press_list(self, key: Key, ctrl: bool) -> (Self, TuiAction<Seq<char>>) {
        match key {
            Key::Down => self.go(below(self.highlight, self.collection.len())).stay(),
            Key::Up => self.go(above(self.highlight, self.collection.len())).stay(),
            Key::Delete => self.ask_delete().stay(),
            Key::Enter => if self.selected < self.collection.len() {
                (self, TuiAction::Connect(self.collection[self.selected as int].key))
            } else {
                self.stay()
            },
            Key::Char(c) => if c == 'q' {
                (self, TuiAction::Quit)
            } else if c == 'd' && ctrl {
                self.ask_delete().stay()
            } else if c == 'n' || c == 'N' {
                self.ask_add().stay()
            } else if c == 'e' || c == 'E' {
                self.ask_edit().stay()
            } else if c == 'h' || c == 'H' {
                (TuiApp { show_help: true, ..self }).stay()
            } else {
                self.stay()
            },
            _ => self.stay(),
        }
    }

    /// What a key does: the state afterwards, and what the program does.
    pub open spec fn press(self, key: Key, ctrl: bool) -> (Self, TuiAction<Seq<char>>) {
        if self.editing is Some {
            self.press_edit(key)
        } else if self.deleting is Some {
            self.press_delete(key)
        } else if self.adding {
            if self.add_confirm_stage {
                self.press_confirm(key)
            } else {
                self.press_add(key)
            }
        } else if self.show_help {
            if key == Key::Esc || key == Key::Char('h') || key == Key::Char('H') || key
                == Key::Char('q') || key == Key::Char('Q') {
                (TuiApp { show_help: false, ..self }).stay()
            } else {
                self.stay()
            }
        } else if key == Key::Char('f') && ctrl {
            if self.quick_connect_focused {
                (TuiApp {
                    quick_connect_focused: false,
                    input: Seq::empty(),
                    ..self
                }).stay()
            } else {
                (TuiApp { quick_connect_focused: true, ..self }).stay()
            }
        } else if self.quick_connect_focused {
            self.press_quick(key)
        } else {
            self.press_list(key, ctrl)
        }
    }
}

impl TuiApp {
    /// The state at the start.
    pub fn new(collection: ServerCollection) -> (r: Self)
        ensures
            r@ == TuiState::initial(collection@),
            r@.wf(),
    {
        proof {
            use_type_invariant(&collection);
        }
        TuiApp {
            collection,
            input: empty_text(),
            selected: 0,
            highlight: Some(0),
            editing: None,
            edit: Form::new(),
            deleting: None,
            confirm_yes: false,
            adding: false,
            add: Form::new(),
            add_confirm_stage: false,
            add_choice: false,
            error_message: empty_text(),
            show_help: false,
            quick_connect_focused: false,
        }
    }

    /// The alias at a position.
    fn alias_at(&self, position: usize) -> (r: Option<String>)
        ensures
            match r {
                Some(a) => position < self@.collection.len() && a@
                    == self@.collection[position as int].key,
                None => position >= self@.collection.len(),
            },
    {
        let hosts = self.collection.hosts();
        if position < hosts.len() {
            Some(hosts[position].key.clone())
        } else {
            None
        }
    }

    fn select(&mut self, position: usize)
        ensures
            final(self)@ == old(self)@.go(position as int),
    {
        self.selected = position;
        self.highlight = Some(position);
    }

    fn key_edit(&mut self, key: Key) -> (r: TuiAction)
        requires
            old(self)@.wf(),
            old(self)@.editing is Some,
        ensures
            (final(self)@, r@) == old(self)@.press_edit(key),
            final(self)@.wf(),
    {
        match key {
            Key::Tab => {
                self.edit.go_on();
                TuiAction::Nothing
            },
            Key::Esc => {
                self.editing = None;
                TuiAction::Nothing
            },
            Key::Char(c) => {
                self.edit.type_in(c);
                TuiAction::Nothing
            },
            Key::Backspace => {
                self.edit.erase();
                TuiAction::Nothing
            },
            Key::Enter => match self.edit.read_port() {
                None => {
                    self.error_message = "⚠️ 端口需在 1 到 65535 之间".to_owned();
                    TuiAction::Nothing
                },
                Some(port) => {
                    let position: usize = self.editing.unwrap();
                    let found = self.alias_at(position);
                    self.editing = None;
                    self.error_message = empty_text();
                    match found {
                        Some(old_alias) => {
                            let server = self.edit.build(port);
                            let alias = self.edit.alias.clone();
                            self.collection.remove(old_alias.as_str());
                            self.collection.insert(alias.as_str(), server);
                            TuiAction::Save
                        },
                        None => TuiAction::Nothing,
                    }
                },
            },
            _ => TuiAction::Nothing,
        }
    }

    fn key_delete(&mut self, key: Key) -> (r: TuiAction)
        requires
            old(self)@.wf(),
            old(self)@.deleting is Some,
        ensures
            (final(self)@, r@) == old(self)@.press_delete(key),
            final(self)@.wf(),
    {
        match key {
            Key::Left => {
                self.confirm_yes = false;
                TuiAction::Nothing
            },
            Key::Right => {
                self.confirm_yes = true;
                TuiAction::Nothing
            },
            Key::Esc => {
                self.deleting = None;
                TuiAction::Nothing
            },
            Key::Enter => {
                let position: usize = self.deleting.unwrap();
                self.deleting = None;
                if !self.confirm_yes {
                    return TuiAction::Nothing;
                }
                if let Some(alias) = self.alias_at(position) {
                    self.collection.remove(alias.as_str());
                }
                let left: usize = self.collection.hosts().len();
                let selected: usize = if left == 0 {
                    0
                } else if self.selected >= left {
                    left - 1
                } else {
                    self.selected
                };
                self.select(selected);
                TuiAction::Save
            },
            _ => TuiAction::Nothing,
        }
    }

    fn key_confirm(&mut self, key: Key) -> (r: TuiAction)
        requires
            old(self)@.wf(),
        ensures
            (final(self)@, r@) == old(self)@.press_confirm(key),
            final(self)@.wf(),
    {
        match key {
            Key::Left => {
                self.add_choice = false;
                TuiAction::Nothing
            },
            Key::Right => {
                self.add_choice = true;
                TuiAction::Nothing
            },
            Key::Esc => {
                self.adding = false;
                self.add_confirm_stage = false;
                TuiAction::Nothing
            },
            Key::Enter => {
                if !self.add_choice {
                    self.adding = false;
                    self.add_confirm_stage = false;
                    self.error_message = empty_text();
                    return TuiAction::Nothing;
                }
                match self.add.read_port() {
                    None => {
                        self.error_message = "⚠️ 端口需在 1 到 65535 之间".to_owned();
                        TuiAction::Nothing
                    },
                    Some(port) => {
                        let server = self.add.build(port);
                        let alias = self.add.alias.clone();
                        proof {
                            crate::server::put_then_find(
                                self@.collection,
                                alias@,
                                server@,
                                alias@,
                            );
                        }
                        self.collection.insert(alias.as_str(), server);
                        self.adding = false;
                        self.add_confirm_stage = false;
                        self.error_message = empty_text();
                        if let Some(position) = self.collection.position(alias.as_str()) {
                            self.select(position);
                        }
                        TuiAction::Save
                    },
                }
            },
            _ => TuiAction::Nothing,
        }
    }

    fn key_add(&mut self, key: Key) -> (r: TuiAction)
        requires
            old(self)@.wf(),
        ensures
            (final(self)@, r@) == old(self)@.press_add(key),
            final(self)@.wf(),
    {
        match key {
            Key::Tab => self.add.go_on(),
            Key::Enter => {
                self.add_confirm_stage = true;
                self.add_choice = false;
            },
            Key::Esc => {
                self.adding = false;
            },
            Key::Char(c) => self.add.type_in(c),
            Key::Backspace => self.add.erase(),
            _ => {},
        }
        TuiAction::Nothing
    }

    fn key_quick(&mut self, key: Key) -> (r: TuiAction)
        requires
            old(self)@.wf(),
        ensures
            (final(self)@, r@) == old(self)@.press_quick(key),
            final(self)@.wf(),
    {
        match key {
            Key::Enter => {
                if self.input.as_str().is_empty() {
                    return TuiAction::Nothing;
                }
                let wanted = self.input.clone();
                self.input = empty_text();
                self.quick_connect_focused = false;
                match self.collection.position(wanted.as_str()) {
                    Some(_) => TuiAction::Connect(wanted),
                    None => {
                        self.error_message = cat3("Server '", wanted.as_str(), "' not found");
                        TuiAction::Nothing
                    },
                }
            },
            Key::Esc => {
                self.input = empty_text();
                self.quick_connect_focused = false;
                TuiAction::Nothing
            },
            Key::Char(c) => {
                self.input.push(c);
                TuiAction::Nothing
            },
            Key::Backspace => {
                self.input = without_last(self.input.as_str());
                TuiAction::Nothing
            },
            _ => TuiAction::Nothing,
        }
    }

    /// Moves the selection down.
    pub fn next(&mut self)
        requires
            old(self)@.can_move(),
        ensures
            final(self)@ == old(self)@.go(below(old(self)@.highlight, old(self)@.collection.len())),
    {
        let len: usize = self.collection.hosts().len();
        let position: usize = match self.highlight {
            Some(i) => if i >= len - 1 {
                0
            } else {
                i + 1
            },
            None => 0,
        };
        self.select(position);
    }

    /// Moves the selection up.
    pub fn previous(&mut self)
        requires
            old(self)@.can_move(),
        ensures
            final(self)@ == old(self)@.go(above(old(self)@.highlight, old(self)@.collection.len())),
    {
        let len: usize = self.collection.hosts().len();
        let position: usize = match self.highlight {
            Some(i) => if i == 0 {
                len - 1
            } else {
                i - 1
            },
            None => 0,
        };
        self.select(position);
    }

    fn start_delete(&mut self)
        ensures
            final(self)@ == old(self)@.ask_delete(),
    {
        self.deleting = Some(self.selected);
        self.confirm_yes = false;
    }

    fn start_add(&mut self)
        requires
            old(self)@.wf(),
        ensures
            final(self)@ == old(self)@.ask_add(),
            final(self)@.wf(),
    {
        self.adding = true;
        self.add = Form {
            alias: empty_text(),
            username: "root".to_owned(),
            address: empty_text(),
            port: "22".to_owned(),
            field: 0,
        };
        self.add_confirm_stage = false;
        proof {
            reveal_strlit("22");
        }
    }

    fn start_edit(&mut self)
        requires
            old(self)@.wf(),
        ensures
            final(self)@ == old(self)@.ask_edit(),
            final(self)@.wf(),
    {
        let hosts = self.collection.hosts();
        if self.selected < hosts.len() {
            let e = &hosts[self.selected];
            let form = Form {
                alias: e.key.clone(),
                username: e.server.username.clone(),
                address: e.server.address.clone(),
                port: to_decimal(e.server.port as u64),
                field: 0,
            };
            proof {
                decimal_reads_back(e.server.port as nat);
            }
            self.edit = form;
            self.editing = Some(self.selected);
        }
    }

    fn key_list(&mut self, key: Key, ctrl: bool) -> (r: TuiAction)
        requires
            old(self)@.wf(),
            old(self)@.in_list(),
            old(self)@.takes(key),
        ensures
            (final(self)@, r@) == old(self)@.press_list(key, ctrl),
            final(self)@.wf(),
    {
        match key {
            Key::Down => {
                self.next();
                TuiAction::Nothing
            },
            Key::Up => {
                self.previous();
                TuiAction::Nothing
            },
            Key::Delete => {
                self.start_delete();
                TuiAction::Nothing
            },
            Key::Enter => match self.alias_at(self.selected) {
                Some(alias) => TuiAction::Connect(alias),
                None => TuiAction::Nothing,
            },
            Key::Char(c) => {
                if c == 'q' {
                    TuiAction::Quit
                } else {
                    if c == 'd' && ctrl {
                        self.start_delete();
                    } else if c == 'n' || c == 'N' {
                        self.start_add();
                    } else if c == 'e' || c == 'E' {
                        self.start_edit();
                    } else if c == 'h' || c == 'H' {
                        self.show_help = true;
                    }
                    TuiAction::Nothing
                }
            },
            _ => TuiAction::Nothing,
        }
    }

    /// Whether a key can be taken.
    pub fn accepts(&self, key: Key) -> (r: bool)
        ensures
            r == self@.takes(key),
    {
        let moves = match key {
            Key::Up | Key::Down => true,
            _ => false,
        };
        let in_list = self.editing.is_none() && self.deleting.is_none() && !self.adding
            && !self.show_help && !self.quick_connect_focused;
        !moves || !in_list || self.highlight.is_none() || !self.collection.is_empty()
    }

    /// Takes in a key, with whether the control key was held, and says what
    /// the program does.
    pub fn run(&mut self, key: Key, ctrl: bool) -> (r: TuiAction)
        requires
            old(self)@.wf(),
            old(self)@.takes(key),
        ensures
            (final(self)@, r@) == old(self)@.press(key, ctrl),
            final(self)@.wf(),
    {
        if self.editing.is_some() {
            self.key_edit(key)
        } else if self.deleting.is_some() {
            self.key_delete(key)
        } else if self.adding {
            if self.add_confirm_stage {
                self.key_confirm(key)
            } else {
                self.key_add(key)
            }
        } else if self.show_help {
            if key == Key::Esc || key == Key::Char('h') || key == Key::Char('H') || key
                == Key::Char('q') || key == Key::Char('Q') {
                self.show_help = false;
            }
            TuiAction::Nothing
        } else if key == Key::Char('f') && ctrl {
            self.quick_connect_focused = !self.quick_connect_focused;
            if !self.quick_connect_focused {
                self.input = empty_text();
            }
            TuiAction::Nothing
        } else if self.quick_connect_focused {
            self.key_quick(key)
        } else {
            self.key_list(key, ctrl)
        }
    }

    /// Takes in which row the table highlights after it was drawn.
    pub fn drawn(&mut self, highlight: Option<usize>)
        requires
            old(self)@.wf(),
        ensures
            final(self)@ == (TuiApp { highlight, ..old(self)@ }),
            final(self)@.wf(),
    {
        self.highlight = highlight;
    }

    /// Prepares a connection to the server under an alias at the time `now`:
    /// the time is noted, and the arguments of the ssh client are returned.
    pub fn connect(&mut self, alias: &str, now: i64) -> (r: Option<Vec<String>>)
        requires
            old(self)@.wf(),
        ensures
            final(self)@.wf(),
            match r {
                Some(args) => {
                    let server = host(old(self)@.collection, alias@)->Some_0;
                    &&& has_host(old(self)@.collection, alias@)
                    &&& texts(args@) == seq![login(server), port_argument(server)]
                    &&& final(self)@ == (TuiApp {
                        collection: put(
                            old(self)@.collection,
                            alias@,
                            Server {
                                alias: Some(alias@),
                                last_connect: Some(decimal_int(now as int)),
                                ..server
                            },
                        ),
                        ..old(self)@
                    })
                },
                None => !has_host(old(self)@.collection, alias@) && final(self)@ == old(self)@,
            },
    {
        let found = match self.collection.get(alias) {
            Some(s) => Some(s.clone()),
            None => None,
        };
        match found {
            Some(server) => {
                let args = ssh_arguments(&server);
                let mut server = server;
                server.alias = Some(alias.to_owned());
                server.set_last_connect(now);
                self.collection.insert(alias, server);
                Some(args)
            },
            None => None,
        }
    }

    /// Prepares a connection to the server under an alias at the present time.
    pub fn connect_now(&mut self, alias: &str) -> (r: Option<Vec<String>>)
        requires
            old(self)@.wf(),
        ensures
            final(self)@.wf(),
            match r {
                Some(args) => {
                    let server = host(old(self)@.collection, alias@)->Some_0;
                    &&& has_host(old(self)@.collection, alias@)
                    &&& texts(args@) == seq![login(server), port_argument(server)]
                    &&& exists|now: i64|
                        final(self)@ == (TuiApp {
                            collection: put(
                                old(self)@.collection,
                                alias@,
                                Server {
                                    alias: Some(alias@),
                                    last_connect: Some(#[trigger] decimal_int(now as int)),
                                    ..server
                                },
                            ),
                            ..old(self)@
                        })
                },
                None => !has_host(old(self)@.collection, alias@) && final(self)@ == old(self)@,
            },
    {
        let now: i64 = seconds_now();
        self.connect(alias, now)
    }
}

/// Servers change only by a key that stores them.
pub proof fn servers_change_only_when_stored(app: TuiState, key: Key, ctrl: bool)
    requires
        app.wf(),
    ensures
        app.press(key, ctrl).0.collection != app.collection ==> app.press(key, ctrl).1 is Save,
{
}

/// The escape key never changes a server, quits or connects.
pub proof fn escape_is_harmless(app: TuiState, ctrl: bool)
    requires
        app.wf(),
    ensures
        app.press(Key::Esc, ctrl).1 is Nothing,
        app.press(Key::Esc, ctrl).0.collection == app.collection,
{
}

/// The program quits by `q` alone, and only in the list of servers.
pub proof fn only_q_quits(app: TuiState, key: Key, ctrl: bool)
    ensures
        app.press(key, ctrl).1 is Quit <==> key == Key::Char('q') && app.editing is None
            && app.deleting is None && !app.adding && !app.show_help
            && !app.quick_connect_focused,
{
}

/// Deleting a server keeps the selection in the list.
pub proof fn selection_survives_deletion(app: TuiState)
    requires
        app.wf(),
        app.deleting is Some,
        app.editing is None,
        app.confirm_yes,
    ensures
        ({
            let after = app.press(Key::Enter, false).0;
            &&& after.deleting is None
            &&& after.collection.len() == 0 ==> after.selected == 0
            &&& after.collection.len() > 0 ==> after.selected < after.collection.len()
            &&& after.highlight == Some(after.selected)
        }),
{
}

/// A server that was added is found under its alias, and is the selected one.
pub proof fn added_server_is_selected(app: TuiState, ctrl: bool)
    requires
        app.wf(),
        app.editing is None,
        app.deleting is None,
        app.adding,
        app.add_confirm_stage,
        app.add_choice,
        app.add.port_number() is Some,
        app.collection.len() < usize::MAX,
    ensures
        ({
            let after = app.press(Key::Enter, ctrl).0;
            &&& host(after.collection, app.add.alias) == Some(app.add.server())
            &&& after.selected < after.collection.len()
            &&& after.collection[after.selected as int].key == app.add.alias
        }),
{
    let more = put(app.collection, app.add.alias, app.add.server());
    crate::server::put_then_find(
        app.collection,
        app.add.alias,
        app.add.server(),
        app.add.alias,
    );
    crate::server::host_is_at_its_place(more, app.add.alias);
    crate::server::put_length(app.collection, app.add.alias, app.add.server());
}

/// Opening a server for editing and storing it at once keeps its alias, user,
/// address and port; only when it was last connected to is forgotten. A port
/// of zero cannot be stored.
pub proof fn edit_without_change(app: TuiState, ctrl: bool)
    requires
        app.wf(),
        app.editing is None,
        app.deleting is None,
        !app.adding,
        !app.show_help,
        !app.quick_connect_focused,
        app.selected < app.collection.len(),
        app.collection[app.selected as int].server.port > 0,
    ensures
        ({
            let e = app.collection[app.selected as int];
            let opened = app.press(Key::Char('e'), ctrl).0;
            let stored = opened.press(Key::Enter, ctrl);
            &&& stored.1 is Save
            &&& stored.0.editing is None
            &&& host(stored.0.collection, e.key) == Some(
                Server { id: None, alias: Some(e.key), last_connect: None, ..e.server },
            )
        }),
{
    let e = app.collection[app.selected as int];
    let opened = app.press(Key::Char('e'), ctrl).0;
    decimal_reads_back(e.server.port as nat);
    assert(opened.edit.port_number() == Some(e.server.port as nat));
    removal_keeps_order(app.collection, e.key);
    crate::server::put_then_find(
        without(app.collection, e.key),
        e.key,
        opened.edit.server(),
        e.key,
    );
}

// ---------------------------------------------------------------------------
// What is shown
// ---------------------------------------------------------------------------

/// A field of a form on the screen.
pub struct FieldBox<S = String> {
    pub label: S,
    pub value: S,
    pub active: bool,
}

impl View for FieldBox<String> {
    type V = FieldBox<Seq<char>>;

    open spec fn view(&self) -> FieldBox<Seq<char>> {
        FieldBox { label: self.label@, value: self.value@, active: self.active }
    }
}

/// The fields of a form on the screen.
pub open spec fn form_boxes(form: Form<Seq<char>>) -> Seq<FieldBox<Seq<char>>> {
    seq![
        FieldBox { label: "Alias"@, value: form.alias, active: form.field == 0 },
        FieldBox { label: "Username"@, value: form.username, active: form.field == 1 },
        FieldBox { label: "Address"@, value: form.address, active: form.field == 2 },
        FieldBox { label: "Port"@, value: form.port, active: form.field == 3 },
    ]
}

fn make_box(label: &str, value: &String, active: bool) -> (r: FieldBox)
    ensures
        r@ == (FieldBox { label: label@, value: value@, active }),
{
    FieldBox { label: label.to_owned(), value: value.clone(), active }
}

fn make_boxes(form: &Form) -> (r: Vec<FieldBox>)
    ensures
        r@.map_values(|b: FieldBox| b@) == form_boxes(form@),
{
    let mut v: Vec<FieldBox> = Vec::new();
    v.push(make_box("Alias", &form.alias, form.field == 0));
    v.push(make_box("Username", &form.username, form.field == 1));
    v.push(make_box("Address", &form.address, form.field == 2));
    v.push(make_box("Port", &form.port, form.field == 3));
    proof {
        assert(v@.map_values(|b: FieldBox| b@) =~= form_boxes(form@));
    }
    v
}

/// A row of the table of servers on the screen: number, alias, user, address,
/// port and last connection, each cut and filled to its width.
pub struct ScreenRow<S = String> {
    pub number: S,
    pub alias: S,
    pub username: S,
    pub address: S,
    pub port: S,
    pub last_connect: S,
    pub highlighted: bool,
}

impl View for ScreenRow<String> {
    type V = ScreenRow<Seq<char>>;

    open spec fn view(&self) -> ScreenRow<Seq<char>> {
        ScreenRow {
            number: self.number@,
            alias: self.alias@,
            username: self.username@,
            address: self.address@,
            port: self.port@,
            last_connect: self.last_connect@,
            highlighted: self.highlighted,
        }
    }
}

/// A text cut and filled to a width.
pub open spec fn cell(s: Seq<char>, width: nat) -> Seq<char> {
    pad_right(clip(s, width), width)
}

fn make_cell(s: &str, width: usize) -> (r: String)
    ensures
        r@ == cell(s@, width as nat),
{
    flush_left(clipped(s, width).as_str(), width)
}

/// The row of the server at a position, at the time `now`.
pub open spec fn screen_row(
    e: HostEntry<Seq<char>>,
    position: int,
    highlight: Option<usize>,
    now: int,
) -> ScreenRow<Seq<char>> {
    ScreenRow {
        number: pad_left(decimal((position + 1) as nat), 2),
        alias: cell(e.key, 15),
        username: cell(e.server.username, 12),
        address: cell(e.server.address, 20),
        port: pad_left(decimal(e.server.port as nat), 5),
        last_connect: cell(last_seen(e.server.last_connect, now), 19),
        highlighted: highlight is Some && highlight->Some_0 == position,
    }
}

/// What is shown. `R` are rows of the table, `B` fields of a form, `L` lines.
pub enum Screen<S = String, R = Vec<ScreenRow>, B = Vec<FieldBox>, L = Vec<String>> {
    /// A server is edited.
    Edit { boxes: B, error: Option<S> },
    /// A new server is entered.
    Add { boxes: B, error: Option<S> },
    /// It is asked whether a server is to be added: the lines above the two
    /// answers, and whether the answer is yes.
    ConfirmAdd { lines: L, yes: bool },
    /// The list of servers. `delete` holds the answer to the question whether
    /// a server is to be deleted, while that is asked.
    Main {
        input: S,
        input_title: S,
        focused: bool,
        table_title: S,
        rows: R,
        status: S,
        delete: Option<bool>,
        help: bool,
    },
}

/// What is shown, as mathematical values.
pub type ScreenView = Screen<
    Seq<char>,
    Seq<ScreenRow<Seq<char>>>,
    Seq<FieldBox<Seq<char>>>,
    Seq<Seq<char>>,
>;

impl View for Screen<String, Vec<ScreenRow>, Vec<FieldBox>, Vec<String>> {
    type V = ScreenView;

    open spec fn view(&self) -> ScreenView {
        match self {
            Screen::Edit { boxes, error } => Screen::Edit {
                boxes: boxes@.map_values(|b: FieldBox| b@),
                error: crate::server::opt(*error),
            },
            Screen::Add { boxes, error } => Screen::Add {
                boxes: boxes@.map_values(|b: FieldBox| b@),
                error: crate::server::opt(*error),
            },
            Screen::ConfirmAdd { lines, yes } => Screen::ConfirmAdd {
                lines: texts(lines@),
                yes: *yes,
            },
            Screen::Main {
                input,
                input_title,
                focused,
                table_title,
                rows,
                status,
                delete,
                help,
            } => Screen::Main {
                input: input@,
                input_title: input_title@,
                focused: *focused,
                table_title: table_title@,
                rows: rows@.map_values(|r: ScreenRow| r@),
                status: status@,
                delete: *delete,
                help: *help,
            },
        }
    }
}

impl TuiApp<Seq<char>, Hosts> {
    /// The error that is shown, if any.
    pub open spec fn shown_error(self) -> Option<Seq<char>> {
        if self.error_message.len() == 0 {
            None
        } else {
            Some(self.error_message)
        }
    }

    /// The lines of the question whether a server is to be added, above the
    /// two answers. An error stands first.
    pub open spec fn add_lines(self) -> Seq<Seq<char>> {
        let lines = seq![
            "Add this server?"@,
            "Alias: "@ + self.add.alias,
            "Username: "@ + self.add.username,
            "Address: "@ + self.add.address,
            "Port: "@ + self.add.port,
            Seq::empty(),
        ];
        if self.error_message.len() == 0 {
            lines
        } else {
            seq![self.error_message, Seq::empty()] + lines
        }
    }

    /// The rows of the table.
    pub open spec fn rows(self, now: int) -> Seq<ScreenRow<Seq<char>>> {
        Seq::new(
            self.collection.len(),
            |i: int| screen_row(self.collection[i], i, self.highlight, now),
        )
    }

    /// The line below the table.
    pub open spec fn status(self) -> Seq<char> {
        match self.highlight {
            Some(i) => if i < self.collection.len() {
                "Selected: "@ + self.collection[i as int].key
            } else {
                "No server selected"@
            },
            None => "No server selected"@,
        }
    }

    /// What is shown, at the time `now`.
    pub open spec fn screen(self, now: int) -> ScreenView {
        if self.editing is Some {
            Screen::Edit { boxes: form_boxes(self.edit), error: self.shown_error() }
        } else if self.adding {
            if self.add_confirm_stage {
                Screen::ConfirmAdd { lines: self.add_lines(), yes: self.add_choice }
            } else {
                Screen::Add { boxes: form_boxes(self.add), error: self.shown_error() }
            }
        } else {
            Screen::Main {
                input: self.input,
                input_title: if self.quick_connect_focused {
                    "🔍 Quick Connect (FOCUSED)"@
                } else {
                    "🔍 Quick Connect"@
                },
                focused: self.quick_connect_focused,
                table_title: "📋 Servers ("@ + decimal(self.collection.len()) + ")"@,
                rows: self.rows(now),
                status: self.status(),
                delete: if self.deleting is Some {
                    Some(self.confirm_yes)
                } else {
                    None
                },
                help: self.show_help,
            }
        }
    }
}

impl TuiApp {
    fn error_shown(&self) -> (r: Option<String>)
        ensures
            crate::server::opt(r) == self@.shown_error(),
    {
        if self.error_message.as_str().is_empty() {
            None
        } else {
            Some(self.error_message.clone())
        }
    }

    fn question_lines(&self) -> (r: Vec<String>)
        ensures
            texts(r@) == self@.add_lines(),
    {
        let mut v: Vec<String> = Vec::new();
        if !self.error_message.as_str().is_empty() {
            v.push(self.error_message.clone());
            v.push(empty_text());
        }
        v.push("Add this server?".to_owned());
        v.push(cat2("Alias: ", self.add.alias.as_str()));
        v.push(cat2("Username: ", self.add.username.as_str()));
        v.push(cat2("Address: ", self.add.address.as_str()));
        v.push(cat2("Port: ", self.add.port.as_str()));
        v.push(empty_text());
        proof {
            assert(texts(v@) =~= self@.add_lines());
        }
        v
    }

    fn table_rows(&self, now: i64) -> (r: Vec<ScreenRow>)
        requires
            self@.collection.len() < usize::MAX,
        ensures
            r@.map_values(|row: ScreenRow| row@) == self@.rows(now as int),
    {
        let hosts = self.collection.hosts();
        let mut rows: Vec<ScreenRow> = Vec::new();
        let mut i: usize = 0;
        while i < hosts.len()
            invariant
                i <= hosts.len(),
                hosts.len() < usize::MAX,
                hosts.len() == self@.collection.len(),
                forall|j: int| 0 <= j < hosts.len() ==> (#[trigger] hosts@[j])@
                    == self@.collection[j],
                rows.len() == i,
                forall|j: int|
                    0 <= j < i ==> (#[trigger] rows@[j])@ == screen_row(
                        self@.collection[j],
                        j,
                        self@.highlight,
                        now as int,
                    ),
            decreases hosts.len() - i,
        {
            let e = &hosts[i];
            let shown = last_connect_display(&e.server.last_connect, now);
            let highlighted = match self.highlight {
                Some(h) => h == i,
                None => false,
            };
            let row = ScreenRow {
                number: flush_right(to_decimal((i + 1) as u64).as_str(), 2),
                alias: make_cell(e.key.as_str(), 15),
                username: make_cell(e.server.username.as_str(), 12),
                address: make_cell(e.server.address.as_str(), 20),
                port: flush_right(to_decimal(e.server.port as u64).as_str(), 5),
                last_connect: make_cell(shown.as_str(), 19),
                highlighted,
            };
            proof {
                assert(hosts@[i as int]@ == self@.collection[i as int]);
            }
            rows.push(row);
            i = i + 1;
        }
        proof {
            assert(rows@.map_values(|row: ScreenRow| row@) =~= self@.rows(now as int));
        }
        rows
    }

    fn status_line(&self) -> (r: String)
        ensures
            r@ == self@.status(),
    {
        match self.highlight {
            Some(i) => match self.alias_at(i) {
                Some(alias) => cat2("Selected: ", alias.as_str()),
                None => "No server selected".to_owned(),
            },
            None => "No server selected".to_owned(),
        }
    }

    /// What is shown, at the time `now`.
    pub fn ui(&self, now: i64) -> (r: Screen)
        requires
            self@.collection.len() < usize::MAX,
        ensures
            r@ == self@.screen(now as int),
    {
        if self.editing.is_some() {
            Screen::Edit { boxes: make_boxes(&self.edit), error: self.error_shown() }
        } else if self.adding {
            if self.add_confirm_stage {
                Screen::ConfirmAdd { lines: self.question_lines(), yes: self.add_choice }
            } else {
                Screen::Add { boxes: make_boxes(&self.add), error: self.error_shown() }
            }
        } else {
            let count = to_decimal(self.collection.hosts().len() as u64);
            Screen::Main {
                input: self.input.clone(),
                input_title: if self.quick_connect_focused {
                    "🔍 Quick Connect (FOCUSED)".to_owned()
                } else {
                    "🔍 Quick Connect".to_owned()
                },
                focused: self.quick_connect_focused,
                table_title: cat3("📋 Servers (", count.as_str(), ")"),
                rows: self.table_rows(now),
                status: self.status_line(),
                delete: if self.deleting.is_some() {
                    Some(self.confirm_yes)
                } else {
                    None
                },
                help: self.show_help,
            }
        }
    }

    /// What is shown, at the present time.
    pub fn ui_now(&self) -> (r: Screen)
        requires
            self@.collection.len() < usize::MAX,
        ensures
            exists|now: i64| r@ == #[trigger] self@.screen(now as int),
    {
        let now: i64 = seconds_now();
        self.ui(now)
    }
}

/// A cell has exactly its width, whatever it holds, so that columns line up.
pub proof fn cells_have_their_width(s: Seq<char>, width: nat)
    ensures
        cell(s, width).len() == width,
{
}

/// A deletion that is confirmed takes out the server that it was asked about
/// and no other: its alias leads nowhere, every other alias leads where it led,
/// and one server fewer is left.
pub proof fn confirmed_deletion_takes_the_one_asked_about(app: TuiState, other: Seq<char>, ctrl: bool)
    requires
        app.wf(),
        app.editing is None,
        app.deleting matches Some(i) && i < app.collection.len(),
        app.confirm_yes,
    ensures
        ({
            let asked = app.collection[app.deleting->Some_0 as int].key;
            let after = app.press(Key::Enter, ctrl);
            &&& after.1 is Save
            &&& host(after.0.collection, asked) is None
            &&& other != asked ==> host(after.0.collection, other) == host(app.collection, other)
            &&& after.0.collection.len() == app.collection.len() - 1
        }),
{
    let i = app.deleting->Some_0 as int;
    let asked = app.collection[i].key;
    crate::server::each_server_is_found(app.collection, i);
    crate::server::removed_then_find(app.collection, asked, other);
}

/// Deleting is about the selected server: from the list, the key for it, the
/// answer yes and the confirmation take out that server. Without the answer
/// yes nothing is taken out.
pub proof fn deletion_is_about_the_selected_server(app: TuiState, other: Seq<char>, ctrl: bool)
    requires
        app.wf(),
        app.in_list(),
        app.selected < app.collection.len(),
    ensures
        ({
            let selected = app.collection[app.selected as int].key;
            let asked = app.press(Key::Delete, ctrl);
            let confirmed = asked.0.press(Key::Right, ctrl).0.press(Key::Enter, ctrl);
            let taken_back = asked.0.press(Key::Right, ctrl).0.press(Key::Left, ctrl).0.press(
                Key::Enter,
                ctrl,
            );
            &&& asked.1 is Nothing
            &&& app.press(Key::Char('d'), true) == asked
            &&& host(confirmed.0.collection, selected) is None
            &&& other != selected ==> host(confirmed.0.collection, other) == host(
                app.collection,
                other,
            )
            &&& asked.0.press(Key::Enter, ctrl).0.collection == app.collection
            &&& taken_back.0.collection == app.collection
            &&& taken_back.0.in_list()
            &&& asked.0.press(Key::Esc, ctrl).0.in_list()
        }),
{
    let asked = app.press(Key::Delete, ctrl).0;
    let yes = asked.press(Key::Right, ctrl).0;
    confirmed_deletion_takes_the_one_asked_about(yes, other, ctrl);
}

/// A server that was edited is stored under the alias in the form, with the
/// user, address and port in it. The alias that it had leads nowhere any more,
/// unless it is kept, and every other alias leads where it led.
pub proof fn edited_server_is_stored(app: TuiState, other: Seq<char>, ctrl: bool)
    requires
        app.wf(),
        app.editing matches Some(i) && i < app.collection.len(),
        app.edit.port_number() is Some,
    ensures
        ({
            let before = app.collection[app.editing->Some_0 as int].key;
            let after = app.press(Key::Enter, ctrl);
            &&& after.1 is Save
            &&& after.0.editing is None
            &&& host(after.0.collection, app.edit.alias) matches Some(s) && s.alias == Some(
                app.edit.alias,
            ) && s.username == app.edit.username && s.address == app.edit.address
                && read_nat(app.edit.port) == Some(s.port as nat) && s.port >= 1
            &&& before != app.edit.alias ==> host(after.0.collection, before) is None
            &&& other != before && other != app.edit.alias ==> host(after.0.collection, other)
                == host(app.collection, other)
        }),
{
    let before = app.collection[app.editing->Some_0 as int].key;
    let left = without(app.collection, before);
    removal_keeps_order(app.collection, before);
    crate::server::removed_then_find(app.collection, before, other);
    crate::server::put_then_find(left, app.edit.alias, app.edit.server(), other);
    crate::server::put_then_find(left, app.edit.alias, app.edit.server(), before);
}

/// Editing starts from the selected server as it is: the form holds its alias,
/// user, address and port.
pub proof fn editing_starts_from_the_selected_server(app: TuiState, ctrl: bool)
    requires
        app.wf(),
        app.in_list(),
        app.selected < app.collection.len(),
    ensures
        ({
            let e = app.collection[app.selected as int];
            let opened = app.press(Key::Char('e'), ctrl);
            &&& opened.0.editing == Some(app.selected)
            &&& opened.0.edit.alias == e.key
            &&& opened.0.edit.username == e.server.username
            &&& opened.0.edit.address == e.server.address
            &&& read_nat(opened.0.edit.port) == Some(e.server.port as nat)
            &&& opened.0.edit.field == 0
            &&& opened.0.collection == app.collection
            &&& opened.1 is Nothing
            &&& app.press(Key::Char('E'), ctrl) == opened
            &&& opened.0.press(Key::Esc, ctrl).0.in_list()
        }),
{
    decimal_reads_back(app.collection[app.selected as int].server.port as nat);
}

/// A server that is added has the alias, user, address and port in the form,
/// and every other alias leads where it led.
pub proof fn added_server_is_the_one_entered(app: TuiState, other: Seq<char>, ctrl: bool)
    requires
        app.wf(),
        app.editing is None,
        app.deleting is None,
        app.adding,
        app.add_confirm_stage,
        app.add_choice,
        app.add.port_number() is Some,
    ensures
        ({
            let after = app.press(Key::Enter, ctrl);
            &&& after.1 is Save
            &&& !after.0.adding
            &&& host(after.0.collection, app.add.alias) matches Some(s) && s.alias == Some(
                app.add.alias,
            ) && s.username == app.add.username && s.address == app.add.address
                && read_nat(app.add.port) == Some(s.port as nat) && s.port >= 1
            &&& other != app.add.alias ==> host(after.0.collection, other) == host(
                app.collection,
                other,
            )
        }),
{
    crate::server::put_then_find(app.collection, app.add.alias, app.add.server(), other);
}

/// Adding a server takes three keys after the form: the one that opens it, the
/// question, and the answer yes. Until then the servers stay as they are.
pub proof fn adding_is_asked_about(app: TuiState, key: Key, ctrl: bool)
    requires
        app.wf(),
        app.editing is None,
        app.deleting is None,
        app.adding,
    ensures
        app.press(key, ctrl).0.collection != app.collection ==> app.add_confirm_stage
            && app.add_choice && key == Key::Enter && app.add.port_number() is Some,
        !app.add_confirm_stage ==> {
            let asked = app.press(Key::Enter, ctrl).0;
            &&& asked.adding
            &&& asked.add_confirm_stage
            &&& !asked.add_choice
            &&& asked.add == app.add
            &&& asked.press(Key::Right, ctrl).0.add_choice
            &&& asked.press(Key::Right, ctrl).0.add == app.add
            &&& !asked.press(Key::Right, ctrl).0.press(Key::Left, ctrl).0.add_choice
            &&& !asked.press(Key::Enter, ctrl).0.adding
        },
        app.press(Key::Esc, ctrl).0.adding == false,
        app.add_confirm_stage && app.add_choice && app.add.port_number() is None ==> {
            &&& app.press(Key::Enter, ctrl).0.adding
            &&& app.press(Key::Enter, ctrl).0.error_message == port_error()
        },
{
}

/// From the list, a new server starts with an empty alias and address, the
/// user `root` and the port of SSH.
pub proof fn new_server_starts_with_the_usual(app: TuiState, ctrl: bool)
    requires
        app.wf(),
        app.in_list(),
    ensures
        ({
            let opened = app.press(Key::Char('n'), ctrl);
            &&& opened.0.adding
            &&& !opened.0.add_confirm_stage
            &&& opened.0.add.alias.len() == 0
            &&& opened.0.add.username == "root"@
            &&& opened.0.add.address.len() == 0
            &&& opened.0.add.port_number() == Some(22nat)
            &&& opened.0.add.field == 0
            &&& opened.0.collection == app.collection
            &&& app.press(Key::Char('N'), ctrl) == opened
        }),
{
    reveal_strlit("22");
    let p = "22"@;
    reveal_with_fuel(crate::number::value_of, 3);
    assert(p.drop_last().drop_last() =~= Seq::<char>::empty());
    assert(p.len() == 2 && p[0] == '2' && p[1] == '2');
    assert(p.drop_last()[0] == '2');
    assert(read_nat(p) == Some(22nat));
}

/// The text in the active field of a form.
pub open spec fn active_text(form: Form<Seq<char>>) -> Seq<char> {
    form_boxes(form)[form.field as int].value
}

/// A character goes to the end of the active field, where it may stand there,
/// and to no other; erasing takes it away again. Going on leaves the fields as
/// they are, makes another one active, and comes round after all of them.
pub proof fn forms_take_what_is_typed(form: Form<Seq<char>>, c: char)
    requires
        form.wf(),
    ensures
        form.typed(c).wf(),
        form.typed(c).field == form.field,
        form.field < 3 || is_digit(c) ==> active_text(form.typed(c)) == active_text(form).push(c),
        form.field == 3 && !is_digit(c) ==> form.typed(c) == form,
        forall|i: int|
            0 <= i < 4 && i != form.field ==> (#[trigger] form_boxes(form.typed(c))[i]).value
                == form_boxes(form)[i].value,
        form.field < 3 || is_digit(c) ==> form.typed(c).erased() == form,
        forall|i: int|
            0 <= i < 4 && i != form.field ==> (#[trigger] form_boxes(form.erased())[i]).value
                == form_boxes(form)[i].value,
        form.erased().field == form.field,
        active_text(form).len() == 0 ==> form.erased() == form,
        active_text(form).len() > 0 ==> active_text(form.erased()) == active_text(form).drop_last(),
        form.onward().field != form.field,
        (Form { field: form.field, ..form.onward() }) == form,
        form.onward().onward().onward().onward() == form,
{
    assert(drop_tail(form.alias.push(c)) =~= form.alias);
    assert(drop_tail(form.username.push(c)) =~= form.username);
    assert(drop_tail(form.address.push(c)) =~= form.address);
    assert(drop_tail(form.port.push(c)) =~= form.port);
    assert forall|i: int| 0 <= i < form.typed(c).port.len() implies is_digit(
        #[trigger] form.typed(c).port[i],
    ) by {
        if i < form.port.len() {
            assert(form.typed(c).port[i] == form.port[i]);
        }
    }
    if active_text(form).len() == 0 {
        assert(drop_tail(active_text(form)) =~= active_text(form));
    } else {
        assert(drop_tail(active_text(form)) =~= active_text(form).drop_last());
    }
}

/// A form on the screen shows its four fields under their names, in the order
/// in which the active one goes through them, and marks that one alone.
pub proof fn forms_are_shown(form: Form<Seq<char>>)
    requires
        form.wf(),
    ensures
        form_boxes(form).len() == 4,
        form_boxes(form)[0].label == "Alias"@ && form_boxes(form)[0].value == form.alias,
        form_boxes(form)[1].label == "Username"@ && form_boxes(form)[1].value == form.username,
        form_boxes(form)[2].label == "Address"@ && form_boxes(form)[2].value == form.address,
        form_boxes(form)[3].label == "Port"@ && form_boxes(form)[3].value == form.port,
        forall|i: int|
            0 <= i < 4 ==> ((#[trigger] form_boxes(form)[i]).active <==> i == form.field),
{
}

/// Keys that are typed go to the form that is open, and nothing else changes.
pub proof fn typing_goes_to_the_open_form(app: TuiState, c: char, ctrl: bool)
    requires
        app.wf(),
    ensures
        app.editing is Some ==> {
            &&& app.press(Key::Char(c), ctrl).0 == (TuiApp { edit: app.edit.typed(c), ..app })
            &&& app.press(Key::Backspace, ctrl).0 == (TuiApp { edit: app.edit.erased(), ..app })
            &&& app.press(Key::Tab, ctrl).0 == (TuiApp { edit: app.edit.onward(), ..app })
        },
        app.editing is None && app.deleting is None && app.adding && !app.add_confirm_stage ==> {
            &&& app.press(Key::Char(c), ctrl).0 == (TuiApp { add: app.add.typed(c), ..app })
            &&& app.press(Key::Backspace, ctrl).0 == (TuiApp { add: app.add.erased(), ..app })
            &&& app.press(Key::Tab, ctrl).0 == (TuiApp { add: app.add.onward(), ..app })
        },
{
}

/// An edit whose port is none is refused: the form stays open, the servers stay
/// as they are, and the user is told.
pub proof fn edit_with_a_bad_port_is_refused(app: TuiState, ctrl: bool)
    requires
        app.wf(),
        app.editing is Some,
        app.edit.port_number() is None,
    ensures
        app.press(Key::Enter, ctrl).0 == (TuiApp { error_message: port_error(), ..app }),
        app.press(Key::Enter, ctrl).1 is Nothing,
{
}

/// A port is a number from 1 to 65535, written in digits.
pub proof fn ports_are_numbers_in_range(form: Form<Seq<char>>)
    ensures
        form.port_number() matches Some(p) ==> 1 <= p <= 65535 && read_nat(form.port) == Some(p),
        form.port_number() is None <==> read_nat(form.port) is None || read_nat(form.port)
            == Some(0nat) || read_nat(form.port)->Some_0 > 65535,
{
}

/// The selection goes down and up by one place at a time and comes round at
/// either end, so that the one undoes the other; the servers stay as they are.
pub proof fn selection_moves_by_one(app: TuiState, ctrl: bool)
    requires
        app.wf(),
        app.in_list(),
        app.highlight == Some(app.selected),
        app.selected < app.collection.len() <= usize::MAX,
    ensures
        ({
            let n = app.collection.len();
            let down = app.press(Key::Down, ctrl).0;
            let up = app.press(Key::Up, ctrl).0;
            &&& down.selected == (app.selected + 1) % (n as int)
            &&& down.selected == (up.selected + 2) % (n as int)
            &&& up.selected < n
            &&& (up.selected + 1) % (n as int) == app.selected
            &&& down.highlight == Some(down.selected)
            &&& up.highlight == Some(up.selected)
            &&& down == TuiApp { selected: down.selected, highlight: down.highlight, ..app }
            &&& up == TuiApp { selected: up.selected, highlight: up.highlight, ..app }
            &&& down.press(Key::Up, ctrl).0 == app
            &&& up.press(Key::Down, ctrl).0 == app
        }),
{
    let n = app.collection.len() as int;
    let s = app.selected as int;
    if s + 1 < n {
        vstd::arithmetic::div_mod::lemma_small_mod((s + 1) as nat, n as nat);
    } else {
        vstd::arithmetic::div_mod::lemma_mod_self_0(n);
    }
    vstd::arithmetic::div_mod::lemma_small_mod(s as nat, n as nat);
    if s == 0 {
        vstd::arithmetic::div_mod::lemma_mod_self_0(n);
        vstd::arithmetic::div_mod::lemma_mod_add_multiples_vanish(1, n);
        assert((n - 1 + 2) % n == 1int % n);
        assert(0 < n);
        if n == 1 {
            assert((0int + 1) % n == 0);
            assert(1int % 1 == 0);
        }
    } else {
        assert((s - 1 + 2) % n == (s + 1) % n);
    }
}

/// The program connects to servers that it knows, and to no others: in the list
/// to the selected one, and by quick connect to the one whose alias was typed,
/// exactly where there is one.
pub proof fn connections_are_to_known_servers(app: TuiState, key: Key, ctrl: bool)
    requires
        app.wf(),
    ensures
        app.press(key, ctrl).1 matches TuiAction::Connect(alias) ==> host(
            app.collection,
            alias,
        ) is Some && key == Key::Enter,
        app.in_list() && app.selected < app.collection.len() ==> app.press(Key::Enter, ctrl)
            == (app, TuiAction::Connect(app.collection[app.selected as int].key)),
        app.quick_connect_focused && app.editing is None && app.deleting is None && !app.adding
            && !app.show_help ==> {
            let entered = app.press(Key::Enter, ctrl);
            &&& host(app.collection, app.input) is Some && app.input.len() > 0 <==> entered.1
                == TuiAction::Connect(app.input)
            &&& entered.1 is Connect ==> !entered.0.quick_connect_focused
                && entered.0.input.len() == 0
            &&& host(app.collection, app.input) is None && app.input.len() > 0
                ==> crate::text::has_part(entered.0.error_message, app.input)
        },
{
    if app.selected < app.collection.len() {
        crate::server::each_server_is_found(app.collection, app.selected as int);
    }
    let message = "Server '"@ + app.input + "' not found"@;
    let at = "Server '"@.len() as int;
    assert(message.subrange(at, at + app.input.len()) =~= app.input);
}

/// What is typed for quick connect is what it looks for.
pub proof fn quick_connect_takes_what_is_typed(app: TuiState, c: char)
    requires
        app.wf(),
        app.editing is None,
        app.deleting is None,
        !app.adding,
        !app.show_help,
        app.quick_connect_focused,
    ensures
        app.press(Key::Char(c), false).0 == (TuiApp { input: app.input.push(c), ..app }),
        app.press(Key::Char(c), false).0.press(Key::Backspace, false).0 == app,
        !app.press(Key::Esc, false).0.quick_connect_focused,
        app.press(Key::Esc, false).0.input.len() == 0,
        !app.press(Key::Char('f'), true).0.quick_connect_focused,
        app.press(Key::Char('f'), true).0.press(
            Key::Char('f'),
            true,
        ).0.quick_connect_focused,
{
    assert(drop_tail(app.input.push(c)) =~= app.input);
}

/// The table shows every server in its order, under its number, with its alias,
/// user, address and port as far as they fit, and marks the highlighted one
/// alone.
pub proof fn table_shows_every_server(app: TuiState, now: int, i: int)
    requires
        0 <= i < app.collection.len(),
    ensures
        ({
            let e = app.collection[i];
            let row = app.rows(now)[i];
            &&& app.rows(now).len() == app.collection.len()
            &&& trim(row.number) == decimal((i + 1) as nat)
            &&& trim(row.port) == decimal(e.server.port as nat)
            &&& e.key.len() <= 15 ==> row.alias.len() == 15 && row.alias.take(
                e.key.len() as int,
            ) == e.key
            &&& e.key.len() > 15 ==> row.alias == e.key.take(15)
            &&& e.server.username.len() <= 12 ==> row.username.len() == 12 && row.username.take(
                e.server.username.len() as int,
            ) == e.server.username
            &&& e.server.username.len() > 12 ==> row.username == e.server.username.take(12)
            &&& e.server.address.len() <= 20 ==> row.address.len() == 20 && row.address.take(
                e.server.address.len() as int,
            ) == e.server.address
            &&& e.server.address.len() > 20 ==> row.address == e.server.address.take(20)
            &&& row.last_connect.len() == 19
            &&& last_seen(e.server.last_connect, now).len() <= 19 ==> row.last_connect.take(
                last_seen(e.server.last_connect, now).len() as int,
            ) == last_seen(e.server.last_connect, now)
            &&& row.highlighted <==> (app.highlight matches Some(at) && at == i)
        }),
{
    let e = app.collection[i];
    crate::number::decimal_is_digits((i + 1) as nat);
    crate::number::decimal_is_digits(e.server.port as nat);
    lemma_pad_left_trims(decimal((i + 1) as nat), 2);
    lemma_pad_left_trims(decimal(e.server.port as nat), 5);
    let row = app.rows(now)[i];
    let seen = last_seen(e.server.last_connect, now);
    if seen.len() <= 19 {
        assert(row.last_connect.take(seen.len() as int) =~= seen);
    }
    if e.key.len() <= 15 {
        assert(row.alias.take(e.key.len() as int) =~= e.key);
    } else {
        assert(row.alias =~= e.key.take(15));
    }
    if e.server.username.len() <= 12 {
        assert(row.username.take(e.server.username.len() as int) =~= e.server.username);
    } else {
        assert(row.username =~= e.server.username.take(12));
    }
    if e.server.address.len() <= 20 {
        assert(row.address.take(e.server.address.len() as int) =~= e.server.address);
    } else {
        assert(row.address =~= e.server.address.take(20));
    }
}

proof fn lemma_pad_left_trims(s: Seq<char>, w: nat)
    requires
        s.len() > 0,
        forall|j: int| 0 <= j < s.len() ==> !crate::text::is_space(#[trigger] s[j]),
    ensures
        trim(pad_left(s, w)) == s,
{
    let p = pad_left(s, w);
    let k = (p.len() - s.len()) as int;
    assert forall|j: int| 0 <= j < k implies crate::text::is_space(#[trigger] p[j]) by {}
    crate::text::lemma_trim_start_is(p, k);
    assert(p.skip(k) =~= s);
    crate::text::lemma_trim_end_is(s, s.len() as int);
    assert(s.take(s.len() as int) =~= s);
}

/// The screen is that of what is going on: the form while a server is edited or
/// entered, the question before one is added, and else the list, with the
/// question before a deletion, the help, and what was typed for quick connect.
pub proof fn screen_shows_what_is_going_on(app: TuiState, now: int)
    ensures
        app.screen(now) matches Screen::Edit { boxes, error } ==> app.editing is Some && boxes
            == form_boxes(app.edit),
        app.editing is Some ==> app.screen(now) is Edit,
        app.screen(now) matches Screen::Add { boxes, error } ==> boxes == form_boxes(app.add),
        app.screen(now) is Add <==> app.editing is None && app.adding && !app.add_confirm_stage,
        app.screen(now) is ConfirmAdd <==> app.editing is None && app.adding
            && app.add_confirm_stage,
        app.screen(now) matches Screen::ConfirmAdd { lines, yes } ==> yes == app.add_choice
            && lines.contains("Alias: "@ + app.add.alias) && lines.contains(
            "Username: "@ + app.add.username,
        ) && lines.contains("Address: "@ + app.add.address) && lines.contains(
            "Port: "@ + app.add.port,
        ) && (app.error_message.len() > 0 ==> lines[0] == app.error_message),
        app.screen(now) is Main <==> app.editing is None && !app.adding,
        app.screen(now) matches Screen::Main {
            input,
            input_title,
            focused,
            table_title,
            rows,
            status,
            delete,
            help,
        } ==> {
            &&& input == app.input
            &&& focused == app.quick_connect_focused
            &&& rows == app.rows(now)
            &&& delete is Some <==> app.deleting is Some
            &&& delete matches Some(yes) ==> yes == app.confirm_yes
            &&& help == app.show_help
            &&& (app.highlight matches Some(i) && i < app.collection.len())
                ==> crate::text::has_part(status, app.collection[app.highlight->Some_0 as int].key)
            &&& crate::text::has_part(table_title, decimal(app.collection.len()))
        },
        app.error_message.len() > 0 ==> {
            &&& app.screen(now) matches Screen::Edit { boxes, error } ==> error == Some(
                app.error_message,
            )
            &&& app.screen(now) matches Screen::Add { boxes, error } ==> error == Some(
                app.error_message,
            )
        },
{
    if app.screen(now) is ConfirmAdd {
        let lines = app.add_lines();
        let k: int = if app.error_message.len() == 0 {
            0
        } else {
            2
        };
        assert(lines[k + 1] == "Alias: "@ + app.add.alias);
        assert(lines[k + 2] == "Username: "@ + app.add.username);
        assert(lines[k + 3] == "Address: "@ + app.add.address);
        assert(lines[k + 4] == "Port: "@ + app.add.port);
    }
    if app.screen(now) is Main {
        if let Some(i) = app.highlight {
            if i < app.collection.len() {
                let key = app.collection[i as int].key;
                let at = "Selected: "@.len() as int;
                assert(app.status().subrange(at, at + key.len()) =~= key);
            }
        }
        let number = decimal(app.collection.len());
        let title = "📋 Servers ("@ + number + ")"@;
        let at = "📋 Servers ("@.len() as int;
        assert(title.subrange(at, at + number.len()) =~= number);
    }
}

/// The space on either side of a dialog, in percent, where the dialog takes
/// this much.
pub fn dialog_margin(percent: u16) -> (r: u16)
    requires
        percent <= 100,
    ensures
        r == (100 - percent) / 2,
        2 * r + percent <= 100,
{
    (100 - percent) / 2
}

/// The help closes by escape and by the keys `h` and `q`, in capitals or not.
/// While it is open no other key does anything, and closing it changes nothing
/// else.
pub proof fn help_closes_by_its_keys(app: TuiState, key: Key, ctrl: bool)
    requires
        app.show_help,
        app.editing is None,
        app.deleting is None,
        !app.adding,
    ensures
        key == Key::Esc || key == Key::Char('h') || key == Key::Char('H') || key == Key::Char('q')
            || key == Key::Char('Q') ==> app.press(key, ctrl).0 == (TuiApp {
            show_help: false,
            ..app
        }),
        !(key == Key::Esc || key == Key::Char('h') || key == Key::Char('H') || key == Key::Char('q')
            || key == Key::Char('Q')) ==> app.press(key, ctrl).0 == app,
        app.press(key, ctrl).1 is Nothing,
{
}

/// The help opens by `h`, in capitals or not, and nothing else changes.
pub proof fn help_opens_by_its_key(app: TuiState, ctrl: bool)
    requires
        app.in_list(),
    ensures
        app.press(Key::Char('h'), ctrl).0 == (TuiApp { show_help: true, ..app }),
        app.press(Key::Char('H'), ctrl).0 == (TuiApp { show_help: true, ..app }),
        app.press(Key::Char('h'), ctrl).1 is Nothing,
{
}

/// Control and `f` turn to the quick connect and back to the list. What was
/// typed there is gone on the way back, and nothing else changes.
pub proof fn quick_connect_is_turned_to_and_left(app: TuiState)
    requires
        app.editing is None,
        app.deleting is None,
        !app.adding,
        !app.show_help,
    ensures
        !app.quick_connect_focused ==> app.press(Key::Char('f'), true).0 == (TuiApp {
            quick_connect_focused: true,
            ..app
        }),
        app.quick_connect_focused ==> app.press(Key::Char('f'), true).0 == (TuiApp {
            quick_connect_focused: false,
            input: Seq::empty(),
            ..app
        }),
        app.press(Key::Char('f'), true).1 is Nothing,
{
}

/// After a deletion the selection stays at its place in the list, or goes to
/// the last server where the list has become too short for it.
pub proof fn selection_stays_at_its_place(app: TuiState, ctrl: bool)
    requires
        app.wf(),
        app.deleting matches Some(p) && p < app.collection.len(),
        app.editing is None,
        app.confirm_yes,
    ensures
        ({
            let after = app.press(Key::Enter, ctrl).0;
            let left = app.collection.len() - 1;
            &&& app.selected < left ==> after.selected == app.selected
            &&& app.selected >= left && left > 0 ==> after.selected == left - 1
            &&& left == 0 ==> after.selected == 0
            &&& after.highlight == Some(after.selected)
        }),
{
    let p = app.deleting->Some_0 as int;
    crate::server::each_server_is_found(app.collection, p);
    crate::server::host_is_at_its_place(app.collection, app.collection[p].key);
}

/// A form or a question that is left by escape is closed, and all else stays as
/// it was.
pub proof fn escape_only_closes(app: TuiState, ctrl: bool)
    ensures
        app.editing is Some ==> app.press(Key::Esc, ctrl).0 == (TuiApp { editing: None, ..app }),
        app.editing is None && app.deleting is Some ==> app.press(Key::Esc, ctrl).0 == (TuiApp {
            deleting: None,
            ..app
        }),
        app.editing is None && app.deleting is None && app.adding && !app.add_confirm_stage
            ==> app.press(Key::Esc, ctrl).0 == (TuiApp { adding: false, ..app }),
        app.editing is None && app.deleting is None && app.adding && app.add_confirm_stage
            ==> app.press(Key::Esc, ctrl).0 == (TuiApp {
            adding: false,
            add_confirm_stage: false,
            ..app
        }),
        app.press(Key::Esc, ctrl).1 is Nothing,
{
}

/// Keys that mean nothing where they are pressed change nothing.
pub proof fn other_keys_change_nothing(app: TuiState, key: Key, ctrl: bool)
    requires
        key == Key::Other || key == Key::Delete || key == Key::Up || key == Key::Down,
        app.in_list() ==> key == Key::Other,
    ensures
        app.press(key, ctrl).0 == app,
        app.press(key, ctrl).1 is Nothing,
{
}

/// The screens start with the list, the first server selected, and nothing
/// open, typed or told.
pub proof fn screens_start_with_the_list(h: Hosts)
    ensures
        ({
            let app = TuiState::initial(h);
            &&& app.collection == h
            &&& app.in_list()
            &&& app.selected == 0
            &&& app.highlight == Some(0usize)
            &&& app.input.len() == 0
            &&& app.error_message.len() == 0
            &&& !app.confirm_yes
            &&& !app.add_confirm_stage
            &&& !app.add_choice
        }),
{
}

/// In the list only the keys that are told about do anything: letters without
/// a meaning, and `d` without control, change nothing, nor do the keys of forms.
pub proof fn other_letters_change_nothing(app: TuiState, key: Key, ctrl: bool)
    requires
        app.in_list(),
        key == Key::Tab || key == Key::Esc || key == Key::Backspace || key == Key::Left || key
            == Key::Right || key is Char,
        key matches Key::Char(c) ==> c != 'q' && c != 'n' && c != 'N' && c != 'e' && c != 'E' && c
            != 'h' && c != 'H' && !(ctrl && (c == 'd' || c == 'f')),
    ensures
        app.press(key, ctrl).0 == app,
        app.press(key, ctrl).1 is Nothing,
{
}

} // verus!
