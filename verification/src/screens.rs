//! State behind the screens: the login form and its two text fields, the
//! home menu, the main menu's labels, credential validation, and the
//! labels of a friend request's states. Drawing and key reading stay
//! outside; these are the transitions they drive.

use vstd::prelude::*;
use crate::chars::{chars_of, string_of, slice_range, str_eq};
use crate::message::{spec_qbody, push_qbody};
use crate::wire::{push_lit, push_i64_str, spec_i64_str};

verus! {

// ----------------------------------------------------------------------
// a text field being edited
// ----------------------------------------------------------------------
/// A line of text under edit, with a cursor counted in characters.
#[derive(Debug)]
pub struct Input {
    pub input: String,
    pub character_index: usize,
}

impl Input {
    /// The cursor always sits inside or just past the text.
    pub open spec fn inv(self) -> bool {
        self.character_index <= self.input@.len()
    }

    pub fn new() -> (r: Self)
        ensures
            r.input@ == Seq::<char>::empty(),
            r.character_index == 0,
            r.inv(),
    {
        Input { input: String::new(), character_index: 0 }
    }

    pub fn move_cursor_left(&mut self)
        ensures
            final(self).input == old(self).input,
            final(self).character_index == if old(self).character_index > 0 {
                (old(self).character_index - 1) as usize
            } else {
                0usize
            },
            old(self).inv() ==> final(self).inv(),
    {
        if self.character_index > 0 {
            self.character_index = self.character_index - 1;
        }
    }

    pub fn move_cursor_right(&mut self)
        requires
            old(self).inv(),
        ensures
            final(self).input == old(self).input,
            final(self).character_index == if old(self).character_index < old(
                self,
            ).input@.len() {
                (old(self).character_index + 1) as usize
            } else {
                old(self).character_index
            },
            final(self).inv(),
    {
        let n = self.input.as_str().unicode_len();
        if self.character_index < n {
            self.character_index = self.character_index + 1;
        }
    }

    /// Inserts the character at the cursor and moves the cursor past it.
    pub fn enter_char(&mut self, c: char)
        requires
            old(self).inv(),
            old(self).input@.len() < usize::MAX,
        ensures
            final(self).input@ == old(self).input@.subrange(
                0,
                old(self).character_index as int,
            ) + seq![c] + old(self).input@.subrange(
                old(self).character_index as int,
                old(self).input@.len() as int,
            ),
            final(self).character_index == old(self).character_index + 1,
            final(self).inv(),
    {
        let cs = chars_of(self.input.as_str());
        let i = self.character_index;
        let mut out = slice_range(&cs, 0, i);
        out.push(c);
        let mut k: usize = i;
        while k < cs.len()
            invariant
                i <= k <= cs@.len(),
                out@ == cs@.subrange(0, i as int) + seq![c] + cs@.subrange(i as int, k as int),
            decreases cs@.len() - k,
        {
            out.push(cs[k]);
            proof {
                assert(cs@.subrange(i as int, k + 1) =~= cs@.subrange(i as int, k as int).push(
                    cs@[k as int],
                ));
                assert(out@ =~= cs@.subrange(0, i as int) + seq![c] + cs@.subrange(
                    i as int,
                    k + 1,
                ));
            }
            k = k + 1;
        }
        proof {
            assert(out@ =~= cs@.subrange(0, i as int) + seq![c] + cs@.subrange(
                i as int,
                cs@.len() as int,
            ));
        }
        self.input = string_of(&out);
        self.character_index = i + 1;
    }

    /// Deletes the character before the cursor, if any, and moves the
    /// cursor back.
    pub fn delete_char(&mut self)
        requires
            old(self).inv(),
        ensures
            old(self).character_index == 0 ==> *final(self) == *old(self),
            old(self).character_index > 0 ==> final(self).input@ == old(self).input@.subrange(
                0,
                old(self).character_index - 1,
            ) + old(self).input@.subrange(
                old(self).character_index as int,
                old(self).input@.len() as int,
            ) && final(self).character_index == old(self).character_index - 1,
            final(self).inv(),
    {
        if self.character_index == 0 {
            return ;
        }
        let cs = chars_of(self.input.as_str());
        let i = self.character_index;
        let mut out = slice_range(&cs, 0, i - 1);
        let mut k: usize = i;
        while k < cs.len()
            invariant
                i <= k <= cs@.len(),
                i >= 1,
                out@ == cs@.subrange(0, i - 1) + cs@.subrange(i as int, k as int),
            decreases cs@.len() - k,
        {
            out.push(cs[k]);
            proof {
                assert(cs@.subrange(i as int, k + 1) =~= cs@.subrange(i as int, k as int).push(
                    cs@[k as int],
                ));
                assert(out@ =~= cs@.subrange(0, i - 1) + cs@.subrange(i as int, k + 1));
            }
            k = k + 1;
        }
        proof {
            assert(out@ =~= cs@.subrange(0, i - 1) + cs@.subrange(i as int, cs@.len() as int));
        }
        self.input = string_of(&out);
        self.character_index = i - 1;
    }
}

// ----------------------------------------------------------------------
// the login form
// ----------------------------------------------------------------------
/// What the login screen is doing.
#[derive(Clone, Copy, Debug, PartialEq, Eq, Structural)]
pub enum LoginMode {
    Normal,
    Editing,
    Alerting,
}

/// Which field of the form holds the cursor.
#[derive(Clone, Copy, Debug, PartialEq, Eq, Structural)]
pub enum CurrentlyEditing {
    Username,
    Password,
}

/// The login form: two fields, a mode, and an error line.
pub struct Login {
    pub username: Input,
    pub password: Input,
    pub current_mode: LoginMode,
    pub currently_editing: Option<CurrentlyEditing>,
    pub error_message: Option<String>,
}

impl Login {
    pub fn new() -> (r: Self)
        ensures
            r.username.input@ == Seq::<char>::empty(),
            r.password.input@ == Seq::<char>::empty(),
            r.current_mode == LoginMode::Normal,
            r.currently_editing is None,
            r.error_message is None,
            r.username.inv() && r.password.inv(),
    {
        Login {
            username: Input::new(),
            password: Input::new(),
            current_mode: LoginMode::Normal,
            currently_editing: None,
            error_message: None,
        }
    }

    /// Moves the cursor to the other field: from the username to the
    /// password and back, and to the username when no field held it.
    pub fn toggle_editing(&mut self)
        ensures
            final(self).currently_editing == Some(
                match old(self).currently_editing {
                    Some(CurrentlyEditing::Username) => CurrentlyEditing::Password,
                    Some(CurrentlyEditing::Password) => CurrentlyEditing::Username,
                    None => CurrentlyEditing::Username,
                },
            ),
            final(self).username == old(self).username,
            final(self).password == old(self).password,
            final(self).current_mode == old(self).current_mode,
            final(self).error_message == old(self).error_message,
    {
        if let Some(edit_mode) = &self.currently_editing {
            match edit_mode {
                CurrentlyEditing::Username => {
                    self.currently_editing = Some(CurrentlyEditing::Password)
                },
                CurrentlyEditing::Password => {
                    self.currently_editing = Some(CurrentlyEditing::Username)
                },
            };
        } else {
            self.currently_editing = Some(CurrentlyEditing::Username);
        }
    }
}

// ----------------------------------------------------------------------
// the home menu
// ----------------------------------------------------------------------
/// The tabs of the home screen.
#[derive(Clone, Copy, Debug, PartialEq, Eq, Structural)]
pub enum Menu {
    RecentChat,
    Contacts,
    Me,
}

/// What the home screen is doing.
#[derive(Clone, Copy, Debug, PartialEq, Eq, Structural)]
pub enum HomeMode {
    Normal,
    Alerting,
}

/// The home screen: the selected tab and an error line.
pub struct Home {
    pub selected_menu: Menu,
    pub error_message: Option<String>,
    pub current_mode: HomeMode,
}

impl Home {
    pub fn new() -> (r: Self)
        ensures
            r.selected_menu == Menu::RecentChat,
            r.error_message is None,
            r.current_mode == HomeMode::Normal,
    {
        Home {
            selected_menu: Menu::RecentChat,
            error_message: None,
            current_mode: HomeMode::Normal,
        }
    }

    /// Moves one tab to the right, stopping at the last.
    pub fn menu_right(&mut self)
        ensures
            final(self).selected_menu == match old(self).selected_menu {
                Menu::RecentChat => Menu::Contacts,
                Menu::Contacts => Menu::Me,
                Menu::Me => Menu::Me,
            },
            final(self).error_message == old(self).error_message,
            final(self).current_mode == old(self).current_mode,
    {
        self.selected_menu = match self.selected_menu {
            Menu::RecentChat => Menu::Contacts,
            Menu::Contacts => Menu::Me,
            Menu::Me => Menu::Me,
        };
    }

    /// Moves one tab to the left, stopping at the first.
    pub fn menu_left(&mut self)
        ensures
            final(self).selected_menu == match old(self).selected_menu {
                Menu::RecentChat => Menu::RecentChat,
                Menu::Contacts => Menu::RecentChat,
                Menu::Me => Menu::Contacts,
            },
            final(self).error_message == old(self).error_message,
            final(self).current_mode == old(self).current_mode,
    {
        self.selected_menu = match self.selected_menu {
            Menu::RecentChat => Menu::RecentChat,
            Menu::Contacts => Menu::RecentChat,
            Menu::Me => Menu::Contacts,
        };
    }
}

// ----------------------------------------------------------------------
// the main menu
// ----------------------------------------------------------------------
/// The entries of the main menu.
#[derive(Clone, Copy, Debug, PartialEq, Eq, Structural)]
pub enum MainSelect {
    AddFriend,
    RecentChat,
    ChatWithFriends,
    ChatInGroups,
}

impl MainSelect {
    /// The label of this entry.
    pub fn to_str(&self) -> (r: &'static str)
        ensures
            r@ == spec_label(*self),
    {
        match self {
            MainSelect::AddFriend => "添加好友",
            MainSelect::RecentChat => "最近消息",
            MainSelect::ChatWithFriends => "好友列表",
            MainSelect::ChatInGroups => "群聊列表",
        }
    }

    /// All labels, in menu order.
    pub fn selects() -> (r: Vec<&'static str>)
        ensures
            r@.len() == 4,
            r@[0]@ == spec_label(MainSelect::AddFriend),
            r@[1]@ == spec_label(MainSelect::RecentChat),
            r@[2]@ == spec_label(MainSelect::ChatWithFriends),
            r@[3]@ == spec_label(MainSelect::ChatInGroups),
    {
        let mut r: Vec<&'static str> = Vec::new();
        r.push(MainSelect::AddFriend.to_str());
        r.push(MainSelect::RecentChat.to_str());
        r.push(MainSelect::ChatWithFriends.to_str());
        r.push(MainSelect::ChatInGroups.to_str());
        r
    }

    /// The entry carrying this label. Only labels of the menu may be
    /// handed in.
    pub fn from_str(s: &str) -> (r: Self)
        requires
            spec_label(MainSelect::AddFriend) == s@ || spec_label(MainSelect::RecentChat) == s@
                || spec_label(MainSelect::ChatWithFriends) == s@ || spec_label(
                MainSelect::ChatInGroups,
            ) == s@,
        ensures
            spec_label(r) == s@,
    {
        if str_eq(s, "添加好友") {
            MainSelect::AddFriend
        } else if str_eq(s, "最近消息") {
            MainSelect::RecentChat
        } else if str_eq(s, "好友列表") {
            MainSelect::ChatWithFriends
        } else {
            MainSelect::ChatInGroups
        }
    }
}

/// The label of a main-menu entry.
pub open spec fn spec_label(m: MainSelect) -> Seq<char> {
    match m {
        MainSelect::AddFriend => "添加好友"@,
        MainSelect::RecentChat => "最近消息"@,
        MainSelect::ChatWithFriends => "好友列表"@,
        MainSelect::ChatInGroups => "群聊列表"@,
    }
}

// ----------------------------------------------------------------------
// credential validation
// ----------------------------------------------------------------------
pub open spec fn is_ascii_digit(c: char) -> bool {
    48 <= c as u32 && c as u32 <= 57
}

pub open spec fn is_ascii_upper(c: char) -> bool {
    65 <= c as u32 && c as u32 <= 90
}

pub open spec fn is_ascii_lower(c: char) -> bool {
    97 <= c as u32 && c as u32 <= 122
}

pub open spec fn is_ascii_alnum(c: char) -> bool {
    is_ascii_digit(c) || is_ascii_upper(c) || is_ascii_lower(c)
}

/// A valid user name: letters and digits only.
pub open spec fn spec_name_ok(s: Seq<char>) -> bool {
    forall|k: int| 0 <= k < s.len() ==> is_ascii_alnum(#[trigger] s[k])
}

/// Checks a user name: it must be made of letters and digits alone.
pub fn check_name(name: &str) -> (r: Result<String, String>)
    ensures
        r is Ok <==> spec_name_ok(name@),
        r matches Ok(s) ==> s@ == name@,
{
    let cs = chars_of(name);
    let mut i: usize = 0;
    while i < cs.len()
        invariant
            i <= cs@.len(),
            cs@ == name@,
            forall|k: int| 0 <= k < i ==> is_ascii_alnum(#[trigger] cs@[k]),
        decreases cs@.len() - i,
    {
        let u = cs[i] as u32;
        if !((48 <= u && u <= 57) || (65 <= u && u <= 90) || (97 <= u && u <= 122)) {
            return Err("用户名必须为英文或英文与数字的组合".to_owned());
        }
        i = i + 1;
    }
    Ok(name.to_owned())
}

/// Whether the character is an upper-case letter, as the standard library
/// classes it. The Unicode table takes pages to state, so the result is
/// only named; it is a function of the character alone.
pub uninterp spec fn spec_is_uppercase(c: char) -> bool;

/// Whether the character is a lower-case letter, as the standard library
/// classes it. Named for the same reason as [`spec_is_uppercase`].
pub uninterp spec fn spec_is_lowercase(c: char) -> bool;

/// Relies on `char::is_uppercase`: whether the character is an upper-case
/// letter by the Unicode general categories.
pub assume_specification[ char::is_uppercase ](c: char) -> (r: bool)
    ensures
        r == spec_is_uppercase(c),
;

/// Relies on `char::is_lowercase`: whether the character is a lower-case
/// letter by the Unicode general categories.
pub assume_specification[ char::is_lowercase ](c: char) -> (r: bool)
    ensures
        r == spec_is_lowercase(c),
;

/// A valid password: at least one digit, one upper-case letter and one
/// lower-case letter.
pub open spec fn spec_password_ok(s: Seq<char>) -> bool {
    (exists|k: int| 0 <= k < s.len() && is_ascii_digit(#[trigger] s[k])) && (exists|k: int|
        0 <= k < s.len() && spec_is_uppercase(#[trigger] s[k])) && (exists|k: int|
        0 <= k < s.len() && spec_is_lowercase(#[trigger] s[k]))
}

/// Checks a password: it must hold at least one digit, one upper-case and
/// one lower-case letter.
pub fn check_password(password: &str) -> (r: Result<String, String>)
    ensures
        r is Ok <==> spec_password_ok(password@),
        r matches Ok(s) ==> s@ == password@,
{
    let cs = chars_of(password);
    let mut has_digit = false;
    let mut has_upper = false;
    let mut has_lower = false;
    let mut i: usize = 0;
    while i < cs.len()
        invariant
            i <= cs@.len(),
            cs@ == password@,
            has_digit <==> exists|k: int|
                0 <= k < i && is_ascii_digit(#[trigger] cs@[k]),
            has_upper <==> exists|k: int|
                0 <= k < i && spec_is_uppercase(#[trigger] cs@[k]),
            has_lower <==> exists|k: int|
                0 <= k < i && spec_is_lowercase(#[trigger] cs@[k]),
        decreases cs@.len() - i,
    {
        let c = cs[i];
        let u = c as u32;
        if 48 <= u && u <= 57 {
            has_digit = true;
        }
        if c.is_uppercase() {
            has_upper = true;
        }
        if c.is_lowercase() {
            has_lower = true;
        }
        i = i + 1;
    }
    if has_digit && has_upper && has_lower {
        Ok(password.to_owned())
    } else {
        Err("有效的密码必须包含至少一个数字、一个大写字母和一个小写字母。".to_owned())
    }
}

// ----------------------------------------------------------------------
// request bodies
// ----------------------------------------------------------------------
/// The body of a login request, as the backend accepts it.
pub open spec fn spec_login_body(name: Seq<char>, password: Seq<char>) -> Seq<char> {
    "{\"name\":\""@ + spec_qbody(name) + ",\"password\":\""@ + spec_qbody(password) + "}"@
}

/// Writes the body of a login request.
pub fn login_body(name: &str, password: &str) -> (r: String)
    ensures
        r@ == spec_login_body(name@, password@),
{
    let mut out: Vec<char> = Vec::new();
    push_lit(&mut out, "{\"name\":\"");
    push_qbody(&mut out, name);
    push_lit(&mut out, ",\"password\":\"");
    push_qbody(&mut out, password);
    push_lit(&mut out, "}");
    proof {
        assert(out@ =~= spec_login_body(name@, password@));
    }
    string_of(&out)
}

/// The body of a registration request, as the backend accepts it (object
/// keys in sorted order, as the client has always sent them).
pub open spec fn spec_register_body(
    name: Seq<char>,
    password: Seq<char>,
    phone: Seq<char>,
    mail: Seq<char>,
) -> Seq<char> {
    "{\"mail\":\""@ + spec_qbody(mail) + ",\"name\":\""@ + spec_qbody(name)
        + ",\"password\":\""@ + spec_qbody(password) + ",\"phone\":\""@ + spec_qbody(phone)
        + "}"@
}

/// Writes the body of a registration request.
pub fn register_body(name: &str, password: &str, phone: &str, mail: &str) -> (r: String)
    ensures
        r@ == spec_register_body(name@, password@, phone@, mail@),
{
    let mut out: Vec<char> = Vec::new();
    push_lit(&mut out, "{\"mail\":\"");
    push_qbody(&mut out, mail);
    push_lit(&mut out, ",\"name\":\"");
    push_qbody(&mut out, name);
    push_lit(&mut out, ",\"password\":\"");
    push_qbody(&mut out, password);
    push_lit(&mut out, ",\"phone\":\"");
    push_qbody(&mut out, phone);
    push_lit(&mut out, "}");
    proof {
        assert(out@ =~= spec_register_body(name@, password@, phone@, mail@));
    }
    string_of(&out)
}

// ----------------------------------------------------------------------
// friend requests
// ----------------------------------------------------------------------
/// The state of a friend request.
#[derive(Clone, Copy, Debug, PartialEq, Eq, Structural)]
pub enum FriendRequestStatus {
    WAIT,
    APPROVE,
    REJECT,
}

/// The label shown for a friend request's state.
pub open spec fn spec_status_label(s: FriendRequestStatus) -> Seq<char> {
    match s {
        FriendRequestStatus::WAIT => "待处理"@,
        FriendRequestStatus::APPROVE => "已同意"@,
        FriendRequestStatus::REJECT => "已拒绝"@,
    }
}

/// The name of a friend request's state on the wire.
pub open spec fn spec_status_wire(s: FriendRequestStatus) -> Seq<char> {
    match s {
        FriendRequestStatus::WAIT => "WAIT"@,
        FriendRequestStatus::APPROVE => "APPROVE"@,
        FriendRequestStatus::REJECT => "REJECT"@,
    }
}

impl FriendRequestStatus {
    /// The label shown for this state.
    pub fn as_str(&self) -> (r: &'static str)
        ensures
            r@ == spec_status_label(*self),
    {
        match self {
            FriendRequestStatus::WAIT => "待处理",
            FriendRequestStatus::APPROVE => "已同意",
            FriendRequestStatus::REJECT => "已拒绝",
        }
    }

    /// The name of this state on the wire.
    pub fn wire_name(&self) -> (r: &'static str)
        ensures
            r@ == spec_status_wire(*self),
    {
        match self {
            FriendRequestStatus::WAIT => "WAIT",
            FriendRequestStatus::APPROVE => "APPROVE",
            FriendRequestStatus::REJECT => "REJECT",
        }
    }
}

/// The body of a friend-request review, as the backend accepts it.
pub open spec fn spec_review_body(id: i32, status: FriendRequestStatus) -> Seq<char> {
    "{\"id\":"@ + spec_i64_str(id as int) + ",\"status\":\""@ + spec_status_wire(status)
        + "\"}"@
}

/// Writes the body of a friend-request review.
pub fn review_body(id: i32, status: FriendRequestStatus) -> (r: String)
    ensures
        r@ == spec_review_body(id, status),
{
    let mut out: Vec<char> = Vec::new();
    push_lit(&mut out, "{\"id\":");
    push_i64_str(&mut out, id as i64);
    push_lit(&mut out, ",\"status\":\"");
    push_lit(&mut out, status.wire_name());
    push_lit(&mut out, "\"}");
    proof {
        assert(out@ =~= spec_review_body(id, status));
    }
    string_of(&out)
}

} // verus!
