use chat_cli::screens::{
    check_name, check_password, login_body, register_body, review_body, CurrentlyEditing,
    FriendRequestStatus, Home, Input, Login, LoginMode, MainSelect, Menu,
};

#[test]
fn names_are_letters_and_digits() {
    assert_eq!(check_name("alice"), Ok("alice".to_string()));
    assert_eq!(check_name("alice01"), Ok("alice01".to_string()));
    assert_eq!(check_name(""), Ok("".to_string()));
    assert!(check_name("al ice").is_err());
    assert!(check_name("阿丽丝").is_err());
    assert!(check_name("a-b").is_err());
}

#[test]
fn passwords_need_digit_upper_and_lower() {
    assert_eq!(check_password("Aa1aaaaa"), Ok("Aa1aaaaa".to_string()));
    assert!(check_password("aaaaaaa1").is_err());
    assert!(check_password("AAAAAAA1").is_err());
    assert!(check_password("Aaaaaaaa").is_err());
    assert!(check_password("").is_err());
}

#[test]
fn password_letter_classes_are_unicode() {
    // a non-ASCII uppercase or lowercase letter counts like any other
    assert_eq!(check_password("Ä1a"), Ok("Ä1a".to_string()));
    assert_eq!(check_password("É1é"), Ok("É1é".to_string()));
    // an uncased letter satisfies neither class
    assert!(check_password("汉1汉").is_err());
}

#[test]
fn request_bodies_are_the_documented_json() {
    assert_eq!(
        login_body("alice", "Aa1aaaaa"),
        "{\"name\":\"alice\",\"password\":\"Aa1aaaaa\"}"
    );
    assert_eq!(
        register_body("bob", "p\"w", "123", "b@x.y"),
        "{\"mail\":\"b@x.y\",\"name\":\"bob\",\"password\":\"p\\\"w\",\"phone\":\"123\"}"
    );
    assert_eq!(
        review_body(7, FriendRequestStatus::APPROVE),
        "{\"id\":7,\"status\":\"APPROVE\"}"
    );
    assert_eq!(FriendRequestStatus::REJECT.wire_name(), "REJECT");
    // the escaped body reads back as real JSON with the same values
    let v: serde_json::Value = serde_json::from_str(&register_body("bob", "p\"w", "123", "b@x.y"))
        .expect("valid JSON");
    assert_eq!(v.get("password").unwrap().as_str(), Some("p\"w"));
}

#[test]
fn the_editor_inserts_and_deletes_at_the_cursor() {
    let mut f = Input::new();
    f.enter_char('a');
    f.enter_char('c');
    f.move_cursor_left();
    f.enter_char('b');
    assert_eq!(f.input, "abc");
    assert_eq!(f.character_index, 2);
    f.delete_char();
    assert_eq!(f.input, "ac");
    assert_eq!(f.character_index, 1);
    f.move_cursor_right();
    f.move_cursor_right();
    assert_eq!(f.character_index, 2);
    f.move_cursor_left();
    f.move_cursor_left();
    f.move_cursor_left();
    assert_eq!(f.character_index, 0);
    f.delete_char();
    assert_eq!(f.input, "ac");
}

#[test]
fn toggling_walks_between_the_two_fields() {
    let mut login = Login::new();
    assert_eq!(login.current_mode, LoginMode::Normal);
    assert_eq!(login.currently_editing, None);
    login.toggle_editing();
    assert_eq!(login.currently_editing, Some(CurrentlyEditing::Username));
    login.toggle_editing();
    assert_eq!(login.currently_editing, Some(CurrentlyEditing::Password));
    login.toggle_editing();
    assert_eq!(login.currently_editing, Some(CurrentlyEditing::Username));
}

#[test]
fn the_home_menu_moves_and_clamps() {
    let mut home = Home::new();
    assert_eq!(home.selected_menu, Menu::RecentChat);
    home.menu_left();
    assert_eq!(home.selected_menu, Menu::RecentChat);
    home.menu_right();
    assert_eq!(home.selected_menu, Menu::Contacts);
    home.menu_right();
    assert_eq!(home.selected_menu, Menu::Me);
    home.menu_right();
    assert_eq!(home.selected_menu, Menu::Me);
    home.menu_left();
    assert_eq!(home.selected_menu, Menu::Contacts);
}

#[test]
fn menu_labels_round_trip() {
    let labels = MainSelect::selects();
    assert_eq!(labels.len(), 4);
    for (i, expected) in
        [MainSelect::AddFriend, MainSelect::RecentChat, MainSelect::ChatWithFriends, MainSelect::ChatInGroups]
            .into_iter()
            .enumerate()
    {
        assert_eq!(MainSelect::from_str(labels[i]), expected);
        assert_eq!(expected.to_str(), labels[i]);
    }
    assert_eq!(MainSelect::AddFriend.to_str(), "添加好友");
}

#[test]
fn friend_request_states_have_their_labels() {
    assert_eq!(FriendRequestStatus::WAIT.as_str(), "待处理");
    assert_eq!(FriendRequestStatus::APPROVE.as_str(), "已同意");
    assert_eq!(FriendRequestStatus::REJECT.as_str(), "已拒绝");
}
