use std::path::PathBuf;

use livesplit_hotkey::{Hotkey, KeyCode, Modifiers};
use soundboard::board::{Binding, HookAction, HookCall, Soundboard};
use soundboard::sound::{PlaybackFailure, Sound};

fn sound(name: &str, path: &str) -> Sound {
    Sound::new(String::from(name), PathBuf::from(path))
}

fn ctrl(key_code: KeyCode) -> Hotkey {
    key_code.with_modifiers(Modifiers::CONTROL)
}

fn listed(board: &Soundboard) -> Vec<(Hotkey, String, String)> {
    let mut lines: Vec<(Hotkey, String, String)> = board
        .sounds()
        .iter()
        .map(|binding| {
            (
                binding.hotkey,
                String::from(binding.sound.name()),
                String::from(binding.sound.path().to_str().unwrap()),
            )
        })
        .collect();
    lines.sort_by_key(|line| line.1.clone());
    lines
}

#[test]
fn new_board_binds_nothing() {
    let board = Soundboard::new();
    assert!(board.sounds().is_empty());
    assert_eq!(board.len(), 0);
    assert!(!board.is_bound(ctrl(KeyCode::Digit1)));
    assert_eq!(board.sound_for(ctrl(KeyCode::Digit1)), None);
}

#[test]
fn bound_hotkey_is_listed_with_its_sound() {
    let mut board = Soundboard::new();
    let hotkey = ctrl(KeyCode::Digit1);
    assert_eq!(board.bind_new(sound("a", "/x.wav"), hotkey), HookAction::Register);
    assert_eq!(board.sounds(), &vec![Binding { hotkey, sound: sound("a", "/x.wav") }]);
    assert!(board.is_bound(hotkey));
    assert_eq!(board.sound_for(hotkey), Some(&sound("a", "/x.wav")));
    assert_eq!(board.len(), 1);
}

#[test]
fn unbound_hotkey_is_no_longer_listed() {
    let mut board = Soundboard::new();
    let hotkey = ctrl(KeyCode::Digit1);
    let other = ctrl(KeyCode::Digit2);
    board.bind_new(sound("a", "/x.wav"), hotkey);
    board.bind_new(sound("b", "/y.wav"), other);
    assert_eq!(board.unbind(hotkey), HookAction::Unregister);
    assert!(!board.is_bound(hotkey));
    assert_eq!(board.sound_for(hotkey), None);
    assert_eq!(listed(&board), vec![(other, String::from("b"), String::from("/y.wav"))]);
}

#[test]
fn last_write_wins() {
    let mut board = Soundboard::new();
    let hotkey = ctrl(KeyCode::Digit1);
    assert_eq!(board.bind_new(sound("a", "/x.wav"), hotkey), HookAction::Register);
    assert_eq!(board.bind_new(sound("b", "/y.wav"), hotkey), HookAction::Replace);
    assert_eq!(board.len(), 1);
    assert_eq!(board.sound_for(hotkey), Some(&sound("b", "/y.wav")));
    assert_eq!(listed(&board), vec![(hotkey, String::from("b"), String::from("/y.wav"))]);
}

#[test]
fn unbinding_the_unbound_changes_nothing() {
    let mut board = Soundboard::new();
    assert_eq!(board.unbind(ctrl(KeyCode::Digit1)), HookAction::Nothing);
    assert!(board.sounds().is_empty());
    board.bind_new(sound("a", "/x.wav"), ctrl(KeyCode::Digit2));
    assert_eq!(board.unbind(ctrl(KeyCode::Digit1)), HookAction::Nothing);
    assert_eq!(
        listed(&board),
        vec![(ctrl(KeyCode::Digit2), String::from("a"), String::from("/x.wav"))]
    );
}

#[test]
fn hotkeys_differ_by_key_and_by_modifiers() {
    let mut board = Soundboard::new();
    board.bind_new(sound("plain", "/p.wav"), Hotkey::from(KeyCode::KeyC));
    board.bind_new(sound("ctrl", "/c.wav"), ctrl(KeyCode::KeyC));
    board.bind_new(
        sound("both", "/b.wav"),
        KeyCode::KeyC.with_modifiers(Modifiers::CONTROL | Modifiers::ALT),
    );
    board.bind_new(sound("other", "/o.wav"), ctrl(KeyCode::KeyD));
    assert_eq!(board.len(), 4);
    assert_eq!(board.sound_for(ctrl(KeyCode::KeyC)), Some(&sound("ctrl", "/c.wav")));
    assert_eq!(board.sound_for(Hotkey::from(KeyCode::KeyC)), Some(&sound("plain", "/p.wav")));
    assert_eq!(board.unbind(ctrl(KeyCode::KeyC)), HookAction::Unregister);
    assert_eq!(board.len(), 3);
    assert!(board.is_bound(Hotkey::from(KeyCode::KeyC)));
    assert!(board.is_bound(ctrl(KeyCode::KeyD)));
}

#[test]
fn hotkey_can_be_bound_again_after_unbinding() {
    let mut board = Soundboard::new();
    let hotkey = ctrl(KeyCode::Digit1);
    assert_eq!(board.bind_new(sound("a", "/x.wav"), hotkey), HookAction::Register);
    assert_eq!(board.unbind(hotkey), HookAction::Unregister);
    assert_eq!(board.bind_new(sound("b", "/y.wav"), hotkey), HookAction::Register);
    assert_eq!(board.sound_for(hotkey), Some(&sound("b", "/y.wav")));
}

#[test]
fn saved_bindings_are_bound_in_order() {
    let saved = vec![
        Binding { hotkey: ctrl(KeyCode::Digit1), sound: sound("a", "/x.wav") },
        Binding { hotkey: ctrl(KeyCode::Digit2), sound: sound("b", "/y.wav") },
        Binding { hotkey: ctrl(KeyCode::Digit1), sound: sound("c", "/z.wav") },
    ];
    let mut board = Soundboard::new();
    assert_eq!(
        board.load_from_save(&saved),
        vec![HookAction::Register, HookAction::Register, HookAction::Replace]
    );
    assert_eq!(
        listed(&board),
        vec![
            (ctrl(KeyCode::Digit2), String::from("b"), String::from("/y.wav")),
            (ctrl(KeyCode::Digit1), String::from("c"), String::from("/z.wav")),
        ]
    );
}

#[test]
fn loading_nothing_changes_nothing() {
    let mut board = Soundboard::new();
    board.bind_new(sound("a", "/x.wav"), ctrl(KeyCode::Digit1));
    assert_eq!(board.load_from_save(&[]), vec![]);
    assert_eq!(board.len(), 1);
}

#[test]
fn listed_bindings_load_back_in_any_order() {
    let mut board = Soundboard::new();
    board.bind_new(sound("a", "/x.wav"), ctrl(KeyCode::Digit1));
    board.bind_new(sound("b", "/y.wav"), ctrl(KeyCode::Digit2));
    board.bind_new(sound("c", "/z.wav"), ctrl(KeyCode::Digit3));
    let mut saved: Vec<Binding> = board.sounds().clone();
    saved.reverse();
    let mut fresh = Soundboard::new();
    let actions = fresh.load_from_save(&saved);
    assert_eq!(actions, vec![HookAction::Register; 3]);
    assert_eq!(listed(&fresh), listed(&board));
}

#[test]
fn binding_clone_is_the_same_binding() {
    let binding = Binding { hotkey: ctrl(KeyCode::Digit1), sound: sound("a", "/x.wav") };
    assert_eq!(binding.clone(), binding);
}

#[test]
fn sound_without_a_file_is_reported_and_nothing_else_changes() {
    let mut board = Soundboard::new();
    let missing = ctrl(KeyCode::Digit1);
    let present = ctrl(KeyCode::Digit2);
    board.bind_new(sound("ghost", "/no/such/file.wav"), missing);
    board.bind_new(sound("click", "/sounds/click.wav"), present);
    let before = listed(&board);
    let failure = PlaybackFailure::Open(String::from("No such file or directory (os error 2)"));
    let notice = board.sound_for(missing).unwrap().failure_notice(&failure);
    assert_eq!(
        notice,
        "Something went wrong when trying to open file at path: (/no/such/file.wav)\n\
         Error message: No such file or directory (os error 2)"
    );
    assert_eq!(listed(&board), before);
    assert_eq!(board.sound_for(present), Some(&sound("click", "/sounds/click.wav")));
}

#[test]
fn copy_of_is_the_bound_sound() {
    let mut board = Soundboard::new();
    assert_eq!(board.copy_of(ctrl(KeyCode::Digit1)), None);
    board.bind_new(sound("a", "/x.wav"), ctrl(KeyCode::Digit1));
    assert_eq!(board.copy_of(ctrl(KeyCode::Digit1)), Some(sound("a", "/x.wav")));
    assert_eq!(board.copy_of(ctrl(KeyCode::Digit2)), None);
}

#[test]
fn put_back_undoes_a_first_bind() {
    let mut board = Soundboard::new();
    board.bind_new(sound("b", "/y.wav"), ctrl(KeyCode::Digit2));
    let before = listed(&board);
    let hotkey = ctrl(KeyCode::Digit1);
    let previous = board.copy_of(hotkey);
    board.bind_new(sound("a", "/x.wav"), hotkey);
    board.put_back(hotkey, previous);
    assert!(!board.is_bound(hotkey));
    assert_eq!(listed(&board), before);
}

#[test]
fn put_back_undoes_a_second_bind() {
    let mut board = Soundboard::new();
    let hotkey = ctrl(KeyCode::Digit1);
    board.bind_new(sound("a", "/x.wav"), hotkey);
    board.bind_new(sound("b", "/y.wav"), ctrl(KeyCode::Digit2));
    let before = listed(&board);
    let previous = board.copy_of(hotkey);
    board.bind_new(sound("c", "/z.wav"), hotkey);
    board.put_back(hotkey, previous);
    assert_eq!(board.sound_for(hotkey), Some(&sound("a", "/x.wav")));
    assert_eq!(listed(&board), before);
}

#[test]
fn put_back_undoes_an_unbind() {
    let mut board = Soundboard::new();
    let hotkey = ctrl(KeyCode::Digit1);
    board.bind_new(sound("a", "/x.wav"), hotkey);
    let before = listed(&board);
    let previous = board.copy_of(hotkey);
    board.unbind(hotkey);
    board.put_back(hotkey, previous);
    assert_eq!(listed(&board), before);
    board.put_back(ctrl(KeyCode::Digit2), None);
    assert_eq!(listed(&board), before);
}

#[test]
fn refused_registration_leaves_the_hotkey_unbound() {
    let mut board = Soundboard::new();
    let hotkey = ctrl(KeyCode::Digit1);
    let previous = board.copy_of(hotkey);
    assert_eq!(board.bind_new(sound("a", "/x.wav"), hotkey), HookAction::Register);
    board.after_refusal(hotkey, previous, HookCall::Register);
    assert!(board.sounds().is_empty());
}

#[test]
fn refused_unregistration_keeps_the_sound_bound_before() {
    let mut board = Soundboard::new();
    let hotkey = ctrl(KeyCode::Digit1);
    board.bind_new(sound("a", "/x.wav"), hotkey);
    let before = listed(&board);

    let previous = board.copy_of(hotkey);
    assert_eq!(board.bind_new(sound("b", "/y.wav"), hotkey), HookAction::Replace);
    board.after_refusal(hotkey, previous, HookCall::Unregister);
    assert_eq!(listed(&board), before);

    let previous = board.copy_of(hotkey);
    assert_eq!(board.unbind(hotkey), HookAction::Unregister);
    board.after_refusal(hotkey, previous, HookCall::Unregister);
    assert_eq!(listed(&board), before);
}

#[test]
fn replacement_refused_halfway_leaves_the_hotkey_unbound() {
    let mut board = Soundboard::new();
    let hotkey = ctrl(KeyCode::Digit1);
    board.bind_new(sound("a", "/x.wav"), hotkey);
    board.bind_new(sound("k", "/k.wav"), ctrl(KeyCode::Digit2));
    let previous = board.copy_of(hotkey);
    assert_eq!(board.bind_new(sound("b", "/y.wav"), hotkey), HookAction::Replace);
    board.after_refusal(hotkey, previous, HookCall::Register);
    assert!(!board.is_bound(hotkey));
    assert_eq!(
        listed(&board),
        vec![(ctrl(KeyCode::Digit2), String::from("k"), String::from("/k.wav"))]
    );
}
