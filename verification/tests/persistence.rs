use std::path::PathBuf;

use livesplit_hotkey::{Hotkey, KeyCode, Modifiers};
use serde_json::Value;
use soundboard::board::{Binding, HookAction, Soundboard};
use soundboard::hotkey::{describe_hotkey, parse_hotkey};
use soundboard::sound::Sound;

fn sound(name: &str, path: &str) -> Sound {
    Sound::new(String::from(name), PathBuf::from(path))
}

fn write(board: &Soundboard) -> String {
    let mut table = serde_json::Map::new();
    for binding in board.sounds() {
        let mut fields = serde_json::Map::new();
        fields.insert(String::from("name"), Value::String(String::from(binding.sound.name())));
        fields.insert(
            String::from("path_to_file"),
            Value::String(String::from(binding.sound.path().to_str().unwrap())),
        );
        table.insert(describe_hotkey(&binding.hotkey), Value::Object(fields));
    }
    serde_json::to_string(&Value::Object(table)).unwrap()
}

fn read(text: &str) -> Vec<Binding> {
    let table: Value = serde_json::from_str(text).unwrap();
    let mut saved = Vec::new();
    for (hotkey, fields) in table.as_object().unwrap() {
        saved.push(Binding {
            hotkey: parse_hotkey(hotkey).unwrap(),
            sound: sound(
                fields["name"].as_str().unwrap(),
                fields["path_to_file"].as_str().unwrap(),
            ),
        });
    }
    saved
}

fn triples(board: &Soundboard) -> Vec<(String, String, String)> {
    let mut lines: Vec<(String, String, String)> = board
        .sounds()
        .iter()
        .map(|binding| {
            (
                describe_hotkey(&binding.hotkey),
                String::from(binding.sound.name()),
                String::from(binding.sound.path().to_str().unwrap()),
            )
        })
        .collect();
    lines.sort();
    lines
}

#[test]
fn saved_table_loads_back() {
    let mut board = Soundboard::new();
    board.bind_new(
        sound("click", "/sounds/click.wav"),
        KeyCode::KeyC.with_modifiers(Modifiers::CONTROL | Modifiers::ALT),
    );
    board.bind_new(sound("horn", "/sounds/air horn.ogg"), Hotkey::from(KeyCode::F9));
    board.bind_new(
        sound("say \"hi\"", "C:\\sounds\\hi.mp3"),
        KeyCode::Numpad0.with_modifiers(Modifiers::SHIFT | Modifiers::META),
    );
    let text = write(&board);
    let mut fresh = Soundboard::new();
    let actions = fresh.load_from_save(&read(&text));
    assert_eq!(actions, vec![HookAction::Register; 3]);
    assert_eq!(triples(&fresh), triples(&board));
    assert_eq!(
        triples(&fresh),
        vec![
            (
                String::from("Ctrl + Alt + KeyC"),
                String::from("click"),
                String::from("/sounds/click.wav")
            ),
            (String::from("F9"), String::from("horn"), String::from("/sounds/air horn.ogg")),
            (
                String::from("Meta + Shift + Numpad0"),
                String::from("say \"hi\""),
                String::from("C:\\sounds\\hi.mp3")
            ),
        ]
    );
}

#[test]
fn empty_table_loads_back_empty() {
    let text = write(&Soundboard::new());
    assert_eq!(text, "{}");
    let mut fresh = Soundboard::new();
    assert_eq!(fresh.load_from_save(&read(&text)), vec![]);
    assert!(fresh.sounds().is_empty());
}

#[test]
fn saved_text_has_the_hotkey_for_key() {
    let mut board = Soundboard::new();
    board.bind_new(sound("a", "/x.wav"), KeyCode::Digit1.with_modifiers(Modifiers::CONTROL));
    assert_eq!(write(&board), "{\"Ctrl + Digit1\":{\"name\":\"a\",\"path_to_file\":\"/x.wav\"}}");
}

#[test]
fn unbinding_the_unbound_saves_the_same_text() {
    let mut board = Soundboard::new();
    board.bind_new(sound("a", "/x.wav"), KeyCode::Digit2.with_modifiers(Modifiers::CONTROL));
    let before = write(&board);
    assert_eq!(
        board.unbind(KeyCode::Digit1.with_modifiers(Modifiers::CONTROL)),
        HookAction::Nothing
    );
    assert_eq!(write(&board), before);
}
