//! Hotkey identities and their text form.
//!
//! A hotkey is a key code with a set of modifier keys, as `livesplit_hotkey`
//! defines it. The soundboard never looks inside one: it tells two hotkeys
//! apart, reads one from text and writes one out as text.

use livesplit_hotkey::Hotkey;
use std::str::FromStr;
use vstd::prelude::*;

verus! {

/// `Hotkey` of `livesplit_hotkey`, carried as it is: a key code and a set of
/// modifiers, compared as a whole.
#[verifier::external_type_specification]
#[verifier::external_body]
pub struct ExHotkey(livesplit_hotkey::Hotkey);

/// The hotkey that `livesplit_hotkey` reads from a text, if it reads one.
pub uninterp spec fn hotkey_of_text(text: Seq<char>) -> Option<Hotkey>;

/// The text that `livesplit_hotkey` writes for a hotkey.
pub uninterp spec fn text_of_hotkey(hotkey: Hotkey) -> Seq<char>;

/// `Hotkey::from_str` of `livesplit_hotkey`: the hotkey that the text spells,
/// or nothing where it spells none.
#[verifier::external_body]
fn hotkey_from_str(text: &str) -> (parsed: Option<Hotkey>)
    ensures
        parsed == hotkey_of_text(text@),
{
    Hotkey::from_str(text).ok()
}

/// `Display` of `livesplit_hotkey::Hotkey`, through `to_string`: the text
/// that the crate writes for the hotkey.
#[verifier::external_body]
fn hotkey_to_string(hotkey: &Hotkey) -> (text: String)
    ensures
        text@ == text_of_hotkey(*hotkey),
{
    hotkey.to_string()
}

/// `PartialEq` of `livesplit_hotkey::Hotkey`, which is derived: two hotkeys
/// are equal where their key codes and their modifiers are.
#[verifier::external_body]
fn hotkey_eq(left: &Hotkey, right: &Hotkey) -> (same: bool)
    ensures
        same == (*left == *right),
{
    left == right
}

/// `String::from_iter` of std: the text made of the given characters, in
/// their order.
#[verifier::external_body]
fn string_of_chars(chars: &Vec<char>) -> (text: String)
    ensures
        text@ == chars@,
{
    String::from_iter(chars)
}

/// The upper-case form of a lower-case ASCII letter; any other character
/// as it is.
pub open spec fn upper(c: char) -> char {
    if 'a' <= c <= 'z' {
        ((c as u8) - 32) as char
    } else {
        c
    }
}

/// Whether a part of a hotkey's text starts at `at`: the parts are joined by
/// `+`, with or without spaces.
pub open spec fn starts_part(text: Seq<char>, at: int) -> bool {
    at == 0 || text[at - 1] == '+' || text[at - 1] == ' '
}

/// The text with the first letter of each part in upper case.
pub open spec fn capitalised(text: Seq<char>) -> Seq<char> {
    Seq::new(
        text.len(),
        |i: int|
            if starts_part(text, i) {
                upper(text[i])
            } else {
                text[i]
            },
    )
}

/// The hotkey that a text names: the one that it spells or, where it spells
/// none as it stands, the one that it spells once each part is capitalised.
pub open spec fn hotkey_named(text: Seq<char>) -> Option<Hotkey> {
    choice(hotkey_of_text(text), hotkey_of_text(capitalised(text)))
}

/// The first reading where there is one, else the second.
pub open spec fn choice(exact: Option<Hotkey>, relaxed: Option<Hotkey>) -> Option<Hotkey> {
    if exact is Some {
        exact
    } else {
        relaxed
    }
}

/// Computes [`upper`].
pub fn to_upper(c: char) -> (raised: char)
    ensures
        raised == upper(c),
{
    if 'a' <= c && c <= 'z' {
        ((c as u8) - 32) as char
    } else {
        c
    }
}

/// Computes [`capitalised`].
pub fn capitalise(text: &str) -> (raised: String)
    ensures
        raised@ == capitalised(text@),
{
    let length: usize = text.unicode_len();
    let mut chars: Vec<char> = Vec::new();
    let mut starts = true;
    let mut at: usize = 0;
    while at < length
        invariant
            at <= length,
            length == text@.len(),
            chars@.len() == at,
            starts == starts_part(text@, at as int),
            forall|i: int| 0 <= i < at ==> chars@[i] == capitalised(text@)[i],
        decreases length - at,
    {
        let c = text.get_char(at);
        if starts {
            chars.push(to_upper(c));
        } else {
            chars.push(c);
        }
        starts = c == '+' || c == ' ';
        at += 1;
    }
    string_of_chars(&chars)
}

/// Picks between the two readings of a text: see [`hotkey_named`].
pub fn choose_reading(exact: Option<Hotkey>, relaxed: Option<Hotkey>) -> (chosen: Option<Hotkey>)
    ensures
        chosen == choice(exact, relaxed),
{
    match exact {
        Some(hotkey) => Some(hotkey),
        None => relaxed,
    }
}

/// Reads a hotkey from text such as `Ctrl + Alt + KeyC`. A text that names
/// its keys with a small first letter, such as `ctrl+alt+c`, is read as if
/// each part were capitalised.
pub fn parse_hotkey(text: &str) -> (parsed: Option<Hotkey>)
    ensures
        parsed == hotkey_named(text@),
{
    let exact = hotkey_from_str(text);
    let relaxed = if exact.is_some() {
        None
    } else {
        hotkey_from_str(capitalise(text).as_str())
    };
    choose_reading(exact, relaxed)
}

/// Writes a hotkey as text.
pub fn describe_hotkey(hotkey: &Hotkey) -> (text: String)
    ensures
        text@ == text_of_hotkey(*hotkey),
{
    hotkey_to_string(hotkey)
}

/// Whether two hotkeys are the same.
pub fn same_hotkey(left: &Hotkey, right: &Hotkey) -> (same: bool)
    ensures
        same == (*left == *right),
{
    hotkey_eq(left, right)
}

} // verus!
