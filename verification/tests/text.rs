use mechanix_keyboard::keysyms::{single_char_keysym, BACKSPACE, NO_SYMBOL};
use mechanix_keyboard::names::NameMap;
use mechanix_keyboard::text::{comes_before, is_blank, is_white_space, same_text, split_words};

#[test]
fn white_space_is_that_of_unicode() {
    for c in '\0'..=char::MAX {
        assert_eq!(is_white_space(c), c.is_whitespace(), "{:?}", c);
    }
}

#[test]
fn words_are_split_at_white_space() {
    for line in ["", " ", "a", " a", "a ", "a b", "  a\t\tbc \u{3000}é  ", "Shift_L z x", "\n"] {
        let want: Vec<String> = line.split_whitespace().map(|w| w.to_string()).collect();
        assert_eq!(split_words(line), want, "{:?}", line);
    }
}

#[test]
fn texts_compare_as_strings_do() {
    let texts = ["", "a", "ab", "abc", "b", "B", "é", "z", "\u{ffff}", "\u{10000}", "base", "bases"];
    for a in texts {
        for b in texts {
            assert_eq!(same_text(a, b), a == b);
            assert_eq!(comes_before(a, b), a < b, "{:?} {:?}", a, b);
        }
    }
}

#[test]
fn blank_texts() {
    for text in ["", " ", "\t\u{2003}", "a", " a ", "\u{200b}"] {
        assert_eq!(is_blank(text), text.trim().is_empty(), "{:?}", text);
    }
}

#[test]
fn keysyms_of_single_characters() {
    for c in '\0'..=char::MAX {
        let want = xkeysym::Keysym::from_char(c).raw();
        let got = single_char_keysym(&c.to_string());
        let number = c as u32;
        let noncharacter = (0xfdd0..=0xfdef).contains(&number) || number % 0x10000 >= 0xfffe;
        assert_eq!(got.is_none(), noncharacter, "{:?}", c);
        assert_eq!(got.unwrap_or(NO_SYMBOL), want, "{:?}", c);
        if (0x20..=0x7e).contains(&number) || (0xa0..=0xff).contains(&number) {
            assert_eq!(got, Some(number));
        }
    }
    assert_eq!(single_char_keysym(""), None);
    assert_eq!(single_char_keysym("ab"), None);
    assert_eq!(single_char_keysym("м"), Some(xkeysym::key::Cyrillic_em));
    assert_eq!(BACKSPACE, xkeysym::key::BackSpace);
    assert_eq!(NO_SYMBOL, xkeysym::key::NoSymbol);
}

#[test]
fn names_are_kept_in_order() {
    let mut map: NameMap<u32> = NameMap::new();
    assert_eq!(map.len(), 0);
    assert_eq!(map.get("a"), None);
    for (name, value) in [("m", 1), ("z", 2), ("a", 3), ("m", 4), ("mm", 5), ("", 6)] {
        map.insert(name.to_string(), value);
    }
    let walk: Vec<(&str, u32)> =
        (0..map.len()).map(|i| (map.entry(i).name.as_str(), map.entry(i).value)).collect();
    assert_eq!(walk, vec![("", 6), ("a", 3), ("m", 4), ("mm", 5), ("z", 2)]);
    assert_eq!(map.get("m"), Some(&4));
    assert_eq!(map.get(""), Some(&6));
    assert_eq!(map.get("b"), None);
}
