use textswitch::matcher::Matcher;
use textswitch::trigger_map::TriggerMap;

fn map_with(triggers: &[(&str, &str)]) -> TriggerMap {
    let mut map = TriggerMap::new();
    for (t, r) in triggers {
        map.insert(t.to_string(), r.to_string());
    }
    map
}

#[test]
fn matches_exact_trigger() {
    let map = map_with(&[("cli", "X")]);
    let mut m = Matcher::new(8);
    for c in "cli".chars() {
        m.push_char(c);
    }
    assert_eq!(m.check(&map), Some("cli".to_string()));
}

#[test]
fn no_match_when_buffer_differs() {
    let map = map_with(&[("cli", "X")]);
    let mut m = Matcher::new(8);
    for c in "cl".chars() {
        m.push_char(c);
    }
    assert_eq!(m.check(&map), None);
}

#[test]
fn longer_word_containing_trigger_does_not_match() {
    // exact-equality: "specli" must NOT fire "cli"
    let map = map_with(&[("cli", "X")]);
    let mut m = Matcher::new(8);
    for c in "specli".chars() {
        m.push_char(c);
    }
    assert_eq!(m.check(&map), None);
}

#[test]
fn backspace_removes_last_char() {
    let map = map_with(&[("cli", "X")]);
    let mut m = Matcher::new(8);
    for c in "clix".chars() {
        m.push_char(c);
    }
    m.backspace();
    assert_eq!(m.check(&map), Some("cli".to_string()));
}

#[test]
fn reset_clears_buffer() {
    let map = map_with(&[("cli", "X")]);
    let mut m = Matcher::new(8);
    for c in "cli".chars() {
        m.push_char(c);
    }
    m.reset();
    assert_eq!(m.check(&map), None);
}

#[test]
fn buffer_is_capped() {
    // cap = 3, type 5 chars; only the last 3 are retained.
    let map = map_with(&[("cde", "X")]);
    let mut m = Matcher::new(3);
    for c in "abcde".chars() {
        m.push_char(c);
    }
    assert_eq!(m.check(&map), Some("cde".to_string()));
}

#[test]
fn backspace_on_empty_buffer_keeps_it_empty() {
    let map = map_with(&[("", "empty trigger")]);
    let mut m = Matcher::new(4);
    m.backspace();
    assert_eq!(m.check(&map), Some(String::new()));
}

#[test]
fn zero_capacity_holds_nothing() {
    let map = map_with(&[("a", "X")]);
    let mut m = Matcher::new(0);
    m.push_char('a');
    assert_eq!(m.check(&map), None);
}

#[test]
fn capped_buffer_keeps_last_characters_of_a_long_run() {
    // law: typing keeps the last `cap` characters of everything typed
    let map = map_with(&[("xyz", "X"), ("wxyz", "Y")]);
    let mut m = Matcher::new(3);
    for c in "uvwxyz".chars() {
        m.push_char(c);
    }
    assert_eq!(m.check(&map), Some("xyz".to_string()));
}

#[test]
fn multibyte_characters_count_as_one() {
    let map = map_with(&[("éa", "X")]);
    let mut m = Matcher::new(2);
    for c in "zéa".chars() {
        m.push_char(c);
    }
    assert_eq!(m.check(&map), Some("éa".to_string()));
    m.backspace();
    m.backspace();
    m.push_char('é');
    m.push_char('a');
    assert_eq!(m.check(&map), Some("éa".to_string()));
}

#[test]
fn backspace_undoes_a_typed_character_below_capacity() {
    let map = map_with(&[("ab", "X"), ("bc", "Y")]);
    let mut m = Matcher::new(3);
    m.push_char('a');
    m.push_char('b');
    m.push_char('x');
    m.backspace();
    assert_eq!(m.check(&map), Some("ab".to_string()));
    // at capacity the pushed-out character does not come back
    let mut m = Matcher::new(2);
    for c in "abc".chars() {
        m.push_char(c);
    }
    m.backspace();
    assert_eq!(m.check(&map), None);
}
