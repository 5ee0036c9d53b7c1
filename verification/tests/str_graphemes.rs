use text_buffer::contiguous_string::grapheme::Graphemes;

#[test]
fn graphemes_from_both_ends() {
    let s = "a\u{301}bc\r\nd";
    let mut g = Graphemes::new(s, true);
    assert_eq!(g.as_str(), s);
    assert_eq!(g.next(), Some("a\u{301}"));
    assert_eq!(g.next_back(), Some("d"));
    assert_eq!(g.next_back(), Some("\r\n"));
    assert_eq!(g.as_str(), "bc");
    assert_eq!(g.next(), Some("b"));
    assert_eq!(g.next(), Some("c"));
    assert_eq!(g.next(), None);
    assert_eq!(g.next_back(), None);
    assert_eq!(g.as_str(), "");
}

#[test]
fn graphemes_as_str_example() {
    let mut iter = Graphemes::new("abc", true);
    assert_eq!(iter.as_str(), "abc");
    iter.next();
    assert_eq!(iter.as_str(), "bc");
    iter.next();
    iter.next();
    assert_eq!(iter.as_str(), "");
}

#[test]
fn graphemes_legacy_and_extended() {
    let s = "हिन्दी";
    let mut legacy = Graphemes::new(s, false);
    assert_eq!(legacy.next(), Some("ह"));
    let mut extended = Graphemes::new(s, true);
    assert_eq!(extended.next(), Some("हि"));
}

#[test]
fn graphemes_size_hint() {
    let mut g = Graphemes::new("héllo", true);
    assert_eq!(g.size_hint(), (1, Some(6)));
    while g.next().is_some() {}
    assert_eq!(g.size_hint(), (0, Some(0)));
}

#[test]
fn graphemes_regional_indicators_pair_up() {
    let flags = "\u{1F1F7}\u{1F1F8}\u{1F1EE}\u{1F1F4}";
    let mut g = Graphemes::new(flags, false);
    assert_eq!(g.next(), Some("\u{1F1F7}\u{1F1F8}"));
    assert_eq!(g.next_back(), Some("\u{1F1EE}\u{1F1F4}"));
    assert_eq!(g.next(), None);
}

#[test]
fn graphemes_clone_iterates_independently() {
    let mut g = Graphemes::new("ab", true);
    assert_eq!(g.next(), Some("a"));
    let mut h = g.clone();
    assert_eq!(h.next(), Some("b"));
    assert_eq!(h.next(), None);
    assert_eq!(g.as_str(), "b");
    assert_eq!(g.next(), Some("b"));
}

#[test]
fn graphemes_both_ends_agree_with_front_only() {
    let s = "🇬🇧🇯🇵a\u{301}b\r\n語e\u{303}\u{303}!";
    let mut front_only = Vec::new();
    let mut g = Graphemes::new(s, true);
    while let Some(c) = g.next() {
        front_only.push(c);
    }
    assert_eq!(front_only.concat(), s);
    // Every pattern of front and back calls, given as a bit mask.
    for mask in 0u32..256 {
        let mut g = Graphemes::new(s, true);
        let mut fronts = Vec::new();
        let mut backs = Vec::new();
        let mut step = 0;
        loop {
            let from_back = mask & (1 << (step % 8)) != 0;
            step += 1;
            let item = if from_back { g.next_back() } else { g.next() };
            match item {
                Some(c) if from_back => backs.push(c),
                Some(c) => fronts.push(c),
                None => break,
            }
        }
        assert_eq!(g.next(), None);
        assert_eq!(g.next_back(), None);
        backs.reverse();
        fronts.extend(backs);
        assert_eq!(fronts, front_only);
    }
}
