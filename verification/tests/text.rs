use watchtower::text::{count_char_exec, find_first, find_last, trim_chars, trim_marked};

fn chars(s: &str) -> Vec<char> {
    s.chars().collect()
}

#[test]
fn trimming_strips_only_the_marked_ends() {
    let v = chars("..a.b..");
    let marks: Vec<bool> = v.iter().map(|c| *c == '.').collect();
    assert_eq!(trim_marked(&v, &marks), chars("a.b"));
    assert_eq!(trim_marked(&chars("..."), &vec![true, true, true]), chars(""));
    assert_eq!(trim_marked(&chars("ab"), &vec![false, false]), chars("ab"));
    assert_eq!(trim_chars(&chars(" \t x y \n\u{3000}")), chars("x y"));
    assert_eq!(trim_chars(&chars("   ")), chars(""));
}

#[test]
fn searching_finds_the_first_and_last_occurrence() {
    let v = chars("a-b-c");
    assert_eq!(find_first(&v, '-'), Some(1));
    assert_eq!(find_last(&v, '-'), Some(3));
    assert_eq!(find_first(&v, '+'), None);
    assert_eq!(count_char_exec(&v, '-'), 2);
}
