use axtc::patch::{
    belongs_to_block, contains_marker, find_block_end, find_marker, patch, Patched,
};

fn chars(s: &str) -> Vec<char> {
    s.chars().collect()
}

fn lines(items: &[&str]) -> Vec<Vec<char>> {
    items.iter().map(|s| chars(s)).collect()
}

fn block() -> Vec<String> {
    vec!["colors:".to_string(), "  primary:".to_string(), "    background: '0x000000'".to_string()]
}

const BLOCK_TEXT: &str = "colors:\n  primary:\n    background: '0x000000'\n";

#[test]
fn patch_replaces_the_block_and_keeps_the_rest() {
    let existing = "\
# Configuration
window:
  opacity: 0.9

colors:
  # old colours
  primary:
    background: '0xffffff'

  normal:
    black: '0x111111'
font:
  size: 11
# the end
";
    let expected = format!(
        "# Configuration\nwindow:\n  opacity: 0.9\n\n{}font:\n  size: 11\n# the end\n",
        BLOCK_TEXT
    );
    let out = patch(existing, "colors:", &block());
    assert_eq!(out, Patched { text: expected, replaced: true });
}

#[test]
fn patch_keeps_n_lines_before_and_m_lines_after() {
    for n in 0..4 {
        for m in 0..4 {
            let before: Vec<String> = (0..n).map(|i| format!("before{}: {}", i, i)).collect();
            let after: Vec<String> = (0..m).map(|i| format!("after{}:", i)).collect();
            let mut existing = String::new();
            for line in &before {
                existing.push_str(line);
                existing.push('\n');
            }
            existing.push_str("colors:\n  old: 1\n\n  # comment\n\told: 2\n");
            for line in &after {
                existing.push_str(line);
                existing.push('\n');
            }
            let mut expected = String::new();
            for line in &before {
                expected.push_str(line);
                expected.push('\n');
            }
            expected.push_str(BLOCK_TEXT);
            for line in &after {
                expected.push_str(line);
                expected.push('\n');
            }
            let out = patch(&existing, "colors:", &block());
            assert_eq!(out.text, expected);
            assert!(out.replaced);
        }
    }
}

#[test]
fn patch_without_marker_leaves_the_text_unchanged() {
    for existing in [
        "",
        "\n",
        "a",
        "a: 1\n",
        "a: 1  \r\nb: 2",
        "trailing \t \n\n\n   ",
        "window:\n  opacity: 1\n\n# colors:\n  colors:\n",
    ] {
        let out = patch(existing, "colors:", &block());
        assert_eq!(out, Patched { text: existing.to_string(), replaced: false });
        let out = patch(existing, "colors:", &Vec::new());
        assert_eq!(out, Patched { text: existing.to_string(), replaced: false });
    }
}

#[test]
fn patch_with_marker_strips_and_ends_the_kept_lines() {
    let out = patch("a: 1  \r\ncolors:\n x\nb: 2", "colors:", &block());
    assert_eq!(out, Patched { text: format!("a: 1\n{}b: 2\n", BLOCK_TEXT), replaced: true });
}

#[test]
fn the_marker_is_matched_exactly() {
    for line in ["Colors:", " colors:", "colors: ", "colors", "colors:x", "colors: # c", "\tcolors:"]
    {
        let existing = format!("{}\n  old: 1  \nlast", line);
        let out = patch(&existing, "colors:", &block());
        if line == "colors: " {
            assert!(out.replaced);
            assert_eq!(out.text, format!("{}last\n", BLOCK_TEXT));
        } else {
            assert!(!out.replaced, "{:?}", line);
            assert_eq!(out.text, existing);
        }
    }
}

#[test]
fn only_the_first_marker_counts() {
    let existing = "colors:\n  a: 1\nkey: v\ncolors:\n  b: 2\n";
    let out = patch(existing, "colors:", &block());
    assert_eq!(out.text, format!("{}key: v\ncolors:\n  b: 2\n", BLOCK_TEXT));
    let existing = "colors:\ncolors:\n  b: 2\n";
    let out = patch(existing, "colors:", &block());
    assert_eq!(out.text, format!("{}colors:\n  b: 2\n", BLOCK_TEXT));
}

#[test]
fn the_block_may_run_to_the_end() {
    for existing in ["colors:", "colors:\n", "colors:\n  a: 1", "colors:\n\n\n  a: 1\n#x\n   \n"] {
        let out = patch(existing, "colors:", &block());
        assert_eq!(out, Patched { text: BLOCK_TEXT.to_string(), replaced: true });
    }
}

#[test]
fn an_empty_block_removes_the_old_one() {
    let out = patch("a:\ncolors:\n  x: 1\nb:\n", "colors:", &Vec::new());
    assert_eq!(out, Patched { text: "a:\nb:\n".to_string(), replaced: true });
}

#[test]
fn patching_twice_is_patching_once() {
    for existing in [
        "",
        "a: 1\n",
        "colors:\n",
        "a:\n  b: 1  \ncolors:   \n  old\n#c\nz: 1\ncolors:\n  x\n",
    ] {
        let once = patch(existing, "colors:", &block());
        let twice = patch(&once.text, "colors:", &block());
        assert_eq!(twice.text, once.text);
        assert_eq!(twice.replaced, once.replaced);
    }
}

#[test]
fn lines_of_the_block_are_told_by_their_first_character() {
    for line in ["", "# comment", "#", "  key: 1", "\tkey", " ", "\u{a0}x"] {
        assert!(belongs_to_block(&chars(line)), "{:?}", line);
    }
    for line in ["key:", "- item", "colors:", "x #", "'q'"] {
        assert!(!belongs_to_block(&chars(line)), "{:?}", line);
    }
}

#[test]
fn markers_and_block_ends_are_found() {
    let file = lines(&["a:", "  b", "m", "", "#c", " d", "e", "m", " f"]);
    assert_eq!(find_marker(&file, &chars("m")), 2);
    assert_eq!(find_marker(&file, &chars("a:")), 0);
    assert_eq!(find_marker(&file, &chars("zz")), 9);
    assert_eq!(find_marker(&lines(&[]), &chars("m")), 0);
    assert_eq!(find_block_end(&file, 3), 6);
    assert_eq!(find_block_end(&file, 6), 6);
    assert_eq!(find_block_end(&file, 8), 9);
    assert_eq!(find_block_end(&file, 9), 9);
    assert_eq!(find_block_end(&file, 20), 9);
    assert!(contains_marker("a\nm  \nb", "m"));
    assert!(!contains_marker("a\n m\nb", "m"));
    assert!(!contains_marker("", "m"));
}
